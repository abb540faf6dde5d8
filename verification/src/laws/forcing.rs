//! Laws of forcing tables.
use vstd::prelude::*;
use crate::forcing::Columns;

verus! {

use crate::forcing::{cell_at, cell_value, gap, header_matches, record_fault};
use crate::number::Arith;
use crate::text::{back_stripped, front_stripped, stripped, white_space};

/// Whether a text is nothing but white space.
pub open spec fn blank(s: Seq<char>) -> bool {
    forall|i: int| 0 <= i < s.len() ==> white_space(#[trigger] s[i])
}

/// Leading white space is dropped.
proof fn lemma_front(before: Seq<char>, rest: Seq<char>)
    requires
        blank(before),
    ensures
        front_stripped(before + rest) == front_stripped(rest),
    decreases before.len(),
{
    let s = before + rest;
    if before.len() > 0 {
        assert(white_space(before[0]));
        let less = before.skip(1);
        assert forall|i: int| 0 <= i < less.len() implies white_space(#[trigger] less[i]) by {
            assert(less[i] == before[i + 1]);
        }
        lemma_front(less, rest);
        assert(s.skip(1) =~= less + rest);
    } else {
        assert(s =~= rest);
    }
}

/// Trailing white space is dropped.
proof fn lemma_back(rest: Seq<char>, after: Seq<char>)
    requires
        blank(after),
    ensures
        back_stripped(rest + after) == back_stripped(rest),
    decreases after.len(),
{
    let s = rest + after;
    if after.len() > 0 {
        assert(white_space(after[after.len() - 1]));
        let less = after.drop_last();
        assert forall|i: int| 0 <= i < less.len() implies white_space(#[trigger] less[i]) by {
            assert(less[i] == after[i]);
        }
        lemma_back(rest, less);
        assert(s.drop_last() =~= rest + less);
    } else {
        assert(s =~= rest);
    }
}

/// Stripping the front of a text leaves white space behind it in place, unless
/// the text is blank.
proof fn lemma_front_keeps_back(s: Seq<char>, after: Seq<char>)
    requires
        blank(after),
    ensures
        back_stripped(front_stripped(s + after)) == back_stripped(front_stripped(s)),
    decreases s.len(),
{
    let whole = s + after;
    if s.len() == 0 {
        let none = Seq::<char>::empty();
        assert(whole =~= after + none);
        lemma_front(after, none);
        assert(s =~= none);
    } else if white_space(s[0]) {
        lemma_front_keeps_back(s.skip(1), after);
        assert(whole.skip(1) =~= s.skip(1) + after);
    } else {
        lemma_back(s, after);
    }
}

/// White space around a text does not matter: not to a header, not to the
/// number in a cell.
pub proof fn surrounding_white_space_does_not_matter<F: Arith>(
    before: Seq<char>,
    s: Seq<char>,
    after: Seq<char>,
    words: Seq<Seq<char>>,
)
    requires
        blank(before),
        blank(after),
    ensures
        stripped(before + s + after) == stripped(s),
        header_matches(before + s + after, words) == header_matches(s, words),
        cell_value::<F>(before + s + after) == cell_value::<F>(s),
{
    assert(before + s + after =~= before + (s + after));
    lemma_front(before, s + after);
    lemma_front_keeps_back(s, after);
}

/// A blank cell is a gap.
pub proof fn blank_cells_are_gaps<F: Arith>(s: Seq<char>)
    requires
        blank(s),
    ensures
        gap(s),
        cell_value::<F>(s) == Some(F::nothing()),
{
    let none = Seq::<char>::empty();
    assert(s + none =~= s);
    lemma_front(s, none);
}

/// A gap in precipitation or PET gets a record rejected, where the undefined
/// number does not count as finite.
pub proof fn gaps_in_the_inputs_are_rejected<F: Arith>(
    columns: Columns,
    record: Seq<Seq<char>>,
    row: nat,
)
    requires
        !F::nothing().finite(),
        gap(cell_at(record, columns.precip)) || gap(cell_at(record, columns.pet)),
    ensures
        record_fault::<F>(columns, record, row) is Some,
{
}

/// A gap in the observed discharge does not get a record rejected.
pub proof fn gaps_in_the_discharge_are_allowed<F: Arith>(
    columns: Columns,
    record: Seq<Seq<char>>,
    row: nat,
)
    requires
        columns.qobs is Some,
        gap(cell_at(record, columns.qobs->0)),
    ensures
        record_fault::<F>(columns, record, row) == record_fault::<F>(
            Columns { qobs: None, ..columns },
            record,
            row,
        ),
{
}

} // verus!
