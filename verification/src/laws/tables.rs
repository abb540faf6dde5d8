//! What texts and tables stand for, cell by cell.
use vstd::prelude::*;
use crate::forcing::Columns;

verus! {

use crate::forcing::{
    cell_at, cell_value, column_from, columns_of, date_words, gap, header_fault, header_matches,
    pet_words, precip_words, qobs_words, record_fault, records_fault, rows_fault, series_of,
    TableFault,
};
use crate::laws::forcing::blank;
use crate::number::Arith;
use crate::text::{
    back_stripped, decimal_text, folded, folded_code, front_stripped, lowercase_text, stripped,
    white_space,
};

/// The number that a text of decimal digits denotes.
pub open spec fn denoted(s: Seq<char>) -> int
    decreases s.len(),
{
    if s.len() == 0 {
        0
    } else {
        10 * denoted(s.drop_last()) + (s.last() as u32 - 48)
    }
}

/// A count is written in decimal digits that denote it, without needless zeros.
pub proof fn counts_are_written_in_decimal(n: nat)
    ensures
        denoted(decimal_text(n)) == n,
        decimal_text(n).len() > 0,
        forall|i: int|
            0 <= i < decimal_text(n).len() ==> 48 <= (#[trigger] decimal_text(n)[i]) as u32 <= 57,
        decimal_text(n).len() > 1 ==> decimal_text(n)[0] as u32 != 48,
    decreases n,
{
    let s = decimal_text(n);
    if n < 10 {
        assert(s.drop_last() =~= Seq::<char>::empty());
        assert(denoted(s.drop_last()) == 0);
    } else {
        counts_are_written_in_decimal(n / 10);
        let front = decimal_text(n / 10);
        assert(s.drop_last() =~= front);
        if front.len() == 1 {
            assert(front.drop_last() =~= Seq::<char>::empty());
            assert(denoted(front.drop_last()) == 0);
            assert(denoted(front) == front[0] as u32 - 48);
        }
        assert(s[0] == front[0]);
        assert forall|i: int| 0 <= i < s.len() implies 48 <= (#[trigger] s[i]) as u32 <= 57 by {
            if i < front.len() {
                assert(s[i] == front[i]);
            }
        }
    }
}

/// White space is what Unicode counts as such: these characters and no others.
pub proof fn white_space_is_what_unicode_counts(c: char)
    ensures
        white_space(c) <==> seq![
            0x09u32, 0x0A, 0x0B, 0x0C, 0x0D, 0x20, 0x85, 0xA0, 0x1680, 0x2000, 0x2001, 0x2002,
            0x2003, 0x2004, 0x2005, 0x2006, 0x2007, 0x2008, 0x2009, 0x200A, 0x2028, 0x2029, 0x202F,
            0x205F, 0x3000,
        ].contains(c as u32),
{
    let all = seq![
        0x09u32, 0x0A, 0x0B, 0x0C, 0x0D, 0x20, 0x85, 0xA0, 0x1680, 0x2000, 0x2001, 0x2002,
        0x2003, 0x2004, 0x2005, 0x2006, 0x2007, 0x2008, 0x2009, 0x200A, 0x2028, 0x2029, 0x202F,
        0x205F, 0x3000,
    ];
    let u = c as u32;
    if white_space(c) {
        if u <= 0x0D {
            assert(all[u - 0x09] == u);
        } else if 0x2000 <= u <= 0x200A {
            assert(all[9 + u - 0x2000] == u);
        } else {
            assert(all[5] == 0x20 && all[6] == 0x85 && all[7] == 0xA0 && all[8] == 0x1680);
            assert(all[20] == 0x2028 && all[21] == 0x2029 && all[22] == 0x202F);
            assert(all[23] == 0x205F && all[24] == 0x3000);
        }
    }
}

/// What is stripped from the front is white space.
proof fn lemma_front_split(s: Seq<char>)
    ensures
        front_stripped(s).len() <= s.len(),
        s.skip(s.len() - front_stripped(s).len()) == front_stripped(s),
        blank(s.take(s.len() - front_stripped(s).len())),
        front_stripped(s).len() > 0 ==> !white_space(front_stripped(s)[0]),
    decreases s.len(),
{
    if s.len() > 0 && white_space(s[0]) {
        let rest = s.skip(1);
        lemma_front_split(rest);
        let r = front_stripped(s);
        let k = s.len() - r.len();
        assert(s.skip(k) =~= rest.skip(k - 1));
        assert forall|i: int| 0 <= i < s.take(k).len() implies white_space(
            #[trigger] s.take(k)[i],
        ) by {
            if i > 0 {
                assert(rest.take(k - 1)[i - 1] == s.take(k)[i]);
            }
        }
    } else {
        assert(s.skip(0) =~= s);
        assert(s.take(0).len() == 0);
    }
}

/// What is stripped from the back is white space.
proof fn lemma_back_split(s: Seq<char>)
    ensures
        back_stripped(s).len() <= s.len(),
        s.take(back_stripped(s).len() as int) == back_stripped(s),
        blank(s.skip(back_stripped(s).len() as int)),
        back_stripped(s).len() > 0 ==> !white_space(back_stripped(s).last()),
        back_stripped(s).len() > 0 ==> back_stripped(s)[0] == s[0],
    decreases s.len(),
{
    if s.len() > 0 && white_space(s.last()) {
        let rest = s.drop_last();
        lemma_back_split(rest);
        let k = back_stripped(s).len() as int;
        assert(s.take(k) =~= rest.take(k));
        assert forall|i: int| 0 <= i < s.skip(k).len() implies white_space(
            #[trigger] s.skip(k)[i],
        ) by {
            if i < rest.skip(k).len() {
                assert(rest.skip(k)[i] == s.skip(k)[i]);
            }
        }
    } else {
        assert(s.take(s.len() as int) =~= s);
        assert(s.skip(s.len() as int).len() == 0);
    }
}

/// Stripping takes off white space at either end, all of it and nothing else.
pub proof fn stripping_takes_off_white_space(s: Seq<char>)
    ensures
        exists|before: Seq<char>, after: Seq<char>|
            blank(before) && blank(after) && s == #[trigger] (before + stripped(s) + after),
        stripped(s).len() > 0 ==> !white_space(stripped(s)[0]) && !white_space(
            stripped(s).last(),
        ),
{
    lemma_front_split(s);
    let f = front_stripped(s);
    lemma_back_split(f);
    let r = stripped(s);
    let before = s.take(s.len() - f.len());
    let after = f.skip(r.len() as int);
    assert(f =~= r + after);
    assert(s =~= before + r + after);
}

/// Two characters count as the same but for case exactly where they are the same
/// or the two cases of one ASCII letter.
pub proof fn case_folds_ascii_letters_only(a: char, b: char)
    ensures
        folded_code(a) == folded_code(b) <==> {
            ||| a as u32 == b as u32
            ||| (65 <= a as u32 <= 90 && b as u32 == a as u32 + 32)
            ||| (65 <= b as u32 <= 90 && a as u32 == b as u32 + 32)
        },
{
}

/// Whether a character is this ASCII letter, small or capital, by its codes.
pub open spec fn either_case(c: char, capital: u32) -> bool {
    c as u32 == capital || c as u32 == capital + 32
}

/// A cell is a gap exactly where it holds nothing, or the letters `na` or `nan` in
/// either case, between white space. Any other cell holds the number that its
/// text denotes, if it denotes one.
pub proof fn cells_are_gaps_or_numbers<F: Arith>(s: Seq<char>)
    ensures
        ({
            let v = stripped(s);
            let missing = {
                ||| v.len() == 0
                ||| (v.len() == 2 && either_case(v[0], 78) && either_case(v[1], 65))
                ||| (v.len() == 3 && either_case(v[0], 78) && either_case(v[1], 65)
                    && either_case(v[2], 78))
            };
            &&& gap(s) <==> missing
            &&& missing ==> cell_value::<F>(s) == Some(F::nothing())
            &&& !missing ==> cell_value::<F>(s) == F::parsed(v)
        }),
{
    reveal_strlit("na");
    reveal_strlit("nan");
    let v = stripped(s);
    let (na, nan) = (folded("na"@), folded("nan"@));
    assert(na.len() == 2 && na[0] == 110 && na[1] == 97);
    assert(nan.len() == 3 && nan[0] == 110 && nan[1] == 97 && nan[2] == 110);
    let f = folded(v);
    assert(f.len() == v.len());
    if v.len() == 2 {
        assert(f[0] == folded_code(v[0]) && f[1] == folded_code(v[1]));
        if either_case(v[0], 78) && either_case(v[1], 65) {
            assert(f =~= na);
        }
    }
    if v.len() == 3 {
        assert(f[0] == folded_code(v[0]) && f[1] == folded_code(v[1]) && f[2] == folded_code(
            v[2],
        ));
        if either_case(v[0], 78) && either_case(v[1], 65) && either_case(v[2], 78) {
            assert(f =~= nan);
        }
    }
}

/// Columns go by exactly these names, whatever the case of a header and the white
/// space around it.
pub proof fn columns_go_by_these_names(header: Seq<char>)
    ensures
        ({
            let k = lowercase_text(stripped(header));
            &&& header_matches(header, date_words()) <==> k == "date"@ || k == "fecha"@ || k
                == "time"@ || k == "dates"@
            &&& header_matches(header, precip_words()) <==> k == "p"@ || k == "precip"@ || k
                == "precipitation"@ || k == "pr"@ || k == "pcp"@ || k == "prcp"@ || k
                == "precip_mm"@
            &&& header_matches(header, pet_words()) <==> k == "pet"@ || k == "etp"@ || k == "e"@
                || k == "evap"@ || k == "pet_mm"@ || k == "pe"@
            &&& header_matches(header, qobs_words()) <==> k == "q"@ || k == "qobs"@ || k
                == "q_mm"@ || k == "qmm"@ || k == "discharge"@ || k == "caudal"@ || k
                == "streamflow"@
        }),
{
    let (d, p, e, q) = (date_words(), precip_words(), pet_words(), qobs_words());
    assert(d[0] == "date"@ && d[1] == "fecha"@ && d[2] == "time"@ && d[3] == "dates"@);
    assert(p[0] == "p"@ && p[1] == "precip"@ && p[2] == "precipitation"@ && p[3] == "pr"@);
    assert(p[4] == "pcp"@ && p[5] == "prcp"@ && p[6] == "precip_mm"@);
    assert(e[0] == "pet"@ && e[1] == "etp"@ && e[2] == "e"@ && e[3] == "evap"@);
    assert(e[4] == "pet_mm"@ && e[5] == "pe"@);
    assert(q[0] == "q"@ && q[1] == "qobs"@ && q[2] == "q_mm"@ && q[3] == "qmm"@);
    assert(q[4] == "discharge"@ && q[5] == "caudal"@ && q[6] == "streamflow"@);
}

/// A column is the first whose header is one of the names.
pub proof fn columns_are_the_first_of_their_name(
    headers: Seq<Seq<char>>,
    words: Seq<Seq<char>>,
    i: nat,
)
    requires
        headers.len() <= usize::MAX,
    ensures
        match column_from(headers, words, i) {
            Some(c) => {
                &&& i <= c < headers.len()
                &&& header_matches(headers[c as int], words)
                &&& forall|j: int| i <= j < c ==> !header_matches(#[trigger] headers[j], words)
            },
            None => forall|j: int|
                i <= j < headers.len() ==> !header_matches(#[trigger] headers[j], words),
        },
    decreases headers.len() - i,
{
    if i < headers.len() && !header_matches(headers[i as int], words) {
        columns_are_the_first_of_their_name(headers, words, i + 1);
    }
}

/// A header row is accepted exactly where it names precipitation, PET and dates.
pub proof fn headers_must_name_three_columns(headers: Seq<Seq<char>>)
    requires
        headers.len() <= usize::MAX,
    ensures
        header_fault(headers) is None <==> {
            &&& exists|i: int|
                0 <= i < headers.len() && header_matches(#[trigger] headers[i], precip_words())
            &&& exists|i: int|
                0 <= i < headers.len() && header_matches(#[trigger] headers[i], pet_words())
            &&& exists|i: int|
                0 <= i < headers.len() && header_matches(#[trigger] headers[i], date_words())
        },
{
    columns_are_the_first_of_their_name(headers, precip_words(), 0);
    columns_are_the_first_of_their_name(headers, pet_words(), 0);
    columns_are_the_first_of_their_name(headers, date_words(), 0);
    if header_fault(headers) is None {
        let p = column_from(headers, precip_words(), 0)->0 as int;
        let e = column_from(headers, pet_words(), 0)->0 as int;
        let d = column_from(headers, date_words(), 0)->0 as int;
        assert(header_matches(headers[p], precip_words()));
        assert(header_matches(headers[e], pet_words()));
        assert(header_matches(headers[d], date_words()));
    }
}

/// A record is accepted exactly where precipitation and PET are finite numbers,
/// and observed discharge, where there is any, is a number or a gap.
pub proof fn records_must_hold_numbers<F: Arith>(
    columns: Columns,
    record: Seq<Seq<char>>,
    row: nat,
)
    ensures
        record_fault::<F>(columns, record, row) is None <==> {
            let p = cell_value::<F>(cell_at(record, columns.precip));
            let e = cell_value::<F>(cell_at(record, columns.pet));
            &&& p is Some && p->0.finite()
            &&& e is Some && e->0.finite()
            &&& columns.qobs is Some ==> cell_value::<F>(
                cell_at(record, columns.qobs->0),
            ) is Some
        },
{
}

/// Step `i` of the series comes from record `i`: its date, its precipitation, its
/// PET and its observed discharge, each from its own column.
pub proof fn steps_come_from_their_records<F: Arith>(
    columns: Columns,
    records: Seq<Result<Seq<Seq<char>>, Seq<char>>>,
    n: nat,
    i: int,
)
    requires
        0 <= i < n <= records.len(),
        columns.date < records[i]->Ok_0.len(),
        columns.precip < records[i]->Ok_0.len(),
        columns.pet < records[i]->Ok_0.len(),
        columns.qobs is Some ==> columns.qobs->0 < records[i]->Ok_0.len(),
    ensures
        ({
            let s = series_of::<F>(columns, records, n);
            let record = records[i]->Ok_0;
            &&& s.dates.len() == n && s.precip.len() == n && s.pet.len() == n
            &&& s.dates[i] == record[columns.date as int]
            &&& cell_value::<F>(record[columns.precip as int]) is Some ==> cell_value::<F>(
                record[columns.precip as int],
            ) == Some(s.precip[i])
            &&& cell_value::<F>(record[columns.pet as int]) is Some ==> cell_value::<F>(
                record[columns.pet as int],
            ) == Some(s.pet[i])
            &&& columns.qobs is Some <==> s.qobs is Some
            &&& columns.qobs is Some ==> s.qobs->0.len() == n && (cell_value::<F>(
                record[columns.qobs->0 as int],
            ) is Some ==> cell_value::<F>(record[columns.qobs->0 as int]) == Some(s.qobs->0[i]))
        }),
    decreases n,
{
    lemma_series_len::<F>(columns, records, (n - 1) as nat);
    if i < n - 1 {
        steps_come_from_their_records::<F>(columns, records, (n - 1) as nat, i);
    }
}

/// Series have as many steps as there are records.
proof fn lemma_series_len<F: Arith>(
    columns: Columns,
    records: Seq<Result<Seq<Seq<char>>, Seq<char>>>,
    n: nat,
)
    ensures
        ({
            let s = series_of::<F>(columns, records, n);
            &&& s.dates.len() == n && s.precip.len() == n && s.pet.len() == n
            &&& columns.qobs is Some <==> s.qobs is Some
            &&& columns.qobs is Some ==> s.qobs->0.len() == n
        }),
    decreases n,
{
    if n > 0 {
        lemma_series_len::<F>(columns, records, (n - 1) as nat);
    }
}

/// Records have no fault exactly where none of them has.
proof fn lemma_records_fault<F: Arith>(
    columns: Columns,
    records: Seq<Result<Seq<Seq<char>>, Seq<char>>>,
    i: nat,
)
    ensures
        records_fault::<F>(columns, records, i) is None <==> forall|j: int|
            i <= j < records.len() ==> (#[trigger] records[j]) is Ok && record_fault::<F>(
                columns,
                records[j]->Ok_0,
                (j + 2) as nat,
            ) is None,
    decreases records.len() - i,
{
    if i < records.len() {
        lemma_records_fault::<F>(columns, records, i + 1);
        let r = records[i as int];
        if records_fault::<F>(columns, records, i) is None {
            assert forall|j: int| i <= j < records.len() implies (#[trigger] records[j]) is Ok
                && record_fault::<F>(columns, records[j]->Ok_0, (j + 2) as nat) is None by {}
        }
    }
}

/// A table is accepted exactly where its header row is readable and accepted, it
/// has records, and each of them is readable and accepted.
pub proof fn tables_are_accepted_record_by_record<F: Arith>(
    headers: Result<Seq<Seq<char>>, Seq<char>>,
    records: Seq<Result<Seq<Seq<char>>, Seq<char>>>,
)
    ensures
        rows_fault::<F>(headers, records) is None <==> {
            &&& headers is Ok && header_fault(headers->Ok_0) is None
            &&& records.len() > 0
            &&& forall|j: int|
                0 <= j < records.len() ==> (#[trigger] records[j]) is Ok && record_fault::<F>(
                    columns_of(headers->Ok_0),
                    records[j]->Ok_0,
                    (j + 2) as nat,
                ) is None
        },
{
    if headers is Ok {
        lemma_records_fault::<F>(columns_of(headers->Ok_0), records, 0);
    }
}

/// The columns of an accepted header row are each the first of their name.
pub proof fn columns_carry_their_names(headers: Seq<Seq<char>>)
    requires
        headers.len() <= usize::MAX,
        header_fault(headers) is None,
    ensures
        ({
            let c = columns_of(headers);
            &&& c.date < headers.len() && header_matches(headers[c.date as int], date_words())
            &&& c.precip < headers.len() && header_matches(
                headers[c.precip as int],
                precip_words(),
            )
            &&& c.pet < headers.len() && header_matches(headers[c.pet as int], pet_words())
            &&& c.qobs is Some ==> c.qobs->0 < headers.len() && header_matches(
                headers[c.qobs->0 as int],
                qobs_words(),
            )
            &&& c.qobs is None ==> forall|j: int|
                0 <= j < headers.len() ==> !header_matches(#[trigger] headers[j], qobs_words())
            &&& forall|j: int|
                0 <= j < c.date ==> !header_matches(#[trigger] headers[j], date_words())
            &&& forall|j: int|
                0 <= j < c.precip ==> !header_matches(#[trigger] headers[j], precip_words())
            &&& forall|j: int|
                0 <= j < c.pet ==> !header_matches(#[trigger] headers[j], pet_words())
            &&& c.qobs is Some ==> forall|j: int|
                0 <= j < c.qobs->0 ==> !header_matches(#[trigger] headers[j], qobs_words())
        }),
{
    columns_are_the_first_of_their_name(headers, precip_words(), 0);
    columns_are_the_first_of_their_name(headers, pet_words(), 0);
    columns_are_the_first_of_their_name(headers, date_words(), 0);
    columns_are_the_first_of_their_name(headers, qobs_words(), 0);
}

/// A table is rejected for its first record that is unreadable or faulty, whose row
/// is counted with the header row as row one.
pub proof fn the_first_faulty_record_counts<F: Arith>(
    headers: Seq<Seq<char>>,
    records: Seq<Result<Seq<Seq<char>>, Seq<char>>>,
    j: nat,
)
    requires
        header_fault(headers) is None,
        j < records.len(),
        forall|i: int|
            0 <= i < j ==> (#[trigger] records[i]) is Ok && record_fault::<F>(
                columns_of(headers),
                records[i]->Ok_0,
                (i + 2) as nat,
            ) is None,
    ensures
        match records[j as int] {
            Err(reason) => rows_fault::<F>(Ok(headers), records) == Some(
                TableFault::Unreadable { row: j + 2, reason },
            ),
            Ok(record) => record_fault::<F>(columns_of(headers), record, j + 2) is Some
                ==> rows_fault::<F>(Ok(headers), records) == record_fault::<F>(
                columns_of(headers),
                record,
                j + 2,
            ),
        },
{
    lemma_skip_sound::<F>(columns_of(headers), records, 0, j);
}

/// Sound records are passed over.
proof fn lemma_skip_sound<F: Arith>(
    columns: Columns,
    records: Seq<Result<Seq<Seq<char>>, Seq<char>>>,
    i: nat,
    j: nat,
)
    requires
        i <= j < records.len(),
        forall|k: int|
            i <= k < j ==> (#[trigger] records[k]) is Ok && record_fault::<F>(
                columns,
                records[k]->Ok_0,
                (k + 2) as nat,
            ) is None,
    ensures
        records_fault::<F>(columns, records, i) == records_fault::<F>(columns, records, j),
    decreases j - i,
{
    if i < j {
        assert(records[i as int] is Ok);
        lemma_skip_sound::<F>(columns, records, i + 1, j);
    }
}

} // verus!
