//! Goodness-of-fit metrics for hydrological simulation.
//!
//! All metrics ignore time steps where either series is non-finite (missing
//! observations are undefined numbers), pairing the remaining values.
use vstd::prelude::*;
use vstd::string::*;
use crate::number::Scalar;
use crate::text::{around, decimal};

verus! {

use crate::number::{lemma_sum_step, one, sum, zero, Arith};
use crate::text::decimal_text;

/// Why a metric is not defined.
#[derive(Debug)]
pub enum MetricsError {
    /// The series differ in length.
    LengthMismatch {
        /// Steps of the observed series.
        obs: usize,
        /// Steps of the simulated series.
        sim: usize,
    },
    /// Fewer than two valid pairs; how many there are.
    InsufficientData(usize),
    /// The observed series has zero variance.
    ZeroVariance,
    /// The observed series sums to zero.
    ZeroObsSum,
}

/// The text of a metrics error.
pub open spec fn metrics_text(e: MetricsError) -> Seq<char> {
    match e {
        MetricsError::LengthMismatch { obs, sim } => {
            "series length mismatch: obs has "@ + decimal_text(obs as nat) + " steps, sim has "@
                + decimal_text(sim as nat)
        },
        MetricsError::InsufficientData(n) => {
            "need at least 2 valid (obs, sim) pairs, found "@ + decimal_text(n as nat)
        },
        MetricsError::ZeroVariance => "observed series has zero variance"@,
        MetricsError::ZeroObsSum => "observed series sums to zero; relative bias is undefined"@,
    }
}

impl MetricsError {
    /// The message of this error.
    pub fn message(&self) -> (r: String)
        ensures
            r@ == metrics_text(*self),
    {
        match self {
            MetricsError::LengthMismatch { obs, sim } => {
                let mut r = around("series length mismatch: obs has ", *obs, " steps, sim has ");
                r.append(decimal(*sim).as_str());
                r
            },
            MetricsError::InsufficientData(n) => {
                let mut r = "need at least 2 valid (obs, sim) pairs, found ".to_owned();
                r.append(decimal(*n).as_str());
                r
            },
            MetricsError::ZeroVariance => "observed series has zero variance".to_owned(),
            MetricsError::ZeroObsSum => {
                "observed series sums to zero; relative bias is undefined".to_owned()
            },
        }
    }
}

/// Decomposed Kling-Gupta efficiency (Gupta et al. 2009).
#[derive(Debug, Clone, Copy, PartialEq)]
pub struct KgeComponents<F> {
    /// Linear correlation between obs and sim.
    pub r: F,
    /// Variability ratio of sim to obs (standard deviations).
    pub alpha: F,
    /// Bias ratio of sim to obs (means).
    pub beta: F,
}

/// `KGE = 1 - sqrt((r-1)^2 + (alpha-1)^2 + (beta-1)^2)`.
pub open spec fn kge_of<F: Arith>(c: KgeComponents<F>) -> F {
    let d2 = c.r.minus(one()).int_raised(2).plus(c.alpha.minus(one()).int_raised(2)).plus(
        c.beta.minus(one()).int_raised(2),
    );
    one::<F>().minus(d2.root())
}

impl<F: Scalar> KgeComponents<F> {
    /// `KGE = 1 - sqrt((r-1)^2 + (alpha-1)^2 + (beta-1)^2)`.
    pub fn kge(&self) -> (k: F)
        ensures
            k == kge_of(*self),
    {
        let one = F::ratio(1, 1);
        let d2 = self.r.sub(one).powi(2).add(self.alpha.sub(one).powi(2)).add(
            self.beta.sub(one).powi(2),
        );
        one.sub(d2.sqrt())
    }
}

/// The pairs of values that are both finite, in order.
pub open spec fn valid_pairs<F: Arith>(obs: Seq<F>, sim: Seq<F>) -> Seq<(F, F)>
    decreases obs.len(),
{
    if obs.len() == 0 {
        Seq::empty()
    } else {
        let rest = valid_pairs(obs.drop_last(), sim.drop_last());
        if obs.last().finite() && sim.last().finite() {
            rest.push((obs.last(), sim.last()))
        } else {
            rest
        }
    }
}

/// The valid pairs, where the series match and there are at least two.
pub open spec fn paired_result<F: Arith>(obs: Seq<F>, sim: Seq<F>) -> Result<
    Seq<(F, F)>,
    MetricsError,
> {
    if obs.len() != sim.len() {
        Err(MetricsError::LengthMismatch { obs: obs.len() as usize, sim: sim.len() as usize })
    } else if valid_pairs(obs, sim).len() < 2 {
        Err(MetricsError::InsufficientData(valid_pairs(obs, sim).len() as usize))
    } else {
        Ok(valid_pairs(obs, sim))
    }
}

/// The observed values of the pairs.
pub open spec fn observed<F>(pairs: Seq<(F, F)>) -> Seq<F> {
    Seq::new(pairs.len(), |i: int| pairs[i].0)
}

/// The simulated values of the pairs.
pub open spec fn simulated<F>(pairs: Seq<(F, F)>) -> Seq<F> {
    Seq::new(pairs.len(), |i: int| pairs[i].1)
}

/// Mean of a series.
pub open spec fn mean_of<F: Arith>(s: Seq<F>) -> F {
    sum(s).over(F::natural(s.len()))
}

/// Squared deviations of a series from `centre`.
pub open spec fn square_deviations<F: Arith>(s: Seq<F>, centre: F) -> Seq<F> {
    Seq::new(s.len(), |i: int| s[i].minus(centre).int_raised(2))
}

/// Squared errors of the simulation.
pub open spec fn square_errors<F: Arith>(pairs: Seq<(F, F)>) -> Seq<F> {
    Seq::new(pairs.len(), |i: int| pairs[i].1.minus(pairs[i].0).int_raised(2))
}

/// Errors of the simulation.
pub open spec fn errors<F: Arith>(pairs: Seq<(F, F)>) -> Seq<F> {
    Seq::new(pairs.len(), |i: int| pairs[i].1.minus(pairs[i].0))
}

/// Products of the deviations of both series from their centres.
pub open spec fn cross_deviations<F: Arith>(pairs: Seq<(F, F)>, om: F, sm: F) -> Seq<F> {
    Seq::new(pairs.len(), |i: int| pairs[i].0.minus(om).times(pairs[i].1.minus(sm)))
}

/// Sum of squared deviations of the observed values from their mean.
pub open spec fn observed_spread<F: Arith>(pairs: Seq<(F, F)>) -> F {
    sum(square_deviations(observed(pairs), mean_of(observed(pairs))))
}

/// Sum of squared deviations of the simulated values from their mean.
pub open spec fn simulated_spread<F: Arith>(pairs: Seq<(F, F)>) -> F {
    sum(square_deviations(simulated(pairs), mean_of(simulated(pairs))))
}

/// Sum of the products of the deviations of both series from their means.
pub open spec fn joint_spread<F: Arith>(pairs: Seq<(F, F)>) -> F {
    sum(cross_deviations(pairs, mean_of(observed(pairs)), mean_of(simulated(pairs))))
}

/// Nash-Sutcliffe efficiency.
pub open spec fn nse_result<F: Arith>(obs: Seq<F>, sim: Seq<F>) -> Result<F, MetricsError> {
    match paired_result(obs, sim) {
        Err(e) => Err(e),
        Ok(pairs) => if observed_spread(pairs).same(zero()) {
            Err(MetricsError::ZeroVariance)
        } else {
            Ok(one::<F>().minus(sum(square_errors(pairs)).over(observed_spread(pairs))))
        },
    }
}

/// The offset added before taking logarithms: one hundredth of the mean.
pub open spec fn log_offset<F: Arith>(pairs: Seq<(F, F)>) -> F {
    mean_of(observed(pairs)).over(F::literal(100, 1))
}

/// Logarithms of a series shifted by `eps`.
pub open spec fn shifted_logs<F: Arith>(s: Seq<F>, eps: F) -> Seq<F> {
    Seq::new(s.len(), |i: int| s[i].plus(eps).log())
}

/// Nash-Sutcliffe efficiency of the logarithms.
pub open spec fn log_nse_result<F: Arith>(obs: Seq<F>, sim: Seq<F>) -> Result<F, MetricsError> {
    match paired_result(obs, sim) {
        Err(e) => Err(e),
        Ok(pairs) => nse_result(
            shifted_logs(observed(pairs), log_offset(pairs)),
            shifted_logs(simulated(pairs), log_offset(pairs)),
        ),
    }
}

/// Components of the Kling-Gupta efficiency.
pub open spec fn kge_components_result<F: Arith>(obs: Seq<F>, sim: Seq<F>) -> Result<
    KgeComponents<F>,
    MetricsError,
> {
    match paired_result(obs, sim) {
        Err(e) => Err(e),
        Ok(pairs) => {
            let var_o = observed_spread(pairs);
            let var_s = simulated_spread(pairs);
            let om = mean_of(observed(pairs));
            if var_o.same(zero()) || om.same(zero()) {
                Err(MetricsError::ZeroVariance)
            } else {
                Ok(
                    KgeComponents {
                        r: joint_spread(pairs).over(var_o.root().times(var_s.root())),
                        alpha: var_s.root().over(var_o.root()),
                        beta: mean_of(simulated(pairs)).over(om),
                    },
                )
            }
        },
    }
}

/// Kling-Gupta efficiency.
pub open spec fn kge_result<F: Arith>(obs: Seq<F>, sim: Seq<F>) -> Result<F, MetricsError> {
    match kge_components_result(obs, sim) {
        Err(e) => Err(e),
        Ok(c) => Ok(kge_of(c)),
    }
}

/// Percent bias.
pub open spec fn pbias_result<F: Arith>(obs: Seq<F>, sim: Seq<F>) -> Result<F, MetricsError> {
    match paired_result(obs, sim) {
        Err(e) => Err(e),
        Ok(pairs) => if sum(observed(pairs)).same(zero()) {
            Err(MetricsError::ZeroObsSum)
        } else {
            Ok(F::literal(100, 1).times(sum(errors(pairs))).over(sum(observed(pairs))))
        },
    }
}

/// Keeps only the pairs where both values are finite.
fn paired<F: Scalar>(obs: &[F], sim: &[F]) -> (r: Result<Vec<(F, F)>, MetricsError>)
    ensures
        match paired_result(obs@, sim@) {
            Err(e) => r is Err && r->Err_0 == e,
            Ok(pairs) => r is Ok && r->Ok_0@ == pairs,
        },
{
    if obs.len() != sim.len() {
        return Err(MetricsError::LengthMismatch { obs: obs.len(), sim: sim.len() });
    }
    let mut pairs: Vec<(F, F)> = Vec::new();
    let mut i: usize = 0;
    while i < obs.len()
        invariant
            i <= obs@.len(),
            obs@.len() == sim@.len(),
            pairs@ == valid_pairs(obs@.take(i as int), sim@.take(i as int)),
        decreases obs@.len() - i,
    {
        assert(obs@.take(i + 1).drop_last() =~= obs@.take(i as int));
        assert(sim@.take(i + 1).drop_last() =~= sim@.take(i as int));
        if obs[i].is_finite() && sim[i].is_finite() {
            pairs.push((obs[i], sim[i]));
        }
        i = i + 1;
    }
    assert(obs@.take(i as int) =~= obs@);
    assert(sim@.take(i as int) =~= sim@);
    if pairs.len() < 2 {
        return Err(MetricsError::InsufficientData(pairs.len()));
    }
    Ok(pairs)
}

/// Mean of the observed values.
fn observed_mean<F: Scalar>(pairs: &Vec<(F, F)>) -> (r: F)
    ensures
        r == mean_of(observed(pairs@)),
{
    let ghost terms = observed(pairs@);
    let mut acc = F::ratio(0, 1);
    let mut i: usize = 0;
    while i < pairs.len()
        invariant
            i <= pairs@.len(),
            terms == observed(pairs@),
            acc == sum(terms.take(i as int)),
        decreases pairs@.len() - i,
    {
        proof {
            lemma_sum_step(terms, i as int);
        }
        acc = acc.add(pairs[i].0);
        i = i + 1;
    }
    assert(terms.take(i as int) =~= terms);
    acc.div(F::from_usize(pairs.len()))
}

/// Mean of the simulated values.
fn simulated_mean<F: Scalar>(pairs: &Vec<(F, F)>) -> (r: F)
    ensures
        r == mean_of(simulated(pairs@)),
{
    let ghost terms = simulated(pairs@);
    let mut acc = F::ratio(0, 1);
    let mut i: usize = 0;
    while i < pairs.len()
        invariant
            i <= pairs@.len(),
            terms == simulated(pairs@),
            acc == sum(terms.take(i as int)),
        decreases pairs@.len() - i,
    {
        proof {
            lemma_sum_step(terms, i as int);
        }
        acc = acc.add(pairs[i].1);
        i = i + 1;
    }
    assert(terms.take(i as int) =~= terms);
    acc.div(F::from_usize(pairs.len()))
}

/// Nash-Sutcliffe efficiency. 1 is perfect, 0 matches the obs mean.
pub fn nse<F: Scalar>(obs: &[F], sim: &[F]) -> (r: Result<F, MetricsError>)
    ensures
        r == nse_result(obs@, sim@),
{
    let pairs = match paired(obs, sim) {
        Err(e) => {
            return Err(e);
        },
        Ok(pairs) => pairs,
    };
    let om = observed_mean(&pairs);
    let ghost nums = square_errors(pairs@);
    let ghost dens = square_deviations(observed(pairs@), om);
    let mut num = F::ratio(0, 1);
    let mut den = F::ratio(0, 1);
    let mut i: usize = 0;
    while i < pairs.len()
        invariant
            i <= pairs@.len(),
            nums == square_errors(pairs@),
            dens == square_deviations(observed(pairs@), om),
            num == sum(nums.take(i as int)),
            den == sum(dens.take(i as int)),
        decreases pairs@.len() - i,
    {
        proof {
            lemma_sum_step(nums, i as int);
            lemma_sum_step(dens, i as int);
        }
        let (o, s) = pairs[i];
        num = num.add(s.sub(o).powi(2));
        den = den.add(o.sub(om).powi(2));
        i = i + 1;
    }
    assert(nums.take(i as int) =~= nums);
    assert(dens.take(i as int) =~= dens);
    if den.equal_to(F::ratio(0, 1)) {
        return Err(MetricsError::ZeroVariance);
    }
    Ok(F::ratio(1, 1).sub(num.div(den)))
}

/// NSE on log-transformed flows, `ln(q + eps)` with `eps = mean(obs)/100`
/// (airGR convention). Emphasizes low-flow fit.
pub fn log_nse<F: Scalar>(obs: &[F], sim: &[F]) -> (r: Result<F, MetricsError>)
    ensures
        r == log_nse_result(obs@, sim@),
{
    let pairs = match paired(obs, sim) {
        Err(e) => {
            return Err(e);
        },
        Ok(pairs) => pairs,
    };
    let eps = observed_mean(&pairs).div(F::ratio(100, 1));
    let mut lobs: Vec<F> = Vec::new();
    let mut lsim: Vec<F> = Vec::new();
    let mut i: usize = 0;
    while i < pairs.len()
        invariant
            i <= pairs@.len(),
            lobs@.len() == i,
            lsim@.len() == i,
            forall|j: int|
                0 <= j < i ==> #[trigger] lobs@[j] == shifted_logs(observed(pairs@), eps)[j],
            forall|j: int|
                0 <= j < i ==> #[trigger] lsim@[j] == shifted_logs(simulated(pairs@), eps)[j],
        decreases pairs@.len() - i,
    {
        let (o, s) = pairs[i];
        lobs.push(o.add(eps).ln());
        lsim.push(s.add(eps).ln());
        i = i + 1;
    }
    assert(lobs@ =~= shifted_logs(observed(pairs@), eps));
    assert(lsim@ =~= shifted_logs(simulated(pairs@), eps));
    nse(lobs.as_slice(), lsim.as_slice())
}

/// Kling-Gupta efficiency (2009 formulation). 1 is perfect.
pub fn kge<F: Scalar>(obs: &[F], sim: &[F]) -> (r: Result<F, MetricsError>)
    ensures
        r == kge_result(obs@, sim@),
{
    match kge_components(obs, sim) {
        Err(e) => Err(e),
        Ok(c) => Ok(c.kge()),
    }
}

/// KGE components (r, alpha, beta) for diagnostic use.
pub fn kge_components<F: Scalar>(obs: &[F], sim: &[F]) -> (r: Result<
    KgeComponents<F>,
    MetricsError,
>)
    ensures
        r == kge_components_result(obs@, sim@),
{
    let pairs = match paired(obs, sim) {
        Err(e) => {
            return Err(e);
        },
        Ok(pairs) => pairs,
    };
    let om = observed_mean(&pairs);
    let sm = simulated_mean(&pairs);
    let ghost covs = cross_deviations(pairs@, om, sm);
    let ghost os = square_deviations(observed(pairs@), om);
    let ghost ss = square_deviations(simulated(pairs@), sm);
    let mut cov = F::ratio(0, 1);
    let mut var_o = F::ratio(0, 1);
    let mut var_s = F::ratio(0, 1);
    let mut i: usize = 0;
    while i < pairs.len()
        invariant
            i <= pairs@.len(),
            covs == cross_deviations(pairs@, om, sm),
            os == square_deviations(observed(pairs@), om),
            ss == square_deviations(simulated(pairs@), sm),
            cov == sum(covs.take(i as int)),
            var_o == sum(os.take(i as int)),
            var_s == sum(ss.take(i as int)),
        decreases pairs@.len() - i,
    {
        proof {
            lemma_sum_step(covs, i as int);
            lemma_sum_step(os, i as int);
            lemma_sum_step(ss, i as int);
        }
        let (o, s) = pairs[i];
        cov = cov.add(o.sub(om).mul(s.sub(sm)));
        var_o = var_o.add(o.sub(om).powi(2));
        var_s = var_s.add(s.sub(sm).powi(2));
        i = i + 1;
    }
    assert(covs.take(i as int) =~= covs);
    assert(os.take(i as int) =~= os);
    assert(ss.take(i as int) =~= ss);
    if var_o.equal_to(F::ratio(0, 1)) || om.equal_to(F::ratio(0, 1)) {
        return Err(MetricsError::ZeroVariance);
    }
    Ok(
        KgeComponents {
            r: cov.div(var_o.sqrt().mul(var_s.sqrt())),
            alpha: var_s.sqrt().div(var_o.sqrt()),
            beta: sm.div(om),
        },
    )
}

/// Percent bias: `100 sum(sim - obs) / sum(obs)`. 0 is unbiased; positive
/// means the simulation overestimates.
pub fn pbias<F: Scalar>(obs: &[F], sim: &[F]) -> (r: Result<F, MetricsError>)
    ensures
        r == pbias_result(obs@, sim@),
{
    let pairs = match paired(obs, sim) {
        Err(e) => {
            return Err(e);
        },
        Ok(pairs) => pairs,
    };
    let ghost diffs = errors(pairs@);
    let ghost obss = observed(pairs@);
    let mut diff = F::ratio(0, 1);
    let mut total = F::ratio(0, 1);
    let mut i: usize = 0;
    while i < pairs.len()
        invariant
            i <= pairs@.len(),
            diffs == errors(pairs@),
            obss == observed(pairs@),
            diff == sum(diffs.take(i as int)),
            total == sum(obss.take(i as int)),
        decreases pairs@.len() - i,
    {
        proof {
            lemma_sum_step(diffs, i as int);
            lemma_sum_step(obss, i as int);
        }
        let (o, s) = pairs[i];
        diff = diff.add(s.sub(o));
        total = total.add(o);
        i = i + 1;
    }
    assert(diffs.take(i as int) =~= diffs);
    assert(obss.take(i as int) =~= obss);
    if total.equal_to(F::ratio(0, 1)) {
        return Err(MetricsError::ZeroObsSum);
    }
    Ok(F::ratio(100, 1).mul(diff).div(total))
}

} // verus!
