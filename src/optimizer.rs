//! Parameter-grid expansion for optimisation jobs: each parameter is a fixed
//! value or a `{start, end, step}` range, and the grid is the cartesian
//! product of the per-parameter value lists.

use vstd::prelude::*;
use crate::fixed::{bounded, tdiv, tdiv_exec, SCALE};

verus! {

/// A parameter value: an integer or a fixed-point number.
#[derive(Clone, Copy, Debug, PartialEq, Eq, Structural)]
pub enum ParamValue {
    Integer(i64),
    Float(i128),
}

/// How a parameter is given: one value, or a range with an optional step
/// (one when absent).
#[derive(Clone, Copy, Debug, PartialEq, Eq, Structural)]
pub enum ParamSpec {
    Fixed(ParamValue),
    Range { start: ParamValue, end: ParamValue, step: Option<ParamValue> },
}

/// Why a grid could not be expanded.
#[derive(Clone, Copy, Debug, PartialEq, Eq, Structural)]
pub enum GridError {
    /// A range's step is not positive.
    NonPositiveStep,
}

/// The fixed-point value of a parameter.
pub open spec fn fixed_of(v: ParamValue) -> int {
    match v {
        ParamValue::Integer(i) => i * SCALE,
        ParamValue::Float(f) => f as int,
    }
}

/// A parameter value within the range a grid is computed over.
pub open spec fn value_wf(v: ParamValue) -> bool {
    match v {
        ParamValue::Integer(_) => true,
        ParamValue::Float(f) => bounded(f as int),
    }
}

/// A parameter description whose values are within range.
pub open spec fn spec_wf(p: ParamSpec) -> bool {
    match p {
        ParamSpec::Fixed(v) => value_wf(v),
        ParamSpec::Range { start, end, step } => value_wf(start) && value_wf(end) && (step matches Some(
            s,
        ) ==> value_wf(s)),
    }
}

/// The step of a range, one when absent.
pub open spec fn step_of(step: Option<ParamValue>) -> int {
    match step {
        Some(s) => fixed_of(s),
        None => SCALE as int,
    }
}

/// A range yields integers when its start, end and step are all whole.
pub open spec fn integral(start: int, end: int, step: int) -> bool {
    start % (SCALE as int) == 0 && end % (SCALE as int) == 0 && step % (SCALE as int) == 0
}

/// The parameter value of a generated fixed-point `x`.
pub open spec fn generated(x: int, whole: bool) -> ParamValue {
    if whole {
        ParamValue::Integer(tdiv(x, SCALE as int) as i64)
    } else {
        ParamValue::Float(x as i128)
    }
}

/// `vals` are the values of the range from `start` by `step` up to
/// `end` (with a tolerance of one unit of 10^-8).
pub open spec fn range_values(vals: Seq<ParamValue>, start: int, end: int, step: int) -> bool {
    let whole = integral(start, end, step);
    &&& forall|k: int|
        0 <= k < vals.len() ==> #[trigger] vals[k] == generated(start + k * step, whole) && start + k
            * step <= end + 1
    &&& start + vals.len() * step > end + 1
}

/// The value list of one parameter: the value itself, or the values of its range.
pub open spec fn expansion(p: ParamSpec, vals: Seq<ParamValue>) -> bool {
    match p {
        ParamSpec::Fixed(v) => vals == seq![v],
        ParamSpec::Range { start, end, step } => range_values(
            vals,
            fixed_of(start),
            fixed_of(end),
            step_of(step),
        ),
    }
}

fn fixed_exec(v: ParamValue) -> (r: i128)
    ensures
        r == fixed_of(v),
{
    match v {
        ParamValue::Integer(i) => i as i128 * SCALE,
        ParamValue::Float(f) => f,
    }
}

/// The value list of one parameter; a range with a non-positive step is refused.
pub fn expand_value(p: &ParamSpec) -> (r: Result<Vec<ParamValue>, GridError>)
    requires
        spec_wf(*p),
    ensures
        match r {
            Ok(vals) => expansion(*p, vals@),
            Err(e) => e == GridError::NonPositiveStep && (*p matches ParamSpec::Range { step, .. }
                && step_of(step) <= 0),
        },
{
    match *p {
        ParamSpec::Fixed(v) => {
            let mut out: Vec<ParamValue> = Vec::new();
            out.push(v);
            assert(out@ =~= seq![v]);
            Ok(out)
        },
        ParamSpec::Range { start, end, step } => {
            let s = fixed_exec(start);
            let e = fixed_exec(end);
            let d: i128 = match step {
                Some(x) => fixed_exec(x),
                None => SCALE,
            };
            if d <= 0 {
                return Err(GridError::NonPositiveStep);
            }
            let whole = s % SCALE == 0 && e % SCALE == 0 && d % SCALE == 0;
            let mut out: Vec<ParamValue> = Vec::new();
            let mut v: i128 = s;
            while v <= e + 1
                invariant
                    (i64::MIN as int) * SCALE <= s <= (i64::MAX as int) * SCALE,
                    (i64::MIN as int) * SCALE <= e <= (i64::MAX as int) * SCALE,
                    0 < d <= (i64::MAX as int) * SCALE,
                    whole == integral(s as int, e as int, d as int),
                    v == s + out@.len() * d,
                    s <= v,
                    v <= e + 1 + d || out@.len() == 0,
                    forall|k: int|
                        0 <= k < out@.len() ==> #[trigger] out@[k] == generated(s + k * d, whole) && s + k
                            * d <= e + 1,
                decreases e + 1 + d - v,
            {
                let pv = if whole {
                    let q = tdiv_exec(v, SCALE);
                    assert(i64::MIN <= q <= i64::MAX) by (nonlinear_arith)
                        requires
                            (i64::MIN as int) * SCALE <= v <= (i64::MAX as int) * SCALE + 1,
                            q == tdiv(v as int, SCALE as int),
                    {
                        if v >= 0 {
                            assert((v as int) / (SCALE as int) <= i64::MAX) by (nonlinear_arith)
                                requires 0 <= v <= (i64::MAX as int) * SCALE + 1;
                            assert((v as int) / (SCALE as int) >= 0) by (nonlinear_arith)
                                requires 0 <= v;
                        } else {
                            assert((-v) / (SCALE as int) <= -(i64::MIN as int)) by (nonlinear_arith)
                                requires 0 < -v <= -(i64::MIN as int) * SCALE;
                            assert((-v) / (SCALE as int) >= 0) by (nonlinear_arith)
                                requires 0 < -v;
                        }
                    }
                    ParamValue::Integer(q as i64)
                } else {
                    ParamValue::Float(v)
                };
                let ghost prev = out@;
                proof {
                    let n = out@.len() as int;
                    assert(s + (n + 1) * d == s + n * d + d) by (nonlinear_arith);
                    assert(pv == generated(s + n * d, whole));
                }
                out.push(pv);
                proof {
                    assert forall|k: int| 0 <= k < out@.len() implies #[trigger] out@[k] == generated(
                        s + k * d,
                        whole,
                    ) && s + k * d <= e + 1 by {
                        if k < prev.len() {
                            assert(out@[k] == prev[k]);
                        }
                    }
                }
                v = v + d;
            }
            Ok(out)
        },
    }
}

/// The views of a list of rows.
pub open spec fn rows(v: Seq<Vec<ParamValue>>) -> Seq<Seq<ParamValue>> {
    v.map_values(|c: Vec<ParamValue>| c@)
}

/// Each row of `acc` extended by each value of `l`, rows in order and values
/// in order within a row.
pub open spec fn extend(acc: Seq<Seq<ParamValue>>, l: Seq<ParamValue>) -> Seq<Seq<ParamValue>>
    decreases acc.len(),
{
    if acc.len() == 0 {
        Seq::empty()
    } else {
        extend(acc.drop_last(), l) + l.map_values(|v: ParamValue| acc.last().push(v))
    }
}

/// The cartesian product of the value lists `ls`, the last list varying fastest.
pub open spec fn grid(ls: Seq<Seq<ParamValue>>) -> Seq<Seq<ParamValue>>
    decreases ls.len(),
{
    if ls.len() == 0 {
        seq![Seq::empty()]
    } else {
        extend(grid(ls.drop_last()), ls.last())
    }
}

/// The product of the lengths of the lists `ls`.
pub open spec fn product_of_lengths(ls: Seq<Seq<ParamValue>>) -> int
    decreases ls.len(),
{
    if ls.len() == 0 {
        1
    } else {
        product_of_lengths(ls.drop_last()) * ls.last().len()
    }
}

proof fn lemma_extend_len(acc: Seq<Seq<ParamValue>>, l: Seq<ParamValue>)
    ensures
        extend(acc, l).len() == acc.len() * l.len(),
    decreases acc.len(),
{
    if acc.len() > 0 {
        lemma_extend_len(acc.drop_last(), l);
        assert((acc.len() - 1) * l.len() + l.len() == acc.len() * l.len()) by (nonlinear_arith);
    }
}

/// The grid has as many parameter sets as the product of the sizes of the
/// per-parameter value lists.
pub proof fn lemma_grid_size(ls: Seq<Seq<ParamValue>>)
    ensures
        grid(ls).len() == product_of_lengths(ls),
    decreases ls.len(),
{
    if ls.len() > 0 {
        lemma_grid_size(ls.drop_last());
        lemma_extend_len(grid(ls.drop_last()), ls.last());
    }
}

fn row_with(c: &Vec<ParamValue>, v: ParamValue) -> (r: Vec<ParamValue>)
    ensures
        r@ == c@.push(v),
{
    let mut r: Vec<ParamValue> = Vec::new();
    let mut i: usize = 0;
    while i < c.len()
        invariant
            i <= c@.len(),
            r@ == c@.subrange(0, i as int),
        decreases c@.len() - i,
    {
        r.push(c[i]);
        i = i + 1;
    }
    assert(c@.subrange(0, c@.len() as int) =~= c@);
    r.push(v);
    r
}

fn extend_rows(acc: &Vec<Vec<ParamValue>>, l: &Vec<ParamValue>) -> (r: Vec<Vec<ParamValue>>)
    ensures
        rows(r@) == extend(rows(acc@), l@),
{
    let mut out: Vec<Vec<ParamValue>> = Vec::new();
    let mut i: usize = 0;
    while i < acc.len()
        invariant
            i <= acc@.len(),
            rows(out@) == extend(rows(acc@).subrange(0, i as int), l@),
        decreases acc@.len() - i,
    {
        let ghost base = rows(out@);
        let mut j: usize = 0;
        while j < l.len()
            invariant
                i < acc@.len(),
                j <= l@.len(),
                rows(out@) == base + l@.subrange(0, j as int).map_values(|v: ParamValue| acc@[i as int]@.push(v)),
            decreases l@.len() - j,
        {
            let row = row_with(&acc[i], l[j]);
            let ghost before = out@;
            out.push(row);
            proof {
                assert(rows(out@) =~= rows(before).push(row@));
                assert(l@.subrange(0, j as int + 1).map_values(|v: ParamValue| acc@[i as int]@.push(v))
                    =~= l@.subrange(0, j as int).map_values(|v: ParamValue| acc@[i as int]@.push(v)).push(
                    acc@[i as int]@.push(l@[j as int]),
                ));
                assert(rows(out@) =~= base + l@.subrange(0, j as int + 1).map_values(
                    |v: ParamValue| acc@[i as int]@.push(v),
                ));
            }
            j = j + 1;
        }
        proof {
            let s = rows(acc@).subrange(0, i as int + 1);
            assert(s.drop_last() =~= rows(acc@).subrange(0, i as int));
            assert(s.last() == acc@[i as int]@);
            assert(l@.subrange(0, l@.len() as int) =~= l@);
        }
        i = i + 1;
    }
    assert(rows(acc@).subrange(0, acc@.len() as int) =~= rows(acc@));
    out
}

/// The cartesian product of `lists`, the last list varying fastest.
pub fn cartesian_product(lists: &Vec<Vec<ParamValue>>) -> (r: Vec<Vec<ParamValue>>)
    ensures
        rows(r@) == grid(rows(lists@)),
        r@.len() == product_of_lengths(rows(lists@)),
{
    let mut acc: Vec<Vec<ParamValue>> = Vec::new();
    acc.push(Vec::new());
    assert(rows(acc@) =~= grid(rows(lists@).subrange(0, 0)));
    let mut k: usize = 0;
    while k < lists.len()
        invariant
            k <= lists@.len(),
            rows(acc@) == grid(rows(lists@).subrange(0, k as int)),
        decreases lists@.len() - k,
    {
        acc = extend_rows(&acc, &lists[k]);
        proof {
            let s = rows(lists@).subrange(0, k as int + 1);
            assert(s.drop_last() =~= rows(lists@).subrange(0, k as int));
            assert(s.last() == lists@[k as int]@);
        }
        k = k + 1;
    }
    assert(rows(lists@).subrange(0, lists@.len() as int) =~= rows(lists@));
    proof {
        lemma_grid_size(rows(lists@));
        assert(rows(acc@).len() == acc@.len());
    }
    acc
}

/// Expands every parameter description into its value list; refuses a
/// range with a non-positive step.
pub fn expand_parameters(params: &Vec<ParamSpec>) -> (r: Result<Vec<Vec<ParamValue>>, GridError>)
    requires
        forall|i: int| 0 <= i < params@.len() ==> spec_wf(#[trigger] params@[i]),
    ensures
        match r {
            Ok(ls) => ls@.len() == params@.len() && forall|i: int|
                0 <= i < params@.len() ==> expansion(#[trigger] params@[i], ls@[i]@),
            Err(_) => exists|i: int|
                0 <= i < params@.len() && (#[trigger] params@[i] matches ParamSpec::Range { step, .. }
                    && step_of(step) <= 0),
        },
{
    let mut out: Vec<Vec<ParamValue>> = Vec::new();
    let mut i: usize = 0;
    while i < params.len()
        invariant
            i <= params@.len(),
            forall|t: int| 0 <= t < params@.len() ==> spec_wf(#[trigger] params@[t]),
            out@.len() == i,
            forall|t: int| 0 <= t < i ==> expansion(#[trigger] params@[t], out@[t]@),
        decreases params@.len() - i,
    {
        match expand_value(&params[i]) {
            Ok(vals) => {
                out.push(vals);
            },
            Err(e) => {
                return Err(e);
            },
        }
        i = i + 1;
    }
    Ok(out)
}

/// Every combination of the parameters' values: the cartesian product of
/// their value lists.
pub fn generate_generic_parameter_sets(params: &Vec<ParamSpec>) -> (r: Result<Vec<Vec<ParamValue>>, GridError>)
    requires
        forall|i: int| 0 <= i < params@.len() ==> spec_wf(#[trigger] params@[i]),
    ensures
        match r {
            Ok(sets) => exists|ls: Seq<Seq<ParamValue>>|
                ls.len() == params@.len() && (forall|i: int|
                    0 <= i < params@.len() ==> expansion(#[trigger] params@[i], ls[i])) && rows(sets@)
                    == grid(ls) && sets@.len() == product_of_lengths(ls),
            Err(_) => exists|i: int|
                0 <= i < params@.len() && (#[trigger] params@[i] matches ParamSpec::Range { step, .. }
                    && step_of(step) <= 0),
        },
{
    let lists = match expand_parameters(params) {
        Ok(ls) => ls,
        Err(e) => return Err(e),
    };
    let sets = cartesian_product(&lists);
    proof {
        let ls = rows(lists@);
        assert(forall|i: int| 0 <= i < params@.len() ==> ls[i] == lists@[i]@);
    }
    Ok(sets)
}

} // verus!
