//! Fan-out: one independent unit of work per configured width, and the
//! per-unit outcomes once the units have been delivered.

use vstd::prelude::*;
use crate::config::Config;
use crate::naming::{derive_name, derived_name};
use crate::resize::{resize, resize_result, Picture, Resized, ResizeError};

verus! {

/// One derivative: its width, its output identifier and the encoded image
/// or why it could not be produced.
pub struct Unit {
    pub width: u32,
    pub target: String,
    pub result: Result<Resized, ResizeError>,
}

/// The terminal state of one unit: delivered, or failed while resizing or
/// uploading.
pub struct Outcome {
    pub width: u32,
    pub target: String,
    pub delivered: bool,
}

/// `u` is the unit of `img` for `source` at width `w`.
pub open spec fn unit_for(u: Unit, img: Picture, source: Seq<char>, rules: Seq<(String, String)>, w: u32) -> bool {
    &&& u.width == w
    &&& u.target@ == derived_name(source, rules, w as nat)
    &&& resize_result(img, w, u.result)
}

/// Unit `i` counts as delivered: it was produced and its upload succeeded.
/// A unit without an upload report is not delivered.
pub open spec fn delivered(units: Seq<Unit>, uploads: Seq<bool>, i: int) -> bool {
    units[i].result is Ok && i < uploads.len() && uploads[i]
}

/// The number of outcomes that are not delivered.
pub open spec fn failures(outcomes: Seq<Outcome>) -> nat
    decreases outcomes.len(),
{
    if outcomes.len() == 0 {
        0
    } else {
        failures(outcomes.drop_last()) + if outcomes.last().delivered { 0nat } else { 1nat }
    }
}

/// The unit of `img` for `source` at `width`: resized and named independently
/// of every other width.
pub fn derive_unit(img: &Picture, source: &str, rules: &Vec<(String, String)>, width: u32) -> (r: Unit)
    requires
        img.wf(),
    ensures
        unit_for(r, *img, source@, rules@, width),
{
    let result = resize(img, width);
    let target = derive_name(source, rules, width);
    Unit { width, target, result }
}

/// One unit per configured width, in configured order; a failure of one
/// leaves the others as they are. No widths give no units.
pub fn dispatch(img: &Picture, source: &str, config: &Config) -> (r: Vec<Unit>)
    requires
        img.wf(),
    ensures
        r@.len() == config.sizes@.len(),
        forall|i: int| 0 <= i < r@.len() ==> unit_for(#[trigger] r@[i], *img, source@, config.replacements@, config.sizes@[i]),
{
    let mut units: Vec<Unit> = Vec::new();
    let mut i: usize = 0;
    while i < config.sizes.len()
        invariant
            img.wf(),
            i <= config.sizes@.len(),
            units@.len() == i,
            forall|k: int| 0 <= k < i ==> unit_for(#[trigger] units@[k], *img, source@, config.replacements@, config.sizes@[k]),
        decreases config.sizes@.len() - i,
    {
        let u = derive_unit(img, source, &config.replacements, config.sizes[i]);
        units.push(u);
        i = i + 1;
    }
    units
}

/// The outcome of each unit once the uploads have been tried: `uploads[i]`
/// reports whether the upload of unit `i` succeeded. A unit that could not be
/// produced, or has no report, is a failure; each outcome depends on its own
/// unit and report alone.
pub fn settle(units: &Vec<Unit>, uploads: &Vec<bool>) -> (r: Vec<Outcome>)
    ensures
        r@.len() == units@.len(),
        forall|i: int| 0 <= i < r@.len() ==> {
            &&& (#[trigger] r@[i]).width == units@[i].width
            &&& r@[i].target@ == units@[i].target@
            &&& r@[i].delivered == delivered(units@, uploads@, i)
        },
{
    let mut out: Vec<Outcome> = Vec::new();
    let mut i: usize = 0;
    while i < units.len()
        invariant
            i <= units@.len(),
            out@.len() == i,
            forall|k: int| 0 <= k < i ==> {
                &&& (#[trigger] out@[k]).width == units@[k].width
                &&& out@[k].target@ == units@[k].target@
                &&& out@[k].delivered == delivered(units@, uploads@, k)
            },
        decreases units@.len() - i,
    {
        let u = &units[i];
        let ok = u.result.is_ok() && i < uploads.len() && uploads[i];
        out.push(Outcome { width: u.width, target: u.target.clone(), delivered: ok });
        i = i + 1;
    }
    out
}

/// The number of failed units among `outcomes`.
pub fn count_failures(outcomes: &Vec<Outcome>) -> (r: usize)
    ensures
        r as nat == failures(outcomes@),
{
    let mut n: usize = 0;
    let mut i: usize = 0;
    while i < outcomes.len()
        invariant
            i <= outcomes@.len(),
            n as nat == failures(outcomes@.subrange(0, i as int)),
            n <= i,
        decreases outcomes@.len() - i,
    {
        assert(outcomes@.subrange(0, i + 1).drop_last() =~= outcomes@.subrange(0, i as int));
        if !outcomes[i].delivered {
            n = n + 1;
        }
        i = i + 1;
    }
    assert(outcomes@.subrange(0, outcomes@.len() as int) =~= outcomes@);
    n
}

proof fn lemma_failures_single(outcomes: Seq<Outcome>, k: int, n: int)
    requires
        0 <= n <= outcomes.len(),
        0 <= k < outcomes.len(),
        !outcomes[k].delivered,
        forall|i: int| 0 <= i < outcomes.len() && i != k ==> (#[trigger] outcomes[i]).delivered,
    ensures
        failures(outcomes.subrange(0, n)) == if k < n { 1nat } else { 0nat },
    decreases n,
{
    if n > 0 {
        let s = outcomes.subrange(0, n);
        assert(s.drop_last() =~= outcomes.subrange(0, n - 1));
        lemma_failures_single(outcomes, k, n - 1);
    }
}

/// A failed upload stays with its own unit: where every unit was produced and
/// only the upload of unit `k` failed, every other unit is delivered and the
/// outcomes report exactly one failure among as many results as units.
pub proof fn lemma_failure_is_isolated(units: Seq<Unit>, uploads: Seq<bool>, outcomes: Seq<Outcome>, k: int)
    requires
        outcomes.len() == units.len(),
        uploads.len() == units.len(),
        forall|i: int| 0 <= i < outcomes.len() ==> (#[trigger] outcomes[i]).delivered == delivered(units, uploads, i),
        forall|i: int| 0 <= i < units.len() ==> (#[trigger] units[i]).result is Ok,
        0 <= k < uploads.len(),
        !uploads[k],
        forall|i: int| 0 <= i < uploads.len() && i != k ==> #[trigger] uploads[i],
    ensures
        outcomes.len() == units.len(),
        !outcomes[k].delivered,
        forall|i: int| 0 <= i < outcomes.len() && i != k ==> (#[trigger] outcomes[i]).delivered,
        failures(outcomes) == 1,
{
    assert forall|i: int| 0 <= i < outcomes.len() && i != k implies (#[trigger] outcomes[i]).delivered by {
        assert(units[i].result is Ok);
        assert(uploads[i]);
    }
    lemma_failures_single(outcomes, k, outcomes.len() as int);
    assert(outcomes.subrange(0, outcomes.len() as int) =~= outcomes);
}

} // verus!
