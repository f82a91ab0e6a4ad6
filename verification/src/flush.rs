//! The flush engine and its hooks.
//!
//! A flush drains the pending store and yields its protocol as a step plan:
//! the before-flush hook (when one is registered), every pending record in
//! first-mutation order, then the after-flush hook. The store is cleared
//! unconditionally; the hooks persist across flush cycles until replaced.

use vstd::prelude::*;
use crate::record::{Mutations, RecordV};
use crate::store::PendingStore;

verus! {

/// The optional single-slot callbacks run around each flush's apply phase.
/// Registering a hook replaces the previous one.
pub struct FlushHooks<H> {
    pub before_flush: Option<H>,
    pub after_flush: Option<H>,
}

impl<H> FlushHooks<H> {
    /// No hooks registered.
    pub fn new() -> (h: FlushHooks<H>)
        ensures
            h.before_flush is None,
            h.after_flush is None,
    {
        FlushHooks { before_flush: None, after_flush: None }
    }
}

/// Set, replace or clear the hook run before each flush's apply phase.
pub fn run_before_flush<H>(hooks: &mut FlushHooks<H>, func: Option<H>)
    ensures
        final(hooks).before_flush == func,
        final(hooks).after_flush == old(hooks).after_flush,
{
    hooks.before_flush = func;
}

/// Set, replace or clear the hook run after each flush's apply phase.
pub fn run_after_flush<H>(hooks: &mut FlushHooks<H>, func: Option<H>)
    ensures
        final(hooks).after_flush == func,
        final(hooks).before_flush == old(hooks).before_flush,
{
    hooks.after_flush = func;
}

/// One step of a flush, as a mathematical value.
pub ghost enum StepV {
    RunBeforeHook,
    ApplyRecord(Seq<char>, RecordV),
    RunAfterHook,
}

/// One step of a flush: run a registered hook, or apply one keyed record
/// to the external renderer.
#[derive(Debug, PartialEq, Eq)]
pub enum FlushStep {
    RunBeforeHook,
    ApplyRecord(String, Mutations),
    RunAfterHook,
}

impl View for FlushStep {
    type V = StepV;

    open spec fn view(&self) -> StepV {
        match self {
            FlushStep::RunBeforeHook => StepV::RunBeforeHook,
            FlushStep::ApplyRecord(k, m) => StepV::ApplyRecord(k@, m@),
            FlushStep::RunAfterHook => StepV::RunAfterHook,
        }
    }
}

/// The steps of a step plan, as mathematical values.
pub open spec fn plan_view(plan: Seq<FlushStep>) -> Seq<StepV> {
    plan.map_values(|s: FlushStep| s@)
}

/// The full protocol of one flush: the before hook when registered, every
/// pending record in first-mutation order, the after hook when registered.
/// Hooks run even when nothing is pending.
pub open spec fn flush_plan(
    entries: Seq<(Seq<char>, RecordV)>,
    run_before: bool,
    run_after: bool,
) -> Seq<StepV> {
    (if run_before {
        seq![StepV::RunBeforeHook]
    } else {
        Seq::<StepV>::empty()
    }) + entries.map_values(|e: (Seq<char>, RecordV)| StepV::ApplyRecord(e.0, e.1)) + (
    if run_after {
        seq![StepV::RunAfterHook]
    } else {
        Seq::<StepV>::empty()
    })
}

/// Drain the pending store into the flush protocol: the returned plan is
/// exactly `flush_plan` of the pending records, and the store is left empty.
/// Safe to call with nothing pending: hooks still appear in the plan.
pub fn flush<H>(store: &mut PendingStore, hooks: &FlushHooks<H>) -> (plan: Vec<FlushStep>)
    requires
        old(store).wf(),
    ensures
        final(store).wf(),
        final(store).order() == Seq::<Seq<char>>::empty(),
        plan_view(plan@) == flush_plan(
            old(store).entries(),
            hooks.before_flush is Some,
            hooks.after_flush is Some,
        ),
{
    let ghost pre = *old(store);
    let ghost target = flush_plan(
        pre.entries(),
        hooks.before_flush is Some,
        hooks.after_flush is Some,
    );
    let ghost b: int = if hooks.before_flush is Some {
        1int
    } else {
        0int
    };
    let mut plan: Vec<FlushStep> = Vec::new();
    if hooks.before_flush.is_some() {
        plan.push(FlushStep::RunBeforeHook);
    }
    let ghost mut processed: int = 0;
    proof {
        pre.lemma_wf_entries();
        assert(pre.order().skip(0) =~= pre.order());
        assert(pre.records().skip(0) =~= pre.records());
    }
    while store.pending_len() > 0
        invariant
            store.wf(),
            pre.wf(),
            target == flush_plan(
                pre.entries(),
                hooks.before_flush is Some,
                hooks.after_flush is Some,
            ),
            b == (if hooks.before_flush is Some {
                1int
            } else {
                0int
            }),
            pre.entries().len() == pre.order().len(),
            0 <= processed <= pre.order().len(),
            plan@.len() == b + processed,
            store.order() == pre.order().skip(processed),
            store.records() == pre.records().skip(processed),
            forall|q: int| 0 <= q < plan@.len() ==> plan@[q]@ == target[q],
        decreases store.order().len(),
    {
        let kv = store.take_first();
        proof {
            pre.lemma_wf_entries();
            assert(kv.0@ == pre.order()[processed]);
            assert(kv.1@ == pre.records()[processed]);
        }
        plan.push(FlushStep::ApplyRecord(kv.0, kv.1));
        proof {
            assert(pre.entries()[processed] == (pre.order()[processed], pre.records()[processed]));
            assert(target[b + processed] == StepV::ApplyRecord(
                pre.order()[processed],
                pre.records()[processed],
            ));
            assert(store.order() =~= pre.order().skip(processed + 1));
            assert(store.records() =~= pre.records().skip(processed + 1));
            processed = processed + 1;
        }
    }
    if hooks.after_flush.is_some() {
        plan.push(FlushStep::RunAfterHook);
        proof {
            assert(target[b + processed] == StepV::RunAfterHook);
        }
    }
    proof {
        assert(store.order() =~= Seq::<Seq<char>>::empty());
        assert(plan@.len() == target.len());
        assert(plan_view(plan@) =~= target);
    }
    plan
}

} // verus!
