//! Tests of the flush protocol, the apply precedence and the hooks.

use std::cell::RefCell;
use std::rc::Rc;

use mutations::apply::RendererOp;
use mutations::flush::{flush, run_after_flush, run_before_flush, FlushHooks, FlushStep};
use mutations::store::{
    after, append, before, move_after, move_prepend, prepend, remove, remove_attr, scroll_into_view,
    set_attr, set_inner_html, set_outer_html, PendingStore,
};

type Hook = Box<dyn Fn()>;

/// Run a flush as a driver would: invoke hook steps, and collect the
/// renderer operations of each applied record, resolving node existence
/// through `resolve`.
fn drive(
    store: &mut PendingStore,
    hooks: &FlushHooks<Hook>,
    resolve: impl Fn(&str) -> bool,
) -> Vec<(String, Vec<RendererOp>)> {
    let mut applied = Vec::new();
    for step in flush(store, hooks) {
        match step {
            FlushStep::RunBeforeHook => (hooks.before_flush.as_ref().unwrap())(),
            FlushStep::RunAfterHook => (hooks.after_flush.as_ref().unwrap())(),
            FlushStep::ApplyRecord(key, record) => {
                let ops = record.exec(resolve(&key));
                applied.push((key, ops));
            }
        }
    }
    applied
}

fn logging_hook(log: &Rc<RefCell<Vec<&'static str>>>, name: &'static str) -> Hook {
    let log = Rc::clone(log);
    Box::new(move || log.borrow_mut().push(name))
}

#[test]
fn flush_clears_state() {
    let mut s = PendingStore::new();
    let hooks: FlushHooks<Hook> = FlushHooks::new();
    append(&mut s, "k", "a");
    set_attr(&mut s, "k2", "class", "x");
    let first = flush(&mut s, &hooks);
    assert_eq!(first.len(), 2);
    // Nothing new recorded: the next flush performs no renderer calls.
    let second = flush(&mut s, &hooks);
    assert!(second.is_empty());
}

#[test]
fn empty_flush_without_hooks_plans_nothing() {
    let mut s = PendingStore::new();
    let hooks: FlushHooks<Hook> = FlushHooks::new();
    assert!(flush(&mut s, &hooks).is_empty());
}

#[test]
fn hooks_run_in_order_around_an_empty_flush() {
    let log = Rc::new(RefCell::new(Vec::new()));
    let mut hooks: FlushHooks<Hook> = FlushHooks::new();
    run_before_flush(&mut hooks, Some(logging_hook(&log, "before")));
    run_after_flush(&mut hooks, Some(logging_hook(&log, "after")));
    let mut s = PendingStore::new();
    let applied = drive(&mut s, &hooks, |_| true);
    // No pending mutations: no renderer calls between the two hooks.
    assert!(applied.is_empty());
    assert_eq!(*log.borrow(), vec!["before", "after"]);
}

#[test]
fn hooks_bracket_the_apply_phase() {
    let log = Rc::new(RefCell::new(Vec::new()));
    let mut hooks: FlushHooks<Hook> = FlushHooks::new();
    run_before_flush(&mut hooks, Some(logging_hook(&log, "before")));
    run_after_flush(&mut hooks, Some(logging_hook(&log, "after")));
    let mut s = PendingStore::new();
    append(&mut s, "k", "a");
    let plan = flush(&mut s, &hooks);
    assert_eq!(plan.len(), 3);
    assert!(matches!(plan[0], FlushStep::RunBeforeHook));
    assert!(matches!(plan[1], FlushStep::ApplyRecord(..)));
    assert!(matches!(plan[2], FlushStep::RunAfterHook));
}

#[test]
fn registering_a_hook_replaces_the_previous_one() {
    let log = Rc::new(RefCell::new(Vec::new()));
    let mut hooks: FlushHooks<Hook> = FlushHooks::new();
    run_before_flush(&mut hooks, Some(logging_hook(&log, "first")));
    run_before_flush(&mut hooks, Some(logging_hook(&log, "second")));
    let mut s = PendingStore::new();
    drive(&mut s, &hooks, |_| true);
    assert_eq!(*log.borrow(), vec!["second"]);
}

#[test]
fn hooks_persist_across_flush_cycles() {
    let log = Rc::new(RefCell::new(Vec::new()));
    let mut hooks: FlushHooks<Hook> = FlushHooks::new();
    run_after_flush(&mut hooks, Some(logging_hook(&log, "after")));
    let mut s = PendingStore::new();
    drive(&mut s, &hooks, |_| true);
    drive(&mut s, &hooks, |_| true);
    assert_eq!(*log.borrow(), vec!["after", "after"]);
}

#[test]
fn clearing_a_hook_disables_it() {
    let log = Rc::new(RefCell::new(Vec::new()));
    let mut hooks: FlushHooks<Hook> = FlushHooks::new();
    run_before_flush(&mut hooks, Some(logging_hook(&log, "before")));
    run_before_flush(&mut hooks, None);
    let mut s = PendingStore::new();
    let applied = drive(&mut s, &hooks, |_| true);
    assert!(applied.is_empty());
    assert!(log.borrow().is_empty());
}

#[test]
fn missing_node_is_skipped_without_touching_other_keys() {
    let mut s = PendingStore::new();
    let hooks: FlushHooks<Hook> = FlushHooks::new();
    append(&mut s, "gone", "a");
    set_attr(&mut s, "gone", "class", "x");
    append(&mut s, "here", "b");
    let applied = drive(&mut s, &hooks, |key| key == "here");
    assert_eq!(applied.len(), 2);
    assert_eq!(applied[0].0, "gone");
    assert!(applied[0].1.is_empty());
    assert_eq!(applied[1].0, "here");
    assert_eq!(applied[1].1, vec![RendererOp::AppendChild("b".to_string())]);
}

#[test]
fn sibling_insertions_run_before_a_removal() {
    let mut s = PendingStore::new();
    let hooks: FlushHooks<Hook> = FlushHooks::new();
    before(&mut s, "x", "<b>h</b>");
    remove(&mut s, "x");
    let applied = drive(&mut s, &hooks, |_| true);
    assert_eq!(
        applied,
        vec![(
            "x".to_string(),
            vec![
                RendererOp::InsertSiblingBefore("<b>h</b>".to_string()),
                RendererOp::RemoveFromParent,
            ],
        )]
    );
}

#[test]
fn a_set_then_removed_attribute_is_only_removed() {
    let mut s = PendingStore::new();
    let hooks: FlushHooks<Hook> = FlushHooks::new();
    set_attr(&mut s, "x", "data-on", "1");
    remove_attr(&mut s, "x", "data-on");
    let applied = drive(&mut s, &hooks, |_| true);
    assert_eq!(applied.len(), 1);
    let ops = &applied[0].1;
    assert!(!ops.iter().any(|op| matches!(op, RendererOp::SetAttribute(..))));
    assert_eq!(ops, &vec![RendererOp::RemoveAttribute("data-on".to_string())]);
}

#[test]
fn removal_ends_the_record_despite_other_intents() {
    let mut s = PendingStore::new();
    let hooks: FlushHooks<Hook> = FlushHooks::new();
    remove(&mut s, "x");
    scroll_into_view(&mut s, "x");
    after(&mut s, "x", "<a/>");
    let applied = drive(&mut s, &hooks, |_| true);
    assert_eq!(
        applied[0].1,
        vec![
            RendererOp::InsertSiblingAfter("<a/>".to_string()),
            RendererOp::RemoveFromParent,
        ]
    );
}

#[test]
fn apply_precedence_is_fixed() {
    let mut s = PendingStore::new();
    let hooks: FlushHooks<Hook> = FlushHooks::new();
    scroll_into_view(&mut s, "k");
    remove_attr(&mut s, "k", "hidden");
    set_attr(&mut s, "k", "class", "x");
    move_after(&mut s, "k", "m2");
    move_prepend(&mut s, "k", "m1");
    prepend(&mut s, "k", "p");
    append(&mut s, "k", "c");
    set_inner_html(&mut s, "k", "<i/>");
    after(&mut s, "k", "<a/>");
    before(&mut s, "k", "<b/>");
    // The child-level intents above were recorded again after the
    // whole-children replacement cleared the earlier ones.
    prepend(&mut s, "k", "p2");
    append(&mut s, "k", "c2");
    move_prepend(&mut s, "k", "m3");
    move_after(&mut s, "k", "m4");
    let applied = drive(&mut s, &hooks, |_| true);
    assert_eq!(
        applied[0].1,
        vec![
            RendererOp::InsertSiblingBefore("<b/>".to_string()),
            RendererOp::InsertSiblingAfter("<a/>".to_string()),
            RendererOp::ReplaceChildren("<i/>".to_string()),
            RendererOp::AppendChild("c2".to_string()),
            RendererOp::InsertFirstChild("p2".to_string()),
            RendererOp::RelocateAsFirstChild("m3".to_string()),
            RendererOp::RelocateAsNextSibling("m4".to_string()),
            RendererOp::SetAttribute("class".to_string(), "x".to_string()),
            RendererOp::RemoveAttribute("hidden".to_string()),
            RendererOp::ScrollIntoView,
        ]
    );
}

#[test]
fn outer_replacement_precedes_inner_replacement() {
    let mut s = PendingStore::new();
    let hooks: FlushHooks<Hook> = FlushHooks::new();
    set_outer_html(&mut s, "k", "<div/>");
    set_inner_html(&mut s, "k", "<i/>");
    let applied = drive(&mut s, &hooks, |_| true);
    assert_eq!(
        applied[0].1,
        vec![
            RendererOp::ReplaceNode("<div/>".to_string()),
            RendererOp::ReplaceChildren("<i/>".to_string()),
        ]
    );
}
