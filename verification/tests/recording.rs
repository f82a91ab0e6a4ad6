//! Tests of the recording API and its coalescing rules.

use mutations::apply::RendererOp;
use mutations::flush::{flush, FlushHooks, FlushStep};
use mutations::record::Mutations;
use mutations::store::{
    after, append, before, move_after, move_prepend, prepend, remove, remove_attr, scroll_into_view,
    set_attr, set_inner_html, set_outer_html, PendingStore,
};

/// Drain a store without hooks and return the records in first-mutation
/// order.
fn drain(store: &mut PendingStore) -> Vec<(String, Mutations)> {
    let hooks: FlushHooks<fn()> = FlushHooks::new();
    flush(store, &hooks)
        .into_iter()
        .map(|step| match step {
            FlushStep::ApplyRecord(k, m) => (k, m),
            _ => panic!("no hooks were registered"),
        })
        .collect()
}

fn only_record(store: &mut PendingStore) -> Mutations {
    let mut records = drain(store);
    assert_eq!(records.len(), 1);
    records.pop().unwrap().1
}

#[test]
fn append_keeps_call_order() {
    let mut s = PendingStore::new();
    append(&mut s, "k", "a");
    append(&mut s, "k", "b");
    let rec = only_record(&mut s);
    assert_eq!(rec.append, vec!["a".to_string(), "b".to_string()]);
    let ops = rec.exec(true);
    assert_eq!(
        ops,
        vec![
            RendererOp::AppendChild("a".to_string()),
            RendererOp::AppendChild("b".to_string()),
        ]
    );
}

#[test]
fn set_inner_html_twice_is_idempotent() {
    let mut s1 = PendingStore::new();
    set_inner_html(&mut s1, "k", "<p>1</p>");
    set_inner_html(&mut s1, "k", "<p>2</p>");
    let mut s2 = PendingStore::new();
    set_inner_html(&mut s2, "k", "<p>2</p>");
    assert_eq!(only_record(&mut s1), only_record(&mut s2));
}

#[test]
fn set_outer_html_discards_earlier_append() {
    let mut s1 = PendingStore::new();
    append(&mut s1, "k", "a");
    set_outer_html(&mut s1, "k", "<div/>");
    let mut s2 = PendingStore::new();
    set_outer_html(&mut s2, "k", "<div/>");
    assert_eq!(only_record(&mut s1), only_record(&mut s2));
}

#[test]
fn outer_intents_clear_inner_and_attribute_intents() {
    let mut s = PendingStore::new();
    set_attr(&mut s, "k", "class", "x");
    remove_attr(&mut s, "k", "id");
    append(&mut s, "k", "a");
    prepend(&mut s, "k", "b");
    move_prepend(&mut s, "k", "other");
    move_after(&mut s, "k", "other2");
    set_inner_html(&mut s, "k", "<i/>");
    remove(&mut s, "k");
    let rec = only_record(&mut s);
    assert!(rec.remove_el);
    assert!(rec.set_inner_html.is_none());
    assert!(rec.set_outer_html.is_none());
    assert!(rec.append.is_empty());
    assert!(rec.prepend.is_empty());
    assert!(rec.move_prepend.is_empty());
    assert!(rec.move_after.is_empty());
    assert!(rec.set_attr.is_empty());
    assert!(rec.remove_attr.is_empty());
}

#[test]
fn set_inner_html_clears_child_level_intents_only() {
    let mut s = PendingStore::new();
    append(&mut s, "k", "a");
    prepend(&mut s, "k", "b");
    move_prepend(&mut s, "k", "o1");
    move_after(&mut s, "k", "o2");
    before(&mut s, "k", "<b/>");
    after(&mut s, "k", "<a/>");
    set_attr(&mut s, "k", "class", "x");
    set_inner_html(&mut s, "k", "<i/>");
    let rec = only_record(&mut s);
    assert_eq!(rec.set_inner_html, Some("<i/>".to_string()));
    assert!(rec.append.is_empty());
    assert!(rec.prepend.is_empty());
    assert!(rec.move_prepend.is_empty());
    assert!(rec.move_after.is_empty());
    // Sibling and attribute intents survive a whole-children replacement.
    assert_eq!(rec.before, vec!["<b/>".to_string()]);
    assert_eq!(rec.after, vec!["<a/>".to_string()]);
    assert_eq!(rec.set_attr, vec![("class".to_string(), "x".to_string())]);
}

#[test]
fn attribute_name_lives_on_one_side_only() {
    let mut s = PendingStore::new();
    set_attr(&mut s, "x", "data-on", "1");
    remove_attr(&mut s, "x", "data-on");
    let rec = only_record(&mut s);
    assert!(rec.set_attr.is_empty());
    assert_eq!(rec.remove_attr, vec!["data-on".to_string()]);
}

#[test]
fn set_attr_after_remove_attr_restores_set_side() {
    let mut s = PendingStore::new();
    remove_attr(&mut s, "x", "data-on");
    set_attr(&mut s, "x", "data-on", "1");
    let rec = only_record(&mut s);
    assert_eq!(rec.set_attr, vec![("data-on".to_string(), "1".to_string())]);
    assert!(rec.remove_attr.is_empty());
}

#[test]
fn latest_attribute_value_wins() {
    let mut s = PendingStore::new();
    set_attr(&mut s, "x", "class", "one");
    set_attr(&mut s, "x", "title", "t");
    set_attr(&mut s, "x", "class", "two");
    let rec = only_record(&mut s);
    assert_eq!(
        rec.set_attr,
        vec![
            ("class".to_string(), "two".to_string()),
            ("title".to_string(), "t".to_string()),
        ]
    );
}

#[test]
fn remove_attr_twice_records_once() {
    let mut s = PendingStore::new();
    remove_attr(&mut s, "x", "class");
    remove_attr(&mut s, "x", "class");
    let rec = only_record(&mut s);
    assert_eq!(rec.remove_attr, vec!["class".to_string()]);
}

#[test]
fn first_mutation_order_is_kept() {
    let mut s = PendingStore::new();
    append(&mut s, "k1", "a");
    append(&mut s, "k2", "b");
    set_attr(&mut s, "k1", "class", "x");
    scroll_into_view(&mut s, "k3");
    let records = drain(&mut s);
    let keys: Vec<&str> = records.iter().map(|(k, _)| k.as_str()).collect();
    assert_eq!(keys, vec!["k1", "k2", "k3"]);
}

#[test]
fn scroll_into_view_sets_the_flag_only() {
    let mut s = PendingStore::new();
    scroll_into_view(&mut s, "k");
    let rec = only_record(&mut s);
    assert!(rec.scroll_into_view);
    assert!(!rec.remove_el);
    assert_eq!(rec.exec(true), vec![RendererOp::ScrollIntoView]);
}

#[test]
fn free_inner_clears_child_level_fields() {
    let mut rec = Mutations::default();
    rec.append.push("a".to_string());
    rec.prepend.push("b".to_string());
    rec.move_prepend.push("o".to_string());
    rec.move_after.push("p".to_string());
    rec.set_inner_html = Some("<i/>".to_string());
    rec.before.push("<b/>".to_string());
    rec.set_attr.push(("class".to_string(), "x".to_string()));
    rec.free_inner();
    assert!(rec.append.is_empty());
    assert!(rec.prepend.is_empty());
    assert!(rec.move_prepend.is_empty());
    assert!(rec.move_after.is_empty());
    assert!(rec.set_inner_html.is_none());
    assert_eq!(rec.before, vec!["<b/>".to_string()]);
    assert_eq!(rec.set_attr.len(), 1);
}

#[test]
fn free_outer_also_clears_attributes_and_outer_content() {
    let mut rec = Mutations::default();
    rec.set_outer_html = Some("<div/>".to_string());
    rec.set_attr.push(("class".to_string(), "x".to_string()));
    rec.remove_attr.push("id".to_string());
    rec.after.push("<a/>".to_string());
    rec.free_outer();
    assert!(rec.set_outer_html.is_none());
    assert!(rec.set_attr.is_empty());
    assert!(rec.remove_attr.is_empty());
    assert_eq!(rec.after, vec!["<a/>".to_string()]);
}
