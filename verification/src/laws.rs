//! Laws of the coalescing rules and of the flush protocol, stated and
//! proved over the mathematical model once and for all.

use vstd::prelude::*;
use crate::record::{
    RecordV, IntentV, empty_record, step, attrs_wf, attr_names, add_name,
};
use crate::apply::{OpV, record_ops, sibling_ops, content_ops};
use crate::flush::{StepV, flush_plan};

verus! {

/// The record that a sequence of recording calls for one key builds up,
/// starting from the empty record.
pub open spec fn run_intents(s: Seq<IntentV>) -> RecordV
    decreases s.len(),
{
    if s.len() == 0 {
        empty_record()
    } else {
        step(run_intents(s.drop_last()), s.last())
    }
}

/// Removing one element keeps a sequence duplicate-free, keeps membership,
/// and — when the sequence was duplicate-free — takes the removed value out
/// entirely.
proof fn lemma_remove_keeps<A>(s: Seq<A>, i: int)
    requires
        0 <= i < s.len(),
    ensures
        forall|x: A| s.remove(i).contains(x) ==> s.contains(x),
        s.no_duplicates() ==> s.remove(i).no_duplicates(),
        s.no_duplicates() ==> !s.remove(i).contains(s[i]),
{
    s.remove_ensures(i);
    let t = s.remove(i);
    assert forall|x: A| t.contains(x) implies s.contains(x) by {
        let w = choose|p: int| 0 <= p < t.len() && t[p] == x;
        if w < i {
            assert(s[w] == x);
        } else {
            assert(s[w + 1] == x);
        }
    }
    if s.no_duplicates() {
        assert forall|p: int, q: int|
            0 <= p < t.len() && 0 <= q < t.len() && p != q implies t[p] != t[q] by {
            let sp: int = if p < i { p } else { p + 1 };
            let sq: int = if q < i { q } else { q + 1 };
            assert(t[p] == s[sp]);
            assert(t[q] == s[sq]);
        }
        assert forall|p: int| 0 <= p < t.len() implies t[p] != s[i] by {
            let sp: int = if p < i { p } else { p + 1 };
            assert(t[p] == s[sp]);
        }
        if t.contains(s[i]) {
            let w = choose|p: int| 0 <= p < t.len() && t[p] == s[i];
            assert(t[w] != s[i]);
        }
    }
}

/// One coalescing step keeps the attribute sides duplicate-free and
/// disjoint.
proof fn lemma_step_attrs_wf(r: RecordV, it: IntentV)
    requires
        attrs_wf(r),
    ensures
        attrs_wf(step(r, it)),
{
    let post = step(r, it);
    match it {
        IntentV::SetAttr(n, v) => {
            let names = attr_names(r.set_attr);
            names.index_of_first_ensures(n);
            r.remove_attr.index_of_first_ensures(n);
            // The removed side loses the name entirely.
            if r.remove_attr.contains(n) {
                let i = r.remove_attr.index_of_first(n).unwrap();
                lemma_remove_keeps(r.remove_attr, i);
            }
            assert(!post.remove_attr.contains(n));
            assert(forall|x: Seq<char>|
                post.remove_attr.contains(x) ==> r.remove_attr.contains(x));
            assert(post.remove_attr.no_duplicates());
            // The set side keeps its names, or gains exactly the new name.
            match names.index_of_first(n) {
                Some(i) => {
                    assert(names[i] == n);
                    assert(attr_names(post.set_attr) =~= names);
                },
                None => {
                    assert(!names.contains(n));
                    assert(attr_names(post.set_attr) =~= names.push(n));
                    assert forall|p: int, q: int|
                        0 <= p < names.len() + 1 && 0 <= q < names.len() + 1 && p != q implies
                        attr_names(post.set_attr)[p] != attr_names(post.set_attr)[q] by {
                        if p < names.len() && q < names.len() {
                        } else if p == names.len() {
                            assert(names[q] != n);
                        } else {
                            assert(names[p] != n);
                        }
                    }
                },
            }
            assert forall|m: Seq<char>| attr_names(post.set_attr).contains(m) implies
                !post.remove_attr.contains(m) by {
                if m == n {
                } else {
                    let w = choose|p: int|
                        0 <= p < attr_names(post.set_attr).len() && attr_names(post.set_attr)[p]
                            == m;
                    assert(names.contains(m) || m == n) by {
                        if w < names.len() {
                            assert(attr_names(post.set_attr)[w] == names[w] || attr_names(
                                post.set_attr,
                            )[w] == m);
                        }
                    }
                }
            }
        },
        IntentV::RemoveAttr(n) => {
            let names = attr_names(r.set_attr);
            names.index_of_first_ensures(n);
            match names.index_of_first(n) {
                Some(i) => {
                    lemma_remove_keeps(r.set_attr, i);
                    assert(attr_names(post.set_attr) =~= names.remove(i));
                    lemma_remove_keeps(names, i);
                },
                None => {
                    assert(post.set_attr == r.set_attr);
                },
            }
            assert(attr_names(post.set_attr).no_duplicates());
            assert(!attr_names(post.set_attr).contains(n)) by {
                if attr_names(post.set_attr).contains(n) {
                    match names.index_of_first(n) {
                        Some(i) => {},
                        None => {
                            assert(names.contains(n));
                        },
                    }
                }
            }
            assert(post.remove_attr == add_name(r.remove_attr, n));
            assert(post.remove_attr.no_duplicates()) by {
                if !r.remove_attr.contains(n) {
                    assert forall|p: int, q: int|
                        0 <= p < post.remove_attr.len() && 0 <= q < post.remove_attr.len() && p
                            != q implies post.remove_attr[p] != post.remove_attr[q] by {
                        if p < r.remove_attr.len() && q < r.remove_attr.len() {
                        } else if p == r.remove_attr.len() {
                            assert(r.remove_attr[q] != n);
                        } else {
                            assert(r.remove_attr[p] != n);
                        }
                    }
                }
            }
            assert forall|m: Seq<char>| attr_names(post.set_attr).contains(m) implies
                !post.remove_attr.contains(m) by {
                assert(m != n);
                assert(names.contains(m)) by {
                    let w = choose|p: int|
                        0 <= p < attr_names(post.set_attr).len() && attr_names(post.set_attr)[p]
                            == m;
                    match names.index_of_first(n) {
                        Some(i) => {
                            lemma_remove_keeps(names, i);
                        },
                        None => {},
                    }
                }
                assert(!r.remove_attr.contains(m));
                if post.remove_attr.contains(m) {
                    let w = choose|p: int|
                        0 <= p < post.remove_attr.len() && post.remove_attr[p] == m;
                    if !r.remove_attr.contains(n) {
                        assert(w == r.remove_attr.len() || r.remove_attr[w] == m);
                    }
                }
            }
        },
        _ => {},
    }
}

/// After any sequence of recording calls for one key, the record's
/// set-attribute and removed-attribute name sets are duplicate-free and
/// disjoint: no attribute is both set and removed in the same flush.
pub proof fn lemma_record_attrs_disjoint(s: Seq<IntentV>)
    ensures
        attrs_wf(run_intents(s)),
    decreases s.len(),
{
    if s.len() == 0 {
    } else {
        lemma_record_attrs_disjoint(s.drop_last());
        lemma_step_attrs_wf(run_intents(s.drop_last()), s.last());
    }
}

/// A whole-node replacement or removal.
pub open spec fn is_outer_intent(it: IntentV) -> bool {
    it is SetOuterHtml || it is Remove
}

/// An intent that a whole-node replacement or removal discards.
pub open spec fn is_inner_intent(it: IntentV) -> bool {
    ||| it is Append
    ||| it is Prepend
    ||| it is MovePrepend
    ||| it is MoveAfter
    ||| it is SetInnerHtml
    ||| it is SetAttr
    ||| it is RemoveAttr
}

/// Everything that a whole-node replacement or removal discards is absent
/// from the record.
pub open spec fn outer_dominated(r: RecordV) -> bool {
    &&& r.append.len() == 0
    &&& r.prepend.len() == 0
    &&& r.move_prepend.len() == 0
    &&& r.move_after.len() == 0
    &&& r.set_inner_html is None
    &&& r.set_attr.len() == 0
    &&& r.remove_attr.len() == 0
}

/// Whether some whole-node replacement or removal occurs in the sequence.
pub open spec fn has_outer_intent(s: Seq<IntentV>) -> bool {
    exists|i: int| 0 <= i < s.len() && is_outer_intent(s[i])
}

/// Without an outer intent, the record's outer flags stay unset.
proof fn lemma_no_outer_flags(s: Seq<IntentV>)
    requires
        !has_outer_intent(s),
    ensures
        !run_intents(s).remove_el,
        run_intents(s).set_outer_html is None,
    decreases s.len(),
{
    if s.len() > 0 {
        assert(!has_outer_intent(s.drop_last())) by {
            if has_outer_intent(s.drop_last()) {
                let w = choose|i: int|
                    0 <= i < s.drop_last().len() && is_outer_intent(s.drop_last()[i]);
                assert(s[w] == s.drop_last()[w]);
            }
        }
        lemma_no_outer_flags(s.drop_last());
        assert(!is_outer_intent(s.last())) by {
            if is_outer_intent(s.last()) {
                assert(is_outer_intent(s[s.len() - 1]));
            }
        }
    }
}

/// Once a whole-node replacement or removal is recorded for a key, and no
/// later call records an intent that it discards, the record carries
/// nothing that the outer intent made moot: no child-level fragments or
/// relocations, no whole-children replacement, no attribute intents.
/// (A child-level or attribute call made after the outer call is recorded
/// again, so the requirement cannot be dropped.)
pub proof fn lemma_outer_discards_inner(s: Seq<IntentV>)
    requires
        forall|i: int, j: int|
            0 <= i < j < s.len() && is_outer_intent(#[trigger] s[i]) ==> !is_inner_intent(
                #[trigger] s[j],
            ),
    ensures
        (run_intents(s).set_outer_html is Some || run_intents(s).remove_el) ==> outer_dominated(
            run_intents(s),
        ),
    decreases s.len(),
{
    if s.len() == 0 {
    } else {
        let s0 = s.drop_last();
        let it = s.last();
        assert(forall|i: int, j: int|
            0 <= i < j < s0.len() && is_outer_intent(#[trigger] s0[i]) ==> !is_inner_intent(
                #[trigger] s0[j],
            )) by {
            assert(forall|i: int| 0 <= i < s0.len() ==> #[trigger] s0[i] == s[i]);
        }
        lemma_outer_discards_inner(s0);
        if is_outer_intent(it) {
        } else if is_inner_intent(it) {
            assert(!has_outer_intent(s0)) by {
                if has_outer_intent(s0) {
                    let w = choose|i: int| 0 <= i < s0.len() && is_outer_intent(s0[i]);
                    assert(s[w] == s0[w]);
                    assert(is_outer_intent(s[w]) && is_inner_intent(s[s.len() - 1]));
                }
            }
            lemma_no_outer_flags(s0);
        } else {
        }
    }
}

/// Whole-children replacement is idempotent: recording it twice in a row
/// leaves the record exactly as if only the second call had been made.
pub proof fn lemma_set_inner_idempotent(r: RecordV, m1: Seq<char>, m2: Seq<char>)
    ensures
        step(step(r, IntentV::SetInnerHtml(m1)), IntentV::SetInnerHtml(m2)) == step(
            r,
            IntentV::SetInnerHtml(m2),
        ),
{
    assert(step(step(r, IntentV::SetInnerHtml(m1)), IntentV::SetInnerHtml(m2)) =~= step(
        r,
        IntentV::SetInnerHtml(m2),
    ));
}

/// A later whole-node replacement discards an earlier append entirely: the
/// record — and hence everything applied from it — is the same as if the
/// append had never been recorded.
pub proof fn lemma_outer_discards_append(r: RecordV, a: Seq<char>, m: Seq<char>)
    ensures
        step(step(r, IntentV::Append(a)), IntentV::SetOuterHtml(m)) == step(
            r,
            IntentV::SetOuterHtml(m),
        ),
{
    assert(step(step(r, IntentV::Append(a)), IntentV::SetOuterHtml(m)) =~= step(
        r,
        IntentV::SetOuterHtml(m),
    ));
}

/// Appends keep call order: the two fragments end up at the end of the
/// append list in call order, and a record built from the two appends alone
/// applies exactly the two append operations, in that order.
pub proof fn lemma_append_order(r: RecordV, a: Seq<char>, b: Seq<char>)
    ensures
        step(step(r, IntentV::Append(a)), IntentV::Append(b)).append == r.append.push(a).push(b),
        record_ops(run_intents(seq![IntentV::Append(a), IntentV::Append(b)])) == seq![
            OpV::AppendChild(a),
            OpV::AppendChild(b),
        ],
{
    reveal_with_fuel(run_intents, 3);
    let s = seq![IntentV::Append(a), IntentV::Append(b)];
    let s1 = seq![IntentV::Append(a)];
    assert(s.drop_last() =~= s1);
    assert(s1.drop_last() =~= Seq::<IntentV>::empty());
    assert(run_intents(s1) == step(empty_record(), IntentV::Append(a)));
    let rec = run_intents(s);
    assert(rec == step(step(empty_record(), IntentV::Append(a)), IntentV::Append(b)));
    assert(rec.append =~= seq![a, b]);
    assert(sibling_ops(rec) =~= Seq::<OpV>::empty());
    assert(content_ops(rec) =~= seq![OpV::AppendChild(a), OpV::AppendChild(b)]);
    assert(record_ops(rec) =~= seq![OpV::AppendChild(a), OpV::AppendChild(b)]);
}

/// A flush with nothing pending applies no record: every step of its
/// protocol is a hook step.
pub proof fn lemma_empty_flush_applies_nothing(run_before: bool, run_after: bool)
    ensures
        forall|q: int|
            0 <= q < flush_plan(Seq::empty(), run_before, run_after).len() ==> !(flush_plan(
                Seq::empty(),
                run_before,
                run_after,
            )[q] is ApplyRecord),
{
    let p = flush_plan(Seq::empty(), run_before, run_after);
    assert(Seq::<(Seq<char>, RecordV)>::empty().map_values(
        |e: (Seq<char>, RecordV)| StepV::ApplyRecord(e.0, e.1),
    ) =~= Seq::<StepV>::empty());
    if run_before {
        if run_after {
            assert(p =~= seq![StepV::RunBeforeHook, StepV::RunAfterHook]);
        } else {
            assert(p =~= seq![StepV::RunBeforeHook]);
        }
    } else {
        if run_after {
            assert(p =~= seq![StepV::RunAfterHook]);
        } else {
            assert(p =~= Seq::<StepV>::empty());
        }
    }
}

/// With both hooks registered and nothing pending, a flush still runs the
/// before hook and then the after hook, with no renderer work between.
pub proof fn lemma_hooks_bracket_empty_flush()
    ensures
        flush_plan(Seq::empty(), true, true) == seq![StepV::RunBeforeHook, StepV::RunAfterHook],
{
    assert(Seq::<(Seq<char>, RecordV)>::empty().map_values(
        |e: (Seq<char>, RecordV)| StepV::ApplyRecord(e.0, e.1),
    ) =~= Seq::<StepV>::empty());
    assert(flush_plan(Seq::empty(), true, true) =~= seq![
        StepV::RunBeforeHook,
        StepV::RunAfterHook,
    ]);
}

} // verus!
