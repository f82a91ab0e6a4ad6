//! Turning one coalesced record into the renderer operations to apply.
//!
//! `record_ops` fixes the apply precedence: sibling insertions first (they
//! run even for a node about to be removed), then removal — which ends the
//! record — then whole-node and whole-children replacement, child
//! insertions, relocations, attribute writes, and the scroll request.

use vstd::prelude::*;
use crate::record::{Mutations, RecordV};

verus! {

/// One primitive operation of the external renderer, as a mathematical
/// value, targeting the record's keyed node.
pub ghost enum OpV {
    InsertSiblingBefore(Seq<char>),
    InsertSiblingAfter(Seq<char>),
    RemoveFromParent,
    ReplaceNode(Seq<char>),
    ReplaceChildren(Seq<char>),
    AppendChild(Seq<char>),
    InsertFirstChild(Seq<char>),
    RelocateAsFirstChild(Seq<char>),
    RelocateAsNextSibling(Seq<char>),
    SetAttribute(Seq<char>, Seq<char>),
    RemoveAttribute(Seq<char>),
    ScrollIntoView,
}

/// One primitive operation of the external renderer, targeting the record's
/// keyed node. Markup payloads are opaque strings; relocation payloads are
/// the keys of the nodes to relocate.
#[derive(Debug, PartialEq, Eq)]
pub enum RendererOp {
    InsertSiblingBefore(String),
    InsertSiblingAfter(String),
    RemoveFromParent,
    ReplaceNode(String),
    ReplaceChildren(String),
    AppendChild(String),
    InsertFirstChild(String),
    RelocateAsFirstChild(String),
    RelocateAsNextSibling(String),
    SetAttribute(String, String),
    RemoveAttribute(String),
    ScrollIntoView,
}

impl View for RendererOp {
    type V = OpV;

    open spec fn view(&self) -> OpV {
        match self {
            RendererOp::InsertSiblingBefore(m) => OpV::InsertSiblingBefore(m@),
            RendererOp::InsertSiblingAfter(m) => OpV::InsertSiblingAfter(m@),
            RendererOp::RemoveFromParent => OpV::RemoveFromParent,
            RendererOp::ReplaceNode(m) => OpV::ReplaceNode(m@),
            RendererOp::ReplaceChildren(m) => OpV::ReplaceChildren(m@),
            RendererOp::AppendChild(m) => OpV::AppendChild(m@),
            RendererOp::InsertFirstChild(m) => OpV::InsertFirstChild(m@),
            RendererOp::RelocateAsFirstChild(k) => OpV::RelocateAsFirstChild(k@),
            RendererOp::RelocateAsNextSibling(k) => OpV::RelocateAsNextSibling(k@),
            RendererOp::SetAttribute(n, v) => OpV::SetAttribute(n@, v@),
            RendererOp::RemoveAttribute(n) => OpV::RemoveAttribute(n@),
            RendererOp::ScrollIntoView => OpV::ScrollIntoView,
        }
    }
}

/// The operations of an operation list, as mathematical values.
pub open spec fn ops_view(ops: Seq<RendererOp>) -> Seq<OpV> {
    ops.map_values(|o: RendererOp| o@)
}

/// The sibling insertions of a record: every `before` fragment in call
/// order, then every `after` fragment in call order.
pub open spec fn sibling_ops(r: RecordV) -> Seq<OpV> {
    r.before.map_values(|m: Seq<char>| OpV::InsertSiblingBefore(m)) + r.after.map_values(
        |m: Seq<char>| OpV::InsertSiblingAfter(m),
    )
}

/// The whole-node replacement of a record, if any.
pub open spec fn replace_node_ops(o: Option<Seq<char>>) -> Seq<OpV> {
    match o {
        Some(m) => seq![OpV::ReplaceNode(m)],
        None => Seq::empty(),
    }
}

/// The whole-children replacement of a record, if any.
pub open spec fn replace_children_ops(o: Option<Seq<char>>) -> Seq<OpV> {
    match o {
        Some(m) => seq![OpV::ReplaceChildren(m)],
        None => Seq::empty(),
    }
}

/// The scroll request of a record, if any.
pub open spec fn scroll_ops(requested: bool) -> Seq<OpV> {
    if requested {
        seq![OpV::ScrollIntoView]
    } else {
        Seq::empty()
    }
}

/// The operations of a record past the removal check, in precedence order.
pub open spec fn content_ops(r: RecordV) -> Seq<OpV> {
    replace_node_ops(r.set_outer_html) + replace_children_ops(r.set_inner_html)
        + r.append.map_values(|m: Seq<char>| OpV::AppendChild(m)) + r.prepend.map_values(
        |m: Seq<char>| OpV::InsertFirstChild(m),
    ) + r.move_prepend.map_values(|k: Seq<char>| OpV::RelocateAsFirstChild(k))
        + r.move_after.map_values(|k: Seq<char>| OpV::RelocateAsNextSibling(k))
        + r.set_attr.map_values(|p: (Seq<char>, Seq<char>)| OpV::SetAttribute(p.0, p.1))
        + r.remove_attr.map_values(|m: Seq<char>| OpV::RemoveAttribute(m)) + scroll_ops(
        r.scroll_into_view,
    )
}

/// The full operation sequence of one record: sibling insertions always run
/// first; a removal then ends the record; otherwise the content operations
/// follow.
pub open spec fn record_ops(r: RecordV) -> Seq<OpV> {
    if r.remove_el {
        sibling_ops(r).push(OpV::RemoveFromParent)
    } else {
        sibling_ops(r) + content_ops(r)
    }
}

impl Mutations {
    /// The renderer operations for this record, in apply order: none when
    /// the keyed node was not found (the whole record is silently skipped),
    /// else exactly `record_ops` of the record.
    pub fn exec(&self, node_found: bool) -> (ops: Vec<RendererOp>)
        ensures
            node_found ==> ops_view(ops@) == record_ops(self@),
            !node_found ==> ops@ == Seq::<RendererOp>::empty(),
    {
        let mut ops: Vec<RendererOp> = Vec::new();
        if !node_found {
            proof {
                assert(ops@ =~= Seq::<RendererOp>::empty());
            }
            return ops;
        }
        let ghost rv = self@;
        let ghost target = record_ops(rv);

        let mut i: usize = 0;
        while i < self.before.len()
            invariant
                target == record_ops(self@),
                rv == self@,
                i <= self.before@.len(),
                ops@.len() == i,
                forall|q: int| 0 <= q < ops@.len() ==> ops@[q]@ == target[q],
            decreases self.before@.len() - i,
        {
            ops.push(RendererOp::InsertSiblingBefore(self.before[i].clone()));
            proof {
                assert(target[i as int] == OpV::InsertSiblingBefore(rv.before[i as int]));
            }
            i += 1;
        }
        let mut i: usize = 0;
        while i < self.after.len()
            invariant
                target == record_ops(self@),
                rv == self@,
                i <= self.after@.len(),
                ops@.len() == rv.before.len() + i,
                forall|q: int| 0 <= q < ops@.len() ==> ops@[q]@ == target[q],
            decreases self.after@.len() - i,
        {
            ops.push(RendererOp::InsertSiblingAfter(self.after[i].clone()));
            proof {
                assert(target[rv.before.len() + i] == OpV::InsertSiblingAfter(rv.after[i as int]));
            }
            i += 1;
        }
        proof {
            assert(ops@.len() == sibling_ops(rv).len());
        }

        if self.remove_el {
            // Nothing else applies to a node that is going away.
            ops.push(RendererOp::RemoveFromParent);
            proof {
                assert(ops@.map_values(|o: RendererOp| o@) =~= target);
            }
            return ops;
        }

        if let Some(h) = &self.set_outer_html {
            ops.push(RendererOp::ReplaceNode(h.clone()));
        }
        if let Some(h) = &self.set_inner_html {
            ops.push(RendererOp::ReplaceChildren(h.clone()));
        }
        let ghost base0 = sibling_ops(rv).len() + replace_node_ops(rv.set_outer_html).len()
            + replace_children_ops(rv.set_inner_html).len();
        proof {
            assert(ops@.len() == base0);
            assert(forall|q: int| 0 <= q < ops@.len() ==> ops@[q]@ == target[q]);
        }

        let mut i: usize = 0;
        while i < self.append.len()
            invariant
                target == record_ops(self@),
                rv == self@,
                !rv.remove_el,
                i <= self.append@.len(),
                base0 == sibling_ops(rv).len() + replace_node_ops(rv.set_outer_html).len()
                    + replace_children_ops(rv.set_inner_html).len(),
                ops@.len() == base0 + i,
                forall|q: int| 0 <= q < ops@.len() ==> ops@[q]@ == target[q],
            decreases self.append@.len() - i,
        {
            ops.push(RendererOp::AppendChild(self.append[i].clone()));
            proof {
                assert(target[base0 + i] == OpV::AppendChild(rv.append[i as int]));
            }
            i += 1;
        }
        let ghost base1 = base0 + rv.append.len();
        let mut i: usize = 0;
        while i < self.prepend.len()
            invariant
                target == record_ops(self@),
                rv == self@,
                !rv.remove_el,
                i <= self.prepend@.len(),
                base1 == sibling_ops(rv).len() + replace_node_ops(rv.set_outer_html).len()
                    + replace_children_ops(rv.set_inner_html).len() + rv.append.len(),
                ops@.len() == base1 + i,
                forall|q: int| 0 <= q < ops@.len() ==> ops@[q]@ == target[q],
            decreases self.prepend@.len() - i,
        {
            ops.push(RendererOp::InsertFirstChild(self.prepend[i].clone()));
            proof {
                assert(target[base1 + i] == OpV::InsertFirstChild(rv.prepend[i as int]));
            }
            i += 1;
        }
        let ghost base2 = base1 + rv.prepend.len();
        let mut i: usize = 0;
        while i < self.move_prepend.len()
            invariant
                target == record_ops(self@),
                rv == self@,
                !rv.remove_el,
                i <= self.move_prepend@.len(),
                base2 == sibling_ops(rv).len() + replace_node_ops(rv.set_outer_html).len()
                    + replace_children_ops(rv.set_inner_html).len() + rv.append.len()
                    + rv.prepend.len(),
                ops@.len() == base2 + i,
                forall|q: int| 0 <= q < ops@.len() ==> ops@[q]@ == target[q],
            decreases self.move_prepend@.len() - i,
        {
            ops.push(RendererOp::RelocateAsFirstChild(self.move_prepend[i].clone()));
            proof {
                assert(target[base2 + i] == OpV::RelocateAsFirstChild(rv.move_prepend[i as int]));
            }
            i += 1;
        }
        let ghost base3 = base2 + rv.move_prepend.len();
        let mut i: usize = 0;
        while i < self.move_after.len()
            invariant
                target == record_ops(self@),
                rv == self@,
                !rv.remove_el,
                i <= self.move_after@.len(),
                base3 == sibling_ops(rv).len() + replace_node_ops(rv.set_outer_html).len()
                    + replace_children_ops(rv.set_inner_html).len() + rv.append.len()
                    + rv.prepend.len() + rv.move_prepend.len(),
                ops@.len() == base3 + i,
                forall|q: int| 0 <= q < ops@.len() ==> ops@[q]@ == target[q],
            decreases self.move_after@.len() - i,
        {
            ops.push(RendererOp::RelocateAsNextSibling(self.move_after[i].clone()));
            proof {
                assert(target[base3 + i] == OpV::RelocateAsNextSibling(rv.move_after[i as int]));
            }
            i += 1;
        }
        let ghost base4 = base3 + rv.move_after.len();
        let mut i: usize = 0;
        while i < self.set_attr.len()
            invariant
                target == record_ops(self@),
                rv == self@,
                !rv.remove_el,
                i <= self.set_attr@.len(),
                base4 == sibling_ops(rv).len() + replace_node_ops(rv.set_outer_html).len()
                    + replace_children_ops(rv.set_inner_html).len() + rv.append.len()
                    + rv.prepend.len() + rv.move_prepend.len() + rv.move_after.len(),
                ops@.len() == base4 + i,
                forall|q: int| 0 <= q < ops@.len() ==> ops@[q]@ == target[q],
            decreases self.set_attr@.len() - i,
        {
            let entry = &self.set_attr[i];
            ops.push(RendererOp::SetAttribute(entry.0.clone(), entry.1.clone()));
            proof {
                assert(target[base4 + i] == OpV::SetAttribute(
                    rv.set_attr[i as int].0,
                    rv.set_attr[i as int].1,
                ));
            }
            i += 1;
        }
        let ghost base5 = base4 + rv.set_attr.len();
        let mut i: usize = 0;
        while i < self.remove_attr.len()
            invariant
                target == record_ops(self@),
                rv == self@,
                !rv.remove_el,
                i <= self.remove_attr@.len(),
                base5 == sibling_ops(rv).len() + replace_node_ops(rv.set_outer_html).len()
                    + replace_children_ops(rv.set_inner_html).len() + rv.append.len()
                    + rv.prepend.len() + rv.move_prepend.len() + rv.move_after.len()
                    + rv.set_attr.len(),
                ops@.len() == base5 + i,
                forall|q: int| 0 <= q < ops@.len() ==> ops@[q]@ == target[q],
            decreases self.remove_attr@.len() - i,
        {
            ops.push(RendererOp::RemoveAttribute(self.remove_attr[i].clone()));
            proof {
                assert(target[base5 + i] == OpV::RemoveAttribute(rv.remove_attr[i as int]));
            }
            i += 1;
        }
        if self.scroll_into_view {
            ops.push(RendererOp::ScrollIntoView);
        }
        proof {
            assert(ops@.len() == target.len());
            assert(ops@.map_values(|o: RendererOp| o@) =~= target);
        }
        ops
    }
}

} // verus!
