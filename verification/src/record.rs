//! The per-key mutation record and its coalescing rules.
//!
//! One `Mutations` value holds the coalesced pending intents for one keyed
//! node. `RecordV` is its mathematical model; `step` says how one recorded
//! intent merges into an existing record.

use vstd::prelude::*;

verus! {

/// Mathematical model of one per-key mutation record.
#[verifier::ext_equal]
pub ghost struct RecordV {
    pub remove_el: bool,
    pub scroll_into_view: bool,
    pub set_inner_html: Option<Seq<char>>,
    pub set_outer_html: Option<Seq<char>>,
    pub append: Seq<Seq<char>>,
    pub prepend: Seq<Seq<char>>,
    pub before: Seq<Seq<char>>,
    pub after: Seq<Seq<char>>,
    pub move_prepend: Seq<Seq<char>>,
    pub move_after: Seq<Seq<char>>,
    pub set_attr: Seq<(Seq<char>, Seq<char>)>,
    pub remove_attr: Seq<Seq<char>>,
}

/// The default record: no pending intents at all.
pub open spec fn empty_record() -> RecordV {
    RecordV {
        remove_el: false,
        scroll_into_view: false,
        set_inner_html: None,
        set_outer_html: None,
        append: Seq::empty(),
        prepend: Seq::empty(),
        before: Seq::empty(),
        after: Seq::empty(),
        move_prepend: Seq::empty(),
        move_after: Seq::empty(),
        set_attr: Seq::empty(),
        remove_attr: Seq::empty(),
    }
}

/// Clearing of the child-level intents: what a new whole-children
/// replacement makes moot.
pub open spec fn free_inner_v(r: RecordV) -> RecordV {
    RecordV {
        append: Seq::empty(),
        prepend: Seq::empty(),
        move_prepend: Seq::empty(),
        move_after: Seq::empty(),
        set_inner_html: None,
        ..r
    }
}

/// Clearing of the child-level and node-level intents: what a whole-node
/// replacement or removal makes moot.
pub open spec fn free_outer_v(r: RecordV) -> RecordV {
    RecordV {
        set_attr: Seq::empty(),
        remove_attr: Seq::empty(),
        set_outer_html: None,
        ..free_inner_v(r)
    }
}

/// One recording call, as a mathematical value: the operation together
/// with its payload.
pub ghost enum IntentV {
    Append(Seq<char>),
    Prepend(Seq<char>),
    Before(Seq<char>),
    After(Seq<char>),
    MovePrepend(Seq<char>),
    MoveAfter(Seq<char>),
    SetInnerHtml(Seq<char>),
    SetOuterHtml(Seq<char>),
    Remove,
    SetAttr(Seq<char>, Seq<char>),
    RemoveAttr(Seq<char>),
    ScrollIntoView,
}

/// The attribute names of a set-attribute list, in list order.
pub open spec fn attr_names(s: Seq<(Seq<char>, Seq<char>)>) -> Seq<Seq<char>> {
    s.map_values(|p: (Seq<char>, Seq<char>)| p.0)
}

/// Set an attribute: the latest value for a name wins, in place if the name
/// is already listed, appended otherwise.
pub open spec fn upsert_attr(
    s: Seq<(Seq<char>, Seq<char>)>,
    name: Seq<char>,
    value: Seq<char>,
) -> Seq<(Seq<char>, Seq<char>)> {
    match attr_names(s).index_of_first(name) {
        Some(i) => s.update(i, (name, value)),
        None => s.push((name, value)),
    }
}

/// Drop the first entry for a name from a set-attribute list, if any.
pub open spec fn drop_attr(
    s: Seq<(Seq<char>, Seq<char>)>,
    name: Seq<char>,
) -> Seq<(Seq<char>, Seq<char>)> {
    match attr_names(s).index_of_first(name) {
        Some(i) => s.remove(i),
        None => s,
    }
}

/// Add a name to a removed-attribute set kept as a duplicate-free list.
pub open spec fn add_name(s: Seq<Seq<char>>, name: Seq<char>) -> Seq<Seq<char>> {
    if s.contains(name) {
        s
    } else {
        s.push(name)
    }
}

/// How one recorded intent coalesces into an existing record. This is the
/// whole conflict-resolution rule set: markup and relocation intents
/// accumulate in call order; a whole-children replacement discards earlier
/// child-level intents; a whole-node replacement or removal also discards
/// attribute intents; an attribute name lives in at most one of the
/// set/remove sides, latest call winning.
pub open spec fn step(r: RecordV, it: IntentV) -> RecordV {
    match it {
        IntentV::Append(m) => RecordV { append: r.append.push(m), ..r },
        IntentV::Prepend(m) => RecordV { prepend: r.prepend.push(m), ..r },
        IntentV::Before(m) => RecordV { before: r.before.push(m), ..r },
        IntentV::After(m) => RecordV { after: r.after.push(m), ..r },
        IntentV::MovePrepend(k) => RecordV { move_prepend: r.move_prepend.push(k), ..r },
        IntentV::MoveAfter(k) => RecordV { move_after: r.move_after.push(k), ..r },
        IntentV::SetInnerHtml(m) => RecordV { set_inner_html: Some(m), ..free_inner_v(r) },
        IntentV::SetOuterHtml(m) => RecordV { set_outer_html: Some(m), ..free_outer_v(r) },
        IntentV::Remove => RecordV { remove_el: true, ..free_outer_v(r) },
        IntentV::SetAttr(n, v) => RecordV {
            set_attr: upsert_attr(r.set_attr, n, v),
            remove_attr: r.remove_attr.remove_value(n),
            ..r
        },
        IntentV::RemoveAttr(n) => RecordV {
            set_attr: drop_attr(r.set_attr, n),
            remove_attr: add_name(r.remove_attr, n),
            ..r
        },
        IntentV::ScrollIntoView => RecordV { scroll_into_view: true, ..r },
    }
}

/// The attribute sides of a record are duplicate-free and disjoint: no name
/// is both set and removed in the same flush.
pub open spec fn attrs_wf(r: RecordV) -> bool {
    &&& attr_names(r.set_attr).no_duplicates()
    &&& r.remove_attr.no_duplicates()
    &&& forall|n: Seq<char>|
        attr_names(r.set_attr).contains(n) ==> !r.remove_attr.contains(n)
}

/// Pending mutations for one keyed node.
#[derive(Debug, PartialEq, Eq)]
pub struct Mutations {
    pub remove_el: bool,
    pub scroll_into_view: bool,
    pub set_inner_html: Option<String>,
    pub set_outer_html: Option<String>,
    pub append: Vec<String>,
    pub prepend: Vec<String>,
    pub before: Vec<String>,
    pub after: Vec<String>,
    pub move_prepend: Vec<String>,
    pub move_after: Vec<String>,
    pub set_attr: Vec<(String, String)>,
    pub remove_attr: Vec<String>,
}

impl View for Mutations {
    type V = RecordV;

    open spec fn view(&self) -> RecordV {
        RecordV {
            remove_el: self.remove_el,
            scroll_into_view: self.scroll_into_view,
            set_inner_html: match self.set_inner_html {
                Some(h) => Some(h@),
                None => None,
            },
            set_outer_html: match self.set_outer_html {
                Some(h) => Some(h@),
                None => None,
            },
            append: self.append@.map_values(|m: String| m@),
            prepend: self.prepend@.map_values(|m: String| m@),
            before: self.before@.map_values(|m: String| m@),
            after: self.after@.map_values(|m: String| m@),
            move_prepend: self.move_prepend@.map_values(|m: String| m@),
            move_after: self.move_after@.map_values(|m: String| m@),
            set_attr: self.set_attr@.map_values(|p: (String, String)| (p.0@, p.1@)),
            remove_attr: self.remove_attr@.map_values(|m: String| m@),
        }
    }
}

impl Default for Mutations {
    /// A fresh record with nothing pending.
    fn default() -> (r: Mutations)
        ensures
            r@ == empty_record(),
    {
        let r = Mutations {
            remove_el: false,
            scroll_into_view: false,
            set_inner_html: None,
            set_outer_html: None,
            append: Vec::new(),
            prepend: Vec::new(),
            before: Vec::new(),
            after: Vec::new(),
            move_prepend: Vec::new(),
            move_after: Vec::new(),
            set_attr: Vec::new(),
            remove_attr: Vec::new(),
        };
        proof {
            assert(r@ =~= empty_record());
        }
        r
    }
}

impl Mutations {
    /// Clear the child-level intents, so a whole-children replacement does
    /// not race against earlier child edits for the same key.
    pub fn free_inner(&mut self)
        ensures
            final(self)@ == free_inner_v(old(self)@),
    {
        self.append.clear();
        self.prepend.clear();
        self.move_prepend.clear();
        self.move_after.clear();
        self.set_inner_html = None;
        proof {
            assert(self@ =~= free_inner_v(old(self)@));
        }
    }

    /// Clear the child-level and node-level intents, so a whole-node
    /// replacement or removal does not race against earlier edits.
    pub fn free_outer(&mut self)
        ensures
            final(self)@ == free_outer_v(old(self)@),
    {
        self.free_inner();
        self.remove_attr.clear();
        self.set_attr.clear();
        self.set_outer_html = None;
        proof {
            assert(self@ =~= free_outer_v(old(self)@));
        }
    }
}

/// One recording call, ready to merge into a record.
pub enum Intent {
    Append(String),
    Prepend(String),
    Before(String),
    After(String),
    MovePrepend(String),
    MoveAfter(String),
    SetInnerHtml(String),
    SetOuterHtml(String),
    Remove,
    SetAttr(String, String),
    RemoveAttr(String),
    ScrollIntoView,
}

impl View for Intent {
    type V = IntentV;

    open spec fn view(&self) -> IntentV {
        match self {
            Intent::Append(m) => IntentV::Append(m@),
            Intent::Prepend(m) => IntentV::Prepend(m@),
            Intent::Before(m) => IntentV::Before(m@),
            Intent::After(m) => IntentV::After(m@),
            Intent::MovePrepend(k) => IntentV::MovePrepend(k@),
            Intent::MoveAfter(k) => IntentV::MoveAfter(k@),
            Intent::SetInnerHtml(m) => IntentV::SetInnerHtml(m@),
            Intent::SetOuterHtml(m) => IntentV::SetOuterHtml(m@),
            Intent::Remove => IntentV::Remove,
            Intent::SetAttr(n, v) => IntentV::SetAttr(n@, v@),
            Intent::RemoveAttr(n) => IntentV::RemoveAttr(n@),
            Intent::ScrollIntoView => IntentV::ScrollIntoView,
        }
    }
}

impl Mutations {
    /// Drop the first occurrence of a name from the removed-attribute side.
    fn remove_name_from_removed(&mut self, name: String)
        ensures
            final(self)@ == (RecordV {
                remove_attr: old(self)@.remove_attr.remove_value(name@),
                ..old(self)@
            }),
    {
        let ghost pre = self@;
        let rn = self.remove_attr.len();
        let mut p: usize = 0;
        let mut present = false;
        while p < rn && !present
            invariant
                rn == self.remove_attr@.len(),
                *self == *old(self),
                pre == self@,
                p <= rn,
                !present ==> forall|q: int| 0 <= q < p ==> pre.remove_attr[q] != name@,
                present ==> p < rn && pre.remove_attr[p as int] == name@
                    && forall|q: int| 0 <= q < p ==> pre.remove_attr[q] != name@,
            decreases rn - p + (if present { 0int } else { 1int }),
        {
            if self.remove_attr[p] == name {
                present = true;
            } else {
                p += 1;
            }
        }
        proof {
            pre.remove_attr.index_of_first_ensures(name@);
        }
        if present {
            self.remove_attr.remove(p);
            proof {
                assert(pre.remove_attr.index_of_first(name@) == Some(p as int));
                assert(self@.remove_attr =~= pre.remove_attr.remove_value(name@));
                assert(self@ =~= RecordV { remove_attr: pre.remove_attr.remove_value(name@), ..pre });
            }
        } else {
            proof {
                assert(!pre.remove_attr.contains(name@));
                assert(self@ =~= RecordV { remove_attr: pre.remove_attr.remove_value(name@), ..pre });
            }
        }
    }

    /// Set an attribute: the name leaves the removed side, and its latest
    /// value wins on the set side.
    fn set_attr_entry(&mut self, name: String, value: String)
        ensures
            final(self)@ == step(old(self)@, IntentV::SetAttr(name@, value@)),
    {
        let ghost pre = self@;
        let n = self.set_attr.len();
        let mut j: usize = 0;
        let mut found = false;
        while j < n && !found
            invariant
                n == self.set_attr@.len(),
                *self == *old(self),
                pre == self@,
                j <= n,
                !found ==> forall|p: int| 0 <= p < j ==> pre.set_attr[p].0 != name@,
                found ==> j < n && pre.set_attr[j as int].0 == name@
                    && forall|p: int| 0 <= p < j ==> pre.set_attr[p].0 != name@,
            decreases n - j + (if found { 0int } else { 1int }),
        {
            if self.set_attr[j].0 == name {
                found = true;
            } else {
                j += 1;
            }
        }
        proof {
            attr_names(pre.set_attr).index_of_first_ensures(name@);
        }
        if found {
            self.set_attr.remove(j);
            self.set_attr.insert(j, (name.clone(), value));
            proof {
                assert(attr_names(pre.set_attr)[j as int] == name@);
                assert(attr_names(pre.set_attr).contains(name@));
                assert forall|p: int| 0 <= p < j implies attr_names(pre.set_attr)[p] != name@ by {
                    assert(attr_names(pre.set_attr)[p] == pre.set_attr[p].0);
                }
                assert(attr_names(pre.set_attr).index_of_first(name@) == Some(j as int));
                assert(self@.set_attr =~= upsert_attr(pre.set_attr, name@, value@));
            }
        } else {
            self.set_attr.push((name.clone(), value));
            proof {
                assert(forall|p: int|
                    0 <= p < pre.set_attr.len() ==> #[trigger] attr_names(pre.set_attr)[p]
                        == pre.set_attr[p].0);
                assert(!attr_names(pre.set_attr).contains(name@));
                assert(self@.set_attr =~= upsert_attr(pre.set_attr, name@, value@));
            }
        }
        self.remove_name_from_removed(name);
        proof {
            assert(self@ =~= step(pre, IntentV::SetAttr(name@, value@)));
        }
    }

    /// Remove an attribute: the name leaves the set side and joins the
    /// removed side once.
    fn remove_attr_entry(&mut self, name: String)
        ensures
            final(self)@ == step(old(self)@, IntentV::RemoveAttr(name@)),
    {
        let ghost pre = self@;
        let n = self.set_attr.len();
        let mut j: usize = 0;
        let mut found = false;
        while j < n && !found
            invariant
                n == self.set_attr@.len(),
                *self == *old(self),
                pre == self@,
                j <= n,
                !found ==> forall|p: int| 0 <= p < j ==> pre.set_attr[p].0 != name@,
                found ==> j < n && pre.set_attr[j as int].0 == name@
                    && forall|p: int| 0 <= p < j ==> pre.set_attr[p].0 != name@,
            decreases n - j + (if found { 0int } else { 1int }),
        {
            if self.set_attr[j].0 == name {
                found = true;
            } else {
                j += 1;
            }
        }
        proof {
            attr_names(pre.set_attr).index_of_first_ensures(name@);
            assert(forall|p: int|
                0 <= p < pre.set_attr.len() ==> #[trigger] attr_names(pre.set_attr)[p]
                    == pre.set_attr[p].0);
        }
        if found {
            self.set_attr.remove(j);
            proof {
                assert(attr_names(pre.set_attr)[j as int] == name@);
                assert(attr_names(pre.set_attr).contains(name@));
                assert forall|p: int| 0 <= p < j implies attr_names(pre.set_attr)[p] != name@ by {
                    assert(attr_names(pre.set_attr)[p] == pre.set_attr[p].0);
                }
                assert(attr_names(pre.set_attr).index_of_first(name@) == Some(j as int));
                assert(self@.set_attr =~= drop_attr(pre.set_attr, name@));
            }
        } else {
            proof {
                assert(!attr_names(pre.set_attr).contains(name@));
                assert(self@.set_attr =~= drop_attr(pre.set_attr, name@));
            }
        }
        let ghost mid = self@;
        let rn = self.remove_attr.len();
        let mut p: usize = 0;
        let mut present = false;
        while p < rn && !present
            invariant
                rn == self.remove_attr@.len(),
                self@ == mid,
                p <= rn,
                !present ==> forall|q: int| 0 <= q < p ==> mid.remove_attr[q] != name@,
                present ==> p < rn && mid.remove_attr[p as int] == name@,
            decreases rn - p + (if present { 0int } else { 1int }),
        {
            if self.remove_attr[p] == name {
                present = true;
            } else {
                p += 1;
            }
        }
        if !present {
            self.remove_attr.push(name);
            proof {
                assert(!mid.remove_attr.contains(name@));
                assert(self@.remove_attr =~= add_name(mid.remove_attr, name@));
            }
        } else {
            proof {
                assert(mid.remove_attr.contains(name@));
            }
        }
        proof {
            assert(self@ =~= step(pre, IntentV::RemoveAttr(name@)));
        }
    }

    /// Merge one recorded intent into this record, per the coalescing rules
    /// of `step`.
    pub fn apply_intent(&mut self, it: Intent)
        ensures
            final(self)@ == step(old(self)@, it@),
    {
        let ghost pre = self@;
        let ghost itv = it@;
        match it {
            Intent::Append(m) => {
                self.append.push(m);
                proof {
                    assert(self@ =~= step(pre, itv));
                }
            },
            Intent::Prepend(m) => {
                self.prepend.push(m);
                proof {
                    assert(self@ =~= step(pre, itv));
                }
            },
            Intent::Before(m) => {
                self.before.push(m);
                proof {
                    assert(self@ =~= step(pre, itv));
                }
            },
            Intent::After(m) => {
                self.after.push(m);
                proof {
                    assert(self@ =~= step(pre, itv));
                }
            },
            Intent::MovePrepend(k) => {
                self.move_prepend.push(k);
                proof {
                    assert(self@ =~= step(pre, itv));
                }
            },
            Intent::MoveAfter(k) => {
                self.move_after.push(k);
                proof {
                    assert(self@ =~= step(pre, itv));
                }
            },
            Intent::SetInnerHtml(m) => {
                self.free_inner();
                self.set_inner_html = Some(m);
                proof {
                    assert(self@ =~= step(pre, itv));
                }
            },
            Intent::SetOuterHtml(m) => {
                self.free_outer();
                self.set_outer_html = Some(m);
                proof {
                    assert(self@ =~= step(pre, itv));
                }
            },
            Intent::Remove => {
                self.free_outer();
                self.remove_el = true;
                proof {
                    assert(self@ =~= step(pre, itv));
                }
            },
            Intent::SetAttr(n, v) => {
                self.set_attr_entry(n, v);
            },
            Intent::RemoveAttr(n) => {
                self.remove_attr_entry(n);
            },
            Intent::ScrollIntoView => {
                self.scroll_into_view = true;
                proof {
                    assert(self@ =~= step(pre, itv));
                }
            },
        }
    }
}

} // verus!
