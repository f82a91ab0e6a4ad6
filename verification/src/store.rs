//! The pending store: every not-yet-flushed record, in first-mutation order.
//!
//! Each recording call resolves its key to the key's record — creating a
//! default record and registering the key at the end of the order when the
//! key is new to this flush cycle — and merges one intent into it.

use vstd::prelude::*;
use crate::record::{Mutations, RecordV, IntentV, Intent, empty_record, step};

verus! {

/// All pending mutation records, keyed by node key, in the order in which
/// each key first received a mutation.
pub struct PendingStore {
    keys: Vec<String>,
    recs: Vec<Mutations>,
}

/// A key order after one more recording call: unchanged if the key already
/// has a record, else the key appended.
pub open spec fn push_if_new(order: Seq<Seq<char>>, id: Seq<char>) -> Seq<Seq<char>> {
    if order.contains(id) {
        order
    } else {
        order.push(id)
    }
}

impl PendingStore {
    /// The keys with a pending record, in first-mutation order.
    pub closed spec fn order(&self) -> Seq<Seq<char>> {
        self.keys@.map_values(|k: String| k@)
    }

    /// The pending records, in the same order as `order`.
    pub closed spec fn records(&self) -> Seq<RecordV> {
        self.recs@.map_values(|m: Mutations| m@)
    }

    /// Whether a record is pending for this key.
    pub open spec fn has(&self, id: Seq<char>) -> bool {
        self.order().contains(id)
    }

    /// The pending record for a key, or the empty record if none is pending.
    pub open spec fn record_of(&self, id: Seq<char>) -> RecordV {
        if self.has(id) {
            self.records()[self.order().index_of(id)]
        } else {
            empty_record()
        }
    }

    /// Each key has at most one record, and keys and records line up.
    pub closed spec fn wf(&self) -> bool {
        &&& self.keys@.len() == self.recs@.len()
        &&& self.order().no_duplicates()
    }

    /// An empty store: nothing pending.
    pub fn new() -> (s: PendingStore)
        ensures
            s.wf(),
            s.order() == Seq::<Seq<char>>::empty(),
    {
        let s = PendingStore { keys: Vec::new(), recs: Vec::new() };
        proof {
            assert(s.order() =~= Seq::<Seq<char>>::empty());
        }
        s
    }

    /// The keyed records, in first-mutation order.
    pub open spec fn entries(&self) -> Seq<(Seq<char>, RecordV)> {
        self.order().zip_with(self.records())
    }

    /// How many keys have a pending record.
    pub fn pending_len(&self) -> (n: usize)
        requires
            self.wf(),
        ensures
            n == self.order().len(),
    {
        self.keys.len()
    }

    /// In a well-formed store the keys and records line up pairwise, and no
    /// key is recorded twice.
    pub proof fn lemma_wf_entries(&self)
        requires
            self.wf(),
        ensures
            self.records().len() == self.order().len(),
            self.entries().len() == self.order().len(),
            forall|i: int|
                0 <= i < self.order().len() ==> self.entries()[i] == ((
                self.order()[i],
                self.records()[i],
                )),
            self.order().no_duplicates(),
    {
        if self.order().len() == 0 {
            assert(self.entries() =~= Seq::<(Seq<char>, RecordV)>::empty());
        }
    }

    /// Remove and return the first-recorded key and its record.
    pub fn take_first(&mut self) -> (kv: (String, Mutations))
        requires
            old(self).wf(),
            old(self).order().len() > 0,
        ensures
            final(self).wf(),
            kv.0@ == old(self).order()[0],
            kv.1@ == old(self).records()[0],
            final(self).order() == old(self).order().drop_first(),
            final(self).records() == old(self).records().drop_first(),
    {
        let k = self.keys.remove(0);
        let r = self.recs.remove(0);
        proof {
            assert(self.order() =~= old(self).order().drop_first());
            assert(self.records() =~= old(self).records().drop_first());
        }
        (k, r)
    }
}

/// Resolve the key to its record — creating a default record and appending
/// the key to the order if the key is new — and merge one intent into it.
/// Records of all other keys are untouched.
fn record(store: &mut PendingStore, id: &str, it: Intent)
    requires
        old(store).wf(),
    ensures
        final(store).wf(),
        final(store).order() == push_if_new(old(store).order(), id@),
        final(store).has(id@),
        final(store).record_of(id@) == step(old(store).record_of(id@), it@),
        forall|k: Seq<char>|
            k != id@ ==> #[trigger] final(store).record_of(k) == old(store).record_of(k),
        forall|k: Seq<char>| k != id@ ==> (#[trigger] final(store).has(k) <==> old(store).has(k)),
{
    let ghost pre = *old(store);
    let ghost itv = it@;
    let n = store.keys.len();
    let id_owned: String = id.to_owned();
    let mut j: usize = 0;
    let mut found = false;
    while j < n && !found
        invariant
            *store == pre,
            pre.wf(),
            n == store.keys@.len(),
            j <= n,
            id_owned@ == id@,
            !found ==> forall|p: int| 0 <= p < j ==> pre.order()[p] != id@,
            found ==> j < n && pre.order()[j as int] == id@,
        decreases n - j + (if found { 0int } else { 1int }),
    {
        if store.keys[j] == id_owned {
            found = true;
        } else {
            j += 1;
        }
    }
    if !found {
        store.keys.push(id_owned);
        store.recs.push(Mutations::default());
        proof {
            assert forall|p: int| 0 <= p < pre.order().len() implies pre.order()[p] != id@ by {}
            assert(!pre.has(id@));
            assert(store.order() =~= pre.order().push(id@));
            assert(store.records() =~= pre.records().push(empty_record()));
            assert(store.order().no_duplicates());
        }
    }
    // Either way the key's record now sits at index j, the first and only
    // index whose key matches.
    let ghost mid = *store;
    proof {
        assert(mid.order() == push_if_new(pre.order(), id@));
        assert(mid.wf());
        assert(mid.order()[j as int] == id@);
        assert(mid.has(id@));
        assert(mid.order().index_of(id@) == j as int) by {
            assert(mid.order()[mid.order().index_of(id@)] == id@);
        }
        assert(mid.records()[j as int] == pre.record_of(id@)) by {
            if pre.has(id@) {
                assert(pre.order()[pre.order().index_of(id@)] == id@);
                assert(pre.order().index_of(id@) == j as int);
            }
        }
    }
    let mut r = store.recs.remove(j);
    r.apply_intent(it);
    store.recs.insert(j, r);
    proof {
        assert(store.order() == mid.order());
        assert(store.records() =~= mid.records().update(
            j as int,
            step(pre.record_of(id@), itv),
        ));
        assert(store.record_of(id@) == step(pre.record_of(id@), itv)) by {
            assert(store.order()[store.order().index_of(id@)] == id@);
            assert(store.order().index_of(id@) == j as int);
        }
        assert forall|k: Seq<char>| k != id@ implies (#[trigger] store.has(k) <==> pre.has(
            k,
        )) by {
            if store.has(k) {
                let w = choose|p: int| 0 <= p < store.order().len() && store.order()[p] == k;
                if pre.has(id@) {
                    assert(pre.order()[w] == k);
                } else {
                    assert(w < pre.order().len() + 1);
                    assert(store.order()[w] == k && k != id@);
                    assert(w != pre.order().len());
                    assert(pre.order()[w] == k);
                }
                assert(pre.has(k));
            }
            if pre.has(k) {
                let w = choose|p: int| 0 <= p < pre.order().len() && pre.order()[p] == k;
                assert(store.order()[w] == k);
                assert(store.has(k));
            }
        }
        assert forall|k: Seq<char>| k != id@ implies #[trigger] store.record_of(k)
            == pre.record_of(k) by {
            if store.has(k) {
                let w = store.order().index_of(k);
                assert(store.order()[w] == k);
                assert(w != j as int);
                if !pre.has(id@) {
                    assert(w != pre.order().len());
                }
                assert(pre.order()[w] == k);
                assert(store.records()[w] == pre.records()[w]);
                let wp = pre.order().index_of(k);
                assert(pre.order()[wp] == k);
                assert(wp == w);
            }
        }
    }
}

/// Record markup to insert as the keyed node's last child, in call order.
pub fn append(store: &mut PendingStore, id: &str, html: &str)
    requires
        old(store).wf(),
    ensures
        final(store).wf(),
        final(store).order() == push_if_new(old(store).order(), id@),
        final(store).record_of(id@) == step(old(store).record_of(id@), IntentV::Append(html@)),
        forall|k: Seq<char>|
            k != id@ ==> #[trigger] final(store).record_of(k) == old(store).record_of(k),
        forall|k: Seq<char>| k != id@ ==> (#[trigger] final(store).has(k) <==> old(store).has(k)),
{
    record(store, id, Intent::Append(html.to_owned()));
}

/// Record markup to insert as the keyed node's first child; successive calls
/// end up in call order at the front.
pub fn prepend(store: &mut PendingStore, id: &str, html: &str)
    requires
        old(store).wf(),
    ensures
        final(store).wf(),
        final(store).order() == push_if_new(old(store).order(), id@),
        final(store).record_of(id@) == step(old(store).record_of(id@), IntentV::Prepend(html@)),
        forall|k: Seq<char>|
            k != id@ ==> #[trigger] final(store).record_of(k) == old(store).record_of(k),
        forall|k: Seq<char>| k != id@ ==> (#[trigger] final(store).has(k) <==> old(store).has(k)),
{
    record(store, id, Intent::Prepend(html.to_owned()));
}

/// Record markup to insert as the keyed node's previous sibling, in call
/// order.
pub fn before(store: &mut PendingStore, id: &str, html: &str)
    requires
        old(store).wf(),
    ensures
        final(store).wf(),
        final(store).order() == push_if_new(old(store).order(), id@),
        final(store).record_of(id@) == step(old(store).record_of(id@), IntentV::Before(html@)),
        forall|k: Seq<char>|
            k != id@ ==> #[trigger] final(store).record_of(k) == old(store).record_of(k),
        forall|k: Seq<char>| k != id@ ==> (#[trigger] final(store).has(k) <==> old(store).has(k)),
{
    record(store, id, Intent::Before(html.to_owned()));
}

/// Record markup to insert right after the keyed node, in call order.
pub fn after(store: &mut PendingStore, id: &str, html: &str)
    requires
        old(store).wf(),
    ensures
        final(store).wf(),
        final(store).order() == push_if_new(old(store).order(), id@),
        final(store).record_of(id@) == step(old(store).record_of(id@), IntentV::After(html@)),
        forall|k: Seq<char>|
            k != id@ ==> #[trigger] final(store).record_of(k) == old(store).record_of(k),
        forall|k: Seq<char>| k != id@ ==> (#[trigger] final(store).has(k) <==> old(store).has(k)),
{
    record(store, id, Intent::After(html.to_owned()));
}

/// Record another keyed node to relocate to the keyed node's first child,
/// in call order.
pub fn move_prepend(store: &mut PendingStore, id: &str, other: &str)
    requires
        old(store).wf(),
    ensures
        final(store).wf(),
        final(store).order() == push_if_new(old(store).order(), id@),
        final(store).record_of(id@) == step(
            old(store).record_of(id@),
            IntentV::MovePrepend(other@),
        ),
        forall|k: Seq<char>|
            k != id@ ==> #[trigger] final(store).record_of(k) == old(store).record_of(k),
        forall|k: Seq<char>| k != id@ ==> (#[trigger] final(store).has(k) <==> old(store).has(k)),
{
    record(store, id, Intent::MovePrepend(other.to_owned()));
}

/// Record another keyed node to relocate to right after the keyed node,
/// in call order.
pub fn move_after(store: &mut PendingStore, id: &str, other: &str)
    requires
        old(store).wf(),
    ensures
        final(store).wf(),
        final(store).order() == push_if_new(old(store).order(), id@),
        final(store).record_of(id@) == step(
            old(store).record_of(id@),
            IntentV::MoveAfter(other@),
        ),
        forall|k: Seq<char>|
            k != id@ ==> #[trigger] final(store).record_of(k) == old(store).record_of(k),
        forall|k: Seq<char>| k != id@ ==> (#[trigger] final(store).has(k) <==> old(store).has(k)),
{
    record(store, id, Intent::MoveAfter(other.to_owned()));
}

/// Record a whole-children replacement; earlier child-level intents for the
/// key are discarded.
pub fn set_inner_html(store: &mut PendingStore, id: &str, html: &str)
    requires
        old(store).wf(),
    ensures
        final(store).wf(),
        final(store).order() == push_if_new(old(store).order(), id@),
        final(store).record_of(id@) == step(
            old(store).record_of(id@),
            IntentV::SetInnerHtml(html@),
        ),
        forall|k: Seq<char>|
            k != id@ ==> #[trigger] final(store).record_of(k) == old(store).record_of(k),
        forall|k: Seq<char>| k != id@ ==> (#[trigger] final(store).has(k) <==> old(store).has(k)),
{
    record(store, id, Intent::SetInnerHtml(html.to_owned()));
}

/// Record a whole-node replacement; earlier child-level and attribute
/// intents for the key are discarded.
pub fn set_outer_html(store: &mut PendingStore, id: &str, html: &str)
    requires
        old(store).wf(),
    ensures
        final(store).wf(),
        final(store).order() == push_if_new(old(store).order(), id@),
        final(store).record_of(id@) == step(
            old(store).record_of(id@),
            IntentV::SetOuterHtml(html@),
        ),
        forall|k: Seq<char>|
            k != id@ ==> #[trigger] final(store).record_of(k) == old(store).record_of(k),
        forall|k: Seq<char>| k != id@ ==> (#[trigger] final(store).has(k) <==> old(store).has(k)),
{
    record(store, id, Intent::SetOuterHtml(html.to_owned()));
}

/// Record a removal of the keyed node; earlier child-level and attribute
/// intents for the key are discarded.
pub fn remove(store: &mut PendingStore, id: &str)
    requires
        old(store).wf(),
    ensures
        final(store).wf(),
        final(store).order() == push_if_new(old(store).order(), id@),
        final(store).record_of(id@) == step(old(store).record_of(id@), IntentV::Remove),
        forall|k: Seq<char>|
            k != id@ ==> #[trigger] final(store).record_of(k) == old(store).record_of(k),
        forall|k: Seq<char>| k != id@ ==> (#[trigger] final(store).has(k) <==> old(store).has(k)),
{
    record(store, id, Intent::Remove);
}

/// Record an attribute value; the latest call for a name wins and evicts
/// the name from the removed side.
pub fn set_attr(store: &mut PendingStore, id: &str, key: &str, val: &str)
    requires
        old(store).wf(),
    ensures
        final(store).wf(),
        final(store).order() == push_if_new(old(store).order(), id@),
        final(store).record_of(id@) == step(
            old(store).record_of(id@),
            IntentV::SetAttr(key@, val@),
        ),
        forall|k: Seq<char>|
            k != id@ ==> #[trigger] final(store).record_of(k) == old(store).record_of(k),
        forall|k: Seq<char>| k != id@ ==> (#[trigger] final(store).has(k) <==> old(store).has(k)),
{
    record(store, id, Intent::SetAttr(key.to_owned(), val.to_owned()));
}

/// Record an attribute removal; the name is evicted from the set side.
pub fn remove_attr(store: &mut PendingStore, id: &str, key: &str)
    requires
        old(store).wf(),
    ensures
        final(store).wf(),
        final(store).order() == push_if_new(old(store).order(), id@),
        final(store).record_of(id@) == step(old(store).record_of(id@), IntentV::RemoveAttr(key@)),
        forall|k: Seq<char>|
            k != id@ ==> #[trigger] final(store).record_of(k) == old(store).record_of(k),
        forall|k: Seq<char>| k != id@ ==> (#[trigger] final(store).has(k) <==> old(store).has(k)),
{
    record(store, id, Intent::RemoveAttr(key.to_owned()));
}

/// Record that the keyed node should be scrolled into view.
pub fn scroll_into_view(store: &mut PendingStore, id: &str)
    requires
        old(store).wf(),
    ensures
        final(store).wf(),
        final(store).order() == push_if_new(old(store).order(), id@),
        final(store).record_of(id@) == step(old(store).record_of(id@), IntentV::ScrollIntoView),
        forall|k: Seq<char>|
            k != id@ ==> #[trigger] final(store).record_of(k) == old(store).record_of(k),
        forall|k: Seq<char>| k != id@ ==> (#[trigger] final(store).has(k) <==> old(store).has(k)),
{
    record(store, id, Intent::ScrollIntoView);
}

} // verus!
