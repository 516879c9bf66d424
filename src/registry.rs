//! The subscriber registry: at most one link per subscriber id, mutated by
//! insert and remove, read through point-in-time copies.
use vstd::prelude::*;

use crate::link::{LinkDefinition, LinkView};

verus! {

/// One registry entry as mathematical values: the subscriber id and its link.
pub type EntryView = (Seq<char>, LinkView);

pub open spec fn entries_view(e: Seq<(String, LinkDefinition)>) -> Seq<EntryView> {
    e.map_values(|p: (String, LinkDefinition)| (p.0@, p.1@))
}

/// No two entries carry the same subscriber id.
pub open spec fn ids_distinct(e: Seq<EntryView>) -> bool {
    forall|i: int, j: int| 0 <= i < e.len() && 0 <= j < e.len() && i != j ==> e[i].0 != e[j].0
}

/// The entries list exactly the mapping `m`, each id once.
pub open spec fn represents(e: Seq<EntryView>, m: Map<Seq<char>, LinkView>) -> bool {
    &&& ids_distinct(e)
    &&& forall|i: int| 0 <= i < e.len() ==> #[trigger] m.contains_key(e[i].0) && m[e[i].0] == e[i].1
    &&& forall|k: Seq<char>| #[trigger] m.contains_key(k) ==> exists|i: int| 0 <= i < e.len() && e[i].0 == k
}

/// A change to the registry, as a mathematical value.
pub enum RegistryOp {
    Insert(Seq<char>, LinkView),
    Remove(Seq<char>),
}

/// The mapping after one change: what `insert` and `remove` do to the view.
pub open spec fn apply_op(m: Map<Seq<char>, LinkView>, op: RegistryOp) -> Map<Seq<char>, LinkView> {
    match op {
        RegistryOp::Insert(k, d) => m.insert(k, d),
        RegistryOp::Remove(k) => m.remove(k),
    }
}

/// The mapping after the changes `ops`, made one after the other on `m`.
pub open spec fn apply_ops(m: Map<Seq<char>, LinkView>, ops: Seq<RegistryOp>) -> Map<Seq<char>, LinkView>
    decreases ops.len(),
{
    if ops.len() == 0 {
        m
    } else {
        apply_op(apply_ops(m, ops.drop_last()), ops.last())
    }
}

/// The link that `k` is left with by the last change that names it: the
/// link of that change if it is an insert, none if it is a remove, and the
/// link `k` had in `m` if no change names it.
pub open spec fn net_entry(m: Map<Seq<char>, LinkView>, ops: Seq<RegistryOp>, k: Seq<char>) -> Option<LinkView>
    decreases ops.len(),
{
    if ops.len() == 0 {
        if m.contains_key(k) {
            Some(m[k])
        } else {
            None
        }
    } else {
        match ops.last() {
            RegistryOp::Insert(k2, d) => if k2 == k {
                Some(d)
            } else {
                net_entry(m, ops.drop_last(), k)
            },
            RegistryOp::Remove(k2) => if k2 == k {
                None
            } else {
                net_entry(m, ops.drop_last(), k)
            },
        }
    }
}

proof fn lemma_apply_ops_net(m: Map<Seq<char>, LinkView>, ops: Seq<RegistryOp>, k: Seq<char>)
    ensures
        match net_entry(m, ops, k) {
            Some(d) => apply_ops(m, ops).contains_key(k) && apply_ops(m, ops)[k] == d,
            None => !apply_ops(m, ops).contains_key(k),
        },
    decreases ops.len(),
{
    if ops.len() > 0 {
        lemma_apply_ops_net(m, ops.drop_last(), k);
    }
}

/// A snapshot taken after a run of inserts and removes lists exactly the net
/// effect of that run: every entry it lists is the link that the last change
/// naming its id inserted (or, where no change names it, the link the registry
/// held before), and every id that the run leaves with a link is listed with
/// that link. An id whose last change was a remove is not listed.
pub proof fn lemma_snapshot_net_effect(
    m: Map<Seq<char>, LinkView>,
    ops: Seq<RegistryOp>,
    snap: Seq<EntryView>,
)
    requires
        represents(snap, apply_ops(m, ops)),
    ensures
        forall|i: int| 0 <= i < snap.len() ==> net_entry(m, ops, #[trigger] snap[i].0) == Some(snap[i].1),
        forall|k: Seq<char>|
            (#[trigger] net_entry(m, ops, k)) is Some ==> exists|i: int|
                0 <= i < snap.len() && snap[i].0 == k && net_entry(m, ops, k) == Some(snap[i].1),
{
    let r = apply_ops(m, ops);
    assert forall|i: int| 0 <= i < snap.len() implies net_entry(m, ops, #[trigger] snap[i].0) == Some(
        snap[i].1,
    ) by {
        lemma_apply_ops_net(m, ops, snap[i].0);
        assert(r.contains_key(snap[i].0));
    }
    assert forall|k: Seq<char>| (#[trigger] net_entry(m, ops, k)) is Some implies exists|i: int|
        0 <= i < snap.len() && snap[i].0 == k && net_entry(m, ops, k) == Some(snap[i].1) by {
        lemma_apply_ops_net(m, ops, k);
        assert(r.contains_key(k));
        let i = choose|i: int| 0 <= i < snap.len() && snap[i].0 == k;
        assert(snap[i].0 == k && snap[i].1 == r[k]);
    }
}

/// A point-in-time copy of the registry; later changes to the registry do not
/// reach it.
pub struct Snapshot {
    entries: Vec<(String, LinkDefinition)>,
}

impl View for Snapshot {
    type V = Seq<EntryView>;

    closed spec fn view(&self) -> Seq<EntryView> {
        entries_view(self.entries@)
    }
}

impl Snapshot {
    /// The number of subscribers in the snapshot.
    pub fn len(&self) -> (r: usize)
        ensures
            r == self@.len(),
    {
        self.entries.len()
    }

    /// The subscriber id and link at position `i`.
    pub fn entry(&self, i: usize) -> (r: (&String, &LinkDefinition))
        requires
            i < self@.len(),
        ensures
            r.0@ == self@[i as int].0,
            r.1@ == self@[i as int].1,
    {
        let e = &self.entries[i];
        (&e.0, &e.1)
    }
}

/// The mapping from subscriber id to link.
pub struct SubscriberRegistry {
    entries: Vec<(String, LinkDefinition)>,
    model: Ghost<Map<Seq<char>, LinkView>>,
}

impl View for SubscriberRegistry {
    type V = Map<Seq<char>, LinkView>;

    closed spec fn view(&self) -> Map<Seq<char>, LinkView> {
        self.model@
    }
}

impl SubscriberRegistry {
    /// The entries are a faithful listing of the mapping.
    pub closed spec fn wf(&self) -> bool {
        represents(entries_view(self.entries@), self.model@)
    }

    /// An empty registry.
    pub fn new() -> (r: SubscriberRegistry)
        ensures
            r.wf(),
            r@ == Map::<Seq<char>, LinkView>::empty(),
    {
        SubscriberRegistry { entries: Vec::new(), model: Ghost(Map::empty()) }
    }

    /// Whether no subscriber is registered.
    pub fn is_empty(&self) -> (r: bool)
        requires
            self.wf(),
        ensures
            r == (self@ == Map::<Seq<char>, LinkView>::empty()),
    {
        let r = self.entries.len() == 0;
        if r {
            assert(self@ =~= Map::<Seq<char>, LinkView>::empty()) by {
                assert forall|k: Seq<char>| !self@.contains_key(k) by {
                    if self@.contains_key(k) {
                        let i = choose|i: int| 0 <= i < self.entries@.len() && entries_view(self.entries@)[i].0 == k;
                    }
                }
            }
        } else {
            assert(self@.contains_key(entries_view(self.entries@)[0].0));
        }
        r
    }

    /// Where `id` stands among the entries, if it does.
    fn position(&self, id: &String) -> (r: Option<usize>)
        requires
            self.wf(),
        ensures
            match r {
                Some(i) => i < self.entries@.len() && self.entries@[i as int].0@ == id@,
                None => forall|i: int| 0 <= i < self.entries@.len() ==> self.entries@[i].0@ != id@,
            },
    {
        let n: usize = self.entries.len();
        let mut i: usize = 0;
        while i < n
            invariant
                n == self.entries@.len(),
                i <= n,
                forall|k: int| 0 <= k < i ==> self.entries@[k].0@ != id@,
            decreases n - i,
        {
            if self.entries[i].0 == *id {
                return Some(i);
            }
            i = i + 1;
        }
        None
    }

    /// Adds the link for `id`, or replaces the one it had.
    pub fn insert(&mut self, id: String, link: LinkDefinition)
        requires
            old(self).wf(),
        ensures
            final(self).wf(),
            final(self)@ == old(self)@.insert(id@, link@),
    {
        let ghost m = self.model@.insert(id@, link@);
        let ghost key = id@;
        let ghost lv = link@;
        let ghost oe = entries_view(self.entries@);
        let ghost om = self.model@;
        match self.position(&id) {
            Some(i) => {
                self.entries.set(i, (id, link));
                self.model = Ghost(m);
                proof {
                    let e = entries_view(self.entries@);
                    assert(e =~= oe.update(i as int, (key, lv)));
                    assert(oe[i as int].0 == key);
                    assert forall|t: int| 0 <= t < e.len() implies #[trigger] m.contains_key(e[t].0)
                        && m[e[t].0] == e[t].1 by {
                        if t != i {
                            assert(e[t] == oe[t]);
                            assert(om.contains_key(oe[t].0));
                        }
                    }
                    assert forall|k: Seq<char>| #[trigger] m.contains_key(k) implies exists|t: int|
                        0 <= t < e.len() && e[t].0 == k by {
                        if k == key {
                            assert(e[i as int].0 == k);
                        } else {
                            let j = choose|j: int| 0 <= j < oe.len() && oe[j].0 == k;
                            assert(e[j].0 == k);
                        }
                    }
                }
            },
            None => {
                self.entries.push((id, link));
                self.model = Ghost(m);
                proof {
                    let e = entries_view(self.entries@);
                    assert(e =~= oe.push((key, lv)));
                    assert forall|t: int| 0 <= t < e.len() implies #[trigger] m.contains_key(e[t].0)
                        && m[e[t].0] == e[t].1 by {
                        if t < oe.len() {
                            assert(e[t] == oe[t]);
                            assert(om.contains_key(oe[t].0));
                            assert(self.entries@[t].0@ != key);
                        }
                    }
                    assert forall|a: int, b: int| 0 <= a < e.len() && 0 <= b < e.len() && a != b
                        implies e[a].0 != e[b].0 by {
                        if a < oe.len() {
                            assert(e[a] == oe[a]);
                            assert(self.entries@[a].0@ != key);
                        }
                        if b < oe.len() {
                            assert(e[b] == oe[b]);
                            assert(self.entries@[b].0@ != key);
                        }
                    }
                    assert forall|k: Seq<char>| #[trigger] m.contains_key(k) implies exists|t: int|
                        0 <= t < e.len() && e[t].0 == k by {
                        if k == key {
                            assert(e[oe.len() as int].0 == k);
                        } else {
                            let j = choose|j: int| 0 <= j < oe.len() && oe[j].0 == k;
                            assert(e[j].0 == k);
                        }
                    }
                }
            },
        }
    }

    /// Drops the link for `id`; nothing changes when `id` has none.
    pub fn remove(&mut self, id: &str)
        requires
            old(self).wf(),
        ensures
            final(self).wf(),
            final(self)@ == old(self)@.remove(id@),
    {
        let key: String = id.to_owned();
        let ghost m = self.model@.remove(id@);
        let ghost oe = entries_view(self.entries@);
        let ghost om = self.model@;
        match self.position(&key) {
            Some(i) => {
                let _ = self.entries.remove(i);
                self.model = Ghost(m);
                proof {
                    let e = entries_view(self.entries@);
                    assert(e =~= oe.remove(i as int));
                    assert forall|t: int| 0 <= t < e.len() implies #[trigger] m.contains_key(e[t].0)
                        && m[e[t].0] == e[t].1 by {
                        assert(oe[i as int].0 == id@);
                        if t < i {
                            assert(e[t] == oe[t]);
                            assert(om.contains_key(oe[t].0));
                        } else {
                            assert(e[t] == oe[t + 1]);
                            assert(om.contains_key(oe[t + 1].0));
                        }
                    }
                    assert forall|k: Seq<char>| #[trigger] m.contains_key(k) implies exists|t: int|
                        0 <= t < e.len() && e[t].0 == k by {
                        let j = choose|j: int| 0 <= j < oe.len() && oe[j].0 == k;
                        if j < i {
                            assert(e[j].0 == k);
                        } else {
                            assert(j != i);
                            assert(e[j - 1].0 == k);
                        }
                    }
                }
            },
            None => {
                proof {
                    assert(!self.model@.contains_key(id@)) by {
                        if self.model@.contains_key(id@) {
                            let j = choose|j: int| 0 <= j < oe.len() && oe[j].0 == id@;
                            assert(self.entries@[j].0@ == id@);
                        }
                    }
                    assert(m =~= self.model@);
                }
            },
        }
    }

    /// A copy of the current mapping that later changes do not reach.
    pub fn snapshot(&self) -> (r: Snapshot)
        requires
            self.wf(),
        ensures
            represents(r@, self@),
    {
        let mut entries: Vec<(String, LinkDefinition)> = Vec::new();
        let n: usize = self.entries.len();
        let mut i: usize = 0;
        while i < n
            invariant
                n == self.entries@.len(),
                i <= n,
                entries@.len() == i,
                forall|k: int| 0 <= k < i ==> (#[trigger] entries@[k]).0@ == self.entries@[k].0@ && entries@[k].1@ == self.entries@[k].1@,
            decreases n - i,
        {
            let (id, link) = &self.entries[i];
            let copy = (id.clone(), link.duplicate());
            entries.push(copy);
            assert(entries@[i as int] == copy);
            i = i + 1;
        }
        assert(entries_view(entries@) =~= entries_view(self.entries@));
        Snapshot { entries }
    }
}

} // verus!
