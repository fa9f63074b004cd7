//! The registry of tracked top-level windows, keyed by handle value.
use std::collections::BTreeMap;
use vstd::prelude::*;
use vstd::std_specs::btree::{increasing_seq, spec_keys_iter};
use vstd::std_specs::cmp::OrdSpec;
use vstd::std_specs::iter::IteratorSpec;

verus! {

broadcast use {vstd::std_specs::btree::group_btree_axioms, vstd::laws_cmp::group_laws_cmp};

/// A snapshot of a tracked top-level window: the value of its handle, its
/// title, window class and executable name, and its frame when the
/// snapshot was taken (left, top, right, bottom).
pub struct WindowInfo {
    pub hwnd: isize,
    pub title: String,
    pub class: String,
    pub exe: String,
    pub rect: (i32, i32, i32, i32),
}

impl WindowInfo {
    /// Numeric identity usable as a map key: the handle's value.
    pub fn id(&self) -> (r: isize)
        ensures
            r == self.hwnd,
    {
        self.hwnd
    }
}

/// Registry of tracked windows, keyed by handle value.
pub struct WindowRegistry {
    windows: BTreeMap<isize, WindowInfo>,
}

impl View for WindowRegistry {
    type V = Map<isize, WindowInfo>;

    closed spec fn view(&self) -> Map<isize, WindowInfo> {
        self.windows@
    }
}

/// Does item `i` of `s` come strictly before item `j` in `K`'s order?
spec fn ordered_before<K: Ord>(s: Seq<K>, i: int, j: int) -> bool {
    s[i].cmp_spec(&s[j]) is Less
}

/// Keys that a `BTreeMap` walks in increasing order are strictly
/// increasing as integers.
proof fn lemma_increasing_keys(keys: Seq<&isize>)
    requires
        increasing_seq(keys),
    ensures
        forall|i: int, j: int| 0 <= i < j < keys.len() ==> *keys[i] < *keys[j],
{
    assert(vstd::laws_cmp::obeys_cmp::<isize>());
    assert(vstd::laws_cmp::obeys_cmp::<&isize>());
    assert forall|i: int, j: int| 0 <= i < j < keys.len() implies *keys[i] < *keys[j] by {
        assert(ordered_before(keys, i, j));
    }
}

/// The map after filing each snapshot of `infos` under its handle, in
/// order (a later snapshot of the same window replaces an earlier one).
pub open spec fn filed(m: Map<isize, WindowInfo>, infos: Seq<WindowInfo>) -> Map<isize, WindowInfo>
    decreases infos.len(),
{
    if infos.len() == 0 {
        m
    } else {
        filed(m, infos.drop_last()).insert(infos.last().hwnd, infos.last())
    }
}

impl Default for WindowRegistry {
    fn default() -> (r: Self)
        ensures
            r.wf(),
            r@ == Map::<isize, WindowInfo>::empty(),
    {
        WindowRegistry::new()
    }
}

impl WindowRegistry {
    /// Every snapshot is filed under its own handle value.
    pub open spec fn wf(&self) -> bool {
        forall|k: isize| #[trigger] self@.contains_key(k) ==> self@[k].hwnd == k
    }

    /// An empty registry.
    pub fn new() -> (r: Self)
        ensures
            r.wf(),
            r@ == Map::<isize, WindowInfo>::empty(),
    {
        WindowRegistry { windows: BTreeMap::new() }
    }

    /// File the snapshots of the windows found on screen, in order, and
    /// report how many windows are tracked then.
    pub fn adopt_existing(&mut self, found: Vec<WindowInfo>) -> (r: usize)
        requires
            old(self).wf(),
        ensures
            final(self).wf(),
            final(self)@ == filed(old(self)@, found@),
            r == final(self)@.len(),
    {
        let mut rest = found;
        let ghost all = rest@;
        assert(all.len() == rest.len());
        let ghost start = self@;
        let mut i: usize = 0;
        while rest.len() > 0
            invariant
                self.wf(),
                i + rest@.len() == all.len(),
                all.len() <= usize::MAX,
                rest@ == all.subrange(i as int, all.len() as int),
                self@ == filed(start, all.take(i as int)),
            decreases rest@.len(),
        {
            let info = rest.remove(0);
            proof {
                assert(all.take(i + 1).drop_last() =~= all.take(i as int));
            }
            self.insert(info);
            i += 1;
            proof {
                assert(rest@ =~= all.subrange(i as int, all.len() as int));
            }
        }
        proof {
            assert(all.take(i as int) =~= all);
        }
        self.windows.len()
    }

    /// Track `info`, replacing any earlier snapshot of the same window.
    pub fn insert(&mut self, info: WindowInfo)
        requires
            old(self).wf(),
        ensures
            final(self).wf(),
            final(self)@ == old(self)@.insert(info.hwnd, info),
    {
        let id = info.id();
        self.windows.insert(id, info);
        proof {
            assert forall|k: isize| #[trigger] self@.contains_key(k) implies self@[k].hwnd == k by {
                if k != id {
                    assert(old(self)@.contains_key(k));
                }
            }
        }
    }

    /// Stop tracking `hwnd`, handing back its snapshot if it was tracked.
    pub fn remove(&mut self, hwnd: isize) -> (r: Option<WindowInfo>)
        requires
            old(self).wf(),
        ensures
            final(self).wf(),
            final(self)@ == old(self)@.remove(hwnd),
            r == (if old(self)@.contains_key(hwnd) {
                Some(old(self)@[hwnd])
            } else {
                None
            }),
    {
        let r = self.windows.remove(&hwnd);
        proof {
            assert forall|k: isize| #[trigger] self@.contains_key(k) implies self@[k].hwnd == k by {
                assert(old(self)@.contains_key(k));
            }
        }
        r
    }

    /// The snapshot of `hwnd`, if it is tracked.
    pub fn get(&self, hwnd: isize) -> (r: Option<&WindowInfo>)
        ensures
            r == (if self@.contains_key(hwnd) {
                Some(&self@[hwnd])
            } else {
                None
            }),
    {
        self.windows.get(&hwnd)
    }

    /// Is `hwnd` tracked?
    pub fn contains(&self, hwnd: isize) -> (r: bool)
        ensures
            r == self@.contains_key(hwnd),
    {
        self.windows.contains_key(&hwnd)
    }

    /// The handles of the tracked windows, in increasing order.
    pub fn ids(&self) -> (r: Vec<isize>)
        ensures
            r@.to_set() == self@.dom(),
            r@.len() == self@.len(),
            forall|i: int, j: int| 0 <= i < j < r@.len() ==> r@[i] < r@[j],
    {
        let mut out: Vec<isize> = Vec::new();
        let ghost keys = spec_keys_iter(&self.windows).remaining();
        for k in it: self.windows.keys()
            invariant
                it.seq() == keys,
                out@ == keys.take(it.index() as int).map_values(|k: &isize| *k),
        {
            out.push(*k);
        }
        proof {
            assert(out@ =~= keys.unref());
            lemma_increasing_keys(keys);
        }
        out
    }

    /// How many windows are tracked.
    pub fn len(&self) -> (r: usize)
        ensures
            r == self@.len(),
    {
        self.windows.len()
    }

    /// Is no window tracked?
    pub fn is_empty(&self) -> (r: bool)
        ensures
            r == (self@.len() == 0),
    {
        self.windows.is_empty()
    }
}

} // verus!
