//! Client order ids, and what is remembered of them.
use crate::search::bytes_eq;
use vstd::prelude::*;
use vstd::slice::slice_to_vec;

verus! {

/// Side of an order.
#[derive(Debug, Clone, Copy, PartialEq, Eq, Structural)]
pub enum Side {
    Buy,
    Sell,
}

impl Side {
    pub open spec fn other_spec(self) -> Side {
        match self {
            Side::Buy => Side::Sell,
            Side::Sell => Side::Buy,
        }
    }

    /// The opposite side.
    pub fn other(self) -> (s: Side)
        ensures
            s == self.other_spec(),
    {
        match self {
            Side::Buy => Side::Sell,
            Side::Sell => Side::Buy,
        }
    }
}

/// The entries of a list have different ids.
pub open spec fn ids_differ<V>(list: Seq<(Vec<u8>, V)>) -> bool {
    forall|i: int, j: int|
        0 <= i < j < list.len() ==> (#[trigger] list[i]).0@ != (#[trigger] list[j]).0@
}

/// `id` stands in a list.
pub open spec fn listed<V>(list: Seq<(Vec<u8>, V)>, id: Seq<u8>) -> bool {
    exists|i: int| 0 <= i < list.len() && (#[trigger] list[i]).0@ == id
}

/// What a list holds of an id in it.
pub open spec fn listed_value<V>(list: Seq<(Vec<u8>, V)>, id: Seq<u8>) -> V {
    list[choose|i: int| 0 <= i < list.len() && (#[trigger] list[i]).0@ == id].1
}

/// The ids of a list, each with its value.
pub open spec fn map_of<V>(list: Seq<(Vec<u8>, V)>) -> Map<Seq<u8>, V> {
    Map::new(|id: Seq<u8>| listed(list, id), |id: Seq<u8>| listed_value(list, id))
}

/// `list` holds each entry of `m` once, and nothing else.
pub open spec fn is_list_of<V>(list: Seq<(Vec<u8>, V)>, m: Map<Seq<u8>, V>) -> bool {
    ids_differ(list) && map_of(list) == m
}

proof fn lemma_value_at<V>(list: Seq<(Vec<u8>, V)>, i: int)
    requires
        ids_differ(list),
        0 <= i < list.len(),
    ensures
        map_of(list).contains_key(list[i].0@),
        map_of(list)[list[i].0@] == list[i].1,
{
    let id = list[i].0@;
    let j = choose|j: int| 0 <= j < list.len() && (#[trigger] list[j]).0@ == id;
    assert(listed(list, id));
    assert(list[j].0@ == list[i].0@);
    assert(i == j);
}

/// A property holds of some entry of a list exactly if it holds of some value
/// in the map that the list stands for.
pub proof fn lemma_some_value<V>(
    list: Seq<(Vec<u8>, V)>,
    m: Map<Seq<u8>, V>,
    p: spec_fn(V) -> bool,
)
    requires
        is_list_of(list, m),
    ensures
        (exists|k: int| 0 <= k < list.len() && p((#[trigger] list[k]).1)) == (exists|id: Seq<u8>|
            #[trigger] m.contains_key(id) && p(m[id])),
{
    if exists|k: int| 0 <= k < list.len() && p((#[trigger] list[k]).1) {
        let k = choose|k: int| 0 <= k < list.len() && p((#[trigger] list[k]).1);
        lemma_value_at(list, k);
        assert(m.contains_key(list[k].0@));
    }
    if exists|id: Seq<u8>| #[trigger] m.contains_key(id) && p(m[id]) {
        let id = choose|id: Seq<u8>| #[trigger] m.contains_key(id) && p(m[id]);
        let k = choose|k: int| 0 <= k < list.len() && (#[trigger] list[k]).0@ == id;
        lemma_value_at(list, k);
        assert(p(list[k].1));
    }
}

proof fn lemma_push<V>(list: Seq<(Vec<u8>, V)>, entry: (Vec<u8>, V))
    requires
        ids_differ(list),
        !listed(list, entry.0@),
    ensures
        ids_differ(list.push(entry)),
        map_of(list.push(entry)) == map_of(list).insert(entry.0@, entry.1),
{
    let after = list.push(entry);
    assert(ids_differ(after)) by {
        assert forall|i: int, j: int| 0 <= i < j < after.len() implies (#[trigger] after[i]).0@ != (
        #[trigger] after[j]).0@ by {
            assert(after[i] == list[i]);
            if j < list.len() {
                assert(after[j] == list[j]);
            }
        }
    }
    assert forall|id: Seq<u8>| listed(after, id) == (listed(list, id) || id == entry.0@) by {
        if listed(list, id) {
            let i = choose|i: int| 0 <= i < list.len() && (#[trigger] list[i]).0@ == id;
            assert(after[i].0@ == id);
        }
        assert(after[list.len() as int] == entry);
        if listed(after, id) {
            let i = choose|i: int| 0 <= i < after.len() && (#[trigger] after[i]).0@ == id;
            if i < list.len() {
                assert(list[i].0@ == id);
            }
        }
    }
    lemma_value_at(after, list.len() as int);
    assert forall|id: Seq<u8>| listed(list, id) implies listed_value(after, id) == listed_value(
        list,
        id,
    ) by {
        let i = choose|i: int| 0 <= i < list.len() && (#[trigger] list[i]).0@ == id;
        assert(after[i] == list[i]);
        lemma_value_at(after, i);
        lemma_value_at(list, i);
    }
    assert(map_of(after) =~= map_of(list).insert(entry.0@, entry.1));
}

proof fn lemma_set<V>(list: Seq<(Vec<u8>, V)>, k: int, entry: (Vec<u8>, V))
    requires
        ids_differ(list),
        0 <= k < list.len(),
        entry.0@ == list[k].0@,
    ensures
        ids_differ(list.update(k, entry)),
        map_of(list.update(k, entry)) == map_of(list).insert(entry.0@, entry.1),
{
    let after = list.update(k, entry);
    assert forall|i: int| 0 <= i < list.len() implies (#[trigger] after[i]).0@ == list[i].0@ by {}
    assert(ids_differ(after)) by {
        assert forall|i: int, j: int| 0 <= i < j < after.len() implies (#[trigger] after[i]).0@ != (
        #[trigger] after[j]).0@ by {
            assert(list[i].0@ != list[j].0@);
        }
    }
    assert forall|id: Seq<u8>| listed(after, id) == listed(list, id) by {
        if listed(list, id) {
            let i = choose|i: int| 0 <= i < list.len() && (#[trigger] list[i]).0@ == id;
            assert(after[i].0@ == id);
        }
        if listed(after, id) {
            let i = choose|i: int| 0 <= i < after.len() && (#[trigger] after[i]).0@ == id;
            assert(list[i].0@ == id);
        }
    }
    lemma_value_at(after, k);
    lemma_value_at(list, k);
    assert forall|id: Seq<u8>| listed(list, id) && id != entry.0@ implies listed_value(after, id)
        == listed_value(list, id) by {
        let i = choose|i: int| 0 <= i < list.len() && (#[trigger] list[i]).0@ == id;
        assert(after[i] == list[i]);
        lemma_value_at(after, i);
        lemma_value_at(list, i);
    }
    assert(map_of(after) =~= map_of(list).insert(entry.0@, entry.1));
}

proof fn lemma_remove<V>(list: Seq<(Vec<u8>, V)>, k: int)
    requires
        ids_differ(list),
        0 <= k < list.len(),
    ensures
        ids_differ(list.remove(k)),
        map_of(list.remove(k)) == map_of(list).remove(list[k].0@),
        !listed(list.remove(k), list[k].0@),
{
    let after = list.remove(k);
    let gone = list[k].0@;
    assert(ids_differ(after)) by {
        assert forall|i: int, j: int| 0 <= i < j < after.len() implies (#[trigger] after[i]).0@ != (
        #[trigger] after[j]).0@ by {
            let i2 = if i < k {
                i
            } else {
                i + 1
            };
            let j2 = if j < k {
                j
            } else {
                j + 1
            };
            assert(list[i2].0@ != list[j2].0@);
        }
    }
    assert forall|id: Seq<u8>| listed(after, id) == (listed(list, id) && id != gone) by {
        if listed(list, id) && id != gone {
            let i = choose|i: int| 0 <= i < list.len() && (#[trigger] list[i]).0@ == id;
            let i2 = if i < k {
                i
            } else {
                i - 1
            };
            assert(after[i2].0@ == id);
        }
        if listed(after, id) {
            let i = choose|i: int| 0 <= i < after.len() && (#[trigger] after[i]).0@ == id;
            let i2 = if i < k {
                i
            } else {
                i + 1
            };
            assert(list[i2].0@ == id);
            assert(list[i2].0@ != list[k].0@);
        }
    }
    assert forall|id: Seq<u8>| listed(after, id) implies listed_value(after, id) == listed_value(
        list,
        id,
    ) by {
        let i = choose|i: int| 0 <= i < after.len() && (#[trigger] after[i]).0@ == id;
        let i2 = if i < k {
            i
        } else {
            i + 1
        };
        assert(after[i] == list[i2]);
        lemma_value_at(after, i);
        lemma_value_at(list, i2);
    }
    assert(map_of(after) =~= map_of(list).remove(gone));
}

/// A small map from client order ids.
pub struct CidMap<V> {
    entries: Vec<(Vec<u8>, V)>,
}

impl<V> View for CidMap<V> {
    type V = Map<Seq<u8>, V>;

    closed spec fn view(&self) -> Map<Seq<u8>, V> {
        map_of(self.entries@)
    }
}

impl<V> CidMap<V> {
    /// Each id is held once.
    #[verifier::type_invariant]
    closed spec fn wf(self) -> bool {
        ids_differ(self.entries@)
    }
}

impl<V: Copy> CidMap<V> {
    pub fn new() -> (m: CidMap<V>)
        ensures
            m@ == Map::<Seq<u8>, V>::empty(),
    {
        let m = CidMap { entries: Vec::new() };
        assert(m@ =~= Map::<Seq<u8>, V>::empty());
        m
    }

    /// Moves the entries out.
    fn take(&mut self) -> (list: Vec<(Vec<u8>, V)>)
        ensures
            list@ == old(self).entries@,
            final(self)@ == Map::<Seq<u8>, V>::empty(),
    {
        let mut list: Vec<(Vec<u8>, V)> = Vec::new();
        assert(map_of(list@) =~= Map::<Seq<u8>, V>::empty());
        core::mem::swap(&mut self.entries, &mut list);
        list
    }

    /// Position of an id, if it is held.
    fn position(&self, cid: &[u8]) -> (res: Option<usize>)
        ensures
            match res {
                Some(i) => i < self.entries@.len() && self.entries@[i as int].0@ == cid@,
                None => !listed(self.entries@, cid@),
            },
    {
        let mut i: usize = 0;
        while i < self.entries.len()
            invariant
                i <= self.entries@.len(),
                forall|k: int| 0 <= k < i ==> (#[trigger] self.entries@[k]).0@ != cid@,
            decreases self.entries@.len() - i,
        {
            if bytes_eq(self.entries[i].0.as_slice(), cid) {
                return Some(i);
            }
            i = i + 1;
        }
        None
    }

    /// What is held of an id.
    pub fn get(&self, cid: &[u8]) -> (res: Option<V>)
        ensures
            res == if self@.contains_key(cid@) {
                Some(self@[cid@])
            } else {
                None
            },
    {
        proof {
            use_type_invariant(self);
        }
        match self.position(cid) {
            Some(i) => {
                proof {
                    lemma_value_at(self.entries@, i as int);
                }
                Some(self.entries[i].1)
            },
            None => None,
        }
    }

    /// Holds a value of an id, in place of what was held of it before.
    pub fn insert(&mut self, cid: &[u8], v: V)
        ensures
            final(self)@ == old(self)@.insert(cid@, v),
    {
        proof {
            use_type_invariant(&*self);
        }
        let at = self.position(cid);
        let entry = (slice_to_vec(cid), v);
        let mut entries = self.take();
        match at {
            Some(i) => {
                proof {
                    lemma_set(entries@, i as int, entry);
                }
                entries.set(i, entry);
            },
            None => {
                proof {
                    lemma_push(entries@, entry);
                }
                entries.push(entry);
            },
        }
        self.entries = entries;
    }

    /// Forgets an id.
    pub fn remove(&mut self, cid: &[u8])
        ensures
            final(self)@ == old(self)@.remove(cid@),
    {
        proof {
            use_type_invariant(&*self);
        }
        match self.position(cid) {
            Some(i) => {
                let mut entries = self.take();
                proof {
                    lemma_remove(entries@, i as int);
                }
                entries.remove(i);
                self.entries = entries;
            },
            None => {
                assert(self@ =~= self@.remove(cid@));
            },
        }
    }

    /// Forgets everything, and returns what was held.
    pub fn drain(&mut self) -> (list: Vec<(Vec<u8>, V)>)
        ensures
            final(self)@ == Map::<Seq<u8>, V>::empty(),
            is_list_of(list@, old(self)@),
    {
        proof {
            use_type_invariant(&*self);
        }
        self.take()
    }
}

/// An order action that was sent and not answered yet.
#[derive(Debug, Clone, Copy, PartialEq, Eq, Structural)]
pub struct InFlight {
    pub side: Side,
    /// When it was sent, in milliseconds.
    pub since_ms: u64,
}

impl InFlight {
    /// Older than `max_age_ms`.
    pub open spec fn is_stale(self, now_ms: u64, max_age_ms: u64) -> bool {
        now_ms - self.since_ms > max_age_ms
    }
}

/// The ids of one side.
pub open spec fn ids_of_side(m: Map<Seq<u8>, InFlight>, side: Side) -> Set<Seq<u8>> {
    m.dom().filter(|id: Seq<u8>| m[id].side == side)
}

/// The entries that are older than `max_age_ms`.
pub open spec fn stale_entries(m: Map<Seq<u8>, InFlight>, now_ms: u64, max_age_ms: u64) -> Map<
    Seq<u8>,
    InFlight,
> {
    Map::new(
        |id: Seq<u8>| m.contains_key(id) && m[id].is_stale(now_ms, max_age_ms),
        |id: Seq<u8>| m[id],
    )
}

/// The ids of one side among the first `n` of a list.
spec fn first_ids_of_side(list: Seq<(Vec<u8>, InFlight)>, side: Side, n: int) -> Set<Seq<u8>>
    decreases n,
{
    if n <= 0 {
        Set::empty()
    } else if list[n - 1].1.side == side {
        first_ids_of_side(list, side, n - 1).insert(list[n - 1].0@)
    } else {
        first_ids_of_side(list, side, n - 1)
    }
}

proof fn lemma_first_ids_of_side(list: Seq<(Vec<u8>, InFlight)>, side: Side, n: int, id: Seq<u8>)
    requires
        0 <= n <= list.len(),
    ensures
        first_ids_of_side(list, side, n).contains(id) == (exists|i: int|
            0 <= i < n && (#[trigger] list[i]).0@ == id && list[i].1.side == side),
        first_ids_of_side(list, side, n).finite(),
    decreases n,
{
    if n > 0 {
        lemma_first_ids_of_side(list, side, n - 1, id);
        assert(list[n - 1] == list[n - 1]);
    }
}

impl CidMap<InFlight> {
    /// Number of unanswered actions of a side.
    pub fn inflight_count(&self, side: Side) -> (n: usize)
        ensures
            ids_of_side(self@, side).finite(),
            n == ids_of_side(self@, side).len(),
    {
        proof {
            use_type_invariant(self);
        }
        let ghost list = self.entries@;
        let mut n: usize = 0;
        let mut i: usize = 0;
        while i < self.entries.len()
            invariant
                ids_differ(list),
                list == self.entries@,
                n <= i <= list.len(),
                first_ids_of_side(list, side, i as int).finite(),
                n == first_ids_of_side(list, side, i as int).len(),
            decreases list.len() - i,
        {
            proof {
                lemma_first_ids_of_side(list, side, i as int, list[i as int].0@);
            }
            if self.entries[i].1.side == side {
                n = n + 1;
            }
            i = i + 1;
        }
        proof {
            let all = first_ids_of_side(list, side, i as int);
            assert forall|id: Seq<u8>| all.contains(id) == ids_of_side(self@, side).contains(
                id,
            ) by {
                lemma_first_ids_of_side(list, side, i as int, id);
                if all.contains(id) {
                    let k = choose|k: int|
                        0 <= k < i && (#[trigger] list[k]).0@ == id && list[k].1.side == side;
                    lemma_value_at(list, k);
                }
                if ids_of_side(self@, side).contains(id) {
                    let k = choose|k: int| 0 <= k < list.len() && (#[trigger] list[k]).0@ == id;
                    lemma_value_at(list, k);
                    assert(list[k].1.side == side);
                }
            }
            assert(all =~= ids_of_side(self@, side));
        }
        n
    }

    /// Forgets the entries that are older than `max_age_ms`, and returns them:
    /// an action whose answer never came would otherwise block its side.
    pub fn inflight_evict_stale(&mut self, now_ms: u64, max_age_ms: u64) -> (dropped: Vec<
        (Vec<u8>, InFlight),
    >)
        ensures
            is_list_of(dropped@, stale_entries(old(self)@, now_ms, max_age_ms)),
            final(self)@ == old(self)@.remove_keys(
                stale_entries(old(self)@, now_ms, max_age_ms).dom(),
            ),
    {
        proof {
            use_type_invariant(&*self);
        }
        let ghost all = self@;
        let mut entries = self.take();
        let mut dropped: Vec<(Vec<u8>, InFlight)> = Vec::new();
        let mut i: usize = 0;
        assert(map_of(entries@) =~= all.remove_keys(map_of(dropped@).dom()));
        while i < entries.len()
            invariant
                i <= entries@.len(),
                ids_differ(entries@),
                ids_differ(dropped@),
                map_of(entries@) == all.remove_keys(map_of(dropped@).dom()),
                forall|id: Seq<u8>| #[trigger]
                    map_of(dropped@).contains_key(id) ==> all.contains_key(id) && map_of(
                        dropped@,
                    )[id] == all[id] && all[id].is_stale(now_ms, max_age_ms),
                forall|k: int|
                    0 <= k < i ==> !(#[trigger] entries@[k]).1.is_stale(now_ms, max_age_ms),
            decreases entries@.len() - i,
        {
            if now_ms.saturating_sub(entries[i].1.since_ms) > max_age_ms {
                let ghost before = entries@;
                let ghost gone = map_of(dropped@);
                proof {
                    lemma_value_at(entries@, i as int);
                    lemma_remove(entries@, i as int);
                    assert(!listed(dropped@, entries@[i as int].0@));
                    lemma_push(dropped@, entries@[i as int]);
                }
                let entry = entries.remove(i);
                dropped.push(entry);
                assert(all.remove_keys(gone.dom()).remove(entry.0@) =~= all.remove_keys(
                    gone.insert(entry.0@, entry.1).dom(),
                ));
                assert forall|k: int| 0 <= k < i implies !(#[trigger] entries@[k]).1.is_stale(
                    now_ms,
                    max_age_ms,
                ) by {
                    assert(entries@[k] == before[k]);
                }
            } else {
                i = i + 1;
            }
        }
        proof {
            let stale = stale_entries(all, now_ms, max_age_ms);
            assert forall|id: Seq<u8>| #[trigger]
                stale.contains_key(id) implies map_of(dropped@).contains_key(id) by {
                if !map_of(dropped@).contains_key(id) {
                    assert(map_of(entries@).contains_key(id));
                    let k = choose|k: int|
                        0 <= k < entries@.len() && (#[trigger] entries@[k]).0@ == id;
                    lemma_value_at(entries@, k);
                }
            }
            assert(map_of(dropped@) =~= stale);
        }
        self.entries = entries;
        dropped
    }
}

/// A list of a map holds each of its ids once, each with its value, and no other id.
pub proof fn law_list_tells_its_map<V>(
    list: Seq<(Vec<u8>, V)>,
    m: Map<Seq<u8>, V>,
    i: int,
    j: int,
    id: Seq<u8>,
)
    requires
        is_list_of(list, m),
    ensures
        0 <= i < list.len() ==> m.contains_key(list[i].0@) && m[list[i].0@] == list[i].1,
        0 <= i < list.len() && 0 <= j < list.len() && list[i].0@ == list[j].0@ ==> i == j,
        m.contains_key(id) <==> exists|k: int| 0 <= k < list.len() && (#[trigger] list[k]).0@ == id,
{
    if 0 <= i < list.len() {
        lemma_value_at(list, i);
    }
}

/// Each unanswered action counts for its own side, and for no other.
pub proof fn law_actions_count_for_their_side(
    m: Map<Seq<u8>, InFlight>,
    side: Side,
    id: Seq<u8>,
    since_ms: u64,
)
    requires
        m.dom().finite(),
        !m.contains_key(id),
    ensures
        ({
            let sent = m.insert(id, InFlight { side, since_ms });
            &&& ids_of_side(sent, side) == ids_of_side(m, side).insert(id)
            &&& ids_of_side(sent, side).len() == ids_of_side(m, side).len() + 1
            &&& ids_of_side(sent, side.other_spec()) == ids_of_side(m, side.other_spec())
            &&& ids_of_side(sent.remove(id), side) == ids_of_side(m, side)
            &&& ids_of_side(Map::<Seq<u8>, InFlight>::empty(), side).len() == 0
        }),
{
    let sent = m.insert(id, InFlight { side, since_ms });
    assert(ids_of_side(sent, side) =~= ids_of_side(m, side).insert(id));
    assert(ids_of_side(sent, side.other_spec()) =~= ids_of_side(m, side.other_spec()));
    assert(sent.remove(id) =~= m);
    assert(ids_of_side(Map::<Seq<u8>, InFlight>::empty(), side) =~= Set::<Seq<u8>>::empty());
    assert(ids_of_side(m, side).subset_of(m.dom()));
    vstd::set_lib::lemma_set_subset_finite(m.dom(), ids_of_side(m, side));
}

/// Every side has the other one, which is not itself.
pub proof fn law_sides_are_two(a: Side, b: Side)
    ensures
        Side::Buy.other_spec() == Side::Sell,
        a.other_spec() != a,
        a.other_spec().other_spec() == a,
        a == b || a == b.other_spec(),
{
}

} // verus!
