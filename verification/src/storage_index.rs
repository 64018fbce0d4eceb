//! The storage-assignment index: for each request, the set of nodes that
//! have taken custody of its file.

use vstd::prelude::*;

use crate::encoding::{position_of, same_text, texts};

verus! {

/// The mathematical index: each request that has a storer, with the set of
/// its storers.
pub type IndexMap = Map<Seq<char>, Set<Seq<char>>>;

/// The storers that `index` lists for `request_id`: none where the request is
/// unknown.
pub open spec fn storers_in(index: IndexMap, request_id: Seq<char>) -> Set<Seq<char>> {
    if index.dom().contains(request_id) {
        index[request_id]
    } else {
        Set::empty()
    }
}

/// `index` with `node_id` added to the storers of `request_id`.
pub open spec fn index_insert(index: IndexMap, request_id: Seq<char>, node_id: Seq<char>) -> IndexMap {
    index.insert(request_id, storers_in(index, request_id).insert(node_id))
}

/// The key-wise union of two indexes: a request is known where either knows
/// it, and its storers are those that either lists.
pub open spec fn index_union(a: IndexMap, b: IndexMap) -> IndexMap {
    Map::new(
        |k: Seq<char>| a.dom().contains(k) || b.dom().contains(k),
        |k: Seq<char>| storers_in(a, k).union(storers_in(b, k)),
    )
}

/// The index that holds the pairs of request and storer in `listing`.
pub open spec fn index_of_listing(listing: Set<(Seq<char>, Seq<char>)>) -> IndexMap {
    Map::new(
        |k: Seq<char>| exists|n: Seq<char>| listing.contains((k, n)),
        |k: Seq<char>| Set::new(|n: Seq<char>| listing.contains((k, n))),
    )
}

/// Adding a pair to a listing adds the node to the storers of the request.
pub proof fn lemma_index_of_listing_insert(
    listing: Set<(Seq<char>, Seq<char>)>,
    k: Seq<char>,
    n: Seq<char>,
)
    ensures
        index_of_listing(listing.insert((k, n))) == index_insert(index_of_listing(listing), k, n),
{
    let grown = index_of_listing(listing.insert((k, n)));
    let expected = index_insert(index_of_listing(listing), k, n);
    assert(listing.insert((k, n)).contains((k, n)));
    assert forall|q: Seq<char>| grown.dom().contains(q) == expected.dom().contains(q) by {
        if expected.dom().contains(q) && q != k {
            let m = choose|m: Seq<char>| listing.contains((q, m));
            assert(listing.insert((k, n)).contains((q, m)));
        }
        if grown.dom().contains(q) && q != k {
            let m = choose|m: Seq<char>| listing.insert((k, n)).contains((q, m));
            assert(listing.contains((q, m)));
        }
    }
    assert forall|q: Seq<char>| #[trigger] grown.dom().contains(q) implies grown[q] =~= expected[q] by {
        if q == k {
            assert forall|m: Seq<char>| grown[q].contains(m) == expected[q].contains(m) by {
                if m != n && listing.contains((k, m)) {
                    assert(index_of_listing(listing).dom().contains(k));
                }
            }
        } else {
            let m = choose|m: Seq<char>| listing.insert((k, n)).contains((q, m));
            assert(listing.contains((q, m)));
        }
    }
    assert(grown =~= expected);
}

/// The index of the union of two listings is the key-wise union of their
/// indexes.
pub proof fn lemma_index_of_listing_union(
    a: Set<(Seq<char>, Seq<char>)>,
    b: Set<(Seq<char>, Seq<char>)>,
)
    ensures
        index_of_listing(a.union(b)) == index_union(index_of_listing(a), index_of_listing(b)),
{
    let joined = index_of_listing(a.union(b));
    let expected = index_union(index_of_listing(a), index_of_listing(b));
    assert forall|q: Seq<char>| joined.dom().contains(q) == expected.dom().contains(q) by {
        if index_of_listing(a).dom().contains(q) {
            let m = choose|m: Seq<char>| a.contains((q, m));
            assert(a.union(b).contains((q, m)));
        }
        if index_of_listing(b).dom().contains(q) {
            let m = choose|m: Seq<char>| b.contains((q, m));
            assert(a.union(b).contains((q, m)));
        }
        if joined.dom().contains(q) {
            let m = choose|m: Seq<char>| a.union(b).contains((q, m));
            assert(a.contains((q, m)) || b.contains((q, m)));
        }
    }
    assert forall|q: Seq<char>| #[trigger] joined.dom().contains(q) implies joined[q] =~= expected[q] by {
        assert forall|m: Seq<char>| joined[q].contains(m) == expected[q].contains(m) by {
            if a.contains((q, m)) {
                assert(index_of_listing(a).dom().contains(q));
            }
            if b.contains((q, m)) {
                assert(index_of_listing(b).dom().contains(q));
            }
        }
    }
    assert(joined =~= expected);
}

/// Merging an index into itself changes nothing.
pub proof fn lemma_index_union_idempotent(a: IndexMap)
    ensures
        index_union(a, a) == a,
{
    assert forall|k: Seq<char>| #[trigger] a.dom().contains(k) implies index_union(a, a)[k] =~= a[k] by {}
    assert(index_union(a, a) =~= a);
}

/// The order in which two indexes are merged does not matter.
pub proof fn lemma_index_union_commutes(a: IndexMap, b: IndexMap)
    ensures
        index_union(a, b) == index_union(b, a),
{
    assert forall|k: Seq<char>| #[trigger]
        index_union(a, b).dom().contains(k) implies index_union(a, b)[k] =~= index_union(b, a)[k] by {}
    assert(index_union(a, b) =~= index_union(b, a));
}

/// Merging three indexes gives the same whichever two are merged first.
pub proof fn lemma_index_union_associates(a: IndexMap, b: IndexMap, c: IndexMap)
    ensures
        index_union(index_union(a, b), c) == index_union(a, index_union(b, c)),
{
    let left = index_union(index_union(a, b), c);
    let right = index_union(a, index_union(b, c));
    assert forall|k: Seq<char>| #[trigger] left.dom().contains(k) implies left[k] =~= right[k] by {}
    assert(left =~= right);
}

/// Merging never forgets: whatever either index lists, the union lists.
pub proof fn lemma_index_union_contains_both(a: IndexMap, b: IndexMap, k: Seq<char>, n: Seq<char>)
    ensures
        storers_in(index_union(a, b), k).contains(n) <==> storers_in(a, k).contains(n) || storers_in(
            b,
            k,
        ).contains(n),
{
}

/// Inserting never forgets, and lists what was inserted.
pub proof fn lemma_index_insert_contains(index: IndexMap, k: Seq<char>, n: Seq<char>, q: Seq<char>, m: Seq<char>)
    ensures
        storers_in(index_insert(index, k, n), q).contains(m) <==> storers_in(index, q).contains(m) || (q == k
            && m == n),
{
}

#[derive(Debug)]
struct IndexEntry {
    request_id: String,
    nodes: Vec<String>,
}

/// Maps each served request to the nodes that store its file. A request
/// occurs once, and so does a node among the storers of a request.
#[derive(Debug)]
pub struct StorageIndex {
    entries: Vec<IndexEntry>,
}

type EntryModel = (Seq<char>, Seq<Seq<char>>);

spec fn model_of(entries: Seq<IndexEntry>) -> Seq<EntryModel> {
    Seq::new(entries.len(), |i: int| (entries[i].request_id@, texts(entries[i].nodes@)))
}

spec fn slot_holds(m: Seq<EntryModel>, i: int, j: int, k: Seq<char>, n: Seq<char>) -> bool {
    &&& 0 <= i < m.len()
    &&& 0 <= j < m[i].1.len()
    &&& m[i].0 == k
    &&& m[i].1[j] == n
}

spec fn listed(m: Seq<EntryModel>, k: Seq<char>, n: Seq<char>) -> bool {
    exists|i: int, j: int| #[trigger] slot_holds(m, i, j, k, n)
}

spec fn listing_of(m: Seq<EntryModel>) -> Set<(Seq<char>, Seq<char>)> {
    Set::new(|p: (Seq<char>, Seq<char>)| listed(m, p.0, p.1))
}

spec fn keys_of(m: Seq<EntryModel>) -> Seq<Seq<char>> {
    Seq::new(m.len(), |i: int| m[i].0)
}

spec fn canonical_model(m: Seq<EntryModel>) -> bool {
    &&& keys_of(m).no_duplicates()
    &&& forall|i: int| 0 <= i < m.len() ==> (#[trigger] m[i]).1.len() > 0
    &&& forall|i: int| 0 <= i < m.len() ==> (#[trigger] m[i]).1.no_duplicates()
}

spec fn prefix_listing(m: Seq<EntryModel>, i: int, j: int) -> Set<(Seq<char>, Seq<char>)> {
    Set::new(
        |p: (Seq<char>, Seq<char>)|
            exists|a: int, b: int| #[trigger] slot_holds(m, a, b, p.0, p.1) && (a < i || (a == i && b < j)),
    )
}

proof fn lemma_listing_as_index(m: Seq<EntryModel>, k: Seq<char>, n: Seq<char>)
    ensures
        storers_in(index_of_listing(listing_of(m)), k).contains(n) == listed(m, k, n),
        listed(m, k, n) ==> index_of_listing(listing_of(m)).dom().contains(k),
{
    let listing = listing_of(m);
    if listed(m, k, n) {
        assert(listing.contains((k, n)));
    }
}

/// A listing gains exactly the pair `(k, n)` where every slot keeps what it
/// held, every slot holds what it held before or that pair, and some slot
/// holds the pair.
proof fn lemma_listing_gains(before: Seq<EntryModel>, after: Seq<EntryModel>, k: Seq<char>, n: Seq<char>)
    requires
        forall|i: int, j: int, q: Seq<char>, m: Seq<char>| #[trigger]
            slot_holds(before, i, j, q, m) ==> slot_holds(after, i, j, q, m),
        forall|i: int, j: int, q: Seq<char>, m: Seq<char>| #[trigger]
            slot_holds(after, i, j, q, m) ==> slot_holds(before, i, j, q, m) || (q == k && m == n),
        listed(after, k, n),
    ensures
        listing_of(after) == listing_of(before).insert((k, n)),
{
    assert forall|p: (Seq<char>, Seq<char>)|
        listing_of(after).contains(p) == listing_of(before).insert((k, n)).contains(p) by {
        if listed(before, p.0, p.1) {
            let (i, j) = choose|i: int, j: int| slot_holds(before, i, j, p.0, p.1);
            assert(slot_holds(after, i, j, p.0, p.1));
        }
        if listed(after, p.0, p.1) && p != (k, n) {
            let (i, j) = choose|i: int, j: int| slot_holds(after, i, j, p.0, p.1);
            assert(slot_holds(before, i, j, p.0, p.1));
        }
    }
    assert(listing_of(after) =~= listing_of(before).insert((k, n)));
}

/// Nothing is listed before the first slot, and everything once all entries
/// are passed.
proof fn lemma_prefix_bounds(m: Seq<EntryModel>)
    ensures
        prefix_listing(m, 0, 0) == Set::<(Seq<char>, Seq<char>)>::empty(),
        prefix_listing(m, m.len() as int, 0) == listing_of(m),
{
    assert(prefix_listing(m, 0, 0) =~= Set::<(Seq<char>, Seq<char>)>::empty());
    assert forall|p: (Seq<char>, Seq<char>)|
        prefix_listing(m, m.len() as int, 0).contains(p) == listing_of(m).contains(p) by {
        if listed(m, p.0, p.1) {
            let (a, b) = choose|a: int, b: int| slot_holds(m, a, b, p.0, p.1);
            assert(slot_holds(m, a, b, p.0, p.1) && (a < m.len() || (a == m.len() && b < 0)));
        }
    }
    assert(prefix_listing(m, m.len() as int, 0) =~= listing_of(m));
}

/// Passing one more slot lists what that slot holds.
proof fn lemma_prefix_step(m: Seq<EntryModel>, i: int, j: int)
    requires
        0 <= i < m.len(),
        0 <= j < m[i].1.len(),
    ensures
        prefix_listing(m, i, j + 1) == prefix_listing(m, i, j).insert((m[i].0, m[i].1[j])),
{
    let pair = (m[i].0, m[i].1[j]);
    assert(slot_holds(m, i, j, pair.0, pair.1));
    assert forall|p: (Seq<char>, Seq<char>)|
        prefix_listing(m, i, j + 1).contains(p) == prefix_listing(m, i, j).insert(pair).contains(p) by {
        if prefix_listing(m, i, j + 1).contains(p) {
            let (a, b) = choose|a: int, b: int| #[trigger]
                slot_holds(m, a, b, p.0, p.1) && (a < i || (a == i && b < j + 1));
            assert(p == pair || (slot_holds(m, a, b, p.0, p.1) && (a < i || (a == i && b < j))));
        }
        if prefix_listing(m, i, j).contains(p) {
            let (a, b) = choose|a: int, b: int| #[trigger]
                slot_holds(m, a, b, p.0, p.1) && (a < i || (a == i && b < j));
            assert(slot_holds(m, a, b, p.0, p.1) && (a < i || (a == i && b < j + 1)));
        }
    }
    assert(prefix_listing(m, i, j + 1) =~= prefix_listing(m, i, j).insert(pair));
}

/// Once all slots of an entry are passed, the next entry begins.
proof fn lemma_prefix_next_entry(m: Seq<EntryModel>, i: int)
    requires
        0 <= i < m.len(),
    ensures
        prefix_listing(m, i + 1, 0) == prefix_listing(m, i, m[i].1.len() as int),
{
    let j = m[i].1.len() as int;
    assert forall|p: (Seq<char>, Seq<char>)|
        prefix_listing(m, i + 1, 0).contains(p) == prefix_listing(m, i, j).contains(p) by {
        if prefix_listing(m, i + 1, 0).contains(p) {
            let (a, b) = choose|a: int, b: int| #[trigger]
                slot_holds(m, a, b, p.0, p.1) && (a < i + 1 || (a == i + 1 && b < 0));
            assert(slot_holds(m, a, b, p.0, p.1) && (a < i || (a == i && b < j)));
        }
        if prefix_listing(m, i, j).contains(p) {
            let (a, b) = choose|a: int, b: int| #[trigger]
                slot_holds(m, a, b, p.0, p.1) && (a < i || (a == i && b < j));
            assert(slot_holds(m, a, b, p.0, p.1) && (a < i + 1 || (a == i + 1 && b < 0)));
        }
    }
    assert(prefix_listing(m, i + 1, 0) =~= prefix_listing(m, i, j));
}

/// The keys of the first `upto` entries that list `n`, in their order.
spec fn keys_listing(m: Seq<EntryModel>, n: Seq<char>, upto: int) -> Seq<Seq<char>>
    decreases upto,
{
    if upto <= 0 {
        Seq::empty()
    } else if m[upto - 1].1.contains(n) {
        keys_listing(m, n, upto - 1).push(m[upto - 1].0)
    } else {
        keys_listing(m, n, upto - 1)
    }
}

/// The keys that list `n` are those of the entries that hold it, each once.
proof fn lemma_keys_listing(m: Seq<EntryModel>, n: Seq<char>, upto: int)
    requires
        0 <= upto <= m.len(),
        keys_of(m).no_duplicates(),
    ensures
        keys_listing(m, n, upto).no_duplicates(),
        forall|k: Seq<char>|
            keys_listing(m, n, upto).contains(k) <==> exists|a: int, b: int|
                a < upto && #[trigger] slot_holds(m, a, b, k, n),
    decreases upto,
{
    if upto > 0 {
        let earlier = keys_listing(m, n, upto - 1);
        let last = upto - 1;
        lemma_keys_listing(m, n, last);
        assert forall|k: Seq<char>|
            keys_listing(m, n, upto).contains(k) <==> exists|a: int, b: int|
                a < upto && #[trigger] slot_holds(m, a, b, k, n) by {
            if earlier.contains(k) {
                let (a, b) = choose|a: int, b: int| a < last && #[trigger] slot_holds(m, a, b, k, n);
                assert(a < upto && slot_holds(m, a, b, k, n));
                let c = choose|c: int| 0 <= c < earlier.len() && earlier[c] == k;
                assert(keys_listing(m, n, upto)[c] == k);
            }
            if m[last].1.contains(n) && m[last].0 == k {
                let b = choose|b: int| 0 <= b < m[last].1.len() && m[last].1[b] == n;
                assert(last < upto && slot_holds(m, last, b, k, n));
                assert(keys_listing(m, n, upto)[earlier.len() as int] == k);
            }
            if exists|a: int, b: int| a < upto && #[trigger] slot_holds(m, a, b, k, n) {
                let (a, b) = choose|a: int, b: int| a < upto && #[trigger] slot_holds(m, a, b, k, n);
                if a < last {
                    assert(earlier.contains(k));
                } else {
                    assert(m[last].1[b] == n);
                }
            }
        }
        if m[last].1.contains(n) {
            assert(!earlier.contains(m[last].0)) by {
                if earlier.contains(m[last].0) {
                    let (a, b) = choose|a: int, b: int| a < last && #[trigger] slot_holds(m, a, b, m[last].0, n);
                    assert(keys_of(m)[a] == keys_of(m)[last]);
                }
            }
        }
    }
}

impl View for StorageIndex {
    type V = IndexMap;

    closed spec fn view(&self) -> IndexMap {
        index_of_listing(listing_of(model_of(self.entries@)))
    }
}

impl StorageIndex {
    #[verifier::type_invariant]
    spec fn canonical(self) -> bool {
        canonical_model(model_of(self.entries@))
    }

    /// An index that knows no request.
    pub fn new() -> (index: Self)
        ensures
            index@ == IndexMap::empty(),
    {
        let index = StorageIndex { entries: Vec::new() };
        assert(index@ =~~= IndexMap::empty());
        index
    }

    fn entry_of(&self, request_id: &str) -> (res: Option<usize>)
        ensures
            match res {
                Some(i) => i < self.entries.len() && self.entries[i as int].request_id@ == request_id@,
                None => forall|i: int|
                    0 <= i < self.entries.len() ==> self.entries[i].request_id@ != request_id@,
            },
    {
        let mut i: usize = 0;
        while i < self.entries.len()
            invariant
                i <= self.entries.len(),
                forall|a: int| 0 <= a < i ==> self.entries[a].request_id@ != request_id@,
            decreases self.entries.len() - i,
        {
            if same_text(self.entries[i].request_id.as_str(), request_id) {
                return Some(i);
            }
            i += 1;
        }
        None
    }

    /// Whether any node stores the file of `request_id`.
    pub fn is_served(&self, request_id: &str) -> (served: bool)
        ensures
            served == self@.dom().contains(request_id@),
    {
        proof {
            use_type_invariant(self);
        }
        let ghost m = model_of(self.entries@);
        match self.entry_of(request_id) {
            Some(i) => {
                proof {
                    let n = m[i as int].1[0];
                    assert(slot_holds(m, i as int, 0, request_id@, n));
                    lemma_listing_as_index(m, request_id@, n);
                }
                true
            },
            None => {
                assert(!self@.dom().contains(request_id@));
                false
            },
        }
    }

    /// Whether `node_id` is among the storers of `request_id`.
    pub fn lists(&self, request_id: &str, node_id: &str) -> (listed: bool)
        ensures
            listed == storers_in(self@, request_id@).contains(node_id@),
    {
        proof {
            use_type_invariant(self);
        }
        let ghost m = model_of(self.entries@);
        proof {
            lemma_listing_as_index(m, request_id@, node_id@);
        }
        match self.entry_of(request_id) {
            Some(i) => {
                match position_of(&self.entries[i].nodes, node_id) {
                    Some(j) => {
                        proof {
                            assert(slot_holds(m, i as int, j as int, request_id@, node_id@));
                        }
                        true
                    },
                    None => {
                        proof {
                            assert forall|a: int, b: int| !#[trigger] slot_holds(m, a, b, request_id@, node_id@) by {
                                if slot_holds(m, a, b, request_id@, node_id@) {
                                    assert(keys_of(m)[a] == keys_of(m)[i as int]);
                                    assert(a == i);
                                    assert(texts(self.entries[i as int].nodes@)[b] == node_id@);
                                }
                            }
                        }
                        false
                    },
                }
            },
            None => false,
        }
    }

    fn insert_pair(&mut self, request_id: String, node_id: String)
        ensures
            listing_of(model_of(final(self).entries@)) == listing_of(model_of(old(self).entries@)).insert(
                (request_id@, node_id@),
            ),
    {
        proof {
            use_type_invariant(&*self);
        }
        let found = self.entry_of(request_id.as_str());
        let mut entries: Vec<IndexEntry> = Vec::new();
        std::mem::swap(&mut entries, &mut self.entries);
        let ghost before = model_of(entries@);
        let ghost k = request_id@;
        let ghost n = node_id@;
        match found {
            Some(i) => {
                match position_of(&entries[i].nodes, node_id.as_str()) {
                    Some(j) => {
                        proof {
                            assert(slot_holds(before, i as int, j as int, k, n));
                            assert(listing_of(before).contains((k, n)));
                            assert(listing_of(before) =~= listing_of(before).insert((k, n)));
                        }
                    },
                    None => {
                        entries[i].nodes.push(node_id);
                        proof {
                            let after = model_of(entries@);
                            assert(after[i as int].1 =~= before[i as int].1.push(n));
                            assert forall|a: int| 0 <= a < after.len() && a != i implies after[a] == before[a] by {
                                assert(after[a].1 =~= before[a].1);
                            }
                            assert(keys_of(after) =~= keys_of(before));
                            assert(slot_holds(after, i as int, before[i as int].1.len() as int, k, n));
                            lemma_listing_gains(before, after, k, n);
                        }
                    },
                }
            },
            None => {
                let mut nodes: Vec<String> = Vec::new();
                nodes.push(node_id);
                entries.push(IndexEntry { request_id, nodes });
                proof {
                    let after = model_of(entries@);
                    assert(after[before.len() as int].1 =~= seq![n]);
                    assert forall|a: int| 0 <= a < before.len() implies after[a] == before[a] by {
                        assert(after[a].1 =~= before[a].1);
                    }
                    assert(keys_of(after) =~= keys_of(before).push(k));
                    assert(slot_holds(after, before.len() as int, 0, k, n));
                    lemma_listing_gains(before, after, k, n);
                }
            },
        }
        self.entries = entries;
    }

    /// Records that `node_id` stores the file of `request_id`. The request
    /// becomes known if it was not, and a storer that is already listed stays
    /// listed once.
    pub fn insert(&mut self, request_id: String, node_id: String)
        ensures
            final(self)@ == index_insert(old(self)@, request_id@, node_id@),
    {
        proof {
            lemma_index_of_listing_insert(
                listing_of(model_of(self.entries@)),
                request_id@,
                node_id@,
            );
        }
        self.insert_pair(request_id, node_id);
    }

    /// Adds every storer that `other` lists to the storers that this index
    /// lists for the same request.
    pub fn merge(&mut self, other: &StorageIndex)
        ensures
            final(self)@ == index_union(old(self)@, other@),
    {
        let ghost start = listing_of(model_of(self.entries@));
        let ghost theirs = model_of(other.entries@);
        proof {
            lemma_prefix_bounds(theirs);
            assert(start.union(Set::empty()) =~= start);
        }
        let mut i: usize = 0;
        while i < other.entries.len()
            invariant
                i <= other.entries.len(),
                theirs == model_of(other.entries@),
                listing_of(model_of(self.entries@)) == start.union(prefix_listing(theirs, i as int, 0)),
            decreases other.entries.len() - i,
        {
            let entry = &other.entries[i];
            let mut j: usize = 0;
            while j < entry.nodes.len()
                invariant
                    i < other.entries.len(),
                    *entry == other.entries[i as int],
                    j <= entry.nodes.len(),
                    theirs == model_of(other.entries@),
                    listing_of(model_of(self.entries@)) == start.union(
                        prefix_listing(theirs, i as int, j as int),
                    ),
                decreases entry.nodes.len() - j,
            {
                let ghost passed = prefix_listing(theirs, i as int, j as int);
                self.insert_pair(entry.request_id.clone(), entry.nodes[j].clone());
                proof {
                    let pair = (theirs[i as int].0, theirs[i as int].1[j as int]);
                    lemma_prefix_step(theirs, i as int, j as int);
                    assert(start.union(passed).insert(pair) =~= start.union(passed.insert(pair)));
                }
                j += 1;
            }
            proof {
                lemma_prefix_next_entry(theirs, i as int);
            }
            i += 1;
        }
        proof {
            lemma_index_of_listing_union(start, listing_of(theirs));
        }
    }

    /// Empties the index and returns what it held.
    pub fn take(&mut self) -> (taken: StorageIndex)
        ensures
            taken@ == old(self)@,
            final(self)@ == IndexMap::empty(),
    {
        proof {
            use_type_invariant(&*self);
        }
        let mut entries: Vec<IndexEntry> = Vec::new();
        std::mem::swap(&mut entries, &mut self.entries);
        assert(self@ =~~= IndexMap::empty());
        StorageIndex { entries }
    }

    /// The requests that have a storer, each once.
    pub fn request_ids(&self) -> (ids: Vec<String>)
        ensures
            texts(ids@).no_duplicates(),
            texts(ids@).to_set() == self@.dom(),
    {
        proof {
            use_type_invariant(self);
        }
        let ghost m = model_of(self.entries@);
        let mut ids: Vec<String> = Vec::new();
        let mut i: usize = 0;
        while i < self.entries.len()
            invariant
                i <= self.entries.len(),
                m == model_of(self.entries@),
                texts(ids@) == keys_of(m).take(i as int),
            decreases self.entries.len() - i,
        {
            let ghost before = texts(ids@);
            ids.push(self.entries[i].request_id.clone());
            i += 1;
            assert(texts(ids@) =~= before.push(keys_of(m)[i - 1]));
            assert(texts(ids@) =~= keys_of(m).take(i as int));
        }
        proof {
            assert(keys_of(m).take(i as int) =~= keys_of(m));
            assert forall|k: Seq<char>| keys_of(m).to_set().contains(k) == self@.dom().contains(k) by {
                if keys_of(m).contains(k) {
                    let a = choose|a: int| 0 <= a < keys_of(m).len() && keys_of(m)[a] == k;
                    assert(slot_holds(m, a, 0, k, m[a].1[0]));
                    lemma_listing_as_index(m, k, m[a].1[0]);
                }
                if self@.dom().contains(k) {
                    let n = choose|n: Seq<char>| listing_of(m).contains((k, n));
                    let (a, b) = choose|a: int, b: int| slot_holds(m, a, b, k, n);
                    assert(keys_of(m)[a] == k);
                }
            }
            assert(keys_of(m).to_set() =~= self@.dom());
        }
        ids
    }

    /// The nodes that store the file of `request_id`, each once: none where
    /// the request is unknown.
    pub fn storers(&self, request_id: &str) -> (nodes: Vec<String>)
        ensures
            texts(nodes@).no_duplicates(),
            texts(nodes@).to_set() == storers_in(self@, request_id@),
    {
        proof {
            use_type_invariant(self);
        }
        let ghost m = model_of(self.entries@);
        match self.entry_of(request_id) {
            Some(i) => {
                let nodes = self.entries[i].nodes.clone();
                proof {
                    assert(texts(nodes@) =~= m[i as int].1);
                    assert forall|n: Seq<char>|
                        texts(nodes@).to_set().contains(n) == storers_in(self@, request_id@).contains(n) by {
                        lemma_listing_as_index(m, request_id@, n);
                        if texts(nodes@).contains(n) {
                            let b = choose|b: int| 0 <= b < texts(nodes@).len() && texts(nodes@)[b] == n;
                            assert(slot_holds(m, i as int, b, request_id@, n));
                        }
                        if listed(m, request_id@, n) {
                            let (a, b) = choose|a: int, b: int| slot_holds(m, a, b, request_id@, n);
                            assert(keys_of(m)[a] == keys_of(m)[i as int]);
                        }
                    }
                    assert(texts(nodes@).to_set() =~= storers_in(self@, request_id@));
                }
                nodes
            },
            None => {
                let nodes: Vec<String> = Vec::new();
                proof {
                    assert(!self@.dom().contains(request_id@)) by {
                        if self@.dom().contains(request_id@) {
                            let n = choose|n: Seq<char>| listing_of(m).contains((request_id@, n));
                            let (a, b) = choose|a: int, b: int| slot_holds(m, a, b, request_id@, n);
                        }
                    }
                    assert(texts(nodes@).to_set() =~= Set::<Seq<char>>::empty());
                }
                nodes
            },
        }
    }

    /// The requests whose file `node_id` stores, each once.
    pub fn requests_stored_by(&self, node_id: &str) -> (ids: Vec<String>)
        ensures
            texts(ids@).no_duplicates(),
            forall|k: Seq<char>| texts(ids@).contains(k) <==> storers_in(self@, k).contains(node_id@),
    {
        proof {
            use_type_invariant(self);
        }
        let ghost m = model_of(self.entries@);
        let ghost n = node_id@;
        let mut ids: Vec<String> = Vec::new();
        let mut i: usize = 0;
        while i < self.entries.len()
            invariant
                i <= self.entries.len(),
                m == model_of(self.entries@),
                n == node_id@,
                texts(ids@) == keys_listing(m, n, i as int),
            decreases self.entries.len() - i,
        {
            let entry = &self.entries[i];
            let at = position_of(&entry.nodes, node_id);
            proof {
                assert(m[i as int].1 =~= texts(entry.nodes@));
                if at is Some {
                    assert(m[i as int].1[at.unwrap() as int] == n);
                }
            }
            if at.is_some() {
                ids.push(entry.request_id.clone());
            }
            i += 1;
            assert(texts(ids@) =~= keys_listing(m, n, i as int));
        }
        proof {
            lemma_keys_listing(m, n, i as int);
            assert forall|k: Seq<char>| texts(ids@).contains(k) <==> storers_in(self@, k).contains(n) by {
                lemma_listing_as_index(m, k, n);
                if listed(m, k, n) {
                    let (a, b) = choose|a: int, b: int| slot_holds(m, a, b, k, n);
                    assert(a < i && slot_holds(m, a, b, k, n));
                }
            }
        }
        ids
    }
}

impl Clone for StorageIndex {
    fn clone(&self) -> (out: Self)
        ensures
            out@ == self@,
    {
        proof {
            use_type_invariant(self);
        }
        let mut entries: Vec<IndexEntry> = Vec::new();
        let mut i: usize = 0;
        while i < self.entries.len()
            invariant
                i <= self.entries.len(),
                model_of(entries@) == model_of(self.entries@).take(i as int),
            decreases self.entries.len() - i,
        {
            let ghost before = model_of(entries@);
            let nodes = self.entries[i].nodes.clone();
            assert(texts(nodes@) =~= texts(self.entries[i as int].nodes@));
            entries.push(IndexEntry { request_id: self.entries[i].request_id.clone(), nodes });
            i += 1;
            proof {
                let after = model_of(entries@);
                assert forall|a: int| 0 <= a < after.len() implies after[a] == model_of(self.entries@)[a] by {
                    if a < before.len() {
                        assert(after[a].1 =~= before[a].1);
                    }
                }
                assert(after =~= model_of(self.entries@).take(i as int));
            }
        }
        assert(model_of(self.entries@).take(i as int) =~= model_of(self.entries@));
        StorageIndex { entries }
    }
}

} // verus!
