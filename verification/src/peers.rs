//! The peers that a node knows: the population among which sortition draws.

use vstd::prelude::*;

use crate::encoding::{position_of, texts};

verus! {

/// The identifiers of the known peers, each once.
#[derive(Debug)]
pub struct PeerSet {
    ids: Vec<String>,
}

impl View for PeerSet {
    type V = Set<Seq<char>>;

    closed spec fn view(&self) -> Set<Seq<char>> {
        texts(self.ids@).to_set()
    }
}

impl PeerSet {
    #[verifier::type_invariant]
    spec fn distinct(self) -> bool {
        texts(self.ids@).no_duplicates()
    }

    /// No peers.
    pub fn new() -> (peers: Self)
        ensures
            peers@ == Set::<Seq<char>>::empty(),
    {
        let peers = PeerSet { ids: Vec::new() };
        assert(peers@ =~= Set::<Seq<char>>::empty());
        peers
    }

    /// Whether `id` is a known peer.
    pub fn contains(&self, id: &str) -> (known: bool)
        ensures
            known == self@.contains(id@),
    {
        let at = position_of(&self.ids, id);
        proof {
            if at is Some {
                assert(texts(self.ids@)[at.unwrap() as int] == id@);
            }
        }
        at.is_some()
    }

    /// The number of known peers.
    pub fn len(&self) -> (count: usize)
        ensures
            self@.finite(),
            count == self@.len(),
    {
        proof {
            use_type_invariant(self);
            texts(self.ids@).unique_seq_to_set();
        }
        self.ids.len()
    }

    /// Adds `id` to the known peers; returns whether it was new.
    pub fn insert(&mut self, id: String) -> (added: bool)
        ensures
            final(self)@ == old(self)@.insert(id@),
            added == !old(self)@.contains(id@),
    {
        proof {
            use_type_invariant(&*self);
        }
        let known = self.contains(id.as_str());
        let mut ids: Vec<String> = Vec::new();
        std::mem::swap(&mut ids, &mut self.ids);
        let ghost before = texts(ids@);
        if !known {
            ids.push(id);
            assert(texts(ids@) =~= before.push(id@));
            assert(texts(ids@).to_set() =~= before.to_set().insert(id@)) by {
                assert forall|x: Seq<char>| texts(ids@).to_set().contains(x) == before.to_set().insert(id@).contains(
                    x,
                ) by {
                    if before.contains(x) {
                        let i = choose|i: int| 0 <= i < before.len() && before[i] == x;
                        assert(texts(ids@)[i] == x);
                    }
                    if x == id@ {
                        assert(texts(ids@)[before.len() as int] == x);
                    }
                }
            }
        } else {
            assert(before.to_set() =~= before.to_set().insert(id@));
        }
        self.ids = ids;
        !known
    }

    /// Removes `id` from the known peers; returns whether it was known.
    pub fn remove(&mut self, id: &str) -> (removed: bool)
        ensures
            final(self)@ == old(self)@.remove(id@),
            removed == old(self)@.contains(id@),
    {
        proof {
            use_type_invariant(&*self);
        }
        let at = position_of(&self.ids, id);
        let mut ids: Vec<String> = Vec::new();
        std::mem::swap(&mut ids, &mut self.ids);
        let ghost before = texts(ids@);
        let removed = match at {
            Some(i) => {
                ids.remove(i);
                proof {
                    let after = texts(ids@);
                    assert(before[i as int] == id@);
                    assert(after =~= before.remove(i as int));
                    assert forall|x: Seq<char>| after.to_set().contains(x) == before.to_set().remove(id@).contains(
                        x,
                    ) by {
                        if after.contains(x) {
                            let j = choose|j: int| 0 <= j < after.len() && after[j] == x;
                            if j < i {
                                assert(before[j] == x);
                            } else {
                                assert(before[j + 1] == x);
                            }
                        }
                        if before.contains(x) && x != id@ {
                            let j = choose|j: int| 0 <= j < before.len() && before[j] == x;
                            if j < i {
                                assert(after[j] == x);
                            } else {
                                assert(after[j - 1] == x);
                            }
                        }
                    }
                    assert(after.to_set() =~= before.to_set().remove(id@));
                }
                true
            },
            None => {
                assert(before.to_set() =~= before.to_set().remove(id@));
                false
            },
        };
        self.ids = ids;
        removed
    }

    /// The known peers, each once.
    pub fn ids(&self) -> (ids: Vec<String>)
        ensures
            texts(ids@).no_duplicates(),
            texts(ids@).to_set() == self@,
    {
        proof {
            use_type_invariant(self);
        }
        let ids = self.ids.clone();
        assert(texts(ids@) =~= texts(self.ids@));
        ids
    }
}

} // verus!
