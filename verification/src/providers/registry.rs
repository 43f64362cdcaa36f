//! The providers that are at hand.

use crate::domain::ProviderId;
use crate::text::comes_before;
use vstd::prelude::*;

verus! {

/// A provider under its identifier.
pub struct Registered<P> {
    pub id: ProviderId,
    pub provider: P,
}

/// The providers that are at hand, ordered by their identifiers, each of which occurs once.
pub struct ProviderRegistry<P> {
    entries: Vec<Registered<P>>,
}

/// The place of an identifier.
spec fn position<P>(entries: Seq<Registered<P>>, id: Seq<char>) -> int {
    choose|i: int| 0 <= i < entries.len() && (#[trigger] entries[i]).id@ == id
}

impl<P> View for ProviderRegistry<P> {
    type V = Map<Seq<char>, P>;

    closed spec fn view(&self) -> Map<Seq<char>, P> {
        Map::new(
            |id: Seq<char>| exists|i: int| 0 <= i < self.entries@.len() && (#[trigger] self.entries@[i]).id@ == id,
            |id: Seq<char>| self.entries@[position(self.entries@, id)].provider,
        )
    }
}

impl<P> ProviderRegistry<P> {
    /// The identifiers, in order.
    pub closed spec fn order(self) -> Seq<Seq<char>> {
        Seq::new(self.entries@.len(), |i: int| self.entries@[i].id@)
    }

    /// Whether the identifiers ascend.
    pub open spec fn well_formed(self) -> bool {
        forall|i: int, j: int|
            0 <= i < j < self.order().len() ==> crate::text::precedes(
                #[trigger] self.order()[i],
                #[trigger] self.order()[j],
            )
    }

    proof fn entry_is_unique(self, i: int, j: int)
        requires
            self.well_formed(),
            0 <= i < self.entries@.len(),
            0 <= j < self.entries@.len(),
            self.entries@[i].id@ == self.entries@[j].id@,
        ensures
            i == j,
    {
        let o = self.order();
        assert(o[i] == o[j]);
        crate::text::precedes_orders(o[i], o[j]);
        if i < j {
            assert(crate::text::precedes(o[i], o[j]));
        } else if j < i {
            assert(crate::text::precedes(o[j], o[i]));
        }
    }

    proof fn view_at(self, i: int)
        requires
            self.well_formed(),
            0 <= i < self.entries@.len(),
        ensures
            self@.contains_key(self.entries@[i].id@),
            self@[self.entries@[i].id@] == self.entries@[i].provider,
    {
        self.entry_is_unique(i, position(self.entries@, self.entries@[i].id@));
    }

    /// No provider is at hand.
    pub fn new() -> (registry: ProviderRegistry<P>)
        ensures
            registry.well_formed(),
            registry@ == Map::<Seq<char>, P>::empty(),
    {
        let registry = ProviderRegistry { entries: Vec::new() };
        assert(registry@ =~= Map::<Seq<char>, P>::empty());
        registry
    }

    /// Puts a provider in the place of its identifier and hands back the one that was there.
    pub fn register(&mut self, id: ProviderId, provider: P) -> (previous: Option<P>)
        requires
            old(self).well_formed(),
        ensures
            final(self).well_formed(),
            final(self)@ == old(self)@.insert(id@, provider),
            previous == (if old(self)@.contains_key(id@) {
                Some(old(self)@[id@])
            } else {
                None
            }),
    {
        let ghost before = *self;
        let mut i: usize = 0;
        while i < self.entries.len() && comes_before(
            self.entries[i].id.as_str(),
            id.as_str(),
        )
            invariant
                i <= self.entries@.len(),
                *self == before,
                forall|k: int|
                    0 <= k < i ==> crate::text::precedes(
                        (#[trigger] self.entries@[k]).id@,
                        id@,
                    ),
            decreases self.entries@.len() - i,
        {
            i = i + 1;
        }
        if i < self.entries.len() && self.entries[i].id.same(&id) {
            let ghost old_entry = self.entries@[i as int];
            let ghost text = id@;
            let mut slot = Registered { id, provider };
            std::mem::swap(&mut self.entries[i], &mut slot);
            let previous = slot.provider;
            proof {
                assert(self.order() =~= before.order());
                before.view_at(i as int);
                assert forall|id: Seq<char>| self@.contains_key(id) == before@.insert(
                    text,
                    provider,
                ).contains_key(id) by {
                    if self@.contains_key(id) {
                        let k = choose|k: int|
                            0 <= k < self.entries@.len() && (#[trigger] self.entries@[k]).id@ == id;
                        assert(self.order()[k] == before.order()[k]);
                        assert(before.entries@[k].id@ == id);
                    }
                    if before@.contains_key(id) {
                        let k = choose|k: int|
                            0 <= k < before.entries@.len() && (#[trigger] before.entries@[k]).id@
                                == id;
                        assert(self.order()[k] == before.order()[k]);
                        assert(self.entries@[k].id@ == id);
                    }
                    if id == text {
                        assert(self.entries@[i as int].id@ == text);
                    }
                }
                assert forall|id: Seq<char>| self@.contains_key(id) implies self@[id]
                    == before@.insert(text, provider)[id] by {
                    let k = choose|k: int|
                        0 <= k < self.entries@.len() && (#[trigger] self.entries@[k]).id@ == id;
                    self.view_at(k);
                    assert(self.order()[k] == before.order()[k]);
                    before.view_at(k);
                    if id == text {
                        self.entry_is_unique(k, i as int);
                    }
                }
                assert(self@ =~= before@.insert(text, provider));
            }
            Some(previous)
        } else {
            let ghost text = id@;
            proof {
                before.absent_at(text, i as int);
            }
            self.entries.insert(i, Registered { id, provider });
            proof {
                let o = self.order();
                let b = before.order();
                assert(o =~= b.insert(i as int, text));
                assert forall|x: int, y: int| 0 <= x < y < o.len() implies crate::text::precedes(
                    #[trigger] o[x],
                    #[trigger] o[y],
                ) by {
                    if x < i && y == i {
                        assert(before.entries@[x].id@ == o[x]);
                    } else if x == i {
                        assert(o[y] == b[y - 1]);
                        if y - 1 > i {
                            crate::text::precedes_transitive(text, b[i as int], b[y - 1]);
                        }
                    } else if y < i {
                        assert(o[x] == b[x] && o[y] == b[y]);
                    } else if x < i {
                        assert(o[x] == b[x] && o[y] == b[y - 1]);
                    } else {
                        assert(o[x] == b[x - 1] && o[y] == b[y - 1]);
                    }
                }
                assert forall|id: Seq<char>| self@.contains_key(id) == before@.insert(
                    text,
                    provider,
                ).contains_key(id) by {
                    if self@.contains_key(id) {
                        let k = choose|k: int|
                            0 <= k < self.entries@.len() && (#[trigger] self.entries@[k]).id@ == id;
                        if k < i {
                            assert(before.entries@[k].id@ == id);
                        } else if k > i {
                            assert(before.entries@[k - 1].id@ == id);
                        }
                    }
                    if before@.contains_key(id) {
                        let k = choose|k: int|
                            0 <= k < before.entries@.len() && (#[trigger] before.entries@[k]).id@
                                == id;
                        if k < i {
                            assert(self.entries@[k].id@ == id);
                        } else {
                            assert(self.entries@[k + 1].id@ == id);
                        }
                    }
                    if id == text {
                        assert(self.entries@[i as int].id@ == text);
                    }
                }
                assert forall|id: Seq<char>| self@.contains_key(id) implies self@[id]
                    == before@.insert(text, provider)[id] by {
                    let k = choose|k: int|
                        0 <= k < self.entries@.len() && (#[trigger] self.entries@[k]).id@ == id;
                    self.view_at(k);
                    if id == text {
                        self.entry_is_unique(k, i as int);
                    } else if k < i {
                        before.view_at(k);
                    } else {
                        before.view_at(k - 1);
                    }
                }
                assert(self@ =~= before@.insert(text, provider));
            }
            None
        }
    }

    proof fn absent_at(self, id: Seq<char>, i: int)
        requires
            self.well_formed(),
            0 <= i <= self.entries@.len(),
            forall|k: int|
                0 <= k < i ==> crate::text::precedes((#[trigger] self.entries@[k]).id@, id),
            i < self.entries@.len() ==> !crate::text::precedes(self.entries@[i].id@, id)
                && self.entries@[i].id@ != id,
        ensures
            !self@.contains_key(id),
            i < self.entries@.len() ==> crate::text::precedes(id, self.entries@[i].id@),
    {
        if i < self.entries@.len() {
            crate::text::precedes_orders(self.entries@[i].id@, id);
        }
        if self@.contains_key(id) {
            let k = choose|k: int| 0 <= k < self.entries@.len() && (#[trigger] self.entries@[k]).id@ == id;
            crate::text::precedes_orders(id, id);
            if k > i {
                assert(crate::text::precedes(self.order()[i], self.order()[k]));
                crate::text::precedes_transitive(id, self.entries@[i].id@, id);
            }
        }
    }

    /// The provider with an identifier.
    pub fn get(&self, id: &ProviderId) -> (r: Option<&P>)
        requires
            self.well_formed(),
        ensures
            match r {
                Some(provider) => self@.contains_key(id@) && self@[id@] == *provider,
                None => !self@.contains_key(id@),
            },
    {
        let mut i: usize = 0;
        while i < self.entries.len()
            invariant
                i <= self.entries@.len(),
                self.well_formed(),
                forall|k: int| 0 <= k < i ==> (#[trigger] self.entries@[k]).id@ != id@,
            decreases self.entries@.len() - i,
        {
            if self.entries[i].id.same(id) {
                proof {
                    self.view_at(i as int);
                }
                return Some(&self.entries[i].provider);
            }
            i = i + 1;
        }
        None
    }

    /// The identifiers of the providers that are at hand, in order.
    pub fn ids(&self) -> (ids: Vec<ProviderId>)
        requires
            self.well_formed(),
        ensures
            ids@.len() == self.order().len(),
            forall|i: int| 0 <= i < ids@.len() ==> (#[trigger] ids@[i])@ == self.order()[i],
            forall|id: Seq<char>| self@.contains_key(id) <==> self.order().contains(id),
    {
        let mut ids: Vec<ProviderId> = Vec::new();
        let mut i: usize = 0;
        while i < self.entries.len()
            invariant
                i <= self.entries@.len(),
                ids@.len() == i,
                forall|k: int| 0 <= k < i ==> (#[trigger] ids@[k])@ == self.order()[k],
            decreases self.entries@.len() - i,
        {
            ids.push(self.entries[i].id.copy());
            i = i + 1;
        }
        assert forall|id: Seq<char>| self@.contains_key(id) implies self.order().contains(id) by {
            let k = choose|k: int| 0 <= k < self.entries@.len() && (#[trigger] self.entries@[k]).id@ == id;
            assert(self.order()[k] == id);
        }
        assert forall|id: Seq<char>| self.order().contains(id) implies self@.contains_key(id) by {
            let k = choose|k: int| 0 <= k < self.order().len() && self.order()[k] == id;
            assert(self.entries@[k].id@ == id);
        }
        ids
    }
}

} // verus!
