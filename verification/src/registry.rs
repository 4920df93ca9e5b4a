//! The pack registry: an immutable snapshot of the loaded content packs.
//!
//! A snapshot is rebuilt wholesale when the packs on disk are reloaded and
//! swapped in atomically by the surrounding service, so a reader never sees
//! a half-updated set.  Its mathematical view is the map from pack id to
//! pack; adding a pack with an id already present replaces it.

use vstd::prelude::*;
use crate::pack::Pack;

verus! {

/// The map a sequence of loaded packs denotes: later packs with the same
/// id win.
pub open spec fn spec_pack_map(s: Seq<Pack>) -> Map<u128, Pack>
    decreases s.len(),
{
    if s.len() == 0 {
        Map::empty()
    } else {
        spec_pack_map(s.drop_last()).insert(s.last().id, s.last())
    }
}

/// An immutable snapshot of the loaded packs.
pub struct PackRegistry {
    pub packs: Vec<Pack>,
}

impl View for PackRegistry {
    type V = Map<u128, Pack>;

    open spec fn view(&self) -> Map<u128, Pack> {
        spec_pack_map(self.packs@)
    }
}

/// Ids outside the tail of `s` pass lookups through unchanged: if no pack
/// from position `i` on carries `id`, the map of `s` agrees at `id` with
/// the map of the first `i` packs.
proof fn lemma_pack_map_tail_blind(s: Seq<Pack>, i: int, id: u128)
    requires
        0 <= i <= s.len(),
        forall|j: int| i <= j < s.len() ==> s[j].id != id,
    ensures
        spec_pack_map(s).contains_key(id) == spec_pack_map(s.take(i)).contains_key(id),
        spec_pack_map(s).contains_key(id) ==> spec_pack_map(s)[id] == spec_pack_map(s.take(i))[id],
    decreases s.len(),
{
    if i == s.len() {
        assert(s.take(i) =~= s);
    } else {
        assert(s.last().id != id);
        assert(forall|j: int| i <= j < s.drop_last().len() ==> s.drop_last()[j] == s[j]);
        lemma_pack_map_tail_blind(s.drop_last(), i, id);
        assert(s.drop_last().take(i) =~= s.take(i));
    }
}

impl PackRegistry {
    /// An empty snapshot.
    pub fn new() -> (registry: PackRegistry)
        ensures
            registry@ == Map::<u128, Pack>::empty(),
            registry.packs@.len() == 0,
    {
        PackRegistry { packs: Vec::new() }
    }

    /// Add a pack to the snapshot; a pack already registered under the same
    /// id is replaced.
    pub fn add(&mut self, pack: Pack)
        ensures
            final(self)@ == old(self)@.insert(pack.id, pack),
    {
        let ghost before = self.packs@;
        let ghost id = pack.id;
        proof {
            assert(before.push(pack).drop_last() =~= before);
        }
        self.packs.push(pack);
    }

    /// Look a pack up by its id.
    pub fn get(&self, id: u128) -> (pack: Option<&Pack>)
        ensures
            match pack {
                Option::Some(p) => self@.contains_key(id) && self@[id] == *p,
                Option::None => !self@.contains_key(id),
            },
    {
        let mut i = self.packs.len();
        while i > 0
            invariant
                i <= self.packs@.len(),
                forall|j: int| i <= j < self.packs@.len() ==> self.packs@[j].id != id,
            decreases i,
        {
            i = i - 1;
            if self.packs[i].id == id {
                proof {
                    lemma_pack_map_tail_blind(self.packs@, i + 1, id);
                    let prefix = self.packs@.take(i + 1);
                    assert(prefix.last() == self.packs@[i as int]);
                    assert(prefix.drop_last() =~= self.packs@.take(i as int));
                    assert(spec_pack_map(prefix) == spec_pack_map(prefix.drop_last()).insert(
                        id,
                        self.packs@[i as int],
                    ));
                }
                return Option::Some(&self.packs[i]);
            }
        }
        proof {
            lemma_pack_map_tail_blind(self.packs@, 0, id);
            assert(self.packs@.take(0) =~= Seq::<Pack>::empty());
        }
        Option::None
    }
}

} // verus!
