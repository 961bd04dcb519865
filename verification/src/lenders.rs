//! The registered lenders.
use crate::principal::same_principal;
use crate::records::{LenderInfo, LenderView};
use candid::Principal;
use vstd::prelude::*;

verus! {

/// A map from principals to lender records.
///
/// The entries stand in the order of first insertion, `keys` and `infos` in
/// parallel.
#[derive(Debug)]
pub struct Lenders {
    keys: Vec<Principal>,
    infos: Vec<LenderInfo>,
}

impl View for Lenders {
    type V = Map<Principal, LenderView>;

    closed spec fn view(&self) -> Map<Principal, LenderView> {
        Map::new(
            |p: Principal| self.keys@.contains(p),
            |p: Principal| self.infos@[self.keys@.index_of(p)]@,
        )
    }
}

impl Lenders {
    #[verifier::type_invariant]
    spec fn well_formed(self) -> bool {
        &&& self.keys@.no_duplicates()
        &&& self.keys@.len() == self.infos@.len()
    }

    /// The order in which the entries are walked.
    pub closed spec fn order(self) -> Seq<Principal> {
        self.keys@
    }

    /// A map without entries.
    pub fn new() -> (lenders: Self)
        ensures
            lenders@ == Map::<Principal, LenderView>::empty(),
    {
        let lenders = Lenders { keys: Vec::new(), infos: Vec::new() };
        assert(lenders@ =~= Map::<Principal, LenderView>::empty());
        lenders
    }

    /// Where the entry of `principal` stands.
    fn position(&self, principal: &Principal) -> (at: Option<usize>)
        ensures
            match at {
                Some(i) => i < self.keys@.len() && self.keys@[i as int] == *principal,
                None => !self.keys@.contains(*principal),
            },
    {
        let mut i: usize = 0;
        while i < self.keys.len()
            invariant
                i <= self.keys@.len(),
                forall|j: int| 0 <= j < i ==> self.keys@[j] != *principal,
            decreases self.keys@.len() - i,
        {
            if same_principal(&self.keys[i], principal) {
                return Some(i);
            }
            i += 1;
        }
        None
    }

    /// The record of `principal`.
    pub fn get(&self, principal: &Principal) -> (info: Option<&LenderInfo>)
        ensures
            match info {
                Some(info) => self@.contains_key(*principal) && info@ == self@[*principal],
                None => !self@.contains_key(*principal),
            },
    {
        proof {
            use_type_invariant(self);
        }
        match self.position(principal) {
            Some(i) => Some(&self.infos[i]),
            None => None,
        }
    }

    /// The record of `principal`, to be changed in place.
    pub fn get_mut(&mut self, principal: &Principal) -> (info: Option<&mut LenderInfo>)
        ensures
            match info {
                Some(info) => {
                    &&& old(self)@.contains_key(*principal)
                    &&& info@ == old(self)@[*principal]
                    &&& final(self)@ == old(self)@.insert(*principal, (*final(info))@)
                },
                None => !old(self)@.contains_key(*principal) && final(self)@ == old(self)@,
            },
    {
        proof {
            use_type_invariant(&*self);
        }
        match self.position(principal) {
            Some(i) => Some(&mut self.infos[i]),
            None => None,
        }
    }

    /// Gives `principal` a record, in place of the one it may have.
    pub fn insert(&mut self, principal: Principal, info: LenderInfo)
        ensures
            final(self)@ == old(self)@.insert(principal, info@),
    {
        if let Some(present) = self.get_mut(&principal) {
            *present = info;
            return;
        }
        let mut taken = Lenders::new();
        std::mem::swap(self, &mut taken);
        proof {
            use_type_invariant(&taken);
        }
        let Lenders { mut keys, mut infos } = taken;
        let ghost known = keys@;
        keys.push(principal);
        infos.push(info);
        *self = Lenders { keys, infos };
        proof {
            assert(self.keys@[known.len() as int] == principal);
            assert forall|p: Principal| known.contains(p) implies {
                &&& self.keys@.contains(p)
                &&& self.keys@.index_of(p) == known.index_of(p)
            } by {
                let i = known.index_of(p);
                assert(self.keys@[i] == p);
            }
            assert(self@ =~= old(self)@.insert(principal, info@));
        }
    }

    /// The number of entries.
    pub fn len(&self) -> (len: usize)
        ensures
            len == self.order().len(),
            crate::model::is_listing(self.order(), self@.dom()),
    {
        proof {
            use_type_invariant(self);
            assert(self.order().to_set() =~= self@.dom());
        }
        self.keys.len()
    }

    /// The entry at a place of the walking order.
    pub fn entry(&self, i: usize) -> (entry: (&Principal, &LenderInfo))
        requires
            i < self.order().len(),
        ensures
            *entry.0 == self.order()[i as int],
            self@.contains_key(*entry.0),
            entry.1@ == self@[*entry.0],
    {
        proof {
            use_type_invariant(self);
        }
        (&self.keys[i], &self.infos[i])
    }
}

} // verus!
