//! Ownership-tagged registry of bounded-length claims.
//!
//! A claim is a byte string no longer than the configured maximum. Each
//! registered claim maps to the account that owns it and the sequence marker
//! (block number) at which it was created or last transferred.
use vstd::prelude::*;

verus! {

/// The authenticated identity of a caller.
pub type AccountId = u64;

/// A host-supplied, monotonically increasing marker such as a block height.
pub type BlockNumber = u64;

/// The abstract contents of a registry: claim bytes to (owner, marker).
pub type ProofMap = Map<Seq<u8>, (AccountId, BlockNumber)>;

/// Reasons for which an operation is rejected. A rejected operation leaves
/// the registry unchanged.
#[derive(Clone, Copy, Debug, PartialEq, Eq, Structural)]
pub enum Error {
    /// The claim is longer than the configured maximum.
    ClaimTooLong,
    /// The claim is already registered.
    ProofAlreadyExists,
    /// The claim is not registered.
    ClaimNotExist,
    /// The caller does not own the claim.
    NotClaimOwner,
}

/// Notifications handed back to the host.
#[derive(Debug, PartialEq, Eq)]
pub enum Event {
    /// A claim was registered by the given account.
    ClaimCreated(AccountId, Vec<u8>),
    /// A claim was revoked by the given account. Part of the notification
    /// vocabulary; `revoke_claim` returns no notification.
    ClaimRevoked(AccountId, Vec<u8>),
}

impl Event {
    /// Holds when this is the creation notification for `who` and `claim`.
    pub open spec fn is_created(&self, who: AccountId, claim: Seq<u8>) -> bool {
        match self {
            Event::ClaimCreated(a, c) => *a == who && c@ == claim,
            _ => false,
        }
    }
}

/// Deployment-time configuration of a registry.
#[derive(Clone, Copy, Debug)]
pub struct Config {
    /// The largest accepted claim length, in bytes; positive.
    pub max_claim_length: u32,
}

/// The result that registering `claim` has against `proofs` under bound `max`.
pub open spec fn register_check(max: nat, proofs: ProofMap, claim: Seq<u8>) -> Result<(), Error> {
    if claim.len() > max {
        Err(Error::ClaimTooLong)
    } else if proofs.contains_key(claim) {
        Err(Error::ProofAlreadyExists)
    } else {
        Ok(())
    }
}

/// The result that revoking or transferring `claim` on behalf of `origin`
/// has against `proofs` under bound `max`.
pub open spec fn owner_check(max: nat, proofs: ProofMap, origin: AccountId, claim: Seq<u8>) -> Result<
    (),
    Error,
> {
    if claim.len() > max {
        Err(Error::ClaimTooLong)
    } else if !proofs.contains_key(claim) {
        Err(Error::ClaimNotExist)
    } else if proofs[claim].0 != origin {
        Err(Error::NotClaimOwner)
    } else {
        Ok(())
    }
}

/// Every key of `proofs` is at most `max` bytes long.
pub open spec fn keys_within(max: nat, proofs: ProofMap) -> bool {
    forall|k: Seq<u8>| #[trigger] proofs.contains_key(k) ==> k.len() <= max
}

/// The registry contents after `origin` registers `claim` at marker `now`.
pub open spec fn after_register(
    max: nat,
    proofs: ProofMap,
    origin: AccountId,
    claim: Seq<u8>,
    now: BlockNumber,
) -> ProofMap {
    if register_check(max, proofs, claim) is Ok {
        proofs.insert(claim, (origin, now))
    } else {
        proofs
    }
}

/// The registry contents after `origin` revokes `claim`.
pub open spec fn after_revoke(max: nat, proofs: ProofMap, origin: AccountId, claim: Seq<u8>) -> ProofMap {
    if owner_check(max, proofs, origin, claim) is Ok {
        proofs.remove(claim)
    } else {
        proofs
    }
}

/// The registry contents after `origin` transfers `claim` to `dest` at
/// marker `now`.
pub open spec fn after_transfer(
    max: nat,
    proofs: ProofMap,
    origin: AccountId,
    claim: Seq<u8>,
    dest: AccountId,
    now: BlockNumber,
) -> ProofMap {
    if owner_check(max, proofs, origin, claim) is Ok {
        proofs.insert(claim, (dest, now))
    } else {
        proofs
    }
}

/// One stored record.
#[derive(Debug)]
struct ProofEntry {
    claim: Vec<u8>,
    owner: AccountId,
    block: BlockNumber,
}

/// The registry: the exclusive owner of all claim records.
#[derive(Debug)]
pub struct Pallet {
    config: Config,
    proofs: Vec<ProofEntry>,
}

spec fn entry_value(e: ProofEntry) -> (AccountId, BlockNumber) {
    (e.owner, e.block)
}

spec fn claims_unique(s: Seq<ProofEntry>) -> bool {
    forall|i: int, j: int|
        0 <= i < s.len() && 0 <= j < s.len() && i != j ==> s[i].claim@ != s[j].claim@
}

spec fn holds_claim(s: Seq<ProofEntry>, k: Seq<u8>, i: int) -> bool {
    0 <= i < s.len() && s[i].claim@ == k
}

/// The map that a sequence of stored records represents.
spec fn map_of(s: Seq<ProofEntry>) -> ProofMap {
    Map::new(
        |k: Seq<u8>| exists|i: int| holds_claim(s, k, i),
        |k: Seq<u8>| entry_value(s[choose|i: int| holds_claim(s, k, i)]),
    )
}

proof fn lemma_map_of_at(s: Seq<ProofEntry>, i: int)
    requires
        claims_unique(s),
        0 <= i < s.len(),
    ensures
        map_of(s).contains_key(s[i].claim@),
        map_of(s)[s[i].claim@] == entry_value(s[i]),
{
    let k = s[i].claim@;
    assert(holds_claim(s, k, i));
    let j = choose|j: int| holds_claim(s, k, j);
    assert(holds_claim(s, k, j));
}

proof fn lemma_map_of_push(s: Seq<ProofEntry>, e: ProofEntry)
    requires
        claims_unique(s),
        !map_of(s).contains_key(e.claim@),
    ensures
        claims_unique(s.push(e)),
        map_of(s.push(e)) == map_of(s).insert(e.claim@, entry_value(e)),
{
    let t = s.push(e);
    assert forall|i: int| 0 <= i < s.len() implies t[i].claim@ != e.claim@ by {
        if t[i].claim@ == e.claim@ {
            assert(holds_claim(s, e.claim@, i));
        }
    }
    assert(claims_unique(t));
    let m = map_of(s).insert(e.claim@, entry_value(e));
    assert forall|k: Seq<u8>| map_of(t).contains_key(k) <==> m.contains_key(k) by {
        if map_of(t).contains_key(k) {
            let i = choose|i: int| holds_claim(t, k, i);
            if i < s.len() {
                assert(holds_claim(s, k, i));
            }
        }
        if map_of(s).contains_key(k) {
            let i = choose|i: int| holds_claim(s, k, i);
            assert(holds_claim(t, k, i));
        }
        if k == e.claim@ {
            assert(holds_claim(t, k, s.len() as int));
        }
    }
    assert forall|k: Seq<u8>| #[trigger] map_of(t).contains_key(k) implies map_of(t)[k] == m[k] by {
        let i = choose|i: int| holds_claim(t, k, i);
        lemma_map_of_at(t, i);
        if i < s.len() {
            lemma_map_of_at(s, i);
        }
    }
    assert(map_of(t) =~= m);
}

proof fn lemma_map_of_remove(s: Seq<ProofEntry>, idx: int)
    requires
        claims_unique(s),
        0 <= idx < s.len(),
    ensures
        claims_unique(s.remove(idx)),
        map_of(s.remove(idx)) == map_of(s).remove(s[idx].claim@),
{
    let t = s.remove(idx);
    let k0 = s[idx].claim@;
    assert forall|j: int| 0 <= j < t.len() implies t[j] == s[if j < idx { j } else { j + 1 }] by {}
    assert(claims_unique(t));
    let m = map_of(s).remove(k0);
    assert forall|k: Seq<u8>| map_of(t).contains_key(k) <==> m.contains_key(k) by {
        if map_of(t).contains_key(k) {
            let j = choose|j: int| holds_claim(t, k, j);
            let i = if j < idx { j } else { j + 1 };
            assert(holds_claim(s, k, i));
        }
        if m.contains_key(k) {
            let i = choose|i: int| holds_claim(s, k, i);
            assert(i != idx);
            let j = if i < idx { i } else { i - 1 };
            assert(holds_claim(t, k, j));
        }
    }
    assert forall|k: Seq<u8>| #[trigger] map_of(t).contains_key(k) implies map_of(t)[k] == m[k] by {
        let j = choose|j: int| holds_claim(t, k, j);
        let i = if j < idx { j } else { j + 1 };
        lemma_map_of_at(t, j);
        lemma_map_of_at(s, i);
    }
    assert(map_of(t) =~= m);
}

proof fn lemma_map_of_update(s: Seq<ProofEntry>, idx: int, e: ProofEntry)
    requires
        claims_unique(s),
        0 <= idx < s.len(),
        e.claim@ == s[idx].claim@,
    ensures
        claims_unique(s.update(idx, e)),
        map_of(s.update(idx, e)) == map_of(s).insert(e.claim@, entry_value(e)),
{
    let t = s.update(idx, e);
    assert(claims_unique(t));
    let m = map_of(s).insert(e.claim@, entry_value(e));
    assert forall|k: Seq<u8>| map_of(t).contains_key(k) <==> m.contains_key(k) by {
        if map_of(t).contains_key(k) {
            let j = choose|j: int| holds_claim(t, k, j);
            assert(holds_claim(s, k, j));
        }
        if map_of(s).contains_key(k) {
            let i = choose|i: int| holds_claim(s, k, i);
            assert(holds_claim(t, k, i));
        }
        if k == e.claim@ {
            assert(holds_claim(t, k, idx));
        }
    }
    assert forall|k: Seq<u8>| #[trigger] map_of(t).contains_key(k) implies map_of(t)[k] == m[k] by {
        let j = choose|j: int| holds_claim(t, k, j);
        lemma_map_of_at(t, j);
        if j != idx {
            lemma_map_of_at(s, j);
        }
    }
    assert(map_of(t) =~= m);
}

impl View for Pallet {
    type V = ProofMap;

    closed spec fn view(&self) -> ProofMap {
        map_of(self.proofs@)
    }
}

impl Pallet {
    /// The configured maximum claim length.
    pub closed spec fn max_len(&self) -> nat {
        self.config.max_claim_length as nat
    }

    /// Well-formedness: a positive bound, unique keys, and every stored claim
    /// within the bound.
    pub closed spec fn wf(&self) -> bool {
        &&& self.config.max_claim_length > 0
        &&& claims_unique(self.proofs@)
        &&& forall|i: int|
            0 <= i < self.proofs@.len() ==> self.proofs@[i].claim@.len()
                <= self.config.max_claim_length
    }

    /// An empty registry with the given configuration.
    pub fn new(config: Config) -> (r: Pallet)
        requires
            config.max_claim_length > 0,
        ensures
            r.wf(),
            r@ == Map::<Seq<u8>, (AccountId, BlockNumber)>::empty(),
            r.max_len() == config.max_claim_length,
    {
        let r = Pallet { config, proofs: Vec::new() };
        assert(r@ =~= Map::<Seq<u8>, (AccountId, BlockNumber)>::empty());
        r
    }

    /// Position of the record for `claim`, if it is registered.
    fn find(&self, claim: &Vec<u8>) -> (r: Option<usize>)
        requires
            self.wf(),
        ensures
            match r {
                Some(i) => {
                    &&& i < self.proofs@.len()
                    &&& self.proofs@[i as int].claim@ == claim@
                    &&& self@.contains_key(claim@)
                    &&& self@[claim@] == entry_value(self.proofs@[i as int])
                },
                None => !self@.contains_key(claim@),
            },
    {
        let mut i: usize = 0;
        while i < self.proofs.len()
            invariant
                self.wf(),
                i <= self.proofs@.len(),
                forall|j: int| 0 <= j < i ==> self.proofs@[j].claim@ != claim@,
            decreases self.proofs@.len() - i,
        {
            if self.proofs[i].claim == *claim {
                proof {
                    lemma_map_of_at(self.proofs@, i as int);
                }
                return Some(i);
            }
            i += 1;
        }
        proof {
            if self@.contains_key(claim@) {
                let j = choose|j: int| holds_claim(self.proofs@, claim@, j);
                assert(self.proofs@[j].claim@ != claim@);
            }
        }
        None
    }

    /// Registers `claim` as owned by `origin`, created at marker `now`, and
    /// returns the creation notification.
    pub fn create_claim(&mut self, origin: AccountId, claim: Vec<u8>, now: BlockNumber) -> (r:
        Result<Event, Error>)
        requires
            old(self).wf(),
        ensures
            final(self).wf(),
            final(self).max_len() == old(self).max_len(),
            final(self)@ == after_register(old(self).max_len(), old(self)@, origin, claim@, now),
            match r {
                Ok(e) => register_check(old(self).max_len(), old(self)@, claim@) is Ok && e.is_created(
                    origin,
                    claim@,
                ),
                Err(e) => register_check(old(self).max_len(), old(self)@, claim@) == Err::<(), Error>(e),
            },
    {
        if claim.len() > self.config.max_claim_length as usize {
            return Err(Error::ClaimTooLong);
        }
        if self.find(&claim).is_some() {
            return Err(Error::ProofAlreadyExists);
        }
        let entry = ProofEntry { claim: claim.clone(), owner: origin, block: now };
        proof {
            lemma_map_of_push(self.proofs@, entry);
        }
        self.proofs.push(entry);
        Ok(Event::ClaimCreated(origin, claim))
    }

    /// Position of the record for `claim` when `origin` may revoke or
    /// transfer it.
    fn owned_index(&self, origin: AccountId, claim: &Vec<u8>) -> (r: Result<usize, Error>)
        requires
            self.wf(),
        ensures
            match r {
                Ok(i) => {
                    &&& owner_check(self.max_len(), self@, origin, claim@) is Ok
                    &&& i < self.proofs@.len()
                    &&& self.proofs@[i as int].claim@ == claim@
                },
                Err(e) => owner_check(self.max_len(), self@, origin, claim@) == Err::<(), Error>(e),
            },
    {
        if claim.len() > self.config.max_claim_length as usize {
            return Err(Error::ClaimTooLong);
        }
        match self.find(claim) {
            None => Err(Error::ClaimNotExist),
            Some(i) => {
                if self.proofs[i].owner != origin {
                    Err(Error::NotClaimOwner)
                } else {
                    Ok(i)
                }
            },
        }
    }

    /// Removes the record for `claim`, which `origin` must own.
    pub fn revoke_claim(&mut self, origin: AccountId, claim: Vec<u8>) -> (r: Result<(), Error>)
        requires
            old(self).wf(),
        ensures
            final(self).wf(),
            final(self).max_len() == old(self).max_len(),
            final(self)@ == after_revoke(old(self).max_len(), old(self)@, origin, claim@),
            r == owner_check(old(self).max_len(), old(self)@, origin, claim@),
    {
        let i = match self.owned_index(origin, &claim) {
            Ok(i) => i,
            Err(e) => return Err(e),
        };
        proof {
            lemma_map_of_remove(self.proofs@, i as int);
        }
        self.proofs.remove(i);
        Ok(())
    }

    /// Hands the record for `claim`, which `origin` must own, over to `dest`,
    /// stamped with marker `now`.
    pub fn transfer_claim(
        &mut self,
        origin: AccountId,
        claim: Vec<u8>,
        dest: AccountId,
        now: BlockNumber,
    ) -> (r: Result<(), Error>)
        requires
            old(self).wf(),
        ensures
            final(self).wf(),
            final(self).max_len() == old(self).max_len(),
            final(self)@ == after_transfer(old(self).max_len(), old(self)@, origin, claim@, dest, now),
            r == owner_check(old(self).max_len(), old(self)@, origin, claim@),
    {
        let i = match self.owned_index(origin, &claim) {
            Ok(i) => i,
            Err(e) => return Err(e),
        };
        let entry = ProofEntry { claim, owner: dest, block: now };
        proof {
            lemma_map_of_update(self.proofs@, i as int, entry);
        }
        self.proofs.set(i, entry);
        Ok(())
    }

    /// The configured maximum claim length.
    pub fn max_claim_length(&self) -> (r: u32)
        ensures
            r as nat == self.max_len(),
    {
        self.config.max_claim_length
    }

    /// Whether `claim` is registered.
    pub fn contains_claim(&self, claim: &Vec<u8>) -> (r: bool)
        requires
            self.wf(),
        ensures
            r == self@.contains_key(claim@),
    {
        self.find(claim).is_some()
    }

    /// The owner and marker recorded for `claim`, if it is registered.
    pub fn get(&self, claim: &Vec<u8>) -> (r: Option<(AccountId, BlockNumber)>)
        requires
            self.wf(),
        ensures
            r == (if self@.contains_key(claim@) {
                Some(self@[claim@])
            } else {
                None
            }),
    {
        match self.find(claim) {
            Some(i) => Some((self.proofs[i].owner, self.proofs[i].block)),
            None => None,
        }
    }

    /// Every registered claim is within the configured bound, and the bound
    /// is positive.
    pub proof fn lemma_keys_within(&self)
        requires
            self.wf(),
        ensures
            keys_within(self.max_len(), self@),
            self.max_len() > 0,
    {
        assert forall|k: Seq<u8>| #[trigger] self@.contains_key(k) implies k.len() <= self.max_len() by {
            let i = choose|i: int| holds_claim(self.proofs@, k, i);
        }
    }
}

} // verus!
