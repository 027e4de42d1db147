//! Registry of the pairs a factory deploys: an append-only list of deployed pairs
//! and a mapping from each asset's deployment salt to its pair.
//!
//! Pairs are identified by their position in the deployment list; the contract
//! host keeps the list of pair addresses in the same order.
use vstd::prelude::*;

verus! {

/// Failures of the factory.
#[derive(Clone, Copy, Debug, PartialEq, Eq, Structural)]
pub enum LongShortPairFactoryError {
    ActionPaused,
    AlreadyInitialized,
    PairNotFound,
}

impl LongShortPairFactoryError {
    /// The contract error code of this failure.
    pub fn code(&self) -> (c: u32)
        ensures
            c == match *self {
                LongShortPairFactoryError::ActionPaused => 201u32,
                LongShortPairFactoryError::AlreadyInitialized => 202,
                LongShortPairFactoryError::PairNotFound => 203,
            },
    {
        match self {
            LongShortPairFactoryError::ActionPaused => 201,
            LongShortPairFactoryError::AlreadyInitialized => 202,
            LongShortPairFactoryError::PairNotFound => 203,
        }
    }
}

/// Whether two salts are equal.
pub fn salt_eq(a: &[u8; 32], b: &[u8; 32]) -> (r: bool)
    ensures
        r == (a@ == b@),
{
    let mut i: usize = 0;
    while i < 32
        invariant
            0 <= i <= 32,
            a@.len() == 32,
            b@.len() == 32,
            forall|j: int| 0 <= j < i ==> a@[j] == b@[j],
        decreases 32 - i,
    {
        if a[i] != b[i] {
            return false;
        }
        i = i + 1;
    }
    assert(a@ =~= b@);
    true
}

/// The pair registry of a factory.
pub struct LongShortPairFactory {
    /// While set, no pair can be deployed.
    pub emergency_mode: bool,
    /// Number of pairs deployed so far; pair `i` is the `i`-th deployment.
    pub pair_count: u32,
    /// Salt of each registered asset, with the index of its pair in `pair_index`.
    pub salts: Vec<[u8; 32]>,
    pub pair_index: Vec<u32>,
}

/// The pair registered for `salt` in parallel lists of salts and indexes: the
/// last entry with that salt.
pub open spec fn lookup(salts: Seq<[u8; 32]>, index: Seq<u32>, salt: Seq<u8>) -> Option<u32>
    decreases salts.len(),
{
    if salts.len() == 0 || index.len() == 0 {
        None
    } else if salts.last()@ == salt {
        Some(index.last())
    } else {
        lookup(salts.drop_last(), index.drop_last(), salt)
    }
}

/// Registering `salt` for pair `i` makes `salt` resolve to `i` and leaves every other
/// salt resolving as before.
pub proof fn lemma_registered_salt_found(
    salts: Seq<[u8; 32]>,
    index: Seq<u32>,
    salt: [u8; 32],
    i: u32,
    other: Seq<u8>,
)
    requires
        salts.len() == index.len(),
    ensures
        lookup(salts.push(salt), index.push(i), salt@) == Some(i),
        other != salt@ ==> lookup(salts.push(salt), index.push(i), other) == lookup(salts, index, other),
{
    assert(salts.push(salt).drop_last() == salts);
    assert(index.push(i).drop_last() == index);
}

impl LongShortPairFactory {
    /// The registry is well formed when the two lists run in parallel.
    pub open spec fn wf(&self) -> bool {
        self.salts@.len() == self.pair_index@.len()
    }

    /// The pair registered for `salt`.
    pub open spec fn pair_for(&self, salt: Seq<u8>) -> Option<u32> {
        lookup(self.salts@, self.pair_index@, salt)
    }

    /// An empty registry.
    pub fn new() -> (f: LongShortPairFactory)
        ensures
            f.wf(),
            !f.emergency_mode,
            f.pair_count == 0,
            forall|s: Seq<u8>| f.pair_for(s) is None,
    {
        LongShortPairFactory { emergency_mode: false, pair_count: 0, salts: Vec::new(), pair_index: Vec::new() }
    }

    /// Registers the deployment of a new pair for the asset with salt `salt` and returns
    /// its index. Fails with `ActionPaused` in emergency mode. A new deployment for an
    /// already registered salt replaces the earlier pair in the mapping; the list of
    /// deployed pairs only grows.
    pub fn deploy_pair_contract(&mut self, salt: [u8; 32]) -> (r: Result<u32, LongShortPairFactoryError>)
        requires
            old(self).wf(),
            old(self).pair_count < u32::MAX,
        ensures
            final(self).wf(),
            old(self).emergency_mode ==> r == Err::<u32, LongShortPairFactoryError>(LongShortPairFactoryError::ActionPaused)
                && final(self).pair_count == old(self).pair_count
                && final(self).salts@ == old(self).salts@ && final(self).pair_index@ == old(self).pair_index@,
            !old(self).emergency_mode ==> r == Ok::<u32, LongShortPairFactoryError>(old(self).pair_count)
                && final(self).pair_count == old(self).pair_count + 1
                && final(self).pair_for(salt@) == Some(old(self).pair_count)
                && forall|s: Seq<u8>| s != salt@ ==> final(self).pair_for(s) == old(self).pair_for(s),
            final(self).emergency_mode == old(self).emergency_mode,
    {
        if self.emergency_mode {
            return Err(LongShortPairFactoryError::ActionPaused);
        }
        let index = self.pair_count;
        self.pair_count = self.pair_count + 1;
        let ghost old_salts = self.salts@;
        let ghost old_index = self.pair_index@;
        self.salts.push(salt);
        self.pair_index.push(index);
        proof {
            assert(self.salts@.drop_last() == old_salts);
            assert(self.pair_index@.drop_last() == old_index);
        }
        Ok(index)
    }

    /// The index of the pair deployed for `salt`, or `PairNotFound`.
    pub fn get_pair(&self, salt: &[u8; 32]) -> (r: Result<u32, LongShortPairFactoryError>)
        requires
            self.wf(),
        ensures
            self.pair_for(salt@) matches Some(i) ==> r == Ok::<u32, LongShortPairFactoryError>(i),
            self.pair_for(salt@) is None ==> r == Err::<u32, LongShortPairFactoryError>(
                LongShortPairFactoryError::PairNotFound),
    {
        let mut n = self.salts.len();
        proof {
            assert(self.salts@.take(n as int) =~= self.salts@);
            assert(self.pair_index@.take(n as int) =~= self.pair_index@);
        }
        while n > 0
            invariant
                n <= self.salts@.len(),
                self.wf(),
                self.pair_for(salt@) == lookup(self.salts@.take(n as int), self.pair_index@.take(n as int), salt@),
            decreases n,
        {
            let ghost s = self.salts@.take(n as int);
            let ghost ix = self.pair_index@.take(n as int);
            if salt_eq(&self.salts[n - 1], salt) {
                assert(s.last() == self.salts@[n - 1]);
                return Ok(self.pair_index[n - 1]);
            }
            proof {
                assert(s.drop_last() =~= self.salts@.take(n - 1));
                assert(ix.drop_last() =~= self.pair_index@.take(n - 1));
            }
            n = n - 1;
        }
        Err(LongShortPairFactoryError::PairNotFound)
    }

    /// Number of pairs deployed.
    pub fn get_total_pair_count(&self) -> (r: u32)
        ensures
            r == self.pair_count,
    {
        self.pair_count
    }

    /// Sets or clears emergency mode.
    pub fn set_emergency_mode(&mut self, value: bool)
        ensures
            final(self).emergency_mode == value,
            final(self).pair_count == old(self).pair_count,
            final(self).salts@ == old(self).salts@,
            final(self).pair_index@ == old(self).pair_index@,
    {
        self.emergency_mode = value;
    }
}

} // verus!
