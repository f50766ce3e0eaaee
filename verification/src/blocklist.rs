//! The blocklist store: a bounded set of banned source addresses.

use std::collections::HashSet;
use vstd::prelude::*;
use crate::verdict::GuardError;

verus! {

/// The most addresses a blocklist holds.
pub const BLOCKLIST_CAPACITY: usize = 1024;

/// What `Blocklist::insert` leaves in a blocklist that held `banned`.
pub open spec fn spec_insert(banned: Set<u32>, addr: u32) -> Set<u32> {
    if banned.contains(addr) || banned.len() < BLOCKLIST_CAPACITY {
        banned.insert(addr)
    } else {
        banned
    }
}

/// What `Blocklist::insert` answers on a blocklist that held `banned`.
pub open spec fn spec_insert_result(banned: Set<u32>, addr: u32) -> Result<(), GuardError> {
    if banned.contains(addr) || banned.len() < BLOCKLIST_CAPACITY {
        Ok(())
    } else {
        Err(GuardError::TableFull)
    }
}

/// What `Blocklist::seed` leaves in a blocklist that held `banned`: the
/// addresses are inserted in order, up to the first that is refused.
pub open spec fn spec_seed(banned: Set<u32>, addrs: Seq<u32>) -> Set<u32>
    decreases addrs.len(),
{
    if addrs.len() == 0 || spec_insert_result(banned, addrs[0]) is Err {
        banned
    } else {
        spec_seed(spec_insert(banned, addrs[0]), addrs.drop_first())
    }
}

/// What `Blocklist::seed` answers on a blocklist that held `banned`:
/// `TableFull` if one of the addresses is refused.
pub open spec fn spec_seed_result(banned: Set<u32>, addrs: Seq<u32>) -> Result<(), GuardError>
    decreases addrs.len(),
{
    if addrs.len() == 0 {
        Ok(())
    } else if spec_insert_result(banned, addrs[0]) is Err {
        Err(GuardError::TableFull)
    } else {
        spec_seed_result(spec_insert(banned, addrs[0]), addrs.drop_first())
    }
}

/// The address that is banned at every startup: 8.8.8.8.
pub const DEFAULT_BLOCKED: u32 = 0x0808_0808;

/// The addresses to ban at startup: the one the operator asked for, if any,
/// then `DEFAULT_BLOCKED`.
pub open spec fn spec_startup_addresses(block: Option<u32>) -> Seq<u32> {
    match block {
        Some(addr) => seq![addr, DEFAULT_BLOCKED],
        None => seq![DEFAULT_BLOCKED],
    }
}

/// The addresses to ban at startup: the one the operator asked for, if any,
/// then `DEFAULT_BLOCKED`.
pub fn startup_addresses(block: Option<u32>) -> (addrs: Vec<u32>)
    ensures
        addrs@ == spec_startup_addresses(block),
{
    let mut addrs: Vec<u32> = Vec::new();
    if let Some(addr) = block {
        addrs.push(addr);
    }
    addrs.push(DEFAULT_BLOCKED);
    addrs
}

/// The banned source addresses, at most `BLOCKLIST_CAPACITY` of them.
pub struct Blocklist {
    entries: HashSet<u32>,
}

impl Blocklist {
    #[verifier::type_invariant]
    spec fn within_capacity(self) -> bool {
        self.entries@.finite() && self.entries@.len() <= BLOCKLIST_CAPACITY
    }

    /// The set of banned addresses.
    pub closed spec fn view(&self) -> Set<u32> {
        self.entries@
    }

    /// An empty blocklist.
    pub fn new() -> (blocklist: Self)
        ensures
            blocklist@ == Set::<u32>::empty(),
    {
        Blocklist { entries: HashSet::new() }
    }

    /// The number of banned addresses.
    pub fn len(&self) -> (count: usize)
        ensures
            self@.finite(),
            count == self@.len(),
            count <= BLOCKLIST_CAPACITY,
    {
        proof {
            use_type_invariant(self);
        }
        self.entries.len()
    }

    /// Whether `addr` is banned.
    pub fn contains(&self, addr: u32) -> (banned: bool)
        ensures
            banned == self@.contains(addr),
    {
        self.entries.contains(&addr)
    }

    /// Bans `addr`. An address that is already banned stays banned and the
    /// call succeeds; a new address is refused once the blocklist is full.
    pub fn insert(&mut self, addr: u32) -> (result: Result<(), GuardError>)
        ensures
            final(self)@ == spec_insert(old(self)@, addr),
            result == spec_insert_result(old(self)@, addr),
    {
        proof {
            use_type_invariant(&*self);
        }
        if self.entries.contains(&addr) {
            assert(self.entries@.insert(addr) =~= self.entries@);
            return Ok(());
        }
        if self.entries.len() >= BLOCKLIST_CAPACITY {
            return Err(GuardError::TableFull);
        }
        let mut entries = HashSet::new();
        std::mem::swap(&mut entries, &mut self.entries);
        entries.insert(addr);
        self.entries = entries;
        Ok(())
    }

    /// Bans the addresses of `addrs` in order and stops at the first that is
    /// refused; those before it stay banned.
    pub fn seed(&mut self, addrs: &[u32]) -> (result: Result<(), GuardError>)
        ensures
            final(self)@ == spec_seed(old(self)@, addrs@),
            result == spec_seed_result(old(self)@, addrs@),
    {
        let mut next: usize = 0;
        proof {
            assert(addrs@.skip(0) == addrs@);
        }
        while next < addrs.len()
            invariant
                next <= addrs@.len(),
                spec_seed(self@, addrs@.skip(next as int)) == spec_seed(old(self)@, addrs@),
                spec_seed_result(self@, addrs@.skip(next as int)) == spec_seed_result(
                    old(self)@,
                    addrs@,
                ),
            decreases addrs@.len() - next,
        {
            proof {
                assert(addrs@.skip(next as int).drop_first() == addrs@.skip(next + 1));
            }
            match self.insert(addrs[next]) {
                Ok(()) => {},
                Err(error) => {
                    return Err(error);
                },
            }
            next = next + 1;
        }
        Ok(())
    }
}

} // verus!
