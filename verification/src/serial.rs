//! Serial numbers, by which a process tells its renders apart.

use vstd::prelude::*;

verus! {

/// The serial number that is handed out after `n` others. They begin anew once all have been used.
pub open spec fn serial(n: nat) -> u64 {
    (n % 0x1_0000_0000_0000_0000) as u64
}

/// Hands out serial numbers.
pub struct Serials {
    next: u64,
    taken: Ghost<nat>,
}

impl View for Serials {
    type V = nat;

    /// How many have been handed out.
    closed spec fn view(&self) -> nat {
        self.taken@
    }
}

impl Serials {
    #[verifier::type_invariant]
    spec fn counts(self) -> bool {
        self.next == serial(self.taken@)
    }

    /// None handed out.
    pub fn new() -> (r: Serials)
        ensures
            r@ == 0,
    {
        Serials { next: 0, taken: Ghost(0) }
    }

    /// The next serial number.
    pub fn take(&mut self) -> (r: u64)
        ensures
            r == serial(old(self)@),
            final(self)@ == old(self)@ + 1,
    {
        proof {
            use_type_invariant(&*self);
        }
        let r: u64 = self.next;
        let next: u64 = if r == u64::MAX {
            0
        } else {
            r + 1
        };
        *self = Serials { next: next, taken: Ghost((self.taken@ + 1) as nat) };
        r
    }
}

/// A serial number is not handed out again before all others have been.
pub proof fn serials_are_new(m: nat, n: nat)
    requires
        m < n < m + 0x1_0000_0000_0000_0000,
    ensures
        serial(m) != serial(n),
{
}

/// The serial numbers count up from zero.
pub proof fn serials_count_up(n: nat)
    requires
        n < 0x1_0000_0000_0000_0000,
    ensures
        serial(n) == n,
        serial(n + 0x1_0000_0000_0000_0000) == n,
{
}

} // verus!
