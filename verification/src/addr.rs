//! Envelope addresses. An address keeps its original spelling, its ASCII
//! lower-cased form and the domain part of the latter; two addresses are the
//! same recipient exactly when their lower-cased forms agree.

use vstd::prelude::*;

use crate::text::{domain_of, domain_part, lower_bytes, to_lower};

verus! {

pub struct SessionAddress {
    pub address: Vec<u8>,
    pub address_lcase: Vec<u8>,
    pub domain: Vec<u8>,
    pub flags: u64,
    pub dsn_info: Option<Vec<u8>>,
}

impl SessionAddress {
    /// The lower-cased form and the domain are derived from the original.
    pub open spec fn wf(self) -> bool {
        &&& self.address_lcase@ == lower_bytes(self.address@)
        &&& self.domain@ == domain_of(self.address_lcase@)
    }

    pub fn new(address: Vec<u8>, flags: u64, dsn_info: Option<Vec<u8>>) -> (r: SessionAddress)
        ensures
            r.wf(),
            r.address@ == address@,
            r.flags == flags,
            r.dsn_info == dsn_info,
    {
        let address_lcase = to_lower(&address);
        let domain = domain_part(&address_lcase);
        SessionAddress { address, address_lcase, domain, flags, dsn_info }
    }

    /// Replaces the spelling of the address, deriving the lower-cased form
    /// and domain anew; flags and DSN information stay.
    pub fn rewrite(&mut self, address: Vec<u8>)
        ensures
            final(self).wf(),
            final(self).address@ == address@,
            final(self).flags == old(self).flags,
            final(self).dsn_info == old(self).dsn_info,
    {
        self.address_lcase = to_lower(&address);
        self.domain = domain_part(&self.address_lcase);
        self.address = address;
    }
}

/// No two entries name the same recipient under lower-cased equality.
pub open spec fn no_dup_rcpts(s: Seq<SessionAddress>) -> bool {
    forall|i: int, j: int|
        0 <= i < j < s.len() ==> s[i].address_lcase@ != s[j].address_lcase@
}

/// True when some entry already names this lower-cased address.
pub open spec fn has_rcpt(s: Seq<SessionAddress>, lcase: Seq<u8>) -> bool {
    exists|i: int| 0 <= i < s.len() && s[i].address_lcase@ == lcase
}

/// Looks a recipient up by its lower-cased address.
pub fn contains_rcpt(rcpts: &Vec<SessionAddress>, lcase: &Vec<u8>) -> (r: bool)
    ensures
        r == has_rcpt(rcpts@, lcase@),
{
    let mut i: usize = 0;
    while i < rcpts.len()
        invariant
            i <= rcpts@.len(),
            forall|j: int| 0 <= j < i ==> rcpts@[j].address_lcase@ != lcase@,
        decreases rcpts@.len() - i,
    {
        if crate::text::bytes_eq(&rcpts[i].address_lcase, lcase.as_slice()) {
            assert(rcpts@[i as int].address_lcase@ == lcase@);
            return true;
        }
        i = i + 1;
    }
    false
}

/// Looks a recipient up by its lower-cased address among the first `n`
/// entries only.
pub fn contains_rcpt_prefix(rcpts: &Vec<SessionAddress>, lcase: &Vec<u8>, n: usize) -> (r: bool)
    requires
        n <= rcpts@.len(),
    ensures
        r == has_rcpt(rcpts@.subrange(0, n as int), lcase@),
{
    let mut i: usize = 0;
    while i < n
        invariant
            i <= n <= rcpts@.len(),
            forall|j: int| 0 <= j < i ==> rcpts@[j].address_lcase@ != lcase@,
        decreases n - i,
    {
        if crate::text::bytes_eq(&rcpts[i].address_lcase, lcase.as_slice()) {
            assert(rcpts@.subrange(0, n as int)[i as int].address_lcase@ == lcase@);
            return true;
        }
        i = i + 1;
    }
    assert forall|j: int| 0 <= j < n implies rcpts@.subrange(0, n as int)[j].address_lcase@
        != lcase@ by {}
    false
}

} // verus!
