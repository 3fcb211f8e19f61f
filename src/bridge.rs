//! Registration tokens of the notification bridge. Every registration of a
//! callback, structural or per endpoint, is given a token that the matching
//! unregistration names; tokens are issued in increasing order, so no two
//! registrations share one.
use vstd::prelude::*;

verus! {

/// Issues registration tokens.
pub struct TokenIssuer {
    next: u64,
}

impl View for TokenIssuer {
    type V = u64;

    /// The next token to be issued; every token issued so far is smaller.
    closed spec fn view(&self) -> u64 {
        self.next
    }
}

impl TokenIssuer {
    /// An issuer that has issued nothing.
    pub fn new() -> (r: TokenIssuer)
        ensures
            r@ == 0,
    {
        TokenIssuer { next: 0 }
    }

    /// A fresh token, greater than every token issued before; `None` once
    /// the tokens are exhausted.
    pub fn issue(&mut self) -> (r: Option<u64>)
        ensures
            old(self)@ < u64::MAX ==> r == Some(old(self)@) && final(self)@ == old(self)@ + 1,
            old(self)@ == u64::MAX ==> r.is_none() && final(self)@ == old(self)@,
    {
        if self.next < u64::MAX {
            let t = self.next;
            self.next = self.next + 1;
            Some(t)
        } else {
            None
        }
    }
}

} // verus!
