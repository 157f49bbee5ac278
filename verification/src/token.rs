//! Tokens: the identifiers under which readiness interests are registered.

use vstd::prelude::*;

verus! {

/// The token reserved for the listening socket.
pub const LISTENER_TOKEN: usize = 0;

/// The first token handed to a client registration.
pub const FIRST_CLIENT_TOKEN: usize = 10000;

/// Identifies one outstanding readiness registration.
#[derive(Clone, Copy, Debug, PartialEq, Eq, Hash, Structural)]
pub struct Token(pub usize);

impl Token {
    /// The listener's token.
    pub fn listener() -> (t: Token)
        ensures
            t == Token(LISTENER_TOKEN),
    {
        Token(LISTENER_TOKEN)
    }

    /// Whether this is the listener's token.
    pub fn is_listener(&self) -> (b: bool)
        ensures
            b == (self.0 == LISTENER_TOKEN),
    {
        self.0 == LISTENER_TOKEN
    }
}

/// Issues client tokens in increasing order and never takes one back.
///
/// The counter does not wrap: once every value below `usize::MAX` has been
/// issued the allocator is exhausted and says so.
#[derive(Clone, Copy, Debug, PartialEq, Eq, Structural)]
pub struct TokenAllocator {
    next: usize,
}

impl TokenAllocator {
    /// The value of the token that the next call of `next_token` issues.
    pub closed spec fn next(self) -> usize {
        self.next
    }

    /// Every token issued so far lies in `FIRST_CLIENT_TOKEN..self.next()`.
    /// This holds of every allocator there is.
    #[verifier::type_invariant]
    pub open spec fn wf(self) -> bool {
        self.next() >= FIRST_CLIENT_TOKEN
    }

    /// No token is left to issue.
    pub open spec fn exhausted(self) -> bool {
        self.next() == usize::MAX
    }

    /// An allocator that has issued nothing yet.
    pub fn new() -> (a: TokenAllocator)
        ensures
            a.next() == FIRST_CLIENT_TOKEN,
    {
        TokenAllocator { next: FIRST_CLIENT_TOKEN }
    }

    /// An allocator whose next token is `first`, where that is a client
    /// token; `None` where it is not.
    pub fn starting_at(first: usize) -> (a: Option<TokenAllocator>)
        ensures
            first < FIRST_CLIENT_TOKEN ==> a.is_none(),
            first >= FIRST_CLIENT_TOKEN ==> a.is_some() && a.unwrap().next() == first,
    {
        if first < FIRST_CLIENT_TOKEN {
            None
        } else {
            Some(TokenAllocator { next: first })
        }
    }

    /// The value of the token that `next_token` issues next.
    pub fn peek(&self) -> (next: usize)
        ensures
            next == self.next(),
    {
        self.next
    }

    /// Whether no token is left to issue.
    pub fn is_exhausted(&self) -> (b: bool)
        ensures
            b == self.exhausted(),
    {
        self.next == usize::MAX
    }

    /// Issues the next token, or `None` once the allocator is exhausted.
    ///
    /// An issued token differs from the listener's and from every token
    /// issued before it, all of which are smaller.
    pub fn next_token(&mut self) -> (issued: Option<Token>)
        ensures
            old(self).exhausted() ==> issued.is_none() && *final(self) == *old(self),
            !old(self).exhausted() ==> issued == Some(Token(old(self).next()))
                && final(self).next() == old(self).next() + 1,
            issued matches Some(token) ==> LISTENER_TOKEN < FIRST_CLIENT_TOKEN <= token.0
                < final(self).next(),
    {
        proof {
            use_type_invariant(&*self);
        }
        if self.next == usize::MAX {
            None
        } else {
            let token = Token(self.next);
            self.next = self.next + 1;
            Some(token)
        }
    }
}

} // verus!
