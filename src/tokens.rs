use vstd::prelude::*;
use std::collections::HashMap;
use crate::error::AppError;
use crate::key::Key;

verus! {

broadcast use vstd::std_specs::hash::group_hash_axioms;

/// How long a view token stays usable, in seconds.
pub const TOKEN_TTL_SECS: u64 = 3600;

/// The expiration of a token issued at `now` (saturating at the largest time).
pub open spec fn expiry_of(now: u64) -> u64 {
    if now > u64::MAX - TOKEN_TTL_SECS {
        u64::MAX
    } else {
        (now + TOKEN_TTL_SECS) as u64
    }
}

/// A token is usable at `now` when it is known and `now` is before its expiration.
pub open spec fn token_usable(m: Map<u128, (Key, u64)>, token: u128, now: u64) -> bool {
    m.contains_key(token) && now < m[token].1
}

/// The store after redeeming `token` at `now`: a usable token stays, an
/// expired one is dropped, an unknown one changes nothing.
pub open spec fn after_redeem(m: Map<u128, (Key, u64)>, token: u128, now: u64) -> Map<
    u128,
    (Key, u64),
> {
    if token_usable(m, token, now) {
        m
    } else {
        m.remove(token)
    }
}

/// The message of every refused token, known or not, expired or not.
pub open spec fn refused_token_message() -> Seq<char> {
    "Invalid or expired token"@
}

/// View tokens: token value to (seed identity of the record, expiration in
/// epoch seconds). A token may be used any number of times until it expires.
pub struct TokenStore {
    tokens: HashMap<u128, (Key, u64)>,
}

impl TokenStore {
    pub closed spec fn view(&self) -> Map<u128, (Key, u64)> {
        self.tokens@
    }

    pub fn new() -> (r: TokenStore)
        ensures
            r@ == Map::<u128, (Key, u64)>::empty(),
    {
        TokenStore { tokens: HashMap::new() }
    }

    /// Records `token` for the record of `seed`, expiring one TTL after `now`.
    pub fn issue(&mut self, token: u128, seed: Key, now: u64) -> (expiration: u64)
        ensures
            expiration == expiry_of(now),
            final(self)@ == old(self)@.insert(token, (seed, expiration)),
    {
        let expiration: u64 = if now > u64::MAX - TOKEN_TTL_SECS {
            u64::MAX
        } else {
            now + TOKEN_TTL_SECS
        };
        self.tokens.insert(token, (seed, expiration));
        expiration
    }

    /// Redeems `token` at `now`: the record's seed while the token is usable;
    /// Unauthorized, with one message for unknown and expired tokens alike,
    /// otherwise. An expired token is dropped.
    pub fn redeem(&mut self, token: u128, now: u64) -> (r: Result<Key, AppError>)
        ensures
            r is Ok <==> token_usable(old(self)@, token, now),
            r matches Ok(seed) ==> seed == old(self)@[token].0,
            r matches Err(e) ==> (e matches AppError::Unauthorized(m) && m@
                == refused_token_message()),
            final(self)@ == after_redeem(old(self)@, token, now),
    {
        let found = match self.tokens.get(&token) {
            Some(entry) => Some(*entry),
            None => None,
        };
        match found {
            Some((seed, expiration)) => {
                if now < expiration {
                    Ok(seed)
                } else {
                    self.tokens.remove(&token);
                    Err(AppError::Unauthorized("Invalid or expired token".to_owned()))
                }
            },
            None => {
                assert(old(self)@.remove(token) =~= old(self)@);
                Err(AppError::Unauthorized("Invalid or expired token".to_owned()))
            },
        }
    }
}

/// A usable token stays usable, and the store unchanged, when it is redeemed,
/// up to its expiration; from the expiration on it is refused.
pub proof fn law_token_reusable_until_expiry(
    m: Map<u128, (Key, u64)>,
    token: u128,
    first: u64,
    later: u64,
)
    requires
        token_usable(m, token, first),
    ensures
        after_redeem(m, token, first) == m,
        later < m[token].1 ==> token_usable(after_redeem(m, token, first), token, later),
        later >= m[token].1 ==> !token_usable(after_redeem(m, token, first), token, later),
{
}

/// A token issued at `now` is usable exactly before one TTL has passed.
pub proof fn law_issued_token_lifetime(
    m: Map<u128, (Key, u64)>,
    token: u128,
    seed: Key,
    now: u64,
    at: u64,
)
    ensures
        token_usable(m.insert(token, (seed, expiry_of(now))), token, at) <==> at < expiry_of(now),
{
}

} // verus!
