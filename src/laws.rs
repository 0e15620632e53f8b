//! Properties that relate several operations, or several calls of one.
use vstd::prelude::*;

use crate::contract::{locked, Contract};
use crate::deploy::instantiate2_of;
use crate::order::{lemma_lex_asymmetric, lemma_lex_irreflexive, lex_lt};
use crate::state::{key_of, page_of, page_start, sorted, lemma_page_start, Share};

verus! {

/// Locking twice ends in the state that locking once reaches, and whoever
/// could lock the first time can lock again, so the second call succeeds.
pub proof fn lemma_lock_idempotent(c: Contract, sender: String)
    ensures
        locked(locked(c)) == locked(c),
        !locked(c).config.mutable,
        locked(c).is_admin(sender) == c.is_admin(sender),
        locked(c).shares == c.shares,
{
}

/// Two pages of two, the second starting after the last share of the first,
/// cover the first four shares in ascending order, with no share twice and
/// none left out.
pub proof fn lemma_pages_continue(s: Seq<Share>)
    requires
        sorted(s),
        s.len() >= 4,
    ensures
        ({
            let first = page_of(s, 0, 2);
            let second = page_of(s, page_start(s, key_of(first.last().recipient)), 2);
            first + second == s.subrange(0, 4)
        }),
{
    let first = page_of(s, 0, 2);
    assert(first == s.subrange(0, 2));
    let c = key_of(s[1].recipient);
    lemma_lex_irreflexive(c);
    lemma_lex_asymmetric(key_of(s[0].recipient), c);
    assert(lex_lt(key_of(s[0].recipient), key_of(s[1].recipient)));
    lemma_page_start(s, c, 2);
    assert(first + page_of(s, 2, 2) =~= s.subrange(0, 4));
}

/// Deriving a child's address is a function of the checksum, the creator and
/// the salt: the same three give the same address.
pub proof fn lemma_child_address_deterministic(
    checksum: Seq<u8>,
    creator: Seq<u8>,
    salt: Seq<u8>,
    checksum2: Seq<u8>,
    creator2: Seq<u8>,
    salt2: Seq<u8>,
)
    requires
        checksum == checksum2,
        creator == creator2,
        salt == salt2,
    ensures
        instantiate2_of(checksum, creator, salt) == instantiate2_of(checksum2, creator2, salt2),
{
}

} // verus!
