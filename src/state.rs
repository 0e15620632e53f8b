//! The contract's state: its configuration and the ledger of shares.
use vstd::prelude::*;
use vstd::string::StringSliceAdditionalSpecFns;
use vstd::utf8::encode_utf8;

use crate::error::ContractError;
use crate::order::{compare_bytes, lemma_lex_total, lemma_lex_transitive, lex_lt};

verus! {

/// One whole percent-of-everything, in the fixed-point units of a share's
/// percentage (eighteen decimal places).
pub const PERCENT_ONE: u128 = 1_000_000_000_000_000_000;

/// Who may change the contract, and whether it may still be changed.
#[derive(Debug, PartialEq, Eq)]
pub struct Config {
    pub admin: String,
    pub mutable: bool,
}

/// A payee and its fraction of every distribution, in units of `PERCENT_ONE`.
#[derive(Debug, PartialEq, Eq)]
pub struct Share {
    pub recipient: String,
    pub percentage: u128,
}

/// A proposed share: `recipient` holds the validated form of the address, or
/// `None` where the host refused it.
#[derive(Debug, PartialEq, Eq)]
pub struct ShareInput {
    pub recipient: Option<String>,
    pub percentage: u128,
}

impl Config {
    pub fn duplicate(&self) -> (r: Config)
        ensures
            r == *self,
    {
        Config { admin: self.admin.clone(), mutable: self.mutable }
    }
}

impl Share {
    pub fn duplicate(&self) -> (r: Share)
        ensures
            r == *self,
    {
        Share { recipient: self.recipient.clone(), percentage: self.percentage }
    }
}

/// The bytes by which the ledger keys and orders a recipient.
pub open spec fn key_of(s: String) -> Seq<u8> {
    encode_utf8(s@)
}

/// The key bytes of an address.
pub fn key_bytes(s: &String) -> (r: &[u8])
    ensures
        r@ == key_of(*s),
{
    let t: &str = s.as_str();
    let b: &[u8] = t.as_bytes();
    proof {
        assert(t@ == s@);
        assert(b@ == t.spec_bytes());
    }
    b
}

/// Recipients stand in strictly ascending key order, so each appears once.
pub open spec fn sorted(s: Seq<Share>) -> bool {
    forall|i: int, j: int|
        0 <= i < j < s.len() ==> lex_lt(key_of(#[trigger] s[i].recipient), key_of(
            #[trigger] s[j].recipient,
        ))
}

/// Sum of the percentages of a sequence of shares.
pub open spec fn total(s: Seq<Share>) -> nat
    decreases s.len(),
{
    if s.len() == 0 {
        0
    } else {
        total(s.drop_last()) + s.last().percentage as nat
    }
}

/// Sum of the percentages that a sequence of shares gives to key `k`.
pub open spec fn weight(s: Seq<Share>, k: Seq<u8>) -> nat
    decreases s.len(),
{
    if s.len() == 0 {
        0
    } else {
        weight(s.drop_last(), k) + if key_of(s.last().recipient) == k {
            s.last().percentage as nat
        } else {
            0
        }
    }
}

/// Some share of `s` is keyed by `k`.
pub open spec fn names(s: Seq<Share>, k: Seq<u8>) -> bool {
    exists|i: int| 0 <= i < s.len() && key_of(#[trigger] s[i].recipient) == k
}

/// Sum of the proposed percentages, whatever the recipients.
pub open spec fn input_total(s: Seq<ShareInput>) -> nat
    decreases s.len(),
{
    if s.len() == 0 {
        0
    } else {
        input_total(s.drop_last()) + s.last().percentage as nat
    }
}

/// Every proposed recipient was accepted by the host.
pub open spec fn all_valid(s: Seq<ShareInput>) -> bool {
    forall|i: int| 0 <= i < s.len() ==> (#[trigger] s[i]).recipient is Some
}

/// Sum of the proposed percentages for key `k`.
pub open spec fn input_weight(s: Seq<ShareInput>, k: Seq<u8>) -> nat
    decreases s.len(),
{
    if s.len() == 0 {
        0
    } else {
        input_weight(s.drop_last(), k) + match s.last().recipient {
            Some(r) => if key_of(r) == k {
                s.last().percentage as nat
            } else {
                0
            },
            None => 0,
        }
    }
}

/// Some proposed recipient is keyed by `k`.
pub open spec fn input_names(s: Seq<ShareInput>, k: Seq<u8>) -> bool {
    exists|i: int|
        0 <= i < s.len() && (#[trigger] s[i]).recipient is Some && key_of(
            s[i].recipient->Some_0,
        ) == k
}

/// Adds `p` to the share of `r`, inserting `r` at its place in key order
/// where it is not yet present.
fn add_share(v: &mut Vec<Share>, r: String, p: u128)
    requires
        sorted(old(v)@),
        total(old(v)@) + p <= u128::MAX,
    ensures
        sorted(final(v)@),
        total(final(v)@) == total(old(v)@) + p,
        forall|k: Seq<u8>|
            #[trigger] weight(final(v)@, k) == weight(old(v)@, k) + if key_of(r) == k {
                p as nat
            } else {
                0
            },
        forall|k: Seq<u8>| #[trigger] names(final(v)@, k) == (names(old(v)@, k) || key_of(r) == k),
{
    let ghost s = v@;
    let ghost kr = key_of(r);
    let mut i: usize = 0;
    loop
        invariant
            v@ == s,
            kr == key_of(r),
            i <= s.len(),
            forall|j: int| 0 <= j < i ==> lex_lt(key_of(#[trigger] s[j].recipient), kr),
        ensures
            v@ == s,
            i <= s.len(),
            forall|j: int| 0 <= j < i ==> lex_lt(key_of(#[trigger] s[j].recipient), kr),
            i < s.len() ==> !lex_lt(key_of(s[i as int].recipient), kr),
        decreases s.len() - i,
    {
        if i >= v.len() {
            break;
        }
        let c = compare_bytes(key_bytes(&v[i].recipient), key_bytes(&r));
        if c >= 0 {
            break;
        }
        i = i + 1;
    }
    let same = i < v.len() && compare_bytes(key_bytes(&v[i].recipient), key_bytes(&r)) == 0;
    proof {
        if i < s.len() {
            lemma_lex_total(kr, key_of(s[i as int].recipient));
        }
    }
    if same {
        let old_p = v[i].percentage;
        proof {
            lemma_weight_le_total(s, kr);
            assert(weight(s, kr) >= old_p) by {
                lemma_single_weight(s, i as int);
            }
        }
        let x = Share { recipient: v[i].recipient.clone(), percentage: old_p + p };
        proof {
            assert forall|k: Seq<u8>| #[trigger] weight(s.update(i as int, x), k) == weight(s, k) + if kr == k {
                p as nat
            } else {
                0
            } by {
                lemma_update_sums(s, i as int, x, k);
            }
            lemma_update_sums(s, i as int, x, kr);
            assert forall|k: Seq<u8>| #[trigger] names(s.update(i as int, x), k) == (names(s, k) || kr == k) by {
                if names(s, k) {
                    let j = choose|j: int| 0 <= j < s.len() && key_of(#[trigger] s[j].recipient) == k;
                    assert(key_of(s.update(i as int, x)[j].recipient) == k);
                }
                if kr == k {
                    assert(key_of(s.update(i as int, x)[i as int].recipient) == k);
                }
            }
        }
        v.set(i, x);
    } else {
        let ghost x = Share { recipient: r, percentage: p };
        proof {
            assert forall|k: Seq<u8>| #[trigger] weight(s.insert(i as int, x), k) == weight(s, k) + if kr == k {
                p as nat
            } else {
                0
            } by {
                lemma_insert_sums(s, i as int, x, k);
            }
            lemma_insert_sums(s, i as int, x, kr);
            let t = s.insert(i as int, x);
            assert forall|k: Seq<u8>| #[trigger] names(t, k) == (names(s, k) || kr == k) by {
                if names(s, k) {
                    let j = choose|j: int| 0 <= j < s.len() && key_of(#[trigger] s[j].recipient) == k;
                    if j < i {
                        assert(key_of(t[j].recipient) == k);
                    } else {
                        assert(key_of(t[j + 1].recipient) == k);
                    }
                }
                if kr == k {
                    assert(key_of(t[i as int].recipient) == k);
                }
                if names(t, k) {
                    let j = choose|j: int| 0 <= j < t.len() && key_of(#[trigger] t[j].recipient) == k;
                    if j < i {
                        assert(key_of(s[j].recipient) == k);
                    } else if j > i {
                        assert(key_of(s[j - 1].recipient) == k);
                    }
                }
            }
            assert forall|a: int, b: int|
                0 <= a < b < t.len() implies lex_lt(key_of(#[trigger] t[a].recipient), key_of(
                #[trigger] t[b].recipient,
            )) by {
                if b == i {
                } else if a == i {
                    if b > i + 1 {
                        lemma_lex_transitive(kr, key_of(s[i as int].recipient), key_of(s[b - 1].recipient));
                    }
                } else if a < i && b > i {
                    if b == i + 1 {
                        lemma_lex_transitive(key_of(s[a].recipient), kr, key_of(s[i as int].recipient));
                    } else {
                        lemma_lex_transitive(key_of(s[a].recipient), kr, key_of(s[i as int].recipient));
                        lemma_lex_transitive(key_of(s[a].recipient), key_of(s[i as int].recipient), key_of(s[b - 1].recipient));
                    }
                } else if a > i {
                    assert(lex_lt(key_of(s[a - 1].recipient), key_of(s[b - 1].recipient)));
                }
            }
        }
        v.insert(i, Share { recipient: r, percentage: p });
    }
}

proof fn lemma_single_weight(s: Seq<Share>, i: int)
    requires
        0 <= i < s.len(),
    ensures
        weight(s, key_of(s[i].recipient)) >= s[i].percentage,
    decreases s.len(),
{
    if i < s.len() - 1 {
        lemma_single_weight(s.drop_last(), i);
    }
}

/// The ledger that a list of proposed shares commits to: a recipient named
/// more than once holds the sum of its percentages.
pub open spec fn commits_to(s: Seq<Share>, inputs: Seq<ShareInput>) -> bool {
    &&& sorted(s)
    &&& forall|k: Seq<u8>| #[trigger] names(s, k) == input_names(inputs, k)
    &&& forall|k: Seq<u8>| #[trigger] weight(s, k) == input_weight(inputs, k)
}

pub proof fn lemma_weight_le_total(s: Seq<Share>, k: Seq<u8>)
    ensures
        weight(s, k) <= total(s),
    decreases s.len(),
{
    if s.len() > 0 {
        lemma_weight_le_total(s.drop_last(), k);
    }
}

proof fn lemma_insert_sums(s: Seq<Share>, i: int, x: Share, k: Seq<u8>)
    requires
        0 <= i <= s.len(),
    ensures
        total(s.insert(i, x)) == total(s) + x.percentage,
        weight(s.insert(i, x), k) == weight(s, k) + if key_of(x.recipient) == k {
            x.percentage as nat
        } else {
            0
        },
    decreases s.len(),
{
    if i == s.len() {
        assert(s.insert(i, x).drop_last() =~= s);
    } else {
        assert(s.insert(i, x).drop_last() =~= s.drop_last().insert(i, x));
        lemma_insert_sums(s.drop_last(), i, x, k);
    }
}

proof fn lemma_update_sums(s: Seq<Share>, i: int, x: Share, k: Seq<u8>)
    requires
        0 <= i < s.len(),
        x.recipient == s[i].recipient,
        x.percentage >= s[i].percentage,
    ensures
        total(s.update(i, x)) == total(s) + (x.percentage - s[i].percentage),
        weight(s.update(i, x), k) == weight(s, k) + if key_of(x.recipient) == k {
            (x.percentage - s[i].percentage) as nat
        } else {
            0
        },
    decreases s.len(),
{
    if i == s.len() - 1 {
        assert(s.update(i, x).drop_last() =~= s.drop_last());
    } else {
        assert(s.update(i, x).drop_last() =~= s.drop_last().update(i, x));
        lemma_update_sums(s.drop_last(), i, x, k);
    }
}

proof fn lemma_input_total_prefix(s: Seq<ShareInput>, i: int)
    requires
        0 <= i <= s.len(),
    ensures
        input_total(s.subrange(0, i)) <= input_total(s),
    decreases s.len(),
{
    if i < s.len() {
        assert(s.drop_last().subrange(0, i) =~= s.subrange(0, i));
        lemma_input_total_prefix(s.drop_last(), i);
    } else {
        assert(s.subrange(0, i) =~= s);
    }
}

/// Checks that the proposed percentages add up to exactly one whole.
pub fn check_share_percentages(shares: &Vec<ShareInput>) -> (r: Result<(), ContractError>)
    ensures
        r == Ok::<(), ContractError>(()) <==> input_total(shares@) == PERCENT_ONE,
        r == Err::<(), ContractError>(ContractError::PercentageLimitExceeded) <==> input_total(
            shares@,
        ) > PERCENT_ONE,
        r == Err::<(), ContractError>(ContractError::PercentageLimitNotMet) <==> input_total(
            shares@,
        ) < PERCENT_ONE,
{
    let mut acc: u128 = 0;
    let mut i: usize = 0;
    while i < shares.len()
        invariant
            i <= shares@.len(),
            acc == input_total(shares@.subrange(0, i as int)),
            acc <= PERCENT_ONE,
        decreases shares@.len() - i,
    {
        assert(shares@.subrange(0, i + 1).drop_last() =~= shares@.subrange(0, i as int));
        let p = shares[i].percentage;
        if p > PERCENT_ONE - acc {
            proof {
                lemma_input_total_prefix(shares@, i + 1);
            }
            return Err(ContractError::PercentageLimitExceeded);
        }
        acc = acc + p;
        i = i + 1;
    }
    assert(shares@.subrange(0, i as int) =~= shares@);
    if acc < PERCENT_ONE {
        return Err(ContractError::PercentageLimitNotMet);
    }
    Ok(())
}

/// Where a page that starts after key `c` begins in `s`: past every leading
/// share whose key is not above `c`.
pub open spec fn page_start(s: Seq<Share>, c: Seq<u8>) -> int
    decreases s.len(),
{
    if s.len() == 0 {
        0
    } else if lex_lt(c, key_of(s[0].recipient)) {
        0
    } else {
        1 + page_start(s.drop_first(), c)
    }
}

/// The page of at most `limit` shares of `s` that begins at index `start`.
pub open spec fn page_of(s: Seq<Share>, start: int, limit: int) -> Seq<Share> {
    s.subrange(start, if start + limit < s.len() { start + limit } else { s.len() as int })
}

pub proof fn lemma_page_start(s: Seq<Share>, c: Seq<u8>, i: int)
    requires
        0 <= i <= s.len(),
        forall|j: int| 0 <= j < i ==> !lex_lt(c, key_of(#[trigger] s[j].recipient)),
        i < s.len() ==> lex_lt(c, key_of(s[i].recipient)),
    ensures
        page_start(s, c) == i,
    decreases i,
{
    if i > 0 {
        assert forall|j: int| 0 <= j < i - 1 implies !lex_lt(
            c,
            key_of(#[trigger] s.drop_first()[j].recipient),
        ) by {
            assert(s.drop_first()[j] == s[j + 1]);
        }
        lemma_page_start(s.drop_first(), c, i - 1);
    }
}

/// The shares in force, ascending by recipient key.
#[derive(Debug, PartialEq, Eq)]
pub struct ShareLedger {
    entries: Vec<Share>,
}

impl View for ShareLedger {
    type V = Seq<Share>;

    closed spec fn view(&self) -> Seq<Share> {
        self.entries@
    }
}

impl ShareLedger {
    #[verifier::type_invariant]
    pub(crate) open spec fn inv(&self) -> bool {
        self.wf()
    }

    /// Each recipient once, in ascending key order, and the percentages sum
    /// to exactly one whole.
    pub open spec fn wf(&self) -> bool {
        sorted(self@) && total(self@) == PERCENT_ONE
    }


    /// The ledger that `shares` proposes: the percentages are checked first,
    /// then the recipients.
    pub fn from_inputs(shares: &Vec<ShareInput>) -> (r: Result<ShareLedger, ContractError>)
        ensures
            input_total(shares@) > PERCENT_ONE ==> r == Err::<ShareLedger, ContractError>(
                ContractError::PercentageLimitExceeded,
            ),
            input_total(shares@) < PERCENT_ONE ==> r == Err::<ShareLedger, ContractError>(
                ContractError::PercentageLimitNotMet,
            ),
            input_total(shares@) == PERCENT_ONE && !all_valid(shares@) ==> r == Err::<
                ShareLedger,
                ContractError,
            >(ContractError::InvalidRecipient),
            input_total(shares@) == PERCENT_ONE && all_valid(shares@) ==> r is Ok,
            r matches Ok(l) ==> l.wf() && commits_to(l@, shares@),
    {
        check_share_percentages(shares)?;
        let mut i: usize = 0;
        while i < shares.len()
            invariant
                i <= shares@.len(),
                input_total(shares@) == PERCENT_ONE,
                forall|j: int| 0 <= j < i ==> (#[trigger] shares@[j]).recipient is Some,
            decreases shares@.len() - i,
        {
            if shares[i].recipient.is_none() {
                return Err(ContractError::InvalidRecipient);
            }
            i = i + 1;
        }
        let mut v: Vec<Share> = Vec::new();
        let mut i: usize = 0;
        while i < shares.len()
            invariant
                i <= shares@.len(),
                all_valid(shares@),
                input_total(shares@) == PERCENT_ONE,
                sorted(v@),
                total(v@) == input_total(shares@.subrange(0, i as int)),
                forall|k: Seq<u8>|
                    #[trigger] weight(v@, k) == input_weight(shares@.subrange(0, i as int), k),
                forall|k: Seq<u8>|
                    #[trigger] names(v@, k) == input_names(shares@.subrange(0, i as int), k),
            decreases shares@.len() - i,
        {
            let ghost pre = shares@.subrange(0, i as int);
            let ghost post = shares@.subrange(0, i + 1);
            assert(post.drop_last() =~= pre);
            assert(shares@[i as int].recipient is Some);
            let r = match &shares[i].recipient {
                Some(a) => a.clone(),
                None => String::new(),
            };
            let p = shares[i].percentage;
            proof {
                lemma_input_total_prefix(shares@, i + 1);
                assert forall|k: Seq<u8>| #[trigger] input_names(post, k) == (input_names(pre, k) || key_of(r) == k) by {
                    if input_names(pre, k) {
                        let j = choose|j: int| 0 <= j < pre.len() && (#[trigger] pre[j]).recipient is Some && key_of(pre[j].recipient->Some_0) == k;
                        assert(post[j] == pre[j]);
                    }
                    if key_of(r) == k {
                        assert(post[i as int] == shares@[i as int]);
                    }
                    if input_names(post, k) {
                        let j = choose|j: int| 0 <= j < post.len() && (#[trigger] post[j]).recipient is Some && key_of(post[j].recipient->Some_0) == k;
                        if j < i {
                            assert(post[j] == pre[j]);
                        }
                    }
                }
            }
            add_share(&mut v, r, p);
            i = i + 1;
        }
        assert(shares@.subrange(0, i as int) =~= shares@);
        Ok(ShareLedger { entries: v })
    }

    /// The share held by `recipient`, if any.
    pub fn find(&self, recipient: &String) -> (r: Option<Share>)
        ensures
            r is Some <==> names(self@, key_of(*recipient)),
            r matches Some(sh) ==> exists|i: int|
                0 <= i < self@.len() && self@[i] == sh && key_of(sh.recipient) == key_of(
                    *recipient,
                ),
    {
        let mut i: usize = 0;
        while i < self.entries.len()
            invariant
                i <= self@.len(),
                self@ == self.entries@,
                forall|j: int|
                    0 <= j < i ==> key_of(#[trigger] self@[j].recipient) != key_of(*recipient),
            decreases self@.len() - i,
        {
            if compare_bytes(key_bytes(&self.entries[i].recipient), key_bytes(recipient)) == 0 {
                return Some(self.entries[i].duplicate());
            }
            i = i + 1;
        }
        None
    }

    /// The shares after `start_after` in key order (all of them where it is
    /// `None`), at most `limit` of them.
    pub fn page(&self, start_after: &Option<String>, limit: usize) -> (r: Vec<Share>)
        ensures
            r@ == page_of(
                self@,
                match start_after {
                    Some(c) => page_start(self@, key_of(*c)),
                    None => 0,
                },
                limit as int,
            ),
    {
        let mut start: usize = 0;
        match start_after {
            Some(c) => {
                loop
                    invariant
                        start <= self@.len(),
                        self@ == self.entries@,
                        forall|j: int|
                            0 <= j < start ==> !lex_lt(
                                key_of(*c),
                                key_of(#[trigger] self@[j].recipient),
                            ),
                    ensures
                        start <= self@.len(),
                        forall|j: int|
                            0 <= j < start ==> !lex_lt(
                                key_of(*c),
                                key_of(#[trigger] self@[j].recipient),
                            ),
                        start < self@.len() ==> lex_lt(
                            key_of(*c),
                            key_of(self@[start as int].recipient),
                        ),
                    decreases self@.len() - start,
                {
                    if start >= self.entries.len() {
                        break;
                    }
                    if compare_bytes(key_bytes(c), key_bytes(&self.entries[start].recipient)) < 0 {
                        break;
                    }
                    start = start + 1;
                }
                proof {
                    lemma_page_start(self@, key_of(*c), start as int);
                }
            },
            None => {},
        }
        let end: usize = if limit < self.entries.len() - start {
            start + limit
        } else {
            self.entries.len()
        };
        let mut out: Vec<Share> = Vec::new();
        let mut i: usize = start;
        while i < end
            invariant
                start <= i <= end <= self@.len(),
                self@ == self.entries@,
                out@ == self@.subrange(start as int, i as int),
            decreases end - i,
        {
            out.push(self.entries[i].duplicate());
            assert(out@ =~= self@.subrange(start as int, i + 1));
            i = i + 1;
        }
        out
    }

    pub fn len(&self) -> (r: usize)
        ensures
            r == self@.len(),
    {
        self.entries.len()
    }

    pub fn get(&self, i: usize) -> (r: &Share)
        requires
            i < self@.len(),
        ensures
            *r == self@[i as int],
    {
        &self.entries[i]
    }
}

} // verus!
