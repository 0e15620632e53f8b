//! Shares of a balance: what each payee receives in a distribution.
use vstd::prelude::*;

use crate::effect::{sent_total, Effect};
use crate::state::{total, Share, ShareLedger, PERCENT_ONE};

verus! {

/// What a share of `percentage` receives out of `balance`, rounded down.
pub open spec fn payout(balance: u128, percentage: u128) -> int {
    balance as int * percentage as int / PERCENT_ONE as int
}

/// Relies on `impl Mul<Decimal> for Uint128` of cosmwasm_std: an amount times
/// a decimal of `atomics / 10^18`, rounded down (`multiply_ratio`), which
/// cannot overflow while the decimal is at most one.
#[verifier::external_body]
fn mul_percentage(amount: u128, atomics: u128) -> (r: u128)
    requires
        atomics <= PERCENT_ONE,
    ensures
        r == payout(amount, atomics),
{
    (cosmwasm_std::Uint128::new(amount) * cosmwasm_std::Decimal::raw(atomics)).u128()
}

/// The transfers of a distribution of `balance` over `s`, one per share, in
/// the shares' order.
pub open spec fn transfers(s: Seq<Share>, balance: u128, denom: String) -> Seq<Effect> {
    Seq::new(
        s.len(),
        |i: int|
            Effect::BankSend {
                to_address: s[i].recipient,
                amount: payout(balance, s[i].percentage) as u128,
                denom: denom,
            },
    )
}

proof fn lemma_transfers_total(s: Seq<Share>, balance: u128, denom: String)
    requires
        total(s) <= PERCENT_ONE,
    ensures
        sent_total(transfers(s, balance, denom)) * PERCENT_ONE <= balance as int * total(s),
    decreases s.len(),
{
    if s.len() > 0 {
        let t = transfers(s, balance, denom);
        assert(t.drop_last() =~= transfers(s.drop_last(), balance, denom));
        lemma_transfers_total(s.drop_last(), balance, denom);
        let x = balance as int * s.last().percentage as int;
        let q = x / PERCENT_ONE as int;
        let p = s.last().percentage as int;
        assert(q <= balance) by (nonlinear_arith)
            requires
                q == x / PERCENT_ONE as int,
                x == balance as int * p,
                0 <= p <= PERCENT_ONE,
        ;
        assert(t.last() == Effect::BankSend {
            to_address: s.last().recipient,
            amount: q as u128,
            denom: denom,
        });
        assert(q * PERCENT_ONE <= x) by (nonlinear_arith)
            requires
                q == x / PERCENT_ONE as int,
                x >= 0,
        ;
        assert(balance as int * total(s) == balance as int * total(s.drop_last()) + x)
            by (nonlinear_arith)
            requires
                total(s) == total(s.drop_last()) + s.last().percentage,
                x == balance as int * s.last().percentage as int,
        ;
        assert(sent_total(t) * PERCENT_ONE == sent_total(t.drop_last()) * PERCENT_ONE + q
            * PERCENT_ONE) by (nonlinear_arith)
            requires
                sent_total(t) == sent_total(t.drop_last()) + q,
        ;
    }
}

/// A distribution over shares that sum to one whole never sends more than
/// the balance.
pub proof fn lemma_distribution_within_balance(s: Seq<Share>, balance: u128, denom: String)
    requires
        total(s) == PERCENT_ONE,
    ensures
        sent_total(transfers(s, balance, denom)) <= balance,
{
    lemma_transfers_total(s, balance, denom);
    let st = sent_total(transfers(s, balance, denom));
    assert(st <= balance) by (nonlinear_arith)
        requires
            st * PERCENT_ONE <= balance as int * PERCENT_ONE,
            PERCENT_ONE > 0,
    ;
}

proof fn lemma_share_le_total(s: Seq<Share>, i: int)
    requires
        0 <= i < s.len(),
    ensures
        s[i].percentage <= total(s),
    decreases s.len(),
{
    if i < s.len() - 1 {
        lemma_share_le_total(s.drop_last(), i);
    }
}

impl ShareLedger {
    /// One transfer of `denom` per share, in key order, each of the share's
    /// part of `balance` rounded down; what rounding leaves stays behind.
    pub fn payouts(&self, balance: u128, denom: &String) -> (r: Vec<Effect>)
        ensures
            r@ == transfers(self@, balance, *denom),
            sent_total(r@) <= balance,
    {
        proof {
            use_type_invariant(self);
        }
        let mut out: Vec<Effect> = Vec::new();
        let mut i: usize = 0;
        while i < self.len()
            invariant
                self.wf(),
                i <= self@.len(),
                out@ == transfers(self@, balance, *denom).subrange(0, i as int),
            decreases self@.len() - i,
        {
            let sh = self.get(i);
            proof {
                lemma_share_le_total(self@, i as int);
            }
            let amount = mul_percentage(balance, sh.percentage);
            out.push(Effect::BankSend { to_address: sh.recipient.clone(), amount, denom: denom.clone() });
            assert(out@ =~= transfers(self@, balance, *denom).subrange(0, i + 1));
            i = i + 1;
        }
        assert(out@ =~= transfers(self@, balance, *denom));
        proof {
            lemma_distribution_within_balance(self@, balance, *denom);
        }
        out
    }
}

} // verus!
