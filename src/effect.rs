//! Instructions that the contract hands back to the host ledger.
use vstd::prelude::*;

verus! {

/// An amount of one token.
#[derive(Debug, PartialEq, Eq)]
pub struct Coin {
    pub denom: String,
    pub amount: u128,
}

/// One outbound instruction.
#[derive(Debug, PartialEq, Eq)]
pub enum Effect {
    /// Instantiate a contract at the address that `salt` determines.
    Instantiate2 {
        admin: Option<String>,
        code_id: u64,
        label: String,
        msg: Vec<u8>,
        funds: Vec<Coin>,
        salt: Vec<u8>,
    },
    /// Instantiate a contract and report the outcome under `reply_id`.
    Instantiate {
        admin: Option<String>,
        code_id: u64,
        label: String,
        msg: Vec<u8>,
        funds: Vec<Coin>,
        reply_id: u64,
    },
    /// Set who owns a contract's reward metadata and who receives its
    /// rewards; `contract_address` is `None` for the sending contract itself.
    UpdateContractMetadata {
        contract_address: Option<String>,
        owner_address: Option<String>,
        rewards_address: Option<String>,
    },
    /// Hand a contract's administration to `admin`.
    UpdateAdmin { contract_addr: String, admin: String },
    /// Withdraw the sending contract's rewards; a limit of zero asks for as
    /// many records as the host allows.
    WithdrawRewards { records_limit: Option<u64>, record_ids: Vec<u64> },
    /// Send `amount` of `denom` to `to_address`.
    BankSend { to_address: String, amount: u128, denom: String },
}

/// `e` withdraws every reward that the host lets one request withdraw.
pub open spec fn withdraws_all(e: Effect) -> bool {
    e matches Effect::WithdrawRewards { records_limit, record_ids } && records_limit == Some(
        0u64,
    ) && record_ids@.len() == 0
}

/// Sum of the amounts that the transfers among `s` send.
pub open spec fn sent_total(s: Seq<Effect>) -> int
    decreases s.len(),
{
    if s.len() == 0 {
        0
    } else {
        sent_total(s.drop_last()) + match s.last() {
            Effect::BankSend { amount, .. } => amount as int,
            _ => 0,
        }
    }
}

pub fn copy_bytes(v: &Vec<u8>) -> (r: Vec<u8>)
    ensures
        r@ == v@,
{
    let mut r: Vec<u8> = Vec::new();
    let mut i: usize = 0;
    while i < v.len()
        invariant
            i <= v@.len(),
            r@ == v@.subrange(0, i as int),
        decreases v@.len() - i,
    {
        r.push(v[i]);
        assert(r@ =~= v@.subrange(0, i + 1));
        i = i + 1;
    }
    r
}

pub fn copy_coins(v: &Vec<Coin>) -> (r: Vec<Coin>)
    ensures
        r@ == v@,
{
    let mut r: Vec<Coin> = Vec::new();
    let mut i: usize = 0;
    while i < v.len()
        invariant
            i <= v@.len(),
            r@ == v@.subrange(0, i as int),
        decreases v@.len() - i,
    {
        r.push(Coin { denom: v[i].denom.clone(), amount: v[i].amount });
        assert(r@ =~= v@.subrange(0, i + 1));
        i = i + 1;
    }
    r
}

} // verus!
