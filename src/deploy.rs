//! Deployment of child contracts: at an address derived in advance, or at one
//! that the host reports back in a reply.
use vstd::prelude::*;
use vstd::string::StringExecFns;

use crate::contract::{Contract, Env, MessageInfo};
use crate::effect::{copy_bytes, copy_coins, Coin, Effect};
use crate::error::{AddressDerivationError, ContractError};

verus! {

/// The canonical address that instantiating code of `checksum`, by
/// `creator`, under `salt` leads to.
pub uninterp spec fn instantiate2_of(checksum: Seq<u8>, creator: Seq<u8>, salt: Seq<u8>) -> Seq<
    u8,
>;

/// Why deriving an address from `checksum` and `salt` fails, if it does: a
/// checksum must be 32 bytes, a salt 1 to 64.
pub open spec fn derivation_fault(checksum: Seq<u8>, salt: Seq<u8>) -> Option<
    AddressDerivationError,
> {
    if checksum.len() != 32 {
        Some(AddressDerivationError::InvalidChecksumLength)
    } else if salt.len() == 0 || salt.len() > 64 {
        Some(AddressDerivationError::InvalidSaltLength)
    } else {
        None
    }
}

/// Relies on cosmwasm_std::instantiate2_address: it refuses a checksum that
/// is not 32 bytes, then a salt that is empty or over 64 bytes, and otherwise
/// derives the address from its three arguments alone.
#[verifier::external_body]
fn instantiate2_address(checksum: &[u8], creator: &[u8], salt: &[u8]) -> (r: Result<
    Vec<u8>,
    AddressDerivationError,
>)
    ensures
        r is Err <==> derivation_fault(checksum@, salt@) is Some,
        r is Err ==> derivation_fault(checksum@, salt@) == Some(r->Err_0),
        r is Ok ==> r->Ok_0@ == instantiate2_of(checksum@, creator@, salt@),
{
    let creator = cosmwasm_std::CanonicalAddr::from(creator);
    match cosmwasm_std::instantiate2_address(checksum, &creator, salt) {
        Ok(a) => Ok(a.as_slice().to_vec()),
        Err(cosmwasm_std::Instantiate2AddressError::InvalidChecksumLength) => Err(
            AddressDerivationError::InvalidChecksumLength,
        ),
        Err(cosmwasm_std::Instantiate2AddressError::InvalidSaltLength) => Err(
            AddressDerivationError::InvalidSaltLength,
        ),
    }
}

/// The error, if any, with which deriving a child's address is refused.
pub open spec fn derivation_error(checksum: Seq<u8>, salt: Seq<u8>) -> Option<ContractError> {
    match derivation_fault(checksum, salt) {
        Some(f) => Some(ContractError::AddressDerivation(f)),
        None => None,
    }
}

/// The canonical address of the child that code of `checksum`, instantiated
/// by `creator` under `salt`, will have.
pub fn child_address(checksum: &Vec<u8>, creator: &Vec<u8>, salt: &Vec<u8>) -> (r: Result<
    Vec<u8>,
    ContractError,
>)
    ensures
        match derivation_error(checksum@, salt@) {
            Some(e) => r == Err::<Vec<u8>, ContractError>(e),
            None => r matches Ok(a) && a@ == instantiate2_of(checksum@, creator@, salt@),
        },
{
    match instantiate2_address(checksum.as_slice(), creator.as_slice(), salt.as_slice()) {
        Ok(a) => Ok(a),
        Err(e) => Err(ContractError::AddressDerivation(e)),
    }
}

/// The label that children are instantiated under.
pub open spec fn child_label() -> Seq<char> {
    "instantiate2"@
}

fn make_label() -> (r: String)
    ensures
        r@ == child_label(),
{
    <String as StringExecFns>::from_str("instantiate2")
}

/// Derives the address of the child that `msg` instantiates: the payload
/// itself is the salt, this contract (`creator`, canonical) the creator and
/// `checksum` that of the child's code. Only the admin of an unlocked
/// contract may deploy.
pub fn plan_custom_contract(
    c: &Contract,
    info: &MessageInfo,
    msg: &Vec<u8>,
    checksum: &Vec<u8>,
    creator: &Vec<u8>,
) -> (r: Result<Vec<u8>, ContractError>)
    ensures
        match c.gate_error(info.sender, true) {
            Some(e) => r == Err::<Vec<u8>, ContractError>(e),
            None => match derivation_error(checksum@, msg@) {
                Some(e) => r == Err::<Vec<u8>, ContractError>(e),
                None => r matches Ok(a) && a@ == instantiate2_of(checksum@, creator@, msg@),
            },
        },
{
    c.check_gate(&info.sender, true)?;
    child_address(checksum, creator, msg)
}

/// The instructions that deploy a child at `child`, the address derived
/// for it in advance: instantiate it with this contract as admin, give this
/// contract its reward metadata, then hand its administration to the sender.
pub fn custom_contract_effects(
    env: &Env,
    info: &MessageInfo,
    code_id: u64,
    msg: Vec<u8>,
    child: &String,
) -> (r: Vec<Effect>)
    ensures
        r@.len() == 3,
        r@[0] matches Effect::Instantiate2 { admin, code_id: id, label, msg: m, funds, salt } && admin
            == Some(env.contract_address) && id == code_id && label@ == child_label() && m@ == msg@
            && funds@ == info.funds@ && salt@ == msg@,
        r@[1] == (Effect::UpdateContractMetadata {
            contract_address: Some(*child),
            owner_address: Some(env.contract_address),
            rewards_address: Some(env.contract_address),
        }),
        r@[2] == (Effect::UpdateAdmin { contract_addr: *child, admin: info.sender }),
{
    let salt = copy_bytes(&msg);
    let mut r: Vec<Effect> = Vec::new();
    r.push(
        Effect::Instantiate2 {
            admin: Some(env.contract_address.clone()),
            code_id,
            label: make_label(),
            msg,
            funds: copy_coins(&info.funds),
            salt,
        },
    );
    r.push(
        Effect::UpdateContractMetadata {
            contract_address: Some(child.clone()),
            owner_address: Some(env.contract_address.clone()),
            rewards_address: Some(env.contract_address.clone()),
        },
    );
    r.push(Effect::UpdateAdmin { contract_addr: child.clone(), admin: info.sender.clone() });
    r
}

/// `e` instantiates code `code_id` with payload `msg` and `funds` attached,
/// under `admin`, and asks for a reply under `reply_id`.
pub open spec fn instantiates_with_reply(
    e: Effect,
    admin: String,
    code_id: u64,
    msg: Seq<u8>,
    funds: Seq<Coin>,
    reply_id: u64,
) -> bool {
    e matches Effect::Instantiate { admin: a, code_id: id, label, msg: m, funds: f, reply_id: rid }
        && a == Some(admin) && id == code_id && label@ == child_label() && m@ == msg && f@ == funds
        && rid == reply_id
}

/// Instantiates a child whose address the host reports later, in a reply
/// under `reply_id`. Only the admin of an unlocked contract may deploy.
pub fn dispatch_custom_contract(
    c: &Contract,
    env: &Env,
    info: &MessageInfo,
    code_id: u64,
    msg: Vec<u8>,
    reply_id: u64,
) -> (r: Result<Vec<Effect>, ContractError>)
    ensures
        match c.gate_error(info.sender, true) {
            Some(e) => r == Err::<Vec<Effect>, ContractError>(e),
            None => r is Ok && r->Ok_0@.len() == 1 && instantiates_with_reply(
                r->Ok_0@[0],
                env.contract_address,
                code_id,
                msg@,
                info.funds@,
                reply_id,
            ),
        },
{
    c.check_gate(&info.sender, true)?;
    let mut r: Vec<Effect> = Vec::new();
    r.push(
        Effect::Instantiate {
            admin: Some(env.contract_address.clone()),
            code_id,
            label: make_label(),
            msg,
            funds: copy_coins(&info.funds),
            reply_id,
        },
    );
    Ok(r)
}

/// Handles the host's reply to an instantiation: `outcome` holds the new
/// child's address, or the host's error message. A reply under any other
/// identifier than `expected_id` is refused; on success the child's reward
/// metadata goes to this contract and its administration to the admin.
pub fn reply(
    c: &Contract,
    env: &Env,
    expected_id: u64,
    id: u64,
    outcome: Result<String, String>,
) -> (r: Result<Vec<Effect>, ContractError>)
    ensures
        id != expected_id ==> r == Err::<Vec<Effect>, ContractError>(
            ContractError::InstantiateError,
        ),
        id == expected_id ==> match outcome {
            Err(m) => r == Err::<Vec<Effect>, ContractError>(ContractError::Std { msg: m }),
            Ok(child) => r matches Ok(v) && v@ == seq![
                Effect::UpdateContractMetadata {
                    contract_address: Some(child),
                    owner_address: Some(env.contract_address),
                    rewards_address: Some(env.contract_address),
                },
                Effect::UpdateAdmin { contract_addr: child, admin: c.config.admin },
            ],
        },
{
    if id != expected_id {
        return Err(ContractError::InstantiateError);
    }
    match outcome {
        Err(m) => Err(ContractError::Std { msg: m }),
        Ok(child) => {
            let mut v: Vec<Effect> = Vec::new();
            v.push(
                Effect::UpdateContractMetadata {
                    contract_address: Some(child.clone()),
                    owner_address: Some(env.contract_address.clone()),
                    rewards_address: Some(env.contract_address.clone()),
                },
            );
            v.push(Effect::UpdateAdmin { contract_addr: child, admin: c.config.admin.clone() });
            Ok(v)
        },
    }
}

} // verus!
