use reward_manager::contract::{Contract, Env, ExecuteMsg, InstantiateMsg, MessageInfo};
use reward_manager::deploy::{
    child_address, custom_contract_effects, dispatch_custom_contract, plan_custom_contract, reply,
};
use reward_manager::effect::{Coin, Effect};
use reward_manager::error::{AddressDerivationError, ContractError};
use reward_manager::state::{ShareInput, PERCENT_ONE};

fn input(addr: &str, percentage: u128) -> ShareInput {
    ShareInput { recipient: Some(addr.to_string()), percentage }
}

fn info(sender: &str) -> MessageInfo {
    MessageInfo { sender: sender.to_string(), funds: vec![] }
}

fn env() -> Env {
    Env { contract_address: "contract".to_string() }
}

fn setup(shares: Vec<ShareInput>, mutable: bool) -> Contract {
    let msg = InstantiateMsg { admin: None, mutable, shares };
    Contract::instantiate(&info("admin"), msg).unwrap().0
}

fn unhex(s: &str) -> Vec<u8> {
    (0..s.len() / 2).map(|i| u8::from_str_radix(&s[2 * i..2 * i + 2], 16).unwrap()).collect()
}

fn send(to: &str, amount: u128) -> Effect {
    Effect::BankSend { to_address: to.to_string(), amount, denom: "aconst".to_string() }
}

fn distribute(c: &mut Contract, sender: &str, amount: u128) -> Result<Vec<Effect>, ContractError> {
    let balance = Coin { denom: "aconst".to_string(), amount };
    c.execute(&env(), &info(sender), ExecuteMsg::DistributeNativeTokens { balance })
}

fn sent(effects: &[Effect]) -> u128 {
    effects
        .iter()
        .map(|e| match e {
            Effect::BankSend { amount, .. } => *amount,
            _ => 0,
        })
        .sum()
}

#[test]
fn distribution_splits_sixty_forty() {
    let six = PERCENT_ONE / 10 * 6;
    let four = PERCENT_ONE / 10 * 4;
    let mut c = setup(vec![input("addr_c", four), input("addr_a", six)], true);
    let effects = distribute(&mut c, "admin", 1001).unwrap();
    assert_eq!(effects, vec![send("addr_a", 600), send("addr_c", 400)]);
    assert!(sent(&effects) <= 1001);
    let effects = distribute(&mut c, "admin", 1000).unwrap();
    assert_eq!(effects, vec![send("addr_a", 600), send("addr_c", 400)]);
}

#[test]
fn distribution_rounds_down_and_keeps_the_rest() {
    let third = PERCENT_ONE / 3;
    let mut c = setup(vec![input("a", third), input("b", third), input("c", PERCENT_ONE - 2 * third)], true);
    let effects = distribute(&mut c, "admin", 100).unwrap();
    assert_eq!(effects, vec![send("a", 33), send("b", 33), send("c", 33)]);
    assert_eq!(sent(&effects), 99);
}

#[test]
fn distribution_of_a_huge_balance_does_not_overflow() {
    let mut c = setup(vec![input("a", PERCENT_ONE / 2), input("b", PERCENT_ONE / 2)], true);
    let effects = distribute(&mut c, "admin", u128::MAX).unwrap();
    assert_eq!(effects, vec![send("a", u128::MAX / 2), send("b", u128::MAX / 2)]);
}

#[test]
fn zero_share_gets_zero_transfer() {
    let mut c = setup(vec![input("a", 0), input("b", PERCENT_ONE)], true);
    let effects = distribute(&mut c, "admin", 500).unwrap();
    assert_eq!(effects, vec![send("a", 0), send("b", 500)]);
}

#[test]
fn distribution_and_withdrawal_are_admin_only() {
    let mut c = setup(vec![input("a", PERCENT_ONE)], false);
    assert_eq!(distribute(&mut c, "mallory", 10), Err(ContractError::Unauthorized));
    assert_eq!(
        c.execute(&env(), &info("mallory"), ExecuteMsg::WithdrawRewards),
        Err(ContractError::Unauthorized)
    );
    assert_eq!(
        c.execute(&env(), &info("admin"), ExecuteMsg::WithdrawRewards),
        Ok(vec![Effect::WithdrawRewards { records_limit: Some(0), record_ids: vec![] }])
    );
    assert_eq!(distribute(&mut c, "admin", 10), Ok(vec![send("a", 10)]));
}

#[test]
fn metadata_update_for_another_contract() {
    let mut c = setup(vec![input("a", PERCENT_ONE)], true);
    let msg = ExecuteMsg::UpdateCustomContractRewardMetadata {
        address: "child".to_string(),
        owner_address: Some("owner".to_string()),
        rewards_address: None,
    };
    assert_eq!(
        c.execute(&env(), &info("admin"), msg),
        Ok(vec![Effect::UpdateContractMetadata {
            contract_address: Some("child".to_string()),
            owner_address: Some("owner".to_string()),
            rewards_address: None,
        }])
    );
    let msg = ExecuteMsg::UpdateCustomContractRewardMetadata {
        address: "child".to_string(),
        owner_address: None,
        rewards_address: None,
    };
    assert_eq!(c.execute(&env(), &info("mallory"), msg), Err(ContractError::Unauthorized));
}

#[test]
fn child_address_matches_known_vector() {
    let checksum = unhex("13a1fc994cc6d1c81b746ee0c0ff6f90043875e0bf1d9be6b7d779fc978dc2a5");
    let creator = unhex("9999999999aaaaaaaaaabbbbbbbbbbcccccccccc");
    let salt = unhex("61");
    let expected = unhex("5e865d3e45ad3e961f77fd77d46543417ced44d924dc3e079b5415ff6775f847");
    assert_eq!(child_address(&checksum, &creator, &salt), Ok(expected));
}

#[test]
fn child_address_is_deterministic_and_input_sensitive() {
    let checksum = vec![7u8; 32];
    let creator = vec![1u8; 20];
    let a = child_address(&checksum, &creator, &b"salt".to_vec()).unwrap();
    let b = child_address(&checksum, &creator, &b"salt".to_vec()).unwrap();
    assert_eq!(a, b);
    assert_eq!(a.len(), 32);
    assert_ne!(a, child_address(&checksum, &creator, &b"salu".to_vec()).unwrap());
    assert_ne!(a, child_address(&vec![8u8; 32], &creator, &b"salt".to_vec()).unwrap());
    assert_ne!(a, child_address(&checksum, &vec![2u8; 20], &b"salt".to_vec()).unwrap());
}

#[test]
fn child_address_refuses_bad_lengths() {
    let creator = vec![1u8; 20];
    assert_eq!(
        child_address(&vec![0u8; 31], &creator, &b"s".to_vec()),
        Err(ContractError::AddressDerivation(AddressDerivationError::InvalidChecksumLength))
    );
    assert_eq!(
        child_address(&vec![0u8; 32], &creator, &vec![]),
        Err(ContractError::AddressDerivation(AddressDerivationError::InvalidSaltLength))
    );
    assert_eq!(
        child_address(&vec![0u8; 32], &creator, &vec![0u8; 65]),
        Err(ContractError::AddressDerivation(AddressDerivationError::InvalidSaltLength))
    );
    assert!(child_address(&vec![0u8; 32], &creator, &vec![0u8; 64]).is_ok());
}

#[test]
fn planning_a_child_is_gated() {
    let c = setup(vec![input("a", PERCENT_ONE)], true);
    let checksum = vec![7u8; 32];
    let creator = vec![1u8; 20];
    let msg = b"{}".to_vec();
    assert_eq!(
        plan_custom_contract(&c, &info("mallory"), &msg, &checksum, &creator),
        Err(ContractError::Unauthorized)
    );
    let planned = plan_custom_contract(&c, &info("admin"), &msg, &checksum, &creator).unwrap();
    assert_eq!(planned, child_address(&checksum, &creator, &msg).unwrap());
    let locked = setup(vec![input("a", PERCENT_ONE)], false);
    assert_eq!(
        plan_custom_contract(&locked, &info("admin"), &msg, &checksum, &creator),
        Err(ContractError::ContractNotMutable)
    );
}

#[test]
fn child_deployment_instructions() {
    let funds = vec![Coin { denom: "aconst".to_string(), amount: 5 }];
    let sender = MessageInfo { sender: "admin".to_string(), funds };
    let effects = custom_contract_effects(&env(), &sender, 42, b"{}".to_vec(), &"child".to_string());
    assert_eq!(
        effects,
        vec![
            Effect::Instantiate2 {
                admin: Some("contract".to_string()),
                code_id: 42,
                label: "instantiate2".to_string(),
                msg: b"{}".to_vec(),
                funds: vec![Coin { denom: "aconst".to_string(), amount: 5 }],
                salt: b"{}".to_vec(),
            },
            Effect::UpdateContractMetadata {
                contract_address: Some("child".to_string()),
                owner_address: Some("contract".to_string()),
                rewards_address: Some("contract".to_string()),
            },
            Effect::UpdateAdmin { contract_addr: "child".to_string(), admin: "admin".to_string() },
        ]
    );
}

#[test]
fn reply_tracked_deployment() {
    let c = setup(vec![input("a", PERCENT_ONE)], true);
    let sent = dispatch_custom_contract(&c, &env(), &info("admin"), 9, b"{}".to_vec(), 1).unwrap();
    assert_eq!(
        sent,
        vec![Effect::Instantiate {
            admin: Some("contract".to_string()),
            code_id: 9,
            label: "instantiate2".to_string(),
            msg: b"{}".to_vec(),
            funds: vec![],
            reply_id: 1,
        }]
    );
    assert_eq!(
        dispatch_custom_contract(&c, &env(), &info("mallory"), 9, b"{}".to_vec(), 1),
        Err(ContractError::Unauthorized)
    );
    assert_eq!(
        reply(&c, &env(), 1, 1, Ok("child".to_string())),
        Ok(vec![
            Effect::UpdateContractMetadata {
                contract_address: Some("child".to_string()),
                owner_address: Some("contract".to_string()),
                rewards_address: Some("contract".to_string()),
            },
            Effect::UpdateAdmin { contract_addr: "child".to_string(), admin: "admin".to_string() },
        ])
    );
    assert_eq!(reply(&c, &env(), 1, 2, Ok("child".to_string())), Err(ContractError::InstantiateError));
    assert_eq!(
        reply(&c, &env(), 1, 1, Err("out of gas".to_string())),
        Err(ContractError::Std { msg: "out of gas".to_string() })
    );
}
