//! The contract's operations: instantiation, the admin-gated changes, and the
//! queries.
use vstd::prelude::*;

use crate::effect::{withdraws_all, Coin, Effect};
use crate::error::ContractError;
use crate::payout::transfers;
use crate::state::{
    all_valid, commits_to, input_total, key_of, names, page_of, page_start, Config, Share,
    ShareInput, ShareLedger, PERCENT_ONE,
};

verus! {

/// Page size of a shares query that names none.
pub const DEFAULT_LIMIT: u8 = 10;

/// What the host tells the contract about itself.
#[derive(Debug, PartialEq, Eq)]
pub struct Env {
    pub contract_address: String,
}

/// Who sent a request, and the funds attached to it.
#[derive(Debug, PartialEq, Eq)]
pub struct MessageInfo {
    pub sender: String,
    pub funds: Vec<Coin>,
}

#[derive(Debug, PartialEq, Eq)]
pub struct InstantiateMsg {
    /// The validated admin; the sender where `None`.
    pub admin: Option<String>,
    pub mutable: bool,
    pub shares: Vec<ShareInput>,
}

#[derive(Debug, PartialEq, Eq)]
pub enum ExecuteMsg {
    /// Replace every share with the proposed ones.
    UpdateShares { shares: Vec<ShareInput> },
    /// Set the reward metadata of another contract.
    UpdateCustomContractRewardMetadata {
        address: String,
        owner_address: Option<String>,
        rewards_address: Option<String>,
    },
    /// Forbid every later change of the shares.
    LockContract,
    /// Withdraw this contract's rewards into its balance.
    WithdrawRewards,
    /// Pay out `balance`, the contract's balance of the native token as the
    /// host reported it, over the shares.
    DistributeNativeTokens { balance: Coin },
}

#[derive(Debug, PartialEq, Eq)]
pub enum QueryMsg {
    Config,
    Share { recipient: String },
    Shares { start_after: Option<String>, limit: Option<u8> },
}

#[derive(Debug, PartialEq, Eq)]
pub enum QueryResponse {
    Config(Config),
    Share(Share),
    Shares(Vec<Share>),
}

/// The error, if any, with which a proposed list of shares is refused.
pub open spec fn proposal_error(shares: Seq<ShareInput>) -> Option<ContractError> {
    if input_total(shares) > PERCENT_ONE {
        Some(ContractError::PercentageLimitExceeded)
    } else if input_total(shares) < PERCENT_ONE {
        Some(ContractError::PercentageLimitNotMet)
    } else if !all_valid(shares) {
        Some(ContractError::InvalidRecipient)
    } else {
        None
    }
}

/// `c` once locked: the same admin and shares, and no longer mutable.
pub open spec fn locked(c: Contract) -> Contract {
    Contract { config: Config { admin: c.config.admin, mutable: false }, shares: c.shares }
}

/// The whole state of one contract instance.
#[derive(Debug, PartialEq, Eq)]
pub struct Contract {
    pub config: Config,
    pub shares: ShareLedger,
}

impl Contract {
    pub open spec fn is_admin(&self, sender: String) -> bool {
        sender@ == self.config.admin@
    }

    /// The error with which a request from `sender` is refused, if any;
    /// `needs_mutable` where the request changes the shares or a child.
    pub open spec fn gate_error(&self, sender: String, needs_mutable: bool) -> Option<
        ContractError,
    > {
        if !self.is_admin(sender) {
            Some(ContractError::Unauthorized)
        } else if needs_mutable && !self.config.mutable {
            Some(ContractError::ContractNotMutable)
        } else {
            None
        }
    }

    /// Only the admin passes; where `needs_mutable`, only while the contract
    /// is not locked.
    pub fn check_gate(&self, sender: &String, needs_mutable: bool) -> (r: Result<(), ContractError>)
        ensures
            match self.gate_error(*sender, needs_mutable) {
                Some(e) => r == Err::<(), ContractError>(e),
                None => r == Ok::<(), ContractError>(()),
            },
    {
        if *sender != self.config.admin {
            return Err(ContractError::Unauthorized);
        }
        if needs_mutable && !self.config.mutable {
            return Err(ContractError::ContractNotMutable);
        }
        Ok(())
    }

    /// The state that `msg` sets up, and the instruction that names the
    /// sender as owner and rewards recipient of the new contract.
    pub fn instantiate(info: &MessageInfo, msg: InstantiateMsg) -> (r: Result<
        (Contract, Vec<Effect>),
        ContractError,
    >)
        ensures
            match proposal_error(msg.shares@) {
                Some(e) => r == Err::<(Contract, Vec<Effect>), ContractError>(e),
                None => r is Ok,
            },
            r matches Ok((c, effects)) ==> {
                &&& commits_to(c.shares@, msg.shares@)
                &&& c.config.mutable == msg.mutable
                &&& c.config.admin == match msg.admin {
                    Some(a) => a,
                    None => info.sender,
                }
                &&& effects@ == seq![
                    Effect::UpdateContractMetadata {
                        contract_address: None,
                        owner_address: Some(info.sender),
                        rewards_address: Some(info.sender),
                    },
                ]
            },
    {
        let shares = ShareLedger::from_inputs(&msg.shares)?;
        let admin = match msg.admin {
            Some(a) => a,
            None => info.sender.clone(),
        };
        let config = Config { admin, mutable: msg.mutable };
        let mut effects: Vec<Effect> = Vec::new();
        effects.push(
            Effect::UpdateContractMetadata {
                contract_address: None,
                owner_address: Some(info.sender.clone()),
                rewards_address: Some(info.sender.clone()),
            },
        );
        assert(effects@ =~= seq![
            Effect::UpdateContractMetadata {
                contract_address: None,
                owner_address: Some(info.sender),
                rewards_address: Some(info.sender),
            },
        ]);
        Ok((Contract { config, shares }, effects))
    }

    /// Replaces every share with `shares`; refused, with nothing changed,
    /// unless the sender is the admin, the contract is not locked, the
    /// percentages sum to exactly one whole and every recipient is valid.
    pub fn update_shares(&mut self, sender: &String, shares: &Vec<ShareInput>) -> (r: Result<
        (),
        ContractError,
    >)
        ensures
            final(self).config == old(self).config,
            match old(self).gate_error(*sender, true) {
                Some(e) => r == Err::<(), ContractError>(e),
                None => match proposal_error(shares@) {
                    Some(e) => r == Err::<(), ContractError>(e),
                    None => r is Ok,
                },
            },
            r is Ok ==> commits_to(final(self).shares@, shares@),
            r is Err ==> *final(self) == *old(self),
    {
        self.check_gate(sender, true)?;
        let ledger = ShareLedger::from_inputs(shares)?;
        self.shares = ledger;
        Ok(())
    }

    /// Locks the contract for good; locking it again changes nothing.
    pub fn lock(&mut self, sender: &String) -> (r: Result<(), ContractError>)
        ensures
            old(self).is_admin(*sender) ==> r is Ok,
            !old(self).is_admin(*sender) ==> r == Err::<(), ContractError>(
                ContractError::Unauthorized,
            ),
            r is Ok ==> *final(self) == locked(*old(self)),
            r is Err ==> *final(self) == *old(self),
    {
        self.check_gate(sender, false)?;
        self.config.mutable = false;
        Ok(())
    }

    /// Carries out `msg` for `info.sender`.
    pub fn execute(&mut self, env: &Env, info: &MessageInfo, msg: ExecuteMsg) -> (r: Result<
        Vec<Effect>,
        ContractError,
    >)
        ensures
            !old(self).is_admin(info.sender) ==> r == Err::<Vec<Effect>, ContractError>(
                ContractError::Unauthorized,
            ),
            r is Err ==> *final(self) == *old(self),
            match msg {
                ExecuteMsg::UpdateShares { shares } => {
                    &&& match old(self).gate_error(info.sender, true) {
                        Some(e) => r == Err::<Vec<Effect>, ContractError>(e),
                        None => match proposal_error(shares@) {
                            Some(e) => r == Err::<Vec<Effect>, ContractError>(e),
                            None => r matches Ok(effects) && effects@.len() == 0,
                        },
                    }
                    &&& r is Ok ==> final(self).config == old(self).config && commits_to(
                        final(self).shares@,
                        shares@,
                    )
                },
                ExecuteMsg::UpdateCustomContractRewardMetadata {
                    address,
                    owner_address,
                    rewards_address,
                } => {
                    &&& match old(self).gate_error(info.sender, true) {
                        Some(e) => r == Err::<Vec<Effect>, ContractError>(e),
                        None => r matches Ok(effects) && effects@ == seq![
                            Effect::UpdateContractMetadata {
                                contract_address: Some(address),
                                owner_address,
                                rewards_address,
                            },
                        ],
                    }
                    &&& *final(self) == *old(self)
                },
                ExecuteMsg::LockContract => {
                    &&& old(self).is_admin(info.sender) ==> (r matches Ok(effects)
                        && effects@.len() == 0)
                    &&& r is Ok ==> *final(self) == locked(*old(self))
                },
                ExecuteMsg::WithdrawRewards => {
                    &&& old(self).is_admin(info.sender) ==> (r matches Ok(effects)
                        && effects@.len() == 1 && withdraws_all(effects@[0]))
                    &&& *final(self) == *old(self)
                },
                ExecuteMsg::DistributeNativeTokens { balance } => {
                    &&& old(self).is_admin(info.sender) ==> (r matches Ok(effects) && effects@
                        == transfers(old(self).shares@, balance.amount, balance.denom))
                    &&& *final(self) == *old(self)
                },
            },
    {
        match msg {
            ExecuteMsg::UpdateShares { shares } => {
                self.update_shares(&info.sender, &shares)?;
                Ok(Vec::new())
            },
            ExecuteMsg::UpdateCustomContractRewardMetadata {
                address,
                owner_address,
                rewards_address,
            } => {
                self.check_gate(&info.sender, true)?;
                let mut effects: Vec<Effect> = Vec::new();
                effects.push(
                    Effect::UpdateContractMetadata {
                        contract_address: Some(address),
                        owner_address,
                        rewards_address,
                    },
                );
                Ok(effects)
            },
            ExecuteMsg::LockContract => {
                self.lock(&info.sender)?;
                Ok(Vec::new())
            },
            ExecuteMsg::WithdrawRewards => {
                self.check_gate(&info.sender, false)?;
                let mut effects: Vec<Effect> = Vec::new();
                effects.push(
                    Effect::WithdrawRewards { records_limit: Some(0), record_ids: Vec::new() },
                );
                Ok(effects)
            },
            ExecuteMsg::DistributeNativeTokens { balance } => {
                self.check_gate(&info.sender, false)?;
                Ok(self.shares.payouts(balance.amount, &balance.denom))
            },
        }
    }

    /// Answers `msg`; reads pass no gate.
    pub fn query(&self, msg: &QueryMsg) -> (r: Result<QueryResponse, ContractError>)
        ensures
            match *msg {
                QueryMsg::Config => r == Ok::<QueryResponse, ContractError>(
                    QueryResponse::Config(self.config),
                ),
                QueryMsg::Share { recipient } => {
                    &&& !names(self.shares@, key_of(recipient)) ==> r == Err::<
                        QueryResponse,
                        ContractError,
                    >(ContractError::NotFound)
                    &&& names(self.shares@, key_of(recipient)) ==> (r matches Ok(
                        QueryResponse::Share(sh),
                    ) && exists|i: int|
                        0 <= i < self.shares@.len() && self.shares@[i] == sh && key_of(
                            sh.recipient,
                        ) == key_of(recipient))
                },
                QueryMsg::Shares { start_after, limit } => r matches Ok(QueryResponse::Shares(v))
                    && v@ == page_of(
                    self.shares@,
                    match start_after {
                        Some(c) => page_start(self.shares@, key_of(c)),
                        None => 0,
                    },
                    match limit {
                        Some(n) => n as int,
                        None => DEFAULT_LIMIT as int,
                    },
                ),
            },
    {
        match msg {
            QueryMsg::Config => Ok(QueryResponse::Config(self.config.duplicate())),
            QueryMsg::Share { recipient } => match self.shares.find(recipient) {
                Some(sh) => Ok(QueryResponse::Share(sh)),
                None => Err(ContractError::NotFound),
            },
            QueryMsg::Shares { start_after, limit } => {
                let n: u8 = match limit {
                    Some(n) => *n,
                    None => DEFAULT_LIMIT,
                };
                Ok(QueryResponse::Shares(self.shares.page(start_after, n as usize)))
            },
        }
    }
}

} // verus!
