//! Fee configuration, fee payments, their consumption, cancellation and
//! refunds.
//!
//! Token movements are not made here: an operation that moves tokens returns
//! the `Transfer` to perform, and the caller performs it in the same
//! transaction.
use vstd::prelude::*;
use std::collections::HashMap;
use crate::admin_action_log::{AdminActionLog, AdminActionType};
use crate::admin_manager::AdminManager;
use crate::constants::FEE_PAYMENT_EXPIRY_SECONDS;
use crate::types::{Addr, ContractError, ProjectBook, VerificationStatus};

verus! {

broadcast use vstd::std_specs::hash::group_hash_axioms;

/// The fees the contract charges and the token they are paid in.
#[derive(Clone, Copy, Debug, PartialEq, Eq, Structural)]
pub struct FeeConfig {
    pub token: Option<Addr>,
    pub verification_fee: u128,
    pub registration_fee: u128,
}

/// A recorded fee payment.
#[derive(Clone, Copy, Debug, PartialEq, Eq, Structural)]
pub struct FeePaymentRecord {
    pub paid_at: u64,
    pub payer: Addr,
    pub amount: u128,
    pub token: Option<Addr>,
}

/// One change of the fee configuration.
#[derive(Clone, Copy, Debug, PartialEq, Eq, Structural)]
pub struct FeeConfigHistoryEntry {
    pub admin: Addr,
    pub old_token: Option<Addr>,
    pub old_verification_fee: Option<u128>,
    pub old_registration_fee: Option<u128>,
    pub old_treasury: Option<Addr>,
    pub token: Option<Addr>,
    pub verification_fee: u128,
    pub registration_fee: u128,
    pub treasury: Addr,
    pub timestamp: u64,
}

/// A refund owed to the payer of a verification fee.
#[derive(Clone, Copy, Debug, PartialEq, Eq, Structural)]
pub struct FeeRefundRecord {
    pub project_id: u64,
    pub request_id: u64,
    pub payer: Addr,
    pub amount: u128,
    pub token: Option<Addr>,
    pub created_at: u64,
    pub claimed_at: Option<u64>,
}

/// A token movement that an operation asks its caller to perform.
#[derive(Clone, Copy, Debug, PartialEq, Eq, Structural)]
pub struct Transfer {
    pub token: Addr,
    pub from: Addr,
    pub to: Addr,
    pub amount: u128,
}

/// The fee state: configuration, treasury, history, payments and refunds.
/// Payments for projects are keyed by project id, registration payments by
/// the payer's address id.
pub struct FeeManager {
    pub fee_config: Option<FeeConfig>,
    pub treasury: Option<Addr>,
    pub history: Vec<FeeConfigHistoryEntry>,
    pub project_paid: HashMap<u64, bool>,
    pub project_payments: HashMap<u64, FeePaymentRecord>,
    pub registration_paid: HashMap<u64, bool>,
    pub registration_payments: HashMap<u64, FeePaymentRecord>,
    pub refunds: HashMap<u64, FeeRefundRecord>,
}

impl FeeManager {
    pub fn new() -> (f: FeeManager)
        ensures
            f.fee_config.is_none(),
            f.treasury.is_none(),
            f.history@.len() == 0,
            f.project_paid@ == Map::<u64, bool>::empty(),
            f.project_payments@ == Map::<u64, FeePaymentRecord>::empty(),
            f.registration_paid@ == Map::<u64, bool>::empty(),
            f.registration_payments@ == Map::<u64, FeePaymentRecord>::empty(),
            f.refunds@ == Map::<u64, FeeRefundRecord>::empty(),
    {
        FeeManager {
            fee_config: None,
            treasury: None,
            history: Vec::new(),
            project_paid: HashMap::new(),
            project_payments: HashMap::new(),
            registration_paid: HashMap::new(),
            registration_payments: HashMap::new(),
            refunds: HashMap::new(),
        }
    }
}


/// Which payment a fee operation concerns: a project's verification fee, or
/// an address's registration fee.
#[derive(Clone, Copy, Debug, PartialEq, Eq, Structural)]
pub enum FeeOperation {
    Verification,
    Registration,
}

/// The value under `k`, if any.
pub open spec fn lookup<V>(m: Map<u64, V>, k: u64) -> Option<V> {
    if m.contains_key(k) { Some(m[k]) } else { None }
}

/// Whether the flag under `k` is set.
pub open spec fn flag(m: Map<u64, bool>, k: u64) -> bool {
    m.contains_key(k) && m[k]
}

/// The error, if any, that refuses a payment of `amount` in `token`.
pub open spec fn payment_error(config: Option<FeeConfig>, treasury: Option<Addr>, amount: u128, token: Option<Addr>) -> Option<
    ContractError,
> {
    if config is None {
        Some(ContractError::FeeConfigNotSet)
    } else if treasury is None {
        Some(ContractError::TreasuryNotSet)
    } else if config->Some_0.token != token {
        Some(ContractError::InvalidProjectData)
    } else if amount > 0 && amount > i128::MAX {
        Some(ContractError::InvalidProjectData)
    } else if amount > 0 && config->Some_0.token is None {
        Some(ContractError::FeeConfigNotSet)
    } else {
        None
    }
}

/// The transfer a payment of `amount` asks for: none for a zero amount.
pub open spec fn payment_transfer(config: Option<FeeConfig>, treasury: Option<Addr>, payer: Addr, amount: u128) -> Option<
    Transfer,
> {
    if amount > 0 {
        Some(Transfer { token: config->Some_0.token->Some_0, from: payer, to: treasury->Some_0, amount })
    } else {
        None
    }
}

impl FeeManager {
    /// Sets the fees, token and treasury on the word of an administrator,
    /// appends the change to the history and logs it. Refused while changes
    /// need several approvals.
    pub fn set_fee(
        &mut self,
        admin: Addr,
        token: Option<Addr>,
        verification_fee: u128,
        registration_fee: u128,
        treasury: Addr,
        now: u64,
        admins: &AdminManager,
        log: &mut AdminActionLog,
    ) -> (r: Result<(), ContractError>)
        requires
            old(log).wf(),
            old(log).has_room(),
        ensures
            final(log).wf(),
            r == (if !admins.spec_is_admin(admin) {
                Err(ContractError::AdminOnly)
            } else if admins.spec_threshold() > 1 {
                Err(ContractError::Unauthorized)
            } else {
                Ok::<(), ContractError>(())
            }),
            r is Err ==> *final(self) == *old(self) && *final(log) == *old(log),
            r is Ok ==> {
                let oc = old(self).fee_config;
                &&& final(self).fee_config == Some(FeeConfig { token, verification_fee, registration_fee })
                &&& final(self).treasury == Some(treasury)
                &&& final(self).history@ == old(self).history@.push(
                    FeeConfigHistoryEntry {
                        admin,
                        old_token: match oc { Some(c) => c.token, None => None },
                        old_verification_fee: match oc { Some(c) => Some(c.verification_fee), None => None },
                        old_registration_fee: match oc { Some(c) => Some(c.registration_fee), None => None },
                        old_treasury: old(self).treasury,
                        token,
                        verification_fee,
                        registration_fee,
                        treasury,
                        timestamp: now,
                    },
                )
                &&& *final(self) == FeeManager {
                    fee_config: final(self).fee_config,
                    treasury: final(self).treasury,
                    history: final(self).history,
                    ..*old(self)
                }
                &&& AdminActionLog::records(old(log), final(log), admin, AdminActionType::FeeChanged, None, None, now)
            },
    {
        admins.require_admin(admin)?;
        if admins.get_admin_approval_threshold() > 1 {
            return Err(ContractError::Unauthorized);
        }
        let old_config = self.fee_config;
        let old_treasury = self.treasury;
        self.fee_config = Some(FeeConfig { token, verification_fee, registration_fee });
        self.treasury = Some(treasury);
        let entry = FeeConfigHistoryEntry {
            admin,
            old_token: match old_config {
                Some(c) => c.token,
                None => None,
            },
            old_verification_fee: match old_config {
                Some(c) => Some(c.verification_fee),
                None => None,
            },
            old_registration_fee: match old_config {
                Some(c) => Some(c.registration_fee),
                None => None,
            },
            old_treasury,
            token,
            verification_fee,
            registration_fee,
            treasury,
            timestamp: now,
        };
        self.history.push(entry);
        log.record_action(admin, AdminActionType::FeeChanged, None, None, None, now);
        Ok(())
    }

    /// The fee configuration, or `FeeConfigNotSet`.
    pub fn get_fee_config(&self) -> (r: Result<FeeConfig, ContractError>)
        ensures
            r == (match self.fee_config {
                Some(c) => Ok(c),
                None => Err(ContractError::FeeConfigNotSet),
            }),
    {
        match self.fee_config {
            Some(c) => Ok(c),
            None => Err(ContractError::FeeConfigNotSet),
        }
    }

    /// All fee configuration changes, oldest first.
    pub fn get_fee_config_history(&self) -> (r: &Vec<FeeConfigHistoryEntry>)
        ensures
            r@ == self.history@,
    {
        &self.history
    }

    /// Checks a payment against the configuration and the treasury and
    /// returns the transfer it needs.
    fn check_payment(&self, payer: Addr, amount: u128, token: Option<Addr>) -> (r: Result<Option<Transfer>, ContractError>)
        ensures
            payment_error(self.fee_config, self.treasury, amount, token) is Some ==> r == Err::<Option<Transfer>, ContractError>(
                payment_error(self.fee_config, self.treasury, amount, token)->Some_0,
            ),
            payment_error(self.fee_config, self.treasury, amount, token) is None ==> r == Ok::<Option<Transfer>, ContractError>(
                payment_transfer(self.fee_config, self.treasury, payer, amount),
            ),
    {
        let config = self.get_fee_config()?;
        let treasury = match self.treasury {
            Some(t) => t,
            None => return Err(ContractError::TreasuryNotSet),
        };
        if config.token != token {
            return Err(ContractError::InvalidProjectData);
        }
        if amount > 0 {
            if amount > i128::MAX as u128 {
                return Err(ContractError::InvalidProjectData);
            }
            let token_address = match config.token {
                Some(t) => t,
                None => return Err(ContractError::FeeConfigNotSet),
            };
            return Ok(Some(Transfer { token: token_address, from: payer, to: treasury, amount }));
        }
        Ok(None)
    }

    /// Pays the verification fee of a project; only its owner may pay. On
    /// success the payment is recorded and the transfer it needs, if any, is
    /// returned for the caller to perform.
    pub fn pay_fee(&mut self, payer: Addr, project_id: u64, token: Option<Addr>, now: u64, projects: &ProjectBook) -> (r:
        Result<Option<Transfer>, ContractError>)
        ensures
            ({
                let amount = self_fee(old(self).fee_config).0;
                let err = if !projects.has(project_id) {
                    Some(ContractError::ProjectNotFound)
                } else if projects.at(project_id).owner != payer {
                    Some(ContractError::Unauthorized)
                } else {
                    payment_error(old(self).fee_config, old(self).treasury, amount, token)
                };
                &&& err is Some ==> r == Err::<Option<Transfer>, ContractError>(err->Some_0) && *final(self) == *old(self)
                &&& err is None ==> {
                    &&& r == Ok::<Option<Transfer>, ContractError>(payment_transfer(old(self).fee_config, old(self).treasury, payer, amount))
                    &&& final(self).project_paid@ == old(self).project_paid@.insert(project_id, true)
                    &&& final(self).project_payments@ == old(self).project_payments@.insert(
                        project_id,
                        FeePaymentRecord { paid_at: now, payer, amount, token },
                    )
                    &&& *final(self) == FeeManager {
                        project_paid: final(self).project_paid,
                        project_payments: final(self).project_payments,
                        ..*old(self)
                    }
                }
            }),
    {
        match projects.get_project(project_id) {
            Some(p) => {
                if p.owner != payer {
                    return Err(ContractError::Unauthorized);
                }
            },
            None => return Err(ContractError::ProjectNotFound),
        }
        let amount = self.get_fee_config()?.verification_fee;
        let transfer = self.check_payment(payer, amount, token)?;
        self.project_paid.insert(project_id, true);
        self.project_payments.insert(project_id, FeePaymentRecord { paid_at: now, payer, amount, token });
        Ok(transfer)
    }

    /// Pays the registration fee of `payer`. On success the payment is
    /// recorded and the transfer it needs, if any, is returned.
    pub fn pay_registration_fee(&mut self, payer: Addr, token: Option<Addr>, now: u64) -> (r: Result<
        Option<Transfer>,
        ContractError,
    >)
        ensures
            ({
                let amount = self_fee(old(self).fee_config).1;
                let err = payment_error(old(self).fee_config, old(self).treasury, amount, token);
                &&& err is Some ==> r == Err::<Option<Transfer>, ContractError>(err->Some_0) && *final(self) == *old(self)
                &&& err is None ==> {
                    &&& r == Ok::<Option<Transfer>, ContractError>(payment_transfer(old(self).fee_config, old(self).treasury, payer, amount))
                    &&& final(self).registration_paid@ == old(self).registration_paid@.insert(payer.id, true)
                    &&& final(self).registration_payments@ == old(self).registration_payments@.insert(
                        payer.id,
                        FeePaymentRecord { paid_at: now, payer, amount, token },
                    )
                    &&& *final(self) == FeeManager {
                        registration_paid: final(self).registration_paid,
                        registration_payments: final(self).registration_payments,
                        ..*old(self)
                    }
                }
            }),
    {
        let amount = self.get_fee_config()?.registration_fee;
        let transfer = self.check_payment(payer, amount, token)?;
        self.registration_paid.insert(payer.id, true);
        self.registration_payments.insert(payer.id, FeePaymentRecord { paid_at: now, payer, amount, token });
        Ok(transfer)
    }

    /// Whether the verification fee of a project is paid and unused.
    pub fn is_fee_paid(&self, project_id: u64) -> (r: bool)
        ensures
            r == flag(self.project_paid@, project_id),
    {
        match self.project_paid.get(&project_id) {
            Some(b) => *b,
            None => false,
        }
    }

    /// Whether the registration fee of `address` is paid and unused.
    pub fn is_registration_fee_paid(&self, address: Addr) -> (r: bool)
        ensures
            r == flag(self.registration_paid@, address.id),
    {
        match self.registration_paid.get(&address.id) {
            Some(b) => *b,
            None => false,
        }
    }

    /// The recorded verification-fee payment of a project.
    pub fn get_fee_payment_details(&self, project_id: u64) -> (r: Option<FeePaymentRecord>)
        ensures
            r == lookup(self.project_payments@, project_id),
    {
        match self.project_payments.get(&project_id) {
            Some(rec) => Some(*rec),
            None => None,
        }
    }

    /// The recorded registration-fee payment of `address`.
    pub fn get_registration_fee_payment_details(&self, address: Addr) -> (r: Option<FeePaymentRecord>)
        ensures
            r == lookup(self.registration_payments@, address.id),
    {
        match self.registration_payments.get(&address.id) {
            Some(rec) => Some(*rec),
            None => None,
        }
    }

    /// Uses up the verification-fee payment of a project. Refused when none
    /// is paid, and once the payment is a week old.
    pub fn consume_fee_payment(&mut self, project_id: u64, caller: Addr, amount: u128, now: u64) -> (r: Result<
        (),
        ContractError,
    >)
        requires
            old(self).project_payments@.contains_key(project_id) ==> old(self).project_payments@[project_id].paid_at
                + FEE_PAYMENT_EXPIRY_SECONDS <= u64::MAX,
        ensures
            r == (if !flag(old(self).project_paid@, project_id) || !old(self).project_payments@.contains_key(project_id) {
                Err(ContractError::InsufficientFee)
            } else if now >= old(self).project_payments@[project_id].paid_at + FEE_PAYMENT_EXPIRY_SECONDS {
                Err(ContractError::FeePaymentExpired)
            } else {
                Ok::<(), ContractError>(())
            }),
            r is Err ==> *final(self) == *old(self),
            r is Ok ==> final(self).project_paid@ == old(self).project_paid@.remove(project_id)
                && *final(self) == (FeeManager { project_paid: final(self).project_paid, ..*old(self) }),
    {
        if !self.is_fee_paid(project_id) {
            return Err(ContractError::InsufficientFee);
        }
        let record = match self.get_fee_payment_details(project_id) {
            Some(rec) => rec,
            None => return Err(ContractError::InsufficientFee),
        };
        if now >= record.paid_at + FEE_PAYMENT_EXPIRY_SECONDS {
            return Err(ContractError::FeePaymentExpired);
        }
        self.project_paid.remove(&project_id);
        Ok(())
    }

    /// Uses up the registration-fee payment of `address`. Refused when none
    /// is paid, and once the payment is a week old.
    pub fn consume_registration_fee_payment(&mut self, address: Addr, amount: u128, now: u64) -> (r: Result<
        (),
        ContractError,
    >)
        requires
            old(self).registration_payments@.contains_key(address.id) ==> old(self).registration_payments@[address.id].paid_at
                + FEE_PAYMENT_EXPIRY_SECONDS <= u64::MAX,
        ensures
            r == (if !flag(old(self).registration_paid@, address.id) || !old(self).registration_payments@.contains_key(address.id) {
                Err(ContractError::InsufficientFee)
            } else if now >= old(self).registration_payments@[address.id].paid_at + FEE_PAYMENT_EXPIRY_SECONDS {
                Err(ContractError::FeePaymentExpired)
            } else {
                Ok::<(), ContractError>(())
            }),
            r is Err ==> *final(self) == *old(self),
            r is Ok ==> final(self).registration_paid@ == old(self).registration_paid@.remove(address.id)
                && *final(self) == (FeeManager { registration_paid: final(self).registration_paid, ..*old(self) }),
    {
        if !self.is_registration_fee_paid(address) {
            return Err(ContractError::InsufficientFee);
        }
        let record = match self.get_registration_fee_payment_details(address) {
            Some(rec) => rec,
            None => return Err(ContractError::InsufficientFee),
        };
        if now >= record.paid_at + FEE_PAYMENT_EXPIRY_SECONDS {
            return Err(ContractError::FeePaymentExpired);
        }
        self.registration_paid.remove(&address.id);
        Ok(())
    }

    /// Cancels the unused verification-fee payment of a project on the word
    /// of its payer or an administrator, while no verification is pending or
    /// granted. A positive payment is refunded: the returned transfer moves
    /// it from the treasury back to the payer. An administrator's
    /// cancellation is logged.
    pub fn cancel_fee_payment(
        &mut self,
        caller: Addr,
        project_id: u64,
        now: u64,
        admins: &AdminManager,
        projects: &ProjectBook,
        log: &mut AdminActionLog,
    ) -> (r: Result<Option<Transfer>, ContractError>)
        requires
            old(log).wf(),
            old(log).has_room(),
        ensures
            final(log).wf(),
            ({
                let rec = old(self).project_payments@[project_id];
                let is_admin = admins.spec_is_admin(caller);
                let status = projects.at(project_id).verification_status;
                let err = if !flag(old(self).project_paid@, project_id) || !old(self).project_payments@.contains_key(project_id) {
                    Some(ContractError::InsufficientFee)
                } else if caller != rec.payer && !is_admin {
                    Some(ContractError::Unauthorized)
                } else if projects.has(project_id) && (status == VerificationStatus::Pending
                    || status == VerificationStatus::Verified) {
                    Some(ContractError::InvalidStatus)
                } else if rec.amount > 0 && rec.token is None {
                    Some(ContractError::FeeConfigNotSet)
                } else if rec.amount > 0 && old(self).treasury is None {
                    Some(ContractError::TreasuryNotSet)
                } else {
                    None
                };
                &&& err is Some ==> r == Err::<Option<Transfer>, ContractError>(err->Some_0) && *final(self) == *old(self)
                    && *final(log) == *old(log)
                &&& err is None ==> {
                    &&& r == Ok::<Option<Transfer>, ContractError>(
                        if rec.amount > 0 {
                            Some(Transfer { token: rec.token->Some_0, from: old(self).treasury->Some_0, to: rec.payer, amount: rec.amount })
                        } else {
                            None
                        },
                    )
                    &&& final(self).project_paid@ == old(self).project_paid@.remove(project_id)
                    &&& final(self).project_payments@ == old(self).project_payments@.remove(project_id)
                    &&& *final(self) == FeeManager {
                        project_paid: final(self).project_paid,
                        project_payments: final(self).project_payments,
                        ..*old(self)
                    }
                    &&& is_admin ==> AdminActionLog::records(old(log), final(log), caller, AdminActionType::FeeRefunded, Some(project_id), None, now)
                    &&& !is_admin ==> *final(log) == *old(log)
                }
            }),
    {
        if !self.is_fee_paid(project_id) {
            return Err(ContractError::InsufficientFee);
        }
        let record = match self.get_fee_payment_details(project_id) {
            Some(rec) => rec,
            None => return Err(ContractError::InsufficientFee),
        };
        let is_admin = admins.is_admin(caller);
        if caller != record.payer && !is_admin {
            return Err(ContractError::Unauthorized);
        }
        if let Some(project) = projects.get_project(project_id) {
            if project.verification_status == VerificationStatus::Pending
                || project.verification_status == VerificationStatus::Verified {
                return Err(ContractError::InvalidStatus);
            }
        }
        let mut transfer: Option<Transfer> = None;
        if record.amount > 0 {
            let token_address = match record.token {
                Some(t) => t,
                None => return Err(ContractError::FeeConfigNotSet),
            };
            let treasury = match self.treasury {
                Some(t) => t,
                None => return Err(ContractError::TreasuryNotSet),
            };
            transfer = Some(Transfer { token: token_address, from: treasury, to: record.payer, amount: record.amount });
        }
        self.project_paid.remove(&project_id);
        self.project_payments.remove(&project_id);
        if is_admin {
            log.record_action(caller, AdminActionType::FeeRefunded, Some(project_id), None, None, now);
        }
        Ok(transfer)
    }

    /// The refund recorded for a project, claimed or not.
    pub fn get_fee_refund(&self, project_id: u64) -> (r: Option<FeeRefundRecord>)
        ensures
            r == lookup(self.refunds@, project_id),
    {
        match self.refunds.get(&project_id) {
            Some(rec) => Some(*rec),
            None => None,
        }
    }

    /// Records a claimable refund of `amount` for a rejected verification
    /// request. Nothing is recorded for a zero amount. An unclaimed earlier
    /// refund of the project is added to, never overwritten; the refund is
    /// in the token that was paid, else the configured one.
    pub fn record_verification_refund(
        &mut self,
        project_id: u64,
        request_id: u64,
        payer: Addr,
        amount: u128,
        now: u64,
    ) -> (r: Result<Option<FeeRefundRecord>, ContractError>)
        ensures
            ({
                let prev = lookup(old(self).refunds@, project_id);
                let pending = prev is Some && prev->Some_0.claimed_at is None;
                let total: int = if pending { prev->Some_0.amount + amount } else { amount as int };
                let token = match lookup(old(self).project_payments@, project_id) {
                    Some(rec) => rec.token,
                    None => match old(self).fee_config {
                        Some(c) => c.token,
                        None => None,
                    },
                };
                &&& amount == 0 ==> r == Ok::<Option<FeeRefundRecord>, ContractError>(None) && *final(self) == *old(self)
                &&& amount > 0 && total > u128::MAX ==> r == Err::<Option<FeeRefundRecord>, ContractError>(
                    ContractError::ArithmeticOverflow,
                ) && *final(self) == *old(self)
                &&& amount > 0 && total <= u128::MAX ==> {
                    let refund = FeeRefundRecord {
                        project_id,
                        request_id,
                        payer,
                        amount: total as u128,
                        token,
                        created_at: now,
                        claimed_at: None,
                    };
                    &&& r == Ok::<Option<FeeRefundRecord>, ContractError>(Some(refund))
                    &&& final(self).refunds@ == old(self).refunds@.insert(project_id, refund)
                    &&& *final(self) == FeeManager { refunds: final(self).refunds, ..*old(self) }
                }
            }),
    {
        if amount == 0 {
            return Ok(None);
        }
        let token = match self.get_fee_payment_details(project_id) {
            Some(rec) => rec.token,
            None => match self.fee_config {
                Some(c) => c.token,
                None => None,
            },
        };
        let total = match self.get_fee_refund(project_id) {
            Some(existing) => {
                if existing.claimed_at.is_none() {
                    match existing.amount.checked_add(amount) {
                        Some(t) => t,
                        None => return Err(ContractError::ArithmeticOverflow),
                    }
                } else {
                    amount
                }
            },
            None => amount,
        };
        let refund = FeeRefundRecord {
            project_id,
            request_id,
            payer,
            amount: total,
            token,
            created_at: now,
            claimed_at: None,
        };
        self.refunds.insert(project_id, refund);
        Ok(Some(refund))
    }

    /// Pays out a recorded refund on the word of its payer or an
    /// administrator. The refund is marked claimed and the returned transfer
    /// moves it from the treasury to the recorded payer, whoever asked. An
    /// administrator's claim is logged.
    pub fn claim_fee_refund(
        &mut self,
        caller: Addr,
        project_id: u64,
        now: u64,
        admins: &AdminManager,
        log: &mut AdminActionLog,
    ) -> (r: Result<Transfer, ContractError>)
        requires
            old(log).wf(),
            old(log).has_room(),
        ensures
            final(log).wf(),
            ({
                let refund = old(self).refunds@[project_id];
                let is_admin = admins.spec_is_admin(caller);
                let err = if !old(self).refunds@.contains_key(project_id) {
                    Some(ContractError::NoRefundAvailable)
                } else if refund.claimed_at is Some {
                    Some(ContractError::RefundAlreadyClaimed)
                } else if caller != refund.payer && !is_admin {
                    Some(ContractError::Unauthorized)
                } else if refund.token is None {
                    Some(ContractError::FeeConfigNotSet)
                } else if old(self).treasury is None {
                    Some(ContractError::TreasuryNotSet)
                } else {
                    None
                };
                &&& err is Some ==> r == Err::<Transfer, ContractError>(err->Some_0) && *final(self) == *old(self)
                    && *final(log) == *old(log)
                &&& err is None ==> {
                    &&& r == Ok::<Transfer, ContractError>(
                        Transfer { token: refund.token->Some_0, from: old(self).treasury->Some_0, to: refund.payer, amount: refund.amount },
                    )
                    &&& final(self).refunds@ == old(self).refunds@.insert(project_id, FeeRefundRecord { claimed_at: Some(now), ..refund })
                    &&& *final(self) == FeeManager { refunds: final(self).refunds, ..*old(self) }
                    &&& is_admin ==> AdminActionLog::records(old(log), final(log), caller, AdminActionType::FeeRefunded, Some(project_id), None, now)
                    &&& !is_admin ==> *final(log) == *old(log)
                }
            }),
    {
        let mut refund = match self.get_fee_refund(project_id) {
            Some(rf) => rf,
            None => return Err(ContractError::NoRefundAvailable),
        };
        if refund.claimed_at.is_some() {
            return Err(ContractError::RefundAlreadyClaimed);
        }
        let is_admin = admins.is_admin(caller);
        if caller != refund.payer && !is_admin {
            return Err(ContractError::Unauthorized);
        }
        let token_address = match refund.token {
            Some(t) => t,
            None => return Err(ContractError::FeeConfigNotSet),
        };
        let treasury = match self.treasury {
            Some(t) => t,
            None => return Err(ContractError::TreasuryNotSet),
        };
        refund.claimed_at = Some(now);
        self.refunds.insert(project_id, refund);
        if is_admin {
            log.record_action(caller, AdminActionType::FeeRefunded, Some(project_id), None, None, now);
        }
        Ok(Transfer { token: token_address, from: treasury, to: refund.payer, amount: refund.amount })
    }
}

/// The verification and registration fees of a configuration (0 when
/// unset; a payment then fails on the missing configuration).
pub open spec fn self_fee(c: Option<FeeConfig>) -> (u128, u128) {
    match c {
        Some(c) => (c.verification_fee, c.registration_fee),
        None => (0, 0),
    }
}

/// A fee payment is used up at most once: after a successful
/// `consume_fee_payment` the project no longer counts as paid, so consuming
/// it again is refused with `InsufficientFee` until a new payment is made.
pub proof fn lemma_payment_consumed_once(before: FeeManager, after: FeeManager, project_id: u64)
    requires
        flag(before.project_paid@, project_id),
        after.project_paid@ == before.project_paid@.remove(project_id),
    ensures
        !flag(after.project_paid@, project_id),
        forall|k: u64| k != project_id ==> #[trigger] flag(after.project_paid@, k) == flag(before.project_paid@, k),
{
}

/// A refund is paid out at most once: after a successful `claim_fee_refund`
/// the refund carries its claim time, so claiming it again is refused with
/// `RefundAlreadyClaimed`.
pub proof fn lemma_refund_claimed_once(before: FeeManager, after: FeeManager, project_id: u64, now: u64)
    requires
        before.refunds@.contains_key(project_id),
        before.refunds@[project_id].claimed_at is None,
        after.refunds@ == before.refunds@.insert(
            project_id,
            FeeRefundRecord { claimed_at: Some(now), ..before.refunds@[project_id] },
        ),
    ensures
        after.refunds@.contains_key(project_id),
        after.refunds@[project_id].claimed_at is Some,
        after.refunds@[project_id].amount == before.refunds@[project_id].amount,
        after.refunds@[project_id].payer == before.refunds@[project_id].payer,
{
}

} // verus!
