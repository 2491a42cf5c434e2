//! Enforced `[min, max]` ranges for the governance parameters.
//!
//! Every parameter has a stored range, or a built-in default when none was
//! stored. A new range must contain the parameter's current value, and
//! changing a range directly is refused once the approval threshold is above
//! one; a range change then goes through a `SetParamRange` proposal, which
//! `AdminManager::execute_proposal` applies with `apply_range`.
use vstd::prelude::*;
use crate::admin_action_log::{AdminActionLog, AdminActionType};
use crate::admin_manager::AdminManager;
use crate::fee_manager::FeeManager;
use crate::types::{Addr, ContractError};

verus! {

pub const MIN_APPROVAL_THRESHOLD: u128 = 1;
pub const MAX_APPROVAL_THRESHOLD: u128 = 20;
pub const MAX_VERIFICATION_FEE: u128 = 1_000_000_000_000;
pub const MAX_REGISTRATION_FEE: u128 = 1_000_000_000_000;
pub const MAX_REVIEW_FEE: u128 = 1_000_000_000_000;
pub const MIN_VERIFICATION_DURATION_SECS: u128 = 86_400;
pub const MAX_VERIFICATION_DURATION_SECS: u128 = 157_680_000;
pub const MIN_MAX_REVIEWS_PER_PROJECT: u128 = 1;
pub const MAX_MAX_REVIEWS_PER_PROJECT: u128 = 100_000;

/// The governed parameters.
#[derive(Clone, Copy, Debug, PartialEq, Eq, Structural)]
pub enum GovernanceParam {
    ApprovalThreshold,
    VerificationFee,
    RegistrationFee,
    ReviewFee,
    VerificationDuration,
    MaxReviewsPerProject,
}

/// An inclusive range of allowed values.
#[derive(Clone, Copy, Debug, PartialEq, Eq, Structural)]
pub struct ParamRange {
    pub min: u128,
    pub max: u128,
}

impl ParamRange {
    pub open spec fn spec_contains(&self, value: u128) -> bool {
        self.min <= value <= self.max
    }

    /// Whether `value` lies in the range.
    pub fn contains(&self, value: u128) -> (r: bool)
        ensures
            r == self.spec_contains(value),
    {
        self.min <= value && value <= self.max
    }
}

/// The built-in range of each parameter.
pub open spec fn spec_default_range(param: GovernanceParam) -> ParamRange {
    match param {
        GovernanceParam::ApprovalThreshold => ParamRange { min: MIN_APPROVAL_THRESHOLD, max: MAX_APPROVAL_THRESHOLD },
        GovernanceParam::VerificationFee => ParamRange { min: 0, max: MAX_VERIFICATION_FEE },
        GovernanceParam::RegistrationFee => ParamRange { min: 0, max: MAX_REGISTRATION_FEE },
        GovernanceParam::ReviewFee => ParamRange { min: 0, max: MAX_REVIEW_FEE },
        GovernanceParam::VerificationDuration => ParamRange {
            min: MIN_VERIFICATION_DURATION_SECS,
            max: MAX_VERIFICATION_DURATION_SECS,
        },
        GovernanceParam::MaxReviewsPerProject => ParamRange {
            min: MIN_MAX_REVIEWS_PER_PROJECT,
            max: MAX_MAX_REVIEWS_PER_PROJECT,
        },
    }
}

/// The stored range of each parameter; `None` means the built-in default.
pub struct GovernanceRanges {
    pub approval_threshold: Option<ParamRange>,
    pub verification_fee: Option<ParamRange>,
    pub registration_fee: Option<ParamRange>,
    pub review_fee: Option<ParamRange>,
    pub verification_duration: Option<ParamRange>,
    pub max_reviews_per_project: Option<ParamRange>,
}

/// The parameter values that live outside the admin and fee state.
#[derive(Clone, Copy, Debug, PartialEq, Eq, Structural)]
pub struct ExternalParams {
    pub review_fee: u128,
    pub max_reviews_per_project: u32,
}

impl GovernanceRanges {
    pub fn new() -> (g: GovernanceRanges)
        ensures
            g.approval_threshold.is_none(),
            g.verification_fee.is_none(),
            g.registration_fee.is_none(),
            g.review_fee.is_none(),
            g.verification_duration.is_none(),
            g.max_reviews_per_project.is_none(),
    {
        GovernanceRanges {
            approval_threshold: None,
            verification_fee: None,
            registration_fee: None,
            review_fee: None,
            verification_duration: None,
            max_reviews_per_project: None,
        }
    }

    pub open spec fn stored(&self, param: GovernanceParam) -> Option<ParamRange> {
        match param {
            GovernanceParam::ApprovalThreshold => self.approval_threshold,
            GovernanceParam::VerificationFee => self.verification_fee,
            GovernanceParam::RegistrationFee => self.registration_fee,
            GovernanceParam::ReviewFee => self.review_fee,
            GovernanceParam::VerificationDuration => self.verification_duration,
            GovernanceParam::MaxReviewsPerProject => self.max_reviews_per_project,
        }
    }

    /// The range in force: the stored one, else the default.
    pub open spec fn spec_range(&self, param: GovernanceParam) -> ParamRange {
        match self.stored(param) {
            Some(r) => r,
            None => spec_default_range(param),
        }
    }

    /// The built-in range of `param`.
    pub fn default_range(param: GovernanceParam) -> (r: ParamRange)
        ensures
            r == spec_default_range(param),
    {
        match param {
            GovernanceParam::ApprovalThreshold => ParamRange {
                min: MIN_APPROVAL_THRESHOLD,
                max: MAX_APPROVAL_THRESHOLD,
            },
            GovernanceParam::VerificationFee => ParamRange { min: 0, max: MAX_VERIFICATION_FEE },
            GovernanceParam::RegistrationFee => ParamRange { min: 0, max: MAX_REGISTRATION_FEE },
            GovernanceParam::ReviewFee => ParamRange { min: 0, max: MAX_REVIEW_FEE },
            GovernanceParam::VerificationDuration => ParamRange {
                min: MIN_VERIFICATION_DURATION_SECS,
                max: MAX_VERIFICATION_DURATION_SECS,
            },
            GovernanceParam::MaxReviewsPerProject => ParamRange {
                min: MIN_MAX_REVIEWS_PER_PROJECT,
                max: MAX_MAX_REVIEWS_PER_PROJECT,
            },
        }
    }

    /// Every governed parameter, in declaration order.
    pub fn all_params() -> (v: Vec<GovernanceParam>)
        ensures
            v@ == seq![
                GovernanceParam::ApprovalThreshold,
                GovernanceParam::VerificationFee,
                GovernanceParam::RegistrationFee,
                GovernanceParam::ReviewFee,
                GovernanceParam::VerificationDuration,
                GovernanceParam::MaxReviewsPerProject,
            ],
    {
        let mut v: Vec<GovernanceParam> = Vec::new();
        v.push(GovernanceParam::ApprovalThreshold);
        v.push(GovernanceParam::VerificationFee);
        v.push(GovernanceParam::RegistrationFee);
        v.push(GovernanceParam::ReviewFee);
        v.push(GovernanceParam::VerificationDuration);
        v.push(GovernanceParam::MaxReviewsPerProject);
        assert(v@ =~= seq![
            GovernanceParam::ApprovalThreshold,
            GovernanceParam::VerificationFee,
            GovernanceParam::RegistrationFee,
            GovernanceParam::ReviewFee,
            GovernanceParam::VerificationDuration,
            GovernanceParam::MaxReviewsPerProject,
        ]);
        v
    }

    /// The range in force for `param`.
    pub fn get_range(&self, param: GovernanceParam) -> (r: ParamRange)
        ensures
            r == self.spec_range(param),
    {
        let stored = match param {
            GovernanceParam::ApprovalThreshold => self.approval_threshold,
            GovernanceParam::VerificationFee => self.verification_fee,
            GovernanceParam::RegistrationFee => self.registration_fee,
            GovernanceParam::ReviewFee => self.review_fee,
            GovernanceParam::VerificationDuration => self.verification_duration,
            GovernanceParam::MaxReviewsPerProject => self.max_reviews_per_project,
        };
        match stored {
            Some(range) => range,
            None => Self::default_range(param),
        }
    }

    /// Every parameter with its range in force, in declaration order.
    pub fn get_all_ranges(&self) -> (v: Vec<(GovernanceParam, ParamRange)>)
        ensures
            v@.len() == 6,
            forall|i: int| 0 <= i < 6 ==> (#[trigger] v@[i]).1 == self.spec_range(v@[i].0),
            v@[0].0 == GovernanceParam::ApprovalThreshold,
            v@[1].0 == GovernanceParam::VerificationFee,
            v@[2].0 == GovernanceParam::RegistrationFee,
            v@[3].0 == GovernanceParam::ReviewFee,
            v@[4].0 == GovernanceParam::VerificationDuration,
            v@[5].0 == GovernanceParam::MaxReviewsPerProject,
    {
        let params = Self::all_params();
        let mut v: Vec<(GovernanceParam, ParamRange)> = Vec::new();
        let mut i: usize = 0;
        while i < params.len()
            invariant
                params@.len() == 6,
                params@ == seq![
                    GovernanceParam::ApprovalThreshold,
                    GovernanceParam::VerificationFee,
                    GovernanceParam::RegistrationFee,
                    GovernanceParam::ReviewFee,
                    GovernanceParam::VerificationDuration,
                    GovernanceParam::MaxReviewsPerProject,
                ],
                i <= 6,
                v@.len() == i,
                forall|j: int| 0 <= j < i ==> (#[trigger] v@[j]).0 == params@[j] && v@[j].1 == self.spec_range(params@[j]),
            decreases 6 - i,
        {
            let p = params[i];
            v.push((p, self.get_range(p)));
            i = i + 1;
        }
        v
    }

    /// The current value of `param`, in its natural unit.
    pub open spec fn spec_current_value(
        param: GovernanceParam,
        admins: &AdminManager,
        fees: &FeeManager,
        ext: ExternalParams,
    ) -> u128 {
        match param {
            GovernanceParam::ApprovalThreshold => admins.spec_threshold() as u128,
            GovernanceParam::VerificationFee => match fees.fee_config {
                Some(c) => c.verification_fee,
                None => 0,
            },
            GovernanceParam::RegistrationFee => match fees.fee_config {
                Some(c) => c.registration_fee,
                None => 0,
            },
            GovernanceParam::ReviewFee => ext.review_fee,
            GovernanceParam::VerificationDuration => admins.spec_duration() as u128,
            GovernanceParam::MaxReviewsPerProject => ext.max_reviews_per_project as u128,
        }
    }

    pub fn current_value(
        param: GovernanceParam,
        admins: &AdminManager,
        fees: &FeeManager,
        ext: ExternalParams,
    ) -> (v: u128)
        ensures
            v == Self::spec_current_value(param, admins, fees, ext),
    {
        match param {
            GovernanceParam::ApprovalThreshold => admins.get_admin_approval_threshold() as u128,
            GovernanceParam::VerificationFee => match fees.fee_config {
                Some(c) => c.verification_fee,
                None => 0,
            },
            GovernanceParam::RegistrationFee => match fees.fee_config {
                Some(c) => c.registration_fee,
                None => 0,
            },
            GovernanceParam::ReviewFee => ext.review_fee,
            GovernanceParam::VerificationDuration => admins.get_verification_duration() as u128,
            GovernanceParam::MaxReviewsPerProject => ext.max_reviews_per_project as u128,
        }
    }

    /// `Ok` exactly when `value` lies in the range in force for `param`.
    pub fn validate(&self, param: GovernanceParam, value: u128) -> (r: Result<(), ContractError>)
        ensures
            r is Ok == self.spec_range(param).spec_contains(value),
            r is Err ==> r == Err::<(), ContractError>(ContractError::ParameterOutOfRange),
    {
        let range = self.get_range(param);
        if range.contains(value) {
            Ok(())
        } else {
            Err(ContractError::ParameterOutOfRange)
        }
    }

    /// `new` differs from `old` only in the range stored for `param`.
    pub open spec fn only_changed(old: &GovernanceRanges, new: &GovernanceRanges, param: GovernanceParam, range: ParamRange) -> bool {
        &&& new.stored(param) == Some(range)
        &&& forall|q: GovernanceParam| q != param ==> new.stored(q) == old.stored(q)
    }

    /// Stores `range` for `param` after checking that it is well formed and
    /// contains the parameter's current value; records the change.
    pub fn apply_range(
        &mut self,
        admin: Addr,
        param: GovernanceParam,
        range: ParamRange,
        admins: &AdminManager,
        fees: &FeeManager,
        ext: ExternalParams,
        log: &mut AdminActionLog,
        now: u64,
    ) -> (r: Result<(), ContractError>)
        requires
            old(log).wf(),
            old(log).has_room(),
        ensures
            final(log).wf(),
            r == (if range.min > range.max {
                Err(ContractError::InvalidParamRange)
            } else if !range.spec_contains(Self::spec_current_value(param, admins, fees, ext)) {
                Err(ContractError::InvalidParamRange)
            } else {
                Ok::<(), ContractError>(())
            }),
            r is Err ==> *final(self) == *old(self) && *final(log) == *old(log),
            r is Ok ==> Self::only_changed(old(self), final(self), param, range)
                && AdminActionLog::records(old(log), final(log), admin, AdminActionType::ParamRangeChanged, None, None, now),
    {
        if range.min > range.max {
            return Err(ContractError::InvalidParamRange);
        }
        let current = Self::current_value(param, admins, fees, ext);
        if !range.contains(current) {
            return Err(ContractError::InvalidParamRange);
        }
        match param {
            GovernanceParam::ApprovalThreshold => self.approval_threshold = Some(range),
            GovernanceParam::VerificationFee => self.verification_fee = Some(range),
            GovernanceParam::RegistrationFee => self.registration_fee = Some(range),
            GovernanceParam::ReviewFee => self.review_fee = Some(range),
            GovernanceParam::VerificationDuration => self.verification_duration = Some(range),
            GovernanceParam::MaxReviewsPerProject => self.max_reviews_per_project = Some(range),
        }
        log.record_action(admin, AdminActionType::ParamRangeChanged, None, None, None, now);
        Ok(())
    }

    /// Sets a range on the word of an administrator; refused once the
    /// approval threshold is above one.
    pub fn set_range(
        &mut self,
        admin: Addr,
        param: GovernanceParam,
        range: ParamRange,
        admins: &AdminManager,
        fees: &FeeManager,
        ext: ExternalParams,
        log: &mut AdminActionLog,
        now: u64,
    ) -> (r: Result<(), ContractError>)
        requires
            old(log).wf(),
            old(log).has_room(),
        ensures
            final(log).wf(),
            r == (if !admins.spec_is_admin(admin) {
                Err(ContractError::AdminOnly)
            } else if admins.spec_threshold() > 1 {
                Err(ContractError::MultiSigRequired)
            } else if range.min > range.max {
                Err(ContractError::InvalidParamRange)
            } else if !range.spec_contains(Self::spec_current_value(param, admins, fees, ext)) {
                Err(ContractError::InvalidParamRange)
            } else {
                Ok::<(), ContractError>(())
            }),
            r is Err ==> *final(self) == *old(self) && *final(log) == *old(log),
            r is Ok ==> Self::only_changed(old(self), final(self), param, range)
                && AdminActionLog::records(old(log), final(log), admin, AdminActionType::ParamRangeChanged, None, None, now),
    {
        admins.require_admin(admin)?;
        if admins.get_admin_approval_threshold() > 1 {
            return Err(ContractError::MultiSigRequired);
        }
        self.apply_range(admin, param, range, admins, fees, ext, log, now)
    }
}

/// A range accepted by `apply_range` keeps the parameter's current value
/// valid: validating that value afterwards succeeds.
pub proof fn lemma_applied_range_admits_current_value(
    old_g: GovernanceRanges,
    new_g: GovernanceRanges,
    param: GovernanceParam,
    range: ParamRange,
    admins: AdminManager,
    fees: FeeManager,
    ext: ExternalParams,
)
    requires
        GovernanceRanges::only_changed(&old_g, &new_g, param, range),
        range.min <= range.max,
        range.spec_contains(GovernanceRanges::spec_current_value(param, &admins, &fees, ext)),
    ensures
        new_g.spec_range(param).spec_contains(GovernanceRanges::spec_current_value(param, &admins, &fees, ext)),
        forall|q: GovernanceParam| q != param ==> new_g.spec_range(q) == old_g.spec_range(q),
{
}

/// The built-in ranges contain the contract's own defaults: an approval
/// threshold of 1 and the default verification duration.
pub proof fn lemma_defaults_within_default_ranges()
    ensures
        spec_default_range(GovernanceParam::ApprovalThreshold).spec_contains(1),
        spec_default_range(GovernanceParam::VerificationDuration).spec_contains(
            crate::constants::DEFAULT_VERIFICATION_DURATION_SECS as u128,
        ),
        spec_default_range(GovernanceParam::MaxReviewsPerProject).spec_contains(
            crate::constants::MAX_REVIEWS_PER_PROJECT as u128,
        ),
        spec_default_range(GovernanceParam::VerificationFee).spec_contains(0),
        spec_default_range(GovernanceParam::RegistrationFee).spec_contains(0),
        spec_default_range(GovernanceParam::ReviewFee).spec_contains(0),
{
}

} // verus!
