//! The per-user subscription record and its transition rules.
//!
//! `UserState` is the record type; `UserStateV` is its mathematical view.
//! The spec functions `spec_earn`, `spec_upgrade` and `spec_downgrade`
//! define, for every input, either the successor record or the exact error,
//! with the checks made in the documented order: tier, then payload bounds,
//! then authorization, then overflow. The executable methods on `UserState`
//! are proved to return exactly what those spec functions say.

use vstd::prelude::*;

verus! {

/// Longest hardware serial accepted, in bytes. Fixed policy, not configuration.
pub const MAX_HARDWARE_ID_LEN: usize = 64;

/// Largest point amount a single earn call may credit. Fixed anti-fraud policy.
pub const MAX_SINGLE_EARN: u64 = 1000;

/// An identity in the ledger environment: the party a signature proves.
/// Operations receive identities that have already proved themselves; the
/// record stores the identities that each operation must match.
#[derive(Clone, Copy, PartialEq, Eq, Structural, Debug, Hash)]
pub struct Identity {
    pub id: u64,
}

/// Subscription tier. `Free` earns off-chain points; `Premium` is tied to a
/// hardware identifier and earns through a separate, out-of-scope track.
#[derive(Clone, Copy, PartialEq, Eq, Structural, Debug)]
pub enum Tier {
    Free,
    Premium,
}

/// Every way an operation can fail. All terminal and caller-visible.
#[derive(Clone, Copy, PartialEq, Eq, Structural, Debug)]
pub enum AirventError {
    /// Earn or upgrade attempted on a record already in `Premium` tier.
    AlreadyPremium,
    /// Downgrade attempted on a record already in `Free` tier.
    NotPremium,
    /// Signer does not match the record's `owner` or `authority` as required.
    Unauthorized,
    /// Earn amount is zero or exceeds `MAX_SINGLE_EARN`.
    InvalidPointsAmount,
    /// Adding points would exceed the counter's representable range.
    PointsOverflow,
    /// Hardware serial is empty or exceeds `MAX_HARDWARE_ID_LEN` bytes.
    InvalidHardwareSerial,
    /// The storage layer found no record for the named owner.
    RecordNotFound,
    /// The storage layer refused to overwrite an existing record.
    RecordAlreadyExists,
}

/// One user's subscription record.
///
/// `owner`, `authority`, `joined_at` and `bump` are immutable after
/// creation; `tier`, `offchain_points` and `hardware_id` evolve only
/// through the operations on this type.
#[derive(Clone, Debug)]
pub struct UserState {
    /// The user this record belongs to; also the record's addressing key.
    pub owner: Identity,
    /// The oracle identity permitted to credit points; set once at creation.
    pub authority: Identity,
    /// Current subscription tier.
    pub tier: Tier,
    /// Points earned while `Free`; reset to zero on upgrade.
    pub offchain_points: u64,
    /// Linked hardware serial, non-empty exactly while `Premium`.
    pub hardware_id: Vec<u8>,
    /// Creation timestamp; immutable.
    pub joined_at: i64,
    /// Salt with which the record's storage address was derived; immutable.
    pub bump: u8,
}

/// Mathematical view of a `UserState`.
#[verifier::ext_equal]
pub ghost struct UserStateV {
    pub owner: Identity,
    pub authority: Identity,
    pub tier: Tier,
    pub offchain_points: u64,
    pub hardware_id: Seq<u8>,
    pub joined_at: i64,
    pub bump: u8,
}

impl View for UserState {
    type V = UserStateV;

    open spec fn view(&self) -> UserStateV {
        UserStateV {
            owner: self.owner,
            authority: self.authority,
            tier: self.tier,
            offchain_points: self.offchain_points,
            hardware_id: self.hardware_id@,
            joined_at: self.joined_at,
            bump: self.bump,
        }
    }
}

impl UserStateV {
    /// Record invariant: the hardware serial is bounded, and it is non-empty
    /// exactly while the record is `Premium`.
    pub open spec fn wf(self) -> bool {
        &&& self.hardware_id.len() <= MAX_HARDWARE_ID_LEN
        &&& (self.tier == Tier::Premium <==> self.hardware_id.len() > 0)
    }
}

/// The record a successful create operation installs: `Free` tier, zero
/// points, no hardware, with the given identities, timestamp and salt.
pub open spec fn init_state(user: Identity, authority: Identity, now: i64, bump: u8) -> UserStateV {
    UserStateV {
        owner: user,
        authority,
        tier: Tier::Free,
        offchain_points: 0,
        hardware_id: Seq::empty(),
        joined_at: now,
        bump,
    }
}

/// What earning points does: either the successor record or the exact
/// error, first failed check wins, in the order tier, amount bounds,
/// authorization, overflow.
pub open spec fn spec_earn(st: UserStateV, authority: Identity, points: u64) -> Result<
    UserStateV,
    AirventError,
> {
    if st.tier == Tier::Premium {
        Err(AirventError::AlreadyPremium)
    } else if points == 0 || points > MAX_SINGLE_EARN {
        Err(AirventError::InvalidPointsAmount)
    } else if authority != st.authority {
        Err(AirventError::Unauthorized)
    } else if st.offchain_points + points > u64::MAX {
        Err(AirventError::PointsOverflow)
    } else {
        Ok(
            (UserStateV {
                offchain_points: (st.offchain_points + points) as u64,
                ..st
            }),
        )
    }
}

/// What upgrading does: checks tier, then serial bounds, then that the
/// signer is the record's owner; on success the tier becomes `Premium`,
/// the serial is linked, and the point balance is reset to zero.
pub open spec fn spec_upgrade(st: UserStateV, user: Identity, serial: Seq<u8>) -> Result<
    UserStateV,
    AirventError,
> {
    if st.tier == Tier::Premium {
        Err(AirventError::AlreadyPremium)
    } else if serial.len() == 0 || serial.len() > MAX_HARDWARE_ID_LEN {
        Err(AirventError::InvalidHardwareSerial)
    } else if user != st.owner {
        Err(AirventError::Unauthorized)
    } else {
        Ok(
            (UserStateV {
                tier: Tier::Premium,
                offchain_points: 0,
                hardware_id: serial,
                ..st
            }),
        )
    }
}

/// What downgrading does: checks tier, then that the signer is the record's
/// owner; on success the tier becomes `Free` and the hardware link is
/// cleared. The point balance is left as it stands.
pub open spec fn spec_downgrade(st: UserStateV, user: Identity) -> Result<
    UserStateV,
    AirventError,
> {
    if st.tier != Tier::Premium {
        Err(AirventError::NotPremium)
    } else if user != st.owner {
        Err(AirventError::Unauthorized)
    } else {
        Ok(
            (UserStateV {
                tier: Tier::Free,
                hardware_id: Seq::empty(),
                ..st
            }),
        )
    }
}

impl UserState {
    /// Build the record a create operation installs.
    pub fn new(user: Identity, authority: Identity, now: i64, bump: u8) -> (r: UserState)
        ensures
            r@ == init_state(user, authority, now, bump),
            r@.wf(),
    {
        UserState {
            owner: user,
            authority,
            tier: Tier::Free,
            offchain_points: 0,
            hardware_id: Vec::new(),
            joined_at: now,
            bump,
        }
    }

    /// Credit `points` to this record on behalf of `authority`, exactly as
    /// `spec_earn` says: succeeds if and only if the record is `Free`, the
    /// amount is in `1..=MAX_SINGLE_EARN`, the signer matches the stored
    /// authority and the sum fits in 64 bits; a failed call leaves the
    /// record untouched.
    pub fn earn(&mut self, authority: Identity, points: u64) -> (r: Result<(), AirventError>)
        ensures
            match spec_earn(old(self)@, authority, points) {
                Ok(st) => r == Ok::<(), AirventError>(()) && final(self)@ == st,
                Err(e) => r == Err::<(), AirventError>(e) && *final(self) == *old(self),
            },
    {
        if self.tier == Tier::Premium {
            return Err(AirventError::AlreadyPremium);
        }
        if points == 0 || points > MAX_SINGLE_EARN {
            return Err(AirventError::InvalidPointsAmount);
        }
        if authority != self.authority {
            return Err(AirventError::Unauthorized);
        }
        if points > u64::MAX - self.offchain_points {
            return Err(AirventError::PointsOverflow);
        }
        self.offchain_points = self.offchain_points + points;
        Ok(())
    }

    /// Move this record to `Premium` with the given serial, exactly as
    /// `spec_upgrade` says: succeeds if and only if the record is `Free`,
    /// the serial is 1 to `MAX_HARDWARE_ID_LEN` bytes long and `user` is
    /// the record's owner; on success the point balance is reset to zero.
    pub fn upgrade(&mut self, user: Identity, hardware_serial: Vec<u8>) -> (r: Result<
        (),
        AirventError,
    >)
        ensures
            match spec_upgrade(old(self)@, user, hardware_serial@) {
                Ok(st) => r == Ok::<(), AirventError>(()) && final(self)@ == st,
                Err(e) => r == Err::<(), AirventError>(e) && *final(self) == *old(self),
            },
    {
        if self.tier == Tier::Premium {
            return Err(AirventError::AlreadyPremium);
        }
        if hardware_serial.len() == 0 || hardware_serial.len() > MAX_HARDWARE_ID_LEN {
            return Err(AirventError::InvalidHardwareSerial);
        }
        if user != self.owner {
            return Err(AirventError::Unauthorized);
        }
        self.tier = Tier::Premium;
        self.hardware_id = hardware_serial;
        self.offchain_points = 0;
        Ok(())
    }

    /// Move this record back to `Free`, exactly as `spec_downgrade` says:
    /// succeeds if and only if the record is `Premium` and `user` is the
    /// record's owner; on success the hardware link is cleared and the
    /// point balance is left as it stands.
    pub fn downgrade(&mut self, user: Identity) -> (r: Result<(), AirventError>)
        ensures
            match spec_downgrade(old(self)@, user) {
                Ok(st) => r == Ok::<(), AirventError>(()) && final(self)@ == st,
                Err(e) => r == Err::<(), AirventError>(e) && *final(self) == *old(self),
            },
    {
        if self.tier != Tier::Premium {
            return Err(AirventError::NotPremium);
        }
        if user != self.owner {
            return Err(AirventError::Unauthorized);
        }
        self.tier = Tier::Free;
        self.hardware_id = Vec::new();
        Ok(())
    }
}

} // verus!
