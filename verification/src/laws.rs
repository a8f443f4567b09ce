//! The guarantees the state machine gives, each stated in full and proved.
//!
//! The single-call guarantees are consequences of the transition rules in
//! [`crate::state`]; the batch guarantee about point earning is proved by
//! induction over the batch.

use vstd::prelude::*;

use crate::state::AirventError;
use crate::state::Identity;
use crate::state::MAX_HARDWARE_ID_LEN;
use crate::state::MAX_SINGLE_EARN;
use crate::state::Tier;
use crate::state::UserStateV;
use crate::state::spec_downgrade;
use crate::state::spec_earn;
use crate::state::spec_upgrade;

verus! {

/// Total of a batch of point deltas.
pub open spec fn sum_of(deltas: Seq<u64>) -> int
    decreases deltas.len(),
{
    if deltas.len() == 0 {
        0
    } else {
        sum_of(deltas.drop_last()) + deltas.last()
    }
}

/// The record after a batch of earn calls applied in order, stopping at
/// the first error.
pub open spec fn apply_earns(st: UserStateV, authority: Identity, deltas: Seq<u64>) -> Result<
    UserStateV,
    AirventError,
>
    decreases deltas.len(),
{
    if deltas.len() == 0 {
        Ok(st)
    } else {
        match apply_earns(st, authority, deltas.drop_last()) {
            Ok(mid) => spec_earn(mid, authority, deltas.last()),
            Err(e) => Err(e),
        }
    }
}

/// Monotonic points while `Free`: a batch of in-bounds, correctly signed
/// earn calls on a `Free` record succeeds as a whole exactly when the true
/// mathematical sum of the balance and all deltas stays in 64-bit range,
/// and then leaves the counter at that sum with every other field
/// untouched; when the true sum leaves the range, the batch stops with
/// `PointsOverflow`.
pub proof fn lemma_monotonic_points_while_free(
    st: UserStateV,
    authority: Identity,
    deltas: Seq<u64>,
)
    requires
        st.tier == Tier::Free,
        authority == st.authority,
        forall|i: int| 0 <= i < deltas.len() ==> 1 <= #[trigger] deltas[i] <= MAX_SINGLE_EARN,
    ensures
        st.offchain_points + sum_of(deltas) <= u64::MAX ==> ({
            &&& apply_earns(st, authority, deltas) matches Ok(f)
            &&& f.offchain_points == st.offchain_points + sum_of(deltas)
            &&& f.tier == Tier::Free
            &&& f.owner == st.owner
            &&& f.authority == st.authority
            &&& f.hardware_id == st.hardware_id
            &&& f.joined_at == st.joined_at
            &&& f.bump == st.bump
        }),
        st.offchain_points + sum_of(deltas) > u64::MAX ==> apply_earns(st, authority, deltas)
            == Err::<UserStateV, AirventError>(AirventError::PointsOverflow),
    decreases deltas.len(),
{
    if deltas.len() > 0 {
        let prefix = deltas.drop_last();
        assert(forall|i: int|
            0 <= i < prefix.len() ==> 1 <= #[trigger] prefix[i] <= MAX_SINGLE_EARN) by {
            assert(forall|i: int| 0 <= i < prefix.len() ==> prefix[i] == deltas[i]);
        }
        lemma_monotonic_points_while_free(st, authority, prefix);
    }
}

/// Tier-gated earning: earning on a `Premium` record fails with
/// `AlreadyPremium`, whatever the amount and whoever signed.
pub proof fn lemma_earn_tier_gated(st: UserStateV, authority: Identity, points: u64)
    requires
        st.tier == Tier::Premium,
    ensures
        spec_earn(st, authority, points) == Err::<UserStateV, AirventError>(
            AirventError::AlreadyPremium,
        ),
{
}

/// Bounds enforcement: on a `Free` record, an amount of zero or above
/// `MAX_SINGLE_EARN` fails with `InvalidPointsAmount`; an amount within
/// bounds succeeds whenever the stored authority signed and the sum stays
/// in range, and then credits exactly that amount.
pub proof fn lemma_earn_bounds(st: UserStateV, authority: Identity, points: u64)
    requires
        st.tier == Tier::Free,
    ensures
        points == 0 || points > MAX_SINGLE_EARN ==> spec_earn(st, authority, points) == Err::<
            UserStateV,
            AirventError,
        >(AirventError::InvalidPointsAmount),
        (1 <= points <= MAX_SINGLE_EARN && authority == st.authority && st.offchain_points + points
            <= u64::MAX) ==> ({
            &&& spec_earn(st, authority, points) matches Ok(f)
            &&& f.offchain_points == st.offchain_points + points
        }),
{
}

/// Upgrade resets points: a successful upgrade yields a `Premium` record
/// holding exactly the submitted serial and a zero point balance, with
/// owner, authority, joining time and address salt untouched; and it
/// succeeds precisely on a `Free` record, an in-bounds serial and the
/// owner's own signature.
pub proof fn lemma_upgrade_resets_points(st: UserStateV, user: Identity, serial: Seq<u8>)
    ensures
        spec_upgrade(st, user, serial) matches Ok(f) ==> ({
            &&& f.tier == Tier::Premium
            &&& f.offchain_points == 0
            &&& f.hardware_id == serial
            &&& f.owner == st.owner
            &&& f.authority == st.authority
            &&& f.joined_at == st.joined_at
            &&& f.bump == st.bump
        }),
        (st.tier == Tier::Free && 1 <= serial.len() <= MAX_HARDWARE_ID_LEN && user == st.owner)
            <==> spec_upgrade(st, user, serial) is Ok,
{
}

/// Downgrade clears hardware: a successful downgrade yields a `Free`
/// record with an empty hardware link and every other field untouched,
/// whatever the prior point balance; and it succeeds precisely on a
/// `Premium` record with the owner's own signature.
pub proof fn lemma_downgrade_clears_hardware(st: UserStateV, user: Identity)
    ensures
        spec_downgrade(st, user) matches Ok(f) ==> ({
            &&& f.tier == Tier::Free
            &&& f.hardware_id.len() == 0
            &&& f.offchain_points == st.offchain_points
            &&& f.owner == st.owner
            &&& f.authority == st.authority
            &&& f.joined_at == st.joined_at
            &&& f.bump == st.bump
        }),
        (st.tier == Tier::Premium && user == st.owner) <==> spec_downgrade(st, user) is Ok,
{
}

/// Authorization isolation for earning: a signer other than the stored
/// authority never earns; once the tier and amount checks pass, the
/// failure is exactly `Unauthorized`.
pub proof fn lemma_earn_authorization_isolation(st: UserStateV, authority: Identity, points: u64)
    requires
        authority != st.authority,
    ensures
        !(spec_earn(st, authority, points) is Ok),
        st.tier == Tier::Free && 1 <= points <= MAX_SINGLE_EARN ==> spec_earn(
            st,
            authority,
            points,
        ) == Err::<UserStateV, AirventError>(AirventError::Unauthorized),
{
}

/// Authorization isolation for tier changes: a signer other than the
/// record's owner never upgrades nor downgrades; once the preceding
/// checks pass, the failure is exactly `Unauthorized`.
pub proof fn lemma_tier_change_authorization_isolation(
    st: UserStateV,
    user: Identity,
    serial: Seq<u8>,
)
    requires
        user != st.owner,
    ensures
        !(spec_upgrade(st, user, serial) is Ok),
        !(spec_downgrade(st, user) is Ok),
        st.tier == Tier::Free && 1 <= serial.len() <= MAX_HARDWARE_ID_LEN ==> spec_upgrade(
            st,
            user,
            serial,
        ) == Err::<UserStateV, AirventError>(AirventError::Unauthorized),
        st.tier == Tier::Premium ==> spec_downgrade(st, user) == Err::<UserStateV, AirventError>(
            AirventError::Unauthorized,
        ),
{
}

/// The point balance never decreases except through the upgrade reset:
/// a successful earn strictly increases it and a successful downgrade
/// leaves it unchanged.
pub proof fn lemma_points_never_decrease(st: UserStateV, signer: Identity, points: u64)
    ensures
        spec_earn(st, signer, points) matches Ok(f) ==> f.offchain_points > st.offchain_points,
        spec_downgrade(st, signer) matches Ok(f) ==> f.offchain_points == st.offchain_points,
{
}

/// Serial length boundary: on a `Free` record, an empty serial or one
/// beyond `MAX_HARDWARE_ID_LEN` bytes fails with `InvalidHardwareSerial`,
/// and any serial of one to `MAX_HARDWARE_ID_LEN` bytes is accepted when
/// the owner signs.
pub proof fn lemma_serial_length_boundary(st: UserStateV, user: Identity, serial: Seq<u8>)
    requires
        st.tier == Tier::Free,
    ensures
        serial.len() == 0 || serial.len() > MAX_HARDWARE_ID_LEN ==> spec_upgrade(st, user, serial)
            == Err::<UserStateV, AirventError>(AirventError::InvalidHardwareSerial),
        1 <= serial.len() <= MAX_HARDWARE_ID_LEN && user == st.owner ==> spec_upgrade(
            st,
            user,
            serial,
        ) is Ok,
{
}

} // verus!
