//! The keyed record store and the four ledger operations.
//!
//! In the ledger environment every record's address is a pure function of
//! its owner's identity, so lookup by owner is the only addressing path a
//! caller has. `SubscriptionLedger` models that store: its view is the map
//! from owner identity to record, creation refuses to overwrite, and every
//! other operation resolves the record by owner before applying the
//! transition rules of [`crate::state`].

use vstd::prelude::*;

use crate::state::AirventError;
use crate::state::Identity;
use crate::state::UserState;
use crate::state::UserStateV;
use crate::state::init_state;
use crate::state::spec_downgrade;
use crate::state::spec_earn;
use crate::state::spec_upgrade;

verus! {

/// Request to create a record: the joining user and the oracle identity it
/// delegates point crediting to. Both identities sign; `bump` is the salt
/// under which the runtime derived the record's storage address.
#[derive(Clone, Copy, PartialEq, Eq, Structural, Debug)]
pub struct InitializeSubscription {
    pub user: Identity,
    pub authority: Identity,
    pub bump: u8,
}

/// Request to credit points: `owner` names the record, `authority` is the
/// identity whose signature accompanies the call. The owner does not sign.
#[derive(Clone, Copy, PartialEq, Eq, Structural, Debug)]
pub struct EarnPoints {
    pub owner: Identity,
    pub authority: Identity,
}

/// Request to change tier: `owner` names the record, `user` is the identity
/// whose signature accompanies the call. Only the record's owner may change
/// its tier.
#[derive(Clone, Copy, PartialEq, Eq, Structural, Debug)]
pub struct UpgradeSubscription {
    pub owner: Identity,
    pub user: Identity,
}

/// No two records share an owner.
pub open spec fn unique_owners(s: Seq<UserState>) -> bool {
    forall|i: int, j: int| 0 <= i < j < s.len() ==> s[i].owner != s[j].owner
}

/// The map a sequence of records stands for: each owner bound to the view
/// of that owner's record.
pub open spec fn map_of(s: Seq<UserState>) -> Map<Identity, UserStateV>
    decreases s.len(),
{
    if s.len() == 0 {
        Map::empty()
    } else {
        map_of(s.drop_last()).insert(s.last().owner, s.last()@)
    }
}

/// The store of subscription records, one per owner.
pub struct SubscriptionLedger {
    records: Vec<UserState>,
}

impl View for SubscriptionLedger {
    type V = Map<Identity, UserStateV>;

    closed spec fn view(&self) -> Map<Identity, UserStateV> {
        map_of(self.records@)
    }
}

proof fn lemma_map_of_domain(s: Seq<UserState>, k: Identity)
    ensures
        map_of(s).contains_key(k) <==> (exists|i: int| 0 <= i < s.len() && s[i].owner == k),
    decreases s.len(),
{
    if s.len() > 0 {
        let t = s.drop_last();
        lemma_map_of_domain(t, k);
        if s.last().owner == k {
            assert(s[s.len() - 1].owner == k);
        } else {
            if exists|i: int| 0 <= i < s.len() && s[i].owner == k {
                let i = choose|i: int| 0 <= i < s.len() && s[i].owner == k;
                assert(t[i].owner == k);
            }
            if exists|i: int| 0 <= i < t.len() && t[i].owner == k {
                let i = choose|i: int| 0 <= i < t.len() && t[i].owner == k;
                assert(s[i].owner == k);
            }
        }
    }
}

proof fn lemma_map_of_value(s: Seq<UserState>, k: Identity, i: int)
    requires
        unique_owners(s),
        0 <= i < s.len(),
        s[i].owner == k,
    ensures
        map_of(s).contains_key(k),
        map_of(s)[k] == s[i]@,
    decreases s.len(),
{
    let t = s.drop_last();
    if i == s.len() - 1 {
        assert(s.last() == s[i]);
    } else {
        assert(s.last().owner != k);
        assert(unique_owners(t)) by {
            assert(forall|x: int, y: int|
                0 <= x < y < t.len() ==> t[x].owner == s[x].owner && t[y].owner == s[y].owner);
        }
        assert(t[i] == s[i]);
        lemma_map_of_value(t, k, i);
    }
}

proof fn lemma_map_of_push(s: Seq<UserState>, r: UserState)
    ensures
        map_of(s.push(r)) == map_of(s).insert(r.owner, r@),
{
    assert(s.push(r).drop_last() =~= s);
    assert(s.push(r).last() == r);
}

proof fn lemma_map_of_update(s: Seq<UserState>, i: int, r: UserState)
    requires
        unique_owners(s),
        0 <= i < s.len(),
        r.owner == s[i].owner,
    ensures
        map_of(s.update(i, r)) == map_of(s).insert(r.owner, r@),
    decreases s.len(),
{
    let t = s.drop_last();
    let u = s.update(i, r);
    if i == s.len() - 1 {
        assert(u.drop_last() =~= t);
        assert(u.last() == r);
        assert(map_of(t).insert(s.last().owner, s.last()@).insert(r.owner, r@) =~= map_of(
            t,
        ).insert(r.owner, r@));
    } else {
        let last = s.last();
        assert(r.owner != last.owner);
        assert(unique_owners(t)) by {
            assert(forall|x: int, y: int|
                0 <= x < y < t.len() ==> t[x].owner == s[x].owner && t[y].owner == s[y].owner);
        }
        assert(t[i] == s[i]);
        lemma_map_of_update(t, i, r);
        assert(u.drop_last() =~= t.update(i, r));
        assert(u.last() == last);
        assert(map_of(u) == map_of(t).insert(r.owner, r@).insert(last.owner, last@));
        assert(map_of(t).insert(r.owner, r@).insert(last.owner, last@) =~= map_of(t).insert(
            last.owner,
            last@,
        ).insert(r.owner, r@));
    }
}

impl SubscriptionLedger {
    /// Store invariant: owners are pairwise distinct and every record is
    /// well formed in the sense of [`UserStateV::wf`]. Established by
    /// [`SubscriptionLedger::new`] and preserved by every operation.
    pub closed spec fn wf(self) -> bool {
        &&& unique_owners(self.records@)
        &&& forall|i: int|
            0 <= i < self.records@.len() ==> (#[trigger] self.records@[i])@.wf()
    }

    /// An empty store: no owner has a record.
    pub fn new() -> (r: SubscriptionLedger)
        ensures
            r.wf(),
            r@ == Map::<Identity, UserStateV>::empty(),
    {
        SubscriptionLedger { records: Vec::new() }
    }

    /// Index of the record whose owner is `owner`, if one exists.
    fn find_index(&self, owner: Identity) -> (r: Option<usize>)
        ensures
            match r {
                Some(i) => i < self.records@.len() && self.records@[i as int].owner == owner,
                None => forall|j: int|
                    0 <= j < self.records@.len() ==> self.records@[j].owner != owner,
            },
    {
        let mut i: usize = 0;
        while i < self.records.len()
            invariant
                i <= self.records@.len(),
                forall|j: int| 0 <= j < i ==> self.records@[j].owner != owner,
            decreases self.records@.len() - i,
        {
            if self.records[i].owner == owner {
                return Some(i);
            }
            i = i + 1;
        }
        None
    }

    /// Create the record for `ctx.user`. Fails closed with
    /// `RecordAlreadyExists` when that owner already has a record, leaving
    /// the store untouched; otherwise installs the fresh `Free` record with
    /// the given authority, timestamp and address salt.
    pub fn initialize_free_subscription(
        &mut self,
        ctx: InitializeSubscription,
        now: i64,
    ) -> (r: Result<(), AirventError>)
        requires
            old(self).wf(),
        ensures
            final(self).wf(),
            old(self)@.contains_key(ctx.user) ==> r == Err::<(), AirventError>(
                AirventError::RecordAlreadyExists,
            ) && final(self)@ == old(self)@,
            !old(self)@.contains_key(ctx.user) ==> r == Ok::<(), AirventError>(())
                && final(self)@ == old(self)@.insert(
                ctx.user,
                init_state(ctx.user, ctx.authority, now, ctx.bump),
            ),
    {
        let ghost s0 = self.records@;
        proof {
            lemma_map_of_domain(s0, ctx.user);
        }
        match self.find_index(ctx.user) {
            Some(_) => Err(AirventError::RecordAlreadyExists),
            None => {
                let rec = UserState::new(ctx.user, ctx.authority, now, ctx.bump);
                let ghost rec_after = rec;
                self.records.push(rec);
                proof {
                    lemma_map_of_push(s0, rec_after);
                    assert(unique_owners(self.records@)) by {
                        assert(forall|x: int|
                            0 <= x < s0.len() ==> self.records@[x] == s0[x]);
                    }
                }
                Ok(())
            },
        }
    }

    /// Credit points to the record owned by `ctx.owner` on behalf of the
    /// signing `ctx.authority`. Fails with `RecordNotFound` when no such
    /// record exists; otherwise returns and updates exactly what
    /// [`spec_earn`] says for the stored record, and a failed call leaves
    /// the store unchanged.
    pub fn earn_free_points(&mut self, ctx: EarnPoints, points_to_add: u64) -> (r: Result<
        (),
        AirventError,
    >)
        requires
            old(self).wf(),
        ensures
            final(self).wf(),
            !old(self)@.contains_key(ctx.owner) ==> r == Err::<(), AirventError>(
                AirventError::RecordNotFound,
            ) && final(self)@ == old(self)@,
            old(self)@.contains_key(ctx.owner) ==> (match spec_earn(
                old(self)@[ctx.owner],
                ctx.authority,
                points_to_add,
            ) {
                Ok(st) => r == Ok::<(), AirventError>(()) && final(self)@ == old(self)@.insert(
                    ctx.owner,
                    st,
                ),
                Err(e) => r == Err::<(), AirventError>(e) && final(self)@ == old(self)@,
            }),
    {
        let ghost s0 = self.records@;
        proof {
            lemma_map_of_domain(s0, ctx.owner);
        }
        match self.find_index(ctx.owner) {
            None => Err(AirventError::RecordNotFound),
            Some(i) => {
                proof {
                    lemma_map_of_value(s0, ctx.owner, i as int);
                }
                let mut rec = self.records.remove(i);
                let r = rec.earn(ctx.authority, points_to_add);
                let ghost rec_after = rec;
                self.records.insert(i, rec);
                proof {
                    Self::lemma_reinsert(s0, i as int, rec_after, ctx.owner, r is Err);
                }
                r
            },
        }
    }

    /// Move the record owned by `ctx.owner` to `Premium`, on the signature
    /// of `ctx.user`. Fails with `RecordNotFound` when no such record
    /// exists; otherwise returns and updates exactly what [`spec_upgrade`]
    /// says for the stored record, and a failed call leaves the store
    /// unchanged.
    pub fn upgrade_to_premium(
        &mut self,
        ctx: UpgradeSubscription,
        hardware_serial: Vec<u8>,
    ) -> (r: Result<(), AirventError>)
        requires
            old(self).wf(),
        ensures
            final(self).wf(),
            !old(self)@.contains_key(ctx.owner) ==> r == Err::<(), AirventError>(
                AirventError::RecordNotFound,
            ) && final(self)@ == old(self)@,
            old(self)@.contains_key(ctx.owner) ==> (match spec_upgrade(
                old(self)@[ctx.owner],
                ctx.user,
                hardware_serial@,
            ) {
                Ok(st) => r == Ok::<(), AirventError>(()) && final(self)@ == old(self)@.insert(
                    ctx.owner,
                    st,
                ),
                Err(e) => r == Err::<(), AirventError>(e) && final(self)@ == old(self)@,
            }),
    {
        let ghost s0 = self.records@;
        proof {
            lemma_map_of_domain(s0, ctx.owner);
        }
        match self.find_index(ctx.owner) {
            None => Err(AirventError::RecordNotFound),
            Some(i) => {
                proof {
                    lemma_map_of_value(s0, ctx.owner, i as int);
                }
                let mut rec = self.records.remove(i);
                let r = rec.upgrade(ctx.user, hardware_serial);
                let ghost rec_after = rec;
                self.records.insert(i, rec);
                proof {
                    Self::lemma_reinsert(s0, i as int, rec_after, ctx.owner, r is Err);
                }
                r
            },
        }
    }

    /// Move the record owned by `ctx.owner` back to `Free`, on the
    /// signature of `ctx.user`. Fails with `RecordNotFound` when no such
    /// record exists; otherwise returns and updates exactly what
    /// [`spec_downgrade`] says for the stored record, and a failed call
    /// leaves the store unchanged.
    pub fn downgrade_from_premium(&mut self, ctx: UpgradeSubscription) -> (r: Result<
        (),
        AirventError,
    >)
        requires
            old(self).wf(),
        ensures
            final(self).wf(),
            !old(self)@.contains_key(ctx.owner) ==> r == Err::<(), AirventError>(
                AirventError::RecordNotFound,
            ) && final(self)@ == old(self)@,
            old(self)@.contains_key(ctx.owner) ==> (match spec_downgrade(
                old(self)@[ctx.owner],
                ctx.user,
            ) {
                Ok(st) => r == Ok::<(), AirventError>(()) && final(self)@ == old(self)@.insert(
                    ctx.owner,
                    st,
                ),
                Err(e) => r == Err::<(), AirventError>(e) && final(self)@ == old(self)@,
            }),
    {
        let ghost s0 = self.records@;
        proof {
            lemma_map_of_domain(s0, ctx.owner);
        }
        match self.find_index(ctx.owner) {
            None => Err(AirventError::RecordNotFound),
            Some(i) => {
                proof {
                    lemma_map_of_value(s0, ctx.owner, i as int);
                }
                let mut rec = self.records.remove(i);
                let r = rec.downgrade(ctx.user);
                let ghost rec_after = rec;
                self.records.insert(i, rec);
                proof {
                    Self::lemma_reinsert(s0, i as int, rec_after, ctx.owner, r is Err);
                }
                r
            },
        }
    }

    /// After taking out record `i` of `s0`, possibly rewriting it without
    /// changing its owner, and putting it back at `i`, the store stands
    /// for the old map with the owner's binding replaced; if the record
    /// was not changed, for the old map itself. Uniqueness of owners is
    /// kept either way.
    proof fn lemma_reinsert(s0: Seq<UserState>, i: int, rec_after: UserState, k: Identity, same: bool)
        requires
            unique_owners(s0),
            0 <= i < s0.len(),
            s0[i].owner == k,
            rec_after.owner == k,
            same ==> rec_after == s0[i],
        ensures
            map_of(s0.remove(i).insert(i, rec_after)) == map_of(s0).insert(k, rec_after@),
            same ==> map_of(s0.remove(i).insert(i, rec_after)) == map_of(s0),
            unique_owners(s0.remove(i).insert(i, rec_after)),
    {
        assert(s0.remove(i).insert(i, rec_after) =~= s0.update(i, rec_after));
        lemma_map_of_update(s0, i, rec_after);
        lemma_map_of_value(s0, k, i);
        if same {
            assert(map_of(s0).insert(k, rec_after@) =~= map_of(s0));
        }
        assert(unique_owners(s0.update(i, rec_after))) by {
            assert(forall|x: int|
                0 <= x < s0.len() ==> s0.update(i, rec_after)[x].owner == s0[x].owner);
        }
    }

    /// What the store invariant gives of the view: each owner with a
    /// record has exactly one, it sits under its own owner's key, and it
    /// is well formed in the sense of [`UserStateV::wf`].
    pub proof fn lemma_view_wf(self, k: Identity)
        requires
            self.wf(),
            self@.contains_key(k),
        ensures
            self@[k].wf(),
            self@[k].owner == k,
    {
        lemma_map_of_domain(self.records@, k);
        let i = choose|i: int| 0 <= i < self.records@.len() && self.records@[i].owner == k;
        lemma_map_of_value(self.records@, k, i);
    }

    /// A copy of the record owned by `owner`, or `None` when no record
    /// exists for that owner.
    pub fn get_subscription(&self, owner: Identity) -> (r: Option<UserState>)
        requires
            self.wf(),
        ensures
            match r {
                Some(st) => self@.contains_key(owner) && st@ == self@[owner],
                None => !self@.contains_key(owner),
            },
    {
        proof {
            lemma_map_of_domain(self.records@, owner);
        }
        match self.find_index(owner) {
            None => None,
            Some(i) => {
                proof {
                    lemma_map_of_value(self.records@, owner, i as int);
                }
                let rec = &self.records[i];
                Some(
                    UserState {
                        owner: rec.owner,
                        authority: rec.authority,
                        tier: rec.tier,
                        offchain_points: rec.offchain_points,
                        hardware_id: copy_bytes(&rec.hardware_id),
                        joined_at: rec.joined_at,
                        bump: rec.bump,
                    },
                )
            },
        }
    }
}

/// Byte-for-byte copy of a byte vector.
fn copy_bytes(v: &Vec<u8>) -> (r: Vec<u8>)
    ensures
        r@ == v@,
{
    let mut r: Vec<u8> = Vec::new();
    let mut i: usize = 0;
    while i < v.len()
        invariant
            i <= v@.len(),
            r@ == v@.subrange(0, i as int),
        decreases v@.len() - i,
    {
        r.push(v[i]);
        proof {
            assert(r@ =~= v@.subrange(0, i as int + 1));
        }
        i = i + 1;
    }
    proof {
        assert(r@ =~= v@);
    }
    r
}

} // verus!
