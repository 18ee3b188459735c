//! The identity store: rows of linked identities plus the per-user
//! primary-identity pointer table, with the repository operations over them.
//!
//! The store maintains these invariants:
//! - identity identifiers are unique;
//! - (provider, provider account) pairs are unique;
//! - every user owning at least one identity has exactly one primary one;
//! - the pointer table holds exactly one entry per such user, naming that
//!   primary identity.

use vstd::prelude::*;
use crate::identity::{CreateIdentity, IdentityModel, UserIdentity, row_of_draft};
use crate::provider::Provider;
use crate::time::Instant;

verus! {

/// One entry of the users table that this subsystem touches: the owner's
/// stored reference to its current primary identity.
#[derive(Clone, Copy, Debug, PartialEq, Eq, Structural)]
pub struct PrimaryPointer {
    pub user_id: u128,
    pub identity_id: u128,
}

/// The mathematical value of the whole store.
#[verifier::ext_equal]
pub ghost struct RepoModel {
    pub rows: Seq<IdentityModel>,
    pub pointers: Seq<PrimaryPointer>,
}

/// Some row carries this identity identifier.
pub open spec fn has_id(rows: Seq<IdentityModel>, id: u128) -> bool {
    exists|i: int| 0 <= i < rows.len() && (#[trigger] rows[i].id) == id
}

/// Some row carries this (provider, provider account) pair.
pub open spec fn has_pair(rows: Seq<IdentityModel>, p: Provider, puid: Seq<char>) -> bool {
    exists|i: int|
        0 <= i < rows.len() && (#[trigger] rows[i].provider) == p && rows[i].provider_user_id
            == puid
}

/// The user owns no identity.
pub open spec fn user_absent(rows: Seq<IdentityModel>, u: u128) -> bool {
    forall|i: int| 0 <= i < rows.len() ==> (#[trigger] rows[i].user_id) != u
}

/// The user owns at most one identity.
pub open spec fn at_most_one_of_user(rows: Seq<IdentityModel>, u: u128) -> bool {
    forall|i: int, j: int|
        #![trigger rows[i].user_id, rows[j].user_id]
        0 <= i < rows.len() && 0 <= j < rows.len() && rows[i].user_id == u && rows[j].user_id == u
            ==> i == j
}

/// Some row of the user is marked primary.
pub open spec fn has_primary_for(rows: Seq<IdentityModel>, u: u128) -> bool {
    exists|j: int|
        0 <= j < rows.len() && (#[trigger] rows[j].user_id) == u && rows[j].is_primary
}

/// The row named `id` exists, belongs to `u`, and is marked primary.
pub open spec fn is_primary_row_of(rows: Seq<IdentityModel>, u: u128, id: u128) -> bool {
    exists|i: int|
        0 <= i < rows.len() && (#[trigger] rows[i].user_id) == u && rows[i].id == id
            && rows[i].is_primary
}

/// Some row carries this identifier and belongs to this user.
pub open spec fn has_row_for(rows: Seq<IdentityModel>, id: u128, u: u128) -> bool {
    exists|i: int|
        0 <= i < rows.len() && (#[trigger] rows[i].id) == id && rows[i].user_id == u
}

/// No row carrying this identifier for this user is marked primary.
pub open spec fn target_not_primary(rows: Seq<IdentityModel>, id: u128, u: u128) -> bool {
    forall|i: int|
        0 <= i < rows.len() && (#[trigger] rows[i].id) == id && rows[i].user_id == u
            ==> !rows[i].is_primary
}

/// The number of identities the user owns.
pub open spec fn count_user(rows: Seq<IdentityModel>, u: u128) -> nat
    decreases rows.len(),
{
    if rows.len() == 0 {
        0
    } else {
        count_user(rows.drop_last(), u) + (if rows.last().user_id == u {
            1nat
        } else {
            0nat
        })
    }
}

/// The row carrying an identifier known to be present.
pub open spec fn row_with_id(rows: Seq<IdentityModel>, id: u128) -> IdentityModel {
    rows[choose|i: int| 0 <= i < rows.len() && (#[trigger] rows[i].id) == id]
}

/// The row carrying a (provider, provider account) pair known to be present.
pub open spec fn pair_row_of(rows: Seq<IdentityModel>, p: Provider, puid: Seq<char>) -> IdentityModel {
    rows[choose|i: int|
        0 <= i < rows.len() && (#[trigger] rows[i].provider) == p && rows[i].provider_user_id
            == puid]
}

/// The primary row of a user known to have one.
pub open spec fn primary_row_of(rows: Seq<IdentityModel>, u: u128) -> IdentityModel {
    rows[choose|j: int|
        0 <= j < rows.len() && (#[trigger] rows[j].user_id) == u && rows[j].is_primary]
}

/// Some pointer entry belongs to this user.
pub open spec fn has_pointer(ptrs: Seq<PrimaryPointer>, u: u128) -> bool {
    exists|k: int| 0 <= k < ptrs.len() && (#[trigger] ptrs[k].user_id) == u
}

/// Some pointer entry is exactly (user, identity).
pub open spec fn has_pointer_to(ptrs: Seq<PrimaryPointer>, u: u128, id: u128) -> bool {
    exists|k: int|
        0 <= k < ptrs.len() && (#[trigger] ptrs[k]) == (PrimaryPointer {
            user_id: u,
            identity_id: id,
        })
}

/// The user's stored primary-identity reference, if any.
pub open spec fn pointer_of(ptrs: Seq<PrimaryPointer>, u: u128) -> Option<u128> {
    if has_pointer(ptrs, u) {
        Some(
            ptrs[choose|k: int| 0 <= k < ptrs.len() && (#[trigger] ptrs[k].user_id) == u].identity_id,
        )
    } else {
        None
    }
}

/// One row as the atomic primary-switch statement leaves it: within user
/// `u`, only the row named `id` keeps the primary flag, and every row of
/// `u` gets a fresh update time. Rows of other users are untouched.
pub open spec fn set_primary_row(r: IdentityModel, id: u128, u: u128, now: Instant) -> IdentityModel {
    if r.user_id == u {
        IdentityModel { is_primary: r.id == id, update_time: now, ..r }
    } else {
        r
    }
}

/// One row as a last-use refresh leaves it: the row named `id` gets a
/// fresh last-use and update time, every other row is untouched.
pub open spec fn touch_row(r: IdentityModel, id: u128, now: Instant) -> IdentityModel {
    if r.id == id {
        IdentityModel { last_used_at: Some(now), update_time: now, ..r }
    } else {
        r
    }
}

/// What `find_by_user_id` returns: every identity of the user exactly
/// once, the primary one first, the rest in creation order.
pub open spec fn is_user_listing(rows: Seq<IdentityModel>, u: u128, l: Seq<IdentityModel>) -> bool {
    &&& forall|i: int| 0 <= i < l.len() ==> (#[trigger] l[i].user_id) == u
    &&& forall|i: int| 0 <= i < l.len() ==> rows.contains(#[trigger] l[i])
    &&& forall|j: int|
        0 <= j < rows.len() && (#[trigger] rows[j].user_id) == u ==> l.contains(rows[j])
    &&& forall|i: int, k: int|
        #![trigger l[i].id, l[k].id]
        0 <= i < l.len() && 0 <= k < l.len() && i != k ==> l[i].id != l[k].id
    &&& (l.len() > 0 ==> l[0].is_primary)
    &&& forall|i: int| 1 <= i < l.len() ==> !(#[trigger] l[i]).is_primary
    &&& forall|i: int, k: int|
        #![trigger l[i].create_time, l[k].create_time]
        1 <= i < l.len() && i <= k < l.len() ==> crate::time::instant_le(
            l[i].create_time,
            l[k].create_time,
        )
}

/// `r` is an identity of user `u`, is not the one named `excl`, and no
/// other such identity was created earlier.
pub open spec fn is_oldest_remaining(
    rows: Seq<IdentityModel>,
    u: u128,
    excl: u128,
    r: IdentityModel,
) -> bool {
    &&& rows.contains(r)
    &&& r.user_id == u
    &&& r.id != excl
    &&& forall|j: int|
        0 <= j < rows.len() && (#[trigger] rows[j].user_id) == u && rows[j].id != excl
            ==> crate::time::instant_le(r.create_time, rows[j].create_time)
}

/// Well-formedness of the identity rows alone.
pub open spec fn rows_wf(rows: Seq<IdentityModel>) -> bool {
    &&& forall|i: int, j: int|
        #![trigger rows[i].id, rows[j].id]
        0 <= i < rows.len() && 0 <= j < rows.len() && i != j ==> rows[i].id != rows[j].id
    &&& forall|i: int, j: int|
        #![trigger rows[i].provider_user_id, rows[j].provider_user_id]
        0 <= i < rows.len() && 0 <= j < rows.len() && i != j ==> !(rows[i].provider
            == rows[j].provider && rows[i].provider_user_id == rows[j].provider_user_id)
    &&& forall|i: int, j: int|
        #![trigger rows[i].is_primary, rows[j].is_primary]
        0 <= i < rows.len() && 0 <= j < rows.len() && rows[i].user_id == rows[j].user_id
            && rows[i].is_primary && rows[j].is_primary ==> i == j
    &&& forall|i: int|
        0 <= i < rows.len() ==> has_primary_for(rows, (#[trigger] rows[i].user_id))
    &&& forall|i: int| 0 <= i < rows.len() ==> (#[trigger] rows[i]).wf()
}

/// Well-formedness of the pointer table against the rows: one entry per
/// user owning an identity, naming that user's primary identity.
pub open spec fn pointers_wf(rows: Seq<IdentityModel>, ptrs: Seq<PrimaryPointer>) -> bool {
    &&& forall|k: int, l: int|
        #![trigger ptrs[k].user_id, ptrs[l].user_id]
        0 <= k < ptrs.len() && 0 <= l < ptrs.len() && k != l ==> ptrs[k].user_id != ptrs[l].user_id
    &&& forall|k: int|
        0 <= k < ptrs.len() ==> is_primary_row_of(
            rows,
            (#[trigger] ptrs[k]).user_id,
            ptrs[k].identity_id,
        )
    &&& forall|i: int|
        0 <= i < rows.len() && (#[trigger] rows[i]).is_primary ==> has_pointer_to(
            ptrs,
            rows[i].user_id,
            rows[i].id,
        )
}

/// Well-formedness of the whole store.
pub open spec fn repo_wf(m: RepoModel) -> bool {
    rows_wf(m.rows) && pointers_wf(m.rows, m.pointers)
}

/// A store statement rejected by a constraint: the new row would repeat an
/// identifier or a (provider, provider account) pair that is already taken.
#[derive(Clone, Copy, Debug, PartialEq, Eq, Structural)]
pub struct StoreConflict;

/// The identity store. Plays the part of the relational store of record:
/// all repository operations go through it, and each one preserves the
/// invariants above.
pub struct IdentityRepository {
    rows: Vec<UserIdentity>,
    pointers: Vec<PrimaryPointer>,
}

impl View for IdentityRepository {
    type V = RepoModel;

    closed spec fn view(&self) -> RepoModel {
        RepoModel {
            rows: self.rows.deep_view(),
            pointers: self.pointers@,
        }
    }
}

impl IdentityRepository {
    /// The store's invariants hold.
    pub open spec fn wf(self) -> bool {
        repo_wf(self@)
    }

    /// An empty store.
    pub fn new() -> (r: IdentityRepository)
        ensures
            r@.rows =~= Seq::<IdentityModel>::empty(),
            r@.pointers =~= Seq::<PrimaryPointer>::empty(),
            r.wf(),
    {
        IdentityRepository { rows: Vec::new(), pointers: Vec::new() }
    }

    /// The model of row `i`, as the element of the underlying vector sees it.
    proof fn row_view_bridge(&self, i: int)
        requires
            0 <= i < self@.rows.len(),
        ensures
            self@.rows[i] == self.rows@[i]@,
            self@.rows.len() == self.rows@.len(),
    {
    }

    /// Point lookup by identity identifier; no match is absence, not an error.
    pub fn find_by_id(&self, id: u128) -> (r: Option<UserIdentity>)
        ensures
            r is Some <==> has_id(self@.rows, id),
            r matches Some(x) ==> x@.id == id && exists|i: int|
                0 <= i < self@.rows.len() && (#[trigger] self@.rows[i]) == x@,
    {
        let n = self.rows.len();
        let mut i: usize = 0;
        while i < n
            invariant
                n == self@.rows.len(),
                0 <= i <= n,
                forall|k: int| 0 <= k < i ==> (#[trigger] self@.rows[k].id) != id,
            decreases n - i,
        {
            if self.rows[i].id == id {
                let found = self.rows[i].clone();
                proof {
                    self.row_view_bridge(i as int);
                    assert(self@.rows[i as int].id == id);
                }
                return Some(found);
            }
            proof {
                self.row_view_bridge(i as int);
            }
            i += 1;
        }
        None
    }

    /// Point lookup by (provider, provider account) pair, used for
    /// idempotent-link detection.
    pub fn find_by_provider(&self, provider: Provider, provider_user_id: &String) -> (r: Option<
        UserIdentity,
    >)
        ensures
            r is Some <==> has_pair(self@.rows, provider, provider_user_id@),
            r matches Some(x) ==> x@.provider == provider && x@.provider_user_id
                == provider_user_id@ && exists|i: int|
                0 <= i < self@.rows.len() && (#[trigger] self@.rows[i]) == x@,
    {
        let n = self.rows.len();
        let mut i: usize = 0;
        while i < n
            invariant
                n == self@.rows.len(),
                0 <= i <= n,
                forall|k: int|
                    0 <= k < i ==> !((#[trigger] self@.rows[k].provider) == provider
                        && self@.rows[k].provider_user_id == provider_user_id@),
            decreases n - i,
        {
            if self.rows[i].provider == provider && self.rows[i].provider_user_id
                == *provider_user_id {
                let found = self.rows[i].clone();
                proof {
                    self.row_view_bridge(i as int);
                    assert(self@.rows[i as int].provider == provider);
                    assert(self@.rows[i as int].provider_user_id == provider_user_id@);
                }
                return Some(found);
            }
            proof {
                self.row_view_bridge(i as int);
            }
            i += 1;
        }
        None
    }

    /// Insert a new identity row under a caller-chosen fresh identifier,
    /// stamping both timestamps. The store-level uniqueness constraints are
    /// enforced here, not by any preceding read. When the row is the
    /// user's first identity it must be marked primary, and the owner's
    /// pointer entry is written in the same unit of work: both changes
    /// happen, or on a conflict neither does.
    pub fn create(&mut self, draft: &CreateIdentity, new_id: u128, now: Instant) -> (r: Result<
        UserIdentity,
        StoreConflict,
    >)
        requires
            old(self).wf(),
            draft.wf(),
            now.wf(),
            draft.is_primary == user_absent(old(self)@.rows, draft.user_id),
        ensures
            final(self).wf(),
            r is Err <==> (has_id(old(self)@.rows, new_id) || has_pair(
                old(self)@.rows,
                draft.provider,
                draft.provider_user_id@,
            )),
            r is Err ==> final(self)@ == old(self)@,
            r matches Ok(x) ==> {
                &&& x@ == row_of_draft(draft, new_id, now)
                &&& final(self)@.rows == old(self)@.rows.push(row_of_draft(draft, new_id, now))
                &&& (draft.is_primary ==> final(self)@.pointers == old(self)@.pointers.push(
                    PrimaryPointer { user_id: draft.user_id, identity_id: new_id },
                ))
                &&& (!draft.is_primary ==> final(self)@.pointers == old(self)@.pointers)
            },
    {
        if self.find_by_id(new_id).is_some() {
            return Err(StoreConflict);
        }
        if self.find_by_provider(draft.provider, &draft.provider_user_id).is_some() {
            return Err(StoreConflict);
        }
        let row = UserIdentity {
            id: new_id,
            user_id: draft.user_id,
            provider: draft.provider,
            provider_user_id: draft.provider_user_id.clone(),
            provider_email: crate::identity::clone_opt_string(&draft.provider_email),
            provider_username: crate::identity::clone_opt_string(&draft.provider_username),
            provider_avatar_url: crate::identity::clone_opt_string(&draft.provider_avatar_url),
            access_token_encrypted: crate::identity::clone_opt_string(
                &draft.access_token_encrypted,
            ),
            refresh_token_encrypted: crate::identity::clone_opt_string(
                &draft.refresh_token_encrypted,
            ),
            token_expires_at: draft.token_expires_at,
            metadata: crate::identity::clone_opt_string(&draft.metadata),
            is_primary: draft.is_primary,
            verified: draft.verified,
            create_time: now,
            update_time: now,
            last_used_at: None,
        };
        let returned = row.clone();
        proof {
            assert(row@ =~= row_of_draft(draft, new_id, now));
            lemma_create_preserves_wf(old(self)@, row@);
        }
        self.rows.push(row);
        if draft.is_primary {
            self.pointers.push(PrimaryPointer { user_id: draft.user_id, identity_id: new_id });
        }
        proof {
            assert(self@.rows =~= old(self)@.rows.push(row_of_draft(draft, new_id, now)));
            if draft.is_primary {
                assert(self@.pointers =~= old(self)@.pointers.push(
                    PrimaryPointer { user_id: draft.user_id, identity_id: new_id },
                ));
            }
        }
        Ok(returned)
    }

    /// Remove one identity row, scoped to the given owner; the result says
    /// whether a row was actually removed. The caller must have moved the
    /// primary designation away first: the store never drops a row that is
    /// currently primary, which also keeps the owner's pointer honest.
    pub fn delete(&mut self, id: u128, user_id: u128) -> (r: bool)
        requires
            old(self).wf(),
            target_not_primary(old(self)@.rows, id, user_id),
        ensures
            final(self).wf(),
            r <==> has_row_for(old(self)@.rows, id, user_id),
            !r ==> final(self)@ == old(self)@,
            r ==> exists|k: int|
                0 <= k < old(self)@.rows.len() && (#[trigger] old(self)@.rows[k].id) == id && old(
                    self,
                )@.rows[k].user_id == user_id && final(self)@.rows == old(self)@.rows.remove(k),
            final(self)@.pointers == old(self)@.pointers,
    {
        let n = self.rows.len();
        let mut i: usize = 0;
        while i < n
            invariant
                n == self@.rows.len(),
                0 <= i <= n,
                self@ == old(self)@,
                old(self).wf(),
                target_not_primary(old(self)@.rows, id, user_id),
                forall|k: int|
                    0 <= k < i ==> !((#[trigger] self@.rows[k].id) == id && self@.rows[k].user_id
                        == user_id),
            decreases n - i,
        {
            if self.rows[i].id == id && self.rows[i].user_id == user_id {
                proof {
                    self.row_view_bridge(i as int);
                    assert(self@.rows[i as int].id == id && self@.rows[i as int].user_id
                        == user_id);
                    assert(old(self)@.rows[i as int].id == id);
                    assert(old(self)@.rows[i as int].user_id == user_id);
                    assert(has_row_for(old(self)@.rows, id, user_id));
                    assert(!old(self)@.rows[i as int].is_primary);
                    lemma_delete_preserves_wf(old(self)@, i as int);
                }
                self.rows.remove(i);
                proof {
                    assert(self@.rows =~= old(self)@.rows.remove(i as int));
                }
                return true;
            }
            proof {
                self.row_view_bridge(i as int);
            }
            i += 1;
        }
        proof {
            assert forall|k: int| 0 <= k < old(self)@.rows.len() implies !((#[trigger] old(
                self,
            )@.rows[k].id) == id && old(self)@.rows[k].user_id == user_id) by {
                assert(self@.rows[k].id == old(self)@.rows[k].id);
                assert(!(self@.rows[k].id == id && self@.rows[k].user_id == user_id));
            }
        }
        false
    }

    /// The atomic primary-switch sequence, one unit of work: clear the
    /// primary flag for every identity of the user, raise it on the target
    /// row, and point the owner's pointer entry at the target. All three
    /// happen together; no intermediate dual-primary or zero-primary state
    /// is ever observable. The target must exist and belong to the user.
    pub fn set_primary(&mut self, id: u128, user_id: u128, now: Instant)
        requires
            old(self).wf(),
            now.wf(),
            has_row_for(old(self)@.rows, id, user_id),
        ensures
            final(self).wf(),
            final(self)@.rows == old(self)@.rows.map_values(
                |r: IdentityModel| set_primary_row(r, id, user_id, now),
            ),
            exists|k: int|
                0 <= k < old(self)@.pointers.len() && (#[trigger] old(
                    self,
                )@.pointers[k].user_id) == user_id && final(self)@.pointers == old(
                    self,
                )@.pointers.update(k, PrimaryPointer { user_id, identity_id: id }),
            pointer_of(final(self)@.pointers, user_id) == Some(id),
    {
        let ghost m = old(self)@;
        let ghost mapped = m.rows.map_values(
            |r: IdentityModel| set_primary_row(r, id, user_id, now),
        );
        let n = self.rows.len();
        let mut i: usize = 0;
        while i < n
            invariant
                n == self@.rows.len(),
                0 <= i <= n,
                self@.pointers == m.pointers,
                mapped == m.rows.map_values(|r: IdentityModel| set_primary_row(r, id, user_id, now)),
                mapped.len() == n,
                forall|k: int| 0 <= k < i ==> (#[trigger] self@.rows[k]) == mapped[k],
                forall|k: int| i <= k < n ==> (#[trigger] self@.rows[k]) == m.rows[k],
            decreases n - i,
        {
            proof {
                self.row_view_bridge(i as int);
                assert(self@.rows[i as int] == m.rows[i as int]);
            }
            if self.rows[i].user_id == user_id {
                let ghost prerows = self@.rows;
                let mut updated = self.rows[i].clone();
                updated.is_primary = updated.id == id;
                updated.update_time = now;
                proof {
                    assert(updated@ =~= set_primary_row(m.rows[i as int], id, user_id, now));
                }
                self.rows[i] = updated;
                proof {
                    self.row_view_bridge(i as int);
                    assert(self@.rows[i as int] == mapped[i as int]);
                    assert forall|kk: int| 0 <= kk < n && kk != i as int implies (
                    #[trigger] self@.rows[kk]) == prerows[kk] by {
                        self.row_view_bridge(kk);
                        assert(self.rows@[kk]@ == prerows[kk]);
                    }
                }
            } else {
                proof {
                    assert(self@.rows[i as int] == mapped[i as int]);
                }
            }
            i += 1;
        }
        proof {
            assert(self@.rows =~= mapped);
            let w = choose|w: int|
                0 <= w < m.rows.len() && (#[trigger] m.rows[w].id) == id && m.rows[w].user_id
                    == user_id;
            assert(m.rows[w].user_id == user_id);
            assert(has_primary_for(m.rows, user_id));
            let j = choose|j: int|
                0 <= j < m.rows.len() && (#[trigger] m.rows[j].user_id) == user_id
                    && m.rows[j].is_primary;
            assert(has_pointer_to(m.pointers, m.rows[j].user_id, m.rows[j].id));
            let l0 = choose|k: int|
                0 <= k < m.pointers.len() && (#[trigger] m.pointers[k]) == (PrimaryPointer {
                    user_id: m.rows[j].user_id,
                    identity_id: m.rows[j].id,
                });
            assert(m.pointers[l0].user_id == user_id);
        }
        let np = self.pointers.len();
        let mut k: usize = 0;
        while k < np
            invariant
                np == self@.pointers.len(),
                0 <= k <= np,
                m == old(self)@,
                self@.pointers == m.pointers,
                self@.rows == mapped,
                repo_wf(m),
                now.wf(),
                mapped == m.rows.map_values(|r: IdentityModel| set_primary_row(r, id, user_id, now)),
                has_row_for(m.rows, id, user_id),
                forall|l: int| 0 <= l < k ==> (#[trigger] self@.pointers[l].user_id) != user_id,
                exists|l: int|
                    0 <= l < np && (#[trigger] self@.pointers[l].user_id) == user_id,
            decreases np - k,
        {
            if self.pointers[k].user_id == user_id {
                proof {
                    lemma_set_primary_preserves_wf(m, id, user_id, now, k as int);
                }
                self.pointers[k] = PrimaryPointer { user_id, identity_id: id };
                proof {
                    assert(self@.pointers =~= m.pointers.update(
                        k as int,
                        PrimaryPointer { user_id, identity_id: id },
                    ));
                    assert(old(self)@.pointers[k as int].user_id == user_id);
                    assert(self@.pointers[k as int].user_id == user_id);
                    assert(has_pointer(self@.pointers, user_id));
                    let l = choose|l: int|
                        0 <= l < self@.pointers.len() && (#[trigger] self@.pointers[l].user_id)
                            == user_id;
                    assert(l == k as int);
                }
                return ;
            }
            k += 1;
        }
        proof {
            assert(false);
        }
    }

    /// Refresh a row's last-use and update timestamps only; a missing row
    /// leaves the store unchanged.
    pub fn update_last_used(&mut self, id: u128, now: Instant)
        requires
            old(self).wf(),
            now.wf(),
        ensures
            final(self).wf(),
            final(self)@.rows == old(self)@.rows.map_values(
                |r: IdentityModel| touch_row(r, id, now),
            ),
            final(self)@.pointers == old(self)@.pointers,
    {
        let ghost m = old(self)@;
        let ghost mapped = m.rows.map_values(|r: IdentityModel| touch_row(r, id, now));
        let n = self.rows.len();
        let mut i: usize = 0;
        while i < n
            invariant
                n == self@.rows.len(),
                0 <= i <= n,
                self@.pointers == m.pointers,
                mapped == m.rows.map_values(|r: IdentityModel| touch_row(r, id, now)),
                mapped.len() == n,
                forall|k: int| 0 <= k < i ==> (#[trigger] self@.rows[k]) == mapped[k],
                forall|k: int| i <= k < n ==> (#[trigger] self@.rows[k]) == m.rows[k],
            decreases n - i,
        {
            proof {
                self.row_view_bridge(i as int);
                assert(self@.rows[i as int] == m.rows[i as int]);
            }
            if self.rows[i].id == id {
                let ghost prerows = self@.rows;
                let mut updated = self.rows[i].clone();
                updated.last_used_at = Some(now);
                updated.update_time = now;
                proof {
                    assert(updated@ =~= touch_row(m.rows[i as int], id, now));
                }
                self.rows[i] = updated;
                proof {
                    self.row_view_bridge(i as int);
                    assert(self@.rows[i as int] == mapped[i as int]);
                    assert forall|kk: int| 0 <= kk < n && kk != i as int implies (
                    #[trigger] self@.rows[kk]) == prerows[kk] by {
                        self.row_view_bridge(kk);
                        assert(self.rows@[kk]@ == prerows[kk]);
                    }
                }
            } else {
                proof {
                    assert(self@.rows[i as int] == mapped[i as int]);
                }
            }
            i += 1;
        }
        proof {
            assert(self@.rows =~= mapped);
            lemma_touch_preserves_wf(m, id, now);
        }
    }

    /// The index of the user's primary row, if the user has one.
    fn find_primary_index(&self, user_id: u128) -> (r: Option<usize>)
        ensures
            r matches Some(p) ==> (p as int) < self@.rows.len() && self@.rows[p as int].user_id
                == user_id && self@.rows[p as int].is_primary,
            r is None ==> !has_primary_for(self@.rows, user_id),
    {
        let n = self.rows.len();
        let mut i: usize = 0;
        while i < n
            invariant
                n == self@.rows.len(),
                0 <= i <= n,
                forall|k: int|
                    0 <= k < i ==> !((#[trigger] self@.rows[k].user_id) == user_id
                        && self@.rows[k].is_primary),
            decreases n - i,
        {
            proof {
                self.row_view_bridge(i as int);
            }
            if self.rows[i].user_id == user_id && self.rows[i].is_primary {
                return Some(i);
            }
            i += 1;
        }
        None
    }

    /// The user's identities: the primary one first, the remaining ones
    /// ordered by creation time.
    pub fn find_by_user_id(&self, user_id: u128) -> (r: Vec<UserIdentity>)
        requires
            self.wf(),
        ensures
            is_user_listing(self@.rows, user_id, r.deep_view()),
            r.len() > 0 <==> !user_absent(self@.rows, user_id),
    {
        let ghost rows = self@.rows;
        let n = self.rows.len();
        let p: usize = match self.find_primary_index(user_id) {
            None => {
                proof {
                    assert forall|j: int| 0 <= j < rows.len() implies (#[trigger] rows[j].user_id)
                        != user_id by {
                        if rows[j].user_id == user_id {
                            assert(has_primary_for(rows, rows[j].user_id));
                        }
                    }
                }
                let out: Vec<UserIdentity> = Vec::new();
                proof {
                    assert(out.deep_view() =~= Seq::<IdentityModel>::empty());
                    assert(user_absent(rows, user_id));
                }
                return out;
            },
            Some(pi) => pi,
        };
        let mut rest: Vec<UserIdentity> = Vec::new();
        let mut i: usize = 0;
        proof {
            assert(rest.deep_view() =~= Seq::<IdentityModel>::empty());
        }
        while i < n
            invariant
                self.wf(),
                rows == self@.rows,
                n == rows.len(),
                0 <= i <= n,
                (p as int) < n,
                rows[p as int].user_id == user_id && rows[p as int].is_primary,
                forall|w: int|
                    0 <= w < rest.deep_view().len() ==> (#[trigger] rest.deep_view()[w].user_id)
                        == user_id,
                forall|w: int|
                    0 <= w < rest.deep_view().len() ==> !(#[trigger] rest.deep_view()[w]).is_primary,
                forall|w: int|
                    #![trigger rest.deep_view()[w]]
                    0 <= w < rest.deep_view().len() ==> exists|j: int|
                        0 <= j < i && j != (p as int) && (#[trigger] rows[j])
                            == rest.deep_view()[w],
                forall|j: int|
                    0 <= j < i && (#[trigger] rows[j].user_id) == user_id && j != (p as int)
                        ==> rest.deep_view().contains(rows[j]),
                forall|w1: int, w2: int|
                    #![trigger rest.deep_view()[w1].id, rest.deep_view()[w2].id]
                    0 <= w1 < rest.deep_view().len() && 0 <= w2 < rest.deep_view().len() && w1
                        != w2 ==> rest.deep_view()[w1].id != rest.deep_view()[w2].id,
                forall|w: int|
                    0 <= w < rest.deep_view().len() ==> (#[trigger] rest.deep_view()[w].id)
                        != rows[p as int].id,
            decreases n - i,
        {
            proof {
                self.row_view_bridge(i as int);
            }
            if i != p && self.rows[i].user_id == user_id {
                let ghost pre = rest.deep_view();
                let item = self.rows[i].clone();
                proof {
                    if rows[i as int].is_primary {
                        assert(rows[i as int].is_primary && rows[p as int].is_primary);
                        assert(i as int == p as int);
                    }
                }
                rest.push(item);
                proof {
                    assert(rest.deep_view() =~= pre.push(rows[i as int]));
                    assert forall|w: int| 0 <= w < pre.len() implies (#[trigger] pre[w].id)
                        != rows[i as int].id by {
                        let j = choose|j: int|
                            0 <= j < i && j != (p as int) && (#[trigger] rows[j]) == pre[w];
                        assert(rows[j].id != rows[i as int].id);
                    }
                    assert forall|j: int|
                        0 <= j < i + 1 && (#[trigger] rows[j].user_id) == user_id && j != (
                        p as int) implies rest.deep_view().contains(rows[j]) by {
                        if j < i {
                            let w = choose|w: int|
                                0 <= w < pre.len() && pre[w] == rows[j];
                            assert(rest.deep_view()[w] == rows[j]);
                        } else {
                            assert(rest.deep_view()[pre.len() as int] == rows[j]);
                        }
                    }
                }
            }
            i += 1;
        }
        let mut out: Vec<UserIdentity> = Vec::new();
        let first = self.rows[p].clone();
        out.push(first);
        proof {
            self.row_view_bridge(p as int);
            assert(out.deep_view() =~= seq![rows[p as int]]);
            assert forall|j: int|
                0 <= j < rows.len() && (#[trigger] rows[j].user_id) == user_id implies (
            out.deep_view().contains(rows[j]) || rest.deep_view().contains(rows[j])) by {
                if j == p as int {
                    assert(out.deep_view()[0] == rows[j]);
                } else {
                    assert(rest.deep_view().contains(rows[j]));
                }
            }
            assert forall|w: int| 0 <= w < rest.deep_view().len() implies rows.contains(
                #[trigger] rest.deep_view()[w],
            ) by {
                let j = choose|j: int|
                    0 <= j < n && j != (p as int) && (#[trigger] rows[j]) == rest.deep_view()[w];
                assert(rows[j] == rest.deep_view()[w]);
            }
            assert(rows.contains(out.deep_view()[0]));
            assert(listing_front_inv(rows, user_id, p as int, out.deep_view()));
            assert(listing_rest_inv(rows, user_id, rest.deep_view()));
            assert(listing_join_inv(rows, user_id, out.deep_view(), rest.deep_view()));
            assert(listing_order_inv(out.deep_view(), rest.deep_view()));
            assert(listing_split_inv(rows, user_id, p as int, out.deep_view(), rest.deep_view()));
        }
        while rest.len() > 0
            invariant
                listing_split_inv(rows, user_id, p as int, out.deep_view(), rest.deep_view()),
            decreases rest.len(),
        {
            let m = rest.len();
            let mut mi: usize = 0;
            let mut q: usize = 1;
            while q < m
                invariant
                    m == rest.deep_view().len(),
                    1 <= q <= m,
                    (mi as int) < q,
                    forall|k: int|
                        0 <= k < q ==> crate::time::instant_le(
                            rest.deep_view()[mi as int].create_time,
                            (#[trigger] rest.deep_view()[k].create_time),
                        ),
                decreases m - q,
            {
                proof {
                    rows_vec_model_index(&rest, mi as int);
                    rows_vec_model_index(&rest, q as int);
                }
                if !(rest[mi].create_time.le(rest[q].create_time)) {
                    mi = q;
                }
                q += 1;
            }
            let ghost preo = out.deep_view();
            let ghost prer = rest.deep_view();
            proof {
                lemma_listing_move(rows, user_id, p as int, preo, prer, mi as int);
            }
            let item = rest.remove(mi);
            out.push(item);
            proof {
                assert(rest.deep_view() =~= prer.remove(mi as int));
                assert(out.deep_view() =~= preo.push(prer[mi as int]));
            }
        }
        proof {
            let l = out.deep_view();
            assert(rest.deep_view().len() == 0);
            assert forall|j: int|
                0 <= j < rows.len() && (#[trigger] rows[j].user_id) == user_id implies l.contains(
                rows[j],
            ) by {
                assert(!rest.deep_view().contains(rows[j]));
            }
            assert(l[0] == rows[p as int]);
            assert(!user_absent(rows, user_id));
        }
        out
    }

    /// The user's stored primary-identity reference, as the users table
    /// carries it.
    pub fn primary_pointer(&self, user_id: u128) -> (r: Option<u128>)
        requires
            self.wf(),
        ensures
            r == pointer_of(self@.pointers, user_id),
    {
        let np = self.pointers.len();
        let mut k: usize = 0;
        while k < np
            invariant
                self.wf(),
                np == self@.pointers.len(),
                0 <= k <= np,
                forall|l: int| 0 <= l < k ==> (#[trigger] self@.pointers[l].user_id) != user_id,
            decreases np - k,
        {
            if self.pointers[k].user_id == user_id {
                proof {
                    assert(has_pointer(self@.pointers, user_id));
                    let l = choose|l: int|
                        0 <= l < self@.pointers.len() && (#[trigger] self@.pointers[l].user_id)
                            == user_id;
                    assert(l == k as int);
                }
                return Some(self.pointers[k].identity_id);
            }
            k += 1;
        }
        proof {
            assert(!has_pointer(self@.pointers, user_id));
        }
        None
    }

    /// The deterministic replacement primary: among the user's identities
    /// other than the one named `excl`, the earliest-created one.
    pub fn find_replacement(&self, user_id: u128, excl: u128) -> (r: Option<UserIdentity>)
        requires
            self.wf(),
        ensures
            r matches Some(x) ==> is_oldest_remaining(self@.rows, user_id, excl, x@)
                && has_row_for(self@.rows, x@.id, user_id) && x@.wf(),
            r is None ==> forall|j: int|
                0 <= j < self@.rows.len() ==> !((#[trigger] self@.rows[j].user_id) == user_id
                    && self@.rows[j].id != excl),
    {
        let ghost rows = self@.rows;
        let n = self.rows.len();
        let mut best: Option<usize> = None;
        let mut i: usize = 0;
        while i < n
            invariant
                self.wf(),
                rows == self@.rows,
                n == rows.len(),
                0 <= i <= n,
                best matches Some(b) ==> (b as int) < i && rows[b as int].user_id == user_id
                    && rows[b as int].id != excl,
                best matches Some(b) ==> forall|j: int|
                    0 <= j < i && (#[trigger] rows[j].user_id) == user_id && rows[j].id != excl
                        ==> crate::time::instant_le(
                        rows[b as int].create_time,
                        rows[j].create_time,
                    ),
                best is None ==> forall|j: int|
                    0 <= j < i ==> !((#[trigger] rows[j].user_id) == user_id && rows[j].id
                        != excl),
            decreases n - i,
        {
            proof {
                self.row_view_bridge(i as int);
            }
            if self.rows[i].user_id == user_id && self.rows[i].id != excl {
                match best {
                    None => {
                        best = Some(i);
                    },
                    Some(b) => {
                        if !(self.rows[b].create_time.le(self.rows[i].create_time)) {
                            proof {
                                self.row_view_bridge(b as int);
                            }
                            best = Some(i);
                        }
                    },
                }
            }
            i += 1;
        }
        match best {
            None => None,
            Some(b) => {
                let found = self.rows[b].clone();
                proof {
                    self.row_view_bridge(b as int);
                    assert(rows[b as int] == found@);
                    assert(rows.contains(found@));
                    assert(found@.wf());
                    assert(has_row_for(rows, found@.id, user_id));
                }
                Some(found)
            },
        }
    }

    /// How many identities the user owns; feeds the last-identity guard.
    pub fn count_by_user_id(&self, user_id: u128) -> (r: u64)
        ensures
            r as nat == count_user(self@.rows, user_id),
    {
        let n = self.rows.len();
        let mut i: usize = 0;
        let mut c: u64 = 0;
        proof {
            assert(self@.rows.take(0) =~= Seq::<IdentityModel>::empty());
        }
        while i < n
            invariant
                n == self@.rows.len(),
                0 <= i <= n,
                c as nat == count_user(self@.rows.take(i as int), user_id),
                c <= i,
            decreases n - i,
        {
            proof {
                self.row_view_bridge(i as int);
                let t = self@.rows.take(i + 1);
                assert(t.drop_last() =~= self@.rows.take(i as int));
                assert(t.last() == self@.rows[i as int]);
            }
            if self.rows[i].user_id == user_id {
                c += 1;
            }
            i += 1;
        }
        proof {
            assert(self@.rows.take(n as int) =~= self@.rows);
        }
        c
    }
}

/// The model of element `i` of a row vector.
pub proof fn rows_vec_model_index(v: &Vec<UserIdentity>, i: int)
    requires
        0 <= i < v.deep_view().len(),
    ensures
        v.deep_view()[i] == v@[i]@,
        v.deep_view().len() == v@.len(),
{
}

/// The running state while a user listing is assembled: `outv` already
/// holds the primary row first and a sorted part of the rest, `restv`
/// holds the user's remaining rows, every row exactly once between them,
/// and nothing in `outv` past the front comes later than anything left in
/// `restv`.
spec fn listing_front_inv(
    rows: Seq<IdentityModel>,
    u: u128,
    p: int,
    outv: Seq<IdentityModel>,
) -> bool {
    &&& 0 <= p < rows.len()
    &&& rows[p].user_id == u && rows[p].is_primary
    &&& outv.len() >= 1
    &&& outv[0] == rows[p]
    &&& forall|w: int| 0 <= w < outv.len() ==> (#[trigger] outv[w].user_id) == u
    &&& forall|w: int| 1 <= w < outv.len() ==> !(#[trigger] outv[w]).is_primary
    &&& forall|w: int| 0 <= w < outv.len() ==> rows.contains(#[trigger] outv[w])
    &&& forall|w1: int, w2: int|
        #![trigger outv[w1].id, outv[w2].id]
        0 <= w1 < outv.len() && 0 <= w2 < outv.len() && w1 != w2 ==> outv[w1].id != outv[w2].id
}

spec fn listing_rest_inv(rows: Seq<IdentityModel>, u: u128, restv: Seq<IdentityModel>) -> bool {
    &&& forall|w: int| 0 <= w < restv.len() ==> (#[trigger] restv[w].user_id) == u
    &&& forall|w: int| 0 <= w < restv.len() ==> !(#[trigger] restv[w]).is_primary
    &&& forall|w: int| 0 <= w < restv.len() ==> rows.contains(#[trigger] restv[w])
    &&& forall|w1: int, w2: int|
        #![trigger restv[w1].id, restv[w2].id]
        0 <= w1 < restv.len() && 0 <= w2 < restv.len() && w1 != w2 ==> restv[w1].id
            != restv[w2].id
}

spec fn listing_join_inv(
    rows: Seq<IdentityModel>,
    u: u128,
    outv: Seq<IdentityModel>,
    restv: Seq<IdentityModel>,
) -> bool {
    &&& forall|w1: int, w2: int|
        #![trigger outv[w1].id, restv[w2].id]
        0 <= w1 < outv.len() && 0 <= w2 < restv.len() ==> outv[w1].id != restv[w2].id
    &&& forall|j: int|
        0 <= j < rows.len() && (#[trigger] rows[j].user_id) == u ==> (outv.contains(rows[j])
            || restv.contains(rows[j]))
}

spec fn listing_order_inv(outv: Seq<IdentityModel>, restv: Seq<IdentityModel>) -> bool {
    &&& forall|a: int, b: int|
        #![trigger outv[a].create_time, outv[b].create_time]
        1 <= a < outv.len() && a <= b < outv.len() ==> crate::time::instant_le(
            outv[a].create_time,
            outv[b].create_time,
        )
    &&& forall|a: int, w: int|
        #![trigger outv[a].create_time, restv[w].create_time]
        1 <= a < outv.len() && 0 <= w < restv.len() ==> crate::time::instant_le(
            outv[a].create_time,
            restv[w].create_time,
        )
}

spec fn listing_split_inv(
    rows: Seq<IdentityModel>,
    u: u128,
    p: int,
    outv: Seq<IdentityModel>,
    restv: Seq<IdentityModel>,
) -> bool {
    &&& listing_front_inv(rows, u, p, outv)
    &&& listing_rest_inv(rows, u, restv)
    &&& listing_join_inv(rows, u, outv, restv)
    &&& listing_order_inv(outv, restv)
}

/// Moving an earliest-created remaining row to the end of the assembled
/// part keeps the listing state valid.
#[verifier::rlimit(100)]
#[verifier::spinoff_prover]
proof fn lemma_listing_move(
    rows: Seq<IdentityModel>,
    u: u128,
    p: int,
    outv: Seq<IdentityModel>,
    restv: Seq<IdentityModel>,
    mi: int,
)
    requires
        listing_split_inv(rows, u, p, outv, restv),
        0 <= mi < restv.len(),
        forall|k: int|
            0 <= k < restv.len() ==> crate::time::instant_le(
                restv[mi].create_time,
                (#[trigger] restv[k].create_time),
            ),
    ensures
        listing_split_inv(rows, u, p, outv.push(restv[mi]), restv.remove(mi)),
{
    assert(restv[mi].user_id == u && !restv[mi].is_primary);
    let x = restv[mi];
    let newo = outv.push(x);
    let newr = restv.remove(mi);
    let no = outv.len() as int;
    assert(forall|w: int| 0 <= w < no ==> (#[trigger] newo[w]) == outv[w]);
    assert(newo[no] == x);
    assert(forall|w: int| 0 <= w < mi ==> (#[trigger] newr[w]) == restv[w]);
    assert(forall|w: int| mi <= w < restv.len() - 1 ==> (#[trigger] newr[w]) == restv[w + 1]);
    let ri = |w: int| if w < mi { w } else { w + 1 };
    assert(newo[0] == rows[p]);
    assert forall|w: int| 0 <= w < newo.len() implies (#[trigger] newo[w].user_id) == u by {
        if w < no {
            assert(newo[w] == outv[w]);
            assert(outv[w].user_id == u);
        }
    }
    assert forall|w: int| 1 <= w < newo.len() implies !(#[trigger] newo[w]).is_primary by {
        if w < no {
            assert(newo[w] == outv[w]);
            assert(!outv[w].is_primary);
        }
    }
    assert forall|w: int| 0 <= w < newr.len() implies (#[trigger] newr[w].user_id) == u by {
        assert(newr[w] == restv[ri(w)]);
        assert(restv[ri(w)].user_id == u);
    }
    assert forall|w: int| 0 <= w < newr.len() implies !(#[trigger] newr[w]).is_primary by {
        assert(newr[w] == restv[ri(w)]);
        assert(!restv[ri(w)].is_primary);
    }
    assert forall|w: int| 0 <= w < newr.len() implies rows.contains(#[trigger] newr[w]) by {
        assert(newr[w] == restv[ri(w)]);
        assert(rows.contains(restv[ri(w)]));
    }
    assert forall|w: int| 0 <= w < newo.len() implies rows.contains(#[trigger] newo[w]) by {
        if w < no {
            assert(newo[w] == outv[w]);
            assert(rows.contains(outv[w]));
        } else {
            assert(rows.contains(restv[mi]));
        }
    }
    assert forall|w1: int, w2: int|
        #![trigger newo[w1].id, newo[w2].id]
        0 <= w1 < newo.len() && 0 <= w2 < newo.len() && w1 != w2 implies newo[w1].id
        != newo[w2].id by {
        if w1 < no && w2 < no {
        } else if w1 == no && w2 < no {
            assert(outv[w2].id != restv[mi].id);
        } else if w2 == no && w1 < no {
            assert(outv[w1].id != restv[mi].id);
        }
    }
    assert forall|w1: int, w2: int|
        #![trigger newr[w1].id, newr[w2].id]
        0 <= w1 < newr.len() && 0 <= w2 < newr.len() && w1 != w2 implies newr[w1].id
        != newr[w2].id by {
        assert(newr[w1] == restv[ri(w1)] && newr[w2] == restv[ri(w2)]);
    }
    assert forall|w1: int, w2: int|
        #![trigger newo[w1].id, newr[w2].id]
        0 <= w1 < newo.len() && 0 <= w2 < newr.len() implies newo[w1].id != newr[w2].id by {
        assert(newr[w2] == restv[ri(w2)]);
        if w1 < no {
            assert(outv[w1].id != restv[ri(w2)].id);
        } else {
            assert(newo[w1] == restv[mi]);
            assert(restv[mi].id != restv[ri(w2)].id);
        }
    }
    assert forall|j: int|
        0 <= j < rows.len() && (#[trigger] rows[j].user_id) == u implies (newo.contains(rows[j])
        || newr.contains(rows[j])) by {
        if outv.contains(rows[j]) {
            let w = choose|w: int| 0 <= w < outv.len() && outv[w] == rows[j];
            assert(newo[w] == rows[j]);
            assert(newo.contains(rows[j]));
        } else {
            assert(restv.contains(rows[j]));
            let w = choose|w: int| 0 <= w < restv.len() && restv[w] == rows[j];
            if w == mi {
                assert(newo[no] == rows[j]);
                assert(newo.contains(rows[j]));
            } else {
                let wn = if w < mi {
                    w
                } else {
                    w - 1
                };
                assert(newr[wn] == rows[j]);
                assert(newr.contains(rows[j]));
            }
        }
    }
    assert forall|a: int, b: int|
        #![trigger newo[a].create_time, newo[b].create_time]
        1 <= a < newo.len() && a <= b < newo.len() implies crate::time::instant_le(
        newo[a].create_time,
        newo[b].create_time,
    ) by {
        if b < no {
        } else if b == no && a < no {
            assert(newo[a] == outv[a] && newo[b] == restv[mi]);
            assert(crate::time::instant_le(outv[a].create_time, restv[mi].create_time));
        } else {
            assert(crate::time::instant_le(restv[mi].create_time, restv[mi].create_time));
        }
    }
    assert forall|a: int, w: int|
        #![trigger newo[a].create_time, newr[w].create_time]
        1 <= a < newo.len() && 0 <= w < newr.len() implies crate::time::instant_le(
        newo[a].create_time,
        newr[w].create_time,
    ) by {
        assert(newr[w] == restv[ri(w)]);
        if a < no {
            assert(crate::time::instant_le(outv[a].create_time, restv[ri(w)].create_time));
        } else {
            assert(newo[a] == restv[mi]);
            assert(crate::time::instant_le(restv[mi].create_time, restv[ri(w)].create_time));
        }
    }
    assert(listing_front_inv(rows, u, p, newo));
    assert(listing_rest_inv(rows, u, newr));
    assert(listing_join_inv(rows, u, newo, newr));
    assert(listing_order_inv(newo, newr));
    assert(listing_split_inv(rows, u, p, newo, newr));
}

/// Appending a fresh row, with its pointer entry when it is the user's
/// first identity, preserves every store invariant.
#[verifier::rlimit(50)]
proof fn lemma_create_preserves_wf(m: RepoModel, nr: IdentityModel)
    requires
        repo_wf(m),
        !has_id(m.rows, nr.id),
        !has_pair(m.rows, nr.provider, nr.provider_user_id),
        nr.wf(),
        nr.is_primary == user_absent(m.rows, nr.user_id),
    ensures
        repo_wf(
            RepoModel {
                rows: m.rows.push(nr),
                pointers: if nr.is_primary {
                    m.pointers.push(PrimaryPointer { user_id: nr.user_id, identity_id: nr.id })
                } else {
                    m.pointers
                },
            },
        ),
{
    let rows = m.rows.push(nr);
    let n = m.rows.len() as int;
    let ptrs = if nr.is_primary {
        m.pointers.push(PrimaryPointer { user_id: nr.user_id, identity_id: nr.id })
    } else {
        m.pointers
    };
    assert(forall|i: int| 0 <= i < n ==> (#[trigger] rows[i]) == m.rows[i]);
    assert(rows[n] == nr);
    assert forall|i: int, j: int|
        #![trigger rows[i].id, rows[j].id]
        0 <= i < rows.len() && 0 <= j < rows.len() && i != j implies rows[i].id != rows[j].id by {
        if i == n && 0 <= j < n {
            if m.rows[j].id == nr.id {
                assert(has_id(m.rows, nr.id));
            }
        } else if j == n && 0 <= i < n {
            if m.rows[i].id == nr.id {
                assert(has_id(m.rows, nr.id));
            }
        }
    }
    assert forall|i: int, j: int|
        #![trigger rows[i].provider_user_id, rows[j].provider_user_id]
        0 <= i < rows.len() && 0 <= j < rows.len() && i != j implies !(rows[i].provider
        == rows[j].provider && rows[i].provider_user_id == rows[j].provider_user_id) by {
        if i == n && 0 <= j < n {
            if m.rows[j].provider == nr.provider && m.rows[j].provider_user_id
                == nr.provider_user_id {
                assert(has_pair(m.rows, nr.provider, nr.provider_user_id));
            }
        } else if j == n && 0 <= i < n {
            if m.rows[i].provider == nr.provider && m.rows[i].provider_user_id
                == nr.provider_user_id {
                assert(has_pair(m.rows, nr.provider, nr.provider_user_id));
            }
        }
    }
    assert forall|i: int, j: int|
        #![trigger rows[i].is_primary, rows[j].is_primary]
        0 <= i < rows.len() && 0 <= j < rows.len() && rows[i].user_id == rows[j].user_id
        && rows[i].is_primary && rows[j].is_primary implies i == j by {
        if i == n && 0 <= j < n {
            assert(m.rows[j].user_id != nr.user_id);
        } else if j == n && 0 <= i < n {
            assert(m.rows[i].user_id != nr.user_id);
        }
    }
    assert forall|i: int| 0 <= i < rows.len() implies has_primary_for(
        rows,
        (#[trigger] rows[i].user_id),
    ) by {
        if i < n {
            assert(has_primary_for(m.rows, m.rows[i].user_id));
            let j = choose|j: int|
                0 <= j < m.rows.len() && (#[trigger] m.rows[j].user_id) == m.rows[i].user_id
                    && m.rows[j].is_primary;
            assert(rows[j].user_id == rows[i].user_id && rows[j].is_primary);
        } else if nr.is_primary {
            assert(rows[n].user_id == rows[i].user_id && rows[n].is_primary);
        } else {
            let w = choose|w: int|
                0 <= w < m.rows.len() && (#[trigger] m.rows[w].user_id) == nr.user_id;
            assert(has_primary_for(m.rows, m.rows[w].user_id));
            let j = choose|j: int|
                0 <= j < m.rows.len() && (#[trigger] m.rows[j].user_id) == m.rows[w].user_id
                    && m.rows[j].is_primary;
            assert(rows[j].user_id == rows[i].user_id && rows[j].is_primary);
        }
    }
    assert(forall|k: int| 0 <= k < m.pointers.len() ==> (#[trigger] ptrs[k]) == m.pointers[k]);
    assert forall|k: int, l: int|
        #![trigger ptrs[k].user_id, ptrs[l].user_id]
        0 <= k < ptrs.len() && 0 <= l < ptrs.len() && k != l implies ptrs[k].user_id
        != ptrs[l].user_id by {
        let np = m.pointers.len() as int;
        if nr.is_primary && (k == np || l == np) {
            let o = if k == np {
                l
            } else {
                k
            };
            if m.pointers[o].user_id == nr.user_id {
                assert(is_primary_row_of(m.rows, m.pointers[o].user_id, m.pointers[o].identity_id));
                let i = choose|i: int|
                    0 <= i < m.rows.len() && (#[trigger] m.rows[i].user_id)
                        == m.pointers[o].user_id && m.rows[i].id == m.pointers[o].identity_id
                        && m.rows[i].is_primary;
                assert(!user_absent(m.rows, nr.user_id));
            }
        }
    }
    assert forall|k: int| 0 <= k < ptrs.len() implies is_primary_row_of(
        rows,
        (#[trigger] ptrs[k]).user_id,
        ptrs[k].identity_id,
    ) by {
        if k < m.pointers.len() {
            assert(is_primary_row_of(m.rows, m.pointers[k].user_id, m.pointers[k].identity_id));
            let i = choose|i: int|
                0 <= i < m.rows.len() && (#[trigger] m.rows[i].user_id) == m.pointers[k].user_id
                    && m.rows[i].id == m.pointers[k].identity_id && m.rows[i].is_primary;
            assert(rows[i].user_id == ptrs[k].user_id && rows[i].id == ptrs[k].identity_id
                && rows[i].is_primary);
        } else {
            assert(rows[n].user_id == ptrs[k].user_id && rows[n].id == ptrs[k].identity_id
                && rows[n].is_primary);
        }
    }
    assert forall|i: int| 0 <= i < rows.len() && (#[trigger] rows[i]).is_primary implies
        has_pointer_to(ptrs, rows[i].user_id, rows[i].id) by {
        if i < n {
            assert(has_pointer_to(m.pointers, m.rows[i].user_id, m.rows[i].id));
            let k = choose|k: int|
                0 <= k < m.pointers.len() && (#[trigger] m.pointers[k]) == (PrimaryPointer {
                    user_id: m.rows[i].user_id,
                    identity_id: m.rows[i].id,
                });
            assert(ptrs[k] == (PrimaryPointer { user_id: rows[i].user_id, identity_id: rows[i].id }));
        } else {
            let k = m.pointers.len() as int;
            assert(ptrs[k] == (PrimaryPointer { user_id: rows[i].user_id, identity_id: rows[i].id }));
        }
    }
}

/// Removing a non-primary row preserves every store invariant.
#[verifier::rlimit(50)]
proof fn lemma_delete_preserves_wf(m: RepoModel, t: int)
    requires
        repo_wf(m),
        0 <= t < m.rows.len(),
        !m.rows[t].is_primary,
    ensures
        repo_wf(RepoModel { rows: m.rows.remove(t), pointers: m.pointers }),
{
    let rows = m.rows.remove(t);
    let n = m.rows.len() as int;
    assert(forall|i: int| 0 <= i < t ==> (#[trigger] rows[i]) == m.rows[i]);
    assert(forall|i: int| t <= i < n - 1 ==> (#[trigger] rows[i]) == m.rows[i + 1]);
    let oi = |i: int| if i < t { i } else { i + 1 };
    assert forall|i: int, j: int|
        #![trigger rows[i].id, rows[j].id]
        0 <= i < rows.len() && 0 <= j < rows.len() && i != j implies rows[i].id != rows[j].id by {
        assert(rows[i] == m.rows[oi(i)] && rows[j] == m.rows[oi(j)]);
    }
    assert forall|i: int, j: int|
        #![trigger rows[i].provider_user_id, rows[j].provider_user_id]
        0 <= i < rows.len() && 0 <= j < rows.len() && i != j implies !(rows[i].provider
        == rows[j].provider && rows[i].provider_user_id == rows[j].provider_user_id) by {
        assert(rows[i] == m.rows[oi(i)] && rows[j] == m.rows[oi(j)]);
    }
    assert forall|i: int, j: int|
        #![trigger rows[i].is_primary, rows[j].is_primary]
        0 <= i < rows.len() && 0 <= j < rows.len() && rows[i].user_id == rows[j].user_id
        && rows[i].is_primary && rows[j].is_primary implies i == j by {
        assert(rows[i] == m.rows[oi(i)] && rows[j] == m.rows[oi(j)]);
    }
    assert forall|i: int| 0 <= i < rows.len() implies has_primary_for(
        rows,
        (#[trigger] rows[i].user_id),
    ) by {
        assert(rows[i] == m.rows[oi(i)]);
        assert(has_primary_for(m.rows, m.rows[oi(i)].user_id));
        let j = choose|j: int|
            0 <= j < m.rows.len() && (#[trigger] m.rows[j].user_id) == m.rows[oi(i)].user_id
                && m.rows[j].is_primary;
        assert(j != t);
        let jn = if j < t {
            j
        } else {
            j - 1
        };
        assert(rows[jn] == m.rows[j]);
        assert(rows[jn].user_id == rows[i].user_id && rows[jn].is_primary);
    }
    assert forall|i: int| 0 <= i < rows.len() implies (#[trigger] rows[i]).wf() by {
        assert(rows[i] == m.rows[oi(i)]);
    }
    assert forall|l: int| 0 <= l < m.pointers.len() implies is_primary_row_of(
        rows,
        (#[trigger] m.pointers[l]).user_id,
        m.pointers[l].identity_id,
    ) by {
        assert(is_primary_row_of(m.rows, m.pointers[l].user_id, m.pointers[l].identity_id));
        let i = choose|i: int|
            0 <= i < m.rows.len() && (#[trigger] m.rows[i].user_id) == m.pointers[l].user_id
                && m.rows[i].id == m.pointers[l].identity_id && m.rows[i].is_primary;
        assert(i != t);
        let ni = if i < t {
            i
        } else {
            i - 1
        };
        assert(rows[ni] == m.rows[i]);
        assert(rows[ni].user_id == m.pointers[l].user_id && rows[ni].id
            == m.pointers[l].identity_id && rows[ni].is_primary);
    }
    assert forall|i: int| 0 <= i < rows.len() && (#[trigger] rows[i]).is_primary implies
        has_pointer_to(m.pointers, rows[i].user_id, rows[i].id) by {
        assert(rows[i] == m.rows[oi(i)]);
    }
}

/// Switching a user's primary designation to a row in place, and its
/// pointer entry along with it, preserves every store invariant.
#[verifier::rlimit(50)]
proof fn lemma_set_primary_preserves_wf(m: RepoModel, id: u128, u: u128, now: Instant, w: int)
    requires
        repo_wf(m),
        now.wf(),
        has_row_for(m.rows, id, u),
        0 <= w < m.pointers.len(),
        m.pointers[w].user_id == u,
    ensures
        repo_wf(
            RepoModel {
                rows: m.rows.map_values(|r: IdentityModel| set_primary_row(r, id, u, now)),
                pointers: m.pointers.update(w, PrimaryPointer { user_id: u, identity_id: id }),
            },
        ),
{
    let rows = m.rows.map_values(|r: IdentityModel| set_primary_row(r, id, u, now));
    let ptrs = m.pointers.update(w, PrimaryPointer { user_id: u, identity_id: id });
    let n = m.rows.len() as int;
    let t = choose|i: int|
        0 <= i < m.rows.len() && (#[trigger] m.rows[i].id) == id && m.rows[i].user_id == u;
    assert(forall|i: int|
        0 <= i < n ==> (#[trigger] rows[i]) == set_primary_row(m.rows[i], id, u, now));
    assert(forall|i: int|
        0 <= i < n ==> (#[trigger] rows[i].id) == m.rows[i].id && rows[i].user_id
            == m.rows[i].user_id && rows[i].provider == m.rows[i].provider
            && rows[i].provider_user_id == m.rows[i].provider_user_id && rows[i].wf());
    assert(rows[t].is_primary && rows[t].user_id == u && rows[t].id == id);
    assert forall|i: int, j: int|
        #![trigger rows[i].is_primary, rows[j].is_primary]
        0 <= i < rows.len() && 0 <= j < rows.len() && rows[i].user_id == rows[j].user_id
        && rows[i].is_primary && rows[j].is_primary implies i == j by {
        if rows[i].user_id == u {
            assert(m.rows[i].id == id && m.rows[j].id == id);
        }
    }
    assert forall|i: int| 0 <= i < rows.len() implies has_primary_for(
        rows,
        (#[trigger] rows[i].user_id),
    ) by {
        if rows[i].user_id == u {
            assert(rows[t].user_id == rows[i].user_id && rows[t].is_primary);
        } else {
            assert(has_primary_for(m.rows, m.rows[i].user_id));
            let j = choose|j: int|
                0 <= j < m.rows.len() && (#[trigger] m.rows[j].user_id) == m.rows[i].user_id
                    && m.rows[j].is_primary;
            assert(rows[j].user_id == rows[i].user_id && rows[j].is_primary);
        }
    }
    assert(forall|l: int| 0 <= l < ptrs.len() && l != w ==> (#[trigger] ptrs[l]) == m.pointers[l]);
    assert forall|k: int, l: int|
        #![trigger ptrs[k].user_id, ptrs[l].user_id]
        0 <= k < ptrs.len() && 0 <= l < ptrs.len() && k != l implies ptrs[k].user_id
        != ptrs[l].user_id by {
        assert(ptrs[k].user_id == m.pointers[k].user_id);
        assert(ptrs[l].user_id == m.pointers[l].user_id);
    }
    assert forall|l: int| 0 <= l < ptrs.len() implies is_primary_row_of(
        rows,
        (#[trigger] ptrs[l]).user_id,
        ptrs[l].identity_id,
    ) by {
        if l == w {
            assert(rows[t].user_id == ptrs[l].user_id && rows[t].id == ptrs[l].identity_id
                && rows[t].is_primary);
        } else {
            assert(is_primary_row_of(m.rows, m.pointers[l].user_id, m.pointers[l].identity_id));
            let i = choose|i: int|
                0 <= i < m.rows.len() && (#[trigger] m.rows[i].user_id) == m.pointers[l].user_id
                    && m.rows[i].id == m.pointers[l].identity_id && m.rows[i].is_primary;
            assert(m.pointers[l].user_id != u);
            assert(rows[i] == m.rows[i]);
            assert(rows[i].user_id == ptrs[l].user_id && rows[i].id == ptrs[l].identity_id
                && rows[i].is_primary);
        }
    }
    assert forall|i: int| 0 <= i < rows.len() && (#[trigger] rows[i]).is_primary implies
        has_pointer_to(ptrs, rows[i].user_id, rows[i].id) by {
        if rows[i].user_id == u {
            assert(m.rows[i].id == id);
            assert(ptrs[w] == (PrimaryPointer { user_id: rows[i].user_id, identity_id: rows[i].id }));
        } else {
            assert(rows[i] == m.rows[i]);
            assert(has_pointer_to(m.pointers, m.rows[i].user_id, m.rows[i].id));
            let l = choose|l: int|
                0 <= l < m.pointers.len() && (#[trigger] m.pointers[l]) == (PrimaryPointer {
                    user_id: m.rows[i].user_id,
                    identity_id: m.rows[i].id,
                });
            assert(l != w);
            assert(ptrs[l] == (PrimaryPointer { user_id: rows[i].user_id, identity_id: rows[i].id }));
        }
    }
}

/// Refreshing a row's last-use timestamp preserves every store invariant.
#[verifier::rlimit(50)]
proof fn lemma_touch_preserves_wf(m: RepoModel, id: u128, now: Instant)
    requires
        repo_wf(m),
        now.wf(),
    ensures
        repo_wf(
            RepoModel {
                rows: m.rows.map_values(|r: IdentityModel| touch_row(r, id, now)),
                pointers: m.pointers,
            },
        ),
{
    let rows = m.rows.map_values(|r: IdentityModel| touch_row(r, id, now));
    let n = m.rows.len() as int;
    assert(forall|i: int| 0 <= i < n ==> (#[trigger] rows[i]) == touch_row(m.rows[i], id, now));
    assert(forall|i: int|
        0 <= i < n ==> (#[trigger] rows[i].id) == m.rows[i].id && rows[i].user_id
            == m.rows[i].user_id && rows[i].provider == m.rows[i].provider
            && rows[i].provider_user_id == m.rows[i].provider_user_id && rows[i].is_primary
            == m.rows[i].is_primary && rows[i].wf());
    assert forall|i: int| 0 <= i < rows.len() implies has_primary_for(
        rows,
        (#[trigger] rows[i].user_id),
    ) by {
        assert(has_primary_for(m.rows, m.rows[i].user_id));
        let j = choose|j: int|
            0 <= j < m.rows.len() && (#[trigger] m.rows[j].user_id) == m.rows[i].user_id
                && m.rows[j].is_primary;
        assert(rows[j].user_id == rows[i].user_id && rows[j].is_primary);
    }
    assert forall|l: int| 0 <= l < m.pointers.len() implies is_primary_row_of(
        rows,
        (#[trigger] m.pointers[l]).user_id,
        m.pointers[l].identity_id,
    ) by {
        assert(is_primary_row_of(m.rows, m.pointers[l].user_id, m.pointers[l].identity_id));
        let i = choose|i: int|
            0 <= i < m.rows.len() && (#[trigger] m.rows[i].user_id) == m.pointers[l].user_id
                && m.rows[i].id == m.pointers[l].identity_id && m.rows[i].is_primary;
        assert(rows[i].user_id == m.pointers[l].user_id && rows[i].id == m.pointers[l].identity_id
            && rows[i].is_primary);
    }
    assert forall|i: int| 0 <= i < rows.len() && (#[trigger] rows[i]).is_primary implies
        has_pointer_to(m.pointers, rows[i].user_id, rows[i].id) by {
        assert(has_pointer_to(m.pointers, m.rows[i].user_id, m.rows[i].id));
    }
}

/// A last-use refresh changes nothing else: the row keeps its identity,
/// owner, provider pair, flags and creation time, and a row other than
/// the matched one is untouched entirely. Together with the linking
/// contract this says that re-linking an already-linked pair never
/// creates a second row and only moves usage timestamps.
pub proof fn lemma_touch_changes_only_usage(r: IdentityModel, id: u128, now: Instant)
    ensures
        touch_row(r, id, now).id == r.id,
        touch_row(r, id, now).user_id == r.user_id,
        touch_row(r, id, now).provider == r.provider,
        touch_row(r, id, now).provider_user_id == r.provider_user_id,
        touch_row(r, id, now).is_primary == r.is_primary,
        touch_row(r, id, now).verified == r.verified,
        touch_row(r, id, now).create_time == r.create_time,
        r.id != id ==> touch_row(r, id, now) == r,
{
}

/// Counting the user's identities is zero exactly when the user owns none.
pub proof fn lemma_count_zero(rows: Seq<IdentityModel>, u: u128)
    ensures
        count_user(rows, u) == 0 <==> user_absent(rows, u),
    decreases rows.len(),
{
    if rows.len() > 0 {
        let prefix = rows.drop_last();
        lemma_count_zero(prefix, u);
        if count_user(rows, u) == 0 {
            assert forall|i: int| 0 <= i < rows.len() implies (#[trigger] rows[i].user_id)
                != u by {
                if i < rows.len() - 1 {
                    assert(prefix[i] == rows[i]);
                    assert(prefix[i].user_id != u);
                } else {
                    assert(rows[i] == rows.last());
                }
            }
        }
        if user_absent(rows, u) {
            assert forall|i: int| 0 <= i < prefix.len() implies (#[trigger] prefix[i].user_id)
                != u by {
                assert(prefix[i] == rows[i]);
            }
            assert(rows.last().user_id != u);
        }
    }
}

/// Counting the user's identities stays below two exactly when the user
/// owns at most one.
pub proof fn lemma_count_at_most_one(rows: Seq<IdentityModel>, u: u128)
    ensures
        count_user(rows, u) <= 1 <==> at_most_one_of_user(rows, u),
    decreases rows.len(),
{
    if rows.len() == 0 {
    } else {
        let prefix = rows.drop_last();
        let last: int = rows.len() - 1;
        lemma_count_at_most_one(prefix, u);
        lemma_count_zero(prefix, u);
        assert(forall|i: int| 0 <= i < last ==> (#[trigger] prefix[i]) == rows[i]);
        if count_user(rows, u) <= 1 {
            assert forall|i: int, j: int|
                #![trigger rows[i].user_id, rows[j].user_id]
                0 <= i < rows.len() && 0 <= j < rows.len() && rows[i].user_id == u
                    && rows[j].user_id == u implies i == j by {
                if rows.last().user_id == u {
                    assert(user_absent(prefix, u));
                    if i < last {
                        assert(prefix[i] == rows[i]);
                        assert(false);
                    }
                    if j < last {
                        assert(prefix[j] == rows[j]);
                        assert(false);
                    }
                } else {
                    assert(i < last && j < last);
                    assert(prefix[i] == rows[i] && prefix[j] == rows[j]);
                }
            }
        } else {
            if rows.last().user_id == u {
                assert(count_user(prefix, u) >= 1);
                assert(!user_absent(prefix, u));
                let w = choose|i: int| 0 <= i < prefix.len() && (#[trigger] prefix[i].user_id) == u;
                assert(prefix[w] == rows[w]);
                assert(rows[w].user_id == u && rows[last].user_id == u && w != last);
                assert(!at_most_one_of_user(rows, u));
            } else {
                assert(count_user(prefix, u) >= 2);
                assert(!at_most_one_of_user(prefix, u));
                let (w1, w2) = choose|i: int, j: int|
                    #![trigger prefix[i].user_id, prefix[j].user_id]
                    0 <= i < prefix.len() && 0 <= j < prefix.len() && prefix[i].user_id == u
                        && prefix[j].user_id == u && i != j;
                assert(prefix[w1] == rows[w1] && prefix[w2] == rows[w2]);
                assert(rows[w1].user_id == u && rows[w2].user_id == u && w1 != w2);
                assert(!at_most_one_of_user(rows, u));
            }
        }
    }
}

/// With unique identifiers, any row carrying `id` is the row that
/// `row_with_id` names.
pub proof fn lemma_row_with_id_is(rows: Seq<IdentityModel>, id: u128, i: int)
    requires
        rows_wf(rows),
        0 <= i < rows.len(),
        rows[i].id == id,
    ensures
        has_id(rows, id),
        row_with_id(rows, id) == rows[i],
{
    assert(has_id(rows, id));
    let j = choose|j: int| 0 <= j < rows.len() && (#[trigger] rows[j].id) == id;
    assert(j == i);
}

/// With unique pairs, any row carrying the pair is the row that
/// `pair_row_of` names.
pub proof fn lemma_pair_row_is(rows: Seq<IdentityModel>, p: Provider, puid: Seq<char>, i: int)
    requires
        rows_wf(rows),
        0 <= i < rows.len(),
        rows[i].provider == p,
        rows[i].provider_user_id == puid,
    ensures
        has_pair(rows, p, puid),
        pair_row_of(rows, p, puid) == rows[i],
{
    assert(has_pair(rows, p, puid));
    let j = choose|j: int|
        0 <= j < rows.len() && (#[trigger] rows[j].provider) == p && rows[j].provider_user_id
            == puid;
    assert(j == i);
}

/// With at most one primary per user, any primary row of the user is the
/// row that `primary_row_of` names.
pub proof fn lemma_primary_row_is(rows: Seq<IdentityModel>, u: u128, i: int)
    requires
        rows_wf(rows),
        0 <= i < rows.len(),
        rows[i].user_id == u,
        rows[i].is_primary,
    ensures
        has_primary_for(rows, u),
        primary_row_of(rows, u) == rows[i],
{
    assert(has_primary_for(rows, u));
    let j = choose|j: int|
        0 <= j < rows.len() && (#[trigger] rows[j].user_id) == u && rows[j].is_primary;
    assert(j == i);
}

/// A well-formed store gives every identity-owning user exactly one
/// primary identity.
pub proof fn lemma_exactly_one_primary(rows: Seq<IdentityModel>, u: u128)
    requires
        rows_wf(rows),
        !user_absent(rows, u),
    ensures
        has_primary_for(rows, u),
        forall|i: int, j: int|
            #![trigger rows[i].is_primary, rows[j].is_primary]
            0 <= i < rows.len() && 0 <= j < rows.len() && rows[i].user_id == u && rows[j].user_id
                == u && rows[i].is_primary && rows[j].is_primary ==> i == j,
{
    let w = choose|i: int| 0 <= i < rows.len() && (#[trigger] rows[i].user_id) == u;
    assert(has_primary_for(rows, rows[w].user_id));
}

/// In a well-formed store the pointer table names exactly the primary
/// identity of each identity-owning user.
pub proof fn lemma_pointer_matches_primary(m: RepoModel, i: int)
    requires
        repo_wf(m),
        0 <= i < m.rows.len(),
        m.rows[i].is_primary,
    ensures
        pointer_of(m.pointers, m.rows[i].user_id) == Some(m.rows[i].id),
{
    let u = m.rows[i].user_id;
    assert(has_pointer_to(m.pointers, u, m.rows[i].id));
    let k = choose|k: int|
        0 <= k < m.pointers.len() && (#[trigger] m.pointers[k]) == (PrimaryPointer {
            user_id: u,
            identity_id: m.rows[i].id,
        });
    assert(m.pointers[k].user_id == u);
    assert(has_pointer(m.pointers, u));
    let k2 = choose|k2: int| 0 <= k2 < m.pointers.len() && (#[trigger] m.pointers[k2].user_id) == u;
    assert(k == k2);
}

} // verus!
