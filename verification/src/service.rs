//! The identity service: request validation, selector disambiguation,
//! invariant enforcement, and orchestration of the repository operations.
//!
//! This is the only component meant to be called from a transport layer.
//! It receives typed requests, returns typed results or typed failures,
//! and after every completed operation the store invariants hold: each
//! identity-owning user has exactly one primary identity and the owner's
//! pointer names it.

use vstd::prelude::*;
use crate::error::ServiceError;
use crate::identity::{CreateIdentity, IdentityModel, UserIdentity};
use crate::ids::{generate_uuid, parse_uuid, uuid_of};
use crate::provider::{Provider, provider_of_code};
use crate::store::{
    IdentityRepository, PrimaryPointer, RepoModel, has_id, has_pair, has_row_for,
    is_oldest_remaining, is_user_listing, at_most_one_of_user, lemma_count_at_most_one,
    lemma_count_zero, lemma_pair_row_is, lemma_primary_row_is, lemma_row_with_id_is, pair_row_of,
    pointer_of, primary_row_of, repo_wf, row_with_id, rows_vec_model_index, set_primary_row,
    touch_row, user_absent,
};
use crate::time::{Instant, instant_from_parts, instant_now, timestamp_in_range};
use crate::wire::{
    Identity, IdentityParams, IdentityRequest, IdentityResponse, LinkIdentityRequest,
    ListIdentitiesRequest, SetPrimaryIdentityRequest, Timestamp, UnlinkIdentityRequest,
    WireIdentityModel, wire_of,
};

verus! {

/// An optional text field as the service stores it: the empty string on
/// the wire stands for absence.
pub open spec fn opt_of_text(s: Seq<char>) -> Option<Seq<char>> {
    if s.len() == 0 {
        None
    } else {
        Some(s)
    }
}

/// The stored expiry for a wire timestamp: the pair itself when chrono
/// accepts it, the present moment otherwise.
pub open spec fn expiry_of(ts: Option<Timestamp>, now: Instant) -> Option<Instant> {
    match ts {
        None => None,
        Some(t) => Some(
            if t.nanos >= 0 && timestamp_in_range(t.seconds, t.nanos as u32) {
                Instant { seconds: t.seconds, nanos: t.nanos as u32 }
            } else {
                now
            },
        ),
    }
}

/// The row a link request creates, once the owner, provider, identifier,
/// primary designation and creation time are fixed.
pub open spec fn linked_row(
    req: LinkIdentityRequest,
    u: u128,
    p: Provider,
    new_id: u128,
    now: Instant,
    primary: bool,
) -> IdentityModel {
    IdentityModel {
        id: new_id,
        user_id: u,
        provider: p,
        provider_user_id: req.provider_user_id@,
        provider_email: opt_of_text(req.provider_email@),
        provider_username: opt_of_text(req.provider_username@),
        provider_avatar_url: opt_of_text(req.provider_avatar_url@),
        access_token_encrypted: opt_of_text(req.access_token@),
        refresh_token_encrypted: opt_of_text(req.refresh_token@),
        token_expires_at: expiry_of(req.token_expires_at, now),
        metadata: None,
        is_primary: primary,
        verified: req.verified,
        create_time: now,
        update_time: now,
        last_used_at: None,
    }
}

/// Take a wire text field into the store, the empty string as absence.
fn opt_field(s: &String) -> (r: Option<String>)
    ensures
        r.deep_view() == opt_of_text(s@),
{
    if s.as_str().is_empty() {
        None
    } else {
        Some(s.clone())
    }
}

/// The identity service over its store.
pub struct IdentityServer {
    repo: IdentityRepository,
}

impl View for IdentityServer {
    type V = RepoModel;

    closed spec fn view(&self) -> RepoModel {
        self.repo@
    }
}

impl IdentityServer {
    /// The store invariants hold.
    pub open spec fn wf(self) -> bool {
        repo_wf(self@)
    }

    /// Wrap a repository.
    pub fn new(repo: IdentityRepository) -> (r: IdentityServer)
        ensures
            r@ == repo@,
            repo.wf() ==> r.wf(),
    {
        IdentityServer { repo }
    }

    /// The user's stored primary-identity reference, as the users table
    /// carries it: present exactly when the user owns an identity, and
    /// then naming the primary one.
    pub fn primary_pointer(&self, user_id: u128) -> (r: Option<u128>)
        requires
            self.wf(),
        ensures
            r == pointer_of(self@.pointers, user_id),
    {
        self.repo.primary_pointer(user_id)
    }

    /// Point lookup through exactly one selector. No selector at all is a
    /// caller error, as is a malformed identifier or an unknown provider
    /// code; a missing identity is an empty response, not an error.
    pub fn get_identity(&self, req: &IdentityRequest) -> (r: Result<IdentityResponse, ServiceError>)
        requires
            self.wf(),
        ensures
            req.params is None ==> (r matches Err(e) && e == ServiceError::InvalidArgument),
            req.params matches Some(IdentityParams::Uid(s)) ==> match uuid_of(s@) {
                None => r matches Err(e) && e == ServiceError::InvalidArgument,
                Some(id) => r matches Ok(resp) && (if has_id(self@.rows, id) {
                    resp.identities.deep_view() == seq![wire_of(row_with_id(self@.rows, id))]
                } else {
                    resp.identities.deep_view() == Seq::<WireIdentityModel>::empty()
                }),
            },
            req.params matches Some(IdentityParams::UserUid(s)) ==> match uuid_of(s@) {
                None => r matches Err(e) && e == ServiceError::InvalidArgument,
                Some(u) => r matches Ok(resp) && (if !user_absent(self@.rows, u) {
                    resp.identities.deep_view() == seq![wire_of(primary_row_of(self@.rows, u))]
                } else {
                    resp.identities.deep_view() == Seq::<WireIdentityModel>::empty()
                }),
            },
            req.params matches Some(IdentityParams::ProviderUserId(s)) ==> match provider_of_code(
                req.provider,
            ) {
                None => r matches Err(e) && e == ServiceError::InvalidArgument,
                Some(p) => r matches Ok(resp) && (if has_pair(self@.rows, p, s@) {
                    resp.identities.deep_view() == seq![wire_of(pair_row_of(self@.rows, p, s@))]
                } else {
                    resp.identities.deep_view() == Seq::<WireIdentityModel>::empty()
                }),
            },
    {
        let found: Option<UserIdentity> = match &req.params {
            None => {
                return Err(ServiceError::InvalidArgument);
            },
            Some(IdentityParams::Uid(s)) => {
                let id = match parse_uuid(s.as_str()) {
                    None => {
                        return Err(ServiceError::InvalidArgument);
                    },
                    Some(id) => id,
                };
                let hit = self.repo.find_by_id(id);
                proof {
                    if has_id(self@.rows, id) {
                        let x = hit.unwrap()@;
                        let i = choose|i: int|
                            0 <= i < self@.rows.len() && (#[trigger] self@.rows[i]) == x;
                        lemma_row_with_id_is(self@.rows, id, i);
                    }
                }
                hit
            },
            Some(IdentityParams::UserUid(s)) => {
                let u = match parse_uuid(s.as_str()) {
                    None => {
                        return Err(ServiceError::InvalidArgument);
                    },
                    Some(u) => u,
                };
                let listing = self.repo.find_by_user_id(u);
                if listing.len() == 0 {
                    None
                } else {
                    let first = listing[0].clone();
                    proof {
                        rows_vec_model_index(&listing, 0);
                        let l = listing.deep_view();
                        assert(l[0].is_primary && l[0].user_id == u);
                        assert(self@.rows.contains(l[0]));
                        let i = choose|i: int|
                            0 <= i < self@.rows.len() && self@.rows[i] == l[0];
                        lemma_primary_row_is(self@.rows, u, i);
                    }
                    Some(first)
                }
            },
            Some(IdentityParams::ProviderUserId(s)) => {
                let p = match crate::provider::Provider::from_code(req.provider) {
                    Err(e) => {
                        return Err(e);
                    },
                    Ok(p) => p,
                };
                let hit = self.repo.find_by_provider(p, s);
                proof {
                    if has_pair(self@.rows, p, s@) {
                        let x = hit.unwrap()@;
                        let i = choose|i: int|
                            0 <= i < self@.rows.len() && (#[trigger] self@.rows[i]) == x;
                        lemma_pair_row_is(self@.rows, p, s@, i);
                    }
                }
                hit
            },
        };
        let mut identities: Vec<Identity> = Vec::new();
        match found {
            Some(ident) => {
                proof {
                    let x = ident@;
                    let i = choose|i: int|
                        0 <= i < self@.rows.len() && (#[trigger] self@.rows[i]) == x;
                    assert(self@.rows[i].wf());
                }
                let encoded = ident.to_proto();
                identities.push(encoded);
                proof {
                    assert(identities.deep_view() =~= seq![wire_of(ident@)]);
                }
            },
            None => {
                proof {
                    assert(identities.deep_view() =~= Seq::<WireIdentityModel>::empty());
                }
            },
        }
        Ok(IdentityResponse { identities })
    }

    /// The user's full listing: the primary identity first, the remaining
    /// ones in creation order. A malformed user identifier is a caller
    /// error; a user with no identities gets an empty listing.
    pub fn list_identities(&self, req: &ListIdentitiesRequest) -> (r: Result<
        IdentityResponse,
        ServiceError,
    >)
        requires
            self.wf(),
        ensures
            uuid_of(req.user_uid@) is None ==> (r matches Err(e) && e
                == ServiceError::InvalidArgument),
            uuid_of(req.user_uid@) matches Some(u) ==> r matches Ok(resp) && (
            resp.identities.len() > 0 <==> !user_absent(self@.rows, u)) && exists|
                l: Seq<IdentityModel>,
            |
                #[trigger] is_user_listing(self@.rows, u, l) && resp.identities.deep_view()
                    == l.map_values(|m: IdentityModel| wire_of(m)),
    {
        let u = match parse_uuid(req.user_uid.as_str()) {
            None => {
                return Err(ServiceError::InvalidArgument);
            },
            Some(u) => u,
        };
        let listing = self.repo.find_by_user_id(u);
        let ghost l = listing.deep_view();
        let n = listing.len();
        let mut identities: Vec<Identity> = Vec::new();
        proof {
            assert(identities.deep_view() =~= Seq::<WireIdentityModel>::empty());
        }
        let mut i: usize = 0;
        while i < n
            invariant
                self.wf(),
                n == l.len(),
                l == listing.deep_view(),
                is_user_listing(self@.rows, u, l),
                0 <= i <= n,
                identities.deep_view().len() == i,
                forall|k: int|
                    0 <= k < i ==> (#[trigger] identities.deep_view()[k]) == wire_of(l[k]),
            decreases n - i,
        {
            proof {
                rows_vec_model_index(&listing, i as int);
                assert(self@.rows.contains(l[i as int]));
                let j = choose|j: int|
                    0 <= j < self@.rows.len() && self@.rows[j] == l[i as int];
                assert(self@.rows[j].wf());
            }
            let ghost pre = identities.deep_view();
            let encoded = listing[i].to_proto();
            identities.push(encoded);
            proof {
                assert(identities.deep_view() =~= pre.push(wire_of(l[i as int])));
            }
            i += 1;
        }
        proof {
            assert(identities.deep_view() =~= l.map_values(|m: IdentityModel| wire_of(m)));
        }
        Ok(IdentityResponse { identities })
    }

    /// Link an external-provider account, at a given moment and under a
    /// caller-chosen fresh identifier. Linking an already-linked pair is
    /// an idempotent refresh: no second row appears, only the last-use
    /// timestamp moves. Otherwise the caller must name the owner —
    /// automatic account creation is not offered — and the new row is
    /// primary exactly when it is the owner's first identity, in which
    /// case the owner's pointer is written in the same unit of work.
    pub fn link_identity_with(&mut self, req: &LinkIdentityRequest, new_id: u128, now: Instant) -> (r:
        Result<IdentityResponse, ServiceError>)
        requires
            old(self).wf(),
            now.wf(),
        ensures
            final(self).wf(),
            provider_of_code(req.provider) is None ==> (r matches Err(e) && e
                == ServiceError::InvalidArgument && final(self)@ == old(self)@),
            provider_of_code(req.provider) matches Some(p) ==> ({
                let rows0 = old(self)@.rows;
                let puid = req.provider_user_id@;
                if has_pair(rows0, p, puid) {
                    ({
                        let ex = pair_row_of(rows0, p, puid);
                        r matches Ok(resp) && final(self)@.rows == rows0.map_values(
                            |m: IdentityModel| touch_row(m, ex.id, now),
                        ) && final(self)@.pointers == old(self)@.pointers
                            && resp.identities.deep_view() == seq![
                            wire_of(touch_row(ex, ex.id, now)),
                        ]
                    })
                } else if req.user_uid is None {
                    r matches Err(e) && e == ServiceError::Unimplemented && final(self)@ == old(
                        self,
                    )@
                } else {
                    true
                }
            }),
            provider_of_code(req.provider) matches Some(p) ==> req.user_uid matches Some(s)
                ==> !has_pair(old(self)@.rows, p, req.provider_user_id@) ==> ({
                let rows0 = old(self)@.rows;
                match uuid_of(s@) {
                    None => r matches Err(e) && e == ServiceError::InvalidArgument && final(self)@
                        == old(self)@,
                    Some(u) => ({
                        let primary = user_absent(rows0, u);
                        let nr = linked_row(*req, u, p, new_id, now, primary);
                        if has_id(rows0, new_id) {
                            r matches Err(e) && e == ServiceError::Internal && final(self)@ == old(
                                self,
                            )@
                        } else {
                            r matches Ok(resp) && final(self)@.rows == rows0.push(nr) && (primary
                                ==> final(self)@.pointers == old(self)@.pointers.push(
                                PrimaryPointer { user_id: u, identity_id: new_id },
                            )) && (!primary ==> final(self)@.pointers == old(self)@.pointers)
                                && resp.identities.deep_view() == seq![wire_of(nr)]
                        }
                    }),
                }
            }),
    {
        let ghost rows0 = old(self)@.rows;
        let p = match Provider::from_code(req.provider) {
            Err(e) => {
                return Err(e);
            },
            Ok(p) => p,
        };
        match self.repo.find_by_provider(p, &req.provider_user_id) {
            Some(existing) => {
                proof {
                    let i = choose|i: int|
                        0 <= i < rows0.len() && (#[trigger] rows0[i]) == existing@;
                    lemma_pair_row_is(rows0, p, req.provider_user_id@, i);
                }
                self.repo.update_last_used(existing.id, now);
                let ghost rows1 = self@.rows;
                proof {
                    assert forall|i: int| 0 <= i < rows1.len() implies (#[trigger] rows1[i].id)
                        == rows0[i].id by {
                        assert(rows1[i] == touch_row(rows0[i], existing@.id, now));
                    }
                    let i0 = choose|i: int|
                        0 <= i < rows0.len() && (#[trigger] rows0[i].id) == existing@.id;
                    assert(rows1[i0].id == existing@.id);
                    assert(has_id(rows1, existing@.id));
                }
                let updated = match self.repo.find_by_id(existing.id) {
                    None => {
                        proof {
                            assert(false);
                        }
                        return Err(ServiceError::Internal);
                    },
                    Some(x) => x,
                };
                proof {
                    let i0 = choose|i: int|
                        0 <= i < rows0.len() && (#[trigger] rows0[i].id) == existing@.id;
                    let j = choose|j: int|
                        0 <= j < rows1.len() && (#[trigger] rows1[j]) == updated@;
                    lemma_row_with_id_is(rows1, existing@.id, j);
                    assert(rows1[i0] == touch_row(rows0[i0], existing@.id, now));
                    lemma_row_with_id_is(rows1, existing@.id, i0);
                    assert(updated@ == touch_row(rows0[i0], existing@.id, now));
                    lemma_row_with_id_is(rows0, existing@.id, i0);
                    assert(updated@ == touch_row(pair_row_of(rows0, p, req.provider_user_id@),
                        pair_row_of(rows0, p, req.provider_user_id@).id, now));
                    assert(updated@.wf());
                }
                let encoded = updated.to_proto();
                let mut identities: Vec<Identity> = Vec::new();
                identities.push(encoded);
                proof {
                    assert(identities.deep_view() =~= seq![wire_of(updated@)]);
                }
                Ok(IdentityResponse { identities })
            },
            None => {
                let user_uid: &String = match &req.user_uid {
                    None => {
                        return Err(ServiceError::Unimplemented);
                    },
                    Some(s) => s,
                };
                let u = match parse_uuid(user_uid.as_str()) {
                    None => {
                        return Err(ServiceError::InvalidArgument);
                    },
                    Some(u) => u,
                };
                let count = self.repo.count_by_user_id(u);
                let is_primary = count == 0;
                proof {
                    lemma_count_zero(rows0, u);
                }
                let token_expires_at: Option<Instant> = match &req.token_expires_at {
                    None => None,
                    Some(ts) => {
                        if ts.nanos >= 0 {
                            match instant_from_parts(ts.seconds, ts.nanos as u32) {
                                Some(i) => Some(i),
                                None => Some(now),
                            }
                        } else {
                            Some(now)
                        }
                    },
                };
                proof {
                    assert(token_expires_at == expiry_of(req.token_expires_at, now));
                    assert(token_expires_at matches Some(t) ==> t.wf());
                }
                let draft = CreateIdentity {
                    user_id: u,
                    provider: p,
                    provider_user_id: req.provider_user_id.clone(),
                    provider_email: opt_field(&req.provider_email),
                    provider_username: opt_field(&req.provider_username),
                    provider_avatar_url: opt_field(&req.provider_avatar_url),
                    access_token_encrypted: opt_field(&req.access_token),
                    refresh_token_encrypted: opt_field(&req.refresh_token),
                    token_expires_at,
                    metadata: None,
                    is_primary,
                    verified: req.verified,
                };
                let ghost nr = linked_row(*req, u, p, new_id, now, is_primary);
                proof {
                    assert(crate::identity::row_of_draft(&draft, new_id, now) =~= nr);
                }
                match self.repo.create(&draft, new_id, now) {
                    Err(_) => {
                        proof {
                            assert(has_id(rows0, new_id));
                        }
                        Err(ServiceError::Internal)
                    },
                    Ok(created) => {
                        proof {
                            assert(created@ == nr);
                            assert(nr.wf());
                        }
                        let encoded = created.to_proto();
                        let mut identities: Vec<Identity> = Vec::new();
                        identities.push(encoded);
                        proof {
                            assert(identities.deep_view() =~= seq![wire_of(nr)]);
                        }
                        Ok(IdentityResponse { identities })
                    },
                }
            },
        }
    }

    /// Link an external-provider account: an idempotent refresh when the
    /// pair is already linked, otherwise a new row under a freshly drawn
    /// identifier, stamped with the present moment.
    pub fn link_identity(&mut self, req: &LinkIdentityRequest) -> (r: Result<
        IdentityResponse,
        ServiceError,
    >)
        requires
            old(self).wf(),
        ensures
            final(self).wf(),
            provider_of_code(req.provider) is None ==> (r matches Err(e) && e
                == ServiceError::InvalidArgument && final(self)@ == old(self)@),
            provider_of_code(req.provider) matches Some(p) ==> ({
                let rows0 = old(self)@.rows;
                let puid = req.provider_user_id@;
                if has_pair(rows0, p, puid) {
                    r is Ok && exists|now: Instant|
                        #![auto]
                        now.wf() && final(self)@.rows == rows0.map_values(
                            |m: IdentityModel| touch_row(m, pair_row_of(rows0, p, puid).id, now),
                        ) && final(self)@.pointers == old(self)@.pointers
                } else if req.user_uid is None {
                    r matches Err(e) && e == ServiceError::Unimplemented && final(self)@ == old(
                        self,
                    )@
                } else {
                    true
                }
            }),
            provider_of_code(req.provider) matches Some(p) ==> req.user_uid matches Some(s)
                ==> !has_pair(old(self)@.rows, p, req.provider_user_id@) ==> ({
                let rows0 = old(self)@.rows;
                match uuid_of(s@) {
                    None => r matches Err(e) && e == ServiceError::InvalidArgument && final(self)@
                        == old(self)@,
                    Some(u) => ({
                        let primary = user_absent(rows0, u);
                        &&& (r matches Err(e) ==> e == ServiceError::Internal && final(self)@
                            == old(self)@)
                        &&& (r is Ok ==> exists|new_id: u128, now: Instant|
                            #![trigger linked_row(*req, u, p, new_id, now, primary)]
                            {
                                let nr = linked_row(*req, u, p, new_id, now, primary);
                                &&& now.wf()
                                &&& !has_id(rows0, new_id)
                                &&& final(self)@.rows == rows0.push(nr)
                                &&& (primary ==> final(self)@.pointers == old(
                                    self,
                                )@.pointers.push(
                                    PrimaryPointer { user_id: u, identity_id: new_id },
                                ))
                                &&& (!primary ==> final(self)@.pointers == old(self)@.pointers)
                            })
                    }),
                }
            }),
    {
        let new_id = generate_uuid();
        let now = instant_now();
        self.link_identity_with(req, new_id, now)
    }

    /// Remove one identity from its owner, at a given moment. The
    /// identity must exist and belong to the given user, and must not be
    /// the user's sole identity: a user can never be reduced to zero
    /// identities. When the removed identity was primary, the primary
    /// designation moves to the owner's earliest-created remaining
    /// identity, pointer included, before the row is dropped.
    pub fn unlink_identity_with(&mut self, req: &UnlinkIdentityRequest, now: Instant) -> (r: Result<
        IdentityResponse,
        ServiceError,
    >)
        requires
            old(self).wf(),
            now.wf(),
        ensures
            final(self).wf(),
            uuid_of(req.identity_uid@) is None ==> (r matches Err(e) && e
                == ServiceError::InvalidArgument && final(self)@ == old(self)@),
            (uuid_of(req.identity_uid@) is Some && uuid_of(req.user_uid@) is None) ==> (r matches
                Err(e) && e == ServiceError::InvalidArgument && final(self)@ == old(self)@),
            uuid_of(req.identity_uid@) matches Some(id) ==> uuid_of(req.user_uid@) matches Some(
                u,
            ) ==> ({
                let rows0 = old(self)@.rows;
                if !has_id(rows0, id) {
                    r matches Err(e) && e == ServiceError::NotFound && final(self)@ == old(self)@
                } else if row_with_id(rows0, id).user_id != u {
                    r matches Err(e) && e == ServiceError::PermissionDenied && final(self)@ == old(
                        self,
                    )@
                } else if at_most_one_of_user(rows0, u) {
                    r matches Err(e) && e == ServiceError::FailedPrecondition && final(self)@
                        == old(self)@
                } else {
                    r matches Ok(resp) && resp.identities.deep_view() == Seq::<
                        WireIdentityModel,
                    >::empty() && !has_id(final(self)@.rows, id) && (if !row_with_id(
                        rows0,
                        id,
                    ).is_primary {
                        exists|k: int|
                            0 <= k < rows0.len() && (#[trigger] rows0[k].id) == id
                                && final(self)@.rows == rows0.remove(k)
                                && final(self)@.pointers == old(self)@.pointers
                    } else {
                        exists|repl: IdentityModel, k: int|
                            {
                                let mid = rows0.map_values(
                                    |m: IdentityModel| set_primary_row(m, repl.id, u, now),
                                );
                                &&& #[trigger] is_oldest_remaining(rows0, u, id, repl)
                                &&& 0 <= k < rows0.len()
                                &&& (#[trigger] rows0[k].id) == id
                                &&& final(self)@.rows == mid.remove(k)
                                &&& pointer_of(final(self)@.pointers, u) == Some(repl.id)
                            }
                    })
                }
            }),
    {
        let ghost rows0 = old(self)@.rows;
        let id = match parse_uuid(req.identity_uid.as_str()) {
            None => {
                return Err(ServiceError::InvalidArgument);
            },
            Some(id) => id,
        };
        let u = match parse_uuid(req.user_uid.as_str()) {
            None => {
                return Err(ServiceError::InvalidArgument);
            },
            Some(u) => u,
        };
        let target = match self.repo.find_by_id(id) {
            None => {
                return Err(ServiceError::NotFound);
            },
            Some(t) => t,
        };
        proof {
            let i = choose|i: int| 0 <= i < rows0.len() && (#[trigger] rows0[i]) == target@;
            lemma_row_with_id_is(rows0, id, i);
        }
        if target.user_id != u {
            return Err(ServiceError::PermissionDenied);
        }
        let count = self.repo.count_by_user_id(u);
        proof {
            lemma_count_at_most_one(rows0, u);
        }
        if count <= 1 {
            return Err(ServiceError::FailedPrecondition);
        }
        if target.is_primary {
            let repl = match self.repo.find_replacement(u, id) {
                None => {
                    proof {
                        let (w1, w2) = choose|w1: int, w2: int|
                            #![trigger rows0[w1].user_id, rows0[w2].user_id]
                            0 <= w1 < rows0.len() && 0 <= w2 < rows0.len() && rows0[w1].user_id
                                == u && rows0[w2].user_id == u && w1 != w2;
                        assert(rows0[w1].id != rows0[w2].id);
                        assert(rows0[w1].id != id || rows0[w2].id != id);
                        assert(false);
                    }
                    return Err(ServiceError::Internal);
                },
                Some(x) => x,
            };
            self.repo.set_primary(repl.id, u, now);
            let ghost mid = self@.rows;
            proof {
                let i0 = choose|i: int| 0 <= i < rows0.len() && (#[trigger] rows0[i].id) == id;
                assert(mid[i0] == set_primary_row(rows0[i0], repl@.id, u, now));
                assert(repl@.id != id);
                assert(!mid[i0].is_primary);
                assert forall|i: int|
                    0 <= i < mid.len() && (#[trigger] mid[i].id) == id && mid[i].user_id == u
                        implies !mid[i].is_primary by {
                    assert(mid[i] == set_primary_row(rows0[i], repl@.id, u, now));
                    assert(rows0[i].id == id);
                    assert(i == i0);
                }
                assert(crate::store::target_not_primary(mid, id, u));
                assert(mid[i0].id == id && mid[i0].user_id == u);
                assert(has_row_for(mid, id, u));
            }
            let removed = self.repo.delete(id, u);
            proof {
                assert(removed);
                let k = choose|k: int|
                    0 <= k < mid.len() && (#[trigger] mid[k].id) == id && mid[k].user_id == u
                        && self@.rows == mid.remove(k);
                assert forall|j: int| 0 <= j < self@.rows.len() implies (#[trigger] self@.rows[j].id)
                    != id by {
                    let oj = if j < k {
                        j
                    } else {
                        j + 1
                    };
                    assert(self@.rows[j] == mid[oj]);
                    assert(mid[oj].id == rows0[oj].id);
                    if mid[oj].id == id {
                        assert(oj == k);
                    }
                }
                assert(!has_id(self@.rows, id));
                assert(is_oldest_remaining(rows0, u, id, repl@));
                assert(mid[k] == set_primary_row(rows0[k], repl@.id, u, now));
                assert(0 <= k < rows0.len() && rows0[k].id == id);
                assert(mid =~= rows0.map_values(
                    |m: IdentityModel| set_primary_row(m, repl@.id, u, now),
                ));
            }
        } else {
            proof {
                let i0 = choose|i: int| 0 <= i < rows0.len() && (#[trigger] rows0[i].id) == id;
                assert forall|i: int|
                    0 <= i < rows0.len() && (#[trigger] rows0[i].id) == id && rows0[i].user_id
                        == u implies !rows0[i].is_primary by {
                    assert(i == i0);
                }
                assert(crate::store::target_not_primary(rows0, id, u));
                assert(has_row_for(rows0, id, u));
            }
            let removed = self.repo.delete(id, u);
            proof {
                assert(removed);
                let k = choose|k: int|
                    0 <= k < rows0.len() && (#[trigger] rows0[k].id) == id && rows0[k].user_id
                        == u && self@.rows == rows0.remove(k);
                assert forall|j: int| 0 <= j < self@.rows.len() implies (#[trigger] self@.rows[j].id)
                    != id by {
                    let oj = if j < k {
                        j
                    } else {
                        j + 1
                    };
                    assert(self@.rows[j] == rows0[oj]);
                    if rows0[oj].id == id {
                        assert(oj == k);
                    }
                }
                assert(!has_id(self@.rows, id));
            }
        }
        let identities: Vec<Identity> = Vec::new();
        proof {
            assert(identities.deep_view() =~= Seq::<WireIdentityModel>::empty());
        }
        Ok(IdentityResponse { identities })
    }

    /// Remove one identity from its owner, stamping any primary transfer
    /// with the present moment.
    pub fn unlink_identity(&mut self, req: &UnlinkIdentityRequest) -> (r: Result<
        IdentityResponse,
        ServiceError,
    >)
        requires
            old(self).wf(),
        ensures
            final(self).wf(),
            uuid_of(req.identity_uid@) is None ==> (r matches Err(e) && e
                == ServiceError::InvalidArgument && final(self)@ == old(self)@),
            (uuid_of(req.identity_uid@) is Some && uuid_of(req.user_uid@) is None) ==> (r matches
                Err(e) && e == ServiceError::InvalidArgument && final(self)@ == old(self)@),
            uuid_of(req.identity_uid@) matches Some(id) ==> uuid_of(req.user_uid@) matches Some(
                u,
            ) ==> ({
                let rows0 = old(self)@.rows;
                if !has_id(rows0, id) {
                    r matches Err(e) && e == ServiceError::NotFound && final(self)@ == old(self)@
                } else if row_with_id(rows0, id).user_id != u {
                    r matches Err(e) && e == ServiceError::PermissionDenied && final(self)@ == old(
                        self,
                    )@
                } else if at_most_one_of_user(rows0, u) {
                    r matches Err(e) && e == ServiceError::FailedPrecondition && final(self)@
                        == old(self)@
                } else {
                    r is Ok && !has_id(final(self)@.rows, id) && (row_with_id(rows0, id).is_primary
                        ==> exists|repl: IdentityModel|
                        #![auto]
                        is_oldest_remaining(rows0, u, id, repl) && pointer_of(
                            final(self)@.pointers,
                            u,
                        ) == Some(repl.id)) && (!row_with_id(rows0, id).is_primary ==> exists|
                        k: int,
                    |
                        0 <= k < rows0.len() && (#[trigger] rows0[k].id) == id && final(self)@.rows
                            == rows0.remove(k) && final(self)@.pointers == old(self)@.pointers)
                }
            }),
    {
        let now = instant_now();
        self.unlink_identity_with(req, now)
    }

    /// Designate an identity as its owner's primary one, at a given
    /// moment. The identity must exist and belong to the given user; on
    /// success the whole switch is one atomic unit: the flags of all the
    /// user's identities and the owner's pointer change together.
    pub fn set_primary_identity_with(&mut self, req: &SetPrimaryIdentityRequest, now: Instant) -> (r:
        Result<IdentityResponse, ServiceError>)
        requires
            old(self).wf(),
            now.wf(),
        ensures
            final(self).wf(),
            uuid_of(req.identity_uid@) is None ==> (r matches Err(e) && e
                == ServiceError::InvalidArgument && final(self)@ == old(self)@),
            (uuid_of(req.identity_uid@) is Some && uuid_of(req.user_uid@) is None) ==> (r matches
                Err(e) && e == ServiceError::InvalidArgument && final(self)@ == old(self)@),
            uuid_of(req.identity_uid@) matches Some(id) ==> uuid_of(req.user_uid@) matches Some(
                u,
            ) ==> ({
                let rows0 = old(self)@.rows;
                if !has_id(rows0, id) {
                    r matches Err(e) && e == ServiceError::NotFound && final(self)@ == old(self)@
                } else if row_with_id(rows0, id).user_id != u {
                    r matches Err(e) && e == ServiceError::PermissionDenied && final(self)@ == old(
                        self,
                    )@
                } else {
                    r matches Ok(resp) && final(self)@.rows == rows0.map_values(
                        |m: IdentityModel| set_primary_row(m, id, u, now),
                    ) && pointer_of(final(self)@.pointers, u) == Some(id)
                        && resp.identities.deep_view() == seq![
                        wire_of(set_primary_row(row_with_id(rows0, id), id, u, now)),
                    ]
                }
            }),
    {
        let ghost rows0 = old(self)@.rows;
        let id = match parse_uuid(req.identity_uid.as_str()) {
            None => {
                return Err(ServiceError::InvalidArgument);
            },
            Some(id) => id,
        };
        let u = match parse_uuid(req.user_uid.as_str()) {
            None => {
                return Err(ServiceError::InvalidArgument);
            },
            Some(u) => u,
        };
        let target = match self.repo.find_by_id(id) {
            None => {
                return Err(ServiceError::NotFound);
            },
            Some(t) => t,
        };
        proof {
            let i = choose|i: int| 0 <= i < rows0.len() && (#[trigger] rows0[i]) == target@;
            lemma_row_with_id_is(rows0, id, i);
        }
        if target.user_id != u {
            return Err(ServiceError::PermissionDenied);
        }
        proof {
            let i = choose|i: int| 0 <= i < rows0.len() && (#[trigger] rows0[i]) == target@;
            assert(rows0[i].id == id && rows0[i].user_id == u);
            assert(has_row_for(rows0, id, u));
        }
        self.repo.set_primary(id, u, now);
        let ghost rows1 = self@.rows;
        proof {
            assert forall|i: int| 0 <= i < rows1.len() implies (#[trigger] rows1[i].id)
                == rows0[i].id by {
                assert(rows1[i] == set_primary_row(rows0[i], id, u, now));
            }
            let i0 = choose|i: int| 0 <= i < rows0.len() && (#[trigger] rows0[i].id) == id;
            assert(rows1[i0].id == id);
            assert(has_id(rows1, id));
        }
        let updated = match self.repo.find_by_id(id) {
            None => {
                proof {
                    assert(false);
                }
                return Err(ServiceError::Internal);
            },
            Some(x) => x,
        };
        proof {
            let i0 = choose|i: int| 0 <= i < rows0.len() && (#[trigger] rows0[i].id) == id;
            let j = choose|j: int| 0 <= j < rows1.len() && (#[trigger] rows1[j]) == updated@;
            lemma_row_with_id_is(rows1, id, j);
            assert(rows1[i0] == set_primary_row(rows0[i0], id, u, now));
            lemma_row_with_id_is(rows1, id, i0);
            assert(updated@ == set_primary_row(rows0[i0], id, u, now));
            lemma_row_with_id_is(rows0, id, i0);
            assert(rows0[i0] == row_with_id(rows0, id));
            assert(updated@.wf());
        }
        let encoded = updated.to_proto();
        let mut identities: Vec<Identity> = Vec::new();
        identities.push(encoded);
        proof {
            assert(identities.deep_view() =~= seq![wire_of(updated@)]);
        }
        Ok(IdentityResponse { identities })
    }

    /// Designate an identity as its owner's primary one, stamping the
    /// switch with the present moment.
    pub fn set_primary_identity(&mut self, req: &SetPrimaryIdentityRequest) -> (r: Result<
        IdentityResponse,
        ServiceError,
    >)
        requires
            old(self).wf(),
        ensures
            final(self).wf(),
            uuid_of(req.identity_uid@) is None ==> (r matches Err(e) && e
                == ServiceError::InvalidArgument && final(self)@ == old(self)@),
            (uuid_of(req.identity_uid@) is Some && uuid_of(req.user_uid@) is None) ==> (r matches
                Err(e) && e == ServiceError::InvalidArgument && final(self)@ == old(self)@),
            uuid_of(req.identity_uid@) matches Some(id) ==> uuid_of(req.user_uid@) matches Some(
                u,
            ) ==> ({
                let rows0 = old(self)@.rows;
                if !has_id(rows0, id) {
                    r matches Err(e) && e == ServiceError::NotFound && final(self)@ == old(self)@
                } else if row_with_id(rows0, id).user_id != u {
                    r matches Err(e) && e == ServiceError::PermissionDenied && final(self)@ == old(
                        self,
                    )@
                } else {
                    r is Ok && exists|now: Instant|
                        #![auto]
                        now.wf() && final(self)@.rows == rows0.map_values(
                            |m: IdentityModel| set_primary_row(m, id, u, now),
                        ) && pointer_of(final(self)@.pointers, u) == Some(id)
                }
            }),
    {
        let now = instant_now();
        self.set_primary_identity_with(req, now)
    }
}

} // verus!
