//! Concurrent refreshes of one expired token. Any number of sessions present
//! the same token, and the store answers each of their steps atomically, in
//! any interleaving. Exactly one compare-and-swap succeeds, and every session
//! ends with the token that the winning swap installed.
use vstd::prelude::*;
use crate::tokens::{
    AccessTokenModel, TokenConfigModel, ParseAccessTokenError, decoded_token, issue_outcome,
    response_for, clock_range, token_encodable, issued_token, envelope_for, lemma_byte_lengths,
};
use crate::authentication::{
    AuthSessionModel, AuthStepModel, UserRecordModel, accept_stored, within_grace,
    start_spec, on_user_spec, on_update_spec, on_access_token_spec, refreshed_decodes,
};

verus! {

/// The token fields of one user's record.
pub struct StoreModel {
    pub access_token: Seq<char>,
    pub previous_access_token: Option<Seq<char>>,
}

/// The store's atomic conditional update: the current token becomes
/// `new_token` and the previous one `expected_token`, only if the current
/// token is `expected_token`; with the number of records changed.
pub open spec fn conditional_update(store: StoreModel, expected_token: Seq<char>, new_token: Seq<char>) -> (
    StoreModel,
    u64,
) {
    if store.access_token == expected_token {
        (StoreModel { access_token: new_token, previous_access_token: Some(expected_token) }, 1)
    } else {
        (store, 0)
    }
}

/// The record that the store hands out.
pub open spec fn record_of(store: StoreModel, user_id: u128) -> UserRecordModel {
    UserRecordModel {
        user_id,
        access_token: store.access_token,
        previous_access_token: store.previous_access_token,
    }
}

/// A session, the step that it waits on, and the number of records that its
/// conditional update changed, once it has made one.
pub struct ClientModel {
    pub session: AuthSessionModel,
    pub step: AuthStepModel,
    pub swap_result: Option<u64>,
}

/// The store and every session.
pub struct SystemModel {
    pub store: StoreModel,
    pub clients: Seq<ClientModel>,
}

/// Whether a session's conditional update changed the record.
pub open spec fn won_swap(c: ClientModel) -> bool {
    c.swap_result == Some(1u64)
}

/// Client `i` takes its step against the store, the rest stand still; the
/// session's reply is what the coordinator's contracts say it is.
pub open spec fn valid_move(pre: SystemModel, post: SystemModel, i: int, config: TokenConfigModel) -> bool {
    &&& 0 <= i < pre.clients.len()
    &&& post.clients.len() == pre.clients.len()
    &&& forall|j: int| 0 <= j < pre.clients.len() && j != i ==> post.clients[j] == pre.clients[j]
    &&& {
        let c = pre.clients[i];
        let d = post.clients[i];
        match c.step {
            AuthStepModel::FetchUser { user_id } => {
                &&& post.store == pre.store
                &&& d.swap_result == c.swap_result
                &&& (d.session, d.step) == on_user_spec(
                    c.session,
                    Ok(record_of(pre.store, user_id)),
                    config,
                )
                &&& refreshed_decodes(d.session, config)
            },
            AuthStepModel::UpdateToken { new_token, expected_token, .. } => {
                let (store, n) = conditional_update(pre.store, expected_token, new_token);
                &&& post.store == store
                &&& d.swap_result == Some(n)
                &&& (d.session, d.step) == on_update_spec(c.session, Ok(n))
            },
            AuthStepModel::FetchAccessToken { .. } => {
                &&& post.store == pre.store
                &&& d.swap_result == c.swap_result
                &&& (d.session, d.step) == on_access_token_spec(c.session, Ok(pre.store.access_token), config)
            },
            AuthStepModel::Finished(_) => false,
        }
    }
}

/// Whether `now` is an instant of the clock past the soft expiry of the
/// presented payload and inside its grace period (so before its hard
/// expiry).
pub open spec fn refreshable_at(presented: AccessTokenModel, now: i128, config: TokenConfigModel) -> bool {
    &&& presented.expires_at <= now
    &&& within_grace(presented, now as int, config)
    &&& clock_range(now as int)
}

/// A successor of an issuable payload can be issued at any instant of the
/// clock.
proof fn lemma_successor_issuable(presented: AccessTokenModel, now: i128, config: TokenConfigModel)
    requires
        config.wf(),
        token_encodable(presented),
        clock_range(now as int),
    ensures
        issue_outcome(presented.user, now as int, config) is Ok,
{
    let n = issued_token(presented.user, config.token_duration, now as int);
    let salt = config.secret_salt;
    lemma_byte_lengths(n, envelope_for(n, salt));
    lemma_byte_lengths(presented, envelope_for(presented, salt));
}

/// Every session has just presented `token` at an instant where it can be
/// refreshed, and the store's current token is `token`.
pub open spec fn initial_system(sys: SystemModel, token: Seq<char>, presented: AccessTokenModel, config: TokenConfigModel) -> bool {
    &&& sys.store.access_token == token
    &&& forall|i: int| 0 <= i < sys.clients.len() ==> #[trigger] sys.clients[i].swap_result is None
    &&& forall|i: int|
        0 <= i < sys.clients.len() ==> exists|now: i128|
            refreshable_at(presented, now, config) && (#[trigger] sys.clients[i].session, sys.clients[i].step)
                == start_spec(token, now, config)
}

/// Whether `sys` is reached from an initial system by a sequence of moves.
pub open spec fn is_run(run: Seq<SystemModel>, token: Seq<char>, presented: AccessTokenModel, config: TokenConfigModel) -> bool {
    &&& run.len() > 0
    &&& initial_system(run[0], token, presented, config)
    &&& forall|k: int|
        #![trigger run[k]]
        0 <= k < run.len() - 1 ==> exists|i: int| #[trigger] valid_move(run[k], run[k + 1], i, config)
}

/// Whether every session has finished.
pub open spec fn all_finished(sys: SystemModel) -> bool {
    forall|i: int| 0 <= i < sys.clients.len() ==> #[trigger] sys.clients[i].step is Finished
}

/// Whether exactly the session `w` won its conditional update.
pub open spec fn sole_winner(sys: SystemModel, w: int) -> bool {
    &&& 0 <= w < sys.clients.len()
    &&& won_swap(sys.clients[w])
    &&& forall|j: int| 0 <= j < sys.clients.len() && j != w ==> !won_swap(#[trigger] sys.clients[j])
}

/// What the sessions agree on: every conditional update changed one record
/// or none; while the record is unchanged no update changed it, and once it
/// has changed exactly one update did, leaving the presented token as the
/// previous one; every finished session got the same successful result, whose
/// token is the store's current one and differs from the presented token,
/// and whose identity is the presented one; and once all have finished, the
/// record has changed.
pub open spec fn converged(sys: SystemModel, token: Seq<char>, presented: AccessTokenModel, config: TokenConfigModel) -> bool {
    &&& forall|i: int| 0 <= i < sys.clients.len() ==> (#[trigger] sys.clients[i].swap_result matches Some(n) ==> n <= 1)
    &&& sys.store.access_token == token ==> forall|i: int| 0 <= i < sys.clients.len() ==> !won_swap(#[trigger] sys.clients[i])
    &&& sys.store.access_token != token ==> {
        &&& sys.store.previous_access_token == Some(token)
        &&& exists|w: int| sole_winner(sys, w)
    }
    &&& forall|i: int|
        0 <= i < sys.clients.len() ==> (#[trigger] sys.clients[i].step matches AuthStepModel::Finished(r) ==> {
            &&& r == accept_stored(sys.store.access_token, config)
            &&& r matches Ok((resp, user)) && resp.token == sys.store.access_token && resp.token != token
                && user == presented.user
        })
    &&& all_finished(sys) && sys.clients.len() > 0 ==> sys.store.access_token != token
}

spec fn store_ok(sys: SystemModel, token: Seq<char>, presented: AccessTokenModel, config: TokenConfigModel) -> bool {
    ||| sys.store.access_token == token && forall|i: int| 0 <= i < sys.clients.len() ==> !won_swap(#[trigger] sys.clients[i])
    ||| {
        &&& sys.store.access_token != token
        &&& sys.store.previous_access_token == Some(token)
        &&& exists|w: int| sole_winner(sys, w)
        &&& decoded_token(sys.store.access_token, config.secret_salt) matches Ok(w) && w.user == presented.user
        &&& accept_stored(sys.store.access_token, config) matches Ok((resp, _))
        &&& resp.token == sys.store.access_token
    }
}

spec fn client_ok(c: ClientModel, store: StoreModel, token: Seq<char>, presented: AccessTokenModel, config: TokenConfigModel) -> bool {
    match c.session {
        AuthSessionModel::AwaitingUser { token: t, presented: p, now } => {
            &&& t == token
            &&& p == presented
            &&& refreshable_at(presented, now, config)
            &&& c.swap_result is None
            &&& c.step == AuthStepModel::FetchUser { user_id: presented.user.user_id }
        },
        AuthSessionModel::AwaitingUpdate { token: t, presented: p, now, refreshed } => {
            &&& t == token
            &&& p == presented
            &&& refreshable_at(presented, now, config)
            &&& issue_outcome(presented.user, now as int, config) matches Ok(n) && {
                &&& refreshed == response_for(n, config.secret_salt)
                &&& decoded_token(refreshed.token, config.secret_salt) == Ok::<
                    AccessTokenModel,
                    ParseAccessTokenError,
                >(n)
            }
            &&& c.swap_result is None
            &&& c.step == AuthStepModel::UpdateToken {
                user_id: presented.user.user_id,
                new_token: refreshed.token,
                expected_token: token,
            }
        },
        AuthSessionModel::AwaitingAccessToken { token: t, presented: p, .. } => {
            &&& t == token
            &&& p == presented
            &&& store.access_token != token
            &&& c.swap_result == Some(0u64)
            &&& c.step == AuthStepModel::FetchAccessToken { user_id: presented.user.user_id }
        },
        AuthSessionModel::Finished => {
            &&& store.access_token != token
            &&& c.swap_result matches Some(n) ==> n <= 1
            &&& c.step == AuthStepModel::Finished(accept_stored(store.access_token, config))
        },
    }
}

spec fn system_ok(sys: SystemModel, token: Seq<char>, presented: AccessTokenModel, config: TokenConfigModel) -> bool {
    &&& store_ok(sys, token, presented, config)
    &&& forall|i: int| 0 <= i < sys.clients.len() ==> client_ok(#[trigger] sys.clients[i], sys.store, token, presented, config)
}

proof fn lemma_initial_ok(sys: SystemModel, token: Seq<char>, presented: AccessTokenModel, config: TokenConfigModel)
    requires
        decoded_token(token, config.secret_salt) == Ok::<AccessTokenModel, ParseAccessTokenError>(presented),
        initial_system(sys, token, presented, config),
    ensures
        system_ok(sys, token, presented, config),
{
    assert forall|i: int| 0 <= i < sys.clients.len() implies client_ok(
        #[trigger] sys.clients[i],
        sys.store,
        token,
        presented,
        config,
    ) by {
        let now = choose|now: i128|
            refreshable_at(presented, now, config) && (#[trigger] sys.clients[i].session, sys.clients[i].step)
                == start_spec(token, now, config);
        assert(refreshable_at(presented, now, config));
    }
}

proof fn lemma_same_swaps(pre: SystemModel, post: SystemModel)
    requires
        post.clients.len() == pre.clients.len(),
        forall|j: int| 0 <= j < pre.clients.len() ==> #[trigger] post.clients[j].swap_result == pre.clients[j].swap_result,
    ensures
        (forall|j: int| 0 <= j < pre.clients.len() ==> !won_swap(#[trigger] pre.clients[j])) ==> (forall|j: int|
            0 <= j < post.clients.len() ==> !won_swap(#[trigger] post.clients[j])),
        forall|w: int| sole_winner(pre, w) ==> sole_winner(post, w),
{
    assert forall|w: int| sole_winner(pre, w) implies sole_winner(post, w) by {
        assert forall|j: int| 0 <= j < post.clients.len() && j != w implies !won_swap(#[trigger] post.clients[j]) by {
            assert(!won_swap(pre.clients[j]));
        }
        assert(post.clients[w].swap_result == pre.clients[w].swap_result);
    }
    if forall|j: int| 0 <= j < pre.clients.len() ==> !won_swap(#[trigger] pre.clients[j]) {
        assert forall|j: int| 0 <= j < post.clients.len() implies !won_swap(#[trigger] post.clients[j]) by {
            assert(!won_swap(pre.clients[j]));
        }
    }
}

proof fn lemma_move_ok(
    pre: SystemModel,
    post: SystemModel,
    i: int,
    token: Seq<char>,
    presented: AccessTokenModel,
    config: TokenConfigModel,
)
    requires
        config.wf(),
        decoded_token(token, config.secret_salt) == Ok::<AccessTokenModel, ParseAccessTokenError>(presented),
        token_encodable(presented),
        system_ok(pre, token, presented, config),
        valid_move(pre, post, i, config),
    ensures
        system_ok(post, token, presented, config),
{
    let c = pre.clients[i];
    let d = post.clients[i];
    assert(client_ok(c, pre.store, token, presented, config));
    match c.step {
        AuthStepModel::FetchUser { user_id } => {
            lemma_same_swaps(pre, post);
            lemma_successor_issuable(presented, c.session->AwaitingUser_now, config);
            if pre.store.access_token == token {
                let now = c.session->AwaitingUser_now;
                let n = issue_outcome(presented.user, now as int, config)->Ok_0;
                assert(n.expires_at > presented.expires_at);
                assert(n != presented);
                assert(d.step->UpdateToken_new_token != token);
            }
            assert(client_ok(d, post.store, token, presented, config));
            assert forall|j: int| 0 <= j < post.clients.len() implies client_ok(
                #[trigger] post.clients[j],
                post.store,
                token,
                presented,
                config,
            ) by {
                if j != i {
                    assert(client_ok(pre.clients[j], pre.store, token, presented, config));
                }
            }
        },
        AuthStepModel::UpdateToken { new_token, expected_token, .. } => {
            let now = c.session->AwaitingUpdate_now;
            let n = issue_outcome(presented.user, now as int, config)->Ok_0;
            assert(n.expires_at > presented.expires_at);
            assert(n != presented);
            assert(new_token != token);
            if pre.store.access_token == token {
                assert forall|j: int| 0 <= j < post.clients.len() && j != i implies !won_swap(#[trigger] post.clients[j]) by {
                    assert(!won_swap(pre.clients[j]));
                }
                assert(sole_winner(post, i));
                assert forall|j: int| 0 <= j < post.clients.len() implies client_ok(
                    #[trigger] post.clients[j],
                    post.store,
                    token,
                    presented,
                    config,
                ) by {
                    if j != i {
                        assert(client_ok(pre.clients[j], pre.store, token, presented, config));
                    }
                }
            } else {
                let w = choose|w: int| sole_winner(pre, w);
                assert(w != i);
                assert forall|j: int| 0 <= j < post.clients.len() && j != w implies !won_swap(#[trigger] post.clients[j]) by {
                    if j != i {
                        assert(!won_swap(pre.clients[j]));
                    }
                }
                assert(sole_winner(post, w));
                assert forall|j: int| 0 <= j < post.clients.len() implies client_ok(
                    #[trigger] post.clients[j],
                    post.store,
                    token,
                    presented,
                    config,
                ) by {
                    if j != i {
                        assert(client_ok(pre.clients[j], pre.store, token, presented, config));
                    }
                }
            }
        },
        AuthStepModel::FetchAccessToken { .. } => {
            lemma_same_swaps(pre, post);
            assert forall|j: int| 0 <= j < post.clients.len() implies client_ok(
                #[trigger] post.clients[j],
                post.store,
                token,
                presented,
                config,
            ) by {
                if j != i {
                    assert(client_ok(pre.clients[j], pre.store, token, presented, config));
                }
            }
        },
        AuthStepModel::Finished(_) => {},
    }
}

proof fn lemma_ok_converged(sys: SystemModel, token: Seq<char>, presented: AccessTokenModel, config: TokenConfigModel)
    requires
        system_ok(sys, token, presented, config),
    ensures
        converged(sys, token, presented, config),
{
    assert forall|i: int| 0 <= i < sys.clients.len() implies (#[trigger] sys.clients[i].step matches AuthStepModel::Finished(r) ==> {
        &&& r == accept_stored(sys.store.access_token, config)
        &&& r matches Ok((resp, user)) && resp.token == sys.store.access_token && resp.token != token
            && user == presented.user
    }) by {
        assert(client_ok(sys.clients[i], sys.store, token, presented, config));
    }
    if all_finished(sys) && sys.clients.len() > 0 {
        assert(sys.clients[0].step is Finished);
        assert(client_ok(sys.clients[0], sys.store, token, presented, config));
    }
}

proof fn lemma_run_ok(
    run: Seq<SystemModel>,
    k: int,
    token: Seq<char>,
    presented: AccessTokenModel,
    config: TokenConfigModel,
)
    requires
        config.wf(),
        decoded_token(token, config.secret_salt) == Ok::<AccessTokenModel, ParseAccessTokenError>(presented),
        token_encodable(presented),
        is_run(run, token, presented, config),
        0 <= k < run.len(),
    ensures
        system_ok(run[k], token, presented, config),
    decreases k,
{
    if k == 0 {
        lemma_initial_ok(run[0], token, presented, config);
    } else {
        lemma_run_ok(run, k - 1, token, presented, config);
        assert(exists|i: int| #[trigger] valid_move(run[k - 1], run[(k - 1) + 1], i, config));
        let i = choose|i: int| #[trigger] valid_move(run[k - 1], run[(k - 1) + 1], i, config);
        lemma_move_ok(run[k - 1], run[k], i, token, presented, config);
    }
}

/// Single-winner convergence. Sessions that present the same token, one
/// that could have been issued, after its soft expiry and inside its grace
/// period, while the store's current token is that token, reach agreement in
/// every interleaving of their steps: at most one conditional update changes
/// the record, leaving the presented token as its previous one, and every
/// other one changes nothing; every session that has finished holds the same
/// successful result, whose token is the record's current one and differs
/// from the presented token, and whose identity is the presented one; and
/// once every session has finished, exactly one conditional update has
/// changed the record.
pub proof fn lemma_single_winner_convergence(
    run: Seq<SystemModel>,
    token: Seq<char>,
    presented: AccessTokenModel,
    config: TokenConfigModel,
)
    requires
        config.wf(),
        decoded_token(token, config.secret_salt) == Ok::<AccessTokenModel, ParseAccessTokenError>(presented),
        token_encodable(presented),
        is_run(run, token, presented, config),
    ensures
        forall|k: int| 0 <= k < run.len() ==> #[trigger] converged(run[k], token, presented, config),
{
    assert forall|m: int| 0 <= m < run.len() implies #[trigger] converged(run[m], token, presented, config) by {
        lemma_run_ok(run, m, token, presented, config);
        lemma_ok_converged(run[m], token, presented, config);
    }
}

} // verus!
