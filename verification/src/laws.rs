//! What holds of the registry across requests.
use vstd::prelude::*;

use crate::ledger::{
    check_pass_answer, empty_ledger, get_admin_answer, get_pass_answer, init_outcome, issued_pass,
    mint_outcome, revocation_time, revoke_outcome, revoked_pass, total_passes_answer, transfer_admin_outcome,
    LedgerView,
};
use crate::pass::{PassStatus, PassView, TradePassError};

verus! {

/// A request that may change the registry.
pub enum Request {
    Init { admin: Seq<u8> },
    Mint { admin: Seq<u8>, recipient: Seq<u8>, metadata_uri: Seq<u8>, now: u64 },
    Revoke { admin: Seq<u8>, user: Seq<u8>, now: u64 },
    TransferAdmin { current_admin: Seq<u8>, new_admin: Seq<u8> },
}

/// The state after `req`, or why it is refused.
pub open spec fn apply(s: LedgerView, req: Request) -> Result<LedgerView, TradePassError> {
    match req {
        Request::Init { admin } => init_outcome(s, admin),
        Request::Mint { admin, recipient, metadata_uri, now } => match mint_outcome(
            s,
            admin,
            recipient,
            metadata_uri,
            now,
        ) {
            Ok((t, _)) => Ok(t),
            Err(e) => Err(e),
        },
        Request::Revoke { admin, user, now } => revoke_outcome(s, admin, user, now),
        Request::TransferAdmin { current_admin, new_admin } => transfer_admin_outcome(s, current_admin, new_admin),
    }
}

/// What every state reachable from a fresh registry satisfies: it has an
/// administrator exactly when it was set up; the counter is the number of
/// passes; every pass is filed under its owner, carries an id between 1 and
/// the counter that no other pass carries, and has `revoked_at` 0 exactly
/// while it is active.
pub open spec fn consistent(s: LedgerView) -> bool {
    &&& s.initialized <==> s.admin is Some
    &&& !s.initialized ==> s.pass_counter == 0
    &&& s.passes.dom().finite()
    &&& s.passes.dom().len() == s.pass_counter
    &&& forall|k: Seq<u8>| #[trigger]
        s.passes.contains_key(k) ==> {
            &&& s.passes[k].owner == k
            &&& 1 <= s.passes[k].pass_id <= s.pass_counter
            &&& (s.passes[k].status is Active <==> s.passes[k].revoked_at == 0)
        }
    &&& forall|k1: Seq<u8>, k2: Seq<u8>|
        #![trigger s.passes[k1], s.passes[k2]]
        s.passes.contains_key(k1) && s.passes.contains_key(k2) && k1 != k2 ==> s.passes[k1].pass_id
            != s.passes[k2].pass_id
}

/// A registry that was never set up is consistent.
pub proof fn law_empty_consistent()
    ensures
        consistent(empty_ledger()),
{
    assert(empty_ledger().passes.dom() =~= Set::<Seq<u8>>::empty());
}

/// Every accepted request keeps the registry consistent.
pub proof fn law_request_keeps_consistent(s: LedgerView, req: Request)
    requires
        consistent(s),
        apply(s, req) is Ok,
        req is Mint ==> s.pass_counter < u64::MAX,
    ensures
        consistent(apply(s, req)->Ok_0),
{
    let t = apply(s, req)->Ok_0;
    match req {
        Request::Init { admin } => {
            s.passes.dom().lemma_len0_is_empty();
        },
        Request::Mint { admin, recipient, metadata_uri, now } => {
            let id = (s.pass_counter + 1) as u64;
            assert(t.passes == s.passes.insert(recipient, issued_pass(recipient, metadata_uri, now, id)));
            assert(!s.passes.contains_key(recipient));
            assert(t.passes.dom() =~= s.passes.dom().insert(recipient));
            assert forall|k1: Seq<u8>, k2: Seq<u8>|
                #![trigger t.passes[k1], t.passes[k2]]
                t.passes.contains_key(k1) && t.passes.contains_key(k2) && k1 != k2 implies t.passes[k1].pass_id
                != t.passes[k2].pass_id by {
                if k1 != recipient && k2 != recipient {
                    assert(s.passes.contains_key(k1) && s.passes.contains_key(k2));
                } else if k1 == recipient {
                    assert(s.passes.contains_key(k2));
                } else {
                    assert(s.passes.contains_key(k1));
                }
            }
        },
        Request::Revoke { admin, user, now } => {
            assert(t.passes.dom() =~= s.passes.dom());
            assert forall|k1: Seq<u8>, k2: Seq<u8>|
                #![trigger t.passes[k1], t.passes[k2]]
                t.passes.contains_key(k1) && t.passes.contains_key(k2) && k1 != k2 implies t.passes[k1].pass_id
                != t.passes[k2].pass_id by {
                assert(t.passes[k1].pass_id == s.passes[k1].pass_id);
                assert(t.passes[k2].pass_id == s.passes[k2].pass_id);
            }
        },
        Request::TransferAdmin { current_admin, new_admin } => {},
    }
}

/// The wallet whose pass a request may change, if any.
pub open spec fn touched_wallet(req: Request) -> Option<Seq<u8>> {
    match req {
        Request::Mint { recipient, .. } => Some(recipient),
        Request::Revoke { user, .. } => Some(user),
        _ => None,
    }
}

/// Passes are soulbound and kept for audit: no accepted request removes a
/// pass or changes its owner, id, issue time or metadata; a revoked pass
/// never changes again; and a request changes no pass but that of the wallet
/// it names.
pub proof fn law_passes_soulbound_and_kept(s: LedgerView, req: Request, k: Seq<u8>)
    requires
        apply(s, req) is Ok,
        s.passes.contains_key(k),
    ensures
        ({
            let t = apply(s, req)->Ok_0;
            &&& t.passes.contains_key(k)
            &&& t.passes[k].owner == s.passes[k].owner
            &&& t.passes[k].pass_id == s.passes[k].pass_id
            &&& t.passes[k].issued_at == s.passes[k].issued_at
            &&& t.passes[k].metadata_uri == s.passes[k].metadata_uri
            &&& s.passes[k].status is Revoked ==> t.passes[k] == s.passes[k]
            &&& touched_wallet(req) != Some(k) ==> t.passes[k] == s.passes[k]
        }),
{
}

/// After the administrator issues a pass to a wallet, that wallet holds an
/// active pass with exactly the issued record, the new id is the number of
/// passes issued, and the wallet can never be issued a second pass.
pub proof fn law_mint_then_check(
    s: LedgerView,
    admin: Seq<u8>,
    recipient: Seq<u8>,
    metadata_uri: Seq<u8>,
    now: u64,
    later_caller: Seq<u8>,
    later_uri: Seq<u8>,
    later_now: u64,
)
    requires
        mint_outcome(s, admin, recipient, metadata_uri, now) is Ok,
        s.pass_counter < u64::MAX,
    ensures
        ({
            let (t, id) = mint_outcome(s, admin, recipient, metadata_uri, now)->Ok_0;
            &&& id == s.pass_counter + 1
            &&& check_pass_answer(t, recipient) == Ok::<bool, TradePassError>(true)
            &&& get_pass_answer(t, recipient) == Ok::<_, TradePassError>(
                issued_pass(recipient, metadata_uri, now, id),
            )
            &&& total_passes_answer(t) == Ok::<u64, TradePassError>(id)
            &&& mint_outcome(t, later_caller, recipient, later_uri, later_now) is Err
        }),
{
}

/// After the administrator revokes a wallet's pass, the wallet no longer
/// holds trading rights, its record is kept and marked revoked at the time
/// of revocation (never 0, so that `revoked_at` is 0 only while a pass is
/// active), and it cannot be revoked again.
pub proof fn law_revoke_then_check(s: LedgerView, admin: Seq<u8>, user: Seq<u8>, now: u64, later_caller: Seq<u8>, later_now: u64)
    requires
        revoke_outcome(s, admin, user, now) is Ok,
    ensures
        ({
            let t = revoke_outcome(s, admin, user, now)->Ok_0;
            &&& check_pass_answer(t, user) == Ok::<bool, TradePassError>(false)
            &&& get_pass_answer(t, user) == Ok::<_, TradePassError>(revoked_pass(s.passes[user], now))
            &&& get_pass_answer(t, user)->Ok_0.status == PassStatus::Revoked
            &&& get_pass_answer(t, user)->Ok_0.revoked_at == revocation_time(now)
            &&& get_pass_answer(t, user)->Ok_0.revoked_at > 0
            &&& (now > 0 ==> get_pass_answer(t, user)->Ok_0.revoked_at == now)
            &&& revoke_outcome(t, later_caller, user, later_now) is Err
            &&& total_passes_answer(t) == total_passes_answer(s)
        }),
{
}

/// Only the administrator may issue, revoke or hand over the role: on a
/// registry that was set up, anyone else is refused as unauthorized.
pub proof fn law_only_admin(
    s: LedgerView,
    caller: Seq<u8>,
    wallet: Seq<u8>,
    metadata_uri: Seq<u8>,
    now: u64,
    new_admin: Seq<u8>,
)
    requires
        consistent(s),
        s.initialized,
        s.admin != Some(caller),
    ensures
        mint_outcome(s, caller, wallet, metadata_uri, now) == Err::<(LedgerView, u64), TradePassError>(
            TradePassError::Unauthorized,
        ),
        revoke_outcome(s, caller, wallet, now) == Err::<LedgerView, TradePassError>(TradePassError::Unauthorized),
        transfer_admin_outcome(s, caller, new_admin) == Err::<LedgerView, TradePassError>(
            TradePassError::Unauthorized,
        ),
{
}

/// A registry is set up once: afterwards its administrator is the one given,
/// no pass was issued yet, and a second set-up is refused.
pub proof fn law_init_once(s: LedgerView, admin: Seq<u8>, later_admin: Seq<u8>, user: Seq<u8>)
    requires
        consistent(s),
        init_outcome(s, admin) is Ok,
    ensures
        ({
            let t = init_outcome(s, admin)->Ok_0;
            &&& get_admin_answer(t) == Ok::<Seq<u8>, TradePassError>(admin)
            &&& total_passes_answer(t) == Ok::<u64, TradePassError>(0)
            &&& check_pass_answer(t, user) == Ok::<bool, TradePassError>(false)
            &&& init_outcome(t, later_admin) == Err::<LedgerView, TradePassError>(
                TradePassError::AlreadyInitialized,
            )
        }),
{
    s.passes.dom().lemma_len0_is_empty();
    assert(!s.passes.dom().contains(user));
}

/// Handing over the role makes the new administrator the one reported, keeps
/// every pass, and leaves the former administrator (if another wallet)
/// without the right to issue passes.
pub proof fn law_transfer_admin(
    s: LedgerView,
    current_admin: Seq<u8>,
    new_admin: Seq<u8>,
    wallet: Seq<u8>,
    metadata_uri: Seq<u8>,
    now: u64,
)
    requires
        transfer_admin_outcome(s, current_admin, new_admin) is Ok,
    ensures
        ({
            let t = transfer_admin_outcome(s, current_admin, new_admin)->Ok_0;
            &&& get_admin_answer(t) == Ok::<Seq<u8>, TradePassError>(new_admin)
            &&& t.passes == s.passes
            &&& t.pass_counter == s.pass_counter
            &&& current_admin != new_admin ==> mint_outcome(t, current_admin, wallet, metadata_uri, now) == Err::<
                (LedgerView, u64),
                TradePassError,
            >(TradePassError::Unauthorized)
        }),
{
}

/// A registry that was not set up refuses every request and question but
/// set-up, as not initialized.
pub proof fn law_uninitialized_refuses(s: LedgerView, req: Request, user: Seq<u8>)
    requires
        !s.initialized,
        !(req is Init),
    ensures
        apply(s, req) == Err::<LedgerView, TradePassError>(TradePassError::NotInitialized),
        check_pass_answer(s, user) == Err::<bool, TradePassError>(TradePassError::NotInitialized),
        get_pass_answer(s, user) is Err,
        get_admin_answer(s) is Err,
        total_passes_answer(s) is Err,
{
}

/// Anyone's check of a wallet answers `true` exactly when the wallet's pass
/// record exists and is active.
pub proof fn law_check_pass_reads_the_record(s: LedgerView, user: Seq<u8>)
    requires
        s.initialized,
    ensures
        check_pass_answer(s, user) == Ok::<bool, TradePassError>(
            get_pass_answer(s, user) matches Ok(p) && p.status is Active,
        ),
{
}

/// A mint is accepted exactly when the registry is set up, the caller is its
/// administrator and the recipient holds no pass yet; the recipient then
/// holds an active, never-revoked pass carrying exactly the metadata URI
/// given, issued at the ledger time of the mint, with the next id; other
/// wallets' passes are untouched.
pub proof fn law_mint_stores_what_it_was_given(
    s: LedgerView,
    admin: Seq<u8>,
    recipient: Seq<u8>,
    metadata_uri: Seq<u8>,
    now: u64,
    other: Seq<u8>,
)
    requires
        s.pass_counter < u64::MAX,
    ensures
        mint_outcome(s, admin, recipient, metadata_uri, now) is Ok <==> (s.initialized && s.admin == Some(admin)
            && !s.passes.contains_key(recipient)),
        mint_outcome(s, admin, recipient, metadata_uri, now) matches Ok((t, id)) ==> {
            &&& id == s.pass_counter + 1
            &&& t.passes.contains_key(recipient)
            &&& t.passes[recipient].owner == recipient
            &&& t.passes[recipient].metadata_uri == metadata_uri
            &&& t.passes[recipient].issued_at == now
            &&& t.passes[recipient].status == PassStatus::Active
            &&& t.passes[recipient].revoked_at == 0
            &&& t.passes[recipient].pass_id == id
            &&& get_pass_answer(t, recipient) matches Ok(p) && p.metadata_uri == metadata_uri && p.issued_at == now
            &&& t.admin == s.admin
            &&& t.initialized
            &&& (other != recipient ==> t.passes.contains_key(other) == s.passes.contains_key(other))
            &&& (other != recipient && s.passes.contains_key(other) ==> t.passes[other] == s.passes[other])
        },
{
}

/// A revocation is accepted exactly when the registry is set up, the caller
/// is its administrator and the wallet holds an active pass, whatever other
/// wallets hold; it is refused as already revoked only when that wallet's own
/// pass is revoked. Only that wallet's pass changes, to revoked.
pub proof fn law_revoke_depends_on_own_pass(s: LedgerView, admin: Seq<u8>, user: Seq<u8>, now: u64, other: Seq<u8>)
    ensures
        revoke_outcome(s, admin, user, now) is Ok <==> (s.initialized && s.admin == Some(admin)
            && s.passes.contains_key(user) && s.passes[user].status == PassStatus::Active),
        revoke_outcome(s, admin, user, now) == Err::<LedgerView, TradePassError>(TradePassError::PassRevoked)
            ==> s.passes.contains_key(user) && s.passes[user].status == PassStatus::Revoked,
        revoke_outcome(s, admin, user, now) matches Ok(t) ==> {
            &&& t.passes.contains_key(user)
            &&& t.passes[user].status == PassStatus::Revoked
            &&& t.passes[user].revoked_at > 0
            &&& check_pass_answer(t, user) == Ok::<bool, TradePassError>(false)
            &&& (other != user ==> t.passes.contains_key(other) == s.passes.contains_key(other))
            &&& (other != user && s.passes.contains_key(other) ==> t.passes[other] == s.passes[other])
        },
{
}

/// On a set-up registry, a wallet that holds no pass checks false and its
/// pass is refused as not found, whatever other passes exist; a check
/// answers true only for a wallet that holds an active pass.
pub proof fn law_no_pass_checks_false(s: LedgerView, user: Seq<u8>)
    ensures
        s.initialized && !s.passes.contains_key(user) ==> check_pass_answer(s, user) == Ok::<bool, TradePassError>(
            false,
        ) && get_pass_answer(s, user) == Err::<PassView, TradePassError>(TradePassError::PassNotFound),
        check_pass_answer(s, user) == Ok::<bool, TradePassError>(true) ==> s.passes.contains_key(user)
            && s.passes[user].status == PassStatus::Active,
        get_pass_answer(s, user) matches Ok(p) ==> s.passes.contains_key(user) && p == s.passes[user],
{
}

/// On a set-up registry, a hand-over requested by the current administrator
/// is always accepted and makes `new_admin` the administrator, leaving every
/// pass and the count as they were.
pub proof fn law_admin_may_always_transfer(s: LedgerView, current_admin: Seq<u8>, new_admin: Seq<u8>)
    ensures
        transfer_admin_outcome(s, current_admin, new_admin) is Ok <==> (s.initialized && s.admin == Some(
            current_admin,
        )),
        transfer_admin_outcome(s, current_admin, new_admin) matches Ok(t) ==> {
            &&& t.admin == Some(new_admin)
            &&& t.initialized
            &&& t.passes == s.passes
            &&& t.pass_counter == s.pass_counter
        },
{
}

/// A registry that was never set up accepts set-up with any administrator
/// address (account or contract), and then reports that address as its
/// administrator; a set-up registry refuses it as already initialized.
pub proof fn law_init_accepts_any_admin(s: LedgerView, admin: Seq<u8>)
    ensures
        !s.initialized ==> init_outcome(s, admin) is Ok,
        s.initialized ==> init_outcome(s, admin) == Err::<LedgerView, TradePassError>(
            TradePassError::AlreadyInitialized,
        ),
        init_outcome(s, admin) matches Ok(t) ==> {
            &&& t.initialized
            &&& t.admin == Some(admin)
            &&& t.pass_counter == 0
            &&& t.passes == s.passes
            &&& get_admin_answer(t) == Ok::<Seq<u8>, TradePassError>(admin)
        },
{
}

} // verus!
