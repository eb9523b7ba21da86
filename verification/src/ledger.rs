//! The registry's mathematical model: its state as plain values, and what
//! each request does to that state and answers.
use vstd::prelude::*;

use crate::pass::{PassStatus, PassView, TradePassError};

verus! {

/// The registry's state: whether it was set up, who administers it, how many
/// passes were issued, and the pass held by each wallet (keyed by strkey).
pub struct LedgerView {
    pub initialized: bool,
    pub admin: Option<Seq<u8>>,
    pub pass_counter: u64,
    pub passes: Map<Seq<u8>, PassView>,
}

/// The passes of a sequence keyed by owner; a later entry wins over an
/// earlier one with the same owner.
pub open spec fn pass_map(s: Seq<PassView>) -> Map<Seq<u8>, PassView>
    decreases s.len(),
{
    if s.len() == 0 {
        Map::empty()
    } else {
        pass_map(s.drop_last()).insert(s.last().owner, s.last())
    }
}

/// No two entries of `s` belong to the same owner.
pub open spec fn owners_distinct(s: Seq<PassView>) -> bool {
    forall|i: int, j: int| 0 <= i < s.len() && 0 <= j < s.len() && i != j ==> s[i].owner != s[j].owner
}

/// A wallet holds a pass exactly when some entry belongs to it, and the map
/// is finite.
pub proof fn lemma_pass_map_dom(s: Seq<PassView>, k: Seq<u8>)
    ensures
        pass_map(s).dom().finite(),
        pass_map(s).dom().contains(k) <==> exists|i: int| 0 <= i < s.len() && s[i].owner == k,
    decreases s.len(),
{
    if s.len() > 0 {
        lemma_pass_map_dom(s.drop_last(), k);
        if pass_map(s).dom().contains(k) && k != s.last().owner {
            let i = choose|i: int| 0 <= i < s.drop_last().len() && s.drop_last()[i].owner == k;
            assert(s[i].owner == k);
        }
        if exists|i: int| 0 <= i < s.len() && s[i].owner == k {
            let i = choose|i: int| 0 <= i < s.len() && s[i].owner == k;
            if i < s.len() - 1 {
                assert(s.drop_last()[i].owner == k);
            }
        }
    }
}

/// With distinct owners, the pass that the map holds for an owner is that
/// owner's entry.
pub proof fn lemma_pass_map_index(s: Seq<PassView>, i: int)
    requires
        owners_distinct(s),
        0 <= i < s.len(),
    ensures
        pass_map(s).dom().contains(s[i].owner),
        pass_map(s)[s[i].owner] == s[i],
    decreases s.len(),
{
    if i < s.len() - 1 {
        lemma_pass_map_index(s.drop_last(), i);
        assert(s.drop_last()[i] == s[i]);
    }
}

/// Appending an entry inserts it into the map.
pub proof fn lemma_pass_map_push(s: Seq<PassView>, p: PassView)
    ensures
        pass_map(s.push(p)) == pass_map(s).insert(p.owner, p),
{
    assert(s.push(p).drop_last() =~= s);
}

/// Replacing an entry by one for the same owner replaces it in the map.
pub proof fn lemma_pass_map_update(s: Seq<PassView>, i: int, p: PassView)
    requires
        owners_distinct(s),
        0 <= i < s.len(),
        p.owner == s[i].owner,
    ensures
        owners_distinct(s.update(i, p)),
        pass_map(s.update(i, p)) == pass_map(s).insert(p.owner, p),
{
    let t = s.update(i, p);
    assert(owners_distinct(t));
    assert forall|k: Seq<u8>| #![auto] pass_map(t).dom().contains(k) <==> pass_map(s).insert(p.owner, p).dom().contains(k) by {
        lemma_pass_map_dom(t, k);
        lemma_pass_map_dom(s, k);
        if exists|j: int| 0 <= j < s.len() && s[j].owner == k {
            let j = choose|j: int| 0 <= j < s.len() && s[j].owner == k;
            assert(t[j].owner == k);
        }
        if exists|j: int| 0 <= j < t.len() && t[j].owner == k {
            let j = choose|j: int| 0 <= j < t.len() && t[j].owner == k;
            assert(s[j].owner == k || j == i);
        }
    }
    assert forall|k: Seq<u8>| #![auto] pass_map(t).dom().contains(k) implies pass_map(t)[k] == pass_map(s).insert(p.owner, p)[k] by {
        lemma_pass_map_dom(t, k);
        let j = choose|j: int| 0 <= j < t.len() && t[j].owner == k;
        lemma_pass_map_index(t, j);
        if j != i {
            lemma_pass_map_index(s, j);
        }
    }
    assert(pass_map(t) =~= pass_map(s).insert(p.owner, p));
}

/// The state of a registry that was never set up.
pub open spec fn empty_ledger() -> LedgerView {
    LedgerView { initialized: false, admin: None, pass_counter: 0, passes: Map::empty() }
}

/// The refusal owed to any request on a registry that was not set up.
pub open spec fn initialized_refusal(s: LedgerView) -> Option<TradePassError> {
    if !s.initialized {
        Some(TradePassError::NotInitialized)
    } else {
        None
    }
}

/// The refusal owed to `caller` on an administrator-only request.
pub open spec fn admin_refusal(s: LedgerView, caller: Seq<u8>) -> Option<TradePassError> {
    match s.admin {
        None => Some(TradePassError::NotInitialized),
        Some(a) => if a != caller {
            Some(TradePassError::Unauthorized)
        } else {
            None
        },
    }
}

/// Setting the registry up with `admin` as its administrator.
pub open spec fn init_outcome(s: LedgerView, admin: Seq<u8>) -> Result<LedgerView, TradePassError> {
    if s.initialized {
        Err(TradePassError::AlreadyInitialized)
    } else {
        Ok(LedgerView { initialized: true, admin: Some(admin), pass_counter: 0, ..s })
    }
}

/// Why a mint by `caller` for `recipient` is refused, if it is.
pub open spec fn mint_refusal(s: LedgerView, caller: Seq<u8>, recipient: Seq<u8>) -> Option<TradePassError> {
    if initialized_refusal(s) is Some {
        initialized_refusal(s)
    } else if admin_refusal(s, caller) is Some {
        admin_refusal(s, caller)
    } else if s.passes.contains_key(recipient) {
        Some(TradePassError::PassAlreadyExists)
    } else {
        None
    }
}

/// The pass that a mint issues.
pub open spec fn issued_pass(recipient: Seq<u8>, metadata_uri: Seq<u8>, now: u64, pass_id: u64) -> PassView {
    PassView {
        owner: recipient,
        status: PassStatus::Active,
        issued_at: now,
        revoked_at: 0,
        pass_id,
        metadata_uri,
    }
}

/// Issuing a pass to `recipient` at ledger time `now`: the new state and the
/// new pass's id.
pub open spec fn mint_outcome(
    s: LedgerView,
    caller: Seq<u8>,
    recipient: Seq<u8>,
    metadata_uri: Seq<u8>,
    now: u64,
) -> Result<(LedgerView, u64), TradePassError> {
    if mint_refusal(s, caller, recipient) is Some {
        Err(mint_refusal(s, caller, recipient)->0)
    } else {
        let id = (s.pass_counter + 1) as u64;
        Ok((
            LedgerView {
                pass_counter: id,
                passes: s.passes.insert(recipient, issued_pass(recipient, metadata_uri, now, id)),
                ..s
            },
            id,
        ))
    }
}

/// Why a revocation by `caller` of `user`'s pass is refused, if it is.
pub open spec fn revoke_refusal(s: LedgerView, caller: Seq<u8>, user: Seq<u8>) -> Option<TradePassError> {
    if initialized_refusal(s) is Some {
        initialized_refusal(s)
    } else if admin_refusal(s, caller) is Some {
        admin_refusal(s, caller)
    } else if !s.passes.contains_key(user) {
        Some(TradePassError::PassNotFound)
    } else if s.passes[user].status is Revoked {
        Some(TradePassError::PassRevoked)
    } else {
        None
    }
}

/// The time recorded for a revocation at ledger time `now`: `now` itself,
/// or 1 at ledger time 0, since `revoked_at` is 0 only while a pass is active.
pub open spec fn revocation_time(now: u64) -> u64 {
    if now == 0 {
        1
    } else {
        now
    }
}

/// A pass as it stands after being revoked at ledger time `now`.
pub open spec fn revoked_pass(p: PassView, now: u64) -> PassView {
    PassView { status: PassStatus::Revoked, revoked_at: revocation_time(now), ..p }
}

/// Revoking `user`'s pass at ledger time `now`; the pass is kept.
pub open spec fn revoke_outcome(s: LedgerView, caller: Seq<u8>, user: Seq<u8>, now: u64) -> Result<LedgerView, TradePassError> {
    if revoke_refusal(s, caller, user) is Some {
        Err(revoke_refusal(s, caller, user)->0)
    } else {
        Ok(LedgerView { passes: s.passes.insert(user, revoked_pass(s.passes[user], now)), ..s })
    }
}

/// Handing the administrator role from `caller` to `new_admin`.
pub open spec fn transfer_admin_outcome(s: LedgerView, caller: Seq<u8>, new_admin: Seq<u8>) -> Result<LedgerView, TradePassError> {
    if initialized_refusal(s) is Some {
        Err(initialized_refusal(s)->0)
    } else if admin_refusal(s, caller) is Some {
        Err(admin_refusal(s, caller)->0)
    } else {
        Ok(LedgerView { admin: Some(new_admin), ..s })
    }
}

/// Whether `user` holds a pass that grants trading rights.
pub open spec fn check_pass_answer(s: LedgerView, user: Seq<u8>) -> Result<bool, TradePassError> {
    if !s.initialized {
        Err(TradePassError::NotInitialized)
    } else {
        Ok(s.passes.contains_key(user) && s.passes[user].status is Active)
    }
}

/// The pass that `user` holds.
pub open spec fn get_pass_answer(s: LedgerView, user: Seq<u8>) -> Result<PassView, TradePassError> {
    if !s.initialized {
        Err(TradePassError::NotInitialized)
    } else if !s.passes.contains_key(user) {
        Err(TradePassError::PassNotFound)
    } else {
        Ok(s.passes[user])
    }
}

/// The current administrator.
pub open spec fn get_admin_answer(s: LedgerView) -> Result<Seq<u8>, TradePassError> {
    if !s.initialized || s.admin is None {
        Err(TradePassError::NotInitialized)
    } else {
        Ok(s.admin->0)
    }
}

/// How many passes were issued so far.
pub open spec fn total_passes_answer(s: LedgerView) -> Result<u64, TradePassError> {
    if !s.initialized {
        Err(TradePassError::NotInitialized)
    } else {
        Ok(s.pass_counter)
    }
}

} // verus!
