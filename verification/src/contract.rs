//! The registry itself: each request checks, in the contract's order, why it
//! must be refused, and otherwise updates the state.
use vstd::prelude::*;

use crate::address::Address;
use crate::ledger::{
    admin_refusal, check_pass_answer, empty_ledger, get_admin_answer, get_pass_answer, init_outcome,
    initialized_refusal, lemma_pass_map_dom, lemma_pass_map_index, lemma_pass_map_push,
    lemma_pass_map_update, mint_outcome, mint_refusal, owners_distinct, pass_map, revoke_outcome,
    total_passes_answer, transfer_admin_outcome, LedgerView,
};
use crate::pass::{PassStatus, PassView, TradePass, TradePassError};

verus! {

/// The registry's state: whether it was set up, its administrator, the
/// number of passes issued, and the passes (at most one per wallet).
pub struct TradePassContract {
    initialized: bool,
    admin: Option<Address>,
    pass_counter: u64,
    passes: Vec<TradePass>,
}

/// The views of a list of passes.
pub open spec fn pass_views(passes: Seq<TradePass>) -> Seq<PassView> {
    passes.map_values(|p: TradePass| p@)
}

/// The view of an optional address.
pub open spec fn address_view(a: Option<Address>) -> Option<Seq<u8>> {
    match a {
        Some(x) => Some(x@),
        None => None,
    }
}

impl View for TradePassContract {
    type V = LedgerView;

    closed spec fn view(&self) -> LedgerView {
        LedgerView {
            initialized: self.initialized,
            admin: address_view(self.admin),
            pass_counter: self.pass_counter,
            passes: pass_map(pass_views(self.passes@)),
        }
    }
}

impl TradePassContract {
    #[verifier::type_invariant]
    closed spec fn owners_unique(self) -> bool {
        owners_distinct(pass_views(self.passes@))
    }

    /// A registry that was never set up.
    pub fn new() -> (c: TradePassContract)
        ensures
            c@ == empty_ledger(),
    {
        let c = TradePassContract { initialized: false, admin: None, pass_counter: 0, passes: Vec::new() };
        assert(pass_map(pass_views(c.passes@)) =~= Map::empty());
        c
    }

    /// The registry whose state is given by its parts, or `None` where two of
    /// `passes` belong to the same wallet.
    pub fn from_parts(
        initialized: bool,
        admin: Option<Address>,
        pass_counter: u64,
        passes: Vec<TradePass>,
    ) -> (c: Option<TradePassContract>)
        ensures
            c is Some <==> owners_distinct(pass_views(passes@)),
            c matches Some(c) ==> c@ == (LedgerView {
                initialized,
                admin: address_view(admin),
                pass_counter,
                passes: pass_map(pass_views(passes@)),
            }),
    {
        let ghost views = pass_views(passes@);
        let n = passes.len();
        let mut i: usize = 0;
        while i < n
            invariant
                n == passes@.len(),
                views == pass_views(passes@),
                i <= n,
                forall|a: int, b: int| 0 <= a < i && 0 <= b < n && a != b ==> views[a].owner != views[b].owner,
            decreases n - i,
        {
            let mut j: usize = 0;
            while j < n
                invariant
                    n == passes@.len(),
                    views == pass_views(passes@),
                    i < n,
                    j <= n,
                    forall|a: int, b: int| 0 <= a < i && 0 <= b < n && a != b ==> views[a].owner != views[b].owner,
                    forall|b: int| 0 <= b < j && b != i ==> views[i as int].owner != views[b].owner,
                decreases n - j,
            {
                if j != i && passes[i].owner.same_as(&passes[j].owner) {
                    assert(views[i as int].owner == views[j as int].owner);
                    return None;
                }
                j = j + 1;
            }
            i = i + 1;
        }
        Some(TradePassContract { initialized, admin, pass_counter, passes })
    }

    /// The index of `user`'s pass, if it holds one.
    fn find(&self, user: &Address) -> (r: Option<usize>)
        ensures
            r matches Some(i) ==> i < self.passes@.len() && self.passes@[i as int].owner@ == user@,
            r is None ==> forall|i: int| 0 <= i < self.passes@.len() ==> self.passes@[i].owner@ != user@,
    {
        let n = self.passes.len();
        let mut i: usize = 0;
        while i < n
            invariant
                n == self.passes@.len(),
                i <= n,
                forall|j: int| 0 <= j < i ==> self.passes@[j].owner@ != user@,
            decreases n - i,
        {
            if self.passes[i].owner.same_as(user) {
                return Some(i);
            }
            i = i + 1;
        }
        None
    }

    /// What `find` answers, in terms of the registry's view.
    proof fn lemma_find(&self, user: &Address, r: Option<usize>)
        requires
            owners_distinct(pass_views(self.passes@)),
            r matches Some(i) ==> i < self.passes@.len() && self.passes@[i as int].owner@ == user@,
            r is None ==> forall|i: int| 0 <= i < self.passes@.len() ==> self.passes@[i].owner@ != user@,
        ensures
            r is Some <==> self@.passes.contains_key(user@),
            r matches Some(i) ==> self@.passes[user@] == self.passes@[i as int]@,
    {
        let views = pass_views(self.passes@);
        lemma_pass_map_dom(views, user@);
        match r {
            Some(i) => {
                lemma_pass_map_index(views, i as int);
            },
            None => {
                assert forall|j: int| 0 <= j < views.len() implies views[j].owner != user@ by {
                    assert(views[j] == self.passes@[j]@);
                }
            },
        }
    }

    /// Refuses every request on a registry that was not set up.
    pub fn assert_initialized(&self) -> (r: Result<(), TradePassError>)
        ensures
            r is Err <==> initialized_refusal(self@) is Some,
            r matches Err(e) ==> initialized_refusal(self@) == Some(e),
    {
        if !self.initialized {
            Err(TradePassError::NotInitialized)
        } else {
            Ok(())
        }
    }

    /// Refuses an administrator-only request from anyone but the administrator.
    pub fn only_admin(&self, caller: &Address) -> (r: Result<(), TradePassError>)
        ensures
            r is Err <==> admin_refusal(self@, caller@) is Some,
            r matches Err(e) ==> admin_refusal(self@, caller@) == Some(e),
    {
        match &self.admin {
            None => Err(TradePassError::NotInitialized),
            Some(a) => if !a.same_as(caller) {
                Err(TradePassError::Unauthorized)
            } else {
                Ok(())
            },
        }
    }

    /// Sets the registry up with `admin` as its only administrator. A
    /// registry is set up once.
    pub fn init(&mut self, admin: Address) -> (r: Result<(), TradePassError>)
        ensures
            match init_outcome(old(self)@, admin@) {
                Ok(s) => r is Ok && final(self)@ == s,
                Err(e) => r == Err::<(), TradePassError>(e) && final(self)@ == old(self)@,
            },
    {
        if self.initialized {
            return Err(TradePassError::AlreadyInitialized);
        }
        proof {
            use_type_invariant(&*self);
        }
        self.admin = Some(admin);
        self.pass_counter = 0;
        self.initialized = true;
        Ok(())
    }

    /// Why a mint by `admin` for `recipient` would be refused, if it would.
    pub fn mint_refusal(&self, admin: &Address, recipient: &Address) -> (r: Option<TradePassError>)
        ensures
            r == mint_refusal(self@, admin@, recipient@),
    {
        if let Err(e) = self.assert_initialized() {
            return Some(e);
        }
        if let Err(e) = self.only_admin(admin) {
            return Some(e);
        }
        let found = self.find(recipient);
        proof {
            use_type_invariant(self);
            self.lemma_find(recipient, found);
        }
        if found.is_some() {
            Some(TradePassError::PassAlreadyExists)
        } else {
            None
        }
    }

    /// The administrator `admin` issues a new active pass to `recipient` at
    /// ledger time `ledger_timestamp` and gets its id back; each wallet holds
    /// at most one pass.
    pub fn mint(&mut self, admin: Address, recipient: Address, metadata_uri: Vec<u8>, ledger_timestamp: u64) -> (r:
        Result<u64, TradePassError>)
        requires
            mint_refusal(old(self)@, admin@, recipient@) is Some || old(self)@.pass_counter < u64::MAX,
        ensures
            match mint_outcome(old(self)@, admin@, recipient@, metadata_uri@, ledger_timestamp) {
                Ok((s, id)) => r == Ok::<u64, TradePassError>(id) && final(self)@ == s,
                Err(e) => r == Err::<u64, TradePassError>(e) && final(self)@ == old(self)@,
            },
            r matches Ok(id) ==> final(self)@.passes.contains_key(recipient@) && final(self)@.passes[recipient@]
                == (PassView {
                owner: recipient@,
                status: PassStatus::Active,
                issued_at: ledger_timestamp,
                revoked_at: 0,
                pass_id: id,
                metadata_uri: metadata_uri@,
            }),
    {
        if let Some(e) = self.mint_refusal(&admin, &recipient) {
            return Err(e);
        }
        proof {
            use_type_invariant(&*self);
        }
        let ghost old_views = pass_views(self.passes@);
        let new_pass_id = self.pass_counter + 1;
        let pass = TradePass {
            owner: recipient,
            status: PassStatus::Active,
            issued_at: ledger_timestamp,
            revoked_at: 0,
            pass_id: new_pass_id,
            metadata_uri,
        };
        let ghost pv = pass@;
        assert forall|i: int| 0 <= i < old_views.len() implies old_views[i].owner != pv.owner by {
            lemma_pass_map_dom(old_views, pv.owner);
        }
        let mut passes = Vec::new();
        std::mem::swap(&mut passes, &mut self.passes);
        passes.push(pass);
        proof {
            assert(pass_views(passes@) =~= old_views.push(pv));
        }
        self.passes = passes;
        self.pass_counter = new_pass_id;
        proof {
            lemma_pass_map_push(old_views, pv);
        }
        Ok(new_pass_id)
    }

    /// Whether `user` holds a pass that grants trading rights; anyone may ask.
    pub fn check_pass(&self, user: Address) -> (r: Result<bool, TradePassError>)
        ensures
            r == check_pass_answer(self@, user@),
            self@.initialized && !self@.passes.contains_key(user@) ==> r == Ok::<bool, TradePassError>(false),
    {
        self.assert_initialized()?;
        let found = self.find(&user);
        proof {
            use_type_invariant(self);
            self.lemma_find(&user, found);
        }
        match found {
            None => Ok(false),
            Some(i) => Ok(self.passes[i].status == PassStatus::Active),
        }
    }

    /// The full record of the pass that `user` holds.
    pub fn get_pass(&self, user: Address) -> (r: Result<TradePass, TradePassError>)
        ensures
            match get_pass_answer(self@, user@) {
                Ok(p) => r matches Ok(q) && q@ == p,
                Err(e) => r == Err::<TradePass, TradePassError>(e),
            },
    {
        self.assert_initialized()?;
        let found = self.find(&user);
        proof {
            use_type_invariant(self);
            self.lemma_find(&user, found);
        }
        match found {
            None => Err(TradePassError::PassNotFound),
            Some(i) => Ok(self.passes[i].duplicate()),
        }
    }

    /// The administrator `admin` revokes `user`'s pass at ledger time
    /// `ledger_timestamp`; the record is kept, marked revoked, with a nonzero
    /// revocation time (1 at ledger time 0).
    pub fn revoke(&mut self, admin: Address, user: Address, ledger_timestamp: u64) -> (r: Result<(), TradePassError>)
        ensures
            match revoke_outcome(old(self)@, admin@, user@, ledger_timestamp) {
                Ok(s) => r is Ok && final(self)@ == s,
                Err(e) => r == Err::<(), TradePassError>(e) && final(self)@ == old(self)@,
            },
            r is Ok ==> final(self)@.passes.contains_key(user@) && final(self)@.passes[user@].status
                == PassStatus::Revoked && final(self)@.passes[user@].revoked_at > 0,
    {
        self.assert_initialized()?;
        self.only_admin(&admin)?;
        let found = self.find(&user);
        proof {
            use_type_invariant(&*self);
            self.lemma_find(&user, found);
        }
        let i = match found {
            None => {
                return Err(TradePassError::PassNotFound);
            },
            Some(i) => i,
        };
        if self.passes[i].status == PassStatus::Revoked {
            return Err(TradePassError::PassRevoked);
        }
        let ghost old_views = pass_views(self.passes@);
        let mut pass = self.passes[i].duplicate();
        pass.status = PassStatus::Revoked;
        pass.revoked_at = if ledger_timestamp == 0 {
            1
        } else {
            ledger_timestamp
        };
        let ghost pv = pass@;
        proof {
            lemma_pass_map_update(old_views, i as int, pv);
        }
        let mut passes = Vec::new();
        std::mem::swap(&mut passes, &mut self.passes);
        passes.set(i, pass);
        proof {
            assert(pass_views(passes@) =~= old_views.update(i as int, pv));
        }
        self.passes = passes;
        Ok(())
    }

    /// The current administrator.
    pub fn get_admin(&self) -> (r: Result<Address, TradePassError>)
        ensures
            match get_admin_answer(self@) {
                Ok(a) => r matches Ok(b) && b@ == a,
                Err(e) => r == Err::<Address, TradePassError>(e),
            },
    {
        self.assert_initialized()?;
        match &self.admin {
            None => Err(TradePassError::NotInitialized),
            Some(a) => Ok(a.duplicate()),
        }
    }

    /// How many passes were issued so far.
    pub fn total_passes(&self) -> (r: Result<u64, TradePassError>)
        ensures
            r == total_passes_answer(self@),
    {
        self.assert_initialized()?;
        Ok(self.pass_counter)
    }

    /// The administrator `current_admin` hands the role to `new_admin`.
    pub fn transfer_admin(&mut self, current_admin: Address, new_admin: Address) -> (r: Result<(), TradePassError>)
        ensures
            match transfer_admin_outcome(old(self)@, current_admin@, new_admin@) {
                Ok(s) => r is Ok && final(self)@ == s,
                Err(e) => r == Err::<(), TradePassError>(e) && final(self)@ == old(self)@,
            },
    {
        self.assert_initialized()?;
        self.only_admin(&current_admin)?;
        proof {
            use_type_invariant(&*self);
        }
        self.admin = Some(new_admin);
        Ok(())
    }
}

} // verus!
