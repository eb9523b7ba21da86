use trade_pass_nft::address::Address;
use trade_pass_nft::contract::TradePassContract;
use trade_pass_nft::pass::{PassStatus, TradePass, TradePassError};

fn addr(strkey: &str) -> Address {
    Address::from_strkey(strkey.as_bytes().to_vec())
}

fn ready() -> (TradePassContract, Address, Address) {
    let mut c = TradePassContract::new();
    let admin = addr("GADMIN");
    c.init(admin.clone()).unwrap();
    (c, admin, addr("GUSER"))
}

#[test]
fn every_query_refused_before_init() {
    let c = TradePassContract::new();
    let u = addr("GUSER");
    assert_eq!(c.check_pass(u.clone()), Err(TradePassError::NotInitialized));
    assert_eq!(c.get_pass(u.clone()), Err(TradePassError::NotInitialized));
    assert_eq!(c.get_admin(), Err(TradePassError::NotInitialized));
    assert_eq!(c.total_passes(), Err(TradePassError::NotInitialized));
    assert_eq!(c.assert_initialized(), Err(TradePassError::NotInitialized));
}

#[test]
fn every_request_refused_before_init() {
    let mut c = TradePassContract::new();
    let a = addr("GADMIN");
    let u = addr("GUSER");
    assert_eq!(c.mint(a.clone(), u.clone(), b"x".to_vec(), 5), Err(TradePassError::NotInitialized));
    assert_eq!(c.revoke(a.clone(), u.clone(), 5), Err(TradePassError::NotInitialized));
    assert_eq!(c.transfer_admin(a.clone(), u.clone()), Err(TradePassError::NotInitialized));
    assert_eq!(c.mint_refusal(&a, &u), Some(TradePassError::NotInitialized));
}

#[test]
fn init_is_refused_the_second_time() {
    let (mut c, admin, other) = ready();
    assert_eq!(c.init(other), Err(TradePassError::AlreadyInitialized));
    assert_eq!(c.get_admin(), Ok(admin));
}

#[test]
fn mint_by_stranger_is_unauthorized_and_changes_nothing() {
    let (mut c, _admin, user) = ready();
    let stranger = addr("GSTRANGER");
    assert_eq!(c.mint(stranger.clone(), user.clone(), b"u".to_vec(), 9), Err(TradePassError::Unauthorized));
    assert_eq!(c.total_passes(), Ok(0));
    assert_eq!(c.check_pass(user.clone()), Ok(false));
    assert_eq!(c.get_pass(user), Err(TradePassError::PassNotFound));
    assert_eq!(c.only_admin(&stranger), Err(TradePassError::Unauthorized));
}

#[test]
fn second_mint_for_same_wallet_is_refused_and_keeps_first() {
    let (mut c, admin, user) = ready();
    assert_eq!(c.mint(admin.clone(), user.clone(), b"first".to_vec(), 10), Ok(1));
    assert_eq!(c.mint_refusal(&admin, &user), Some(TradePassError::PassAlreadyExists));
    assert_eq!(c.mint(admin.clone(), user.clone(), b"second".to_vec(), 11), Err(TradePassError::PassAlreadyExists));
    assert_eq!(c.total_passes(), Ok(1));
    let p = c.get_pass(user).unwrap();
    assert_eq!(p.metadata_uri, b"first".to_vec());
    assert_eq!(p.issued_at, 10);
}

#[test]
fn minted_pass_holds_the_issued_record() {
    let (mut c, admin, user) = ready();
    assert_eq!(c.mint_refusal(&admin, &user), None);
    c.mint(admin, user.clone(), b"ipfs://meta".to_vec(), 42).unwrap();
    let expected = TradePass {
        owner: user.clone(),
        status: PassStatus::Active,
        issued_at: 42,
        revoked_at: 0,
        pass_id: 1,
        metadata_uri: b"ipfs://meta".to_vec(),
    };
    assert_eq!(c.get_pass(user), Ok(expected));
}

#[test]
fn pass_ids_count_up_per_wallet() {
    let (mut c, admin, _) = ready();
    let a = addr("GA");
    let b = addr("GB");
    let d = addr("GD");
    assert_eq!(c.mint(admin.clone(), a.clone(), vec![], 1), Ok(1));
    assert_eq!(c.mint(admin.clone(), b.clone(), vec![], 2), Ok(2));
    assert_eq!(c.mint(admin.clone(), d.clone(), vec![], 3), Ok(3));
    assert_eq!(c.total_passes(), Ok(3));
    assert_eq!(c.get_pass(b).unwrap().pass_id, 2);
}

#[test]
fn revoke_unknown_wallet_is_pass_not_found() {
    let (mut c, admin, user) = ready();
    assert_eq!(c.revoke(admin, user, 3), Err(TradePassError::PassNotFound));
}

#[test]
fn revoke_twice_is_pass_revoked_and_keeps_first_time() {
    let (mut c, admin, user) = ready();
    c.mint(admin.clone(), user.clone(), b"m".to_vec(), 100).unwrap();
    c.revoke(admin.clone(), user.clone(), 200).unwrap();
    assert_eq!(c.revoke(admin.clone(), user.clone(), 300), Err(TradePassError::PassRevoked));
    let p = c.get_pass(user).unwrap();
    assert_eq!(p.status, PassStatus::Revoked);
    assert_eq!(p.revoked_at, 200);
    assert_eq!(p.issued_at, 100);
    assert_eq!(p.pass_id, 1);
    assert_eq!(p.metadata_uri, b"m".to_vec());
    assert_eq!(c.total_passes(), Ok(1));
}

#[test]
fn revoke_by_stranger_is_unauthorized() {
    let (mut c, admin, user) = ready();
    c.mint(admin, user.clone(), b"m".to_vec(), 1).unwrap();
    assert_eq!(c.revoke(addr("GX"), user.clone(), 2), Err(TradePassError::Unauthorized));
    assert_eq!(c.check_pass(user), Ok(true));
}

#[test]
fn revoking_one_wallet_leaves_others_active() {
    let (mut c, admin, user) = ready();
    let other = addr("GOTHER");
    c.mint(admin.clone(), user.clone(), vec![], 1).unwrap();
    c.mint(admin.clone(), other.clone(), vec![], 1).unwrap();
    c.revoke(admin, user.clone(), 5).unwrap();
    assert_eq!(c.check_pass(user), Ok(false));
    assert_eq!(c.check_pass(other), Ok(true));
}

#[test]
fn former_admin_loses_rights_after_transfer() {
    let (mut c, admin, user) = ready();
    let new_admin = addr("GNEW");
    c.transfer_admin(admin.clone(), new_admin.clone()).unwrap();
    assert_eq!(c.mint(admin.clone(), user.clone(), vec![], 1), Err(TradePassError::Unauthorized));
    assert_eq!(c.transfer_admin(admin, user.clone()), Err(TradePassError::Unauthorized));
    assert_eq!(c.mint(new_admin, user, vec![], 1), Ok(1));
}

#[test]
fn error_codes_match_the_interface() {
    assert_eq!(TradePassError::NotInitialized.code(), 1);
    assert_eq!(TradePassError::AlreadyInitialized.code(), 2);
    assert_eq!(TradePassError::Unauthorized.code(), 3);
    assert_eq!(TradePassError::PassNotFound.code(), 4);
    assert_eq!(TradePassError::PassAlreadyExists.code(), 5);
    assert_eq!(TradePassError::PassRevoked.code(), 6);
    assert_eq!(PassStatus::Active.code(), 0);
    assert_eq!(PassStatus::Revoked.code(), 1);
}

#[test]
fn addresses_compare_by_strkey() {
    let a = addr("GSAME");
    assert!(a.same_as(&addr("GSAME")));
    assert!(!a.same_as(&addr("GSAMF")));
    assert!(!a.same_as(&addr("GSAM")));
    assert_eq!(a.duplicate(), a);
    assert_eq!(a.strkey(), &b"GSAME".to_vec());
}

#[test]
fn from_parts_rejects_two_passes_of_one_wallet() {
    let p = TradePass {
        owner: addr("GW"),
        status: PassStatus::Active,
        issued_at: 1,
        revoked_at: 0,
        pass_id: 1,
        metadata_uri: vec![],
    };
    let mut q = p.duplicate();
    q.pass_id = 2;
    assert!(TradePassContract::from_parts(true, Some(addr("GA")), 2, vec![p.clone(), q]).is_none());
    let c = TradePassContract::from_parts(true, Some(addr("GA")), 1, vec![p.clone()]).unwrap();
    assert_eq!(c.get_pass(addr("GW")), Ok(p));
    assert_eq!(c.total_passes(), Ok(1));
}

#[test]
fn revoke_at_ledger_time_zero_records_a_nonzero_time() {
    let (mut c, admin, user) = ready();
    c.mint(admin.clone(), user.clone(), b"m".to_vec(), 0).unwrap();
    assert_eq!(c.get_pass(user.clone()).unwrap().revoked_at, 0);
    c.revoke(admin, user.clone(), 0).unwrap();
    let p = c.get_pass(user.clone()).unwrap();
    assert_eq!(p.status, PassStatus::Revoked);
    assert_eq!(p.revoked_at, 1);
    assert_eq!(c.check_pass(user), Ok(false));
}
