use trade_pass_nft::address::Address;
use trade_pass_nft::contract::TradePassContract;
use trade_pass_nft::pass::PassStatus;

/// The ledger time of a fresh test ledger.
const ISSUE_TIME: u64 = 0;
const REVOKE_TIME: u64 = 0;

fn addr(strkey: &str) -> Address {
    Address::from_strkey(strkey.as_bytes().to_vec())
}

fn admin() -> Address {
    addr("GADMINQ7KZ3WJZPXVTOD4G3ZQ5MRZ2XFBEGDWJVYAVQ5YF7H5O2QADMN")
}

fn uri(s: &str) -> Vec<u8> {
    s.as_bytes().to_vec()
}

fn setup() -> (TradePassContract, Address) {
    (TradePassContract::new(), admin())
}

#[test]
fn test_init() {
    let (mut client, admin) = setup();
    client.init(admin.clone()).unwrap();
    assert_eq!(client.get_admin(), Ok(admin));
    assert_eq!(client.total_passes(), Ok(0));
}

#[test]
fn test_mint_and_check() {
    let (mut client, admin) = setup();
    client.init(admin.clone()).unwrap();

    let user = addr("GUSERAAAAAAAAAAAAAAAAAAAAAAAAAAAAAAAAAAAAAAAAAAAAAAAAAAA");
    let uri = uri("ipfs://QmTradePassMetadata123");

    let pass_id = client.mint(admin.clone(), user.clone(), uri, ISSUE_TIME).unwrap();
    assert_eq!(pass_id, 1);
    assert_eq!(client.total_passes(), Ok(1));

    let is_valid = client.check_pass(user.clone()).unwrap();
    assert!(is_valid, "User should have valid trading pass");

    let pass = client.get_pass(user.clone()).unwrap();
    assert_eq!(pass.owner, user);
    assert_eq!(pass.status, PassStatus::Active);
    assert_eq!(pass.pass_id, 1);
}

#[test]
fn test_revoke() {
    let (mut client, admin) = setup();
    client.init(admin.clone()).unwrap();

    let user = addr("GUSERAAAAAAAAAAAAAAAAAAAAAAAAAAAAAAAAAAAAAAAAAAAAAAAAAAA");
    let uri = uri("ipfs://QmTradePassMetadata123");

    client.mint(admin.clone(), user.clone(), uri, ISSUE_TIME).unwrap();

    assert!(client.check_pass(user.clone()).unwrap());

    client.revoke(admin.clone(), user.clone(), REVOKE_TIME).unwrap();

    assert!(!client.check_pass(user.clone()).unwrap(), "Pass should be invalid after revoke");

    let pass = client.get_pass(user.clone()).unwrap();
    assert_eq!(pass.status, PassStatus::Revoked);
    assert!(pass.revoked_at > 0);
}

#[test]
#[should_panic]
fn test_double_mint_fails() {
    let (mut client, admin) = setup();
    client.init(admin.clone()).unwrap();
    let user = addr("GUSERAAAAAAAAAAAAAAAAAAAAAAAAAAAAAAAAAAAAAAAAAAAAAAAAAAA");
    let uri = uri("ipfs://QmTradePassMetadata123");

    client.mint(admin.clone(), user.clone(), uri.clone(), ISSUE_TIME).unwrap();
    client.mint(admin.clone(), user.clone(), uri, ISSUE_TIME).unwrap();
}

#[test]
#[should_panic]
fn test_unauthorized_mint_fails() {
    let (mut client, admin) = setup();
    client.init(admin).unwrap();

    let hacker = addr("GHACKERAAAAAAAAAAAAAAAAAAAAAAAAAAAAAAAAAAAAAAAAAAAAAAAAA");
    let user = addr("GUSERAAAAAAAAAAAAAAAAAAAAAAAAAAAAAAAAAAAAAAAAAAAAAAAAAAA");
    let uri = uri("ipfs://fake");

    client.mint(hacker, user, uri, ISSUE_TIME).unwrap();
}

#[test]
fn test_transfer_admin() {
    let (mut client, admin) = setup();
    client.init(admin.clone()).unwrap();

    let new_admin = addr("GNEWADMINAAAAAAAAAAAAAAAAAAAAAAAAAAAAAAAAAAAAAAAAAAAAAAA");
    client.transfer_admin(admin, new_admin.clone()).unwrap();

    assert_eq!(client.get_admin(), Ok(new_admin));
}

#[test]
fn test_check_nonexistent_pass() {
    let (mut client, admin) = setup();
    client.init(admin).unwrap();

    let random_user = addr("GRANDOMAAAAAAAAAAAAAAAAAAAAAAAAAAAAAAAAAAAAAAAAAAAAAAAAA");
    assert!(!client.check_pass(random_user).unwrap());
}
