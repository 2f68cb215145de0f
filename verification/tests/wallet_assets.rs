use globe_wallet::address::{Address, AddressKind};
use globe_wallet::asset::AssetInfo;
use globe_wallet::wallet::env::WalletEnv;
use globe_wallet::wallet::error::WalletError;
use globe_wallet::wallet::types::{DataKey, Event, LedgerEntry, SpendRecord};
use globe_wallet::wallet::GlobeWallet;
use soroban_sdk::testutils::{ContractFunctionSet, Ledger};
use soroban_sdk::{IntoVal, Symbol, Val};
use std::cell::RefCell;
use std::rc::Rc;

/// A wallet and a source of addresses.
struct Wallet {
    env: WalletEnv,
    generated: u128,
}

impl Wallet {
    /// A wallet without an admin.
    fn blank() -> Wallet {
        let config = soroban_sdk::testutils::EnvTestConfig { capture_snapshot_at_drop: false };
        let host = soroban_sdk::Env::new_with_config(config);
        let contract = Address { kind: AddressKind::Contract, hi: 0, lo: 0 };
        Wallet { env: WalletEnv::new(host, contract), generated: 0 }
    }

    fn generate(&mut self) -> Address {
        self.generated += 1;
        Address { kind: AddressKind::Account, hi: 0, lo: self.generated }
    }

    /// The environment of a call that these addresses have authorized.
    fn by(&mut self, signers: &[Address]) -> &mut WalletEnv {
        self.env.signers = signers.to_vec();
        &mut self.env
    }
}

/// An initialized wallet and its admin.
fn setup() -> (Wallet, Address) {
    let mut wallet = Wallet::blank();
    let admin = wallet.generate();
    GlobeWallet::initialize(wallet.by(&[]), admin).unwrap();
    (wallet, admin)
}

fn asset(code: &str, issuer: Option<Address>) -> AssetInfo {
    AssetInfo { code: code.as_bytes().to_vec(), issuer }
}

fn xlm() -> AssetInfo {
    asset("XLM", None)
}

fn usdc(wallet: &mut Wallet) -> AssetInfo {
    let issuer = wallet.generate();
    asset("USDC", Some(issuer))
}

fn add(wallet: &mut Wallet, user: Address, asset: &AssetInfo) -> Result<(), WalletError> {
    GlobeWallet::add_asset(wallet.by(&[user]), user, asset.clone())
}

fn limit(
    wallet: &mut Wallet,
    user: Address,
    asset: &AssetInfo,
    limit: i128,
) -> Result<(), WalletError> {
    GlobeWallet::set_spend_limit(wallet.by(&[user]), user, asset.clone(), limit)
}

fn spend(
    wallet: &mut Wallet,
    user: Address,
    asset: &AssetInfo,
    amount: i128,
) -> Result<(), WalletError> {
    GlobeWallet::record_spend(wallet.by(&[user]), user, asset.clone(), amount)
}

fn limit_of(wallet: &Wallet, user: Address, asset: &AssetInfo) -> i128 {
    GlobeWallet::get_spend_limit(&wallet.env, user, asset.clone())
}

/// A user with the native asset registered and a limit for it.
fn setup_with_limit(value: i128) -> (Wallet, Address, AssetInfo) {
    let (mut wallet, _admin) = setup();
    let user = wallet.generate();
    let asset = xlm();
    add(&mut wallet, user, &asset).unwrap();
    limit(&mut wallet, user, &asset, value).unwrap();
    (wallet, user, asset)
}

fn fill_to_max(wallet: &mut Wallet, user: Address) {
    for i in 0..GlobeWallet::MAX_ASSETS {
        let issuer = wallet.generate();
        add(wallet, user, &asset(&format!("A{:02}", i), Some(issuer))).unwrap();
    }
}

/// Whether entries that were extended as a call asked for are still there
/// after a number of ledgers.
fn survives(env: &WalletEnv, wanted: DataKey, ledgers: u32) -> bool {
    let host = env.host.clone();
    host.mock_all_auths();
    let owner = <soroban_sdk::Address as soroban_sdk::testutils::Address>::generate(&host);
    let contract = host.register_stellar_asset_contract_v2(owner).address();
    let requests: Vec<(u32, u32)> = env
        .ttl_extensions
        .iter()
        .filter(|t| t.entry == LedgerEntry::Persistent(wanted.clone()))
        .map(|t| (t.threshold, t.extend_to))
        .collect();
    host.as_contract(&contract, || {
        host.storage().persistent().set(&1u32, &1u32);
        for (threshold, extend_to) in requests.iter() {
            host.storage().persistent().extend_ttl(&1u32, *threshold, *extend_to);
        }
        for t in env.ttl_extensions.iter() {
            if t.entry == LedgerEntry::Instance {
                host.storage().instance().extend_ttl(t.threshold, t.extend_to);
            }
        }
    });
    host.ledger().with_mut(|l| l.sequence_number += ledgers);
    !requests.is_empty() && host.as_contract(&contract, || host.storage().persistent().has(&1u32))
}

#[test]
fn test_add_and_get_assets() {
    let (mut wallet, _admin) = setup();
    let user = wallet.generate();
    let dollar = usdc(&mut wallet);
    add(&mut wallet, user, &xlm()).unwrap();
    add(&mut wallet, user, &dollar).unwrap();
    let assets = GlobeWallet::get_assets(&wallet.env, user);
    assert_eq!(assets.len(), 2);
    assert_eq!(assets[0].code, b"XLM".to_vec());
}

#[test]
fn test_add_duplicate_asset_fails() {
    let (mut wallet, _admin) = setup();
    let user = wallet.generate();
    add(&mut wallet, user, &xlm()).unwrap();
    assert_eq!(add(&mut wallet, user, &xlm()), Err(WalletError::AssetAlreadyAdded));
}

#[test]
fn test_add_asset_empty_code_fails() {
    let (mut wallet, _admin) = setup();
    let user = wallet.generate();
    let issuer = wallet.generate();
    let empty = asset("", Some(issuer));
    assert_eq!(add(&mut wallet, user, &empty), Err(WalletError::InvalidAssetCode));
}

#[test]
fn test_add_asset_overlong_code_fails() {
    let (mut wallet, _admin) = setup();
    let user = wallet.generate();
    let issuer = wallet.generate();
    let overlong = asset("THIRTEENCHARS", Some(issuer));
    assert_eq!(add(&mut wallet, user, &overlong), Err(WalletError::InvalidAssetCode));
}

#[test]
fn test_add_asset_case_variant_duplicate_fails() {
    let (mut wallet, _admin) = setup();
    let user = wallet.generate();
    let dollar = usdc(&mut wallet);
    add(&mut wallet, user, &dollar).unwrap();
    let lower = asset("usdc", dollar.issuer);
    assert_eq!(add(&mut wallet, user, &lower), Err(WalletError::AssetAlreadyAdded));
    assert_eq!(GlobeWallet::get_assets(&wallet.env, user).len(), 1);
}

#[test]
fn test_remove_asset() {
    let (mut wallet, _admin) = setup();
    let user = wallet.generate();
    let dollar = usdc(&mut wallet);
    add(&mut wallet, user, &xlm()).unwrap();
    add(&mut wallet, user, &dollar).unwrap();
    GlobeWallet::remove_asset(wallet.by(&[user]), user, b"XLM".to_vec()).unwrap();
    let assets = GlobeWallet::get_assets(&wallet.env, user);
    assert_eq!(assets.len(), 1);
    assert_eq!(assets[0].code, b"USDC".to_vec());
}

#[test]
fn test_remove_nonexistent_asset_fails() {
    let (mut wallet, _admin) = setup();
    let user = wallet.generate();
    assert_eq!(
        GlobeWallet::remove_asset(wallet.by(&[user]), user, b"XLM".to_vec()),
        Err(WalletError::AssetNotFound)
    );
}

#[test]
fn test_spend_limit_set_and_get() {
    let (wallet, user, asset) = setup_with_limit(1_000_000);
    assert_eq!(limit_of(&wallet, user, &asset), 1_000_000);
}

#[test]
fn test_record_spend_within_limit() {
    let (mut wallet, user, asset) = setup_with_limit(1_000_000);
    spend(&mut wallet, user, &asset, 500_000).unwrap();
    spend(&mut wallet, user, &asset, 499_999).unwrap();
}

#[test]
fn test_record_spend_exceeds_limit_fails() {
    let (mut wallet, user, asset) = setup_with_limit(1_000_000);
    spend(&mut wallet, user, &asset, 999_999).unwrap();
    assert_eq!(
        spend(&mut wallet, user, &asset, 2),
        Err(WalletError::SpendLimitExceeded)
    );
}

#[test]
fn test_record_spend_negative_amount_fails() {
    let (mut wallet, user, asset) = setup_with_limit(1_000_000);
    assert_eq!(
        spend(&mut wallet, user, &asset, -1),
        Err(WalletError::InvalidSpendLimit)
    );
}

#[test]
fn test_record_spend_zero_amount_fails() {
    let (mut wallet, user, asset) = setup_with_limit(1_000_000);
    assert_eq!(
        spend(&mut wallet, user, &asset, 0),
        Err(WalletError::InvalidSpendLimit)
    );
}

#[test]
fn test_record_spend_rejected_negative_amount_does_not_mutate_state() {
    let (mut wallet, user, asset) = setup_with_limit(1_000_000);
    spend(&mut wallet, user, &asset, 900_000).unwrap();
    assert_eq!(
        spend(&mut wallet, user, &asset, -900_000),
        Err(WalletError::InvalidSpendLimit)
    );
    assert_eq!(
        spend(&mut wallet, user, &asset, 100_001),
        Err(WalletError::SpendLimitExceeded)
    );
    spend(&mut wallet, user, &asset, 100_000).unwrap();
}

#[test]
fn test_record_spend_negative_amount_cannot_bypass_daily_limit() {
    let (mut wallet, user, asset) = setup_with_limit(1_000_000);
    spend(&mut wallet, user, &asset, 900_000).unwrap();
    assert_eq!(
        spend(&mut wallet, user, &asset, -900_000),
        Err(WalletError::InvalidSpendLimit)
    );
    assert_eq!(
        spend(&mut wallet, user, &asset, 999_999),
        Err(WalletError::SpendLimitExceeded)
    );
}

#[test]
fn test_record_spend_overflow_does_not_poison_later_calls() {
    let (mut wallet, user, asset) = setup_with_limit(i128::MAX);
    spend(&mut wallet, user, &asset, 1).unwrap();
    assert_eq!(
        spend(&mut wallet, user, &asset, i128::MAX),
        Err(WalletError::SpendOverflow)
    );
    spend(&mut wallet, user, &asset, 1).unwrap();
}

#[test]
fn test_no_limit_allows_any_spend() {
    let (mut wallet, _admin) = setup();
    let user = wallet.generate();
    add(&mut wallet, user, &xlm()).unwrap();
    spend(&mut wallet, user, &xlm(), i128::MAX).unwrap();
}

#[test]
fn test_raise_spend_then_lower_limit() {
    let (mut wallet, user, asset) = setup_with_limit(1_000_000);
    spend(&mut wallet, user, &asset, 900_000).unwrap();
    assert_eq!(
        limit(&mut wallet, user, &asset, 500_000),
        Err(WalletError::SpendLimitExceeded)
    );
    assert_eq!(limit_of(&wallet, user, &asset), 1_000_000);

    limit(&mut wallet, user, &asset, 900_000).unwrap();
    assert_eq!(limit_of(&wallet, user, &asset), 900_000);
    assert_eq!(
        spend(&mut wallet, user, &asset, 1),
        Err(WalletError::SpendLimitExceeded)
    );

    limit(&mut wallet, user, &asset, 0).unwrap();
    assert_eq!(limit_of(&wallet, user, &asset), 0);
}

#[test]
fn test_daily_spent_survives_temporary_ttl_eviction() {
    let (mut wallet, user, asset) = setup_with_limit(1_000_000);
    spend(&mut wallet, user, &asset, 900_000).unwrap();
    assert!(survives(&wallet.env, DataKey::DailySpent(user, asset.clone()), 3_000));
    wallet.env.sequence += 3_000;
    assert_eq!(
        spend(&mut wallet, user, &asset, 200_000),
        Err(WalletError::SpendLimitExceeded)
    );
}

#[test]
fn test_max_assets_limit() {
    let (mut wallet, _admin) = setup();
    let user = wallet.generate();
    fill_to_max(&mut wallet, user);
    let issuer = wallet.generate();
    let extra = asset("EXTRA", Some(issuer));
    assert_eq!(add(&mut wallet, user, &extra), Err(WalletError::AssetLimitExceeded));
}

#[test]
fn test_migrate_user_assets_trims_excess() {
    let (mut wallet, admin) = setup();
    let user = wallet.generate();
    let mut assets = Vec::new();
    for i in 0..GlobeWallet::MAX_ASSETS + 10 {
        let issuer = wallet.generate();
        assets.push(asset(&format!("ASSET{}", i), Some(issuer)));
    }
    wallet
        .env
        .user_assets
        .set(user, globe_wallet::asset::AssetList { items: assets.clone() });
    for a in assets.iter() {
        wallet.env.spend_limits.set((user, a.clone()), 1000);
        wallet.env.daily_spent.set((user, a.clone()), SpendRecord { amount: 500, day: 0 });
    }

    let removed = GlobeWallet::migrate_user_assets(wallet.by(&[admin, user]), admin, user).unwrap();
    assert_eq!(removed, 10);
    let kept = GlobeWallet::get_assets(&wallet.env, user);
    assert_eq!(kept.len() as u32, GlobeWallet::MAX_ASSETS);

    for a in assets[50..].iter() {
        assert!(!wallet.env.spend_limits.has(&(user, a.clone())));
        assert!(!wallet.env.daily_spent.has(&(user, a.clone())));
    }
    for a in assets[..50].iter() {
        assert!(wallet.env.spend_limits.has(&(user, a.clone())));
        assert!(wallet.env.daily_spent.has(&(user, a.clone())));
    }
}

#[test]
fn test_migrate_user_assets_within_limit_does_nothing() {
    let (mut wallet, admin) = setup();
    let user = wallet.generate();
    for i in 0..3 {
        let issuer = wallet.generate();
        add(&mut wallet, user, &asset(&format!("ASSET{}", i), Some(issuer))).unwrap();
    }
    let removed = GlobeWallet::migrate_user_assets(wallet.by(&[admin, user]), admin, user).unwrap();
    assert_eq!(removed, 0);
    assert_eq!(GlobeWallet::get_assets(&wallet.env, user).len(), 3);
}

#[test]
fn test_migrate_user_assets_requires_admin() {
    let (mut wallet, _admin) = setup();
    let user = wallet.generate();
    let non_admin = wallet.generate();
    assert_eq!(
        GlobeWallet::migrate_user_assets(wallet.by(&[non_admin, user]), non_admin, user),
        Err(WalletError::Unauthorized)
    );
}

#[test]
fn test_record_spend_boundary_last_second_of_day_accumulates() {
    let (mut wallet, user, asset) = setup_with_limit(1_000);
    let day = 1u64;
    wallet.env.timestamp = day * 86_400 - 1;
    spend(&mut wallet, user, &asset, 600).unwrap();
    assert_eq!(
        spend(&mut wallet, user, &asset, 401),
        Err(WalletError::SpendLimitExceeded),
        "Two spends in the same bucket must accumulate: 600+401 > 1000"
    );
}

#[test]
fn test_record_spend_boundary_first_second_of_new_day_resets() {
    let (mut wallet, user, asset) = setup_with_limit(1_000);
    wallet.env.timestamp = 86_399;
    spend(&mut wallet, user, &asset, 900).unwrap();
    wallet.env.timestamp = 86_400;
    spend(&mut wallet, user, &asset, 1_000).unwrap();
}

#[test]
fn test_record_spend_exact_day_boundary() {
    let (mut wallet, user, asset) = setup_with_limit(500);
    let n: u64 = 5;
    wallet.env.timestamp = n * 86_400 - 1;
    spend(&mut wallet, user, &asset, 500).unwrap();
    assert_eq!(
        spend(&mut wallet, user, &asset, 1),
        Err(WalletError::SpendLimitExceeded)
    );
    wallet.env.timestamp = n * 86_400;
    spend(&mut wallet, user, &asset, 500).unwrap();
}

#[test]
fn test_record_spend_bucket_is_integer_division() {
    let (mut wallet, user, asset) = setup_with_limit(100);
    wallet.env.timestamp = 86_400;
    spend(&mut wallet, user, &asset, 50).unwrap();
    wallet.env.timestamp = 129_600;
    assert_eq!(
        spend(&mut wallet, user, &asset, 51),
        Err(WalletError::SpendLimitExceeded),
        "50+51 > 100: mid-bucket accumulation must hold"
    );
    wallet.env.timestamp = 172_799;
    assert_eq!(
        spend(&mut wallet, user, &asset, 51),
        Err(WalletError::SpendLimitExceeded),
        "50+51 > 100: end-of-bucket accumulation must hold"
    );
}

#[test]
fn test_record_spend_boundary_drift_awareness() {
    let (mut wallet, user, asset) = setup_with_limit(1_000);
    wallet.env.timestamp = 2 * 86_400 - 1;
    spend(&mut wallet, user, &asset, 999).unwrap();
    wallet.env.timestamp = 2 * 86_400;
    spend(&mut wallet, user, &asset, 1_000).unwrap();
}

#[test]
fn test_native_code_with_issuer_is_contradictory_and_rejected() {
    let (mut wallet, _admin) = setup();
    let user = wallet.generate();
    let issuer = wallet.generate();
    let bogus = asset("XLM", Some(issuer));
    assert_eq!(add(&mut wallet, user, &bogus), Err(WalletError::InvalidAssetInfo));
}

#[test]
fn test_non_native_code_without_issuer_is_underspecified_and_rejected() {
    let (mut wallet, _admin) = setup();
    let user = wallet.generate();
    let ambiguous = asset("USDC", None);
    assert_eq!(add(&mut wallet, user, &ambiguous), Err(WalletError::InvalidAssetInfo));
}

#[test]
fn test_user_assets_ttl_extension_after_long_idle_period() {
    let (mut wallet, _admin) = setup();
    let user = wallet.generate();
    let dollar = usdc(&mut wallet);
    add(&mut wallet, user, &xlm()).unwrap();
    add(&mut wallet, user, &dollar).unwrap();

    assert!(survives(&wallet.env, DataKey::UserAssets(user), 50_000));
    wallet.env.sequence += 50_000;
    let assets = GlobeWallet::get_assets(&wallet.env, user);
    assert_eq!(assets.len(), 2);
    assert_eq!(assets[0].code, b"XLM".to_vec());
}

#[test]
fn test_spend_limit_ttl_extension_after_long_idle_period() {
    let (mut wallet, user, asset) = setup_with_limit(1_000_000);
    assert!(survives(&wallet.env, DataKey::SpendLimit(user, asset.clone()), 50_000));
    wallet.env.sequence += 50_000;
    assert_eq!(limit_of(&wallet, user, &asset), 1_000_000);
}

#[test]
fn test_same_code_different_issuer_independent_spend_limits() {
    let (mut wallet, _admin) = setup();
    let user = wallet.generate();
    let asset_a = usdc(&mut wallet);
    let asset_b = usdc(&mut wallet);
    add(&mut wallet, user, &asset_a).unwrap();
    add(&mut wallet, user, &asset_b).unwrap();

    limit(&mut wallet, user, &asset_a, 500).unwrap();
    limit(&mut wallet, user, &asset_b, 1_000).unwrap();
    assert_eq!(limit_of(&wallet, user, &asset_a), 500);
    assert_eq!(limit_of(&wallet, user, &asset_b), 1_000);

    spend(&mut wallet, user, &asset_a, 400).unwrap();
    spend(&mut wallet, user, &asset_b, 800).unwrap();
    assert_eq!(
        spend(&mut wallet, user, &asset_a, 200),
        Err(WalletError::SpendLimitExceeded)
    );
    spend(&mut wallet, user, &asset_b, 200).unwrap();
    assert_eq!(
        spend(&mut wallet, user, &asset_b, 1),
        Err(WalletError::SpendLimitExceeded)
    );
}

#[test]
fn test_spend_limit_and_record_spend_reject_unregistered_asset() {
    let (mut wallet, _admin) = setup();
    let user = wallet.generate();
    let issuer = wallet.generate();
    let unregistered = asset("EURC", Some(issuer));
    assert_eq!(
        limit(&mut wallet, user, &unregistered, 1_000),
        Err(WalletError::AssetNotFound)
    );
    assert_eq!(
        spend(&mut wallet, user, &unregistered, 100),
        Err(WalletError::AssetNotFound)
    );
    assert_eq!(limit_of(&wallet, user, &unregistered), 0);
}

#[test]
fn test_case_variant_asset_shares_same_spend_limit_bucket() {
    let (mut wallet, _admin) = setup();
    let user = wallet.generate();
    let upper = usdc(&mut wallet);
    let lower = asset("usdc", upper.issuer);
    add(&mut wallet, user, &upper).unwrap();

    limit(&mut wallet, user, &lower, 1_000).unwrap();
    assert_eq!(limit_of(&wallet, user, &upper), 1_000);
    assert_eq!(limit_of(&wallet, user, &lower), 1_000);

    spend(&mut wallet, user, &upper, 600).unwrap();
    spend(&mut wallet, user, &lower, 400).unwrap();
    assert_eq!(
        spend(&mut wallet, user, &upper, 1),
        Err(WalletError::SpendLimitExceeded)
    );
    assert_eq!(
        spend(&mut wallet, user, &lower, 1),
        Err(WalletError::SpendLimitExceeded)
    );
}

#[test]
fn test_migrate_spend_limits_and_legacy_fallback() {
    let (mut wallet, _admin) = setup();
    let user = wallet.generate();
    let native = xlm();
    let dollar = usdc(&mut wallet);
    add(&mut wallet, user, &native).unwrap();
    add(&mut wallet, user, &dollar).unwrap();

    wallet.env.legacy_spend_limits.set((user, b"XLM".to_vec()), 500);
    wallet
        .env
        .legacy_daily_spent
        .set((user, b"XLM".to_vec()), SpendRecord { amount: 200, day: 0 });
    wallet.env.legacy_spend_limits.set((user, b"USDC".to_vec()), 2_000);

    assert_eq!(limit_of(&wallet, user, &native), 500);
    assert_eq!(limit_of(&wallet, user, &dollar), 2_000);

    let migrated = GlobeWallet::migrate_spend_limits(wallet.by(&[user]), user).unwrap();
    assert_eq!(migrated, 2);

    assert!(wallet.env.spend_limits.has(&(user, native.clone())));
    assert!(wallet.env.spend_limits.has(&(user, dollar.clone())));
    assert!(!wallet.env.legacy_spend_limits.has(&(user, b"XLM".to_vec())));
    assert!(!wallet.env.legacy_daily_spent.has(&(user, b"XLM".to_vec())));
    assert!(!wallet.env.legacy_spend_limits.has(&(user, b"USDC".to_vec())));

    spend(&mut wallet, user, &native, 300).unwrap();
    assert_eq!(
        spend(&mut wallet, user, &native, 1),
        Err(WalletError::SpendLimitExceeded)
    );
}

/// A contract of the host through which calls reach the wallet, as calls of one
/// user.
struct HostedWallet {
    wallet: Rc<RefCell<Wallet>>,
    user: Address,
    asset: AssetInfo,
}

impl ContractFunctionSet for HostedWallet {
    fn call(&self, func: &str, env: soroban_sdk::Env, args: &[Val]) -> Option<Val> {
        match func {
            "__constructor" => None,
            "record_spend" => {
                let amount: i128 = args[0].into_val(&env);
                spend(&mut self.wallet.borrow_mut(), self.user, &self.asset, amount).unwrap();
                Some(().into_val(&env))
            }
            _ => None,
        }
    }
}

/// A contract of the host that makes two calls on another in one invocation.
struct SameInvocationBatcher;

impl ContractFunctionSet for SameInvocationBatcher {
    fn call(&self, func: &str, env: soroban_sdk::Env, args: &[Val]) -> Option<Val> {
        match func {
            "__constructor" => None,
            "record_twice" => {
                let wallet: soroban_sdk::Address = args[0].into_val(&env);
                let name = Symbol::new(&env, "record_spend");
                for amount in &args[1..] {
                    let mut forwarded: soroban_sdk::Vec<Val> = soroban_sdk::Vec::new(&env);
                    forwarded.push_back(*amount);
                    env.invoke_contract::<()>(&wallet, &name, forwarded);
                }
                Some(().into_val(&env))
            }
            _ => None,
        }
    }
}

#[test]
fn two_spends_in_one_host_invocation_accumulate() {
    let (wallet, user, asset) = setup_with_limit(1_000);
    let host = wallet.env.host.clone();
    let wallet = Rc::new(RefCell::new(wallet));
    let hosted = HostedWallet { wallet: wallet.clone(), user, asset: asset.clone() };
    let wallet_id = host.register(hosted, ());
    let batcher_id = host.register(SameInvocationBatcher, ());

    // Both calls share one root host invocation. The second must see what the
    // first has recorded.
    let mut args: soroban_sdk::Vec<Val> = soroban_sdk::Vec::new(&host);
    args.push_back(wallet_id.into_val(&host));
    args.push_back(600_i128.into_val(&host));
    args.push_back(400_i128.into_val(&host));
    host.invoke_contract::<()>(&batcher_id, &Symbol::new(&host, "record_twice"), args);

    assert_eq!(
        wallet.borrow().env.daily_spent.get(&(user, asset.clone())),
        Some(&SpendRecord { amount: 1_000, day: 0 })
    );
    assert_eq!(
        spend(&mut wallet.borrow_mut(), user, &asset, 1),
        Err(WalletError::SpendLimitExceeded)
    );
}

#[test]
fn a_counted_spend_is_recorded_and_published() {
    let (mut wallet, user, asset) = setup_with_limit(1_000);
    wallet.env.timestamp = 3 * 86_400 + 17;
    spend(&mut wallet, user, &asset, 250).unwrap();
    spend(&mut wallet, user, &asset, 100).unwrap();
    assert_eq!(
        wallet.env.daily_spent.get(&(user, asset.clone())),
        Some(&SpendRecord { amount: 350, day: 3 })
    );
    assert_eq!(
        wallet.env.events.last(),
        Some(&Event::SpendRecorded {
            user,
            code: b"XLM".to_vec(),
            amount: 100,
            spent_today: 350,
            limit: 1_000
        })
    );
    let request = wallet.env.ttl_extensions.last().unwrap();
    assert_eq!(
        request.entry,
        LedgerEntry::Persistent(DataKey::DailySpent(user, asset))
    );
    assert_eq!(request.threshold, 17_280);
    assert_eq!(request.extend_to, 34_560);
}

#[test]
fn a_spend_without_a_limit_is_not_counted() {
    let (mut wallet, _admin) = setup();
    let user = wallet.generate();
    add(&mut wallet, user, &xlm()).unwrap();
    let events = wallet.env.events.len();
    spend(&mut wallet, user, &xlm(), 5).unwrap();
    assert!(!wallet.env.daily_spent.has(&(user, xlm())));
    assert_eq!(wallet.env.events.len(), events);
    // A limit set afterwards starts from nothing spent.
    limit(&mut wallet, user, &xlm(), 5).unwrap();
    spend(&mut wallet, user, &xlm(), 5).unwrap();
}

#[test]
fn a_negative_limit_is_refused() {
    let (mut wallet, user, asset) = setup_with_limit(10);
    assert_eq!(
        limit(&mut wallet, user, &asset, -1),
        Err(WalletError::InvalidSpendLimit)
    );
    assert_eq!(limit_of(&wallet, user, &asset), 10);
}

#[test]
fn users_do_not_share_limits() {
    let (mut wallet, user, asset) = setup_with_limit(100);
    let other = wallet.generate();
    add(&mut wallet, other, &asset).unwrap();
    spend(&mut wallet, user, &asset, 100).unwrap();
    assert_eq!(limit_of(&wallet, other, &asset), 0);
    limit(&mut wallet, other, &asset, 40).unwrap();
    spend(&mut wallet, other, &asset, 40).unwrap();
    assert_eq!(
        spend(&mut wallet, other, &asset, 1),
        Err(WalletError::SpendLimitExceeded)
    );
}

#[test]
fn removal_goes_by_the_exact_code() {
    let (mut wallet, _admin) = setup();
    let user = wallet.generate();
    let dollar = usdc(&mut wallet);
    let other_dollar = usdc(&mut wallet);
    add(&mut wallet, user, &dollar).unwrap();
    add(&mut wallet, user, &xlm()).unwrap();
    add(&mut wallet, user, &other_dollar).unwrap();
    assert_eq!(
        GlobeWallet::remove_asset(wallet.by(&[user]), user, b"usdc".to_vec()),
        Err(WalletError::AssetNotFound)
    );
    GlobeWallet::remove_asset(wallet.by(&[user]), user, b"USDC".to_vec()).unwrap();
    assert_eq!(GlobeWallet::get_assets(&wallet.env, user), vec![xlm()]);
    assert_eq!(
        wallet.env.events.last(),
        Some(&Event::AssetRemoved { user, code: b"USDC".to_vec() })
    );
}

#[test]
fn codes_are_compared_without_regard_to_ascii_casing() {
    let same = |a: &str, b: &str| {
        globe_wallet::asset::codes_match_case_insensitive(
            &a.as_bytes().to_vec(),
            &b.as_bytes().to_vec(),
        )
    };
    assert!(same("usdC", "USDc"));
    assert!(same("", ""));
    assert!(same("a1z", "A1Z"));
    assert!(!same("USD", "USDC"));
    assert!(!same("[", "{"));
    assert!(!same("@", "`"));
    assert!(same("twelvechars1", "TWELVECHARS1"));
    // Codes too long to be registered are compared as they stand.
    assert!(!same("thirteenchars", "THIRTEENCHARS"));
    assert!(same("thirteenchars", "thirteenchars"));
}

#[test]
fn lower_case_native_code_needs_an_issuer() {
    let (mut wallet, _admin) = setup();
    let user = wallet.generate();
    assert_eq!(
        add(&mut wallet, user, &asset("xlm", None)),
        Err(WalletError::InvalidAssetInfo)
    );
    let issuer = wallet.generate();
    add(&mut wallet, user, &asset("xlm", Some(issuer))).unwrap();
    add(&mut wallet, user, &xlm()).unwrap();
    assert_eq!(GlobeWallet::get_assets(&wallet.env, user).len(), 2);
}

#[test]
fn migration_gives_a_shared_code_to_the_first_asset() {
    let (mut wallet, _admin) = setup();
    let user = wallet.generate();
    let first = usdc(&mut wallet);
    let second = usdc(&mut wallet);
    add(&mut wallet, user, &first).unwrap();
    add(&mut wallet, user, &second).unwrap();
    wallet.env.timestamp = 86_400;
    wallet.env.legacy_spend_limits.set((user, b"USDC".to_vec()), 70);
    wallet
        .env
        .legacy_daily_spent
        .set((user, b"USDC".to_vec()), SpendRecord { amount: 20, day: 1 });
    wallet.env.legacy_spend_limits.set((user, b"GONE".to_vec()), 9);

    assert_eq!(limit_of(&wallet, user, &first), 70);
    assert_eq!(limit_of(&wallet, user, &second), 70);
    let extended = wallet.env.ttl_extensions.len();
    assert_eq!(GlobeWallet::migrate_spend_limits(wallet.by(&[user]), user), Ok(1));
    assert_eq!(limit_of(&wallet, user, &first), 70);
    assert_eq!(limit_of(&wallet, user, &second), 0);
    assert_eq!(
        wallet.env.daily_spent.get(&(user, first.clone())),
        Some(&SpendRecord { amount: 20, day: 1 })
    );
    assert!(!wallet.env.daily_spent.has(&(user, second)));
    assert_eq!(
        wallet.env.legacy_spend_limits.get(&(user, b"GONE".to_vec())),
        Some(&9)
    );
    assert_eq!(wallet.env.ttl_extensions.len(), extended + 3);
    assert_eq!(
        wallet.env.events.last(),
        Some(&Event::SpendLimitsMigrated { user, count: 1 })
    );
    assert_eq!(GlobeWallet::migrate_spend_limits(wallet.by(&[user]), user), Ok(0));
    assert_eq!(limit_of(&wallet, user, &first), 70);
}

#[test]
fn migration_keeps_what_an_asset_has_of_its_own() {
    let (mut wallet, user, asset) = setup_with_limit(100);
    spend(&mut wallet, user, &asset, 60).unwrap();
    wallet.env.legacy_spend_limits.set((user, b"XLM".to_vec()), 5);
    wallet
        .env
        .legacy_daily_spent
        .set((user, b"XLM".to_vec()), SpendRecord { amount: 1, day: 0 });
    assert_eq!(GlobeWallet::migrate_spend_limits(wallet.by(&[user]), user), Ok(1));
    assert_eq!(limit_of(&wallet, user, &asset), 100);
    assert_eq!(
        wallet.env.daily_spent.get(&(user, asset.clone())),
        Some(&SpendRecord { amount: 60, day: 0 })
    );
    assert!(!wallet.env.legacy_spend_limits.has(&(user, b"XLM".to_vec())));
    assert!(!wallet.env.legacy_daily_spent.has(&(user, b"XLM".to_vec())));
}

#[test]
fn migration_drops_spends_of_earlier_days() {
    let (mut wallet, _admin) = setup();
    let user = wallet.generate();
    add(&mut wallet, user, &xlm()).unwrap();
    wallet
        .env
        .legacy_daily_spent
        .set((user, b"XLM".to_vec()), SpendRecord { amount: 1, day: 0 });
    wallet.env.timestamp = 86_400;
    assert_eq!(GlobeWallet::migrate_spend_limits(wallet.by(&[user]), user), Ok(0));
    assert!(!wallet.env.daily_spent.has(&(user, xlm())));
    assert!(!wallet.env.legacy_daily_spent.has(&(user, b"XLM".to_vec())));
}

#[test]
fn removing_an_added_asset_restores_the_list() {
    let (mut wallet, _admin) = setup();
    let user = wallet.generate();
    let dollar = usdc(&mut wallet);
    add(&mut wallet, user, &dollar).unwrap();
    let before = GlobeWallet::get_assets(&wallet.env, user);
    add(&mut wallet, user, &xlm()).unwrap();
    GlobeWallet::remove_asset(wallet.by(&[user]), user, b"XLM".to_vec()).unwrap();
    assert_eq!(GlobeWallet::get_assets(&wallet.env, user), before);
}

#[test]
fn a_list_is_cut_once() {
    let (mut wallet, admin) = setup();
    let user = wallet.generate();
    let mut items = Vec::new();
    for i in 0..52 {
        let issuer = wallet.generate();
        items.push(asset(&format!("B{}", i), Some(issuer)));
    }
    wallet
        .env
        .user_assets
        .set(user, globe_wallet::asset::AssetList { items: items.clone() });
    assert_eq!(
        GlobeWallet::migrate_user_assets(wallet.by(&[admin, user]), admin, user),
        Ok(2)
    );
    assert_eq!(GlobeWallet::get_assets(&wallet.env, user), items[..50].to_vec());
    assert_eq!(
        wallet.env.events.last(),
        Some(&Event::UserAssetsMigrated { user, removed: 2 })
    );
    let events = wallet.env.events.len();
    let extensions = wallet.env.ttl_extensions.len();
    assert_eq!(
        GlobeWallet::migrate_user_assets(wallet.by(&[admin, user]), admin, user),
        Ok(0)
    );
    assert_eq!(wallet.env.events.len(), events);
    assert_eq!(wallet.env.ttl_extensions.len(), extensions);
}

#[test]
fn dropping_an_asset_drops_what_is_kept_by_its_code() {
    let (mut wallet, admin) = setup();
    let user = wallet.generate();
    let mut items = Vec::new();
    for i in 0..51 {
        let issuer = wallet.generate();
        items.push(asset(&format!("C{}", i), Some(issuer)));
    }
    for code in [b"C50".to_vec(), b"C49".to_vec()] {
        wallet.env.legacy_spend_limits.set((user, code.clone()), 5);
        wallet
            .env
            .legacy_daily_spent
            .set((user, code), SpendRecord { amount: 1, day: 0 });
    }
    wallet
        .env
        .user_assets
        .set(user, globe_wallet::asset::AssetList { items });
    assert_eq!(
        GlobeWallet::migrate_user_assets(wallet.by(&[admin, user]), admin, user),
        Ok(1)
    );
    assert!(!wallet.env.legacy_spend_limits.has(&(user, b"C50".to_vec())));
    assert!(!wallet.env.legacy_daily_spent.has(&(user, b"C50".to_vec())));
    assert!(wallet.env.legacy_spend_limits.has(&(user, b"C49".to_vec())));
    assert!(wallet.env.legacy_daily_spent.has(&(user, b"C49".to_vec())));
}

#[test]
fn one_users_calls_leave_the_rest_of_the_wallet_alone() {
    let (mut wallet, user, asset) = setup_with_limit(10);
    let guardian = wallet.generate();
    let admin = GlobeWallet::admin(&wallet.env);
    GlobeWallet::add_guardian(wallet.by(&[admin]), admin, guardian).unwrap();
    let assets = GlobeWallet::get_assets(&wallet.env, user);
    spend(&mut wallet, user, &asset, 10).unwrap();
    assert_eq!(GlobeWallet::get_assets(&wallet.env, user), assets);
    assert_eq!(GlobeWallet::guardians(&wallet.env).len(), 1);
    assert_eq!(GlobeWallet::admin(&wallet.env), admin);
    assert_eq!(limit_of(&wallet, user, &asset), 10);
}

#[test]
fn a_day_that_began_by_code_alone_stays_within_its_limit() {
    let (mut wallet, admin) = setup();
    let user = wallet.generate();
    let hoarder = wallet.generate();
    let dollar = usdc(&mut wallet);
    let variant = asset("usdc", dollar.issuer);
    add(&mut wallet, user, &dollar).unwrap();
    let mut items = Vec::new();
    for i in 0..52 {
        items.push(asset(&format!("B{}", i), Some(admin)));
    }
    wallet.env.user_assets.set(hoarder, globe_wallet::asset::AssetList { items });
    wallet.env.legacy_spend_limits.set((user, b"USDC".to_vec()), 500);
    wallet
        .env
        .legacy_daily_spent
        .set((user, b"USDC".to_vec()), SpendRecord { amount: 100, day: 0 });

    spend(&mut wallet, user, &variant, 150).unwrap();
    assert_eq!(
        spend(&mut wallet, user, &dollar, 251),
        Err(WalletError::SpendLimitExceeded)
    );
    add(&mut wallet, user, &xlm()).unwrap();
    GlobeWallet::migrate_user_assets(wallet.by(&[admin, hoarder]), admin, hoarder).unwrap();
    GlobeWallet::migrate_spend_limits(wallet.by(&[user]), user).unwrap();
    spend(&mut wallet, user, &dollar, 250).unwrap();
    assert_eq!(
        wallet.env.daily_spent.get(&(user, dollar.clone())),
        Some(&SpendRecord { amount: 500, day: 0 })
    );
    assert_eq!(limit_of(&wallet, user, &variant), 500);
    assert_eq!(spend(&mut wallet, user, &dollar, 1), Err(WalletError::SpendLimitExceeded));
}

#[test]
fn a_limit_is_read_in_whatever_casing() {
    let (mut wallet, _admin) = setup();
    let user = wallet.generate();
    let dollar = usdc(&mut wallet);
    let variant = asset("uSdC", dollar.issuer);
    add(&mut wallet, user, &dollar).unwrap();
    limit(&mut wallet, user, &variant, 70).unwrap();
    assert_eq!(limit_of(&wallet, user, &dollar), 70);
    assert_eq!(limit_of(&wallet, user, &variant), 70);
}

#[test]
fn limits_and_counts_outlive_the_removal_of_an_asset() {
    let (mut wallet, user, xlm) = setup_with_limit(1_000);
    let dollar = usdc(&mut wallet);
    add(&mut wallet, user, &dollar).unwrap();
    spend(&mut wallet, user, &xlm, 600).unwrap();
    GlobeWallet::remove_asset(wallet.by(&[user]), user, b"XLM".to_vec()).unwrap();
    assert_eq!(limit_of(&wallet, user, &xlm), 0);
    assert_eq!(spend(&mut wallet, user, &xlm, 1), Err(WalletError::AssetNotFound));

    add(&mut wallet, user, &xlm).unwrap();
    assert_eq!(limit_of(&wallet, user, &xlm), 1_000);
    assert_eq!(
        spend(&mut wallet, user, &xlm, 401),
        Err(WalletError::SpendLimitExceeded)
    );
    spend(&mut wallet, user, &xlm, 400).unwrap();
}
