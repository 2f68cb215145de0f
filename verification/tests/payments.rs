use globe_wallet::address::{Address, AddressKind};
use globe_wallet::asset::AssetInfo;
use globe_wallet::wallet::env::WalletEnv;
use globe_wallet::wallet::error::WalletError;
use globe_wallet::wallet::payments::{TransferOutcome, TransferRequest};
use globe_wallet::wallet::types::{DataKey, Event, LedgerEntry, SpendRecord};
use globe_wallet::wallet::GlobeWallet;
use globe_wallet::wrapper::env::WrapperEnv;
use globe_wallet::wrapper::types::{TokenTransfer, WrapperError};
use globe_wallet::wrapper::TokenWrapper;
use soroban_sdk::address_payload::AddressPayload;
use soroban_sdk::testutils::{ContractFunctionSet, EnvTestConfig};
use soroban_sdk::token::{StellarAssetClient, TokenClient};
use soroban_sdk::{IntoVal, Symbol, Val};

fn new_host() -> soroban_sdk::Env {
    let config = EnvTestConfig { capture_snapshot_at_drop: false };
    let host = soroban_sdk::Env::new_with_config(config);
    host.mock_all_auths_allowing_non_root_auth();
    host
}

/// An address of the host, as the library holds it.
fn plain(address: &soroban_sdk::Address) -> Address {
    let (kind, id) = match address.to_payload().unwrap() {
        AddressPayload::AccountIdPublicKeyEd25519(id) => (AddressKind::Account, id),
        AddressPayload::ContractIdHash(id) => (AddressKind::Contract, id),
    };
    let raw = id.to_array();
    let mut hi = [0u8; 16];
    let mut lo = [0u8; 16];
    hi.copy_from_slice(&raw[..16]);
    lo.copy_from_slice(&raw[16..]);
    Address { kind, hi: u128::from_be_bytes(hi), lo: u128::from_be_bytes(lo) }
}

/// An address of the library, as the host holds it.
fn hosted(host: &soroban_sdk::Env, address: Address) -> soroban_sdk::Address {
    let mut raw = [0u8; 32];
    raw[..16].copy_from_slice(&address.hi.to_be_bytes());
    raw[16..].copy_from_slice(&address.lo.to_be_bytes());
    let id = soroban_sdk::BytesN::from_array(host, &raw);
    let payload = match address.kind {
        AddressKind::Account => AddressPayload::AccountIdPublicKeyEd25519(id),
        AddressKind::Contract => AddressPayload::ContractIdHash(id),
    };
    soroban_sdk::Address::from_payload(host, payload)
}

fn generate(host: &soroban_sdk::Env) -> Address {
    plain(&<soroban_sdk::Address as soroban_sdk::testutils::Address>::generate(host))
}

/// A token contract of the host.
fn create_token(host: &soroban_sdk::Env) -> Address {
    let admin = hosted(host, generate(host));
    plain(&host.register_stellar_asset_contract_v2(admin).address())
}

fn mint(host: &soroban_sdk::Env, token_id: Address, to: Address, amount: i128) {
    StellarAssetClient::new(host, &hosted(host, token_id)).mint(&hosted(host, to), &amount);
}

fn balance(host: &soroban_sdk::Env, token_id: Address, of: Address) -> i128 {
    TokenClient::new(host, &hosted(host, token_id)).balance(&hosted(host, of))
}

/// Has the token contract make a transfer. Says whether it did.
fn move_tokens(host: &soroban_sdk::Env, transfer: TokenTransfer) -> bool {
    let token = TokenClient::new(host, &hosted(host, transfer.token_id));
    let moved = token.try_transfer(
        &hosted(host, transfer.from),
        &hosted(host, transfer.to),
        &transfer.amount,
    );
    matches!(moved, Ok(Ok(())))
}

/// A wallet, a token wrapper, and the host with the tokens.
struct Payments {
    host: soroban_sdk::Env,
    wallet: WalletEnv,
    wrapper: WrapperEnv,
    wallet_id: Address,
    admin: Address,
}

/// A wallet with an admin and no token wrapper set.
fn setup() -> Payments {
    let host = new_host();
    let wallet_id = generate(&host);
    let admin = generate(&host);
    let mut wallet = WalletEnv::new(host.clone(), wallet_id);
    GlobeWallet::initialize(&mut wallet, admin).unwrap();
    Payments { host, wallet, wrapper: WrapperEnv::new(), wallet_id, admin }
}

/// A wallet with an admin and a token wrapper.
fn setup_wiring() -> Payments {
    let mut p = setup();
    let (admin, wrapper_id) = (p.admin, p.generate());
    GlobeWallet::set_token_wrapper(p.by(&[admin]), admin, wrapper_id).unwrap();
    p
}

impl Payments {
    fn generate(&self) -> Address {
        generate(&self.host)
    }

    fn by(&mut self, signers: &[Address]) -> &mut WalletEnv {
        self.wallet.signers = signers.to_vec();
        &mut self.wallet
    }

    fn at(&mut self, sequence: u32) {
        self.wallet.sequence = sequence;
        self.wrapper.sequence = sequence;
    }

    fn allow(&mut self, token_id: Address) {
        let admin = self.admin;
        GlobeWallet::add_allowed_token(self.by(&[admin]), admin, token_id).unwrap();
    }

    fn add_asset(&mut self, user: Address, asset: &AssetInfo) {
        GlobeWallet::add_asset(self.by(&[user]), user, asset.clone()).unwrap();
    }

    fn limit(&mut self, user: Address, asset: &AssetInfo, limit: i128) {
        GlobeWallet::set_spend_limit(self.by(&[user]), user, asset.clone(), limit).unwrap();
    }

    fn approve(&mut self, owner: Address, token_id: Address, amount: i128, expiry: u32) {
        self.wrapper.signers = vec![owner];
        TokenWrapper::approve(
            &mut self.wrapper,
            owner,
            self.wallet_id,
            token_id,
            amount,
            expiry,
        )
        .unwrap();
    }

    fn allowance(&self, owner: Address, token_id: Address) -> i128 {
        TokenWrapper::allowance(&self.wrapper, owner, self.wallet_id, token_id).amount
    }

    /// The call of a payment, carried out by the token wrapper.
    fn call_wrapper(&mut self, call: TransferRequest) -> TransferOutcome {
        self.wrapper.signers = vec![call.spender];
        let pending = match TokenWrapper::transfer_from(
            &mut self.wrapper,
            call.spender,
            call.token_id,
            call.from,
            call.to,
            call.amount,
        ) {
            Ok(pending) => pending,
            Err(e) => return TransferOutcome::Rejected(e),
        };
        if move_tokens(&self.host, pending.request()) {
            TokenWrapper::complete_transfer(&mut self.wrapper, pending);
            TransferOutcome::Completed
        } else {
            TokenWrapper::abort_transfer(&mut self.wrapper, pending);
            TransferOutcome::Failed
        }
    }

    /// A whole payment.
    fn send(
        &mut self,
        user: Address,
        token_id: Address,
        asset: &AssetInfo,
        to: Address,
        amount: i128,
    ) -> Result<(), WalletError> {
        let pending =
            GlobeWallet::send(self.by(&[user]), user, token_id, asset.clone(), to, amount)?;
        let outcome = self.call_wrapper(pending.request());
        GlobeWallet::settle_send(&mut self.wallet, pending, outcome)
    }
}

fn xlm() -> AssetInfo {
    AssetInfo { code: b"XLM".to_vec(), issuer: None }
}

#[test]
fn test_send_happy_path_moves_tokens_and_records_spend() {
    let mut p = setup_wiring();
    let (user, to, asset) = (p.generate(), p.generate(), xlm());
    p.add_asset(user, &asset);
    let token_id = create_token(&p.host);
    mint(&p.host, token_id, user, 1_000);

    p.allow(token_id);
    p.limit(user, &asset, 500);

    p.at(100);
    p.approve(user, token_id, 500, 10_000);

    p.send(user, token_id, &asset, to, 200).unwrap();

    assert_eq!(balance(&p.host, token_id, user), 800);
    assert_eq!(balance(&p.host, token_id, to), 200);
    assert_eq!(p.allowance(user, token_id), 300);
    assert_eq!(
        p.wallet.daily_spent.get(&(user, asset)),
        Some(&SpendRecord { amount: 200, day: 0 })
    );
}

#[test]
fn test_send_rejects_disallowed_token() {
    let mut p = setup_wiring();
    let (user, to, asset) = (p.generate(), p.generate(), xlm());
    p.add_asset(user, &asset);
    let token_id = create_token(&p.host);
    assert_eq!(
        p.send(user, token_id, &asset, to, 100),
        Err(WalletError::TokenNotAllowed)
    );
}

#[test]
fn test_send_rejects_when_token_wrapper_not_set() {
    let mut p = setup();
    let (user, to, asset) = (p.generate(), p.generate(), xlm());
    p.add_asset(user, &asset);
    let token_id = create_token(&p.host);
    p.allow(token_id);
    assert_eq!(
        p.send(user, token_id, &asset, to, 100),
        Err(WalletError::TokenWrapperNotSet)
    );
}

#[test]
fn test_send_over_daily_limit_fails_and_moves_no_tokens() {
    let mut p = setup_wiring();
    let (user, to, asset) = (p.generate(), p.generate(), xlm());
    p.add_asset(user, &asset);
    let token_id = create_token(&p.host);
    mint(&p.host, token_id, user, 1_000);

    p.allow(token_id);
    p.limit(user, &asset, 100);

    p.at(100);
    p.approve(user, token_id, 500, 10_000);

    assert_eq!(
        p.send(user, token_id, &asset, to, 200),
        Err(WalletError::SpendLimitExceeded)
    );
    assert_eq!(
        balance(&p.host, token_id, user),
        1_000,
        "no tokens should move on a rejected send"
    );
    assert_eq!(balance(&p.host, token_id, to), 0);
    assert_eq!(
        p.allowance(user, token_id),
        500,
        "allowance must be untouched — transfer_from was never reached"
    );
}

#[test]
fn test_add_allowed_token_requires_admin() {
    let mut p = setup_wiring();
    let non_admin = p.generate();
    let token_id = create_token(&p.host);
    assert_eq!(
        GlobeWallet::add_allowed_token(p.by(&[non_admin]), non_admin, token_id),
        Err(WalletError::Unauthorized)
    );
    assert!(!GlobeWallet::is_token_allowed(&p.wallet, token_id));
}

#[test]
fn test_remove_allowed_token() {
    let mut p = setup_wiring();
    let admin = p.admin;
    let token_id = create_token(&p.host);
    p.allow(token_id);
    assert!(GlobeWallet::is_token_allowed(&p.wallet, token_id));
    GlobeWallet::remove_allowed_token(p.by(&[admin]), admin, token_id).unwrap();
    assert!(!GlobeWallet::is_token_allowed(&p.wallet, token_id));
}

#[test]
fn test_set_token_wrapper_requires_admin() {
    let mut p = setup();
    let non_admin = p.generate();
    let wrapper_id = p.generate();
    assert_eq!(
        GlobeWallet::set_token_wrapper(p.by(&[non_admin]), non_admin, wrapper_id),
        Err(WalletError::Unauthorized)
    );
    assert_eq!(GlobeWallet::get_token_wrapper(&p.wallet), None);
}

/// A contract of the host that stands where the wallet stands on the call
/// stack: `send` calls the token, `record_spend` is open to callers.
struct WalletFrame;

impl ContractFunctionSet for WalletFrame {
    fn call(&self, func: &str, env: soroban_sdk::Env, args: &[Val]) -> Option<Val> {
        match func {
            "__constructor" => None,
            "send" => {
                let token: soroban_sdk::Address = args[0].into_val(&env);
                let mut forwarded: soroban_sdk::Vec<Val> = soroban_sdk::Vec::new(&env);
                forwarded.push_back(env.current_contract_address().into_val(&env));
                let name = Symbol::new(&env, "transfer");
                env.invoke_contract::<()>(&token, &name, forwarded);
                Some(().into_val(&env))
            }
            "record_spend" => Some(().into_val(&env)),
            _ => None,
        }
    }
}

/// A token whose `transfer` moves nothing and calls back into the wallet.
struct MaliciousToken;

impl ContractFunctionSet for MaliciousToken {
    fn call(&self, func: &str, env: soroban_sdk::Env, args: &[Val]) -> Option<Val> {
        match func {
            "__constructor" => None,
            "transfer" => {
                let wallet: soroban_sdk::Address = args[0].into_val(&env);
                let name = Symbol::new(&env, "record_spend");
                env.invoke_contract::<()>(&wallet, &name, soroban_sdk::Vec::new(&env));
                Some(().into_val(&env))
            }
            _ => None,
        }
    }
}

#[test]
fn test_send_rejects_reentrant_malicious_token() {
    let mut p = setup_wiring();
    let (user, to, asset) = (p.generate(), p.generate(), xlm());
    p.add_asset(user, &asset);

    let frame = p.host.register(WalletFrame, ());
    let evil = p.host.register(MaliciousToken, ());
    let evil_id = plain(&evil);
    p.allow(evil_id);
    p.limit(user, &asset, 1_000_000);
    p.at(100);
    p.approve(user, evil_id, 1_000, 10_000);

    let pending =
        GlobeWallet::send(p.by(&[user]), user, evil_id, asset.clone(), to, 100).unwrap();
    assert!(p.wallet.daily_spent.has(&(user, asset.clone())));
    let call = pending.request();
    p.wrapper.signers = vec![call.spender];
    let moving = TokenWrapper::transfer_from(
        &mut p.wrapper,
        call.spender,
        call.token_id,
        call.from,
        call.to,
        call.amount,
    )
    .unwrap();
    assert_eq!(moving.request().token_id, evil_id);
    assert_eq!(p.allowance(user, evil_id), 900);

    // The token calls back while the wallet's frame is open: the host refuses.
    let mut args: soroban_sdk::Vec<Val> = soroban_sdk::Vec::new(&p.host);
    args.push_back(evil.into_val(&p.host));
    let called = p.host.try_invoke_contract::<(), soroban_sdk::Error>(
        &frame,
        &Symbol::new(&p.host, "send"),
        args,
    );
    let outcome = match called {
        Ok(Ok(())) => {
            TokenWrapper::complete_transfer(&mut p.wrapper, moving);
            TransferOutcome::Completed
        }
        _ => {
            TokenWrapper::abort_transfer(&mut p.wrapper, moving);
            TransferOutcome::Failed
        }
    };
    let result = GlobeWallet::settle_send(&mut p.wallet, pending, outcome);
    assert_eq!(p.allowance(user, evil_id), 1_000);
    assert!(
        result.is_err(),
        "send() must fail when the token contract attempts to re-enter GlobeWallet, not silently succeed"
    );

    assert!(
        p.wallet.daily_spent.get(&(user, asset.clone())).is_none(),
        "no DailySpent entry should survive a fully-reverted transaction"
    );
    assert_eq!(
        GlobeWallet::get_spend_limit(&p.wallet, user, asset),
        1_000_000
    );
}

#[test]
fn the_host_lets_a_token_that_does_not_call_back_through() {
    let p = setup();
    let frame = p.host.register(WalletFrame, ());
    let other = p.host.register(WalletFrame, ());
    let evil = p.host.register(MaliciousToken, ());
    // Called with another contract as the one to call back into, the token's
    // callback is no re-entry.
    let mut args: soroban_sdk::Vec<Val> = soroban_sdk::Vec::new(&p.host);
    args.push_back(other.into_val(&p.host));
    let direct = p.host.try_invoke_contract::<(), soroban_sdk::Error>(
        &evil,
        &Symbol::new(&p.host, "transfer"),
        args.clone(),
    );
    assert!(matches!(direct, Ok(Ok(()))));
    let recorded = p.host.try_invoke_contract::<(), soroban_sdk::Error>(
        &frame,
        &Symbol::new(&p.host, "record_spend"),
        args,
    );
    assert!(matches!(recorded, Ok(Ok(()))));
}

#[test]
fn a_failed_transfer_leaves_nothing_of_a_payment() {
    let mut p = setup_wiring();
    let (user, to, asset) = (p.generate(), p.generate(), xlm());
    p.add_asset(user, &asset);
    let token_id = create_token(&p.host);
    mint(&p.host, token_id, user, 50);
    p.allow(token_id);
    p.limit(user, &asset, 500);
    p.at(100);
    p.approve(user, token_id, 500, 10_000);
    p.send(user, token_id, &asset, to, 10).unwrap();

    let events = p.wallet.events.clone();
    let extensions = p.wallet.ttl_extensions.clone();
    // The balance does not cover the payment.
    assert_eq!(
        p.send(user, token_id, &asset, to, 200),
        Err(WalletError::TokenTransferFailed)
    );
    assert_eq!(
        p.wallet.daily_spent.get(&(user, asset.clone())),
        Some(&SpendRecord { amount: 10, day: 0 })
    );
    assert_eq!(p.wallet.events, events);
    assert_eq!(p.wallet.ttl_extensions, extensions);
    assert_eq!(p.allowance(user, token_id), 490);
    assert_eq!(balance(&p.host, token_id, to), 10);
}

#[test]
fn a_payment_beyond_the_allowance_fails() {
    let mut p = setup_wiring();
    let (user, to, asset) = (p.generate(), p.generate(), xlm());
    p.add_asset(user, &asset);
    let token_id = create_token(&p.host);
    mint(&p.host, token_id, user, 1_000);
    p.allow(token_id);
    p.limit(user, &asset, 500);
    p.at(100);
    p.approve(user, token_id, 30, 150);
    let pending =
        GlobeWallet::send(p.by(&[user]), user, token_id, asset.clone(), to, 31).unwrap();
    let outcome = p.call_wrapper(pending.request());
    assert_eq!(outcome, TransferOutcome::Rejected(WrapperError::InsufficientAllowance));
    assert_eq!(
        GlobeWallet::settle_send(&mut p.wallet, pending, outcome),
        Err(WalletError::TokenTransferFailed)
    );
    assert!(!p.wallet.daily_spent.has(&(user, asset.clone())));

    p.send(user, token_id, &asset, to, 30).unwrap();
    p.approve(user, token_id, 30, 150);
    p.at(151);
    assert_eq!(
        p.send(user, token_id, &asset, to, 1),
        Err(WalletError::TokenTransferFailed)
    );
    assert_eq!(balance(&p.host, token_id, to), 30);
}

#[test]
fn a_payment_that_fails_puts_an_older_record_back() {
    let mut p = setup_wiring();
    let (user, to, asset) = (p.generate(), p.generate(), xlm());
    p.add_asset(user, &asset);
    let token_id = create_token(&p.host);
    p.allow(token_id);
    p.wallet.legacy_spend_limits.set((user, b"XLM".to_vec()), 100);
    p.wallet
        .legacy_daily_spent
        .set((user, b"XLM".to_vec()), SpendRecord { amount: 40, day: 0 });
    let pending =
        GlobeWallet::send(p.by(&[user]), user, token_id, asset.clone(), to, 60).unwrap();
    assert_eq!(
        p.wallet.daily_spent.get(&(user, asset.clone())),
        Some(&SpendRecord { amount: 100, day: 0 })
    );
    assert!(!p.wallet.legacy_daily_spent.has(&(user, b"XLM".to_vec())));

    let settled = GlobeWallet::settle_send(&mut p.wallet, pending, TransferOutcome::Failed);
    assert_eq!(settled, Err(WalletError::TokenTransferFailed));
    assert!(!p.wallet.daily_spent.has(&(user, asset)));
    assert_eq!(
        p.wallet.legacy_daily_spent.get(&(user, b"XLM".to_vec())),
        Some(&SpendRecord { amount: 40, day: 0 })
    );
}

#[test]
fn a_payment_asks_the_wrapper_for_exactly_its_amount() {
    let mut p = setup_wiring();
    let (user, to, asset) = (p.generate(), p.generate(), xlm());
    p.add_asset(user, &asset);
    let token_id = create_token(&p.host);
    p.allow(token_id);
    let pending =
        GlobeWallet::send(p.by(&[user]), user, token_id, asset, to, 77).unwrap();
    assert_eq!(
        pending.request(),
        TransferRequest {
            wrapper: GlobeWallet::get_token_wrapper(&p.wallet).unwrap(),
            spender: p.wallet_id,
            token_id,
            from: user,
            to,
            amount: 77,
        }
    );
}

#[test]
fn a_payment_is_refused_in_the_order_of_its_checks() {
    let mut p = setup();
    let (user, to, asset) = (p.generate(), p.generate(), xlm());
    let token_id = create_token(&p.host);
    // Not even a signature is asked for where the token is not allowed.
    let unsigned = GlobeWallet::send(p.by(&[]), user, token_id, asset.clone(), to, -1);
    assert_eq!(unsigned.err(), Some(WalletError::TokenNotAllowed));

    p.allow(token_id);
    assert_eq!(
        p.send(user, token_id, &asset, to, 0),
        Err(WalletError::InvalidSpendLimit)
    );
    assert_eq!(
        p.send(user, token_id, &asset, to, 5),
        Err(WalletError::AssetNotFound)
    );
    p.add_asset(user, &asset);
    p.limit(user, &asset, i128::MAX);
    p.wallet
        .daily_spent
        .set((user, asset.clone()), SpendRecord { amount: i128::MAX, day: 0 });
    assert_eq!(
        p.send(user, token_id, &asset, to, 5),
        Err(WalletError::SpendOverflow)
    );
    p.wallet.daily_spent.remove(&(user, asset.clone()));
    assert_eq!(
        p.send(user, token_id, &asset, to, 5),
        Err(WalletError::TokenWrapperNotSet)
    );
    assert!(!p.wallet.daily_spent.has(&(user, asset)));
}

#[test]
fn the_allowlist_and_the_wrapper_are_published() {
    let mut p = setup_wiring();
    let admin = p.admin;
    let wrapper_id = GlobeWallet::get_token_wrapper(&p.wallet).unwrap();
    assert_eq!(
        p.wallet.events.last(),
        Some(&Event::TokenWrapperSet { admin, token_wrapper_id: wrapper_id })
    );
    let token_id = create_token(&p.host);
    p.allow(token_id);
    assert_eq!(
        p.wallet.events.last(),
        Some(&Event::AllowedTokenAdded { admin, token_id })
    );
    assert!(p
        .wallet
        .ttl_extensions
        .iter()
        .any(|t| t.entry == LedgerEntry::Persistent(DataKey::AllowedToken(token_id))
            && t.threshold == 120_960
            && t.extend_to == 518_400));
    GlobeWallet::remove_allowed_token(p.by(&[admin]), admin, token_id).unwrap();
    assert_eq!(
        p.wallet.events.last(),
        Some(&Event::AllowedTokenRemoved { admin, token_id })
    );
}

#[test]
fn spends_and_payments_of_a_day_add_up_in_any_casing() {
    let mut p = setup_wiring();
    let (user, other, to) = (p.generate(), p.generate(), p.generate());
    let issuer = Some(p.generate());
    let asset = AssetInfo { code: b"USDC".to_vec(), issuer };
    let variant = AssetInfo { code: b"usdc".to_vec(), issuer };
    let token_id = create_token(&p.host);
    mint(&p.host, token_id, user, 1_000);
    p.allow(token_id);
    p.add_asset(user, &asset);
    p.add_asset(other, &asset);
    p.limit(user, &asset, 500);
    p.at(100);
    p.approve(user, token_id, 900, 10_000);

    GlobeWallet::record_spend(p.by(&[user]), user, asset.clone(), 150).unwrap();
    p.send(user, token_id, &variant, to, 200).unwrap();
    // Refused spends, refused payments and what others do count for nothing.
    assert_eq!(
        GlobeWallet::record_spend(p.by(&[user]), user, variant.clone(), 151),
        Err(WalletError::SpendLimitExceeded)
    );
    assert_eq!(
        p.send(user, token_id, &asset, to, 151),
        Err(WalletError::SpendLimitExceeded)
    );
    p.limit(other, &asset, 90);
    GlobeWallet::record_spend(p.by(&[other]), other, asset.clone(), 90).unwrap();
    p.add_asset(user, &xlm());
    GlobeWallet::remove_asset(p.by(&[user]), user, b"XLM".to_vec()).unwrap();
    GlobeWallet::migrate_spend_limits(p.by(&[user]), user).unwrap();
    // The limit moves during the day, and the one then in force binds.
    p.limit(user, &variant, 360);
    p.wallet.timestamp = 86_399;
    assert_eq!(
        GlobeWallet::record_spend(p.by(&[user]), user, asset.clone(), 11),
        Err(WalletError::SpendLimitExceeded)
    );
    GlobeWallet::record_spend(p.by(&[user]), user, variant.clone(), 10).unwrap();

    assert_eq!(
        p.wallet.daily_spent.get(&(user, asset.clone())),
        Some(&SpendRecord { amount: 360, day: 0 })
    );
    assert!(!p.wallet.daily_spent.has(&(user, variant)));
    assert_eq!(GlobeWallet::get_spend_limit(&p.wallet, user, asset), 360);
}
