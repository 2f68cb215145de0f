use globe_wallet::address::{Address, AddressKind};
use globe_wallet::host::{AddressIndex, AddressList};
use globe_wallet::wallet::env::WalletEnv;
use globe_wallet::wallet::error::WalletError;
use globe_wallet::wallet::types::{Event, RecoveryCompletedEvent};
use globe_wallet::wallet::GlobeWallet;

/// A wallet and a source of addresses.
struct Wallet {
    env: WalletEnv,
    generated: u128,
}

impl Wallet {
    /// A wallet without an admin.
    fn blank() -> Wallet {
        let config = soroban_sdk::testutils::EnvTestConfig { capture_snapshot_at_drop: false };
        let host = soroban_sdk::Env::new_with_config(config);
        let contract = Address { kind: AddressKind::Contract, hi: 0, lo: 0 };
        Wallet { env: WalletEnv::new(host, contract), generated: 0 }
    }

    fn generate(&mut self) -> Address {
        self.generated += 1;
        Address { kind: AddressKind::Account, hi: 0, lo: self.generated }
    }

    /// The environment of a call that these addresses have authorized.
    fn by(&mut self, signers: &[Address]) -> &mut WalletEnv {
        self.env.signers = signers.to_vec();
        &mut self.env
    }
}

/// An initialized wallet and its admin.
fn setup() -> (Wallet, Address) {
    let mut wallet = Wallet::blank();
    let admin = wallet.generate();
    GlobeWallet::initialize(wallet.by(&[]), admin).unwrap();
    (wallet, admin)
}

/// A wallet with an admin and guardians.
fn setup_with_guardians(n: u32) -> (Wallet, Address, Vec<Address>) {
    let (mut wallet, admin) = setup();
    let mut guardians = Vec::new();
    for _ in 0..n {
        let guardian = wallet.generate();
        add(&mut wallet, admin, guardian).unwrap();
        guardians.push(guardian);
    }
    (wallet, admin, guardians)
}

const DELAY: u32 = GlobeWallet::MIN_RECOVERY_DELAY_LEDGERS;

fn add(wallet: &mut Wallet, admin: Address, guardian: Address) -> Result<(), WalletError> {
    GlobeWallet::add_guardian(wallet.by(&[admin]), admin, guardian)
}

fn remove(wallet: &mut Wallet, admin: Address, guardian: Address) -> Result<(), WalletError> {
    GlobeWallet::remove_guardian(wallet.by(&[admin]), admin, guardian)
}

fn configure(
    wallet: &mut Wallet,
    admin: Address,
    threshold: u32,
    delay: u32,
) -> Result<(), WalletError> {
    GlobeWallet::set_recovery_config(wallet.by(&[admin]), admin, threshold, delay)
}

fn initiate(wallet: &mut Wallet, guardian: Address, to: Address) -> Result<(), WalletError> {
    GlobeWallet::initiate_recovery(wallet.by(&[guardian]), guardian, to)
}

fn approve(wallet: &mut Wallet, guardian: Address) -> Result<(), WalletError> {
    GlobeWallet::approve_recovery(wallet.by(&[guardian]), guardian)
}

fn revoke(wallet: &mut Wallet, guardian: Address) -> Result<(), WalletError> {
    GlobeWallet::revoke_recovery_approval(wallet.by(&[guardian]), guardian)
}

fn execute(wallet: &mut Wallet) -> Result<(), WalletError> {
    GlobeWallet::execute_recovery(wallet.by(&[]))
}

fn ready_at(wallet: &Wallet) -> Option<u32> {
    GlobeWallet::recovery_proposal(&wallet.env).unwrap().ready_at
}

fn completed(env: &WalletEnv) -> &RecoveryCompletedEvent {
    for event in env.events.iter() {
        if let Event::RecoveryCompleted(e) = event {
            assert_eq!(event.topic(), "recovery_completed");
            return e;
        }
    }
    panic!("recovery_completed must be published");
}

#[test]
fn test_set_recovery_config_rejects_zero_delay() {
    let (mut wallet, admin, _guardians) = setup_with_guardians(3);
    assert_eq!(
        configure(&mut wallet, admin, 2, 0),
        Err(WalletError::RecoveryDelayTooShort)
    );
    assert!(GlobeWallet::recovery_config(&wallet.env).is_none());
}

#[test]
fn test_set_recovery_config_rejects_delay_below_minimum() {
    let (mut wallet, admin, _guardians) = setup_with_guardians(3);
    assert_eq!(
        configure(&mut wallet, admin, 2, DELAY - 1),
        Err(WalletError::RecoveryDelayTooShort)
    );
}

#[test]
fn test_set_recovery_config_accepts_delay_at_minimum_and_recovery_executes() {
    let (mut wallet, admin, guardians) = setup_with_guardians(3);
    assert_eq!(configure(&mut wallet, admin, 2, DELAY), Ok(()));

    let new_admin = wallet.generate();
    initiate(&mut wallet, guardians[0], new_admin).unwrap();
    approve(&mut wallet, guardians[1]).unwrap();
    assert_eq!(execute(&mut wallet), Err(WalletError::RecoveryNotReady));

    wallet.env.sequence += DELAY;
    execute(&mut wallet).unwrap();
    assert_eq!(GlobeWallet::admin(&wallet.env), new_admin);
}

#[test]
fn test_add_and_list_guardians() {
    let (wallet, _admin, guardians) = setup_with_guardians(3);
    let stored = GlobeWallet::guardians(&wallet.env);
    assert_eq!(stored.len(), 3);
    for i in 0..3 {
        assert_eq!(stored.get(i).unwrap(), guardians[i as usize]);
    }
}

#[test]
fn test_add_duplicate_guardian_fails() {
    let (mut wallet, admin, guardians) = setup_with_guardians(1);
    assert_eq!(
        add(&mut wallet, admin, guardians[0]),
        Err(WalletError::GuardianAlreadyAdded)
    );
}

#[test]
fn test_non_admin_cannot_add_guardian() {
    let (mut wallet, _admin, _guardians) = setup_with_guardians(1);
    let stranger = wallet.generate();
    let candidate = wallet.generate();
    assert_eq!(
        add(&mut wallet, stranger, candidate),
        Err(WalletError::Unauthorized)
    );
}

#[test]
fn test_max_guardians_limit() {
    let (mut wallet, admin, guardians) = setup_with_guardians(GlobeWallet::MAX_GUARDIANS);
    assert_eq!(guardians.len() as u32, GlobeWallet::MAX_GUARDIANS);

    let extra = wallet.generate();
    assert_eq!(
        add(&mut wallet, admin, extra),
        Err(WalletError::GuardianLimitExceeded)
    );
    assert_eq!(GlobeWallet::guardians(&wallet.env).len(), GlobeWallet::MAX_GUARDIANS);
}

#[test]
fn test_remove_guardian_below_threshold_fails() {
    let (mut wallet, admin, guardians) = setup_with_guardians(3);
    configure(&mut wallet, admin, 3, DELAY).unwrap();
    assert_eq!(
        remove(&mut wallet, admin, guardians[0]),
        Err(WalletError::NotEnoughGuardians)
    );
}

#[test]
fn test_removed_guardian_cannot_initiate_recovery() {
    let (mut wallet, admin, guardians) = setup_with_guardians(4);
    configure(&mut wallet, admin, 2, DELAY).unwrap();
    let removed = guardians[0];
    remove(&mut wallet, admin, removed).unwrap();

    let target = wallet.generate();
    assert_eq!(
        initiate(&mut wallet, removed, target),
        Err(WalletError::Unauthorized)
    );
}

#[test]
fn test_removed_guardian_approval_no_longer_counts_toward_quorum() {
    let (mut wallet, admin, guardians) = setup_with_guardians(3);
    configure(&mut wallet, admin, 2, DELAY).unwrap();
    let new_admin = wallet.generate();

    initiate(&mut wallet, guardians[0], new_admin).unwrap();
    approve(&mut wallet, guardians[1]).unwrap();
    assert!(ready_at(&wallet).is_some());

    remove(&mut wallet, admin, guardians[1]).unwrap();

    let proposal = GlobeWallet::recovery_proposal(&wallet.env).unwrap();
    assert_eq!(proposal.approvals.len(), 1);
    assert_eq!(proposal.approvals.get(0).unwrap(), guardians[0]);
    assert!(proposal.ready_at.is_none());

    wallet.env.sequence += 100;
    assert_eq!(execute(&mut wallet), Err(WalletError::RecoveryNotQuorate));
    assert_eq!(GlobeWallet::admin(&wallet.env), admin);
}

#[test]
fn test_remove_guardian_who_never_approved_leaves_proposal_untouched() {
    let (mut wallet, admin, guardians) = setup_with_guardians(4);
    configure(&mut wallet, admin, 2, DELAY).unwrap();
    let new_admin = wallet.generate();

    initiate(&mut wallet, guardians[0], new_admin).unwrap();
    approve(&mut wallet, guardians[1]).unwrap();
    let ready_at_before = ready_at(&wallet);
    assert!(ready_at_before.is_some());

    remove(&mut wallet, admin, guardians[3]).unwrap();

    let proposal = GlobeWallet::recovery_proposal(&wallet.env).unwrap();
    assert_eq!(proposal.approvals.len(), 2);
    assert_eq!(proposal.ready_at, ready_at_before);

    wallet.env.sequence += DELAY;
    execute(&mut wallet).unwrap();
    assert_eq!(GlobeWallet::admin(&wallet.env), new_admin);
}

#[test]
fn test_remove_guardian_dequorated_proposal_can_requorum_with_fresh_timelock() {
    let (mut wallet, admin, guardians) = setup_with_guardians(3);
    configure(&mut wallet, admin, 2, DELAY).unwrap();
    let new_admin = wallet.generate();

    initiate(&mut wallet, guardians[0], new_admin).unwrap();
    approve(&mut wallet, guardians[1]).unwrap();
    remove(&mut wallet, admin, guardians[1]).unwrap();
    assert!(ready_at(&wallet).is_none());

    wallet.env.sequence += 5;
    approve(&mut wallet, guardians[2]).unwrap();
    assert!(ready_at(&wallet).is_some());
    assert_eq!(ready_at(&wallet), Some(DELAY + 5));

    wallet.env.sequence += DELAY;
    execute(&mut wallet).unwrap();
    assert_eq!(GlobeWallet::admin(&wallet.env), new_admin);
}

#[test]
fn test_revoke_recovery_approval_rejects_non_guardian() {
    let (mut wallet, admin, guardians) = setup_with_guardians(3);
    configure(&mut wallet, admin, 2, DELAY).unwrap();
    let new_admin = wallet.generate();
    initiate(&mut wallet, guardians[0], new_admin).unwrap();

    let stranger = wallet.generate();
    assert_eq!(revoke(&mut wallet, stranger), Err(WalletError::Unauthorized));
}

#[test]
fn test_revoke_recovery_approval_rejects_removed_guardian() {
    let (mut wallet, admin, guardians) = setup_with_guardians(4);
    configure(&mut wallet, admin, 2, DELAY).unwrap();
    let new_admin = wallet.generate();
    initiate(&mut wallet, guardians[0], new_admin).unwrap();
    approve(&mut wallet, guardians[1]).unwrap();

    let removed = guardians[1];
    remove(&mut wallet, admin, removed).unwrap();

    assert_eq!(revoke(&mut wallet, removed), Err(WalletError::Unauthorized));
}

#[test]
fn test_set_recovery_config_requires_min_guardians() {
    let (mut wallet, admin, _guardians) = setup_with_guardians(2);
    assert_eq!(
        configure(&mut wallet, admin, 2, DELAY),
        Err(WalletError::NotEnoughGuardians)
    );
}

#[test]
fn test_set_recovery_config_rejects_single_guardian_threshold() {
    let (mut wallet, admin, _guardians) = setup_with_guardians(3);
    assert_eq!(
        configure(&mut wallet, admin, 1, DELAY),
        Err(WalletError::InvalidRecoveryThreshold)
    );
}

#[test]
fn test_set_recovery_config_rejects_threshold_above_guardian_count() {
    let (mut wallet, admin, _guardians) = setup_with_guardians(3);
    assert_eq!(
        configure(&mut wallet, admin, 4, DELAY),
        Err(WalletError::NotEnoughGuardians)
    );
}

#[test]
fn test_recovery_happy_path_2_of_3() {
    let (mut wallet, admin, guardians) = setup_with_guardians(3);
    configure(&mut wallet, admin, 2, DELAY).unwrap();
    let new_admin = wallet.generate();

    initiate(&mut wallet, guardians[0], new_admin).unwrap();
    assert_eq!(execute(&mut wallet), Err(WalletError::RecoveryNotQuorate));

    approve(&mut wallet, guardians[1]).unwrap();
    assert_eq!(execute(&mut wallet), Err(WalletError::RecoveryNotReady));

    wallet.env.sequence += DELAY;
    execute(&mut wallet).unwrap();
    assert_eq!(GlobeWallet::admin(&wallet.env), new_admin);
    assert!(GlobeWallet::recovery_proposal(&wallet.env).is_none());
}

#[test]
fn test_recovery_rejects_non_guardian() {
    let (mut wallet, admin, _guardians) = setup_with_guardians(3);
    configure(&mut wallet, admin, 2, DELAY).unwrap();
    let stranger = wallet.generate();
    let new_admin = wallet.generate();
    assert_eq!(
        initiate(&mut wallet, stranger, new_admin),
        Err(WalletError::Unauthorized)
    );
}

#[test]
fn test_admin_can_cancel_recovery_even_after_quorum() {
    let (mut wallet, admin, guardians) = setup_with_guardians(3);
    configure(&mut wallet, admin, 2, DELAY).unwrap();
    let new_admin = wallet.generate();

    initiate(&mut wallet, guardians[0], new_admin).unwrap();
    approve(&mut wallet, guardians[1]).unwrap();
    GlobeWallet::cancel_recovery(wallet.by(&[admin]), admin).unwrap();

    assert!(GlobeWallet::recovery_proposal(&wallet.env).is_none());
    wallet.env.sequence += 100;
    assert_eq!(execute(&mut wallet), Err(WalletError::NoPendingRecovery));
    assert_eq!(GlobeWallet::admin(&wallet.env), admin);
}

#[test]
fn test_revoking_approval_below_threshold_resets_timelock() {
    let (mut wallet, admin, guardians) = setup_with_guardians(3);
    configure(&mut wallet, admin, 2, DELAY).unwrap();
    let new_admin = wallet.generate();

    initiate(&mut wallet, guardians[0], new_admin).unwrap();
    approve(&mut wallet, guardians[1]).unwrap();
    wallet.env.sequence += DELAY;

    revoke(&mut wallet, guardians[1]).unwrap();
    assert_eq!(execute(&mut wallet), Err(WalletError::RecoveryNotQuorate));

    approve(&mut wallet, guardians[1]).unwrap();
    assert_eq!(execute(&mut wallet), Err(WalletError::RecoveryNotReady));
    wallet.env.sequence += DELAY;
    execute(&mut wallet).unwrap();
    assert_eq!(GlobeWallet::admin(&wallet.env), new_admin);
}

#[test]
fn test_double_approval_rejected() {
    let (mut wallet, admin, guardians) = setup_with_guardians(3);
    configure(&mut wallet, admin, 2, DELAY).unwrap();
    let new_admin = wallet.generate();
    initiate(&mut wallet, guardians[0], new_admin).unwrap();
    assert_eq!(approve(&mut wallet, guardians[0]), Err(WalletError::AlreadyApproved));
}

#[test]
fn test_cannot_initiate_second_recovery_while_one_pending() {
    let (mut wallet, admin, guardians) = setup_with_guardians(3);
    configure(&mut wallet, admin, 2, DELAY).unwrap();
    let new_admin_a = wallet.generate();
    let new_admin_b = wallet.generate();
    initiate(&mut wallet, guardians[0], new_admin_a).unwrap();
    assert_eq!(
        initiate(&mut wallet, guardians[1], new_admin_b),
        Err(WalletError::RecoveryAlreadyPending)
    );
}

#[test]
fn test_recovery_clears_any_in_flight_normal_admin_transfer() {
    let (mut wallet, admin, guardians) = setup_with_guardians(3);
    configure(&mut wallet, admin, 2, DELAY).unwrap();
    let normal_candidate = wallet.generate();
    let recovery_admin = wallet.generate();

    GlobeWallet::propose_admin(wallet.by(&[admin]), admin, normal_candidate).unwrap();

    initiate(&mut wallet, guardians[0], recovery_admin).unwrap();
    approve(&mut wallet, guardians[1]).unwrap();
    wallet.env.sequence += DELAY;
    execute(&mut wallet).unwrap();

    assert_eq!(GlobeWallet::admin(&wallet.env), recovery_admin);
    assert_eq!(
        GlobeWallet::accept_admin(wallet.by(&[normal_candidate]), normal_candidate),
        Err(WalletError::NoPendingAdmin)
    );
}

#[test]
fn test_execute_recovery_rejects_new_admin_same_as_current_admin() {
    let (mut wallet, admin, guardians) = setup_with_guardians(3);
    configure(&mut wallet, admin, 2, DELAY).unwrap();

    initiate(&mut wallet, guardians[0], admin).unwrap();
    approve(&mut wallet, guardians[1]).unwrap();
    wallet.env.sequence += DELAY;

    assert_eq!(execute(&mut wallet), Err(WalletError::RecoveryNewAdminUnchanged));
    assert_eq!(GlobeWallet::admin(&wallet.env), admin);
    assert!(GlobeWallet::recovery_proposal(&wallet.env).is_some());
}

#[test]
fn test_execute_recovery_emits_both_admin_transferred_and_recovery_completed() {
    let (mut wallet, admin, guardians) = setup_with_guardians(3);
    configure(&mut wallet, admin, 2, DELAY).unwrap();

    let new_admin = wallet.generate();
    initiate(&mut wallet, guardians[0], new_admin).unwrap();
    approve(&mut wallet, guardians[1]).unwrap();
    let ready = ready_at(&wallet).unwrap();
    wallet.env.sequence = ready;

    execute(&mut wallet).unwrap();
    assert_eq!(GlobeWallet::admin(&wallet.env), new_admin);

    let transferred = wallet
        .env
        .events
        .iter()
        .find(|e| e.topic() == "admin_transferred")
        .expect("admin_transferred must still be published");
    assert_eq!(
        *transferred,
        Event::AdminTransferred { old_admin: admin, new_admin }
    );

    let decoded = completed(&wallet.env);
    assert_eq!(decoded.old_admin, admin);
    assert_eq!(decoded.new_admin, new_admin);
    assert_eq!(decoded.approving_guardians.len(), 2);
    assert!(decoded.approving_guardians.contains(guardians[0]));
    assert!(decoded.approving_guardians.contains(guardians[1]));
    assert!(!decoded.approving_guardians.contains(guardians[2]));
    assert_eq!(decoded.threshold, 2);
    assert_eq!(decoded.ready_at, ready);
    assert_eq!(decoded.executed_at, ready);
}

#[test]
fn test_execute_recovery_emits_recovery_completed_with_full_over_quorum_guardian_set() {
    let (mut wallet, admin, guardians) = setup_with_guardians(5);
    configure(&mut wallet, admin, 3, DELAY).unwrap();

    let new_admin = wallet.generate();
    initiate(&mut wallet, guardians[0], new_admin).unwrap();
    approve(&mut wallet, guardians[1]).unwrap();
    approve(&mut wallet, guardians[2]).unwrap();
    approve(&mut wallet, guardians[3]).unwrap();
    approve(&mut wallet, guardians[4]).unwrap();

    let ready = ready_at(&wallet).unwrap();
    wallet.env.sequence = ready + 3;

    execute(&mut wallet).unwrap();

    let decoded = completed(&wallet.env);
    assert_eq!(decoded.approving_guardians.len(), 5);
    assert_eq!(decoded.threshold, 3);
    assert_eq!(decoded.ready_at, ready);
    assert_eq!(decoded.executed_at, ready + 3);
}

#[test]
fn test_set_recovery_config_rejected_while_recovery_pending() {
    let (mut wallet, admin, guardians) = setup_with_guardians(3);
    configure(&mut wallet, admin, 2, DELAY).unwrap();
    let new_admin = wallet.generate();
    initiate(&mut wallet, guardians[0], new_admin).unwrap();

    assert_eq!(
        configure(&mut wallet, admin, 3, 5),
        Err(WalletError::RecoveryAlreadyPending)
    );

    let config = GlobeWallet::recovery_config(&wallet.env).unwrap();
    assert_eq!(config.threshold, 2);
    assert_eq!(config.delay_in_ledgers, DELAY);

    GlobeWallet::cancel_recovery(wallet.by(&[admin]), admin).unwrap();
    configure(&mut wallet, admin, 3, DELAY + 1).unwrap();
    let config = GlobeWallet::recovery_config(&wallet.env).unwrap();
    assert_eq!(config.threshold, 3);
    assert_eq!(config.delay_in_ledgers, DELAY + 1);
}

#[test]
fn recovery_is_refused_where_it_does_not_apply() {
    let (mut wallet, admin, guardians) = setup_with_guardians(3);
    let target = wallet.generate();
    assert_eq!(
        initiate(&mut wallet, guardians[0], target),
        Err(WalletError::RecoveryNotConfigured)
    );
    assert_eq!(approve(&mut wallet, guardians[0]), Err(WalletError::RecoveryNotConfigured));
    assert_eq!(revoke(&mut wallet, guardians[0]), Err(WalletError::RecoveryNotConfigured));
    assert_eq!(execute(&mut wallet), Err(WalletError::RecoveryNotConfigured));

    configure(&mut wallet, admin, 2, DELAY).unwrap();
    assert_eq!(approve(&mut wallet, guardians[0]), Err(WalletError::NoPendingRecovery));
    assert_eq!(revoke(&mut wallet, guardians[0]), Err(WalletError::NoPendingRecovery));
    assert_eq!(execute(&mut wallet), Err(WalletError::NoPendingRecovery));
    assert_eq!(
        GlobeWallet::cancel_recovery(wallet.by(&[admin]), admin),
        Err(WalletError::NoPendingRecovery)
    );

    initiate(&mut wallet, guardians[0], target).unwrap();
    assert_eq!(revoke(&mut wallet, guardians[1]), Err(WalletError::ApprovalNotFound));
    let stranger = wallet.generate();
    assert_eq!(approve(&mut wallet, stranger), Err(WalletError::Unauthorized));
    assert_eq!(remove(&mut wallet, admin, stranger), Err(WalletError::GuardianNotFound));
}

#[test]
fn an_approval_beyond_quorum_does_not_move_the_countdown() {
    let (mut wallet, admin, guardians) = setup_with_guardians(4);
    configure(&mut wallet, admin, 2, DELAY).unwrap();
    let target = wallet.generate();
    initiate(&mut wallet, guardians[0], target).unwrap();
    wallet.env.sequence = 7;
    approve(&mut wallet, guardians[1]).unwrap();
    assert_eq!(ready_at(&wallet), Some(DELAY + 7));
    wallet.env.sequence = 9;
    approve(&mut wallet, guardians[2]).unwrap();
    assert_eq!(ready_at(&wallet), Some(DELAY + 7));

    // One approval fewer still is a quorum: the countdown goes on.
    revoke(&mut wallet, guardians[1]).unwrap();
    assert_eq!(ready_at(&wallet), Some(DELAY + 7));
    revoke(&mut wallet, guardians[0]).unwrap();
    assert_eq!(ready_at(&wallet), None);
}

#[test]
fn recovery_events_follow_the_steps() {
    let (mut wallet, admin, guardians) = setup_with_guardians(3);
    configure(&mut wallet, admin, 2, DELAY).unwrap();
    let new_admin = wallet.generate();
    wallet.env.events.clear();

    initiate(&mut wallet, guardians[0], new_admin).unwrap();
    approve(&mut wallet, guardians[1]).unwrap();
    remove(&mut wallet, admin, guardians[1]).unwrap();
    approve(&mut wallet, guardians[2]).unwrap();
    revoke(&mut wallet, guardians[2]).unwrap();
    GlobeWallet::cancel_recovery(wallet.by(&[admin]), admin).unwrap();
    assert_eq!(
        wallet.env.events,
        vec![
            Event::RecoveryInitiated { guardian: guardians[0], new_admin },
            Event::RecoveryQuorumReached { new_admin, ready_at: DELAY },
            Event::RecoveryApproved { guardian: guardians[1] },
            Event::RecoveryApprovalInvalidated { guardian: guardians[1] },
            Event::GuardianRemoved { guardian: guardians[1] },
            Event::RecoveryQuorumReached { new_admin, ready_at: DELAY },
            Event::RecoveryApproved { guardian: guardians[2] },
            Event::RecoveryApprovalRevoked { guardian: guardians[2] },
            Event::RecoveryCancelled { admin },
        ]
    );
}

#[test]
fn a_wallet_without_an_index_builds_it() {
    let (mut wallet, admin, guardians) = setup_with_guardians(3);
    configure(&mut wallet, admin, 2, DELAY).unwrap();
    wallet.env.guardian_index = None;

    let stranger = wallet.generate();
    assert_eq!(initiate(&mut wallet, stranger, stranger), Err(WalletError::Unauthorized));
    assert!(wallet.env.guardian_index.is_none());

    initiate(&mut wallet, guardians[2], stranger).unwrap();
    let index = wallet.env.guardian_index.as_ref().unwrap();
    assert_eq!(index.get(guardians[0]), Some(true));
    assert_eq!(index.get(guardians[2]), Some(true));
    assert_eq!(index.get(stranger), None);
}

#[test]
fn lists_and_indexes_hold_what_they_are_given() {
    let wallet = Wallet::blank();
    let host = &wallet.env.host;
    let account = Address { kind: AddressKind::Account, hi: 1 << 127, lo: 3 };
    let contract = Address { kind: AddressKind::Contract, hi: 1 << 127, lo: 3 };

    let mut list = AddressList::new(host);
    assert_eq!(list.len(), 0);
    assert_eq!(list.get(0), None);
    list.push_back(account);
    list.push_back(contract);
    list.push_back(account);
    assert_eq!(list.len(), 3);
    assert_eq!(list.get(0), Some(account));
    assert_eq!(list.get(1), Some(contract));
    assert_eq!(list.get(3), None);

    let copy = list.clone();
    list.push_back(contract);
    assert_eq!(copy.len(), 3);
    assert_eq!(list.len(), 4);

    let rest = copy.without(host, account);
    assert_eq!(rest.len(), 1);
    assert_eq!(rest.get(0), Some(contract));
    assert!(!rest.contains(account));

    let mut index = AddressIndex::build(host, &rest);
    assert_eq!(index.get(contract), Some(true));
    assert_eq!(index.get(account), None);
    index.set(account, false);
    assert_eq!(index.get(account), Some(false));
    index.remove(contract);
    assert_eq!(index.get(contract), None);
    assert_eq!(AddressIndex::new(host).get(account), None);
}

#[test]
fn guardians_and_their_index_stay_in_step() {
    let (mut wallet, admin, guardians) = setup_with_guardians(4);
    configure(&mut wallet, admin, 2, DELAY).unwrap();
    let target = wallet.generate();
    initiate(&mut wallet, guardians[0], target).unwrap();
    remove(&mut wallet, admin, guardians[0]).unwrap();
    let late = wallet.generate();
    add(&mut wallet, admin, late).unwrap();
    approve(&mut wallet, late).unwrap();

    let stored = GlobeWallet::guardians(&wallet.env);
    let index = wallet.env.guardian_index.as_ref().unwrap();
    assert_eq!(stored.len(), 4);
    for i in 0..stored.len() {
        assert_eq!(index.get(stored.get(i).unwrap()), Some(true));
    }
    assert_eq!(index.get(guardians[0]), None);

    // The approval of a removed guardian is gone; the countdown does not run.
    let proposal = GlobeWallet::recovery_proposal(&wallet.env).unwrap();
    assert_eq!(proposal.approvals.len(), 1);
    assert_eq!(proposal.approvals.get(0), Some(late));
    assert_eq!(proposal.ready_at, None);
}

#[test]
fn nothing_is_recovered_until_a_new_recovery_is_started() {
    let (mut wallet, admin, guardians) = setup_with_guardians(3);
    configure(&mut wallet, admin, 2, DELAY).unwrap();
    let target = wallet.generate();
    let candidate = wallet.generate();
    initiate(&mut wallet, guardians[0], target).unwrap();
    approve(&mut wallet, guardians[1]).unwrap();
    wallet.env.sequence = DELAY;
    GlobeWallet::cancel_recovery(wallet.by(&[admin]), admin).unwrap();
    assert_eq!(execute(&mut wallet), Err(WalletError::NoPendingRecovery));
    assert_eq!(approve(&mut wallet, guardians[2]), Err(WalletError::NoPendingRecovery));
    configure(&mut wallet, admin, 3, DELAY).unwrap();
    configure(&mut wallet, admin, 2, DELAY).unwrap();
    wallet.env.sequence = 3 * DELAY;
    assert_eq!(execute(&mut wallet), Err(WalletError::NoPendingRecovery));

    // A recovery that went through is over, and so is the old admin's proposal.
    GlobeWallet::propose_admin(wallet.by(&[admin]), admin, candidate).unwrap();
    initiate(&mut wallet, guardians[0], target).unwrap();
    approve(&mut wallet, guardians[1]).unwrap();
    wallet.env.sequence = 4 * DELAY;
    execute(&mut wallet).unwrap();
    configure(&mut wallet, target, 3, DELAY).unwrap();
    wallet.env.sequence = 6 * DELAY;
    assert_eq!(execute(&mut wallet), Err(WalletError::NoPendingRecovery));
    assert_eq!(
        GlobeWallet::accept_admin(wallet.by(&[candidate]), candidate),
        Err(WalletError::NoPendingAdmin)
    );
    assert_eq!(GlobeWallet::admin(&wallet.env), target);
}

#[test]
fn a_removed_guardian_has_no_say_until_added_again() {
    let (mut wallet, admin, guardians) = setup_with_guardians(3);
    configure(&mut wallet, admin, 2, DELAY).unwrap();
    let target = wallet.generate();
    let fresh = wallet.generate();
    let gone = guardians[0];
    initiate(&mut wallet, gone, target).unwrap();
    remove(&mut wallet, admin, gone).unwrap();
    add(&mut wallet, admin, fresh).unwrap();
    approve(&mut wallet, guardians[1]).unwrap();
    wallet.env.sequence = 50;
    assert_eq!(initiate(&mut wallet, gone, target), Err(WalletError::Unauthorized));
    assert_eq!(approve(&mut wallet, gone), Err(WalletError::Unauthorized));
    assert_eq!(revoke(&mut wallet, gone), Err(WalletError::Unauthorized));
    assert_eq!(ready_at(&wallet), None);

    add(&mut wallet, admin, gone).unwrap();
    approve(&mut wallet, gone).unwrap();
    assert_eq!(ready_at(&wallet), Some(DELAY + 50));
}

#[test]
fn one_guardian_cannot_recover_whatever_else_happens() {
    let (mut wallet, admin, guardians) = setup_with_guardians(3);
    configure(&mut wallet, admin, 2, DELAY).unwrap();
    let target = wallet.generate();
    let fresh = wallet.generate();
    initiate(&mut wallet, guardians[0], target).unwrap();
    add(&mut wallet, admin, fresh).unwrap();
    remove(&mut wallet, admin, guardians[1]).unwrap();
    assert_eq!(approve(&mut wallet, guardians[0]), Err(WalletError::AlreadyApproved));
    wallet.env.sequence = 5 * DELAY;
    assert_eq!(execute(&mut wallet), Err(WalletError::RecoveryNotQuorate));
    revoke(&mut wallet, guardians[0]).unwrap();
    wallet.env.sequence = 6 * DELAY;
    assert_eq!(execute(&mut wallet), Err(WalletError::RecoveryNotQuorate));
}

#[test]
fn removing_an_added_guardian_restores_the_rest() {
    let (mut wallet, admin, guardians) = setup_with_guardians(3);
    configure(&mut wallet, admin, 2, DELAY).unwrap();
    let target = wallet.generate();
    let fresh = wallet.generate();
    initiate(&mut wallet, guardians[0], target).unwrap();
    let config = wallet.env.recovery_config;

    add(&mut wallet, admin, fresh).unwrap();
    remove(&mut wallet, admin, fresh).unwrap();
    let stored = GlobeWallet::guardians(&wallet.env);
    assert_eq!(stored.len(), 3);
    assert_eq!(stored.get(0), Some(guardians[0]));
    assert_eq!(stored.get(1), Some(guardians[1]));
    assert_eq!(stored.get(2), Some(guardians[2]));
    assert_eq!(wallet.env.recovery_config, config);
    assert_eq!(ready_at(&wallet), None);
    assert_eq!(GlobeWallet::admin(&wallet.env), admin);
    // The approval that was there still counts.
    approve(&mut wallet, guardians[1]).unwrap();
    assert_eq!(ready_at(&wallet), Some(DELAY));
}

#[test]
fn taking_an_approval_back_restores_the_recovery() {
    let (mut wallet, admin, guardians) = setup_with_guardians(3);
    configure(&mut wallet, admin, 2, DELAY).unwrap();
    let target = wallet.generate();
    initiate(&mut wallet, guardians[0], target).unwrap();
    // Below the quorum before: the countdown that the approval starts is gone.
    approve(&mut wallet, guardians[1]).unwrap();
    assert_eq!(ready_at(&wallet), Some(DELAY));
    revoke(&mut wallet, guardians[1]).unwrap();
    assert_eq!(ready_at(&wallet), None);
    assert_eq!(revoke(&mut wallet, guardians[1]), Err(WalletError::ApprovalNotFound));
    // A quorum before: the countdown goes on.
    wallet.env.sequence = 5;
    approve(&mut wallet, guardians[2]).unwrap();
    wallet.env.sequence = 9;
    approve(&mut wallet, guardians[1]).unwrap();
    revoke(&mut wallet, guardians[1]).unwrap();
    assert_eq!(ready_at(&wallet), Some(DELAY + 5));
}

#[test]
fn a_list_beyond_the_cap_leaves_recovery_as_it_is() {
    let (mut wallet, admin, guardians) = setup_with_guardians(3);
    configure(&mut wallet, admin, 2, DELAY).unwrap();
    let user = wallet.generate();
    let target = wallet.generate();
    let mut items = Vec::new();
    for i in 0..60 {
        let code = format!("B{}", i).into_bytes();
        items.push(globe_wallet::asset::AssetInfo { code, issuer: Some(admin) });
    }
    wallet.env.user_assets.set(user, globe_wallet::asset::AssetList { items });
    initiate(&mut wallet, guardians[0], target).unwrap();
    wallet.env.sequence = DELAY;
    assert_eq!(execute(&mut wallet), Err(WalletError::RecoveryNotQuorate));
    approve(&mut wallet, guardians[1]).unwrap();
    wallet.env.sequence = 2 * DELAY - 1;
    assert_eq!(execute(&mut wallet), Err(WalletError::RecoveryNotReady));
    wallet.env.sequence = 2 * DELAY;
    execute(&mut wallet).unwrap();
    assert_eq!(GlobeWallet::admin(&wallet.env), target);
}
