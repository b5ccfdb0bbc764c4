use registrar::Account;
use registrar::AccountType;
use registrar::AddressState;
use registrar::AddressValidity;
use registrar::Challenge;
use registrar::ExternalMessage;
use registrar::IdentityAddress;
use registrar::IdentityField;
use registrar::IdentityState;
use registrar::OnChainIdentity;
use registrar::VerificationStatus;
use registrar::VerifierAggregate;
use registrar::VerifierCommand;
use registrar::VerifierError;

fn identity_with_twitter(
    key: &str,
    addr: &str,
    token: &str,
    validity: AddressValidity,
) -> OnChainIdentity {
    let mut ident = OnChainIdentity::new(IdentityAddress::new(key.to_string()));
    ident.set_field(AddressState {
        addr: Account::new(addr.to_string()),
        addr_type: AccountType::Twitter,
        addr_validity: validity,
        challenge: Challenge::new(token.to_string()),
        confirmed: false,
    });
    ident
}

fn store_with(idents: Vec<OnChainIdentity>) -> IdentityState {
    IdentityState { identities: idents }
}

fn twitter_field(addr: &str) -> IdentityField {
    IdentityField::new(AccountType::Twitter, Account::new(addr.to_string()))
}

#[test]
fn correct_token_yields_one_valid_outcome_then_none() {
    let mut state = store_with(vec![identity_with_twitter(
        "alice-key",
        "@alice",
        "ABC123",
        AddressValidity::Unknown,
    )]);
    let field = twitter_field("@alice");

    let outcomes = state.verify_message(&field, "please verify ABC123 thanks");
    assert_eq!(outcomes.len(), 1);
    assert!(matches!(outcomes[0].status, VerificationStatus::Valid));
    assert_eq!(outcomes[0].net_address.as_str(), "alice-key");
    assert_eq!(outcomes[0].expected_message, "ABC123".to_string());

    let addr = IdentityAddress::new("alice-key".to_string());
    state.set_verified(&addr, &field);

    // Idempotent on repeat: the field is Valid now, so no outcome at all.
    let again = state.verify_message(&field, "please verify ABC123 thanks");
    assert_eq!(again.len(), 0);
    assert!(state.is_fully_verified(&addr));
}

#[test]
fn wrong_text_yields_invalid_and_no_mutation() {
    let mut state = store_with(vec![identity_with_twitter(
        "alice-key",
        "@alice",
        "ABC123",
        AddressValidity::Unknown,
    )]);
    let field = twitter_field("@alice");

    let outcomes = state.verify_message(&field, "this has no token at all");
    assert_eq!(outcomes.len(), 1);
    assert!(matches!(outcomes[0].status, VerificationStatus::Invalid));

    // Applying an invalid event performs no mutation.
    let msg = ExternalMessage {
        origin: AccountType::Twitter,
        field_address: Account::new("@alice".to_string()),
        message: "this has no token at all".to_string(),
        id: "77".to_string(),
        timestamp: Some(9),
    };
    let events = VerifierAggregate::process_message(&mut state, &msg).unwrap();
    assert_eq!(events.len(), 1);
    assert!(!events[0].is_valid);
    assert!(!events[0].is_fully_verified);
    let addr = IdentityAddress::new("alice-key".to_string());
    assert!(!state.is_fully_verified(&addr));
    let still = state.verify_message(&field, "ABC123");
    assert_eq!(still.len(), 1);
}

#[test]
fn token_must_be_contained_case_sensitively() {
    let state = store_with(vec![identity_with_twitter(
        "k",
        "@a",
        "ABC123",
        AddressValidity::Unknown,
    )]);
    let field = twitter_field("@a");
    let low = state.verify_message(&field, "abc123");
    assert!(matches!(low[0].status, VerificationStatus::Invalid));
    let exact = state.verify_message(&field, "ABC123");
    assert!(matches!(exact[0].status, VerificationStatus::Valid));
    let padded = state.verify_message(&field, "xxABC123yy");
    assert!(matches!(padded[0].status, VerificationStatus::Valid));
}

#[test]
fn unregistered_address_yields_no_outcome() {
    let state = store_with(vec![identity_with_twitter(
        "k",
        "@a",
        "T",
        AddressValidity::Unknown,
    )]);
    let field = twitter_field("@somebody-else");
    assert_eq!(state.verify_message(&field, "T").len(), 0);
}

#[test]
fn fully_verified_iff_every_registered_field_valid() {
    let mut ident = identity_with_twitter("k", "@a", "T1", AddressValidity::Valid);
    ident.set_field(AddressState {
        addr: Account::new("a@example.com".to_string()),
        addr_type: AccountType::Email,
        addr_validity: AddressValidity::Unknown,
        challenge: Challenge::new("T2".to_string()),
        confirmed: false,
    });
    let mut state = store_with(vec![ident]);
    let addr = IdentityAddress::new("k".to_string());
    assert!(!state.is_fully_verified(&addr));

    let email_field = IdentityField::new(
        AccountType::Email,
        Account::new("a@example.com".to_string()),
    );
    state.set_verified(&addr, &email_field);
    assert!(state.is_fully_verified(&addr));

    // An address nobody holds is never fully verified.
    assert!(!state.is_fully_verified(&IdentityAddress::new("nobody".to_string())));
}

#[test]
fn all_pending_lists_only_unresolved_identities() {
    let done = identity_with_twitter("k1", "@a", "T", AddressValidity::Valid);
    let open_one = identity_with_twitter("k2", "@b", "T", AddressValidity::Unknown);
    let state = store_with(vec![done, open_one]);
    let pending = state.all_pending();
    assert_eq!(pending.len(), 1);
    assert_eq!(pending[0].pub_key.as_str(), "k2");
}

#[test]
fn malformed_command_fails_with_typed_error() {
    let state = store_with(vec![identity_with_twitter(
        "k",
        "@a",
        "T",
        AddressValidity::Unknown,
    )]);
    let bad_id = ExternalMessage {
        origin: AccountType::Twitter,
        field_address: Account::new("@a".to_string()),
        message: "T".to_string(),
        id: "not-a-number".to_string(),
        timestamp: Some(4),
    };
    assert_eq!(
        VerifierAggregate::handle_verify_message(&state, &bad_id).unwrap_err(),
        VerifierError::UnparseableSenderId
    );
    let no_ts = ExternalMessage {
        origin: AccountType::Twitter,
        field_address: Account::new("@a".to_string()),
        message: "T".to_string(),
        id: "12".to_string(),
        timestamp: None,
    };
    assert_eq!(
        VerifierAggregate::handle_verify_message(&state, &no_ts).unwrap_err(),
        VerifierError::MissingTimestamp
    );
    assert!(!VerifierError::UnparseableSenderId.description().is_empty());
    assert!(!VerifierError::MissingTimestamp.description().is_empty());
}

#[test]
fn no_match_is_ok_none_not_an_error() {
    let state = store_with(vec![]);
    let msg = ExternalMessage {
        origin: AccountType::Twitter,
        field_address: Account::new("@a".to_string()),
        message: "T".to_string(),
        id: "12".to_string(),
        timestamp: Some(4),
    };
    let r = VerifierAggregate::handle_verify_message(&state, &msg).unwrap();
    assert!(r.is_none());
}

#[test]
fn batch_keeps_arrival_order_wrong_then_correct() {
    let mut state = store_with(vec![identity_with_twitter(
        "alice-key",
        "@alice",
        "ABC123",
        AddressValidity::Unknown,
    )]);
    let mk = |text: &str, ts: u64| ExternalMessage {
        origin: AccountType::Twitter,
        field_address: Account::new("@alice".to_string()),
        message: text.to_string(),
        id: "42".to_string(),
        timestamp: Some(ts),
    };
    let msgs = vec![mk("wrong guess", 1), mk("here is ABC123", 2)];
    let events = VerifierAggregate::process_batch(&mut state, &msgs);
    assert_eq!(events.len(), 2);
    assert!(!events[0].is_valid);
    assert!(events[1].is_valid);
    assert!(events[1].is_fully_verified);
    let addr = IdentityAddress::new("alice-key".to_string());
    assert!(state.is_fully_verified(&addr));
}

#[test]
fn event_flag_reads_the_snapshot_of_its_own_command() {
    // Two identities claim the same handle with the same token: one
    // message judges both, and each event's flag is computed against the
    // state before this command, with only that event's flip applied.
    let a = identity_with_twitter("ka", "@shared", "TOK", AddressValidity::Unknown);
    let b = identity_with_twitter("kb", "@shared", "TOK", AddressValidity::Unknown);
    let mut state = store_with(vec![a, b]);
    let msg = ExternalMessage {
        origin: AccountType::Twitter,
        field_address: Account::new("@shared".to_string()),
        message: "TOK".to_string(),
        id: "5".to_string(),
        timestamp: Some(1),
    };
    let events = VerifierAggregate::process_message(&mut state, &msg).unwrap();
    assert_eq!(events.len(), 2);
    assert!(events[0].is_valid && events[0].is_fully_verified);
    assert!(events[1].is_valid && events[1].is_fully_verified);
    assert!(state.is_fully_verified(&IdentityAddress::new("ka".to_string())));
    assert!(state.is_fully_verified(&IdentityAddress::new("kb".to_string())));
}

#[test]
fn handle_dispatches_commands() {
    let state = store_with(vec![identity_with_twitter(
        "k",
        "@a",
        "TOK",
        AddressValidity::Unknown,
    )]);
    let read = VerifierAggregate::handle(
        &state,
        &VerifierCommand::RequestState(IdentityAddress::new("k".to_string())),
    );
    assert!(matches!(read, Ok(None)));
    let verify = VerifierAggregate::handle(
        &state,
        &VerifierCommand::VerifyMessage(ExternalMessage {
            origin: AccountType::Twitter,
            field_address: Account::new("@a".to_string()),
            message: "TOK".to_string(),
            id: "3".to_string(),
            timestamp: Some(1),
        }),
    );
    let events = verify.unwrap().unwrap();
    assert_eq!(events.len(), 1);
    assert!(events[0].is_valid);
    assert_eq!(events[0].provided_message, "TOK".to_string());
    assert_eq!(events[0].expected_message, "TOK".to_string());
}
