use registrar::Account;
use registrar::AccountType;
use registrar::AddressState;
use registrar::AddressValidity;
use registrar::ApiEvent;
use registrar::ApiMessageCreate;
use registrar::ApiMessageData;
use registrar::ApiMessageEvent;
use registrar::ApiTarget;
use registrar::Challenge;
use registrar::ChallengeStatus;
use registrar::IdentityAddress;
use registrar::IdentityState;
use registrar::OauthParam;
use registrar::OnChainIdentity;
use registrar::ReceivedMessageContext;
use registrar::SenderEntry;
use registrar::TwitterAction;
use registrar::TwitterId;
use registrar::UserObject;
use registrar::Watermarks;
use registrar::accounts_from_user_objects;
use registrar::build_full_url;
use registrar::cache_lookup;
use registrar::handle_incoming_messages;
use registrar::init_message;
use registrar::join_ids;
use registrar::merge_lookups;
use registrar::messages_of_sender;
use registrar::plan_lookups;
use registrar::process_sender;
use registrar::response_message;

fn event(sender: Option<&str>, created: Option<&str>, text: &str) -> ApiEvent {
    ApiEvent {
        t_type: "message_create".to_string(),
        created_timestamp: created.map(|c| c.to_string()),
        message_create: ApiMessageCreate {
            target: ApiTarget { recipient_id: "1".to_string() },
            sender_id: sender.map(|s| s.to_string()),
            message_data: ApiMessageData { text: text.to_string() },
        },
    }
}

fn msg(sender: u64, text: &str, created: u64) -> ReceivedMessageContext {
    ReceivedMessageContext {
        sender: TwitterId(sender),
        message: text.to_string(),
        created,
    }
}

fn identity_with_twitter(key: &str, addr: &str, token: &str) -> OnChainIdentity {
    let mut ident = OnChainIdentity::new(IdentityAddress::new(key.to_string()));
    ident.set_field(AddressState {
        addr: Account::new(addr.to_string()),
        addr_type: AccountType::Twitter,
        addr_validity: AddressValidity::Unknown,
        challenge: Challenge::new(token.to_string()),
        confirmed: false,
    });
    ident
}

#[test]
fn get_messages_skips_malformed_own_and_stale_entries() {
    let payload = ApiMessageEvent {
        event: None,
        events: Some(vec![
            event(Some("7"), Some("11"), "fresh"),
            event(Some("1"), Some("12"), "from the service itself"),
            event(None, Some("13"), "missing sender"),
            event(Some("8"), None, "missing timestamp"),
            event(Some("x"), Some("14"), "bad sender"),
            event(Some("9"), Some("nope"), "bad timestamp"),
            event(Some("9"), Some("5"), "at or below watermark"),
            event(Some("9"), Some("20"), "newest"),
        ]),
    };
    let (msgs, watermark) = payload.get_messages(&TwitterId(1), 10);
    assert_eq!(msgs.len(), 2);
    assert_eq!(msgs[0].sender.as_u64(), 7);
    assert_eq!(msgs[0].message, "fresh".to_string());
    assert_eq!(msgs[0].created, 11);
    assert_eq!(msgs[1].created, 20);
    assert_eq!(watermark, 20);
}

#[test]
fn get_messages_without_events_keeps_watermark() {
    let payload = ApiMessageEvent { event: None, events: None };
    let (msgs, watermark) = payload.get_messages(&TwitterId(1), 42);
    assert!(msgs.is_empty());
    assert_eq!(watermark, 42);
}

#[test]
fn payload_for_sending_carries_recipient_and_text() {
    let payload = ApiMessageEvent::new(&TwitterId(1309954318712426496), "Hello".to_string());
    let ev = payload.event.unwrap();
    assert_eq!(ev.t_type, "message_create".to_string());
    assert_eq!(ev.message_create.target.recipient_id, "1309954318712426496".to_string());
    assert_eq!(ev.message_create.message_data.text, "Hello".to_string());
    assert!(payload.events.is_none());
}

#[test]
fn plan_lookups_dedups_by_sender_first_message_wins() {
    let cache = vec![SenderEntry {
        account: Account::new("@alice".to_string()),
        twitter_id: TwitterId(7),
        init_msg: true,
    }];
    let messages = vec![
        msg(7, "first", 1),
        msg(9, "unknown sender", 2),
        msg(7, "second from alice", 3),
        msg(9, "again unknown", 4),
    ];
    let (resolved, to_lookup) = plan_lookups(&messages, &cache);
    assert_eq!(resolved.len(), 1);
    assert_eq!(resolved[0].account.as_str(), "@alice");
    assert!(resolved[0].init_msg);
    assert_eq!(to_lookup.len(), 1);
    assert_eq!(to_lookup[0].as_u64(), 9);
}

#[test]
fn merge_lookups_appends_with_handshake_pending() {
    let mut resolved = Vec::new();
    merge_lookups(
        &mut resolved,
        vec![SenderEntry {
            account: Account::new("@bob".to_string()),
            twitter_id: TwitterId(9),
            init_msg: true,
        }],
    );
    assert_eq!(resolved.len(), 1);
    assert!(!resolved[0].init_msg);
}

#[test]
fn cache_lookup_finds_first_record() {
    let cache = vec![
        SenderEntry {
            account: Account::new("@a".to_string()),
            twitter_id: TwitterId(7),
            init_msg: false,
        },
        SenderEntry {
            account: Account::new("@b".to_string()),
            twitter_id: TwitterId(8),
            init_msg: true,
        },
    ];
    assert_eq!(cache_lookup(&cache, &TwitterId(8)).unwrap().account.as_str(), "@b");
    assert!(cache_lookup(&cache, &TwitterId(99)).is_none());
}

#[test]
fn messages_of_sender_keeps_arrival_order() {
    let messages = vec![msg(7, "one", 1), msg(8, "other", 2), msg(7, "two", 3)];
    let texts = messages_of_sender(&messages, &TwitterId(7));
    assert_eq!(texts, vec!["one".to_string(), "two".to_string()]);
}

#[test]
fn init_message_contains_the_token_verbatim() {
    let text = init_message(&Challenge::new("ABC123".to_string()));
    assert!(text.contains("ABC123"));
}

#[test]
fn response_messages_cover_all_outcomes() {
    let vi = response_message(true, true);
    let v = response_message(true, false);
    let i = response_message(false, true);
    let n = response_message(false, false);
    assert_ne!(vi, v);
    assert_ne!(v, i);
    assert_ne!(i, n);
    assert_ne!(vi, n);
}

#[test]
fn first_contact_sends_initiation_and_confirms_induction() {
    let mut state = IdentityState {
        identities: vec![identity_with_twitter("alice-key", "@alice", "ABC123")],
    };
    let entry = SenderEntry {
        account: Account::new("@alice".to_string()),
        twitter_id: TwitterId(42),
        init_msg: false,
    };
    let messages = vec![msg(42, "hi there", 5)];
    let (actions, events) = process_sender(&mut state, &entry, &messages);
    assert!(events.is_empty());
    assert_eq!(actions.len(), 2);
    match &actions[0] {
        TwitterAction::SendMessage { recipient, text } => {
            assert_eq!(recipient.as_u64(), 42);
            assert!(text.contains("ABC123"));
        }
        other => panic!("expected an initiation message, got {:?}", other),
    }
    match &actions[1] {
        TwitterAction::ConfirmInit { account } => assert_eq!(account.as_str(), "@alice"),
        other => panic!("expected a handshake confirmation, got {:?}", other),
    }
    // The first-contact message itself is never verified.
    assert!(!state.is_fully_verified(&IdentityAddress::new("alice-key".to_string())));
}

#[test]
fn induced_sender_is_verified_and_answered_once() {
    let mut state = IdentityState {
        identities: vec![identity_with_twitter("alice-key", "@alice", "ABC123")],
    };
    let entry = SenderEntry {
        account: Account::new("@alice".to_string()),
        twitter_id: TwitterId(42),
        init_msg: true,
    };
    let messages = vec![msg(42, "please verify ABC123 thanks", 6)];
    let (actions, events) = process_sender(&mut state, &entry, &messages);
    assert_eq!(events.len(), 1);
    assert!(events[0].is_valid);
    assert!(events[0].is_fully_verified);
    assert!(state.is_fully_verified(&IdentityAddress::new("alice-key".to_string())));
    // Accepted status, one upstream notification, one response.
    assert_eq!(actions.len(), 3);
    assert!(matches!(
        actions[0],
        TwitterAction::StatusChange { status: ChallengeStatus::Accepted, .. }
    ));
    assert!(matches!(actions[1], TwitterAction::NotifyStatusChange { .. }));
    let sends = actions
        .iter()
        .filter(|a| matches!(a, TwitterAction::SendMessage { .. }))
        .count();
    assert_eq!(sends, 1);
}

#[test]
fn tick_orders_outcomes_and_raises_watermark_once() {
    let mut state = IdentityState {
        identities: vec![identity_with_twitter("alice-key", "@alice", "ABC123")],
    };
    let mut watermarks = Watermarks::new();
    let entry = SenderEntry {
        account: Account::new("@alice".to_string()),
        twitter_id: TwitterId(42),
        init_msg: true,
    };
    let messages = vec![msg(42, "wrong guess", 7), msg(42, "now ABC123", 8)];
    let (actions, events) =
        handle_incoming_messages(&mut state, &mut watermarks, &messages, &vec![entry], 8);
    assert_eq!(events.len(), 2);
    assert!(!events[0].is_valid);
    assert!(events[1].is_valid);
    assert!(state.is_fully_verified(&IdentityAddress::new("alice-key".to_string())));
    assert_eq!(watermarks.select_watermark(AccountType::Twitter), 8);
    // Rejected then accepted status updates, in that order.
    assert!(matches!(
        actions[0],
        TwitterAction::StatusChange { status: ChallengeStatus::Rejected, .. }
    ));
    assert!(matches!(
        actions[1],
        TwitterAction::StatusChange { status: ChallengeStatus::Accepted, .. }
    ));
}

#[test]
fn watermark_never_goes_backwards() {
    let mut w = Watermarks::new();
    w.update_watermark(AccountType::Twitter, 10);
    assert_eq!(w.select_watermark(AccountType::Twitter), 10);
    w.update_watermark(AccountType::Twitter, 4);
    assert_eq!(w.select_watermark(AccountType::Twitter), 10);
    w.update_watermark(AccountType::Twitter, 25);
    assert_eq!(w.select_watermark(AccountType::Twitter), 25);
    assert_eq!(w.select_watermark(AccountType::Matrix), 0);
}

#[test]
fn join_ids_and_full_url_build_queries() {
    assert_eq!(join_ids(&vec![TwitterId(1), TwitterId(23)]), "1,23".to_string());
    assert_eq!(join_ids(&Vec::new()), "".to_string());
    assert_eq!(build_full_url("http://e.com/r", &Vec::new()), "http://e.com/r".to_string());
    let params = vec![
        OauthParam::new("a".to_string(), "1".to_string()),
        OauthParam::new("b".to_string(), "2".to_string()),
    ];
    assert_eq!(build_full_url("http://e.com/r", &params), "http://e.com/r?a=1&b=2".to_string());
}

#[test]
fn directory_answers_become_registered_accounts() {
    assert!(accounts_from_user_objects(Vec::new()).is_err());
    let entries = accounts_from_user_objects(vec![UserObject {
        id: TwitterId(5),
        screen_name: "bob".to_string(),
    }])
    .unwrap();
    assert_eq!(entries.len(), 1);
    assert_eq!(entries[0].account.as_str(), "@bob");
    assert_eq!(entries[0].twitter_id.as_u64(), 5);
    assert!(!entries[0].init_msg);
}

#[test]
fn twitter_id_parses_like_std() {
    assert_eq!(TwitterId::try_from_text("1308347585367867393").unwrap().as_u64(), 1308347585367867393);
    assert_eq!(TwitterId::try_from_text("+7").unwrap().as_u64(), 7);
    assert!(TwitterId::try_from_text("").is_err());
    assert!(TwitterId::try_from_text("12x").is_err());
    assert!(TwitterId::try_from_text("18446744073709551616").is_err());
    assert_eq!(
        TwitterId::try_from_text("18446744073709551615").unwrap().as_u64(),
        u64::MAX
    );
    assert_eq!(TwitterId::from(9u64).as_u64(), 9);
}
