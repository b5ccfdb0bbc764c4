use registrar::Account;
use registrar::AccountType;
use registrar::AddressContext;
use registrar::AddressState;
use registrar::AddressValidity;
use registrar::Challenge;
use registrar::CommsBus;
use registrar::CommsMessage;
use registrar::IdentityAddress;
use registrar::IdentityManager;
use registrar::ManagerAction;
use registrar::OnChainIdentity;
use registrar::RoomId;
use registrar::parse_u64;
use registrar::str_contains;
use registrar::u64_to_string;

fn matrix_identity(key: &str, addr: &str, token: &str) -> OnChainIdentity {
    let mut ident = OnChainIdentity::new(IdentityAddress::new(key.to_string()));
    ident.set_field(AddressState {
        addr: Account::new(addr.to_string()),
        addr_type: AccountType::Matrix,
        addr_validity: AddressValidity::Unknown,
        challenge: Challenge::new(token.to_string()),
        confirmed: false,
    });
    ident
}

#[test]
fn bus_queues_are_fifo_per_channel() {
    let mut bus = CommsBus::new();
    assert!(bus.next_inbound().is_none());
    assert!(bus.next_for_adapter(AccountType::Twitter).is_none());

    let ctx = |k: &str| AddressContext {
        pub_key: IdentityAddress::new(k.to_string()),
        address: Account::new("@x".to_string()),
        address_ty: AccountType::Twitter,
    };
    bus.send_to_adapter(AccountType::Twitter, CommsMessage::ValidAddress { context: ctx("k1") });
    bus.send_to_adapter(AccountType::Twitter, CommsMessage::InvalidAddress { context: ctx("k2") });
    bus.send_to_adapter(AccountType::Matrix, CommsMessage::ValidAddress { context: ctx("k3") });

    match bus.next_for_adapter(AccountType::Twitter).unwrap() {
        CommsMessage::ValidAddress { context } => assert_eq!(context.pub_key.as_str(), "k1"),
        other => panic!("wrong first message: {:?}", other),
    }
    match bus.next_for_adapter(AccountType::Twitter).unwrap() {
        CommsMessage::InvalidAddress { context } => assert_eq!(context.pub_key.as_str(), "k2"),
        other => panic!("wrong second message: {:?}", other),
    }
    assert!(bus.next_for_adapter(AccountType::Twitter).is_none());
    assert!(bus.next_for_adapter(AccountType::Matrix).is_some());
}

#[test]
fn feedback_lands_on_the_core_queue() {
    let mut bus = CommsBus::new();
    bus.valid_feedback(
        &IdentityAddress::new("k".to_string()),
        &Account::new("@a".to_string()),
        AccountType::Twitter,
    );
    bus.invalid_feedback(
        &IdentityAddress::new("k".to_string()),
        &Account::new("@a".to_string()),
        AccountType::Twitter,
    );
    assert!(matches!(bus.next_inbound().unwrap(), CommsMessage::ValidAddress { .. }));
    assert!(matches!(bus.next_inbound().unwrap(), CommsMessage::InvalidAddress { .. }));
    assert!(bus.next_inbound().is_none());
}

#[test]
fn register_request_is_idempotent_per_key() {
    let mut mgr = IdentityManager::new();
    let added = mgr.register_request(matrix_identity("k", "@m:server", "TOK"));
    assert!(added);
    let again = mgr.register_request(matrix_identity("k", "@m:server", "TOK"));
    assert!(!again);
    assert_eq!(mgr.idents.identities.len(), 1);
}

#[test]
fn admission_informs_the_matrix_adapter_with_binding() {
    let mut mgr = IdentityManager::new();
    mgr.bind_room(
        IdentityAddress::new("k".to_string()),
        RoomId::new("!room:server".to_string()),
    );
    let action = mgr.handle_message(CommsMessage::NewOnChainIdentity(matrix_identity(
        "k",
        "@m:server",
        "TOK",
    )));
    assert_eq!(action, ManagerAction::Registered { added: true });
    match mgr.comms.next_for_adapter(AccountType::Matrix).unwrap() {
        CommsMessage::Inform { context, challenge, room_id } => {
            assert_eq!(context.pub_key.as_str(), "k");
            assert_eq!(context.address.as_str(), "@m:server");
            assert_eq!(challenge.as_str(), "TOK");
            assert_eq!(room_id.unwrap().as_str(), "!room:server");
        }
        other => panic!("expected a challenge delivery, got {:?}", other),
    }
}

#[test]
fn newest_room_binding_shadows_older_ones() {
    let mut mgr = IdentityManager::new();
    mgr.bind_room(IdentityAddress::new("k".to_string()), RoomId::new("old".to_string()));
    mgr.bind_room(IdentityAddress::new("k".to_string()), RoomId::new("new".to_string()));
    assert_eq!(mgr.room_for(&IdentityAddress::new("k".to_string())).unwrap().as_str(), "new");
    assert!(mgr.room_for(&IdentityAddress::new("other".to_string())).is_none());
}

#[test]
fn run_once_drains_the_inbound_queue_in_order() {
    let mut mgr = IdentityManager::new();
    assert!(mgr.run_once().is_none());
    mgr.comms.send_to_core(CommsMessage::RoomId {
        pub_key: IdentityAddress::new("k".to_string()),
        room_id: RoomId::new("r".to_string()),
    });
    mgr.comms.send_to_core(CommsMessage::AccountToVerify {
        net_account: IdentityAddress::new("k".to_string()),
        account: Account::new("@a".to_string()),
    });
    assert_eq!(mgr.run_once(), Some(ManagerAction::RoomBound));
    assert_eq!(mgr.run_once(), Some(ManagerAction::Ignored));
    assert!(mgr.run_once().is_none());
}

#[test]
fn decimal_parse_and_format_roundtrip() {
    assert_eq!(parse_u64("0"), Some(0));
    assert_eq!(parse_u64("+123"), Some(123));
    assert_eq!(parse_u64("18446744073709551615"), Some(u64::MAX));
    assert_eq!(parse_u64("18446744073709551616"), None);
    assert_eq!(parse_u64(""), None);
    assert_eq!(parse_u64("+"), None);
    assert_eq!(parse_u64("12 "), None);
    assert_eq!(u64_to_string(0), "0".to_string());
    assert_eq!(u64_to_string(907), "907".to_string());
    assert_eq!(parse_u64(&u64_to_string(u64::MAX)), Some(u64::MAX));
}

#[test]
fn containment_is_exact_and_case_sensitive() {
    assert!(str_contains("hello ABC123 world", "ABC123"));
    assert!(!str_contains("hello abc123 world", "ABC123"));
    assert!(str_contains("anything", ""));
    assert!(!str_contains("", "x"));
    assert!(str_contains("xx", "xx"));
    assert!(!str_contains("x", "xx"));
}
