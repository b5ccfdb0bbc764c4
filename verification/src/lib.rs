//! Verification engine for an on-chain identity registrar.
//!
//! An on-chain identity proves ownership of off-chain accounts (social or
//! messaging handles, email) by echoing a one-time challenge token through
//! each account's native channel. This crate holds the verified core: the
//! challenge/proof data model, the per-field state machine that judges an
//! inbound message, the event-sourced aggregate that folds accepted events
//! onto identity state, the channel-multiplexing comms bus, and the
//! adapter-facing protocol logic (incremental polling watermarks and
//! OAuth 1.0a request signing).

mod aggregate;
mod comms;
mod identity;
mod oauth;
mod primitives;
mod strutil;
mod twitter;
mod watermark;

pub use primitives::Account;
pub use primitives::AccountType;
pub use primitives::ChainName;
pub use primitives::Challenge;
pub use primitives::ChallengeStatus;
pub use primitives::DatabaseConfig;
pub use primitives::EmailConfig;
pub use primitives::IdentityAddress;
pub use primitives::MatrixConfig;
pub use primitives::RoomId;
pub use primitives::TwitterConfig;
pub use primitives::VerificationStatus;
pub use primitives::WatcherConfig;

pub use identity::AddressState;
pub use identity::AddressValidity;
pub use identity::IdentityField;
pub use identity::IdentityState;
pub use identity::OnChainIdentity;
pub use identity::VerificationOutcome;
pub use identity::identity_verified;

pub use aggregate::ExternalMessage;
pub use aggregate::IdentityVerification;
pub use aggregate::VerifierAggregate;
pub use aggregate::VerifierAggregateId;
pub use aggregate::VerifierCommand;
pub use aggregate::VerifierError;

pub use comms::AddressContext;
pub use comms::CommsBus;
pub use comms::CommsMessage;
pub use comms::IdentityManager;
pub use comms::ManagerAction;
pub use comms::RoomBinding;

pub use oauth::OauthParam;
pub use oauth::authorization_header;
pub use oauth::signature_base_string;
pub use oauth::signed_digest;
pub use oauth::signing_key;

pub use twitter::ApiErrorObject;
pub use twitter::ApiEvent;
pub use twitter::ApiMessageCreate;
pub use twitter::ApiMessageData;
pub use twitter::ApiMessageEvent;
pub use twitter::ApiTarget;
pub use twitter::ReceivedMessageContext;
pub use twitter::SenderEntry;
pub use twitter::TwitterAction;
pub use twitter::TwitterApiError;
pub use twitter::TwitterError;
pub use twitter::TwitterId;
pub use twitter::UserObject;
pub use twitter::accounts_from_user_objects;
pub use twitter::build_full_url;
pub use twitter::cache_lookup;
pub use twitter::handle_incoming_messages;
pub use twitter::init_message;
pub use twitter::join_ids;
pub use twitter::merge_lookups;
pub use twitter::messages_of_sender;
pub use twitter::pending_challenge;
pub use twitter::plan_lookups;
pub use twitter::process_sender;
pub use twitter::response_message;

pub use strutil::parse_u64;
pub use strutil::str_contains;
pub use strutil::u64_to_string;

pub use watermark::Watermarks;
pub use watermark::lemma_watermark_fold;
