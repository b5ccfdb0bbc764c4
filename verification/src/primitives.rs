//! Immutable value types of the verification engine: accounts, challenges,
//! network addresses, channel types, and the configuration records handed in
//! by the host process.

use vstd::prelude::*;

verus! {

/// The chain a watcher connects to.
#[derive(Clone, Copy, PartialEq, Eq, Structural, Debug)]
pub enum ChainName {
    Polkadot,
    Kusama,
}

/// A channel type: which kind of external account or identity field a proof
/// concerns.
#[derive(Clone, Copy, PartialEq, Eq, Structural, Debug, Hash)]
pub enum AccountType {
    DisplayName,
    LegalName,
    Email,
    Web,
    Twitter,
    Matrix,
}

/// The verdict on one inbound proof message.
#[derive(Clone, Copy, PartialEq, Eq, Structural, Debug)]
pub enum VerificationStatus {
    Valid,
    Invalid,
}

/// Persisted challenge progress, as recorded per address and channel.
#[derive(Clone, Copy, PartialEq, Eq, Structural, Debug)]
pub enum ChallengeStatus {
    Unconfirmed,
    Accepted,
    Rejected,
}

/// An external identifier on some channel (a handle, an email address).
#[derive(Debug)]
pub struct Account(pub String);

impl View for Account {
    type V = Seq<char>;

    open spec fn view(&self) -> Seq<char> {
        self.0@
    }
}

impl Account {
    pub fn new(s: String) -> (r: Account)
        ensures
            r@ == s@,
    {
        Account(s)
    }

    pub fn as_str(&self) -> (r: &str)
        ensures
            r@ == self@,
    {
        self.0.as_str()
    }
}

impl Clone for Account {
    fn clone(&self) -> (r: Self)
        ensures
            r@ == self@,
    {
        Account(self.0.clone())
    }
}

impl PartialEq for Account {
    fn eq(&self, other: &Self) -> (r: bool) {
        self.0.eq(&other.0)
    }
}

impl vstd::std_specs::cmp::PartialEqSpecImpl for Account {
    open spec fn obeys_eq_spec() -> bool {
        true
    }

    open spec fn eq_spec(&self, other: &Self) -> bool {
        self@ == other@
    }
}

/// A one-time challenge token bound to one (address, field) pair. The token
/// must appear verbatim in the proof message.
#[derive(Debug)]
pub struct Challenge(pub String);

impl View for Challenge {
    type V = Seq<char>;

    open spec fn view(&self) -> Seq<char> {
        self.0@
    }
}

impl Challenge {
    pub fn new(s: String) -> (r: Challenge)
        ensures
            r@ == s@,
    {
        Challenge(s)
    }

    pub fn as_str(&self) -> (r: &str)
        ensures
            r@ == self@,
    {
        self.0.as_str()
    }
}

impl Clone for Challenge {
    fn clone(&self) -> (r: Self)
        ensures
            r@ == self@,
    {
        Challenge(self.0.clone())
    }
}

impl PartialEq for Challenge {
    fn eq(&self, other: &Self) -> (r: bool) {
        self.0.eq(&other.0)
    }
}

impl vstd::std_specs::cmp::PartialEqSpecImpl for Challenge {
    open spec fn obeys_eq_spec() -> bool {
        true
    }

    open spec fn eq_spec(&self, other: &Self) -> bool {
        self@ == other@
    }
}

/// The on-chain address (public key) an identity is registered under.
#[derive(Debug)]
pub struct IdentityAddress(pub String);

impl View for IdentityAddress {
    type V = Seq<char>;

    open spec fn view(&self) -> Seq<char> {
        self.0@
    }
}

impl IdentityAddress {
    pub fn new(s: String) -> (r: IdentityAddress)
        ensures
            r@ == s@,
    {
        IdentityAddress(s)
    }

    pub fn as_str(&self) -> (r: &str)
        ensures
            r@ == self@,
    {
        self.0.as_str()
    }
}

impl Clone for IdentityAddress {
    fn clone(&self) -> (r: Self)
        ensures
            r@ == self@,
    {
        IdentityAddress(self.0.clone())
    }
}

impl PartialEq for IdentityAddress {
    fn eq(&self, other: &Self) -> (r: bool) {
        self.0.eq(&other.0)
    }
}

impl vstd::std_specs::cmp::PartialEqSpecImpl for IdentityAddress {
    open spec fn obeys_eq_spec() -> bool {
        true
    }

    open spec fn eq_spec(&self, other: &Self) -> bool {
        self@ == other@
    }
}

/// An opaque channel session identifier (a chat room binding).
#[derive(Debug)]
pub struct RoomId(pub String);

impl View for RoomId {
    type V = Seq<char>;

    open spec fn view(&self) -> Seq<char> {
        self.0@
    }
}

impl RoomId {
    pub fn new(s: String) -> (r: RoomId)
        ensures
            r@ == s@,
    {
        RoomId(s)
    }

    pub fn as_str(&self) -> (r: &str)
        ensures
            r@ == self@,
    {
        self.0.as_str()
    }
}

impl Clone for RoomId {
    fn clone(&self) -> (r: Self)
        ensures
            r@ == self@,
    {
        RoomId(self.0.clone())
    }
}

/// Connection details of the persistent store.
pub struct DatabaseConfig {
    pub uri: String,
    pub db_name: String,
}

/// One chain watcher endpoint.
pub struct WatcherConfig {
    pub network: ChainName,
    pub endpoint: String,
}

/// Matrix adapter settings.
pub struct MatrixConfig {
    pub enabled: bool,
    pub homeserver: String,
    pub username: String,
    pub password: String,
    pub db_path: String,
}

/// Twitter adapter settings.
pub struct TwitterConfig {
    pub enabled: bool,
    pub api_key: String,
    pub api_secret: String,
    pub token: String,
    pub token_secret: String,
    pub request_interval: u64,
}

/// Email adapter settings.
pub struct EmailConfig {
    pub enabled: bool,
    pub smtp_server: String,
    pub imap_server: String,
    pub inbox: String,
    pub user: String,
    pub password: String,
    pub request_interval: u64,
}

} // verus!
