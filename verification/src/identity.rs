//! The identity state store: per-identity, per-field verification records,
//! the matching logic that judges an inbound proof message against live
//! challenges, and the single write path (`set_verified`) used by the
//! aggregate when an event is accepted.

use vstd::prelude::*;

use crate::primitives::Account;
use crate::primitives::AccountType;
use crate::primitives::Challenge;
use crate::primitives::IdentityAddress;
use crate::primitives::VerificationStatus;
use crate::strutil::text_contains;
use crate::strutil::str_contains;

verus! {

/// Validity of one identity field: resolved to `Valid` or `Invalid` by the
/// engine, `Unknown` until then.
#[derive(Clone, Copy, PartialEq, Eq, Structural, Debug)]
pub enum AddressValidity {
    Unknown,
    Valid,
    Invalid,
}

/// Mathematical model of an `AddressState`.
pub ghost struct AddressStateView {
    pub addr: Seq<char>,
    pub addr_type: AccountType,
    pub addr_validity: AddressValidity,
    pub challenge: Seq<char>,
    pub confirmed: bool,
}

/// Per-identity, per-field verification record: the external address, its
/// validity, its challenge, and whether the channel's first-contact
/// handshake has completed.
#[derive(Debug)]
pub struct AddressState {
    pub addr: Account,
    pub addr_type: AccountType,
    pub addr_validity: AddressValidity,
    pub challenge: Challenge,
    pub confirmed: bool,
}

impl View for AddressState {
    type V = AddressStateView;

    open spec fn view(&self) -> AddressStateView {
        AddressStateView {
            addr: self.addr@,
            addr_type: self.addr_type,
            addr_validity: self.addr_validity,
            challenge: self.challenge@,
            confirmed: self.confirmed,
        }
    }
}

impl AddressState {
    /// A fresh record: validity `Unknown`, handshake not yet confirmed.
    pub fn new(addr: Account, addr_type: AccountType, challenge: Challenge) -> (r: AddressState)
        ensures
            r@.addr == addr@,
            r@.addr_type == addr_type,
            r@.addr_validity == AddressValidity::Unknown,
            r@.challenge == challenge@,
            r@.confirmed == false,
    {
        AddressState {
            addr,
            addr_type,
            addr_validity: AddressValidity::Unknown,
            challenge,
            confirmed: false,
        }
    }
}

impl Clone for AddressState {
    fn clone(&self) -> (r: Self)
        ensures
            r@ == self@,
    {
        AddressState {
            addr: self.addr.clone(),
            addr_type: self.addr_type,
            addr_validity: self.addr_validity,
            challenge: self.challenge.clone(),
            confirmed: self.confirmed,
        }
    }
}

pub open spec fn state_opt_view(o: Option<AddressState>) -> Option<AddressStateView> {
    match o {
        Some(s) => Some(s@),
        None => None,
    }
}

/// Mathematical model of an `OnChainIdentity`.
pub ghost struct IdentityView {
    pub pub_key: Seq<char>,
    pub display_name: Option<AddressStateView>,
    pub legal_name: Option<AddressStateView>,
    pub email: Option<AddressStateView>,
    pub web: Option<AddressStateView>,
    pub twitter: Option<AddressStateView>,
    pub matrix: Option<AddressStateView>,
}

/// An on-chain identity: a public key plus one optional verification record
/// per supported field type.
#[derive(Debug)]
pub struct OnChainIdentity {
    pub pub_key: IdentityAddress,
    pub display_name: Option<AddressState>,
    pub legal_name: Option<AddressState>,
    pub email: Option<AddressState>,
    pub web: Option<AddressState>,
    pub twitter: Option<AddressState>,
    pub matrix: Option<AddressState>,
}

impl View for OnChainIdentity {
    type V = IdentityView;

    open spec fn view(&self) -> IdentityView {
        IdentityView {
            pub_key: self.pub_key@,
            display_name: state_opt_view(self.display_name),
            legal_name: state_opt_view(self.legal_name),
            email: state_opt_view(self.email),
            web: state_opt_view(self.web),
            twitter: state_opt_view(self.twitter),
            matrix: state_opt_view(self.matrix),
        }
    }
}

fn clone_state_opt(o: &Option<AddressState>) -> (r: Option<AddressState>)
    ensures
        state_opt_view(r) == state_opt_view(*o),
{
    match o {
        Some(s) => Some(s.clone()),
        None => None,
    }
}

impl OnChainIdentity {
    /// An identity with no registered fields yet.
    pub fn new(pub_key: IdentityAddress) -> (r: OnChainIdentity)
        ensures
            r@.pub_key == pub_key@,
            r@.display_name is None,
            r@.legal_name is None,
            r@.email is None,
            r@.web is None,
            r@.twitter is None,
            r@.matrix is None,
    {
        OnChainIdentity {
            pub_key,
            display_name: None,
            legal_name: None,
            email: None,
            web: None,
            twitter: None,
            matrix: None,
        }
    }

    /// Store a record into the slot for `ty`, regardless of the record's
    /// own channel type.
    fn put_slot(&mut self, ty: AccountType, state: AddressState)
        ensures
            final(self)@ == set_slot(old(self)@, ty, Some(state@)),
    {
        match ty {
            AccountType::DisplayName => {
                self.display_name = Some(state);
            },
            AccountType::LegalName => {
                self.legal_name = Some(state);
            },
            AccountType::Email => {
                self.email = Some(state);
            },
            AccountType::Web => {
                self.web = Some(state);
            },
            AccountType::Twitter => {
                self.twitter = Some(state);
            },
            AccountType::Matrix => {
                self.matrix = Some(state);
            },
        }
    }

    /// Register (or replace) the record in the slot that matches the
    /// record's own channel type.
    pub fn set_field(&mut self, state: AddressState)
        ensures
            final(self)@ == set_slot(old(self)@, state@.addr_type, Some(state@)),
    {
        match state.addr_type {
            AccountType::DisplayName => {
                self.display_name = Some(state);
            },
            AccountType::LegalName => {
                self.legal_name = Some(state);
            },
            AccountType::Email => {
                self.email = Some(state);
            },
            AccountType::Web => {
                self.web = Some(state);
            },
            AccountType::Twitter => {
                self.twitter = Some(state);
            },
            AccountType::Matrix => {
                self.matrix = Some(state);
            },
        }
    }
}

impl Clone for OnChainIdentity {
    fn clone(&self) -> (r: Self)
        ensures
            r@ == self@,
    {
        OnChainIdentity {
            pub_key: self.pub_key.clone(),
            display_name: clone_state_opt(&self.display_name),
            legal_name: clone_state_opt(&self.legal_name),
            email: clone_state_opt(&self.email),
            web: clone_state_opt(&self.web),
            twitter: clone_state_opt(&self.twitter),
            matrix: clone_state_opt(&self.matrix),
        }
    }
}

/// The record an identity holds for a given channel type.
pub open spec fn slot(iv: IdentityView, ty: AccountType) -> Option<AddressStateView> {
    match ty {
        AccountType::DisplayName => iv.display_name,
        AccountType::LegalName => iv.legal_name,
        AccountType::Email => iv.email,
        AccountType::Web => iv.web,
        AccountType::Twitter => iv.twitter,
        AccountType::Matrix => iv.matrix,
    }
}

/// The identity with one slot replaced.
pub open spec fn set_slot(iv: IdentityView, ty: AccountType, s: Option<AddressStateView>) -> IdentityView {
    match ty {
        AccountType::DisplayName => IdentityView { display_name: s, ..iv },
        AccountType::LegalName => IdentityView { legal_name: s, ..iv },
        AccountType::Email => IdentityView { email: s, ..iv },
        AccountType::Web => IdentityView { web: s, ..iv },
        AccountType::Twitter => IdentityView { twitter: s, ..iv },
        AccountType::Matrix => IdentityView { matrix: s, ..iv },
    }
}

/// Mathematical model of an `IdentityField`.
pub ghost struct FieldView {
    pub addr_type: AccountType,
    pub account: Seq<char>,
}

/// Identifies which proof, on which channel, for which field an inbound
/// message is supposed to satisfy.
#[derive(Debug)]
pub struct IdentityField {
    pub addr_type: AccountType,
    pub account: Account,
}

impl View for IdentityField {
    type V = FieldView;

    open spec fn view(&self) -> FieldView {
        FieldView { addr_type: self.addr_type, account: self.account@ }
    }
}

impl IdentityField {
    pub fn new(addr_type: AccountType, account: Account) -> (r: IdentityField)
        ensures
            r@.addr_type == addr_type,
            r@.account == account@,
    {
        IdentityField { addr_type, account }
    }
}

impl Clone for IdentityField {
    fn clone(&self) -> (r: Self)
        ensures
            r@ == self@,
    {
        IdentityField { addr_type: self.addr_type, account: self.account.clone() }
    }
}

impl From<(AccountType, Account)> for IdentityField {
    fn from(t: (AccountType, Account)) -> (r: IdentityField) {
        IdentityField { addr_type: t.0, account: t.1 }
    }
}

impl vstd::std_specs::convert::FromSpecImpl<(AccountType, Account)> for IdentityField {
    open spec fn obeys_from_spec() -> bool {
        true
    }

    open spec fn from_spec(t: (AccountType, Account)) -> IdentityField {
        IdentityField { addr_type: t.0, account: t.1 }
    }
}

/// Mathematical model of a `VerificationOutcome`.
pub ghost struct OutcomeView {
    pub net_address: Seq<char>,
    pub status: VerificationStatus,
    pub expected_message: Seq<char>,
}

/// Transient result of matching one inbound message against one identity's
/// live challenge: who it was for, the verdict, and the expected text.
#[derive(Debug)]
pub struct VerificationOutcome {
    pub net_address: IdentityAddress,
    pub status: VerificationStatus,
    pub expected_message: String,
}

impl View for VerificationOutcome {
    type V = OutcomeView;

    open spec fn view(&self) -> OutcomeView {
        OutcomeView {
            net_address: self.net_address@,
            status: self.status,
            expected_message: self.expected_message@,
        }
    }
}

impl Clone for VerificationOutcome {
    fn clone(&self) -> (r: Self)
        ensures
            r@ == self@,
    {
        VerificationOutcome {
            net_address: self.net_address.clone(),
            status: self.status,
            expected_message: self.expected_message.clone(),
        }
    }
}

/// Does this identity hold an unresolved record that `field` addresses?
/// Fields already `Valid` are never candidates (idempotence), nor are
/// unregistered addresses.
pub open spec fn is_candidate(iv: IdentityView, field: FieldView) -> bool {
    match slot(iv, field.addr_type) {
        Some(s) => s.addr == field.account && s.addr_validity != AddressValidity::Valid,
        None => false,
    }
}

/// The verdict for a candidate: `Valid` exactly when the challenge token
/// appears verbatim in the provided text.
pub open spec fn judge(challenge: Seq<char>, provided: Seq<char>) -> VerificationStatus {
    if text_contains(provided, challenge) {
        VerificationStatus::Valid
    } else {
        VerificationStatus::Invalid
    }
}

/// The outcome produced for one candidate identity.
pub open spec fn outcome_of(iv: IdentityView, field: FieldView, provided: Seq<char>) -> OutcomeView {
    let s = slot(iv, field.addr_type)->0;
    OutcomeView {
        net_address: iv.pub_key,
        status: judge(s.challenge, provided),
        expected_message: s.challenge,
    }
}

/// The outcomes contributed by one identity: one if it is a candidate,
/// none otherwise.
pub open spec fn one_outcome(iv: IdentityView, field: FieldView, provided: Seq<char>) -> Seq<OutcomeView> {
    if is_candidate(iv, field) {
        seq![outcome_of(iv, field, provided)]
    } else {
        Seq::empty()
    }
}

/// All outcomes of scanning the identities in order.
pub open spec fn spec_outcomes(
    idents: Seq<IdentityView>,
    field: FieldView,
    provided: Seq<char>,
) -> Seq<OutcomeView>
    decreases idents.len(),
{
    if idents.len() == 0 {
        Seq::empty()
    } else {
        spec_outcomes(idents.drop_last(), field, provided) + one_outcome(
            idents.last(),
            field,
            provided,
        )
    }
}

/// Is every registered field of this identity `Valid`?
pub open spec fn ident_fully_verified(iv: IdentityView) -> bool {
    &&& slot_resolved(iv.display_name)
    &&& slot_resolved(iv.legal_name)
    &&& slot_resolved(iv.email)
    &&& slot_resolved(iv.web)
    &&& slot_resolved(iv.twitter)
    &&& slot_resolved(iv.matrix)
}

pub open spec fn slot_resolved(o: Option<AddressStateView>) -> bool {
    match o {
        Some(s) => s.addr_validity == AddressValidity::Valid,
        None => true,
    }
}

/// Is the identity registered under `addr` fully verified? False when no
/// identity holds that address.
pub open spec fn spec_fully_verified(idents: Seq<IdentityView>, addr: Seq<char>) -> bool {
    exists|i: int|
        0 <= i < idents.len() && (#[trigger] idents[i]).pub_key == addr && ident_fully_verified(
            idents[i],
        )
}

/// One identity after `set_verified(addr, field)`: the addressed slot is
/// flipped to `Valid` when it exists and matches, everything else is kept.
pub open spec fn set_verified_ident(iv: IdentityView, addr: Seq<char>, field: FieldView) -> IdentityView {
    if iv.pub_key == addr && is_candidate(iv, field) {
        let s = slot(iv, field.addr_type)->0;
        set_slot(iv, field.addr_type, Some(AddressStateView { addr_validity: AddressValidity::Valid, ..s }))
    } else {
        iv
    }
}

/// The whole store after `set_verified(addr, field)`.
pub open spec fn spec_set_verified(
    idents: Seq<IdentityView>,
    addr: Seq<char>,
    field: FieldView,
) -> Seq<IdentityView> {
    idents.map_values(|iv: IdentityView| set_verified_ident(iv, addr, field))
}

/// No two identities share a public key.
pub open spec fn wf_idents(idents: Seq<IdentityView>) -> bool {
    forall|i: int, j: int|
        0 <= i < j < idents.len() ==> (#[trigger] idents[i]).pub_key != (#[trigger] idents[j]).pub_key
}

/// The identities that still await verification.
pub open spec fn spec_pending(idents: Seq<IdentityView>) -> Seq<IdentityView>
    decreases idents.len(),
{
    if idents.len() == 0 {
        Seq::empty()
    } else {
        spec_pending(idents.drop_last()) + (if !ident_fully_verified(idents.last()) {
            seq![idents.last()]
        } else {
            Seq::empty()
        })
    }
}

proof fn lemma_outcomes_none(idents: Seq<IdentityView>, field: FieldView, provided: Seq<char>)
    requires
        forall|j: int| 0 <= j < idents.len() ==> !is_candidate(#[trigger] idents[j], field),
    ensures
        spec_outcomes(idents, field, provided) =~= Seq::<OutcomeView>::empty(),
    decreases idents.len(),
{
    if idents.len() > 0 {
        assert(forall|j: int|
            0 <= j < idents.drop_last().len() ==> idents.drop_last()[j] == idents[j]);
        lemma_outcomes_none(idents.drop_last(), field, provided);
        assert(!is_candidate(idents.last(), field));
    }
}

proof fn lemma_outcomes_unique_candidate(
    idents: Seq<IdentityView>,
    field: FieldView,
    provided: Seq<char>,
    i: int,
)
    requires
        0 <= i < idents.len(),
        is_candidate(idents[i], field),
        forall|j: int|
            0 <= j < idents.len() && j != i ==> !is_candidate(#[trigger] idents[j], field),
    ensures
        spec_outcomes(idents, field, provided) =~= seq![
            outcome_of(idents[i], field, provided),
        ],
    decreases idents.len(),
{
    assert(forall|j: int| 0 <= j < idents.drop_last().len() ==> idents.drop_last()[j] == idents[j]);
    if i == idents.len() - 1 {
        lemma_outcomes_none(idents.drop_last(), field, provided);
    } else {
        lemma_outcomes_unique_candidate(idents.drop_last(), field, provided, i);
        assert(!is_candidate(idents.last(), field));
    }
}

/// After a field is flipped to `Valid`, the identity addressed by that flip
/// is no longer a candidate for it.
proof fn lemma_set_verified_resolves(iv: IdentityView, field: FieldView)
    ensures
        !is_candidate(set_verified_ident(iv, iv.pub_key, field), field),
{
    if is_candidate(iv, field) {
        let s = slot(iv, field.addr_type)->0;
        let updated = set_slot(
            iv,
            field.addr_type,
            Some(AddressStateView { addr_validity: AddressValidity::Valid, ..s }),
        );
        assert(slot(updated, field.addr_type) == Some(
            AddressStateView { addr_validity: AddressValidity::Valid, ..s },
        ));
    }
}

/// A field whose challenge is answered with its own token, while still
/// unresolved, yields exactly one outcome, and that outcome is `Valid`;
/// `set_verified` then mutates exactly that one identity's addressed slot;
/// and resending the same token afterwards yields no outcome at all.
pub proof fn lemma_correct_token_verifies_once(
    idents: Seq<IdentityView>,
    field: FieldView,
    provided: Seq<char>,
    i: int,
)
    requires
        0 <= i < idents.len(),
        is_candidate(idents[i], field),
        forall|j: int|
            0 <= j < idents.len() && j != i ==> !is_candidate(#[trigger] idents[j], field),
        text_contains(provided, slot(idents[i], field.addr_type)->0.challenge),
    ensures
        spec_outcomes(idents, field, provided) =~= seq![
            outcome_of(idents[i], field, provided),
        ],
        outcome_of(idents[i], field, provided).status == VerificationStatus::Valid,
        spec_set_verified(idents, idents[i].pub_key, field).len() == idents.len(),
        forall|j: int|
            0 <= j < idents.len() && j != i ==> spec_set_verified(
                idents,
                idents[i].pub_key,
                field,
            )[j] == idents[j],
        spec_set_verified(idents, idents[i].pub_key, field)[i] == set_slot(
            idents[i],
            field.addr_type,
            Some(
                AddressStateView {
                    addr_validity: AddressValidity::Valid,
                    ..slot(idents[i], field.addr_type)->0
                },
            ),
        ),
        spec_outcomes(spec_set_verified(idents, idents[i].pub_key, field), field, provided)
            =~= Seq::<OutcomeView>::empty(),
{
    lemma_outcomes_unique_candidate(idents, field, provided, i);
    let addr = idents[i].pub_key;
    let after = spec_set_verified(idents, addr, field);
    assert(after.len() == idents.len());
    assert(forall|j: int|
        0 <= j < idents.len() && j != i ==> after[j] == set_verified_ident(
            #[trigger] idents[j],
            addr,
            field,
        ) && after[j] == idents[j]);
    assert(after[i] == set_verified_ident(idents[i], addr, field));
    assert forall|j: int| 0 <= j < after.len() implies !is_candidate(#[trigger] after[j], field) by {
        if j == i {
            lemma_set_verified_resolves(idents[i], field);
        }
    }
    lemma_outcomes_none(after, field, provided);
}

/// A provided text that does not contain the expected token can only be
/// judged `Invalid`: every outcome of the scan carries status `Invalid`.
pub proof fn lemma_wrong_token_all_invalid(
    idents: Seq<IdentityView>,
    field: FieldView,
    provided: Seq<char>,
)
    requires
        forall|j: int|
            0 <= j < idents.len() && is_candidate(#[trigger] idents[j], field)
                ==> !text_contains(provided, slot(idents[j], field.addr_type)->0.challenge),
    ensures
        forall|k: int|
            0 <= k < spec_outcomes(idents, field, provided).len() ==> (#[trigger] spec_outcomes(
                idents,
                field,
                provided,
            )[k]).status == VerificationStatus::Invalid,
    decreases idents.len(),
{
    if idents.len() > 0 {
        assert(forall|j: int|
            0 <= j < idents.drop_last().len() ==> idents.drop_last()[j] == idents[j]);
        lemma_wrong_token_all_invalid(idents.drop_last(), field, provided);
        let rest = spec_outcomes(idents.drop_last(), field, provided);
        let whole = spec_outcomes(idents, field, provided);
        assert(whole == rest + one_outcome(idents.last(), field, provided));
        assert(forall|k: int| 0 <= k < rest.len() ==> whole[k] == rest[k]);
        if is_candidate(idents.last(), field) {
            assert(idents.last() == idents[idents.len() - 1]);
            assert(whole[whole.len() - 1] == outcome_of(idents.last(), field, provided));
        }
    }
}

/// `set_verified` never changes a public key, so key uniqueness survives it.
pub proof fn lemma_set_verified_preserves_wf(
    idents: Seq<IdentityView>,
    addr: Seq<char>,
    field: FieldView,
)
    requires
        wf_idents(idents),
    ensures
        wf_idents(spec_set_verified(idents, addr, field)),
{
    let after = spec_set_verified(idents, addr, field);
    assert forall|i: int| 0 <= i < after.len() implies (#[trigger] after[i]).pub_key
        == idents[i].pub_key by {
        assert(after[i] == set_verified_ident(idents[i], addr, field));
    }
}

/// An identity that is fully verified stays fully verified under
/// `set_verified`: the engine's only mutation never un-verifies a field.
pub proof fn lemma_fully_verified_monotonic(
    idents: Seq<IdentityView>,
    addr: Seq<char>,
    target: Seq<char>,
    field: FieldView,
)
    requires
        spec_fully_verified(idents, addr),
    ensures
        spec_fully_verified(spec_set_verified(idents, target, field), addr),
{
    let i = choose|i: int|
        0 <= i < idents.len() && (#[trigger] idents[i]).pub_key == addr && ident_fully_verified(
            idents[i],
        );
    let after = spec_set_verified(idents, target, field);
    assert(after[i] == set_verified_ident(idents[i], target, field));
    if idents[i].pub_key == target && is_candidate(idents[i], field) {
        let s = slot(idents[i], field.addr_type)->0;
        assert(s.addr_validity == AddressValidity::Valid);
    }
    assert(after[i] == idents[i]);
}

/// In-memory projection of all tracked on-chain identities and their field
/// verification status.
pub struct IdentityState {
    pub identities: Vec<OnChainIdentity>,
}

impl View for IdentityState {
    type V = Seq<IdentityView>;

    open spec fn view(&self) -> Seq<IdentityView> {
        self.identities@.map_values(|ident: OnChainIdentity| ident@)
    }
}

/// The record an identity holds for a given channel type.
fn field_of<'a>(ident: &'a OnChainIdentity, ty: AccountType) -> (r: &'a Option<AddressState>)
    ensures
        state_opt_view(*r) == slot(ident@, ty),
{
    match ty {
        AccountType::DisplayName => &ident.display_name,
        AccountType::LegalName => &ident.legal_name,
        AccountType::Email => &ident.email,
        AccountType::Web => &ident.web,
        AccountType::Twitter => &ident.twitter,
        AccountType::Matrix => &ident.matrix,
    }
}

/// Is every registered field of this identity `Valid`?
pub fn identity_verified(ident: &OnChainIdentity) -> (r: bool)
    ensures
        r == ident_fully_verified(ident@),
{
    let mut ok = true;
    match &ident.display_name {
        Some(s) => {
            ok = ok && matches!(s.addr_validity, AddressValidity::Valid);
        },
        None => {},
    }
    match &ident.legal_name {
        Some(s) => {
            ok = ok && matches!(s.addr_validity, AddressValidity::Valid);
        },
        None => {},
    }
    match &ident.email {
        Some(s) => {
            ok = ok && matches!(s.addr_validity, AddressValidity::Valid);
        },
        None => {},
    }
    match &ident.web {
        Some(s) => {
            ok = ok && matches!(s.addr_validity, AddressValidity::Valid);
        },
        None => {},
    }
    match &ident.twitter {
        Some(s) => {
            ok = ok && matches!(s.addr_validity, AddressValidity::Valid);
        },
        None => {},
    }
    match &ident.matrix {
        Some(s) => {
            ok = ok && matches!(s.addr_validity, AddressValidity::Valid);
        },
        None => {},
    }
    ok
}

impl IdentityState {
    /// An empty store.
    pub fn new() -> (r: IdentityState)
        ensures
            r@ =~= Seq::<IdentityView>::empty(),
    {
        IdentityState { identities: Vec::new() }
    }

    pub open spec fn wf(&self) -> bool {
        wf_idents(self@)
    }

    /// Scan all tracked identities whose unresolved record matches `field`
    /// and judge `provided_message` against each one's challenge: the token
    /// must appear verbatim (exact substring containment). Already-`Valid`
    /// fields and unregistered addresses yield no outcome.
    pub fn verify_message(&self, field: &IdentityField, provided_message: &str) -> (r: Vec<
        VerificationOutcome,
    >)
        ensures
            r@.map_values(|o: VerificationOutcome| o@) =~= spec_outcomes(
                self@,
                field@,
                provided_message@,
            ),
    {
        let mut outs: Vec<VerificationOutcome> = Vec::new();
        let n = self.identities.len();
        let mut i: usize = 0;
        proof {
            assert(self@.take(0) =~= Seq::<IdentityView>::empty());
        }
        while i < n
            invariant
                n == self.identities.len(),
                i <= n,
                self@.len() == n,
                forall|k: int| 0 <= k < n ==> self@[k] == (#[trigger] self.identities@[k])@,
                outs@.map_values(|o: VerificationOutcome| o@) =~= spec_outcomes(
                    self@.take(i as int),
                    field@,
                    provided_message@,
                ),
            decreases n - i,
        {
            let ident = &self.identities[i];
            let ghost prev = outs@.map_values(|o: VerificationOutcome| o@);
            match field_of(ident, field.addr_type) {
                Some(st) => {
                    if st.addr == field.account && !matches!(
                        st.addr_validity,
                        AddressValidity::Valid,
                    ) {
                        assert(is_candidate(ident@, field@));
                        let matched = str_contains(provided_message, st.challenge.as_str());
                        let status = if matched {
                            VerificationStatus::Valid
                        } else {
                            VerificationStatus::Invalid
                        };
                        let outcome = VerificationOutcome {
                            net_address: ident.pub_key.clone(),
                            status,
                            expected_message: st.challenge.0.clone(),
                        };
                        assert(outcome@ == outcome_of(ident@, field@, provided_message@));
                        outs.push(outcome);
                        proof {
                            assert(outs@.map_values(|o: VerificationOutcome| o@) =~= prev + seq![
                                outcome_of(ident@, field@, provided_message@),
                            ]);
                        }
                    } else {
                        assert(!is_candidate(ident@, field@));
                    }
                },
                None => {
                    assert(!is_candidate(ident@, field@));
                },
            }
            proof {
                assert(self@.take(i + 1).drop_last() =~= self@.take(i as int));
                assert(self@.take(i + 1).last() == self@[i as int]);
            }
            i = i + 1;
        }
        proof {
            assert(self@.take(n as int) =~= self@);
        }
        outs
    }

    /// The only write path: flip the addressed, still-unresolved field of
    /// the identity at `net_address` to `Valid`. Invoked solely by the
    /// aggregate after an event is accepted.
    pub fn set_verified(&mut self, net_address: &IdentityAddress, field: &IdentityField)
        ensures
            final(self)@ =~= spec_set_verified(old(self)@, net_address@, field@),
    {
        let n = self.identities.len();
        let mut updated: Vec<OnChainIdentity> = Vec::new();
        let mut i: usize = 0;
        while i < n
            invariant
                n == self.identities.len(),
                i <= n,
                self@.len() == n,
                forall|k: int| 0 <= k < n ==> self@[k] == (#[trigger] self.identities@[k])@,
                updated@.len() == i,
                forall|k: int|
                    0 <= k < i ==> (#[trigger] updated@[k])@ == set_verified_ident(
                        self@[k],
                        net_address@,
                        field@,
                    ),
            decreases n - i,
        {
            let ident = &self.identities[i];
            let mut copy = ident.clone();
            let is_match = ident.pub_key == *net_address;
            if is_match {
                match field_of(ident, field.addr_type) {
                    Some(st) => {
                        if st.addr == field.account && !matches!(
                            st.addr_validity,
                            AddressValidity::Valid,
                        ) {
                            assert(is_candidate(ident@, field@));
                            let fresh = AddressState {
                                addr: st.addr.clone(),
                                addr_type: st.addr_type,
                                addr_validity: AddressValidity::Valid,
                                challenge: st.challenge.clone(),
                                confirmed: st.confirmed,
                            };
                            assert(fresh@ == AddressStateView {
                                addr_validity: AddressValidity::Valid,
                                ..slot(ident@, field@.addr_type)->0
                            });
                            copy.put_slot(field.addr_type, fresh);
                            proof {
                                assert(copy@ == set_verified_ident(ident@, net_address@, field@));
                            }
                        } else {
                            assert(!is_candidate(ident@, field@));
                        }
                    },
                    None => {
                        assert(!is_candidate(ident@, field@));
                    },
                }
            }
            updated.push(copy);
            i = i + 1;
        }
        self.identities = updated;
        proof {
            assert(final(self)@ =~= spec_set_verified(old(self)@, net_address@, field@));
        }
    }

    /// Is the identity at `net_address` fully verified: does it exist, with
    /// every registered field `Valid`?
    pub fn is_fully_verified(&self, net_address: &IdentityAddress) -> (r: bool)
        requires
            self.wf(),
        ensures
            r == spec_fully_verified(self@, net_address@),
    {
        let n = self.identities.len();
        let mut i: usize = 0;
        while i < n
            invariant
                n == self.identities.len(),
                i <= n,
                self@.len() == n,
                forall|k: int| 0 <= k < n ==> self@[k] == (#[trigger] self.identities@[k])@,
                forall|k: int| 0 <= k < i ==> (#[trigger] self@[k]).pub_key != net_address@
                    || !ident_fully_verified(self@[k]),
            decreases n - i,
        {
            let ident = &self.identities[i];
            if ident.pub_key == *net_address {
                if identity_verified(ident) {
                    return true;
                } else {
                    assert(!ident_fully_verified(self@[i as int]));
                }
            }
            i = i + 1;
        }
        false
    }

    /// All identities that still await verification, in store order.
    pub fn all_pending(&self) -> (r: Vec<OnChainIdentity>)
        ensures
            r@.map_values(|ident: OnChainIdentity| ident@) =~= spec_pending(self@),
    {
        let mut out: Vec<OnChainIdentity> = Vec::new();
        let n = self.identities.len();
        let mut i: usize = 0;
        proof {
            assert(self@.take(0) =~= Seq::<IdentityView>::empty());
        }
        while i < n
            invariant
                n == self.identities.len(),
                i <= n,
                self@.len() == n,
                forall|k: int| 0 <= k < n ==> self@[k] == (#[trigger] self.identities@[k])@,
                out@.map_values(|ident: OnChainIdentity| ident@) =~= spec_pending(
                    self@.take(i as int),
                ),
            decreases n - i,
        {
            let ident = &self.identities[i];
            let ghost prev = out@.map_values(|x: OnChainIdentity| x@);
            if !identity_verified(ident) {
                out.push(ident.clone());
                proof {
                    assert(out@.map_values(|x: OnChainIdentity| x@) =~= prev + seq![
                        self@[i as int],
                    ]);
                }
            }
            proof {
                assert(self@.take(i + 1).drop_last() =~= self@.take(i as int));
                assert(self@.take(i + 1).last() == self@[i as int]);
            }
            i = i + 1;
        }
        proof {
            assert(self@.take(n as int) =~= self@);
        }
        out
    }
}

} // verus!
