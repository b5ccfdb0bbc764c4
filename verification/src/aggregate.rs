//! The event-sourced aggregate: commands in, `IdentityVerification` events
//! out, and a separate fold that applies accepted events onto the identity
//! state store. The decision function (`handle`) is pure; the fold
//! (`apply`) is the only place the store is mutated. Replay of the same
//! events over the same starting state is deterministic by construction.

use vstd::prelude::*;

use crate::identity::AddressValidity;
use crate::identity::FieldView;
use crate::identity::IdentityField;
use crate::identity::IdentityState;
use crate::identity::IdentityView;
use crate::identity::OnChainIdentity;
use crate::identity::OutcomeView;
use crate::identity::VerificationOutcome;
use crate::identity::lemma_set_verified_preserves_wf;
use crate::identity::spec_fully_verified;
use crate::identity::spec_outcomes;
use crate::identity::spec_set_verified;
use crate::identity::wf_idents;
use crate::primitives::Account;
use crate::primitives::AccountType;
use crate::primitives::IdentityAddress;
use crate::primitives::VerificationStatus;
use crate::strutil::parse_u64;
use crate::strutil::spec_parse_u64;

verus! {

/// Mathematical model of an `ExternalMessage`.
pub ghost struct ExternalMessageView {
    pub origin: AccountType,
    pub field_address: Seq<char>,
    pub message: Seq<char>,
    pub id: Seq<char>,
    pub timestamp: Option<u64>,
}

/// One inbound unit of proof, produced by a channel adapter: where it came
/// from, which external address sent it, its raw text, and delivery
/// metadata (the sender's channel-native id, still unparsed, and the
/// receipt timestamp, which a malformed delivery may lack).
#[derive(Debug)]
pub struct ExternalMessage {
    pub origin: AccountType,
    pub field_address: Account,
    pub message: String,
    pub id: String,
    pub timestamp: Option<u64>,
}

impl View for ExternalMessage {
    type V = ExternalMessageView;

    open spec fn view(&self) -> ExternalMessageView {
        ExternalMessageView {
            origin: self.origin,
            field_address: self.field_address@,
            message: self.message@,
            id: self.id@,
            timestamp: self.timestamp,
        }
    }
}

impl Clone for ExternalMessage {
    fn clone(&self) -> (r: Self)
        ensures
            r@ == self@,
    {
        ExternalMessage {
            origin: self.origin,
            field_address: self.field_address.clone(),
            message: self.message.clone(),
            id: self.id.clone(),
            timestamp: self.timestamp,
        }
    }
}

/// Mathematical model of an `IdentityVerification`.
pub ghost struct IdentityVerificationView {
    pub net_address: Seq<char>,
    pub field: FieldView,
    pub expected_message: Seq<char>,
    pub provided_message: Seq<char>,
    pub is_valid: bool,
    pub is_fully_verified: bool,
}

/// The persisted, replayable fact: one judgment of one field of one
/// identity, with the expected and provided texts for audit, the verdict,
/// and whether the identity is fully verified once this event is applied
/// to the state the judgment was made against.
#[derive(Debug)]
pub struct IdentityVerification {
    pub net_address: IdentityAddress,
    pub field: IdentityField,
    pub expected_message: String,
    pub provided_message: String,
    pub is_valid: bool,
    pub is_fully_verified: bool,
}

impl View for IdentityVerification {
    type V = IdentityVerificationView;

    open spec fn view(&self) -> IdentityVerificationView {
        IdentityVerificationView {
            net_address: self.net_address@,
            field: self.field@,
            expected_message: self.expected_message@,
            provided_message: self.provided_message@,
            is_valid: self.is_valid,
            is_fully_verified: self.is_fully_verified,
        }
    }
}

impl Clone for IdentityVerification {
    fn clone(&self) -> (r: Self)
        ensures
            r@ == self@,
    {
        IdentityVerification {
            net_address: self.net_address.clone(),
            field: self.field.clone(),
            expected_message: self.expected_message.clone(),
            provided_message: self.provided_message.clone(),
            is_valid: self.is_valid,
            is_fully_verified: self.is_fully_verified,
        }
    }
}

/// A structurally invalid command: required delivery metadata is missing
/// or unreadable. Such a command fails as a whole; no event is emitted.
#[derive(Clone, Copy, PartialEq, Eq, Structural, Debug)]
pub enum VerifierError {
    UnparseableSenderId,
    MissingTimestamp,
}

impl VerifierError {
    /// A short description, for hosts that log or display the error.
    pub fn description(&self) -> (r: &'static str)
        ensures
            r@ == spec_description(*self),
            r@.len() > 0,
    {
        match self {
            VerifierError::UnparseableSenderId => {
                proof {
                    reveal_strlit("unparseable sender id in external message");
                }
                "unparseable sender id in external message"
            },
            VerifierError::MissingTimestamp => {
                proof {
                    reveal_strlit("missing timestamp in external message");
                }
                "missing timestamp in external message"
            },
        }
    }
}

/// The description of each command error.
pub open spec fn spec_description(e: VerifierError) -> Seq<char> {
    match e {
        VerifierError::UnparseableSenderId => "unparseable sender id in external message"@,
        VerifierError::MissingTimestamp => "missing timestamp in external message"@,
    }
}

/// Identifies the one verifier aggregate instance.
#[derive(Clone, Copy, PartialEq, Eq, Structural, Hash, Debug)]
pub struct VerifierAggregateId;

/// Commands accepted by the verifier aggregate.
#[derive(Debug)]
pub enum VerifierCommand {
    VerifyMessage(ExternalMessage),
    RequestState(IdentityAddress),
}

/// The field an inbound message addresses.
pub open spec fn msg_field(m: ExternalMessageView) -> FieldView {
    FieldView { addr_type: m.origin, account: m.field_address }
}

/// A structurally valid message: the sender id parses and the timestamp is
/// present.
pub open spec fn msg_ok(m: ExternalMessageView) -> bool {
    spec_parse_u64(m.id) is Some && m.timestamp is Some
}

/// The event recorded for one outcome, judged against the snapshot
/// `idents`: a valid outcome carries the fully-verified flag of the
/// identity as it stands once this one event is applied to that snapshot;
/// an invalid outcome mutates nothing and carries `false`.
pub open spec fn spec_event_of(
    o: OutcomeView,
    field: FieldView,
    provided: Seq<char>,
    idents: Seq<IdentityView>,
) -> IdentityVerificationView {
    IdentityVerificationView {
        net_address: o.net_address,
        field: field,
        expected_message: o.expected_message,
        provided_message: provided,
        is_valid: o.status == VerificationStatus::Valid,
        is_fully_verified: if o.status == VerificationStatus::Valid {
            spec_fully_verified(spec_set_verified(idents, o.net_address, field), o.net_address)
        } else {
            false
        },
    }
}

/// All events a structurally valid message produces against `idents`.
pub open spec fn spec_events_of_msg(
    idents: Seq<IdentityView>,
    m: ExternalMessageView,
) -> Seq<IdentityVerificationView> {
    spec_outcomes(idents, msg_field(m), m.message).map_values(
        |o: OutcomeView| spec_event_of(o, msg_field(m), m.message, idents),
    )
}

/// Folding one event: only an accepted (`is_valid`) event mutates the
/// store; a rejected event is history alone.
pub open spec fn spec_apply_one(
    idents: Seq<IdentityView>,
    e: IdentityVerificationView,
) -> Seq<IdentityView> {
    if e.is_valid {
        spec_set_verified(idents, e.net_address, e.field)
    } else {
        idents
    }
}

/// Folding a run of events, in order.
pub open spec fn spec_apply_events(
    idents: Seq<IdentityView>,
    evs: Seq<IdentityVerificationView>,
) -> Seq<IdentityView>
    decreases evs.len(),
{
    if evs.len() == 0 {
        idents
    } else {
        spec_apply_events(spec_apply_one(idents, evs[0]), evs.drop_first())
    }
}

pub proof fn lemma_apply_one_preserves_wf(idents: Seq<IdentityView>, e: IdentityVerificationView)
    requires
        wf_idents(idents),
    ensures
        wf_idents(spec_apply_one(idents, e)),
{
    if e.is_valid {
        lemma_set_verified_preserves_wf(idents, e.net_address, e.field);
    }
}

pub proof fn lemma_apply_events_preserves_wf(
    idents: Seq<IdentityView>,
    evs: Seq<IdentityVerificationView>,
)
    requires
        wf_idents(idents),
    ensures
        wf_idents(spec_apply_events(idents, evs)),
    decreases evs.len(),
{
    if evs.len() > 0 {
        lemma_apply_one_preserves_wf(idents, evs[0]);
        lemma_apply_events_preserves_wf(spec_apply_one(idents, evs[0]), evs.drop_first());
    }
}

fn clone_identities(v: &Vec<OnChainIdentity>) -> (r: Vec<OnChainIdentity>)
    ensures
        r@.map_values(|x: OnChainIdentity| x@) =~= v@.map_values(|x: OnChainIdentity| x@),
{
    let mut out: Vec<OnChainIdentity> = Vec::new();
    let mut i: usize = 0;
    while i < v.len()
        invariant
            i <= v@.len(),
            out@.len() == i,
            forall|k: int| 0 <= k < i ==> (#[trigger] out@[k])@ == v@[k]@,
        decreases v@.len() - i,
    {
        out.push(v[i].clone());
        i = i + 1;
    }
    out
}

/// The event-sourced verifier aggregate: a pure decision function
/// (`handle`) and a serialized fold (`apply`), never interleaved.
pub struct VerifierAggregate;

impl VerifierAggregate {
    /// Would the identity at `net_address` be fully verified once
    /// `set_verified(net_address, field)` is applied to this store?
    fn would_be_fully_verified(
        state: &IdentityState,
        net_address: &IdentityAddress,
        field: &IdentityField,
    ) -> (r: bool)
        requires
            state.wf(),
        ensures
            r == spec_fully_verified(
                spec_set_verified(state@, net_address@, field@),
                net_address@,
            ),
    {
        let mut scratch = IdentityState { identities: clone_identities(&state.identities) };
        assert(scratch@ =~= state@);
        scratch.set_verified(net_address, field);
        proof {
            lemma_set_verified_preserves_wf(state@, net_address@, field@);
        }
        scratch.is_fully_verified(net_address)
    }

    /// Judge one inbound message against the store: derive the identity
    /// field from the message's origin, scan for outcomes, and build one
    /// event per outcome, each flag computed against the same pre-command
    /// snapshot. A message that matches nothing yields `Ok(None)`; a
    /// structurally invalid message fails the whole command.
    pub fn handle_verify_message(state: &IdentityState, event: &ExternalMessage) -> (r: Result<
        Option<Vec<IdentityVerification>>,
        VerifierError,
    >)
        requires
            state.wf(),
        ensures
            r is Err <==> !msg_ok(event@),
            r == Result::<Option<Vec<IdentityVerification>>, VerifierError>::Err(
                VerifierError::UnparseableSenderId,
            ) <==> spec_parse_u64(event@.id) is None,
            (r == Result::<Option<Vec<IdentityVerification>>, VerifierError>::Err(
                VerifierError::MissingTimestamp,
            )) <==> (spec_parse_u64(event@.id) is Some && event@.timestamp is None),
            r is Ok ==> match r->Ok_0 {
                Some(events) => events@.map_values(|e: IdentityVerification| e@)
                    =~= spec_events_of_msg(state@, event@) && spec_events_of_msg(
                    state@,
                    event@,
                ).len() > 0,
                None => spec_events_of_msg(state@, event@).len() == 0,
            },
    {
        if parse_u64(self_id_str(event)).is_none() {
            return Err(VerifierError::UnparseableSenderId);
        }
        if event.timestamp.is_none() {
            return Err(VerifierError::MissingTimestamp);
        }
        let identity_field = IdentityField::from((event.origin, event.field_address.clone()));
        assert(identity_field@ == msg_field(event@));
        let outcomes = state.verify_message(&identity_field, event.message.as_str());
        let ghost outs = spec_outcomes(state@, msg_field(event@), event@.message);
        let mut events: Vec<IdentityVerification> = Vec::new();
        let n = outcomes.len();
        let mut i: usize = 0;
        while i < n
            invariant
                state.wf(),
                n == outcomes.len(),
                i <= n,
                identity_field@ == msg_field(event@),
                outs == spec_outcomes(state@, msg_field(event@), event@.message),
                outcomes@.map_values(|o: VerificationOutcome| o@) =~= outs,
                events@.len() == i,
                forall|k: int|
                    0 <= k < i ==> (#[trigger] events@[k])@ == spec_event_of(
                        outs[k],
                        msg_field(event@),
                        event@.message,
                        state@,
                    ),
            decreases n - i,
        {
            let outcome = &outcomes[i];
            assert(outcome@ == outs[i as int]);
            let is_valid = matches!(outcome.status, VerificationStatus::Valid);
            let flag = if is_valid {
                Self::would_be_fully_verified(state, &outcome.net_address, &identity_field)
            } else {
                false
            };
            let ev = IdentityVerification {
                net_address: outcome.net_address.clone(),
                field: identity_field.clone(),
                expected_message: outcome.expected_message.clone(),
                provided_message: event.message.clone(),
                is_valid,
                is_fully_verified: flag,
            };
            assert(ev@ == spec_event_of(outs[i as int], msg_field(event@), event@.message, state@));
            events.push(ev);
            i = i + 1;
        }
        proof {
            assert(events@.map_values(|e: IdentityVerification| e@) =~= spec_events_of_msg(
                state@,
                event@,
            ));
        }
        if events.len() == 0 {
            Ok(None)
        } else {
            Ok(Some(events))
        }
    }

    /// A read-only state request: emits no event.
    pub fn handle_state_request(state: &IdentityState, net_address: &IdentityAddress) -> (r: Result<
        Option<Vec<IdentityVerification>>,
        VerifierError,
    >)
        ensures
            r == Result::<Option<Vec<IdentityVerification>>, VerifierError>::Ok(
                Option::<Vec<IdentityVerification>>::None,
            ),
    {
        Ok(None)
    }

    /// The pure decision function: dispatch one command, emit events,
    /// touch nothing.
    pub fn handle(state: &IdentityState, command: &VerifierCommand) -> (r: Result<
        Option<Vec<IdentityVerification>>,
        VerifierError,
    >)
        requires
            state.wf(),
        ensures
            match command {
                VerifierCommand::VerifyMessage(m) => spec_handle_results_agree(r, state@, m@),
                VerifierCommand::RequestState(_) => r == Result::<
                    Option<Vec<IdentityVerification>>,
                    VerifierError,
                >::Ok(Option::<Vec<IdentityVerification>>::None),
            },
    {
        match command {
            VerifierCommand::VerifyMessage(m) => Self::handle_verify_message(state, m),
            VerifierCommand::RequestState(addr) => Self::handle_state_request(state, addr),
        }
    }

    /// The serialized fold: apply one committed event to the store.
    /// Only an accepted event mutates; a rejected one is an audit record.
    pub fn apply_state_changes(state: &mut IdentityState, event: &IdentityVerification)
        ensures
            final(state)@ =~= spec_apply_one(old(state)@, event@),
            !event.is_valid ==> final(state)@ =~= old(state)@,
    {
        if event.is_valid {
            state.set_verified(&event.net_address, &event.field);
        }
    }

    /// Fold a run of committed events, in order.
    pub fn apply(state: &mut IdentityState, events: &Vec<IdentityVerification>)
        ensures
            final(state)@ =~= spec_apply_events(
                old(state)@,
                events@.map_values(|e: IdentityVerification| e@),
            ),
    {
        let ghost evs = events@.map_values(|e: IdentityVerification| e@);
        let n = events.len();
        let mut i: usize = 0;
        proof {
            assert(evs.skip(0) =~= evs);
        }
        while i < n
            invariant
                n == events.len(),
                i <= n,
                evs == events@.map_values(|e: IdentityVerification| e@),
                spec_apply_events(state@, evs.skip(i as int)) =~= spec_apply_events(
                    old(state)@,
                    evs,
                ),
            decreases n - i,
        {
            proof {
                assert(evs.skip(i as int)[0] == evs[i as int]);
                assert(evs.skip(i as int).drop_first() =~= evs.skip(i + 1));
            }
            Self::apply_state_changes(state, &events[i]);
            i = i + 1;
        }
        proof {
            assert(evs.skip(n as int).len() == 0);
        }
    }
}

/// One batch step: a structurally valid message is judged against the
/// current store and its events are folded in before the next message is
/// looked at; a malformed message is skipped and the store left alone.
pub open spec fn spec_step(idents: Seq<IdentityView>, m: ExternalMessageView) -> Seq<IdentityView> {
    if msg_ok(m) {
        spec_apply_events(idents, spec_events_of_msg(idents, m))
    } else {
        idents
    }
}

/// The store after a whole batch, processed in arrival order.
pub open spec fn spec_batch_state(
    idents: Seq<IdentityView>,
    msgs: Seq<ExternalMessageView>,
) -> Seq<IdentityView>
    decreases msgs.len(),
{
    if msgs.len() == 0 {
        idents
    } else {
        spec_batch_state(spec_step(idents, msgs[0]), msgs.drop_first())
    }
}

/// Every event a batch emits, in arrival order: each message's events are
/// judged against the store as it stood when that message's turn came.
pub open spec fn spec_batch_events(
    idents: Seq<IdentityView>,
    msgs: Seq<ExternalMessageView>,
) -> Seq<IdentityVerificationView>
    decreases msgs.len(),
{
    if msgs.len() == 0 {
        Seq::empty()
    } else {
        (if msg_ok(msgs[0]) {
            spec_events_of_msg(idents, msgs[0])
        } else {
            Seq::empty()
        }) + spec_batch_events(spec_step(idents, msgs[0]), msgs.drop_first())
    }
}

/// A run of rejected events mutates nothing: they are audit records
/// alone, so a text without the expected token can never change the
/// store.
pub proof fn lemma_invalid_events_no_mutation(
    idents: Seq<IdentityView>,
    evs: Seq<IdentityVerificationView>,
)
    requires
        forall|i: int| 0 <= i < evs.len() ==> !(#[trigger] evs[i]).is_valid,
    ensures
        spec_apply_events(idents, evs) == idents,
    decreases evs.len(),
{
    if evs.len() > 0 {
        assert(!evs[0].is_valid);
        assert(forall|i: int| 0 <= i < evs.drop_first().len() ==> evs.drop_first()[i] == evs[i
            + 1]);
        lemma_invalid_events_no_mutation(idents, evs.drop_first());
    }
}

proof fn lemma_step_preserves_wf(idents: Seq<IdentityView>, m: ExternalMessageView)
    requires
        wf_idents(idents),
    ensures
        wf_idents(spec_step(idents, m)),
{
    if msg_ok(m) {
        lemma_apply_events_preserves_wf(idents, spec_events_of_msg(idents, m));
    }
}

impl VerifierAggregate {
    /// Judge one message and, when its command succeeds, fold its events
    /// into the store before returning them. The host commits the returned
    /// events to its log; replaying them with `apply` reproduces the same
    /// store.
    pub fn process_message(state: &mut IdentityState, msg: &ExternalMessage) -> (r: Result<
        Vec<IdentityVerification>,
        VerifierError,
    >)
        requires
            old(state).wf(),
        ensures
            final(state).wf(),
            r is Err <==> !msg_ok(msg@),
            r is Err ==> final(state)@ =~= old(state)@,
            r is Ok ==> {
                &&& r->Ok_0@.map_values(|e: IdentityVerification| e@) =~= spec_events_of_msg(
                    old(state)@,
                    msg@,
                )
                &&& final(state)@ =~= spec_step(old(state)@, msg@)
            },
    {
        let events = match Self::handle_verify_message(state, msg) {
            Err(e) => {
                return Err(e);
            },
            Ok(None) => Vec::new(),
            Ok(Some(events)) => events,
        };
        assert(events@.map_values(|e: IdentityVerification| e@) =~= spec_events_of_msg(
            state@,
            msg@,
        ));
        Self::apply(state, &events);
        proof {
            lemma_apply_events_preserves_wf(old(state)@, spec_events_of_msg(old(state)@, msg@));
        }
        Ok(events)
    }

    /// Process one polling batch: messages in arrival order, never
    /// reordered, each message's events folded in before the next message
    /// is judged. Malformed messages are skipped; the batch continues.
    /// Returns every emitted event, in order.
    pub fn process_batch(state: &mut IdentityState, msgs: &Vec<ExternalMessage>) -> (r: Vec<
        IdentityVerification,
    >)
        requires
            old(state).wf(),
        ensures
            final(state).wf(),
            final(state)@ =~= spec_batch_state(old(state)@, msgs@.map_values(|m: ExternalMessage| m@)),
            r@.map_values(|e: IdentityVerification| e@) =~= spec_batch_events(
                old(state)@,
                msgs@.map_values(|m: ExternalMessage| m@),
            ),
    {
        let ghost ms = msgs@.map_values(|m: ExternalMessage| m@);
        let mut out: Vec<IdentityVerification> = Vec::new();
        let n = msgs.len();
        let mut i: usize = 0;
        proof {
            assert(ms.skip(0) =~= ms);
        }
        while i < n
            invariant
                n == msgs.len(),
                i <= n,
                state.wf(),
                ms == msgs@.map_values(|m: ExternalMessage| m@),
                spec_batch_state(state@, ms.skip(i as int)) =~= spec_batch_state(old(state)@, ms),
                out@.map_values(|e: IdentityVerification| e@) + spec_batch_events(
                    state@,
                    ms.skip(i as int),
                ) =~= spec_batch_events(old(state)@, ms),
            decreases n - i,
        {
            let ghost pre = state@;
            let ghost acc = out@.map_values(|e: IdentityVerification| e@);
            proof {
                assert(ms.skip(i as int)[0] == ms[i as int]);
                assert(ms.skip(i as int).drop_first() =~= ms.skip(i + 1));
            }
            match Self::process_message(state, &msgs[i]) {
                Ok(mut events) => {
                    let m = events.len();
                    let mut j: usize = 0;
                    while j < m
                        invariant
                            m == events.len(),
                            j <= m,
                            out@.map_values(|e: IdentityVerification| e@) =~= acc + events@.map_values(
                                |e: IdentityVerification| e@,
                            ).take(j as int),
                        decreases m - j,
                    {
                        let ghost before = out@.map_values(|e: IdentityVerification| e@);
                        let ev = events[j].clone();
                        out.push(ev);
                        proof {
                            let evs = events@.map_values(|e: IdentityVerification| e@);
                            assert(evs.take(j + 1).drop_last() =~= evs.take(j as int));
                            assert(out@.map_values(|e: IdentityVerification| e@) =~= before.push(
                                evs[j as int],
                            ));
                            assert(acc + evs.take(j + 1) =~= (acc + evs.take(j as int)).push(
                                evs[j as int],
                            ));
                        }
                        j = j + 1;
                    }
                    proof {
                        let evs = events@.map_values(|e: IdentityVerification| e@);
                        assert(evs.take(m as int) =~= evs);
                        assert(out@.map_values(|e: IdentityVerification| e@) =~= acc + evs);
                        assert(state@ =~= spec_step(pre, ms[i as int]));
                        assert(evs =~= spec_events_of_msg(pre, ms[i as int]));
                        assert(spec_batch_events(pre, ms.skip(i as int)) =~= evs
                            + spec_batch_events(state@, ms.skip(i + 1)));
                    }
                },
                Err(_) => {
                    proof {
                        assert(state@ =~= pre);
                        assert(state@ =~= spec_step(pre, ms[i as int]));
                        assert(spec_batch_events(pre, ms.skip(i as int)) =~= Seq::<
                            IdentityVerificationView,
                        >::empty() + spec_batch_events(state@, ms.skip(i + 1)));
                        assert(Seq::<IdentityVerificationView>::empty() + spec_batch_events(
                            state@,
                            ms.skip(i + 1),
                        ) =~= spec_batch_events(state@, ms.skip(i + 1)));
                    }
                },
            }
            i = i + 1;
        }
        proof {
            assert(ms.skip(n as int).len() == 0);
            assert(out@.map_values(|e: IdentityVerification| e@) + Seq::<
                IdentityVerificationView,
            >::empty() =~= out@.map_values(|e: IdentityVerification| e@));
        }
        out
    }
}

/// What `handle` guarantees of its result for a `VerifyMessage` command:
/// an error exactly on structurally invalid messages (and which error),
/// otherwise the events of the scan against the snapshot, or nothing when
/// nothing matched.
pub open spec fn spec_handle_results_agree(
    r: Result<Option<Vec<IdentityVerification>>, VerifierError>,
    idents: Seq<IdentityView>,
    m: ExternalMessageView,
) -> bool {
    &&& (r is Err <==> !msg_ok(m))
    &&& (r == Result::<Option<Vec<IdentityVerification>>, VerifierError>::Err(
        VerifierError::UnparseableSenderId,
    ) <==> spec_parse_u64(m.id) is None)
    &&& ((r == Result::<Option<Vec<IdentityVerification>>, VerifierError>::Err(
        VerifierError::MissingTimestamp,
    )) <==> (spec_parse_u64(m.id) is Some && m.timestamp is None))
    &&& (r is Ok ==> match r->Ok_0 {
        Some(events) => events@.map_values(|e: IdentityVerification| e@) =~= spec_events_of_msg(
            idents,
            m,
        ) && spec_events_of_msg(idents, m).len() > 0,
        None => spec_events_of_msg(idents, m).len() == 0,
    })
}

fn self_id_str(event: &ExternalMessage) -> (r: &str)
    ensures
        r@ == event@.id,
{
    event.id.as_str()
}

} // verus!
