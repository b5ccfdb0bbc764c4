//! The Twitter adapter protocol: channel-native identifiers, the wire
//! shapes of the direct-message API, incremental polling against a
//! watermark, batch deduplication by sender, and the cache-or-lookup split
//! for resolving senders to registered accounts. Transport itself (HTTP,
//! timers) belongs to the host; everything that decides is here.

use vstd::prelude::*;

use crate::aggregate::ExternalMessage;
use crate::aggregate::ExternalMessageView;
use crate::aggregate::IdentityVerification;
use crate::aggregate::IdentityVerificationView;
use crate::aggregate::VerifierAggregate;
use crate::aggregate::spec_batch_events;
use crate::aggregate::spec_batch_state;
use crate::identity::AddressValidity;
use crate::identity::IdentityState;
use crate::identity::IdentityView;
use crate::primitives::Account;
use crate::primitives::AccountType;
use crate::primitives::Challenge;
use crate::primitives::ChallengeStatus;
use crate::primitives::IdentityAddress;
use crate::watermark::Watermarks;
use crate::strutil::spec_digits;
use crate::strutil::spec_parse_u64;
use crate::strutil::parse_u64;
use crate::strutil::text_contains;
use crate::strutil::u64_to_string;

verus! {

/// A channel-native user identifier.
#[derive(Clone, Copy, PartialEq, Eq, Structural, Debug, Hash)]
pub struct TwitterId(pub u64);

impl TwitterId {
    pub fn as_u64(&self) -> (r: u64)
        ensures
            r == self.0,
    {
        self.0
    }

    /// Parse a channel-native id exactly as `str::parse::<u64>` would;
    /// anything else is `UnrecognizedData`.
    pub fn try_from_text(val: &str) -> (r: Result<TwitterId, TwitterError>)
        ensures
            match spec_parse_u64(val@) {
                Some(v) => r == Result::<TwitterId, TwitterError>::Ok(TwitterId(v)),
                None => r == Result::<TwitterId, TwitterError>::Err(
                    TwitterError::UnrecognizedData,
                ),
            },
    {
        match parse_u64(val) {
            Some(v) => Ok(TwitterId(v)),
            None => Err(TwitterError::UnrecognizedData),
        }
    }
}

impl From<u64> for TwitterId {
    fn from(val: u64) -> (r: TwitterId) {
        TwitterId(val)
    }
}

impl vstd::std_specs::convert::FromSpecImpl<u64> for TwitterId {
    open spec fn obeys_from_spec() -> bool {
        true
    }

    open spec fn from_spec(val: u64) -> TwitterId {
        TwitterId(val)
    }
}

/// One element of a Twitter API error payload.
#[derive(Clone, Debug)]
pub struct ApiErrorObject {
    pub code: i64,
    pub message: String,
}

/// The error payload the Twitter API returns.
#[derive(Clone, Debug)]
pub struct TwitterApiError {
    pub errors: Vec<ApiErrorObject>,
}

/// What can go wrong talking to the channel. Transport and serialization
/// failures carry the reporter's text.
#[derive(Debug)]
pub enum TwitterError {
    IncompleteBuilder,
    UnrecognizedData,
    ApiCode(TwitterApiError),
    Http(String),
    Serde(String),
    RequestBuilder(String),
}

/// Mathematical model of a `ReceivedMessageContext`.
pub ghost struct MsgCtxView {
    pub sender: u64,
    pub message: Seq<char>,
    pub created: u64,
}

/// One inbound direct message, already parsed: who sent it, its text, and
/// when it was created.
#[derive(Debug)]
pub struct ReceivedMessageContext {
    pub sender: TwitterId,
    pub message: String,
    pub created: u64,
}

impl View for ReceivedMessageContext {
    type V = MsgCtxView;

    open spec fn view(&self) -> MsgCtxView {
        MsgCtxView { sender: self.sender.0, message: self.message@, created: self.created }
    }
}

impl Clone for ReceivedMessageContext {
    fn clone(&self) -> (r: Self)
        ensures
            r@ == self@,
    {
        ReceivedMessageContext {
            sender: self.sender,
            message: self.message.clone(),
            created: self.created,
        }
    }
}

/// Wire shape: the body of one direct message.
#[derive(Debug)]
pub struct ApiMessageData {
    pub text: String,
}

/// Wire shape: the recipient of one direct message.
#[derive(Debug)]
pub struct ApiTarget {
    pub recipient_id: String,
}

/// Wire shape: one message-create envelope.
#[derive(Debug)]
pub struct ApiMessageCreate {
    pub target: ApiTarget,
    pub sender_id: Option<String>,
    pub message_data: ApiMessageData,
}

/// Mathematical model of an `ApiEvent`.
pub ghost struct ApiEventView {
    pub t_type: Seq<char>,
    pub created_timestamp: Option<Seq<char>>,
    pub sender_id: Option<Seq<char>>,
    pub recipient_id: Seq<char>,
    pub text: Seq<char>,
}

/// Wire shape: one event of the direct-message list.
#[derive(Debug)]
pub struct ApiEvent {
    pub t_type: String,
    pub created_timestamp: Option<String>,
    pub message_create: ApiMessageCreate,
}

pub open spec fn str_opt_view(o: Option<String>) -> Option<Seq<char>> {
    match o {
        Some(s) => Some(s@),
        None => None,
    }
}

impl View for ApiEvent {
    type V = ApiEventView;

    open spec fn view(&self) -> ApiEventView {
        ApiEventView {
            t_type: self.t_type@,
            created_timestamp: str_opt_view(self.created_timestamp),
            sender_id: str_opt_view(self.message_create.sender_id),
            recipient_id: self.message_create.target.recipient_id@,
            text: self.message_create.message_data.text@,
        }
    }
}

/// Wire shape: the direct-message endpoint payload, one event when
/// sending, a list when polling.
#[derive(Debug)]
pub struct ApiMessageEvent {
    pub event: Option<ApiEvent>,
    pub events: Option<Vec<ApiEvent>>,
}

impl ApiMessageEvent {
    /// The payload that sends `msg` to `recipient`.
    pub fn new(recipient: &TwitterId, msg: String) -> (r: ApiMessageEvent)
        ensures
            r.events is None,
            r.event is Some,
            r.event->0@.t_type == "message_create"@,
            r.event->0@.created_timestamp is None,
            r.event->0@.sender_id is None,
            r.event->0@.recipient_id == spec_digits(recipient.0 as int),
            r.event->0@.text == msg@,
    {
        ApiMessageEvent {
            event: Some(
                ApiEvent {
                    t_type: String::from_str("message_create"),
                    created_timestamp: None,
                    message_create: ApiMessageCreate {
                        target: ApiTarget { recipient_id: u64_to_string(recipient.as_u64()) },
                        sender_id: None,
                        message_data: ApiMessageData { text: msg },
                    },
                },
            ),
            events: None,
        }
    }

    /// Parse the polled event list: skip malformed entries (missing or
    /// unreadable sender or timestamp), drop the service's own messages
    /// and everything at or below the watermark, keep arrival order, and
    /// return the new watermark alongside.
    pub fn get_messages(self, my_id: &TwitterId, watermark: u64) -> (r: (
        Vec<ReceivedMessageContext>,
        u64,
    ))
        ensures
            r.0@.map_values(|m: ReceivedMessageContext| m@) =~= spec_kept(
                events_of(self),
                my_id.0,
                watermark,
            ),
            r.1 == spec_new_watermark(events_of(self), my_id.0, watermark),
            r.1 >= watermark,
    {
        let events = match self.events {
            Some(events) => events,
            None => {
                proof {
                    assert(spec_kept(events_of(self), my_id.0, watermark) =~= Seq::<
                        MsgCtxView,
                    >::empty());
                }
                return (Vec::new(), watermark);
            },
        };
        let ghost evs = events@.map_values(|e: ApiEvent| e@);
        assert(events_of(self) == evs);
        let mut msgs: Vec<ReceivedMessageContext> = Vec::new();
        let mut new_watermark: u64 = watermark;
        let n = events.len();
        let mut i: usize = 0;
        proof {
            assert(evs.take(0) =~= Seq::<ApiEventView>::empty());
        }
        while i < n
            invariant
                n == events.len(),
                i <= n,
                evs == events@.map_values(|e: ApiEvent| e@),
                evs.len() == n,
                forall|k: int| 0 <= k < n ==> evs[k] == (#[trigger] events@[k])@,
                msgs@.map_values(|m: ReceivedMessageContext| m@) =~= spec_kept(
                    evs.take(i as int),
                    my_id.0,
                    watermark,
                ),
                new_watermark == spec_new_watermark(evs.take(i as int), my_id.0, watermark),
                new_watermark >= watermark,
            decreases n - i,
        {
            let ghost prev = msgs@.map_values(|m: ReceivedMessageContext| m@);
            let event = &events[i];
            let parsed: Option<ReceivedMessageContext> = match &event.message_create.sender_id {
                Some(sid) => {
                    match parse_u64(sid.as_str()) {
                        Some(sender) => {
                            match &event.created_timestamp {
                                Some(ts) => {
                                    match parse_u64(ts.as_str()) {
                                        Some(created) => Some(
                                            ReceivedMessageContext {
                                                sender: TwitterId(sender),
                                                message:
                                                    event.message_create.message_data.text.clone(),
                                                created,
                                            },
                                        ),
                                        None => None,
                                    }
                                },
                                None => None,
                            }
                        },
                        None => None,
                    }
                },
                None => None,
            };
            proof {
                if parsed is Some {
                    assert(parse_event(evs[i as int]) == Some((parsed->0)@));
                } else {
                    assert(parse_event(evs[i as int]) is None);
                }
            }
            match parsed {
                Some(msg) => {
                    let keep = msg.sender.0 != my_id.0 && msg.created > watermark;
                    if keep {
                        if msg.created > new_watermark {
                            new_watermark = msg.created;
                        }
                        let ghost mv = msg@;
                        msgs.push(msg);
                        proof {
                            assert(msgs@.map_values(|m: ReceivedMessageContext| m@) =~= prev.push(
                                mv,
                            ));
                        }
                    }
                },
                None => {},
            }
            proof {
                assert(evs.take(i + 1).drop_last() =~= evs.take(i as int));
                assert(evs.take(i + 1).last() == evs[i as int]);
            }
            i = i + 1;
        }
        proof {
            assert(evs.take(n as int) =~= evs);
        }
        (msgs, new_watermark)
    }
}

/// The polled events, as a sequence; an absent list is an empty one.
pub open spec fn events_of(payload: ApiMessageEvent) -> Seq<ApiEventView> {
    match payload.events {
        Some(events) => events@.map_values(|e: ApiEvent| e@),
        None => Seq::empty(),
    }
}

/// One event, parsed: `None` when the sender id or the timestamp is
/// missing or unreadable.
pub open spec fn parse_event(e: ApiEventView) -> Option<MsgCtxView> {
    match e.sender_id {
        Some(sid) => match spec_parse_u64(sid) {
            Some(sender) => match e.created_timestamp {
                Some(ts) => match spec_parse_u64(ts) {
                    Some(created) => Some(
                        MsgCtxView { sender, message: e.text, created },
                    ),
                    None => None,
                },
                None => None,
            },
            None => None,
        },
        None => None,
    }
}

/// Is this parsed event kept: well-formed, not the service's own, and
/// newer than the watermark?
pub open spec fn keeps(e: ApiEventView, my_id: u64, watermark: u64) -> bool {
    match parse_event(e) {
        Some(m) => m.sender != my_id && m.created > watermark,
        None => false,
    }
}

/// The kept messages of a polled batch, in arrival order.
pub open spec fn spec_kept(events: Seq<ApiEventView>, my_id: u64, watermark: u64) -> Seq<MsgCtxView>
    decreases events.len(),
{
    if events.len() == 0 {
        Seq::empty()
    } else {
        spec_kept(events.drop_last(), my_id, watermark) + (if keeps(
            events.last(),
            my_id,
            watermark,
        ) {
            seq![parse_event(events.last())->0]
        } else {
            Seq::empty()
        })
    }
}

/// The watermark after a polled batch: the prior watermark, raised to the
/// highest `created` among the kept messages.
pub open spec fn spec_new_watermark(
    events: Seq<ApiEventView>,
    my_id: u64,
    watermark: u64,
) -> u64
    decreases events.len(),
{
    if events.len() == 0 {
        watermark
    } else {
        let rest = spec_new_watermark(events.drop_last(), my_id, watermark);
        if keeps(events.last(), my_id, watermark) && parse_event(events.last())->0.created > rest {
            parse_event(events.last())->0.created
        } else {
            rest
        }
    }
}

/// Mathematical model of a `SenderEntry`.
pub ghost struct SenderEntryView {
    pub account: Seq<char>,
    pub twitter_id: u64,
    pub init_msg: bool,
}

/// One resolved sender: the registered account, the channel-native id,
/// and whether the first-contact handshake already happened.
#[derive(Debug)]
pub struct SenderEntry {
    pub account: Account,
    pub twitter_id: TwitterId,
    pub init_msg: bool,
}

impl View for SenderEntry {
    type V = SenderEntryView;

    open spec fn view(&self) -> SenderEntryView {
        SenderEntryView {
            account: self.account@,
            twitter_id: self.twitter_id.0,
            init_msg: self.init_msg,
        }
    }
}

impl Clone for SenderEntry {
    fn clone(&self) -> (r: Self)
        ensures
            r@ == self@,
    {
        SenderEntry {
            account: self.account.clone(),
            twitter_id: self.twitter_id,
            init_msg: self.init_msg,
        }
    }
}

/// The cache record for a sender id, if any.
pub open spec fn spec_cache_lookup(cache: Seq<SenderEntryView>, id: u64) -> Option<SenderEntryView>
    decreases cache.len(),
{
    if cache.len() == 0 {
        None
    } else if cache[0].twitter_id == id {
        Some(cache[0])
    } else {
        spec_cache_lookup(cache.drop_first(), id)
    }
}

pub open spec fn has_sender(s: Seq<SenderEntryView>, id: u64) -> bool {
    exists|i: int| 0 <= i < s.len() && (#[trigger] s[i]).twitter_id == id
}

pub open spec fn has_id(s: Seq<u64>, id: u64) -> bool {
    exists|i: int| 0 <= i < s.len() && s[i] == id
}

/// One step of the dedup-and-resolve pass over a batch: the first message
/// of a sender decides; later ones change nothing.
pub open spec fn plan_step(
    acc: (Seq<SenderEntryView>, Seq<u64>),
    m: MsgCtxView,
    cache: Seq<SenderEntryView>,
) -> (Seq<SenderEntryView>, Seq<u64>) {
    if has_sender(acc.0, m.sender) || has_id(acc.1, m.sender) {
        acc
    } else {
        match spec_cache_lookup(cache, m.sender) {
            Some(entry) => (acc.0.push(entry), acc.1),
            None => (acc.0, acc.1.push(m.sender)),
        }
    }
}

/// The dedup-and-resolve pass over a whole batch, in arrival order:
/// senders found in the cache, and senders the directory must resolve.
pub open spec fn spec_plan(
    msgs: Seq<MsgCtxView>,
    cache: Seq<SenderEntryView>,
) -> (Seq<SenderEntryView>, Seq<u64>)
    decreases msgs.len(),
{
    if msgs.len() == 0 {
        (Seq::empty(), Seq::empty())
    } else {
        plan_step(spec_plan(msgs.drop_last(), cache), msgs.last(), cache)
    }
}

/// The cache record for a sender, by channel-native id.
pub fn cache_lookup(cache: &Vec<SenderEntry>, id: &TwitterId) -> (r: Option<SenderEntry>)
    ensures
        match r {
            Some(e) => spec_cache_lookup(
                cache@.map_values(|c: SenderEntry| c@),
                id.0,
            ) == Some(e@),
            None => spec_cache_lookup(cache@.map_values(|c: SenderEntry| c@), id.0) is None,
        },
{
    let ghost cv = cache@.map_values(|c: SenderEntry| c@);
    let n = cache.len();
    let mut i: usize = 0;
    proof {
        assert(cv.skip(0) =~= cv);
    }
    while i < n
        invariant
            n == cache.len(),
            i <= n,
            cv == cache@.map_values(|c: SenderEntry| c@),
            cv.len() == n,
            forall|k: int| 0 <= k < n ==> cv[k] == (#[trigger] cache@[k])@,
            spec_cache_lookup(cv, id.0) == spec_cache_lookup(cv.skip(i as int), id.0),
        decreases n - i,
    {
        proof {
            assert(cv.skip(i as int)[0] == cv[i as int]);
            assert(cv.skip(i as int).drop_first() =~= cv.skip(i + 1));
        }
        let entry = &cache[i];
        if entry.twitter_id.0 == id.0 {
            return Some(entry.clone());
        }
        i = i + 1;
    }
    proof {
        assert(cv.skip(n as int).len() == 0);
    }
    None
}

fn entries_contain(entries: &Vec<SenderEntry>, id: &TwitterId) -> (r: bool)
    ensures
        r == has_sender(entries@.map_values(|c: SenderEntry| c@), id.0),
{
    let ghost ev = entries@.map_values(|c: SenderEntry| c@);
    let n = entries.len();
    let mut i: usize = 0;
    while i < n
        invariant
            n == entries.len(),
            i <= n,
            ev == entries@.map_values(|c: SenderEntry| c@),
            ev.len() == n,
            forall|k: int| 0 <= k < n ==> ev[k] == (#[trigger] entries@[k])@,
            forall|k: int| 0 <= k < i ==> (#[trigger] ev[k]).twitter_id != id.0,
        decreases n - i,
    {
        if entries[i].twitter_id.0 == id.0 {
            return true;
        }
        i = i + 1;
    }
    false
}

fn ids_contain(ids: &Vec<TwitterId>, id: &TwitterId) -> (r: bool)
    ensures
        r == has_id(ids@.map_values(|c: TwitterId| c.0), id.0),
{
    let ghost iv = ids@.map_values(|c: TwitterId| c.0);
    let n = ids.len();
    let mut i: usize = 0;
    while i < n
        invariant
            n == ids.len(),
            i <= n,
            iv == ids@.map_values(|c: TwitterId| c.0),
            iv.len() == n,
            forall|k: int| 0 <= k < n ==> iv[k] == (#[trigger] ids@[k]).0,
            forall|k: int| 0 <= k < i ==> (#[trigger] iv[k]) != id.0,
        decreases n - i,
    {
        if ids[i].0 == id.0 {
            return true;
        }
        i = i + 1;
    }
    false
}

/// Deduplicate a polled batch by sender (first message per sender wins)
/// and split the senders into those the local cache resolves and those
/// the channel's directory must be asked about.
pub fn plan_lookups(messages: &Vec<ReceivedMessageContext>, cache: &Vec<SenderEntry>) -> (r: (
    Vec<SenderEntry>,
    Vec<TwitterId>,
))
    ensures
        ({
            let plan = spec_plan(
                messages@.map_values(|m: ReceivedMessageContext| m@),
                cache@.map_values(|c: SenderEntry| c@),
            );
            r.0@.map_values(|c: SenderEntry| c@) =~= plan.0 && r.1@.map_values(|c: TwitterId| c.0)
                =~= plan.1
        }),
{
    let ghost ms = messages@.map_values(|m: ReceivedMessageContext| m@);
    let ghost cv = cache@.map_values(|c: SenderEntry| c@);
    let mut idents: Vec<SenderEntry> = Vec::new();
    let mut to_lookup: Vec<TwitterId> = Vec::new();
    let n = messages.len();
    let mut i: usize = 0;
    proof {
        assert(ms.take(0) =~= Seq::<MsgCtxView>::empty());
    }
    while i < n
        invariant
            n == messages.len(),
            i <= n,
            ms == messages@.map_values(|m: ReceivedMessageContext| m@),
            cv == cache@.map_values(|c: SenderEntry| c@),
            ms.len() == n,
            forall|k: int| 0 <= k < n ==> ms[k] == (#[trigger] messages@[k])@,
            idents@.map_values(|c: SenderEntry| c@) =~= spec_plan(ms.take(i as int), cv).0,
            to_lookup@.map_values(|c: TwitterId| c.0) =~= spec_plan(ms.take(i as int), cv).1,
        decreases n - i,
    {
        let ghost prev = (
            idents@.map_values(|c: SenderEntry| c@),
            to_lookup@.map_values(|c: TwitterId| c.0),
        );
        let msg = &messages[i];
        let seen = entries_contain(&idents, &msg.sender) || ids_contain(&to_lookup, &msg.sender);
        if !seen {
            match cache_lookup(cache, &msg.sender) {
                Some(entry) => {
                    let ghost entv = entry@;
                    idents.push(entry);
                    proof {
                        assert(idents@.map_values(|c: SenderEntry| c@) =~= prev.0.push(entv));
                    }
                },
                None => {
                    to_lookup.push(msg.sender);
                    proof {
                        assert(to_lookup@.map_values(|c: TwitterId| c.0) =~= prev.1.push(
                            msg.sender.0,
                        ));
                    }
                },
            }
        }
        proof {
            assert(ms.take(i + 1).drop_last() =~= ms.take(i as int));
            assert(ms.take(i + 1).last() == ms[i as int]);
        }
        i = i + 1;
    }
    proof {
        assert(ms.take(n as int) =~= ms);
    }
    (idents, to_lookup)
}

/// Fold the directory's answers into the resolved list: each looked-up
/// sender joins with the handshake still to do, and is cached by the
/// host before further use.
pub fn merge_lookups(idents: &mut Vec<SenderEntry>, results: Vec<SenderEntry>)
    ensures
        final(idents)@.map_values(|c: SenderEntry| c@) =~= old(idents)@.map_values(
            |c: SenderEntry| c@,
        ) + results@.map_values(|c: SenderEntry| c@).map_values(
            |e: SenderEntryView| SenderEntryView { init_msg: false, ..e },
        ),
{
    let ghost base = old(idents)@.map_values(|c: SenderEntry| c@);
    let ghost rs = results@.map_values(|c: SenderEntry| c@);
    let n = results.len();
    let mut i: usize = 0;
    let mut rest = results;
    let ghost total = base + rs.map_values(
        |e: SenderEntryView| SenderEntryView { init_msg: false, ..e },
    );
    while i < n
        invariant
            n == rest.len(),
            i <= n,
            rs == rest@.map_values(|c: SenderEntry| c@),
            rs.len() == n,
            forall|k: int| 0 <= k < n ==> rs[k] == (#[trigger] rest@[k])@,
            total == base + rs.map_values(
                |e: SenderEntryView| SenderEntryView { init_msg: false, ..e },
            ),
            idents@.map_values(|c: SenderEntry| c@) =~= total.take(base.len() + i),
        decreases n - i,
    {
        let ghost prev = idents@.map_values(|c: SenderEntry| c@);
        let entry = &rest[i];
        idents.push(
            SenderEntry {
                account: entry.account.clone(),
                twitter_id: entry.twitter_id,
                init_msg: false,
            },
        );
        proof {
            assert(idents@.map_values(|c: SenderEntry| c@) =~= prev.push(
                SenderEntryView { init_msg: false, ..rs[i as int] },
            ));
            assert(total.take(base.len() + i + 1).drop_last() =~= total.take(base.len() + i));
            assert(total.take(base.len() + i + 1).last() == total[base.len() + i]);
            assert(total[base.len() + i] == rs.map_values(
                |e: SenderEntryView| SenderEntryView { init_msg: false, ..e },
            )[i as int]);
        }
        i = i + 1;
    }
    proof {
        assert(total.take(base.len() + n) =~= total);
    }
}

/// The texts of one sender's messages, in arrival order.
pub open spec fn spec_sender_texts(msgs: Seq<MsgCtxView>, id: u64) -> Seq<Seq<char>>
    decreases msgs.len(),
{
    if msgs.len() == 0 {
        Seq::empty()
    } else {
        spec_sender_texts(msgs.drop_last(), id) + (if msgs.last().sender == id {
            seq![msgs.last().message]
        } else {
            Seq::empty()
        })
    }
}

/// All messages one sender contributed to the batch, in arrival order.
pub fn messages_of_sender(messages: &Vec<ReceivedMessageContext>, id: &TwitterId) -> (r: Vec<
    String,
>)
    ensures
        r@.map_values(|s: String| s@) =~= spec_sender_texts(
            messages@.map_values(|m: ReceivedMessageContext| m@),
            id.0,
        ),
{
    let ghost ms = messages@.map_values(|m: ReceivedMessageContext| m@);
    let mut out: Vec<String> = Vec::new();
    let n = messages.len();
    let mut i: usize = 0;
    proof {
        assert(ms.take(0) =~= Seq::<MsgCtxView>::empty());
    }
    while i < n
        invariant
            n == messages.len(),
            i <= n,
            ms == messages@.map_values(|m: ReceivedMessageContext| m@),
            ms.len() == n,
            forall|k: int| 0 <= k < n ==> ms[k] == (#[trigger] messages@[k])@,
            out@.map_values(|s: String| s@) =~= spec_sender_texts(ms.take(i as int), id.0),
        decreases n - i,
    {
        let ghost prev = out@.map_values(|s: String| s@);
        let msg = &messages[i];
        if msg.sender.0 == id.0 {
            out.push(msg.message.clone());
            proof {
                assert(out@.map_values(|s: String| s@) =~= prev.push(ms[i as int].message));
            }
        }
        proof {
            assert(ms.take(i + 1).drop_last() =~= ms.take(i as int));
            assert(ms.take(i + 1).last() == ms[i as int]);
        }
        i = i + 1;
    }
    proof {
        assert(ms.take(n as int) =~= ms);
    }
    out
}

/// The initiation message delivered on first contact; it carries the
/// expected challenge token verbatim.
pub fn init_message(challenge: &Challenge) -> (r: String)
    ensures
        r@ == "Please send a direct message containing the following challenge: "@ + challenge@,
        text_contains(r@, challenge@),
{
    proof {
        reveal_strlit("Please send a direct message containing the following challenge: ");
    }
    let mut s = String::from_str(
        "Please send a direct message containing the following challenge: ",
    );
    s.append(challenge.as_str());
    proof {
        let pre = "Please send a direct message containing the following challenge: "@;
        let whole = pre + challenge@;
        assert(whole.subrange(pre.len() as int, pre.len() + challenge@.len() as int) =~= challenge@);
        assert(crate::strutil::contains_at(whole, challenge@, pre.len() as int));
    }
    s
}

/// The single per-sender response summarizing the batch's outcome.
pub fn response_message(any_valid: bool, any_invalid: bool) -> (r: String)
    ensures
        r@ == spec_response(any_valid, any_invalid),
{
    if any_valid && any_invalid {
        proof {
            reveal_strlit("Some challenges were verified; at least one attempt did not match.");
        }
        String::from_str("Some challenges were verified; at least one attempt did not match.")
    } else if any_valid {
        proof {
            reveal_strlit("The challenge was verified successfully.");
        }
        String::from_str("The challenge was verified successfully.")
    } else if any_invalid {
        proof {
            reveal_strlit("The message did not contain the expected challenge.");
        }
        String::from_str("The message did not contain the expected challenge.")
    } else {
        proof {
            reveal_strlit("No pending challenge was found for this account.");
        }
        String::from_str("No pending challenge was found for this account.")
    }
}

/// The four batch summaries, by whether any outcome was valid or invalid.
pub open spec fn spec_response(any_valid: bool, any_invalid: bool) -> Seq<char> {
    if any_valid && any_invalid {
        "Some challenges were verified; at least one attempt did not match."@
    } else if any_valid {
        "The challenge was verified successfully."@
    } else if any_invalid {
        "The message did not contain the expected challenge."@
    } else {
        "No pending challenge was found for this account."@
    }
}

/// A user record of the directory lookup endpoint.
#[derive(Debug)]
pub struct UserObject {
    pub id: TwitterId,
    pub screen_name: String,
}

/// Comma-joined channel-native ids, for a bulk directory lookup.
pub open spec fn spec_join_ids(ids: Seq<u64>) -> Seq<char>
    decreases ids.len(),
{
    if ids.len() == 0 {
        Seq::empty()
    } else if ids.len() == 1 {
        spec_digits(ids[0] as int)
    } else {
        spec_join_ids(ids.drop_last()) + seq![','] + spec_digits(ids.last() as int)
    }
}

pub fn join_ids(ids: &Vec<TwitterId>) -> (r: String)
    ensures
        r@ == spec_join_ids(ids@.map_values(|t: TwitterId| t.0)),
{
    let ghost iv = ids@.map_values(|t: TwitterId| t.0);
    let mut out = String::new();
    let n = ids.len();
    let mut i: usize = 0;
    proof {
        assert(iv.take(0) =~= Seq::<u64>::empty());
    }
    while i < n
        invariant
            n == ids.len(),
            i <= n,
            iv == ids@.map_values(|t: TwitterId| t.0),
            iv.len() == n,
            forall|k: int| 0 <= k < n ==> iv[k] == (#[trigger] ids@[k]).0,
            out@ == spec_join_ids(iv.take(i as int)),
        decreases n - i,
    {
        if i > 0 {
            proof {
                reveal_strlit(",");
            }
            out.append(",");
            proof {
                assert(","@ =~= seq![',']);
            }
        }
        let digits = u64_to_string(ids[i].as_u64());
        out.append(digits.as_str());
        proof {
            assert(iv.take(i + 1).drop_last() =~= iv.take(i as int));
            assert(iv.take(i + 1).last() == iv[i as int]);
            if i == 0 {
                assert(iv.take(1)[0] == iv[0]);
                assert(out@ =~= spec_digits(iv[0] as int));
            }
        }
        i = i + 1;
    }
    proof {
        assert(iv.take(n as int) =~= iv);
    }
    out
}

/// Convert the directory's answer: each looked-up user becomes a
/// registered account under its `@`-prefixed handle; an empty answer is
/// `UnrecognizedData`, exactly then.
pub fn accounts_from_user_objects(objs: Vec<UserObject>) -> (r: Result<
    Vec<SenderEntry>,
    TwitterError,
>)
    ensures
        r is Err <==> objs@.len() == 0,
        r is Ok ==> {
            let out = r->Ok_0@.map_values(|c: SenderEntry| c@);
            &&& out.len() == objs@.len()
            &&& forall|k: int|
                0 <= k < out.len() ==> (#[trigger] out[k]) == (SenderEntryView {
                    account: "@"@ + objs@[k].screen_name@,
                    twitter_id: objs@[k].id.0,
                    init_msg: false,
                })
        },
{
    if objs.len() == 0 {
        return Err(TwitterError::UnrecognizedData);
    }
    let mut out: Vec<SenderEntry> = Vec::new();
    let n = objs.len();
    let mut i: usize = 0;
    while i < n
        invariant
            n == objs.len(),
            i <= n,
            out@.len() == i,
            forall|k: int|
                0 <= k < i ==> (#[trigger] out@[k])@ == (SenderEntryView {
                    account: "@"@ + objs@[k].screen_name@,
                    twitter_id: objs@[k].id.0,
                    init_msg: false,
                }),
        decreases n - i,
    {
        proof {
            reveal_strlit("@");
        }
        let mut handle = String::from_str("@");
        handle.append(objs[i].screen_name.as_str());
        out.push(
            SenderEntry {
                account: Account(handle),
                twitter_id: objs[i].id,
                init_msg: false,
            },
        );
        i = i + 1;
    }
    Ok(out)
}

/// A query URL: `key=value` pairs joined with `&` after a `?`; the bare
/// URL when there are no parameters.
pub open spec fn spec_full_url(url: Seq<char>, params: Seq<crate::oauth::PairView>) -> Seq<char> {
    if params.len() == 0 {
        url
    } else {
        url + seq!['?'] + crate::oauth::spec_param_string(params)
    }
}

pub fn build_full_url(url: &str, params: &Vec<crate::oauth::OauthParam>) -> (r: String)
    ensures
        r@ == spec_full_url(url@, params@.map_values(|p: crate::oauth::OauthParam| p@)),
{
    let ghost pv = params@.map_values(|p: crate::oauth::OauthParam| p@);
    let mut out = String::new();
    out.append(url);
    if params.len() == 0 {
        return out;
    }
    proof {
        reveal_strlit("?");
    }
    out.append("?");
    proof {
        assert("?"@ =~= seq!['?']);
    }
    let n = params.len();
    let mut i: usize = 0;
    while i < n
        invariant
            n == params.len(),
            i <= n,
            pv == params@.map_values(|p: crate::oauth::OauthParam| p@),
            pv.len() == n,
            n > 0,
            forall|k: int| 0 <= k < n ==> pv[k] == (#[trigger] params@[k])@,
            i == 0 ==> out@ == url@ + seq!['?'],
            i > 0 ==> out@ == url@ + seq!['?'] + crate::oauth::spec_param_string(
                pv.take(i as int),
            ),
        decreases n - i,
    {
        proof {
            reveal_strlit("&");
            reveal_strlit("=");
        }
        if i > 0 {
            out.append("&");
        }
        out.append(params[i].key.as_str());
        out.append("=");
        out.append(params[i].value.as_str());
        proof {
            assert("&"@ =~= seq!['&']);
            assert("="@ =~= seq!['=']);
            assert(pv.take(i + 1).drop_last() =~= pv.take(i as int));
            assert(pv.take(i + 1).last() == pv[i as int]);
            if i == 0 {
                assert(pv.take(1)[0] == pv[0]);
                assert(out@ =~= url@ + seq!['?'] + (pv[0].key + seq!['='] + pv[0].value));
            } else {
                assert(out@ =~= url@ + seq!['?'] + crate::oauth::spec_param_string(pv.take(i + 1)));
            }
        }
        i = i + 1;
    }
    proof {
        assert(pv.take(n as int) =~= pv);
    }
    out
}

/// Mathematical model of a `TwitterAction`.
pub ghost enum TwitterActionView {
    SendMessage { recipient: u64, text: Seq<char> },
    ConfirmInit { account: Seq<char> },
    StatusChange { address: Seq<char>, status: ChallengeStatus },
    NotifyStatusChange { address: Seq<char> },
}

/// What the host must perform after a tick: deliveries, handshake
/// confirmations to persist, challenge status updates, and upstream
/// notifications.
#[derive(Debug)]
pub enum TwitterAction {
    SendMessage { recipient: TwitterId, text: String },
    ConfirmInit { account: Account },
    StatusChange { address: IdentityAddress, status: ChallengeStatus },
    NotifyStatusChange { address: IdentityAddress },
}

impl View for TwitterAction {
    type V = TwitterActionView;

    open spec fn view(&self) -> TwitterActionView {
        match self {
            TwitterAction::SendMessage { recipient, text } => TwitterActionView::SendMessage {
                recipient: recipient.0,
                text: text@,
            },
            TwitterAction::ConfirmInit { account } => TwitterActionView::ConfirmInit {
                account: account@,
            },
            TwitterAction::StatusChange { address, status } => TwitterActionView::StatusChange {
                address: address@,
                status: *status,
            },
            TwitterAction::NotifyStatusChange { address } => TwitterActionView::NotifyStatusChange {
                address: address@,
            },
        }
    }
}

/// The challenge of the first identity whose unresolved twitter record is
/// registered under `account`, if any.
pub open spec fn spec_pending_challenge(
    idents: Seq<IdentityView>,
    account: Seq<char>,
) -> Option<Seq<char>>
    decreases idents.len(),
{
    if idents.len() == 0 {
        None
    } else {
        match idents[0].twitter {
            Some(st) => if st.addr == account && st.addr_validity != AddressValidity::Valid {
                Some(st.challenge)
            } else {
                spec_pending_challenge(idents.drop_first(), account)
            },
            None => spec_pending_challenge(idents.drop_first(), account),
        }
    }
}

/// The challenge awaiting verification for `account` on the twitter
/// channel, scanning identities in store order.
pub fn pending_challenge(state: &IdentityState, account: &Account) -> (r: Option<Challenge>)
    ensures
        match r {
            Some(c) => spec_pending_challenge(state@, account@) == Some(c@),
            None => spec_pending_challenge(state@, account@) is None,
        },
{
    let ghost sv = state@;
    let n = state.identities.len();
    let mut i: usize = 0;
    proof {
        assert(sv.skip(0) =~= sv);
    }
    while i < n
        invariant
            n == state.identities.len(),
            i <= n,
            sv == state@,
            sv.len() == n,
            forall|k: int| 0 <= k < n ==> sv[k] == (#[trigger] state.identities@[k])@,
            spec_pending_challenge(sv, account@) == spec_pending_challenge(
                sv.skip(i as int),
                account@,
            ),
        decreases n - i,
    {
        proof {
            assert(sv.skip(i as int)[0] == sv[i as int]);
            assert(sv.skip(i as int).drop_first() =~= sv.skip(i + 1));
        }
        let ident = &state.identities[i];
        match &ident.twitter {
            Some(st) => {
                if st.addr == *account && !matches!(st.addr_validity, AddressValidity::Valid) {
                    return Some(st.challenge.clone());
                }
            },
            None => {},
        }
        i = i + 1;
    }
    proof {
        assert(sv.skip(n as int).len() == 0);
    }
    None
}

/// One sender's messages as commands for the verifier, in arrival order.
pub open spec fn to_external(entry: SenderEntryView, m: MsgCtxView) -> ExternalMessageView {
    ExternalMessageView {
        origin: AccountType::Twitter,
        field_address: entry.account,
        message: m.message,
        id: spec_digits(m.sender as int),
        timestamp: Some(m.created),
    }
}

pub open spec fn spec_sender_msgs(msgs: Seq<MsgCtxView>, id: u64) -> Seq<MsgCtxView>
    decreases msgs.len(),
{
    if msgs.len() == 0 {
        Seq::empty()
    } else {
        spec_sender_msgs(msgs.drop_last(), id) + (if msgs.last().sender == id {
            seq![msgs.last()]
        } else {
            Seq::empty()
        })
    }
}

pub open spec fn spec_sender_external(
    entry: SenderEntryView,
    msgs: Seq<MsgCtxView>,
) -> Seq<ExternalMessageView> {
    spec_sender_msgs(msgs, entry.twitter_id).map_values(|m: MsgCtxView| to_external(entry, m))
}

/// Did any event of the run accept, or reject, an attempt?
pub open spec fn any_valid(evs: Seq<IdentityVerificationView>) -> bool {
    exists|i: int| 0 <= i < evs.len() && (#[trigger] evs[i]).is_valid
}

pub open spec fn any_invalid(evs: Seq<IdentityVerificationView>) -> bool {
    exists|i: int| 0 <= i < evs.len() && !(#[trigger] evs[i]).is_valid
}

/// The status updates and notifications one run of events calls for: an
/// accepted event updates the persisted status and notifies upstream,
/// exactly once each; a rejected event only updates the status.
pub open spec fn status_actions(evs: Seq<IdentityVerificationView>) -> Seq<TwitterActionView>
    decreases evs.len(),
{
    if evs.len() == 0 {
        Seq::empty()
    } else {
        status_actions(evs.drop_last()) + (if evs.last().is_valid {
            seq![
                TwitterActionView::StatusChange {
                    address: evs.last().net_address,
                    status: ChallengeStatus::Accepted,
                },
                TwitterActionView::NotifyStatusChange { address: evs.last().net_address },
            ]
        } else {
            seq![
                TwitterActionView::StatusChange {
                    address: evs.last().net_address,
                    status: ChallengeStatus::Rejected,
                },
            ]
        })
    }
}

/// The store after one sender is processed.
pub open spec fn spec_sender_state(
    idents: Seq<IdentityView>,
    entry: SenderEntryView,
    msgs: Seq<MsgCtxView>,
) -> Seq<IdentityView> {
    if spec_pending_challenge(idents, entry.account) is None || !entry.init_msg {
        idents
    } else {
        spec_batch_state(idents, spec_sender_external(entry, msgs))
    }
}

/// The events one sender's processing emits.
pub open spec fn spec_sender_events(
    idents: Seq<IdentityView>,
    entry: SenderEntryView,
    msgs: Seq<MsgCtxView>,
) -> Seq<IdentityVerificationView> {
    if spec_pending_challenge(idents, entry.account) is None || !entry.init_msg {
        Seq::empty()
    } else {
        spec_batch_events(idents, spec_sender_external(entry, msgs))
    }
}

/// The actions one sender's processing calls for: nothing when no
/// challenge is registered; the initiation message (carrying the
/// challenge) and a handshake confirmation on first contact; otherwise
/// the status updates and exactly one summarizing response.
pub open spec fn spec_sender_actions(
    idents: Seq<IdentityView>,
    entry: SenderEntryView,
    msgs: Seq<MsgCtxView>,
) -> Seq<TwitterActionView> {
    match spec_pending_challenge(idents, entry.account) {
        None => Seq::empty(),
        Some(challenge) => if !entry.init_msg {
            seq![
                TwitterActionView::SendMessage {
                    recipient: entry.twitter_id,
                    text: "Please send a direct message containing the following challenge: "@
                        + challenge,
                },
                TwitterActionView::ConfirmInit { account: entry.account },
            ]
        } else {
            let evs = spec_batch_events(idents, spec_sender_external(entry, msgs));
            status_actions(evs) + seq![
                TwitterActionView::SendMessage {
                    recipient: entry.twitter_id,
                    text: spec_response(any_valid(evs), any_invalid(evs)),
                },
            ]
        },
    }
}

/// Process one resolved sender: deliver the initiation message on first
/// contact (never verifying that same message), or feed the sender's
/// messages to the verifier in arrival order and act on every outcome.
#[verifier::loop_isolation(false)]
#[verifier::rlimit(60)]
pub fn process_sender(
    state: &mut IdentityState,
    entry: &SenderEntry,
    messages: &Vec<ReceivedMessageContext>,
) -> (r: (Vec<TwitterAction>, Vec<IdentityVerification>))
    requires
        old(state).wf(),
    ensures
        final(state).wf(),
        final(state)@ =~= spec_sender_state(
            old(state)@,
            entry@,
            messages@.map_values(|m: ReceivedMessageContext| m@),
        ),
        r.1@.map_values(|e: IdentityVerification| e@) =~= spec_sender_events(
            old(state)@,
            entry@,
            messages@.map_values(|m: ReceivedMessageContext| m@),
        ),
        r.0@.map_values(|a: TwitterAction| a@) =~= spec_sender_actions(
            old(state)@,
            entry@,
            messages@.map_values(|m: ReceivedMessageContext| m@),
        ),
{
    let ghost ms = messages@.map_values(|m: ReceivedMessageContext| m@);
    let challenge = match pending_challenge(state, &entry.account) {
        Some(c) => c,
        None => {
            return (Vec::new(), Vec::new());
        },
    };
    let mut actions: Vec<TwitterAction> = Vec::new();
    if !entry.init_msg {
        let text = init_message(&challenge);
        actions.push(TwitterAction::SendMessage { recipient: entry.twitter_id, text });
        actions.push(TwitterAction::ConfirmInit { account: entry.account.clone() });
        proof {
            assert(actions@.map_values(|a: TwitterAction| a@) =~= spec_sender_actions(
                state@,
                entry@,
                ms,
            ));
        }
        return (actions, Vec::new());
    }
    let mut commands: Vec<ExternalMessage> = Vec::new();
    let n = messages.len();
    let mut i: usize = 0;
    proof {
        assert(ms.take(0) =~= Seq::<MsgCtxView>::empty());
    }
    while i < n
        invariant
            i <= n,
            commands@.map_values(|m: ExternalMessage| m@) =~= spec_sender_msgs(
                ms.take(i as int),
                entry@.twitter_id,
            ).map_values(|m: MsgCtxView| to_external(entry@, m)),
        decreases n - i,
    {
        let ghost prev = commands@.map_values(|m: ExternalMessage| m@);
        let msg = &messages[i];
        assert(msg@ == ms[i as int]);
        if msg.sender.0 == entry.twitter_id.0 {
            let cmd = ExternalMessage {
                origin: AccountType::Twitter,
                field_address: entry.account.clone(),
                message: msg.message.clone(),
                id: u64_to_string(msg.sender.as_u64()),
                timestamp: Some(msg.created),
            };
            assert(cmd@ == to_external(entry@, ms[i as int]));
            commands.push(cmd);
            proof {
                assert(commands@.map_values(|m: ExternalMessage| m@) =~= prev.push(
                    to_external(entry@, ms[i as int]),
                ));
            }
        }
        proof {
            assert(ms.take(i + 1).drop_last() =~= ms.take(i as int));
            assert(ms.take(i + 1).last() == ms[i as int]);
            let sub = spec_sender_msgs(ms.take(i + 1), entry@.twitter_id);
            let subprev = spec_sender_msgs(ms.take(i as int), entry@.twitter_id);
            if ms[i as int].sender == entry@.twitter_id {
                assert(sub =~= subprev.push(ms[i as int]));
                assert(sub.map_values(|m: MsgCtxView| to_external(entry@, m)) =~= subprev
                    .map_values(|m: MsgCtxView| to_external(entry@, m)).push(
                    to_external(entry@, ms[i as int]),
                ));
            } else {
                assert(sub =~= subprev);
            }
        }
        i = i + 1;
    }
    proof {
        assert(ms.take(n as int) =~= ms);
    }
    let events = VerifierAggregate::process_batch(state, &commands);
    let ghost evs = events@.map_values(|e: IdentityVerification| e@);
    proof {
        assert(evs =~= spec_batch_events(old(state)@, spec_sender_external(entry@, ms)));
        assert(state@ =~= spec_batch_state(old(state)@, spec_sender_external(entry@, ms)));
    }
    let mut saw_valid = false;
    let mut saw_invalid = false;
    let m = events.len();
    let mut j: usize = 0;
    while j < m
        invariant
            j <= m,
            saw_valid == any_valid(evs.take(j as int)),
            saw_invalid == any_invalid(evs.take(j as int)),
            actions@.map_values(|a: TwitterAction| a@) =~= status_actions(evs.take(j as int)),
        decreases m - j,
    {
        let ghost prev = actions@.map_values(|a: TwitterAction| a@);
        let ev = &events[j];
        assert(ev@ == evs[j as int]);
        if ev.is_valid {
            actions.push(
                TwitterAction::StatusChange {
                    address: ev.net_address.clone(),
                    status: ChallengeStatus::Accepted,
                },
            );
            actions.push(
                TwitterAction::NotifyStatusChange { address: ev.net_address.clone() },
            );
            saw_valid = true;
            proof {
                assert(actions@.map_values(|a: TwitterAction| a@) =~= prev + seq![
                    TwitterActionView::StatusChange {
                        address: evs[j as int].net_address,
                        status: ChallengeStatus::Accepted,
                    },
                    TwitterActionView::NotifyStatusChange { address: evs[j as int].net_address },
                ]);
            }
        } else {
            actions.push(
                TwitterAction::StatusChange {
                    address: ev.net_address.clone(),
                    status: ChallengeStatus::Rejected,
                },
            );
            saw_invalid = true;
            proof {
                assert(actions@.map_values(|a: TwitterAction| a@) =~= prev + seq![
                    TwitterActionView::StatusChange {
                        address: evs[j as int].net_address,
                        status: ChallengeStatus::Rejected,
                    },
                ]);
            }
        }
        proof {
            assert(evs.take(j + 1).drop_last() =~= evs.take(j as int));
            assert(evs.take(j + 1).last() == evs[j as int]);
            assert(any_valid(evs.take(j + 1)) == (any_valid(evs.take(j as int))
                || evs[j as int].is_valid)) by {
                if any_valid(evs.take(j as int)) {
                    let w = choose|w: int|
                        0 <= w < evs.take(j as int).len() && (#[trigger] evs.take(
                            j as int,
                        )[w]).is_valid;
                    assert(evs.take(j + 1)[w].is_valid);
                }
                if evs[j as int].is_valid {
                    assert(evs.take(j + 1)[j as int].is_valid);
                }
                if any_valid(evs.take(j + 1)) {
                    let w = choose|w: int|
                        0 <= w < evs.take(j + 1).len() && (#[trigger] evs.take(j + 1)[w]).is_valid;
                    if w < j {
                        assert(evs.take(j as int)[w].is_valid);
                    }
                }
            }
            assert(any_invalid(evs.take(j + 1)) == (any_invalid(evs.take(j as int))
                || !evs[j as int].is_valid)) by {
                if any_invalid(evs.take(j as int)) {
                    let w = choose|w: int|
                        0 <= w < evs.take(j as int).len() && !(#[trigger] evs.take(
                            j as int,
                        )[w]).is_valid;
                    assert(!evs.take(j + 1)[w].is_valid);
                }
                if !evs[j as int].is_valid {
                    assert(!evs.take(j + 1)[j as int].is_valid);
                }
                if any_invalid(evs.take(j + 1)) {
                    let w = choose|w: int|
                        0 <= w < evs.take(j + 1).len() && !(#[trigger] evs.take(j + 1)[w]).is_valid;
                    if w < j {
                        assert(!evs.take(j as int)[w].is_valid);
                    }
                }
            }
        }
        j = j + 1;
    }
    proof {
        assert(evs.take(m as int) =~= evs);
    }
    let response = response_message(saw_valid, saw_invalid);
    actions.push(
        TwitterAction::SendMessage { recipient: entry.twitter_id, text: response },
    );
    proof {
        assert(actions@.map_values(|a: TwitterAction| a@) =~= status_actions(evs) + seq![
            TwitterActionView::SendMessage {
                recipient: entry@.twitter_id,
                text: spec_response(any_valid(evs), any_invalid(evs)),
            },
        ]);
    }
    (actions, events)
}

/// The store after a whole tick: senders processed in resolution order.
pub open spec fn spec_tick_state(
    idents: Seq<IdentityView>,
    entries: Seq<SenderEntryView>,
    msgs: Seq<MsgCtxView>,
) -> Seq<IdentityView>
    decreases entries.len(),
{
    if entries.len() == 0 {
        idents
    } else {
        spec_tick_state(spec_sender_state(idents, entries[0], msgs), entries.drop_first(), msgs)
    }
}

/// Every action of a tick, sender by sender, in order.
pub open spec fn spec_tick_actions(
    idents: Seq<IdentityView>,
    entries: Seq<SenderEntryView>,
    msgs: Seq<MsgCtxView>,
) -> Seq<TwitterActionView>
    decreases entries.len(),
{
    if entries.len() == 0 {
        Seq::empty()
    } else {
        spec_sender_actions(idents, entries[0], msgs) + spec_tick_actions(
            spec_sender_state(idents, entries[0], msgs),
            entries.drop_first(),
            msgs,
        )
    }
}

/// Every event a tick emits, sender by sender, in order.
pub open spec fn spec_tick_events(
    idents: Seq<IdentityView>,
    entries: Seq<SenderEntryView>,
    msgs: Seq<MsgCtxView>,
) -> Seq<IdentityVerificationView>
    decreases entries.len(),
{
    if entries.len() == 0 {
        Seq::empty()
    } else {
        spec_sender_events(idents, entries[0], msgs) + spec_tick_events(
            spec_sender_state(idents, entries[0], msgs),
            entries.drop_first(),
            msgs,
        )
    }
}

/// One polling tick over an already-fetched, already-resolved batch:
/// process every sender in order, then raise the channel watermark to the
/// batch's high-water mark — only after the whole batch is processed.
#[verifier::loop_isolation(false)]
pub fn handle_incoming_messages(
    state: &mut IdentityState,
    watermarks: &mut Watermarks,
    messages: &Vec<ReceivedMessageContext>,
    idents: &Vec<SenderEntry>,
    batch_watermark: u64,
) -> (r: (Vec<TwitterAction>, Vec<IdentityVerification>))
    requires
        old(state).wf(),
    ensures
        final(state).wf(),
        final(state)@ =~= spec_tick_state(
            old(state)@,
            idents@.map_values(|c: SenderEntry| c@),
            messages@.map_values(|m: ReceivedMessageContext| m@),
        ),
        r.0@.map_values(|a: TwitterAction| a@) =~= spec_tick_actions(
            old(state)@,
            idents@.map_values(|c: SenderEntry| c@),
            messages@.map_values(|m: ReceivedMessageContext| m@),
        ),
        r.1@.map_values(|e: IdentityVerification| e@) =~= spec_tick_events(
            old(state)@,
            idents@.map_values(|c: SenderEntry| c@),
            messages@.map_values(|m: ReceivedMessageContext| m@),
        ),
        final(watermarks)@ =~= crate::watermark::with_wm(
            old(watermarks)@,
            AccountType::Twitter,
            if batch_watermark > crate::watermark::wm_of(old(watermarks)@, AccountType::Twitter) {
                batch_watermark
            } else {
                crate::watermark::wm_of(old(watermarks)@, AccountType::Twitter)
            },
        ),
        crate::watermark::wm_of(final(watermarks)@, AccountType::Twitter)
            >= crate::watermark::wm_of(old(watermarks)@, AccountType::Twitter),
        crate::watermark::wm_of(final(watermarks)@, AccountType::Twitter) >= batch_watermark,
{
    let ghost ms = messages@.map_values(|m: ReceivedMessageContext| m@);
    let ghost es = idents@.map_values(|c: SenderEntry| c@);
    let mut actions: Vec<TwitterAction> = Vec::new();
    let mut events: Vec<IdentityVerification> = Vec::new();
    let n = idents.len();
    let mut i: usize = 0;
    proof {
        assert(es.skip(0) =~= es);
    }
    while i < n
        invariant
            i <= n,
            state.wf(),
            spec_tick_state(state@, es.skip(i as int), ms) =~= spec_tick_state(
                old(state)@,
                es,
                ms,
            ),
            actions@.map_values(|a: TwitterAction| a@) + spec_tick_actions(
                state@,
                es.skip(i as int),
                ms,
            ) =~= spec_tick_actions(old(state)@, es, ms),
            events@.map_values(|e: IdentityVerification| e@) + spec_tick_events(
                state@,
                es.skip(i as int),
                ms,
            ) =~= spec_tick_events(old(state)@, es, ms),
        decreases n - i,
    {
        let ghost pre = state@;
        let ghost acc_a = actions@.map_values(|a: TwitterAction| a@);
        let ghost acc_e = events@.map_values(|e: IdentityVerification| e@);
        proof {
            assert(es.skip(i as int)[0] == es[i as int]);
            assert(es.skip(i as int).drop_first() =~= es.skip(i + 1));
        }
        let entry = &idents[i];
        assert(entry@ == es[i as int]);
        let (mut sender_actions, mut sender_events) = process_sender(state, entry, messages);
        let sa = sender_actions.len();
        let mut j: usize = 0;
        while j < sa
            invariant
                j <= sa,
                sa == sender_actions.len(),
                sender_actions@.map_values(|a: TwitterAction| a@) =~= spec_sender_actions(
                    pre,
                    es[i as int],
                    ms,
                ),
                actions@.map_values(|a: TwitterAction| a@) =~= acc_a + sender_actions@.map_values(
                    |a: TwitterAction| a@,
                ).take(j as int),
            decreases sa - j,
        {
            let ghost before = actions@.map_values(|a: TwitterAction| a@);
            let ghost sv = sender_actions@.map_values(|a: TwitterAction| a@);
            let a = &sender_actions[j];
            let copied = match a {
                TwitterAction::SendMessage { recipient, text } => TwitterAction::SendMessage {
                    recipient: *recipient,
                    text: text.clone(),
                },
                TwitterAction::ConfirmInit { account } => TwitterAction::ConfirmInit {
                    account: account.clone(),
                },
                TwitterAction::StatusChange { address, status } => TwitterAction::StatusChange {
                    address: address.clone(),
                    status: *status,
                },
                TwitterAction::NotifyStatusChange { address } =>
                    TwitterAction::NotifyStatusChange { address: address.clone() },
            };
            assert(copied@ == sv[j as int]);
            actions.push(copied);
            proof {
                assert(sv.take(j + 1).drop_last() =~= sv.take(j as int));
                assert(sv.take(j + 1).last() == sv[j as int]);
                assert(actions@.map_values(|a: TwitterAction| a@) =~= before.push(sv[j as int]));
                assert(acc_a + sv.take(j + 1) =~= (acc_a + sv.take(j as int)).push(sv[j as int]));
            }
            j = j + 1;
        }
        proof {
            let sv = sender_actions@.map_values(|a: TwitterAction| a@);
            assert(sv.take(sa as int) =~= sv);
        }
        let se = sender_events.len();
        let mut k: usize = 0;
        while k < se
            invariant
                k <= se,
                se == sender_events.len(),
                sender_events@.map_values(|e: IdentityVerification| e@) =~= spec_sender_events(
                    pre,
                    es[i as int],
                    ms,
                ),
                events@.map_values(|e: IdentityVerification| e@) =~= acc_e
                    + sender_events@.map_values(|e: IdentityVerification| e@).take(k as int),
            decreases se - k,
        {
            let ghost before = events@.map_values(|e: IdentityVerification| e@);
            let ghost sv = sender_events@.map_values(|e: IdentityVerification| e@);
            let ev = sender_events[k].clone();
            assert(ev@ == sv[k as int]);
            events.push(ev);
            proof {
                assert(sv.take(k + 1).drop_last() =~= sv.take(k as int));
                assert(sv.take(k + 1).last() == sv[k as int]);
                assert(events@.map_values(|e: IdentityVerification| e@) =~= before.push(
                    sv[k as int],
                ));
                assert(acc_e + sv.take(k + 1) =~= (acc_e + sv.take(k as int)).push(sv[k as int]));
            }
            k = k + 1;
        }
        proof {
            let sv = sender_events@.map_values(|e: IdentityVerification| e@);
            assert(sv.take(se as int) =~= sv);
            assert(state@ =~= spec_sender_state(pre, es[i as int], ms));
            assert(spec_tick_state(pre, es.skip(i as int), ms) == spec_tick_state(
                state@,
                es.skip(i + 1),
                ms,
            ));
            assert(spec_tick_actions(pre, es.skip(i as int), ms) =~= spec_sender_actions(
                pre,
                es[i as int],
                ms,
            ) + spec_tick_actions(state@, es.skip(i + 1), ms));
            assert(spec_tick_events(pre, es.skip(i as int), ms) =~= spec_sender_events(
                pre,
                es[i as int],
                ms,
            ) + spec_tick_events(state@, es.skip(i + 1), ms));
        }
        i = i + 1;
    }
    proof {
        assert(es.skip(n as int).len() == 0);
        assert(actions@.map_values(|a: TwitterAction| a@) + Seq::<TwitterActionView>::empty()
            =~= actions@.map_values(|a: TwitterAction| a@));
        assert(events@.map_values(|e: IdentityVerification| e@) + Seq::<
            IdentityVerificationView,
        >::empty() =~= events@.map_values(|e: IdentityVerification| e@));
    }
    watermarks.update_watermark(AccountType::Twitter, batch_watermark);
    (actions, events)
}

} // verus!
