//! The comms bus: the message vocabulary exchanged between channel
//! adapters and the core, an explicit registry of per-channel outbound
//! queues plus one aggregated inbound queue, and the identity manager that
//! consumes the inbound side.

use vstd::prelude::*;

use crate::identity::IdentityState;
use crate::identity::IdentityView;
use crate::identity::OnChainIdentity;
use crate::primitives::Account;
use crate::primitives::AccountType;
use crate::primitives::Challenge;
use crate::primitives::IdentityAddress;
use crate::primitives::RoomId;

verus! {

/// Mathematical model of an `AddressContext`.
pub ghost struct ContextView {
    pub pub_key: Seq<char>,
    pub address: Seq<char>,
    pub address_ty: AccountType,
}

/// Which identity, which external address, on which channel a bus message
/// talks about.
#[derive(Debug)]
pub struct AddressContext {
    pub pub_key: IdentityAddress,
    pub address: Account,
    pub address_ty: AccountType,
}

impl View for AddressContext {
    type V = ContextView;

    open spec fn view(&self) -> ContextView {
        ContextView {
            pub_key: self.pub_key@,
            address: self.address@,
            address_ty: self.address_ty,
        }
    }
}

impl Clone for AddressContext {
    fn clone(&self) -> (r: Self)
        ensures
            r@ == self@,
    {
        AddressContext {
            pub_key: self.pub_key.clone(),
            address: self.address.clone(),
            address_ty: self.address_ty,
        }
    }
}

/// Mathematical model of a `CommsMessage`.
pub ghost enum CommsMessageView {
    NewOnChainIdentity(IdentityView),
    AccountToVerify { net_account: Seq<char>, account: Seq<char> },
    Inform { context: ContextView, challenge: Seq<char>, room_id: Option<Seq<char>> },
    ValidAddress { context: ContextView },
    InvalidAddress { context: ContextView },
    RoomId { pub_key: Seq<char>, room_id: Seq<char> },
}

/// The bus vocabulary. Inbound to the core: `NewOnChainIdentity`,
/// `AccountToVerify`, `RoomId`. Outbound to one channel adapter:
/// `Inform` (deliver a challenge), `ValidAddress` and `InvalidAddress`
/// (status-change notifications).
#[derive(Debug)]
pub enum CommsMessage {
    NewOnChainIdentity(OnChainIdentity),
    AccountToVerify { net_account: IdentityAddress, account: Account },
    Inform { context: AddressContext, challenge: Challenge, room_id: Option<RoomId> },
    ValidAddress { context: AddressContext },
    InvalidAddress { context: AddressContext },
    RoomId { pub_key: IdentityAddress, room_id: RoomId },
}

pub open spec fn room_opt_view(o: Option<RoomId>) -> Option<Seq<char>> {
    match o {
        Some(r) => Some(r@),
        None => None,
    }
}

impl View for CommsMessage {
    type V = CommsMessageView;

    open spec fn view(&self) -> CommsMessageView {
        match self {
            CommsMessage::NewOnChainIdentity(ident) => CommsMessageView::NewOnChainIdentity(
                ident@,
            ),
            CommsMessage::AccountToVerify { net_account, account } =>
                CommsMessageView::AccountToVerify {
                net_account: net_account@,
                account: account@,
            },
            CommsMessage::Inform { context, challenge, room_id } => CommsMessageView::Inform {
                context: context@,
                challenge: challenge@,
                room_id: room_opt_view(*room_id),
            },
            CommsMessage::ValidAddress { context } => CommsMessageView::ValidAddress {
                context: context@,
            },
            CommsMessage::InvalidAddress { context } => CommsMessageView::InvalidAddress {
                context: context@,
            },
            CommsMessage::RoomId { pub_key, room_id } => CommsMessageView::RoomId {
                pub_key: pub_key@,
                room_id: room_id@,
            },
        }
    }
}

/// Mathematical model of the bus: one inbound queue, one outbound queue
/// per channel type.
#[verifier::ext_equal]
pub ghost struct BusView {
    pub inbound: Seq<CommsMessageView>,
    pub display_name_out: Seq<CommsMessageView>,
    pub legal_name_out: Seq<CommsMessageView>,
    pub email_out: Seq<CommsMessageView>,
    pub web_out: Seq<CommsMessageView>,
    pub twitter_out: Seq<CommsMessageView>,
    pub matrix_out: Seq<CommsMessageView>,
}

/// The outbound queue of one channel type.
pub open spec fn out_queue(b: BusView, ty: AccountType) -> Seq<CommsMessageView> {
    match ty {
        AccountType::DisplayName => b.display_name_out,
        AccountType::LegalName => b.legal_name_out,
        AccountType::Email => b.email_out,
        AccountType::Web => b.web_out,
        AccountType::Twitter => b.twitter_out,
        AccountType::Matrix => b.matrix_out,
    }
}

/// The bus with one outbound queue replaced.
pub open spec fn with_out_queue(b: BusView, ty: AccountType, q: Seq<CommsMessageView>) -> BusView {
    match ty {
        AccountType::DisplayName => BusView { display_name_out: q, ..b },
        AccountType::LegalName => BusView { legal_name_out: q, ..b },
        AccountType::Email => BusView { email_out: q, ..b },
        AccountType::Web => BusView { web_out: q, ..b },
        AccountType::Twitter => BusView { twitter_out: q, ..b },
        AccountType::Matrix => BusView { matrix_out: q, ..b },
    }
}

/// The message-multiplexing layer: each adapter drains its own outbound
/// queue and feeds the shared inbound queue; the core drains the inbound
/// queue. All queues are FIFO.
pub struct CommsBus {
    pub inbound: Vec<CommsMessage>,
    pub display_name_out: Vec<CommsMessage>,
    pub legal_name_out: Vec<CommsMessage>,
    pub email_out: Vec<CommsMessage>,
    pub web_out: Vec<CommsMessage>,
    pub twitter_out: Vec<CommsMessage>,
    pub matrix_out: Vec<CommsMessage>,
}

pub open spec fn msgs_view(v: Seq<CommsMessage>) -> Seq<CommsMessageView> {
    v.map_values(|m: CommsMessage| m@)
}

impl View for CommsBus {
    type V = BusView;

    open spec fn view(&self) -> BusView {
        BusView {
            inbound: msgs_view(self.inbound@),
            display_name_out: msgs_view(self.display_name_out@),
            legal_name_out: msgs_view(self.legal_name_out@),
            email_out: msgs_view(self.email_out@),
            web_out: msgs_view(self.web_out@),
            twitter_out: msgs_view(self.twitter_out@),
            matrix_out: msgs_view(self.matrix_out@),
        }
    }
}

impl CommsBus {
    /// A bus with every queue empty.
    pub fn new() -> (r: CommsBus)
        ensures
            r@.inbound =~= Seq::<CommsMessageView>::empty(),
            forall|ty: AccountType| out_queue(r@, ty) =~= Seq::<CommsMessageView>::empty(),
    {
        let bus = CommsBus {
            inbound: Vec::new(),
            display_name_out: Vec::new(),
            legal_name_out: Vec::new(),
            email_out: Vec::new(),
            web_out: Vec::new(),
            twitter_out: Vec::new(),
            matrix_out: Vec::new(),
        };
        proof {
            assert forall|ty: AccountType| out_queue(bus@, ty) =~= Seq::<
                CommsMessageView,
            >::empty() by {
                match ty {
                    AccountType::DisplayName => {},
                    AccountType::LegalName => {},
                    AccountType::Email => {},
                    AccountType::Web => {},
                    AccountType::Twitter => {},
                    AccountType::Matrix => {},
                }
            }
        }
        bus
    }

    /// An adapter hands a message to the core.
    pub fn send_to_core(&mut self, msg: CommsMessage)
        ensures
            final(self)@.inbound =~= old(self)@.inbound.push(msg@),
            forall|ty: AccountType| out_queue(final(self)@, ty) == out_queue(old(self)@, ty),
    {
        self.inbound.push(msg);
        proof {
            assert forall|ty: AccountType| out_queue(final(self)@, ty) == out_queue(
                old(self)@,
                ty,
            ) by {
                match ty {
                    AccountType::DisplayName => {},
                    AccountType::LegalName => {},
                    AccountType::Email => {},
                    AccountType::Web => {},
                    AccountType::Twitter => {},
                    AccountType::Matrix => {},
                }
            }
        }
    }

    /// The core takes the oldest pending inbound message, if any.
    pub fn next_inbound(&mut self) -> (r: Option<CommsMessage>)
        ensures
            old(self)@.inbound.len() == 0 ==> r is None && final(self)@ == old(self)@,
            old(self)@.inbound.len() > 0 ==> r is Some && r->0@ == old(self)@.inbound[0]
                && final(self)@.inbound =~= old(self)@.inbound.drop_first(),
            forall|ty: AccountType| out_queue(final(self)@, ty) == out_queue(old(self)@, ty),
    {
        let r = if self.inbound.len() == 0 {
            None
        } else {
            Some(self.inbound.remove(0))
        };
        proof {
            assert forall|ty: AccountType| out_queue(final(self)@, ty) == out_queue(
                old(self)@,
                ty,
            ) by {
                match ty {
                    AccountType::DisplayName => {},
                    AccountType::LegalName => {},
                    AccountType::Email => {},
                    AccountType::Web => {},
                    AccountType::Twitter => {},
                    AccountType::Matrix => {},
                }
            }
            if old(self)@.inbound.len() > 0 {
                assert(final(self)@.inbound =~= old(self)@.inbound.drop_first());
            } else {
                assert(final(self)@ == old(self)@);
            }
        }
        r
    }

    /// The core hands a message to one channel adapter.
    pub fn send_to_adapter(&mut self, ty: AccountType, msg: CommsMessage)
        ensures
            final(self)@ == with_out_queue(
                old(self)@,
                ty,
                out_queue(old(self)@, ty).push(msg@),
            ),
    {
        let ghost pre = self@;
        let ghost mv = msg@;
        match ty {
            AccountType::DisplayName => self.display_name_out.push(msg),
            AccountType::LegalName => self.legal_name_out.push(msg),
            AccountType::Email => self.email_out.push(msg),
            AccountType::Web => self.web_out.push(msg),
            AccountType::Twitter => self.twitter_out.push(msg),
            AccountType::Matrix => self.matrix_out.push(msg),
        }
        proof {
            assert(out_queue(final(self)@, ty) =~= out_queue(pre, ty).push(mv));
            assert(final(self)@ == with_out_queue(pre, ty, out_queue(final(self)@, ty)));
        }
    }

    /// An adapter takes the oldest message addressed to it, if any.
    pub fn next_for_adapter(&mut self, ty: AccountType) -> (r: Option<CommsMessage>)
        ensures
            out_queue(old(self)@, ty).len() == 0 ==> r is None && final(self)@ == old(self)@,
            out_queue(old(self)@, ty).len() > 0 ==> r is Some && r->0@ == out_queue(
                old(self)@,
                ty,
            )[0] && final(self)@ == with_out_queue(
                old(self)@,
                ty,
                out_queue(old(self)@, ty).drop_first(),
            ),
    {
        let ghost pre = self@;
        let empty = match ty {
            AccountType::DisplayName => self.display_name_out.len() == 0,
            AccountType::LegalName => self.legal_name_out.len() == 0,
            AccountType::Email => self.email_out.len() == 0,
            AccountType::Web => self.web_out.len() == 0,
            AccountType::Twitter => self.twitter_out.len() == 0,
            AccountType::Matrix => self.matrix_out.len() == 0,
        };
        if empty {
            return None;
        }
        let msg = match ty {
            AccountType::DisplayName => self.display_name_out.remove(0),
            AccountType::LegalName => self.legal_name_out.remove(0),
            AccountType::Email => self.email_out.remove(0),
            AccountType::Web => self.web_out.remove(0),
            AccountType::Twitter => self.twitter_out.remove(0),
            AccountType::Matrix => self.matrix_out.remove(0),
        };
        proof {
            assert(msg@ == out_queue(pre, ty)[0]);
            assert(out_queue(final(self)@, ty) =~= out_queue(pre, ty).drop_first());
            assert(final(self)@ == with_out_queue(pre, ty, out_queue(final(self)@, ty)));
        }
        Some(msg)
    }

    /// Deliver a challenge to the adapter serving `address_ty`.
    pub fn inform(
        &mut self,
        pub_key: &IdentityAddress,
        address: &Account,
        address_ty: AccountType,
        challenge: &Challenge,
        room_id: Option<RoomId>,
    )
        ensures
            final(self)@ == with_out_queue(
                old(self)@,
                address_ty,
                out_queue(old(self)@, address_ty).push(
                    CommsMessageView::Inform {
                        context: ContextView {
                            pub_key: pub_key@,
                            address: address@,
                            address_ty: address_ty,
                        },
                        challenge: challenge@,
                        room_id: room_opt_view(room_id),
                    },
                ),
            ),
    {
        let ghost expected = room_opt_view(room_id);
        let msg = CommsMessage::Inform {
            context: AddressContext {
                pub_key: pub_key.clone(),
                address: address.clone(),
                address_ty,
            },
            challenge: challenge.clone(),
            room_id,
        };
        assert(msg@ == CommsMessageView::Inform {
            context: ContextView { pub_key: pub_key@, address: address@, address_ty: address_ty },
            challenge: challenge@,
            room_id: expected,
        });
        self.send_to_adapter(address_ty, msg);
    }

    /// An adapter reports a successful verification upstream.
    pub fn valid_feedback(&mut self, pub_key: &IdentityAddress, addr: &Account, ty: AccountType)
        ensures
            final(self)@.inbound =~= old(self)@.inbound.push(
                CommsMessageView::ValidAddress {
                    context: ContextView { pub_key: pub_key@, address: addr@, address_ty: ty },
                },
            ),
            forall|t: AccountType| out_queue(final(self)@, t) == out_queue(old(self)@, t),
    {
        self.send_to_core(
            CommsMessage::ValidAddress {
                context: AddressContext {
                    pub_key: pub_key.clone(),
                    address: addr.clone(),
                    address_ty: ty,
                },
            },
        );
    }

    /// An adapter reports a failed verification upstream.
    pub fn invalid_feedback(&mut self, pub_key: &IdentityAddress, addr: &Account, ty: AccountType)
        ensures
            final(self)@.inbound =~= old(self)@.inbound.push(
                CommsMessageView::InvalidAddress {
                    context: ContextView { pub_key: pub_key@, address: addr@, address_ty: ty },
                },
            ),
            forall|t: AccountType| out_queue(final(self)@, t) == out_queue(old(self)@, t),
    {
        self.send_to_core(
            CommsMessage::InvalidAddress {
                context: AddressContext {
                    pub_key: pub_key.clone(),
                    address: addr.clone(),
                    address_ty: ty,
                },
            },
        );
    }

    /// An adapter reports a fresh channel binding for an identity.
    pub fn track_room_id(&mut self, pub_key: &IdentityAddress, room_id: &RoomId)
        ensures
            final(self)@.inbound =~= old(self)@.inbound.push(
                CommsMessageView::RoomId { pub_key: pub_key@, room_id: room_id@ },
            ),
            forall|t: AccountType| out_queue(final(self)@, t) == out_queue(old(self)@, t),
    {
        self.send_to_core(
            CommsMessage::RoomId { pub_key: pub_key.clone(), room_id: room_id.clone() },
        );
    }
}

/// Mathematical model of a `RoomBinding`.
pub ghost struct BindingView {
    pub pub_key: Seq<char>,
    pub room_id: Seq<char>,
}

/// One identity's channel session binding.
#[derive(Debug)]
pub struct RoomBinding {
    pub pub_key: IdentityAddress,
    pub room_id: RoomId,
}

impl View for RoomBinding {
    type V = BindingView;

    open spec fn view(&self) -> BindingView {
        BindingView { pub_key: self.pub_key@, room_id: self.room_id@ }
    }
}

/// The binding recorded for `key`, newest first.
pub open spec fn spec_room_for(bindings: Seq<BindingView>, key: Seq<char>) -> Option<Seq<char>>
    decreases bindings.len(),
{
    if bindings.len() == 0 {
        None
    } else if bindings[0].pub_key == key {
        Some(bindings[0].room_id)
    } else {
        spec_room_for(bindings.drop_first(), key)
    }
}

/// Is some identity already registered under `key`?
pub open spec fn spec_has_key(idents: Seq<IdentityView>, key: Seq<char>) -> bool {
    exists|i: int| 0 <= i < idents.len() && (#[trigger] idents[i]).pub_key == key
}

/// What `handle_message` did, so the host knows what to persist.
#[derive(Clone, Copy, PartialEq, Eq, Structural, Debug)]
pub enum ManagerAction {
    Registered { added: bool },
    RoomBound,
    Ignored,
}

/// Mathematical model of the `IdentityManager`.
#[verifier::ext_equal]
pub ghost struct ManagerView {
    pub idents: Seq<IdentityView>,
    pub bindings: Seq<BindingView>,
    pub bus: BusView,
}

/// The manager after admitting one identity: a new public key is appended
/// and, when its matrix field is registered, the matrix adapter is told to
/// deliver the challenge (with the identity's room binding, if one is
/// known); a key already present changes nothing.
pub open spec fn spec_register(m: ManagerView, iv: IdentityView) -> ManagerView {
    if spec_has_key(m.idents, iv.pub_key) {
        m
    } else {
        ManagerView {
            idents: m.idents.push(iv),
            bindings: m.bindings,
            bus: match iv.matrix {
                Some(state) => with_out_queue(
                    m.bus,
                    AccountType::Matrix,
                    out_queue(m.bus, AccountType::Matrix).push(
                        CommsMessageView::Inform {
                            context: ContextView {
                                pub_key: iv.pub_key,
                                address: state.addr,
                                address_ty: AccountType::Matrix,
                            },
                            challenge: state.challenge,
                            room_id: spec_room_for(m.bindings, iv.pub_key),
                        },
                    ),
                ),
                None => m.bus,
            },
        }
    }
}

/// The manager after a room binding update: the new binding shadows any
/// older one for the same key.
pub open spec fn spec_bind_room(m: ManagerView, key: Seq<char>, room: Seq<char>) -> ManagerView {
    ManagerView {
        bindings: seq![BindingView { pub_key: key, room_id: room }] + m.bindings,
        ..m
    }
}

/// One step of the core consumer: what one inbound message does to the
/// manager, and what the host is told about it.
pub open spec fn spec_manager_step(m: ManagerView, msg: CommsMessageView) -> (ManagerView, ManagerAction) {
    match msg {
        CommsMessageView::NewOnChainIdentity(iv) => (
            spec_register(m, iv),
            ManagerAction::Registered { added: !spec_has_key(m.idents, iv.pub_key) },
        ),
        CommsMessageView::RoomId { pub_key, room_id } => (
            spec_bind_room(m, pub_key, room_id),
            ManagerAction::RoomBound,
        ),
        _ => (m, ManagerAction::Ignored),
    }
}

/// The core consumer: owns the identity projection, the room bindings and
/// the bus, and folds inbound messages into them.
pub struct IdentityManager {
    pub idents: IdentityState,
    pub bindings: Vec<RoomBinding>,
    pub comms: CommsBus,
}

impl View for IdentityManager {
    type V = ManagerView;

    open spec fn view(&self) -> ManagerView {
        ManagerView {
            idents: self.idents@,
            bindings: self.bindings@.map_values(|b: RoomBinding| b@),
            bus: self.comms@,
        }
    }
}

impl IdentityManager {
    /// A manager with no identities, no bindings, and an empty bus.
    pub fn new() -> (r: IdentityManager)
        ensures
            r@.idents =~= Seq::<IdentityView>::empty(),
            r@.bindings =~= Seq::<BindingView>::empty(),
            r@.bus.inbound =~= Seq::<CommsMessageView>::empty(),
            forall|ty: AccountType| out_queue(r@.bus, ty) =~= Seq::<CommsMessageView>::empty(),
    {
        IdentityManager { idents: IdentityState::new(), bindings: Vec::new(), comms: CommsBus::new() }
    }

    /// The room binding recorded for `key`, newest first.
    pub fn room_for(&self, key: &IdentityAddress) -> (r: Option<RoomId>)
        ensures
            room_opt_view(r) == spec_room_for(self@.bindings, key@),
    {
        let ghost bs = self@.bindings;
        let n = self.bindings.len();
        let mut i: usize = 0;
        proof {
            assert(bs.skip(0) =~= bs);
        }
        while i < n
            invariant
                n == self.bindings.len(),
                i <= n,
                bs == self@.bindings,
                bs.len() == n,
                forall|k: int| 0 <= k < n ==> bs[k] == (#[trigger] self.bindings@[k])@,
                spec_room_for(bs, key@) == spec_room_for(bs.skip(i as int), key@),
            decreases n - i,
        {
            let b = &self.bindings[i];
            if b.pub_key == *key {
                assert(bs.skip(i as int)[0] == bs[i as int]);
                return Some(b.room_id.clone());
            }
            proof {
                assert(bs.skip(i as int)[0] == bs[i as int]);
                assert(bs.skip(i as int).drop_first() =~= bs.skip(i + 1));
            }
            i = i + 1;
        }
        proof {
            assert(bs.skip(n as int).len() == 0);
        }
        None
    }

    /// Admit one on-chain identity: append it unless its key is already
    /// tracked, and, when its matrix field awaits verification, queue the
    /// challenge delivery for the matrix adapter. Returns whether the
    /// identity is new (the host persists it exactly then).
    pub fn register_request(&mut self, ident: OnChainIdentity) -> (added: bool)
        ensures
            added == !spec_has_key(old(self)@.idents, ident@.pub_key),
            final(self)@ == spec_register(old(self)@, ident@),
    {
        let ghost pre = self@;
        let n = self.idents.identities.len();
        let mut i: usize = 0;
        while i < n
            invariant
                n == self.idents.identities.len(),
                self@ == pre,
                pre.idents.len() == n,
                i <= n,
                forall|k: int|
                    0 <= k < n ==> pre.idents[k] == (#[trigger] self.idents.identities@[k])@,
                forall|k: int| 0 <= k < i ==> (#[trigger] pre.idents[k]).pub_key != ident@.pub_key,
            decreases n - i,
        {
            if self.idents.identities[i].pub_key == ident.pub_key {
                assert(spec_has_key(pre.idents, ident@.pub_key));
                return false;
            }
            i = i + 1;
        }
        assert(!spec_has_key(pre.idents, ident@.pub_key));
        let room = self.room_for(&ident.pub_key);
        match &ident.matrix {
            Some(state) => {
                self.comms.inform(
                    &ident.pub_key,
                    &state.addr,
                    AccountType::Matrix,
                    &state.challenge,
                    room,
                );
            },
            None => {},
        }
        let ghost iv = ident@;
        self.idents.identities.push(ident);
        proof {
            assert(final(self)@.idents =~= pre.idents.push(iv));
            assert(final(self)@ == spec_register(pre, iv));
        }
        true
    }

    /// Record a fresh room binding; it shadows any older one for the key.
    pub fn bind_room(&mut self, pub_key: IdentityAddress, room_id: RoomId)
        ensures
            final(self)@ == spec_bind_room(old(self)@, pub_key@, room_id@),
    {
        let ghost pre = self@;
        self.bindings.insert(0, RoomBinding { pub_key, room_id });
        proof {
            assert(final(self)@.bindings =~= spec_bind_room(pre, pub_key@, room_id@).bindings);
        }
    }

    /// Fold one inbound message: admissions and room bindings mutate the
    /// projection; adapter-bound or upstream-bound notifications are not
    /// for the core and are ignored.
    pub fn handle_message(&mut self, msg: CommsMessage) -> (r: ManagerAction)
        ensures
            (final(self)@, r) == spec_manager_step(old(self)@, msg@),
    {
        match msg {
            CommsMessage::NewOnChainIdentity(ident) => {
                let added = self.register_request(ident);
                ManagerAction::Registered { added }
            },
            CommsMessage::RoomId { pub_key, room_id } => {
                self.bind_room(pub_key, room_id);
                ManagerAction::RoomBound
            },
            _ => ManagerAction::Ignored,
        }
    }

    /// Drain one message from the aggregated inbound queue, if any, and
    /// fold it. The host calls this in its consumer loop.
    pub fn run_once(&mut self) -> (r: Option<ManagerAction>)
        ensures
            old(self)@.bus.inbound.len() == 0 ==> r is None && final(self)@ == old(self)@,
            old(self)@.bus.inbound.len() > 0 ==> {
                let msg = old(self)@.bus.inbound[0];
                let drained = ManagerView {
                    bus: BusView { inbound: old(self)@.bus.inbound.drop_first(), ..old(self)@.bus },
                    ..old(self)@
                };
                r == Some(spec_manager_step(drained, msg).1) && final(self)@ == spec_manager_step(
                    drained,
                    msg,
                ).0
            },
    {
        let ghost pre = old(self)@;
        let msg = match self.comms.next_inbound() {
            Some(m) => m,
            None => {
                return None;
            },
        };
        proof {
            assert(out_queue(self@.bus, AccountType::DisplayName) == out_queue(
                pre.bus,
                AccountType::DisplayName,
            ));
            assert(out_queue(self@.bus, AccountType::LegalName) == out_queue(
                pre.bus,
                AccountType::LegalName,
            ));
            assert(out_queue(self@.bus, AccountType::Email) == out_queue(
                pre.bus,
                AccountType::Email,
            ));
            assert(out_queue(self@.bus, AccountType::Web) == out_queue(pre.bus, AccountType::Web));
            assert(out_queue(self@.bus, AccountType::Twitter) == out_queue(
                pre.bus,
                AccountType::Twitter,
            ));
            assert(out_queue(self@.bus, AccountType::Matrix) == out_queue(
                pre.bus,
                AccountType::Matrix,
            ));
            assert(self@.bus =~= BusView { inbound: pre.bus.inbound.drop_first(), ..pre.bus });
            assert(self@ =~= ManagerView {
                bus: BusView { inbound: pre.bus.inbound.drop_first(), ..pre.bus },
                ..pre
            });
        }
        Some(self.handle_message(msg))
    }
}

} // verus!
