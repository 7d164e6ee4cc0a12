//! The client's state: the table of requests that wait for a response, and
//! the id that the next request gets. Sending a request registers its
//! callback under a fresh id; a response hands that callback back, with the
//! result or the error, to be called.
//!
//! Each operation's contract equates its effect with `step` on one `Event`,
//! so any sequence of calls on one client is a `run` of events, and the laws
//! at the end of this file, stated over runs, hold of it.

use vstd::prelude::*;
use vstd::pervasive::unreached;
use std::collections::HashMap;
use crate::frame::lsp_frame;
use crate::json::{
    json_string_literal, json_value_text, request_body, notification_body, request_frame,
    notification_frame, encode_json_value,
};
use crate::message::{
    RpcId, RpcIdView, RpcMessage, RpcMessageView, jsonrpc_message, parse_jsonrpc, is_plain_success,
    is_error_response,
};

verus! {

broadcast use vstd::std_specs::hash::group_hash_axioms;

/// What a callback is called with: the result of a request, or the message
/// of the error that the server answered with.
#[derive(Debug)]
pub enum Reply {
    Result(serde_json::Value),
    Error(String),
}

/// The mathematical value of a [`Reply`].
pub enum ReplyView {
    Result(serde_json::Value),
    Error(Seq<char>),
}

impl View for Reply {
    type V = ReplyView;

    open spec fn view(&self) -> ReplyView {
        match self {
            Reply::Result(v) => ReplyView::Result(*v),
            Reply::Error(m) => ReplyView::Error(m@),
        }
    }
}

/// What the client does with an incoming message it accepts.
pub enum Dispatch<C> {
    /// Nothing: the message is no response, the text is no JSON-RPC message,
    /// or the response's id is not a number.
    Ignored,
    /// Call this callback with this reply; its request is no longer pending.
    Deliver(C, Reply),
}

/// A response that the client does not accept: taking it in is a fault of
/// the connection, on which a client stops.
#[derive(PartialEq, Eq, Structural, Debug, Clone, Copy)]
pub enum Refusal {
    /// The response's numeric id is negative or does not fit in a `usize`.
    InvalidId(i64),
    /// No request with this id is pending.
    UnknownId(usize),
}

/// The outcome of an incoming message in the model: what the client does
/// with it, or the refusal of a response it does not accept.
pub enum DispatchView<C> {
    Ignored,
    Deliver(C, ReplyView),
    InvalidId(i64),
    UnknownId(usize),
}

impl Refusal {
    /// The refusal as an outcome of the model.
    pub open spec fn outcome<C>(self) -> DispatchView<C> {
        match self {
            Refusal::InvalidId(n) => DispatchView::InvalidId(n),
            Refusal::UnknownId(n) => DispatchView::UnknownId(n),
        }
    }
}

impl<C> View for Dispatch<C> {
    type V = DispatchView<C>;

    open spec fn view(&self) -> DispatchView<C> {
        match self {
            Dispatch::Ignored => DispatchView::Ignored,
            Dispatch::Deliver(c, r) => DispatchView::Deliver(*c, r@),
        }
    }
}

/// The client's state: the callbacks of the pending requests by id, and the
/// id of the next request.
#[verifier::ext_equal]
pub struct ServerState<C> {
    pub pending: Map<usize, C>,
    pub next_id: nat,
}

/// Ids start at 1, the next id fits in a `usize`, and every pending request
/// has an id that was handed out before the next one.
pub open spec fn wf_state<C>(s: ServerState<C>) -> bool {
    &&& 1 <= s.next_id <= usize::MAX
    &&& forall|id: usize| #[trigger] s.pending.contains_key(id) ==> 1 <= id < s.next_id
}

/// The state after a request with callback `cb` was sent.
pub open spec fn after_request<C>(s: ServerState<C>, cb: C) -> ServerState<C> {
    ServerState { pending: s.pending.insert(s.next_id as usize, cb), next_id: s.next_id + 1 }
}

/// The numeric id and the reply of a response; nothing for any other message
/// and for a response whose id is a string or null.
pub open spec fn response_of(msg: RpcMessageView) -> Option<(i64, ReplyView)> {
    match msg {
        RpcMessageView::Success { id: RpcIdView::Num(n), result } => Some(
            (n, ReplyView::Result(result)),
        ),
        RpcMessageView::Failure { id: RpcIdView::Num(n), message } => Some(
            (n, ReplyView::Error(message)),
        ),
        _ => None,
    }
}

/// The state after a response with id `n` and the action it calls for.
pub open spec fn route_effect<C>(s: ServerState<C>, n: i64, reply: ReplyView) -> (
    ServerState<C>,
    DispatchView<C>,
) {
    if n < 0 || n > usize::MAX {
        (s, DispatchView::InvalidId(n))
    } else if !s.pending.contains_key(n as usize) {
        (s, DispatchView::UnknownId(n as usize))
    } else {
        (
            ServerState { pending: s.pending.remove(n as usize), next_id: s.next_id },
            DispatchView::Deliver(s.pending[n as usize], reply),
        )
    }
}

/// The state after an incoming message and the action it calls for.
pub open spec fn dispatch_effect<C>(s: ServerState<C>, msg: RpcMessageView) -> (
    ServerState<C>,
    DispatchView<C>,
) {
    match response_of(msg) {
        None => (s, DispatchView::Ignored),
        Some((n, reply)) => route_effect(s, n, reply),
    }
}

/// One event in the life of a client: a request sent with its callback, or a
/// message received, which is the JSON-RPC message it reads as, or nothing
/// where it reads as none.
pub enum Event<C> {
    Sent(C),
    Received(Option<RpcMessageView>),
}

/// The state after an event, and the action it calls for (`Ignored` for a
/// request that was sent).
pub open spec fn step<C>(s: ServerState<C>, e: Event<C>) -> (ServerState<C>, DispatchView<C>) {
    match e {
        Event::Sent(cb) => (after_request(s, cb), DispatchView::Ignored),
        Event::Received(None) => (s, DispatchView::Ignored),
        Event::Received(Some(msg)) => dispatch_effect(s, msg),
    }
}

/// The state after a sequence of events, from `s`.
pub open spec fn run<C>(s: ServerState<C>, evs: Seq<Event<C>>) -> ServerState<C>
    decreases evs.len(),
{
    if evs.len() == 0 {
        s
    } else {
        step(run(s, evs.drop_last()), evs.last()).0
    }
}

/// The action that the `i`-th event of a sequence calls for.
pub open spec fn action_at<C>(s: ServerState<C>, evs: Seq<Event<C>>, i: int) -> DispatchView<C> {
    step(run(s, evs.take(i)), evs[i]).1
}

/// The numeric id of a received response; nothing for any other event.
pub open spec fn response_id<C>(e: Event<C>) -> Option<i64> {
    match e {
        Event::Received(Some(msg)) => match response_of(msg) {
            Some((n, _)) => Some(n),
            None => None,
        },
        _ => None,
    }
}

/// The event of receiving a message value: it is written as JSON text and
/// that text is read as a JSON-RPC message.
pub open spec fn received_value<C>(val: serde_json::Value) -> Event<C> {
    Event::Received(jsonrpc_message(json_value_text(val)))
}

/// Whether the client accepts an event in state `s`: every event but a
/// response whose numeric id is negative, too large for a `usize`, or not
/// pending.
pub open spec fn accepts<C>(s: ServerState<C>, e: Event<C>) -> bool {
    !(step(s, e).1 is InvalidId) && !(step(s, e).1 is UnknownId)
}

/// The client side of a connection to a language server.
pub struct LanguageServer<C> {
    pending: HashMap<usize, C>,
    next_id: usize,
}

impl<C> View for LanguageServer<C> {
    type V = ServerState<C>;

    closed spec fn view(&self) -> ServerState<C> {
        ServerState { pending: self.pending@, next_id: self.next_id as nat }
    }
}

impl<C> LanguageServer<C> {
    /// Ids start at 1, and every pending request has an id below the next one.
    #[verifier::type_invariant]
    spec fn inv(self) -> bool {
        wf_state(self@)
    }

    /// A client with no pending request, whose first request gets id 1.
    pub fn new() -> (s: Self)
        ensures
            wf_state(s@),
            s@.pending == Map::<usize, C>::empty(),
            s@.next_id == 1,
    {
        LanguageServer { pending: HashMap::new(), next_id: 1 }
    }

    /// The id that the next request gets.
    pub fn next_request_id(&self) -> (r: usize)
        ensures
            r == self@.next_id,
            wf_state(self@),
    {
        proof {
            use_type_invariant(self);
        }
        self.next_id
    }

    /// Whether a request with this id waits for its response.
    pub fn is_pending(&self, id: usize) -> (r: bool)
        ensures
            r == self@.pending.contains_key(id),
    {
        self.pending.contains_key(&id)
    }

    /// Sends a request: returns the framed request with the next id, and
    /// registers `completion` under that id.
    pub fn send_request(&mut self, method: &str, params: &serde_json::Value, completion: C) -> (r:
        Vec<u8>)
        requires
            old(self)@.next_id < usize::MAX,
        ensures
            wf_state(final(self)@),
            r@ == lsp_frame(
                request_body(
                    old(self)@.next_id,
                    json_string_literal(method@),
                    json_value_text(*params),
                ),
            ),
            !request_body(
                old(self)@.next_id,
                json_string_literal(method@),
                json_value_text(*params),
            ).contains(10u8),
            final(self)@ == after_request(old(self)@, completion),
            final(self)@ == step(old(self)@, Event::Sent(completion)).0,
    {
        proof {
            use_type_invariant(&*self);
        }
        let frame = request_frame(self.next_id, method, params);
        let ghost old_state = self@;
        let id0 = self.next_id;
        let mut pending: HashMap<usize, C> = HashMap::new();
        std::mem::swap(&mut pending, &mut self.pending);
        pending.insert(id0, completion);
        self.next_id = id0 + 1;
        proof {
            assert(pending@ =~= old_state.pending.insert(id0, completion));
            assert forall|id: usize| #[trigger] pending@.contains_key(id) implies 1 <= id < id0
                + 1 by {
                if id != id0 {
                    assert(old_state.pending.contains_key(id));
                }
            }
        }
        self.pending = pending;
        proof {
            assert(self@ == after_request(old_state, completion));
        }
        frame
    }

    /// Sends a notification: returns it framed. The state does not change.
    pub fn send_notification(&self, method: &str, params: &serde_json::Value) -> (r: Vec<u8>)
        ensures
            r@ == lsp_frame(
                notification_body(json_string_literal(method@), json_value_text(*params)),
            ),
            !notification_body(json_string_literal(method@), json_value_text(*params)).contains(
                10u8,
            ),
    {
        notification_frame(method, params)
    }

    /// Takes the callback of `id` out of the table.
    fn take_pending(&mut self, id: usize) -> (cb: C)
        requires
            old(self)@.pending.contains_key(id),
        ensures
            wf_state(final(self)@),
            final(self)@.pending == old(self)@.pending.remove(id),
            final(self)@.next_id == old(self)@.next_id,
            cb == old(self)@.pending[id],
    {
        proof {
            use_type_invariant(&*self);
        }
        let ghost old_state = self@;
        let mut pending: HashMap<usize, C> = HashMap::new();
        std::mem::swap(&mut pending, &mut self.pending);
        let cb = match pending.remove(&id) {
            Some(cb) => cb,
            None => unreached(),
        };
        proof {
            assert(pending@ =~= old_state.pending.remove(id));
        }
        self.pending = pending;
        cb
    }

    /// Takes the callback of the pending request `id` out of the table, to be
    /// called with `result`.
    pub fn handle_response(&mut self, id: usize, result: serde_json::Value) -> (r: (C, Reply))
        requires
            old(self)@.pending.contains_key(id),
        ensures
            wf_state(final(self)@),
            final(self)@.pending == old(self)@.pending.remove(id),
            final(self)@.next_id == old(self)@.next_id,
            r.0 == old(self)@.pending[id],
            r.1@ == ReplyView::Result(result),
    {
        let cb = self.take_pending(id);
        (cb, Reply::Result(result))
    }

    /// Takes the callback of the pending request `id` out of the table, to be
    /// called with the error `message`.
    pub fn handle_error(&mut self, id: usize, message: String) -> (r: (C, Reply))
        requires
            old(self)@.pending.contains_key(id),
        ensures
            wf_state(final(self)@),
            final(self)@.pending == old(self)@.pending.remove(id),
            final(self)@.next_id == old(self)@.next_id,
            r.0 == old(self)@.pending[id],
            r.1@ == ReplyView::Error(message@),
    {
        let cb = self.take_pending(id);
        (cb, Reply::Error(message))
    }

    /// Routes a response with id `n` and its reply.
    fn route(&mut self, n: i64, reply: Reply) -> (r: Dispatch<C>)
        requires
            !(route_effect(old(self)@, n, reply@).1 is InvalidId),
            !(route_effect(old(self)@, n, reply@).1 is UnknownId),
        ensures
            wf_state(final(self)@),
            (final(self)@, r@) == route_effect(old(self)@, n, reply@),
    {
        proof {
            use_type_invariant(&*self);
        }
        let id = n as usize;
        let (cb, reply) = match reply {
            Reply::Result(v) => self.handle_response(id, v),
            Reply::Error(m) => self.handle_error(id, m),
        };
        Dispatch::Deliver(cb, reply)
    }

    /// Whether the client refuses a message: a success or error response
    /// whose numeric id is negative, too large for a `usize`, or not pending.
    pub fn refusal(&self, msg: &RpcMessage) -> (r: Option<Refusal>)
        ensures
            match r {
                None => accepts(self@, Event::Received(Some(msg@))),
                Some(f) => step(self@, Event::Received(Some(msg@))).1 == f.outcome::<C>(),
            },
    {
        let n = match msg {
            RpcMessage::Success { id: RpcId::Num(n), .. } => *n,
            RpcMessage::Failure { id: RpcId::Num(n), .. } => *n,
            _ => return None,
        };
        if n < 0 || n as u64 > usize::MAX as u64 {
            return Some(Refusal::InvalidId(n));
        }
        let id = n as usize;
        if !self.pending.contains_key(&id) {
            return Some(Refusal::UnknownId(id));
        }
        None
    }

    /// Acts on an incoming message: a success or error response with a
    /// numeric id hands back the callback of that request with the result or
    /// the error's message; every other message is ignored. A response whose
    /// id is not that of a pending request is not accepted.
    pub fn dispatch(&mut self, msg: RpcMessage) -> (r: Dispatch<C>)
        requires
            accepts(old(self)@, Event::Received(Some(msg@))),
        ensures
            wf_state(final(self)@),
            (final(self)@, r@) == dispatch_effect(old(self)@, msg@),
            (final(self)@, r@) == step(old(self)@, Event::Received(Some(msg@))),
            msg@ matches RpcMessageView::Success { id: RpcIdView::Num(n), result } ==> {
                &&& r@ == DispatchView::Deliver(
                    old(self)@.pending[n as usize],
                    ReplyView::Result(result),
                )
                &&& final(self)@.pending == old(self)@.pending.remove(n as usize)
            },
            msg@ matches RpcMessageView::Failure { id: RpcIdView::Num(n), message } ==> {
                &&& r@ == DispatchView::Deliver(
                    old(self)@.pending[n as usize],
                    ReplyView::Error(message),
                )
                &&& final(self)@.pending == old(self)@.pending.remove(n as usize)
            },
            (msg@ is Request || msg@ is Notification) ==> r@ == DispatchView::<C>::Ignored
                && final(self)@ == old(self)@,
    {
        proof {
            use_type_invariant(&*self);
        }
        match msg {
            RpcMessage::Success { id: RpcId::Num(n), result } => self.route(n, Reply::Result(result)),
            RpcMessage::Failure { id: RpcId::Num(n), message } => self.route(n, Reply::Error(message)),
            _ => Dispatch::Ignored,
        }
    }

    /// Acts on an incoming message value: writes it as JSON text, reads that
    /// as a JSON-RPC message, and dispatches it. Text that is no JSON-RPC
    /// message is ignored. A response whose id is not that of a pending
    /// request is not accepted.
    pub fn handle_msg(&mut self, val: &serde_json::Value) -> (r: Dispatch<C>)
        requires
            accepts(old(self)@, received_value::<C>(*val)),
        ensures
            wf_state(final(self)@),
            (final(self)@, r@) == step(old(self)@, received_value::<C>(*val)),
            forall|id: nat, result: serde_json::Value|
                #[trigger] is_plain_success(json_value_text(*val), id, result) && id <= usize::MAX
                    && old(self)@.pending.contains_key(id as usize) ==> r@ == DispatchView::Deliver(
                    old(self)@.pending[id as usize],
                    ReplyView::Result(result),
                ) && final(self)@.pending == old(self)@.pending.remove(id as usize),
            forall|code: int, message: Seq<char>, id: nat|
                #[trigger] is_error_response(json_value_text(*val), code, message, id) && id
                    <= usize::MAX && old(self)@.pending.contains_key(id as usize) ==> r@
                    == DispatchView::Deliver(old(self)@.pending[id as usize], ReplyView::Error(message))
                    && final(self)@.pending == old(self)@.pending.remove(id as usize),
    {
        proof {
            use_type_invariant(&*self);
        }
        let ghost old_state = self@;
        let text = match encode_json_value(val) {
            Ok(t) => t,
            Err(_) => unreached(),
        };
        let r = match parse_jsonrpc(text.as_str()) {
            Some(msg) => self.dispatch(msg),
            None => Dispatch::Ignored,
        };
        proof {
            assert forall|id: nat, result: serde_json::Value|
                #[trigger] is_plain_success(json_value_text(*val), id, result) && id <= usize::MAX
                    && old_state.pending.contains_key(id as usize) implies r@ == DispatchView::Deliver(
                    old_state.pending[id as usize],
                    ReplyView::Result(result),
                ) && self@.pending == old_state.pending.remove(id as usize) by {
                assert(is_plain_success(text@, id, result));
                lemma_success_delivers_its_result(old_state, id as i64, result);
            }
            assert forall|code: int, message: Seq<char>, id: nat|
                #[trigger] is_error_response(json_value_text(*val), code, message, id) && id
                    <= usize::MAX && old_state.pending.contains_key(id as usize) implies r@
                    == DispatchView::Deliver(old_state.pending[id as usize], ReplyView::Error(message))
                    && self@.pending == old_state.pending.remove(id as usize) by {
                assert(is_error_response(text@, code, message, id));
                lemma_error_delivers_its_message(old_state, id as i64, message);
            }
        }
        r
    }

    /// Reads an incoming message value as `handle_msg` does, and handles it
    /// where the client accepts it; otherwise returns the refusal and
    /// changes nothing.
    pub fn try_handle_msg(&mut self, val: &serde_json::Value) -> (r: Result<Dispatch<C>, Refusal>)
        ensures
            wf_state(final(self)@),
            match r {
                Ok(d) => {
                    &&& accepts(old(self)@, received_value::<C>(*val))
                    &&& (final(self)@, d@) == step(old(self)@, received_value::<C>(*val))
                },
                Err(f) => {
                    &&& !accepts(old(self)@, received_value::<C>(*val))
                    &&& step(old(self)@, received_value::<C>(*val)).1 == f.outcome::<C>()
                    &&& final(self)@ == old(self)@
                },
            },
            forall|id: nat, result: serde_json::Value|
                #[trigger] is_plain_success(json_value_text(*val), id, result) && id <= usize::MAX
                    && old(self)@.pending.contains_key(id as usize) ==> r is Ok && r.unwrap()@
                    == DispatchView::Deliver(
                    old(self)@.pending[id as usize],
                    ReplyView::Result(result),
                ) && final(self)@.pending == old(self)@.pending.remove(id as usize),
            forall|code: int, message: Seq<char>, id: nat|
                #[trigger] is_error_response(json_value_text(*val), code, message, id) && id
                    <= usize::MAX && old(self)@.pending.contains_key(id as usize) ==> r is Ok
                    && r.unwrap()@ == DispatchView::Deliver(
                    old(self)@.pending[id as usize],
                    ReplyView::Error(message),
                ) && final(self)@.pending == old(self)@.pending.remove(id as usize),
    {
        proof {
            use_type_invariant(&*self);
        }
        let ghost old_state = self@;
        let text = match encode_json_value(val) {
            Ok(t) => t,
            Err(_) => unreached(),
        };
        let parsed = parse_jsonrpc(text.as_str());
        let refused = match &parsed {
            Some(msg) => self.refusal(msg),
            None => None,
        };
        let r = match refused {
            Some(f) => Err(f),
            None => Ok(self.handle_msg(val)),
        };
        proof {
            assert forall|id: nat, result: serde_json::Value|
                #[trigger] is_plain_success(json_value_text(*val), id, result) && id <= usize::MAX
                    && old_state.pending.contains_key(id as usize) implies r is Ok && r.unwrap()@
                    == DispatchView::Deliver(
                    old_state.pending[id as usize],
                    ReplyView::Result(result),
                ) && self@.pending == old_state.pending.remove(id as usize) by {
                assert(is_plain_success(text@, id, result));
                lemma_success_delivers_its_result(old_state, id as i64, result);
            }
            assert forall|code: int, message: Seq<char>, id: nat|
                #[trigger] is_error_response(json_value_text(*val), code, message, id) && id
                    <= usize::MAX && old_state.pending.contains_key(id as usize) implies r is Ok
                    && r.unwrap()@ == DispatchView::Deliver(
                    old_state.pending[id as usize],
                    ReplyView::Error(message),
                ) && self@.pending == old_state.pending.remove(id as usize) by {
                assert(is_error_response(text@, code, message, id));
                lemma_error_delivers_its_message(old_state, id as i64, message);
            }
        }
        r
    }
}

/// A request gets an id that no pending request has, its callback is
/// registered under that id, the other pending requests stay as they were,
/// and the state stays well formed.
pub proof fn lemma_request_gets_fresh_id<C>(s: ServerState<C>, cb: C)
    requires
        wf_state(s),
        s.next_id < usize::MAX,
    ensures
        !s.pending.contains_key(s.next_id as usize),
        after_request(s, cb).pending[s.next_id as usize] == cb,
        after_request(s, cb).pending.remove(s.next_id as usize) == s.pending,
        wf_state(after_request(s, cb)),
{
    let t = after_request(s, cb);
    assert(t.pending.remove(s.next_id as usize) =~= s.pending);
    assert forall|id: usize| #[trigger] t.pending.contains_key(id) implies 1 <= id < t.next_id by {
        if id != s.next_id {
            assert(s.pending.contains_key(id));
        }
    }
}

/// Every response with a numeric id is read as that id and its reply: a
/// success response as its result, whatever that result is (`null`
/// included), and an error response as its error's message.
pub proof fn lemma_response_of_reads_reply(n: i64, v: serde_json::Value, message: Seq<char>)
    ensures
        response_of(RpcMessageView::Success { id: RpcIdView::Num(n), result: v }) == Some(
            (n, ReplyView::Result(v)),
        ),
        response_of(RpcMessageView::Failure { id: RpcIdView::Num(n), message }) == Some(
            (n, ReplyView::Error(message)),
        ),
{
}

/// A success response whose id `n` is pending hands back the callback of
/// request `n` with the response's result as it is, whatever that result is
/// (`null` included), and removes request `n`; nothing else changes.
pub proof fn lemma_success_delivers_its_result<C>(s: ServerState<C>, n: i64, v: serde_json::Value)
    requires
        0 <= n <= usize::MAX,
        s.pending.contains_key(n as usize),
    ensures
        step(s, Event::Received(Some(RpcMessageView::Success { id: RpcIdView::Num(n), result: v })))
            == (
            ServerState { pending: s.pending.remove(n as usize), next_id: s.next_id },
            DispatchView::Deliver(s.pending[n as usize], ReplyView::Result(v)),
        ),
{
}

/// An error response whose id `n` is pending hands back the callback of
/// request `n` with the error's message, and removes request `n`; nothing
/// else changes.
pub proof fn lemma_error_delivers_its_message<C>(s: ServerState<C>, n: i64, message: Seq<char>)
    requires
        0 <= n <= usize::MAX,
        s.pending.contains_key(n as usize),
    ensures
        step(
            s,
            Event::Received(Some(RpcMessageView::Failure { id: RpcIdView::Num(n), message })),
        ) == (
            ServerState { pending: s.pending.remove(n as usize), next_id: s.next_id },
            DispatchView::Deliver(s.pending[n as usize], ReplyView::Error(message)),
        ),
{
}

/// A response with a negative id is refused as invalid, and one with an id
/// that no pending request has is refused as unknown; either way the state
/// stays as it was.
pub proof fn lemma_refused_responses<C>(s: ServerState<C>, n: i64, reply: ReplyView)
    ensures
        n < 0 ==> route_effect(s, n, reply) == (s, DispatchView::<C>::InvalidId(n)),
        0 <= n <= usize::MAX && !s.pending.contains_key(n as usize) ==> route_effect(s, n, reply)
            == (s, DispatchView::<C>::UnknownId(n as usize)),
{
}

/// Every message that is not a success or error response with a numeric id
/// leaves the state as it was and calls for nothing.
pub proof fn lemma_other_messages_ignored<C>(s: ServerState<C>, msg: RpcMessageView)
    requires
        response_of(msg) is None,
    ensures
        dispatch_effect(s, msg) == (s, DispatchView::<C>::Ignored),
{
}

/// Whatever message arrives, the pending requests afterwards are among those
/// before, and the next id does not change.
pub proof fn lemma_dispatch_only_removes<C>(s: ServerState<C>, msg: RpcMessageView)
    requires
        wf_state(s),
    ensures
        dispatch_effect(s, msg).0.pending.dom().subset_of(s.pending.dom()),
        dispatch_effect(s, msg).0.next_id == s.next_id,
        wf_state(dispatch_effect(s, msg).0),
{
}

/// How many requests a sequence of events sends.
pub open spec fn sent_count<C>(evs: Seq<Event<C>>) -> nat
    decreases evs.len(),
{
    if evs.len() == 0 {
        0
    } else {
        sent_count(evs.drop_last()) + if evs.last() is Sent {
            1nat
        } else {
            0nat
        }
    }
}

/// Requests counted over two sequences add up.
pub proof fn lemma_sent_count_append<C>(a: Seq<Event<C>>, b: Seq<Event<C>>)
    ensures
        sent_count(a + b) == sent_count(a) + sent_count(b),
    decreases b.len(),
{
    if b.len() == 0 {
        assert(a + b =~= a);
    } else {
        lemma_sent_count_append(a, b.drop_last());
        assert((a + b).drop_last() =~= a + b.drop_last());
        assert((a + b).last() == b.last());
    }
}

/// The requests sent by a prefix are among those of the whole sequence.
proof fn lemma_sent_count_prefix<C>(evs: Seq<Event<C>>, i: int)
    requires
        0 <= i <= evs.len(),
    ensures
        sent_count(evs.take(i)) <= sent_count(evs),
{
    lemma_sent_count_append(evs.take(i), evs.skip(i));
    assert(evs.take(i) + evs.skip(i) =~= evs);
}

/// One event keeps the state well formed; a sent request raises the next id
/// by one, and a received message leaves it.
proof fn lemma_step_bounds<C>(s: ServerState<C>, e: Event<C>)
    requires
        wf_state(s),
        e is Sent ==> s.next_id < usize::MAX,
    ensures
        wf_state(step(s, e).0),
        step(s, e).0.next_id == s.next_id + if e is Sent {
            1nat
        } else {
            0nat
        },
{
    match e {
        Event::Sent(cb) => lemma_request_gets_fresh_id(s, cb),
        Event::Received(Some(msg)) => lemma_dispatch_only_removes(s, msg),
        Event::Received(None) => {},
    }
}

/// Running `a` and then `b` is running `a + b`.
pub proof fn lemma_run_append<C>(s: ServerState<C>, a: Seq<Event<C>>, b: Seq<Event<C>>)
    ensures
        run(s, a + b) == run(run(s, a), b),
    decreases b.len(),
{
    if b.len() == 0 {
        assert(a + b =~= a);
    } else {
        lemma_run_append(s, a, b.drop_last());
        assert((a + b).drop_last() =~= a + b.drop_last());
        assert((a + b).last() == b.last());
    }
}

/// A run whose requests cannot exhaust the ids keeps the state well formed,
/// and the next id grows by one per request sent.
pub proof fn lemma_run_bounds<C>(s: ServerState<C>, evs: Seq<Event<C>>)
    requires
        wf_state(s),
        s.next_id + sent_count(evs) <= usize::MAX,
    ensures
        wf_state(run(s, evs)),
        run(s, evs).next_id == s.next_id + sent_count(evs),
    decreases evs.len(),
{
    if evs.len() > 0 {
        lemma_run_bounds(s, evs.drop_last());
        lemma_step_bounds(run(s, evs.drop_last()), evs.last());
    }
}

/// A pending request keeps its callback through any events that bring no
/// response with its id.
pub proof fn lemma_pending_entry_kept<C>(s: ServerState<C>, evs: Seq<Event<C>>, k: usize)
    requires
        wf_state(s),
        s.next_id + sent_count(evs) <= usize::MAX,
        s.pending.contains_key(k),
        forall|i: int| 0 <= i < evs.len() ==> (#[trigger] response_id(evs[i]) matches Some(n) ==> n != k),
    ensures
        run(s, evs).pending.contains_key(k),
        run(s, evs).pending[k] == s.pending[k],
    decreases evs.len(),
{
    if evs.len() > 0 {
        let pre = evs.drop_last();
        assert forall|i: int| 0 <= i < pre.len() implies (#[trigger] response_id(pre[i]) matches Some(
            n,
        ) ==> n != k) by {
            assert(pre[i] == evs[i]);
        }
        lemma_pending_entry_kept(s, pre, k);
        lemma_run_bounds(s, pre);
        assert(response_id(evs[evs.len() - 1]) matches Some(n) ==> n != k);
    }
}

/// An id that was handed out and is no longer pending never becomes pending
/// again.
pub proof fn lemma_retired_id_stays_retired<C>(s: ServerState<C>, evs: Seq<Event<C>>, k: usize)
    requires
        wf_state(s),
        s.next_id + sent_count(evs) <= usize::MAX,
        !s.pending.contains_key(k),
        k < s.next_id,
    ensures
        !run(s, evs).pending.contains_key(k),
        k < run(s, evs).next_id,
    decreases evs.len(),
{
    if evs.len() > 0 {
        let pre = evs.drop_last();
        lemma_retired_id_stays_retired(s, pre, k);
        lemma_run_bounds(s, pre);
        lemma_step_bounds(run(s, pre), evs.last());
        match evs.last() {
            Event::Received(Some(msg)) => lemma_dispatch_only_removes(run(s, pre), msg),
            _ => {},
        }
    }
}

/// Requests sent one after another, from any well-formed state, get the ids
/// `next_id`, `next_id + 1`, ... in order, and each callback is registered
/// under its request's id.
pub proof fn lemma_requests_in_a_row<C>(s: ServerState<C>, cbs: Seq<C>)
    requires
        wf_state(s),
        s.next_id + cbs.len() <= usize::MAX,
    ensures
        ({
            let evs = Seq::new(cbs.len(), |i: int| Event::Sent(cbs[i]));
            &&& sent_count(evs) == cbs.len()
            &&& forall|i: int| 0 <= i < cbs.len() ==> #[trigger] run(s, evs.take(i)).next_id == s.next_id + i
            &&& run(s, evs).next_id == s.next_id + cbs.len()
            &&& run(s, evs).pending == s.pending.union_prefer_right(
                Map::new(
                    |k: usize| s.next_id <= k < s.next_id + cbs.len(),
                    |k: usize| cbs[k - s.next_id],
                ),
            )
        }),
    decreases cbs.len(),
{
    let evs = Seq::new(cbs.len(), |i: int| Event::Sent(cbs[i]));
    if cbs.len() > 0 {
        let pre = cbs.drop_last();
        lemma_requests_in_a_row(s, pre);
        let pevs = Seq::new(pre.len(), |i: int| Event::Sent(pre[i]));
        assert(evs.drop_last() =~= pevs);
        let t = run(s, pevs);
        lemma_run_bounds(s, pevs);
        assert forall|i: int| 0 <= i < cbs.len() implies #[trigger] run(s, evs.take(i)).next_id
            == s.next_id + i by {
            if i < pre.len() {
                assert(evs.take(i) =~= pevs.take(i));
            } else {
                assert(evs.take(i) =~= pevs);
            }
        }
        assert(run(s, evs).pending =~= s.pending.union_prefer_right(
            Map::new(
                |k: usize| s.next_id <= k < s.next_id + cbs.len(),
                |k: usize| cbs[k - s.next_id],
            ),
        ));
    } else {
        assert(sent_count(evs) == 0);
        assert(s.pending =~= s.pending.union_prefer_right(
            Map::new(|k: usize| s.next_id <= k < s.next_id + cbs.len(), |k: usize| cbs[k - s.next_id]),
        ));
    }
}

/// From a new client, `n` requests in a row get the ids `1..=n`: the table
/// then holds exactly those ids, the `i`-th with the `i`-th callback, and
/// the next id is `n + 1`.
pub proof fn lemma_new_client_requests<C>(cbs: Seq<C>)
    requires
        cbs.len() < usize::MAX,
    ensures
        ({
            let s = ServerState { pending: Map::<usize, C>::empty(), next_id: 1 };
            let evs = Seq::new(cbs.len(), |i: int| Event::Sent(cbs[i]));
            &&& forall|i: int| 0 <= i < cbs.len() ==> #[trigger] run(s, evs.take(i)).next_id == i + 1
            &&& run(s, evs).next_id == cbs.len() + 1
            &&& run(s, evs).pending == Map::new(
                |k: usize| 1 <= k <= cbs.len(),
                |k: usize| cbs[k - 1],
            )
        }),
{
    let s = ServerState { pending: Map::<usize, C>::empty(), next_id: 1 };
    lemma_requests_in_a_row(s, cbs);
    let evs = Seq::new(cbs.len(), |i: int| Event::Sent(cbs[i]));
    assert(run(s, evs).pending =~= Map::new(|k: usize| 1 <= k <= cbs.len(), |k: usize| cbs[k - 1]));
}

/// A response reaches its own request's callback whatever came in between:
/// if the `j`-th event sends a request with callback `cb`, it gets id `k`,
/// and no event after it and before the `m`-th brings a response with id
/// `k`, then a response with id `k` as the `m`-th event hands back `cb` with
/// that response's reply (its result, or its error's message).
pub proof fn lemma_response_reaches_callback<C>(
    s: ServerState<C>,
    evs: Seq<Event<C>>,
    j: int,
    m: int,
    cb: C,
)
    requires
        wf_state(s),
        s.next_id + sent_count(evs) <= usize::MAX,
        0 <= j < m < evs.len(),
        evs[j] == Event::Sent(cb),
        forall|i: int| j < i < m ==> (#[trigger] response_id(evs[i]) matches Some(n) ==> n != run(
            s,
            evs.take(j),
        ).next_id),
        response_id(evs[m]) matches Some(n) && n == run(s, evs.take(j)).next_id,
    ensures
        action_at(s, evs, m) == DispatchView::Deliver(
            cb,
            response_of(evs[m]->Received_0.unwrap()).unwrap().1,
        ),
{
    let sj = run(s, evs.take(j));
    let k = sj.next_id as usize;
    lemma_sent_count_prefix(evs, m);
    lemma_sent_count_append(evs.take(j + 1), evs.subrange(j + 1, m));
    assert(evs.take(m) =~= evs.take(j + 1) + evs.subrange(j + 1, m));
    assert(evs.take(j + 1).drop_last() =~= evs.take(j));
    assert(sent_count(evs.take(j + 1)) == sent_count(evs.take(j)) + 1);
    lemma_run_bounds(s, evs.take(j));
    lemma_run_bounds(s, evs.take(j + 1));
    let sj1 = run(s, evs.take(j + 1));
    assert(sj1 == after_request(sj, cb));
    let mid = evs.subrange(j + 1, m);
    assert(evs.take(m) =~= evs.take(j + 1) + mid);
    lemma_run_append(s, evs.take(j + 1), mid);
    lemma_request_gets_fresh_id(sj, cb);
    assert forall|i: int| 0 <= i < mid.len() implies (#[trigger] response_id(mid[i]) matches Some(
        n,
    ) ==> n != k) by {
        assert(mid[i] == evs[j + 1 + i]);
    }
    lemma_pending_entry_kept(sj1, mid, k);
    let sm = run(s, evs.take(m));
    assert(sm.pending.contains_key(k) && sm.pending[k] == cb);
    let msg = evs[m]->Received_0.unwrap();
    assert(response_of(msg).unwrap().0 == k);
}

/// A callback is handed back at most once over any run: once a response
/// with id `n` was delivered as the `i`-th event, any later response with id
/// `n` finds no pending request, and the client refuses it.
pub proof fn lemma_delivered_at_most_once<C>(s: ServerState<C>, evs: Seq<Event<C>>, i: int, j: int)
    requires
        wf_state(s),
        s.next_id + sent_count(evs) <= usize::MAX,
        0 <= i < j < evs.len(),
        response_id(evs[i]) is Some,
        response_id(evs[j]) == response_id(evs[i]),
        action_at(s, evs, i) is Deliver,
    ensures
        action_at(s, evs, j) == DispatchView::<C>::UnknownId(response_id(evs[i]).unwrap() as usize),
{
    let si = run(s, evs.take(i));
    let n = response_id(evs[i]).unwrap();
    let k = n as usize;
    lemma_sent_count_prefix(evs, j);
    lemma_sent_count_append(evs.take(i + 1), evs.subrange(i + 1, j));
    assert(evs.take(j) =~= evs.take(i + 1) + evs.subrange(i + 1, j));
    assert(evs.take(i + 1).drop_last() =~= evs.take(i));
    assert(sent_count(evs.take(i + 1)) == sent_count(evs.take(i)));
    lemma_run_bounds(s, evs.take(i));
    lemma_run_bounds(s, evs.take(i + 1));
    let si1 = run(s, evs.take(i + 1));
    let mid = evs.subrange(i + 1, j);
    assert(evs.take(j) =~= evs.take(i + 1) + mid);
    lemma_run_append(s, evs.take(i + 1), mid);
    lemma_step_bounds(si, evs[i]);
    lemma_retired_id_stays_retired(si1, mid, k);
}

} // verus!
