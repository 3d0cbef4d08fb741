//! One datagram sent or received through a completion token.
//!
//! An operation registers a completion signal, hands the host a token that
//! names the signal, waits until the host fires the signal, reads the status
//! that the host left in the token, and deregisters the signal. The calls
//! into the host are made by whoever drives the operation: [`Operation::resume`]
//! takes the host's answer to the last request and hands out the next one.

use crate::event::{Event, Mailbox, Signal, Userdata};
use crate::status::Status;
use crate::task::{Future, Poll, Waker};
use vstd::prelude::*;

verus! {

/// The token that the host fills in while it works on one operation.
#[derive(Clone, Copy, Debug, PartialEq, Eq, Structural)]
pub struct CompletionToken {
    /// Handle of the signal that the host fires when it is done.
    pub event: usize,
    /// Not-ready until the host has written the final status.
    pub status: Status,
    /// Address of the data to send, or of the data that the host received
    /// (zero until then).
    pub packet: usize,
}

/// Which entry point of the protocol an operation calls.
#[derive(Clone, Copy, Debug, PartialEq, Eq, Structural)]
pub enum Kind {
    Transmit,
    Receive,
}

/// What a successful operation yields.
#[derive(Clone, Copy, Debug, PartialEq, Eq, Structural)]
pub enum Completion {
    /// The datagram was sent.
    Transmitted,
    /// A datagram arrived; the host left its description at this address.
    Received { rx_data: usize },
}

/// What an operation needs from its driver next.
#[derive(Clone, Copy, Debug, PartialEq, Eq)]
pub enum Request {
    /// Register a signal of this type and priority with the host, with the
    /// operation's shared state as the callback's context.
    CreateEvent { boot_services: usize, event_type: u32, notify_tpl: usize },
    /// Call the protocol's transmit entry point with this token.
    Transmit { protocol: usize, token: CompletionToken },
    /// Call the protocol's receive entry point with this token.
    Receive { protocol: usize, token: CompletionToken },
    /// Nothing: the operation is suspended until it is polled again.
    Wait,
    /// Deregister the signal.
    CloseEvent { boot_services: usize, event: usize },
    /// The host failed to deregister the signal. Its shared state is kept,
    /// and the process cannot go on.
    Abort,
    /// The operation has resolved to this result.
    Finished(Result<Completion, Status>),
    /// The operation resolved earlier and has handed out its result.
    Resolved,
}

/// What the driver brings to an operation.
#[derive(Clone, Copy, Debug, PartialEq, Eq, Structural)]
pub enum Reply {
    /// The scheduler polls the operation's task, with this waker.
    Poll(Waker),
    /// The host answered the registration of the signal.
    Created { status: Status, event: usize },
    /// The protocol's entry point returned.
    Returned { status: Status },
    /// The host answered the deregistration of the signal.
    Closed { status: Status },
    /// The operation's task is given up before the operation has resolved.
    Dropped,
}

/// What an operation was started with.
#[derive(Clone, Copy, Debug, PartialEq, Eq, Structural)]
pub struct Call {
    pub kind: Kind,
    pub boot_services: usize,
    pub protocol: usize,
    /// Address of the data to send; zero for a receive.
    pub packet: usize,
}

impl Call {
    /// The token that the host is handed once the signal `event` exists.
    pub open spec fn token(self, event: usize) -> CompletionToken {
        CompletionToken {
            event,
            status: Status { code: (usize::MAX / 2 + 7) as usize },
            packet: self.packet,
        }
    }

    /// The request that hands `token` to the host.
    pub open spec fn issue(self, token: CompletionToken) -> Request {
        match self.kind {
            Kind::Transmit => Request::Transmit { protocol: self.protocol, token },
            Kind::Receive => Request::Receive { protocol: self.protocol, token },
        }
    }

    /// The result of an operation whose signal has fired, from the token as
    /// the host left it.
    pub open spec fn settle(self, token: CompletionToken) -> Result<Completion, Status> {
        if token.status.is_error() {
            Err(token.status)
        } else {
            match self.kind {
                Kind::Transmit => Ok(Completion::Transmitted),
                Kind::Receive => Ok(Completion::Received { rx_data: token.packet }),
            }
        }
    }

    /// The token after the host has written the final status and, for a
    /// receive, the address of what it received.
    pub open spec fn written(self, token: CompletionToken, status: Status, rx_data: usize)
        -> CompletionToken {
        CompletionToken {
            event: token.event,
            status,
            packet: match self.kind {
                Kind::Transmit => token.packet,
                Kind::Receive => rx_data,
            },
        }
    }

    /// Where a poll of the signal takes an operation that the host accepted.
    pub open spec fn polled(self, signal: Signal, token: CompletionToken, waker: Waker) -> State {
        if signal.mailbox.signalled {
            State::Closing { signal: signal.install(waker), result: self.settle(token) }
        } else {
            State::Awaiting { signal: signal.install(waker), token }
        }
    }
}

/// How far an operation has come.
pub enum State {
    /// Not polled yet; nothing exists.
    Start,
    /// The shared state is allocated and the host is asked to register the
    /// signal.
    Creating { mailbox: Mailbox, waker: Waker },
    /// The signal is registered and the host is handed the token.
    Calling { signal: Signal, token: CompletionToken, waker: Waker },
    /// The host accepted the token; the signal has not been seen fired.
    Awaiting { signal: Signal, token: CompletionToken },
    /// The result is known and the host is asked to deregister the signal.
    Closing { signal: Signal, result: Result<Completion, Status> },
    /// The operation was given up and the host is asked to deregister the
    /// signal; there will be no result.
    Abandoning { signal: Signal },
    /// The host failed to deregister the signal.
    Fatal { signal: Signal },
    /// The result has been handed out, or there is none; nothing is left.
    Done,
}

/// An operation as a value.
pub struct OperationView {
    pub call: Call,
    pub state: State,
}

impl OperationView {
    /// An operation that has not been polled.
    pub open spec fn start(call: Call) -> OperationView {
        OperationView { call, state: State::Start }
    }

    /// What the operation is waiting for.
    pub open spec fn request(self) -> Request {
        match self.state {
            State::Start => Request::Wait,
            State::Creating { .. } => Request::CreateEvent {
                boot_services: self.call.boot_services,
                event_type: 0x200,
                notify_tpl: 8,
            },
            State::Calling { token, .. } => self.call.issue(token),
            State::Awaiting { .. } => Request::Wait,
            State::Closing { signal, .. } => Request::CloseEvent {
                boot_services: signal.host,
                event: signal.handle,
            },
            State::Abandoning { signal } => Request::CloseEvent {
                boot_services: signal.host,
                event: signal.handle,
            },
            State::Fatal { .. } => Request::Abort,
            State::Done => Request::Resolved,
        }
    }

    /// The state that `reply` takes the operation to. A reply that the
    /// operation is not waiting for changes nothing. An operation that is
    /// given up while it holds a signal has the signal deregistered first.
    pub open spec fn next(self, reply: Reply) -> State {
        match (self.state, reply) {
            (State::Start, Reply::Poll(waker)) => State::Creating {
                mailbox: Mailbox::fresh(),
                waker,
            },
            (State::Creating { mailbox, waker }, Reply::Created { status, event }) => {
                if status.is_error() {
                    State::Done
                } else {
                    State::Calling {
                        signal: Signal { host: self.call.boot_services, handle: event, mailbox },
                        token: self.call.token(event),
                        waker,
                    }
                }
            },
            (State::Calling { signal, token, waker }, Reply::Returned { status }) => {
                if status.is_error() {
                    State::Closing { signal, result: Err(status) }
                } else {
                    self.call.polled(signal, token, waker)
                }
            },
            (State::Awaiting { signal, token }, Reply::Poll(waker)) => self.call.polled(
                signal,
                token,
                waker,
            ),
            (State::Closing { signal, result }, Reply::Closed { status }) => {
                if status.is_error() {
                    State::Fatal { signal }
                } else {
                    State::Done
                }
            },
            (State::Abandoning { signal }, Reply::Closed { status }) => {
                if status.is_error() {
                    State::Fatal { signal }
                } else {
                    State::Done
                }
            },
            (State::Start, Reply::Dropped) => State::Done,
            (State::Calling { signal, .. }, Reply::Dropped) => State::Abandoning { signal },
            (State::Awaiting { signal, .. }, Reply::Dropped) => State::Abandoning { signal },
            (State::Closing { signal, .. }, Reply::Dropped) => State::Abandoning { signal },
            (state, _) => state,
        }
    }

    /// The operation after `reply`.
    pub open spec fn resume(self, reply: Reply) -> OperationView {
        OperationView { call: self.call, state: self.next(reply) }
    }

    /// What the operation hands its driver on `reply`: its result at the
    /// step that resolves it, and otherwise what it then waits for.
    pub open spec fn respond(self, reply: Reply) -> Request {
        match (self.state, reply) {
            (State::Creating { .. }, Reply::Created { status, .. }) if status.is_error() => {
                Request::Finished(Err(status))
            },
            (State::Closing { result, .. }, Reply::Closed { status }) if !status.is_error() => {
                Request::Finished(result)
            },
            _ => self.resume(reply).request(),
        }
    }

    /// The operation after the host has written `status` (and, for a
    /// receive, `rx_data`) into the token and fired the signal. The host does
    /// so only while it holds the token.
    pub open spec fn complete(self, status: Status, rx_data: usize) -> OperationView {
        OperationView {
            call: self.call,
            state: match self.state {
                State::Calling { signal, token, waker } => State::Calling {
                    signal: signal.fire(),
                    token: self.call.written(token, status, rx_data),
                    waker,
                },
                State::Awaiting { signal, token } => State::Awaiting {
                    signal: signal.fire(),
                    token: self.call.written(token, status, rx_data),
                },
                state => state,
            },
        }
    }

    /// The waker that the host's callback hands out.
    pub open spec fn woken(self) -> Option<Waker> {
        match self.state {
            State::Calling { signal, .. } => signal.mailbox.waker,
            State::Awaiting { signal, .. } => signal.mailbox.waker,
            _ => None,
        }
    }
}

/// One thing that happens to an operation.
pub enum Input {
    /// Its driver brings a reply.
    Driver(Reply),
    /// The host completes it: writes the token and fires the signal.
    Host { status: Status, rx_data: usize },
}

impl OperationView {
    /// The operation after one input.
    pub open spec fn feed(self, input: Input) -> OperationView {
        match input {
            Input::Driver(reply) => self.resume(reply),
            Input::Host { status, rx_data } => self.complete(status, rx_data),
        }
    }

    /// The operation after a sequence of inputs.
    pub open spec fn run(self, inputs: Seq<Input>) -> OperationView
        decreases inputs.len(),
    {
        if inputs.len() == 0 {
            self
        } else {
            self.run(inputs.drop_last()).feed(inputs.last())
        }
    }

    /// The signal that the host has registered for the operation and not
    /// deregistered, with its shared state.
    pub open spec fn signal(self) -> Option<Signal> {
        match self.state {
            State::Calling { signal, .. } => Some(signal),
            State::Awaiting { signal, .. } => Some(signal),
            State::Closing { signal, .. } => Some(signal),
            State::Abandoning { signal } => Some(signal),
            State::Fatal { signal } => Some(signal),
            _ => None,
        }
    }

    /// Whether the operation holds the shared state of a signal that the
    /// host has registered.
    pub open spec fn holds_signal(self) -> bool {
        self.signal() is Some
    }

    /// Whether the operation is past an error that the host reported at
    /// once: all that is left is to deregister the signal and to hand out
    /// `status`.
    pub open spec fn winds_down(self, status: Status) -> bool {
        match self.state {
            State::Closing { result, .. } => result == Err::<Completion, Status>(status),
            State::Abandoning { .. } => true,
            State::Fatal { .. } => true,
            State::Done => true,
            _ => false,
        }
    }

    /// Whether the host has not fired the signal, as far as the operation's
    /// state shows.
    pub open spec fn unsignalled(self) -> bool {
        match self.state {
            State::Creating { mailbox, .. } => !mailbox.signalled,
            State::Calling { signal, .. } => !signal.mailbox.signalled,
            State::Awaiting { signal, .. } => !signal.mailbox.signalled,
            State::Closing { result, .. } => result is Err,
            _ => true,
        }
    }
}

/// Whether `request` belongs to the teardown after the immediate error
/// `status`.
pub open spec fn is_teardown(request: Request, status: Status) -> bool {
    request is CloseEvent || request is Abort || request is Resolved || request
        == Request::Finished(Err(status))
}

proof fn lemma_done_stays_done(done: OperationView, inputs: Seq<Input>)
    requires
        done.state is Done,
    ensures
        done.run(inputs) == done,
    decreases inputs.len(),
{
    if inputs.len() > 0 {
        lemma_done_stays_done(done, inputs.drop_last());
    }
}

proof fn lemma_winding_down_lasts(failed: OperationView, status: Status, inputs: Seq<Input>)
    requires
        failed.winds_down(status),
    ensures
        failed.run(inputs).winds_down(status),
    decreases inputs.len(),
{
    if inputs.len() > 0 {
        lemma_winding_down_lasts(failed, status, inputs.drop_last());
    }
}

proof fn lemma_unsignalled_lasts(start: OperationView, replies: Seq<Input>)
    requires
        start.unsignalled(),
        forall|j: int| 0 <= j < replies.len() ==> replies[j] is Driver,
    ensures
        start.run(replies).unsignalled(),
    decreases replies.len(),
{
    if replies.len() > 0 {
        lemma_unsignalled_lasts(start, replies.drop_last());
        assert(replies.last() is Driver);
    }
}

/// An operation hands out its result exactly once: after the step that
/// resolves it, whatever happens, it answers that it has resolved.
pub proof fn lemma_resolves_once(
    operation: OperationView,
    reply: Reply,
    rest: Seq<Input>,
    later: Reply,
)
    requires
        operation.respond(reply) is Finished,
    ensures
        operation.resume(reply).run(rest).respond(later) == Request::Resolved,
{
    lemma_done_stays_done(operation.resume(reply), rest);
}

/// An operation does not resolve to a success before the host has completed
/// it. However often it is polled until then, it stays suspended.
pub proof fn lemma_pending_until_completed(call: Call, replies: Seq<Input>, reply: Reply)
    requires
        forall|j: int| 0 <= j < replies.len() ==> replies[j] is Driver,
    ensures
        ({
            let reached = OperationView::start(call).run(replies);
            &&& !(reached.respond(reply) matches Request::Finished(Ok(_)))
            &&& reached.state is Awaiting && reply is Poll ==> reached.respond(reply)
                == Request::Wait && reached.resume(reply).state is Awaiting
        }),
{
    lemma_unsignalled_lasts(OperationView::start(call), replies);
}

/// A host that refuses to register the signal ends the operation at once:
/// it resolves to the host's status, holds no signal, and asks for nothing
/// more.
pub proof fn lemma_refused_registration_ends(
    operation: OperationView,
    status: Status,
    event: usize,
    rest: Seq<Input>,
    later: Reply,
)
    requires
        operation.state is Creating,
        status.is_error(),
    ensures
        ({
            let reply = Reply::Created { status, event };
            &&& operation.respond(reply) == Request::Finished(Err(status))
            &&& !operation.resume(reply).holds_signal()
            &&& operation.resume(reply).run(rest).respond(later) == Request::Resolved
        }),
{
    lemma_done_stays_done(operation.resume(Reply::Created { status, event }), rest);
}

/// An entry point that reports an error at once is never awaited. The
/// operation asks for the deregistration of its signal and, from then on and
/// whatever happens, only for what belongs to that teardown: it registers no
/// signal, calls no entry point and does not suspend; the result it hands out
/// is the reported status.
pub proof fn lemma_immediate_error_never_awaits(
    operation: OperationView,
    status: Status,
    rest: Seq<Input>,
    later: Reply,
)
    requires
        operation.state is Calling,
        status.is_error(),
    ensures
        ({
            let reply = Reply::Returned { status };
            &&& operation.respond(reply) == Request::CloseEvent {
                boot_services: operation.state->Calling_signal.host,
                event: operation.state->Calling_signal.handle,
            }
            &&& is_teardown(operation.resume(reply).run(rest).respond(later), status)
        }),
{
    lemma_winding_down_lasts(operation.resume(Reply::Returned { status }), status, rest);
}

/// The shared state of a registered signal is given up in one step only:
/// when the host has answered the deregistration without an error.
pub proof fn lemma_released_only_once_deregistered(operation: OperationView, input: Input)
    requires
        operation.holds_signal(),
        !operation.feed(input).holds_signal(),
    ensures
        operation.state is Closing || operation.state is Abandoning,
        input matches Input::Driver(Reply::Closed { status }) && !status.is_error(),
        operation.feed(input).state is Done,
{
}

/// A deregistration that fails is fatal: the operation asks to abort, keeps
/// the signal's shared state as it was, and stays so whatever happens.
pub proof fn lemma_failed_deregistration_is_fatal(
    operation: OperationView,
    status: Status,
    rest: Seq<Input>,
    later: Reply,
)
    requires
        operation.state is Closing || operation.state is Abandoning,
        status.is_error(),
    ensures
        ({
            let reply = Reply::Closed { status };
            let stuck = operation.resume(reply);
            &&& operation.respond(reply) == Request::Abort
            &&& stuck.state is Fatal
            &&& stuck.signal() == operation.signal()
            &&& stuck.run(rest) == stuck
            &&& stuck.run(rest).respond(later) == Request::Abort
        }),
{
    lemma_fatal_stays(operation.resume(Reply::Closed { status }), rest);
}

proof fn lemma_fatal_stays(stuck: OperationView, inputs: Seq<Input>)
    requires
        stuck.state is Fatal,
    ensures
        stuck.run(inputs) == stuck,
    decreases inputs.len(),
{
    if inputs.len() > 0 {
        lemma_fatal_stays(stuck, inputs.drop_last());
    }
}

/// An operation that is given up while the host has a signal registered for
/// it asks for the deregistration, and for nothing else, before its shared
/// state goes: it yields no result, and ends when the host has deregistered.
pub proof fn lemma_abandoned_operation_deregisters(operation: OperationView, closed: Status)
    requires
        operation.holds_signal(),
        !(operation.state is Fatal),
    ensures
        ({
            let left = operation.resume(Reply::Dropped);
            let signal = operation.signal()->Some_0;
            &&& left.signal() == operation.signal()
            &&& operation.respond(Reply::Dropped) == Request::CloseEvent {
                boot_services: signal.host,
                event: signal.handle,
            }
            &&& left.respond(Reply::Poll(Waker { task: 0 })) == operation.respond(Reply::Dropped)
            &&& left.complete(closed, 0) == left
            &&& !closed.is_error() ==> left.respond(Reply::Closed { status: closed })
                == Request::Resolved && left.resume(Reply::Closed { status: closed }).state is Done
            &&& closed.is_error() ==> left.respond(Reply::Closed { status: closed })
                == Request::Abort
        }),
{
}

/// The whole course of an operation that the host accepts and completes
/// while the operation is suspended: the callback wakes the waker of the
/// poll that suspended it, and the next poll resolves the operation, once the
/// signal is deregistered, to what the host wrote: an error status as it is,
/// and any other status as a success.
pub proof fn lemma_accepted_operation_resolves(
    call: Call,
    waker: Waker,
    event: usize,
    created: Status,
    accepted: Status,
    status: Status,
    rx_data: usize,
    closed: Status,
)
    requires
        !created.is_error(),
        !accepted.is_error(),
        !closed.is_error(),
    ensures
        ({
            let polled = OperationView::start(call).resume(Reply::Poll(waker));
            let registered = polled.resume(Reply::Created { status: created, event });
            let suspended = registered.resume(Reply::Returned { status: accepted });
            let completed = suspended.complete(status, rx_data);
            let seen = completed.resume(Reply::Poll(waker));
            &&& registered.respond(Reply::Returned { status: accepted }) == Request::Wait
            &&& suspended.woken() == Some(waker)
            &&& completed.respond(Reply::Poll(waker)) == Request::CloseEvent {
                boot_services: call.boot_services,
                event,
            }
            &&& seen.respond(Reply::Closed { status: closed }) == Request::Finished(
                if status.is_error() {
                    Err(status)
                } else {
                    match call.kind {
                        Kind::Transmit => Ok(Completion::Transmitted),
                        Kind::Receive => Ok(Completion::Received { rx_data }),
                    }
                },
            )
        }),
{
}


enum Stage {
    Start,
    Creating { data: Box<Userdata>, waker: Waker },
    Calling { event: Event, token: CompletionToken, waker: Waker },
    Awaiting { event: Event, token: CompletionToken },
    Closing { event: Event, result: Result<Completion, Status> },
    Abandoning { event: Event },
    Fatal { event: Event },
    Done,
}

impl View for Stage {
    type V = State;

    closed spec fn view(&self) -> State {
        match *self {
            Stage::Start => State::Start,
            Stage::Creating { data, waker } => State::Creating { mailbox: data@, waker },
            Stage::Calling { event, token, waker } => State::Calling {
                signal: event@,
                token,
                waker,
            },
            Stage::Awaiting { event, token } => State::Awaiting { signal: event@, token },
            Stage::Closing { event, result } => State::Closing { signal: event@, result },
            Stage::Abandoning { event } => State::Abandoning { signal: event@ },
            Stage::Fatal { event } => State::Fatal { signal: event@ },
            Stage::Done => State::Done,
        }
    }
}

/// One transmit or receive in flight.
pub struct Operation {
    call: Call,
    stage: Stage,
}

impl View for Operation {
    type V = OperationView;

    closed spec fn view(&self) -> OperationView {
        OperationView { call: self.call, state: self.stage@ }
    }
}

impl Call {
    fn new_token(&self, event: usize) -> (token: CompletionToken)
        ensures
            token == self.token(event),
    {
        CompletionToken { event, status: Status::not_ready(), packet: self.packet }
    }

    fn issue_request(&self, token: CompletionToken) -> (request: Request)
        ensures
            request == self.issue(token),
    {
        match self.kind {
            Kind::Transmit => Request::Transmit { protocol: self.protocol, token },
            Kind::Receive => Request::Receive { protocol: self.protocol, token },
        }
    }

    fn settle_token(&self, token: CompletionToken) -> (result: Result<Completion, Status>)
        ensures
            result == self.settle(token),
    {
        if token.status.is_error() {
            Err(token.status)
        } else {
            match self.kind {
                Kind::Transmit => Ok(Completion::Transmitted),
                Kind::Receive => Ok(Completion::Received { rx_data: token.packet }),
            }
        }
    }

    fn write_token(&self, token: CompletionToken, status: Status, rx_data: usize) -> (written:
        CompletionToken)
        ensures
            written == self.written(token, status, rx_data),
    {
        CompletionToken {
            event: token.event,
            status,
            packet: match self.kind {
                Kind::Transmit => token.packet,
                Kind::Receive => rx_data,
            },
        }
    }

    /// Polls the signal of an operation that the host has accepted: the
    /// waker goes in first, the flag is read second, and the token is read
    /// only if the flag is up.
    fn poll_signal(&self, event: Event, token: CompletionToken, waker: Waker) -> (polled: (
        Stage,
        Request,
    ))
        ensures
            polled.0@ == self.polled(event@, token, waker),
            polled.1 == (OperationView { call: *self, state: polled.0@ }).request(),
    {
        let mut event = event;
        match event.poll(waker) {
            Poll::Ready(_) => {
                let result = self.settle_token(token);
                let request = Request::CloseEvent {
                    boot_services: event.get_boot_services(),
                    event: event.get_raw_event(),
                };
                (Stage::Closing { event, result }, request)
            },
            Poll::Pending => (Stage::Awaiting { event, token }, Request::Wait),
        }
    }
}

impl Operation {
    fn start(call: Call) -> (operation: Operation)
        ensures
            operation@ == OperationView::start(call),
    {
        Operation { call, stage: Stage::Start }
    }

    /// What the operation was started with.
    pub fn call(&self) -> (call: Call)
        ensures
            call == self@.call,
    {
        self.call
    }

    /// Whether the operation has handed out its result.
    pub fn is_done(&self) -> (done: bool)
        ensures
            done == (self@.state is Done),
    {
        match self.stage {
            Stage::Done => true,
            _ => false,
        }
    }

    /// Takes the operation one step on, with what its driver brings.
    pub fn resume(&mut self, reply: Reply) -> (request: Request)
        ensures
            final(self)@ == old(self)@.resume(reply),
            request == old(self)@.respond(reply),
    {
        let mut stage = Stage::Done;
        core::mem::swap(&mut self.stage, &mut stage);
        let call = self.call;
        let (next, request) = match (stage, reply) {
            (Stage::Start, Reply::Poll(waker)) => {
                let registration = Event::registration();
                (
                    Stage::Creating { data: Userdata::new(), waker },
                    Request::CreateEvent {
                        boot_services: call.boot_services,
                        event_type: registration.event_type,
                        notify_tpl: registration.notify_tpl,
                    },
                )
            },
            (Stage::Creating { data, waker }, Reply::Created { status, event }) => {
                match Event::new(call.boot_services, data, status, event) {
                    Err(refused) => (Stage::Done, Request::Finished(Err(refused))),
                    Ok(event) => {
                        let token = call.new_token(event.get_raw_event());
                        (Stage::Calling { event, token, waker }, call.issue_request(token))
                    },
                }
            },
            (Stage::Calling { event, token, waker }, Reply::Returned { status }) => {
                if status.is_error() {
                    let request = Request::CloseEvent {
                        boot_services: event.get_boot_services(),
                        event: event.get_raw_event(),
                    };
                    (Stage::Closing { event, result: Err(status) }, request)
                } else {
                    call.poll_signal(event, token, waker)
                }
            },
            (Stage::Awaiting { event, token }, Reply::Poll(waker)) => call.poll_signal(
                event,
                token,
                waker,
            ),
            (Stage::Closing { event, result }, Reply::Closed { status }) => {
                match event.close(status) {
                    Ok(_) => (Stage::Done, Request::Finished(result)),
                    Err(event) => (Stage::Fatal { event }, Request::Abort),
                }
            },
            (Stage::Abandoning { event }, Reply::Closed { status }) => {
                match event.close(status) {
                    Ok(_) => (Stage::Done, Request::Resolved),
                    Err(event) => (Stage::Fatal { event }, Request::Abort),
                }
            },
            (Stage::Start, Reply::Dropped) => (Stage::Done, Request::Resolved),
            (Stage::Calling { event, .. }, Reply::Dropped) => Operation::abandon(event),
            (Stage::Awaiting { event, .. }, Reply::Dropped) => Operation::abandon(event),
            (Stage::Closing { event, .. }, Reply::Dropped) => Operation::abandon(event),
            (stage, _) => {
                let request = Operation::pending(&call, &stage);
                (stage, request)
            },
        };
        self.stage = next;
        request
    }

    fn abandon(event: Event) -> (abandoned: (Stage, Request))
        ensures
            abandoned.0@ == (State::Abandoning { signal: event@ }),
            abandoned.1 == (Request::CloseEvent {
                boot_services: event@.host,
                event: event@.handle,
            }),
    {
        let request = Request::CloseEvent {
            boot_services: event.get_boot_services(),
            event: event.get_raw_event(),
        };
        (Stage::Abandoning { event }, request)
    }

    fn pending(call: &Call, stage: &Stage) -> (request: Request)
        ensures
            request == (OperationView { call: *call, state: stage@ }).request(),
    {
        match stage {
            Stage::Start => Request::Wait,
            Stage::Creating { .. } => {
                let registration = Event::registration();
                Request::CreateEvent {
                    boot_services: call.boot_services,
                    event_type: registration.event_type,
                    notify_tpl: registration.notify_tpl,
                }
            },
            Stage::Calling { token, .. } => call.issue_request(*token),
            Stage::Awaiting { .. } => Request::Wait,
            Stage::Closing { event, .. } => Request::CloseEvent {
                boot_services: event.get_boot_services(),
                event: event.get_raw_event(),
            },
            Stage::Abandoning { event } => Request::CloseEvent {
                boot_services: event.get_boot_services(),
                event: event.get_raw_event(),
            },
            Stage::Fatal { .. } => Request::Abort,
            Stage::Done => Request::Resolved,
        }
    }

    /// The host's side of the operation: it writes the final status into the
    /// token (and, for a receive, the address of what it received), then
    /// fires the signal. The waker that the callback takes out of the shared
    /// state is handed out for the caller to invoke.
    pub fn complete(&mut self, status: Status, rx_data: usize) -> (woken: Option<Waker>)
        ensures
            final(self)@ == old(self)@.complete(status, rx_data),
            woken == old(self)@.woken(),
    {
        let mut stage = Stage::Done;
        core::mem::swap(&mut self.stage, &mut stage);
        let call = self.call;
        let (next, woken) = match stage {
            Stage::Calling { event, token, waker } => {
                let mut event = event;
                let token = call.write_token(token, status, rx_data);
                let woken = event.callback();
                (Stage::Calling { event, token, waker }, woken)
            },
            Stage::Awaiting { event, token } => {
                let mut event = event;
                let token = call.write_token(token, status, rx_data);
                let woken = event.callback();
                (Stage::Awaiting { event, token }, woken)
            },
            stage => (stage, None),
        };
        self.stage = next;
        woken
    }
}

/// What the host says of a datagram it received, as far as this library
/// reads it.
#[derive(Clone, Copy, Debug, PartialEq, Eq, Structural)]
pub struct ReceiveData {
    /// Handle of the signal that gives the receive buffer back to the host.
    pub recycle_signal: usize,
    pub data_length: u32,
    pub fragment_count: u32,
}

/// The request to give a receive buffer back to the host, by signalling
/// `event`.
#[derive(Clone, Copy, Debug, PartialEq, Eq, Structural)]
pub struct Recycle {
    pub boot_services: usize,
    pub event: usize,
}

/// A received datagram whose buffer still belongs to the host's pool.
///
/// It is neither copied nor cloned, and [`ReceivedPacket::recycle`] uses it
/// up: the buffer is given back once.
#[derive(Debug, PartialEq, Eq)]
pub struct ReceivedPacket {
    boot_services: usize,
    data: ReceiveData,
}

impl ReceivedPacket {
    /// The service table of the host that owns the buffer.
    pub closed spec fn host(&self) -> usize {
        self.boot_services
    }

    /// What the host said of the datagram.
    pub closed spec fn received(&self) -> ReceiveData {
        self.data
    }

    /// Wraps what the host left at the address that a receive resolved to.
    pub fn new(boot_services: usize, data: ReceiveData) -> (packet: ReceivedPacket)
        ensures
            packet.host() == boot_services,
            packet.received() == data,
    {
        ReceivedPacket { boot_services, data }
    }

    pub fn data(&self) -> (data: &ReceiveData)
        ensures
            *data == self.received(),
    {
        &self.data
    }

    /// Ends the packet's life: hands out the request that gives its buffer
    /// back to the host.
    pub fn recycle(self) -> (recycle: Recycle)
        ensures
            recycle == (Recycle {
                boot_services: self.host(),
                event: self.received().recycle_signal,
            }),
    {
        Recycle { boot_services: self.boot_services, event: self.data.recycle_signal }
    }
}

/// Starts the transmission of the datagram described at `tx_data` through
/// `protocol`. Nothing happens until the operation is polled.
pub fn transmit(boot_services: usize, protocol: usize, tx_data: usize) -> (operation: Operation)
    ensures
        operation@ == OperationView::start(
            Call { kind: Kind::Transmit, boot_services, protocol, packet: tx_data },
        ),
{
    Operation::start(Call { kind: Kind::Transmit, boot_services, protocol, packet: tx_data })
}

/// Starts the reception of one datagram through `protocol`. Nothing happens
/// until the operation is polled.
pub fn receive(boot_services: usize, protocol: usize) -> (operation: Operation)
    ensures
        operation@ == OperationView::start(
            Call { kind: Kind::Receive, boot_services, protocol, packet: 0 },
        ),
{
    Operation::start(Call { kind: Kind::Receive, boot_services, protocol, packet: 0 })
}

} // verus!
