use efi_async::executor::{block_on, new_executor_and_spawner};
use efi_async::status::Status;
use efi_async::task::{Future, Poll, Waker};
use efi_async::udp4::{
    receive, transmit, Call, Completion, CompletionToken, Kind, Operation, ReceiveData,
    ReceivedPacket, Recycle, Reply, Request,
};
use std::cell::RefCell;
use std::rc::Rc;

const HOST: usize = 0x1000;
const PROTOCOL: usize = 0x2000;
const PAYLOAD: usize = 0x3000;
const HANDLE: usize = 0x4000;
const RX_DATA: usize = 0x5000;
const RECYCLE: usize = 0x6000;
const ERROR: usize = 1 << (usize::BITS - 1);

fn ok() -> Status {
    Status::from_usize(0)
}

fn not_ready() -> Status {
    Status::from_usize(ERROR | 6)
}

fn device_error() -> Status {
    Status::from_usize(ERROR | 7)
}

fn out_of_resources() -> Status {
    Status::from_usize(ERROR | 9)
}

fn timeout() -> Status {
    Status::from_usize(ERROR | 18)
}

fn waker() -> Waker {
    Waker { task: 0 }
}

fn token(packet: usize) -> CompletionToken {
    CompletionToken { event: HANDLE, status: not_ready(), packet }
}

/// Takes a transmit as far as the host's acceptance.
fn accepted_transmit() -> Operation {
    let mut operation = transmit(HOST, PROTOCOL, PAYLOAD);
    operation.resume(Reply::Poll(waker()));
    operation.resume(Reply::Created { status: ok(), event: HANDLE });
    assert_eq!(operation.resume(Reply::Returned { status: ok() }), Request::Wait);
    operation
}

/// Takes a receive as far as the host's acceptance.
fn accepted_receive() -> Operation {
    let mut operation = receive(HOST, PROTOCOL);
    operation.resume(Reply::Poll(waker()));
    operation.resume(Reply::Created { status: ok(), event: HANDLE });
    assert_eq!(operation.resume(Reply::Returned { status: ok() }), Request::Wait);
    operation
}

#[test]
fn transmit_starts_with_what_it_was_given() {
    let operation = transmit(HOST, PROTOCOL, PAYLOAD);
    assert_eq!(
        operation.call(),
        Call { kind: Kind::Transmit, boot_services: HOST, protocol: PROTOCOL, packet: PAYLOAD }
    );
    assert!(!operation.is_done());
}

#[test]
fn receive_starts_with_an_empty_payload() {
    let operation = receive(HOST, PROTOCOL);
    assert_eq!(
        operation.call(),
        Call { kind: Kind::Receive, boot_services: HOST, protocol: PROTOCOL, packet: 0 }
    );
}

#[test]
fn nothing_happens_before_the_first_poll() {
    let mut operation = transmit(HOST, PROTOCOL, PAYLOAD);
    assert_eq!(operation.resume(Reply::Created { status: ok(), event: HANDLE }), Request::Wait);
    assert_eq!(operation.resume(Reply::Returned { status: ok() }), Request::Wait);
    assert_eq!(operation.resume(Reply::Closed { status: ok() }), Request::Wait);
    assert_eq!(operation.complete(ok(), 0), None);
    assert_eq!(
        operation.resume(Reply::Poll(waker())),
        Request::CreateEvent { boot_services: HOST, event_type: 0x200, notify_tpl: 8 }
    );
}

#[test]
fn transmit_choreography_on_success() {
    let mut operation = transmit(HOST, PROTOCOL, PAYLOAD);
    assert_eq!(
        operation.resume(Reply::Poll(Waker { task: 3 })),
        Request::CreateEvent { boot_services: HOST, event_type: 0x200, notify_tpl: 8 }
    );
    assert_eq!(
        operation.resume(Reply::Created { status: ok(), event: HANDLE }),
        Request::Transmit { protocol: PROTOCOL, token: token(PAYLOAD) }
    );
    assert_eq!(operation.resume(Reply::Returned { status: ok() }), Request::Wait);
    assert_eq!(operation.complete(ok(), 0), Some(Waker { task: 3 }));
    assert_eq!(
        operation.resume(Reply::Poll(Waker { task: 3 })),
        Request::CloseEvent { boot_services: HOST, event: HANDLE }
    );
    assert!(!operation.is_done());
    assert_eq!(
        operation.resume(Reply::Closed { status: ok() }),
        Request::Finished(Ok(Completion::Transmitted))
    );
    assert!(operation.is_done());
}

#[test]
fn the_token_starts_not_ready() {
    let mut operation = receive(HOST, PROTOCOL);
    operation.resume(Reply::Poll(waker()));
    match operation.resume(Reply::Created { status: ok(), event: HANDLE }) {
        Request::Receive { protocol, token } => {
            assert_eq!(protocol, PROTOCOL);
            assert_eq!(token.event, HANDLE);
            assert_eq!(token.status.as_usize(), r_efi::efi::Status::NOT_READY.as_usize());
            assert!(token.status.is_error());
            assert_eq!(token.packet, 0);
        },
        other => panic!("unexpected request {:?}", other),
    }
}

#[test]
fn transmit_reports_the_status_the_host_wrote() {
    let mut operation = accepted_transmit();
    assert_eq!(operation.complete(timeout(), 0), Some(waker()));
    assert_eq!(
        operation.resume(Reply::Poll(waker())),
        Request::CloseEvent { boot_services: HOST, event: HANDLE }
    );
    assert_eq!(
        operation.resume(Reply::Closed { status: ok() }),
        Request::Finished(Err(timeout()))
    );
}

#[test]
fn a_warning_from_the_host_is_a_success() {
    let mut operation = accepted_transmit();
    operation.complete(Status::from_usize(4), 0);
    operation.resume(Reply::Poll(waker()));
    assert_eq!(
        operation.resume(Reply::Closed { status: ok() }),
        Request::Finished(Ok(Completion::Transmitted))
    );
}

#[test]
fn a_signal_without_a_written_status_is_an_error() {
    let mut operation = accepted_transmit();
    operation.complete(not_ready(), 0);
    operation.resume(Reply::Poll(waker()));
    assert_eq!(
        operation.resume(Reply::Closed { status: ok() }),
        Request::Finished(Err(not_ready()))
    );
}

#[test]
fn refused_registration_ends_the_operation() {
    let mut operation = transmit(HOST, PROTOCOL, PAYLOAD);
    operation.resume(Reply::Poll(waker()));
    assert_eq!(
        operation.resume(Reply::Created { status: out_of_resources(), event: 0 }),
        Request::Finished(Err(out_of_resources()))
    );
    assert!(operation.is_done());
    assert_eq!(operation.resume(Reply::Poll(waker())), Request::Resolved);
    assert_eq!(operation.resume(Reply::Closed { status: ok() }), Request::Resolved);
    assert_eq!(operation.complete(ok(), 0), None);
}

#[test]
fn transmit_with_an_immediate_error_is_never_awaited() {
    let mut operation = transmit(HOST, PROTOCOL, PAYLOAD);
    operation.resume(Reply::Poll(waker()));
    operation.resume(Reply::Created { status: ok(), event: HANDLE });
    assert_eq!(
        operation.resume(Reply::Returned { status: device_error() }),
        Request::CloseEvent { boot_services: HOST, event: HANDLE }
    );
    assert_eq!(
        operation.resume(Reply::Poll(waker())),
        Request::CloseEvent { boot_services: HOST, event: HANDLE }
    );
    assert_eq!(operation.complete(ok(), 0), None);
    assert_eq!(
        operation.resume(Reply::Closed { status: ok() }),
        Request::Finished(Err(device_error()))
    );
    assert_eq!(operation.resume(Reply::Poll(waker())), Request::Resolved);
}

#[test]
fn receive_with_an_immediate_error_is_never_awaited() {
    let mut operation = receive(HOST, PROTOCOL);
    operation.resume(Reply::Poll(waker()));
    operation.resume(Reply::Created { status: ok(), event: HANDLE });
    assert_eq!(
        operation.resume(Reply::Returned { status: timeout() }),
        Request::CloseEvent { boot_services: HOST, event: HANDLE }
    );
    assert_eq!(
        operation.resume(Reply::Closed { status: ok() }),
        Request::Finished(Err(timeout()))
    );
}

#[test]
fn polls_before_completion_stay_pending() {
    let mut operation = accepted_transmit();
    for task in 0..5 {
        assert_eq!(operation.resume(Reply::Poll(Waker { task })), Request::Wait);
    }
    assert_eq!(operation.complete(ok(), 0), Some(Waker { task: 4 }));
    assert_eq!(operation.complete(ok(), 0), None);
}

#[test]
fn completion_inside_the_call_resolves_at_the_first_look() {
    let mut operation = transmit(HOST, PROTOCOL, PAYLOAD);
    operation.resume(Reply::Poll(waker()));
    operation.resume(Reply::Created { status: ok(), event: HANDLE });
    assert_eq!(operation.complete(ok(), 0), None);
    assert_eq!(
        operation.resume(Reply::Returned { status: ok() }),
        Request::CloseEvent { boot_services: HOST, event: HANDLE }
    );
    assert_eq!(
        operation.resume(Reply::Closed { status: ok() }),
        Request::Finished(Ok(Completion::Transmitted))
    );
}

#[test]
fn failed_deregistration_is_fatal() {
    let mut operation = accepted_transmit();
    operation.complete(ok(), 0);
    operation.resume(Reply::Poll(waker()));
    assert_eq!(operation.resume(Reply::Closed { status: device_error() }), Request::Abort);
    assert!(!operation.is_done());
    assert_eq!(operation.resume(Reply::Closed { status: ok() }), Request::Abort);
    assert_eq!(operation.resume(Reply::Poll(waker())), Request::Abort);
    assert_eq!(operation.complete(ok(), 0), None);
    assert!(!operation.is_done());
}

#[test]
fn the_result_is_handed_out_once() {
    let mut operation = accepted_transmit();
    operation.complete(ok(), 0);
    operation.resume(Reply::Poll(waker()));
    let mut finished = 0;
    for reply in [
        Reply::Closed { status: ok() },
        Reply::Closed { status: ok() },
        Reply::Poll(waker()),
        Reply::Returned { status: ok() },
        Reply::Created { status: ok(), event: HANDLE },
    ] {
        if let Request::Finished(_) = operation.resume(reply) {
            finished += 1;
        }
    }
    assert_eq!(finished, 1);
}

#[test]
fn replies_out_of_turn_change_nothing() {
    let mut operation = transmit(HOST, PROTOCOL, PAYLOAD);
    let create = operation.resume(Reply::Poll(waker()));
    assert_eq!(operation.resume(Reply::Returned { status: ok() }), create);
    assert_eq!(operation.resume(Reply::Closed { status: ok() }), create);
    assert_eq!(operation.resume(Reply::Poll(waker())), create);
    let call = operation.resume(Reply::Created { status: ok(), event: HANDLE });
    assert_eq!(operation.resume(Reply::Created { status: ok(), event: 1 }), call);
    assert_eq!(operation.resume(Reply::Closed { status: ok() }), call);
    assert_eq!(operation.resume(Reply::Poll(waker())), call);
    assert_eq!(operation.resume(Reply::Returned { status: ok() }), Request::Wait);
    assert_eq!(operation.resume(Reply::Returned { status: device_error() }), Request::Wait);
    assert_eq!(operation.resume(Reply::Closed { status: ok() }), Request::Wait);
}

#[test]
fn receive_resolves_to_the_address_the_host_wrote() {
    let mut operation = accepted_receive();
    assert_eq!(operation.complete(ok(), RX_DATA), Some(waker()));
    operation.resume(Reply::Poll(waker()));
    assert_eq!(
        operation.resume(Reply::Closed { status: ok() }),
        Request::Finished(Ok(Completion::Received { rx_data: RX_DATA }))
    );
}

#[test]
fn receive_reports_the_status_the_host_wrote() {
    let mut operation = accepted_receive();
    operation.complete(timeout(), 0);
    operation.resume(Reply::Poll(waker()));
    assert_eq!(
        operation.resume(Reply::Closed { status: ok() }),
        Request::Finished(Err(timeout()))
    );
}

#[test]
fn transmit_keeps_its_payload_address() {
    let mut operation = accepted_transmit();
    operation.complete(ok(), RX_DATA);
    operation.resume(Reply::Poll(waker()));
    assert_eq!(
        operation.resume(Reply::Closed { status: ok() }),
        Request::Finished(Ok(Completion::Transmitted))
    );
}

#[test]
fn packet_recycles_its_buffer() {
    let data = ReceiveData { recycle_signal: RECYCLE, data_length: 12, fragment_count: 1 };
    let packet = ReceivedPacket::new(HOST, data);
    assert_eq!(*packet.data(), data);
    assert_eq!(packet.recycle(), Recycle { boot_services: HOST, event: RECYCLE });
}

/// A host that answers every request at once and completes an accepted
/// operation only when it is told to.
struct StubHost {
    accept: Status,
    requests: Vec<Request>,
    signalled: Vec<usize>,
    received: ReceiveData,
}

impl StubHost {
    fn new(accept: Status) -> Rc<RefCell<StubHost>> {
        Rc::new(RefCell::new(StubHost {
            accept,
            requests: Vec::new(),
            signalled: Vec::new(),
            received: ReceiveData { recycle_signal: RECYCLE, data_length: 5, fragment_count: 1 },
        }))
    }

    fn answer(&mut self, request: Request) -> Option<Reply> {
        self.requests.push(request);
        match request {
            Request::CreateEvent { .. } => Some(Reply::Created { status: ok(), event: HANDLE }),
            Request::Transmit { .. } | Request::Receive { .. } => {
                Some(Reply::Returned { status: self.accept })
            },
            Request::CloseEvent { .. } => Some(Reply::Closed { status: ok() }),
            _ => None,
        }
    }
}

/// An operation as a task: each poll makes the calls that the operation asks
/// for until it suspends or resolves.
struct Driven {
    operation: Operation,
    host: Rc<RefCell<StubHost>>,
    result: Rc<RefCell<Option<Result<Completion, Status>>>>,
}

impl Future for Driven {
    type Output = ();

    fn poll(&mut self, waker: Waker) -> Poll<()> {
        let mut request = self.operation.resume(Reply::Poll(waker));
        loop {
            if let Request::Finished(result) = request {
                assert!(self.result.borrow().is_none(), "resolved twice");
                *self.result.borrow_mut() = Some(result);
                return Poll::Ready(());
            }
            let answer = self.host.borrow_mut().answer(request);
            match answer {
                Some(reply) => request = self.operation.resume(reply),
                None => {
                    assert_eq!(request, Request::Wait);
                    return Poll::Pending;
                },
            }
        }
    }
}

fn driven(
    operation: Operation,
    host: &Rc<RefCell<StubHost>>,
) -> (Driven, Rc<RefCell<Option<Result<Completion, Status>>>>) {
    let result = Rc::new(RefCell::new(None));
    (Driven { operation, host: host.clone(), result: result.clone() }, result)
}

#[test]
fn transmit_end_to_end_resolves_ok() {
    let host = StubHost::new(ok());
    let (task, result) = driven(transmit(HOST, PROTOCOL, PAYLOAD), &host);
    let mut executor = block_on(task);
    assert!(!executor.is_finished());
    assert!(result.borrow().is_none());
    assert_eq!(
        host.borrow().requests,
        vec![
            Request::CreateEvent { boot_services: HOST, event_type: 0x200, notify_tpl: 8 },
            Request::Transmit { protocol: PROTOCOL, token: token(PAYLOAD) },
            Request::Wait,
        ]
    );
    let woken = executor.future_mut(0).expect("suspended").operation.complete(ok(), 0);
    assert_eq!(woken, Some(Waker { task: 0 }));
    executor.wake_by_ref(&Waker { task: 0 });
    assert!(executor.run());
    assert_eq!(*result.borrow(), Some(Ok(Completion::Transmitted)));
    assert_eq!(
        host.borrow().requests[3..],
        [Request::CloseEvent { boot_services: HOST, event: HANDLE }]
    );
}

#[test]
fn transmit_end_to_end_resolves_to_the_error_code() {
    let host = StubHost::new(ok());
    let (task, result) = driven(transmit(HOST, PROTOCOL, PAYLOAD), &host);
    let mut executor = block_on(task);
    assert!(!executor.is_finished());
    let woken = executor.future_mut(0).expect("suspended").operation.complete(device_error(), 0);
    executor.wake_by_ref(&woken.expect("the poller waits"));
    assert!(executor.run());
    assert_eq!(*result.borrow(), Some(Err(device_error())));
}

#[test]
fn transmit_end_to_end_with_an_immediate_error() {
    let host = StubHost::new(device_error());
    let (task, result) = driven(transmit(HOST, PROTOCOL, PAYLOAD), &host);
    let executor = block_on(task);
    assert!(executor.is_finished());
    assert_eq!(*result.borrow(), Some(Err(device_error())));
    assert_eq!(
        host.borrow().requests,
        vec![
            Request::CreateEvent { boot_services: HOST, event_type: 0x200, notify_tpl: 8 },
            Request::Transmit { protocol: PROTOCOL, token: token(PAYLOAD) },
            Request::CloseEvent { boot_services: HOST, event: HANDLE },
        ]
    );
}

#[test]
fn receive_end_to_end_recycles_the_buffer_once() {
    let host = StubHost::new(ok());
    let (task, result) = driven(receive(HOST, PROTOCOL), &host);
    let mut executor = block_on(task);
    assert!(!executor.is_finished());
    let woken = executor.future_mut(0).expect("suspended").operation.complete(ok(), RX_DATA);
    executor.wake_by_ref(&woken.expect("the poller waits"));
    assert!(executor.run());
    let completion = result.borrow_mut().take().expect("resolved").expect("received");
    assert_eq!(completion, Completion::Received { rx_data: RX_DATA });
    let packet = ReceivedPacket::new(HOST, host.borrow().received);
    assert!(host.borrow().signalled.is_empty());
    assert_eq!(packet.data().data_length, 5);
    assert!(host.borrow().signalled.is_empty());
    let recycle = packet.recycle();
    assert_eq!(recycle.boot_services, HOST);
    host.borrow_mut().signalled.push(recycle.event);
    assert_eq!(host.borrow().signalled, vec![RECYCLE]);
}

#[test]
fn transmit_then_receive_on_one_scheduler() {
    let host = StubHost::new(ok());
    let (sending, sent) = driven(transmit(HOST, PROTOCOL, PAYLOAD), &host);
    let (receiving, received) = driven(receive(HOST, PROTOCOL), &host);
    let (mut executor, spawner) = new_executor_and_spawner();
    spawner.spawn(&mut executor, sending);
    spawner.spawn(&mut executor, receiving);
    executor.close(spawner);
    assert!(!executor.run());
    let woken = executor.future_mut(1).expect("suspended").operation.complete(ok(), RX_DATA);
    assert_eq!(woken, Some(Waker { task: 1 }));
    executor.wake_by_ref(&Waker { task: 1 });
    assert!(!executor.run());
    assert!(sent.borrow().is_none());
    assert_eq!(*received.borrow(), Some(Ok(Completion::Received { rx_data: RX_DATA })));
    let woken = executor.future_mut(0).expect("suspended").operation.complete(ok(), 0);
    assert_eq!(woken, Some(Waker { task: 0 }));
    executor.wake_by_ref(&Waker { task: 0 });
    assert!(executor.run());
    assert_eq!(*sent.borrow(), Some(Ok(Completion::Transmitted)));
}

#[test]
fn dropping_an_unpolled_operation_needs_nothing() {
    let mut operation = transmit(HOST, PROTOCOL, PAYLOAD);
    assert_eq!(operation.resume(Reply::Dropped), Request::Resolved);
    assert!(operation.is_done());
    assert_eq!(operation.resume(Reply::Poll(waker())), Request::Resolved);
}

#[test]
fn dropping_a_suspended_operation_deregisters_its_signal() {
    let mut operation = accepted_receive();
    assert_eq!(
        operation.resume(Reply::Dropped),
        Request::CloseEvent { boot_services: HOST, event: HANDLE }
    );
    assert_eq!(
        operation.resume(Reply::Poll(waker())),
        Request::CloseEvent { boot_services: HOST, event: HANDLE }
    );
    assert_eq!(operation.complete(ok(), RX_DATA), None);
    assert!(!operation.is_done());
    assert_eq!(operation.resume(Reply::Closed { status: ok() }), Request::Resolved);
    assert!(operation.is_done());
}

#[test]
fn dropping_an_operation_whose_signal_cannot_be_closed_is_fatal() {
    let mut operation = accepted_transmit();
    operation.resume(Reply::Dropped);
    assert_eq!(operation.resume(Reply::Closed { status: device_error() }), Request::Abort);
    assert_eq!(operation.resume(Reply::Dropped), Request::Abort);
    assert!(!operation.is_done());
}

#[test]
fn dropping_a_resolved_operation_changes_nothing() {
    let mut operation = accepted_transmit();
    operation.complete(ok(), 0);
    assert_eq!(
        operation.resume(Reply::Poll(waker())),
        Request::CloseEvent { boot_services: HOST, event: HANDLE }
    );
    assert_eq!(
        operation.resume(Reply::Dropped),
        Request::CloseEvent { boot_services: HOST, event: HANDLE }
    );
    assert_eq!(operation.resume(Reply::Closed { status: ok() }), Request::Resolved);
    assert_eq!(operation.resume(Reply::Dropped), Request::Resolved);
}
