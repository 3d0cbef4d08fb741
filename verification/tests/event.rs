use efi_async::event::{Event, Registration, Userdata};
use efi_async::status::Status;
use efi_async::task::{Future, Poll, Waker};

const HOST: usize = 0x1000;
const HANDLE: usize = 0x2000;

fn ok() -> Status {
    Status::from_usize(0)
}

fn out_of_resources() -> Status {
    Status::from_usize((1 << (usize::BITS - 1)) | 9)
}

fn registered() -> Event {
    match Event::new(HOST, Userdata::new(), ok(), HANDLE) {
        Ok(event) => event,
        Err(_) => panic!("the host accepted the registration"),
    }
}

#[test]
fn new_shared_state_is_not_signalled() {
    let data = Userdata::new();
    assert!(!data.is_signalled());
}

#[test]
fn signal_without_a_poller_wakes_nobody() {
    let mut data = Userdata::new();
    assert_eq!(data.signal(), None);
    assert!(data.is_signalled());
}

#[test]
fn signal_hands_out_the_installed_waker() {
    let mut data = Userdata::new();
    data.set_waker(Waker { task: 7 });
    assert!(!data.is_signalled());
    assert_eq!(data.signal(), Some(Waker { task: 7 }));
    assert!(data.is_signalled());
}

#[test]
fn a_waker_is_handed_out_once() {
    let mut data = Userdata::new();
    data.set_waker(Waker { task: 7 });
    assert_eq!(data.signal(), Some(Waker { task: 7 }));
    assert_eq!(data.signal(), None);
    assert!(data.is_signalled());
}

#[test]
fn the_latest_waker_replaces_the_earlier() {
    let mut data = Userdata::new();
    data.set_waker(Waker { task: 1 });
    data.set_waker(Waker { task: 2 });
    assert_eq!(data.signal(), Some(Waker { task: 2 }));
    assert_eq!(data.signal(), None);
}

#[test]
fn a_waker_installed_after_the_signal_stays_until_the_next() {
    let mut data = Userdata::new();
    assert_eq!(data.signal(), None);
    data.set_waker(Waker { task: 3 });
    assert!(data.is_signalled());
    assert_eq!(data.signal(), Some(Waker { task: 3 }));
}

#[test]
fn registration_asks_for_a_signal_event_at_callback_level() {
    let registration = Event::registration();
    assert_eq!(registration, Registration { event_type: 0x200, notify_tpl: 8 });
    assert_eq!(registration.event_type, r_efi::efi::EVT_NOTIFY_SIGNAL);
    assert_eq!(registration.notify_tpl, r_efi::efi::TPL_CALLBACK);
}

#[test]
fn refused_registration_hands_back_the_status() {
    match Event::new(HOST, Userdata::new(), out_of_resources(), 0) {
        Err(status) => assert_eq!(status, out_of_resources()),
        Ok(_) => panic!("the host refused the registration"),
    }
}

#[test]
fn a_warning_on_registration_is_a_success() {
    assert!(Event::new(HOST, Userdata::new(), Status::from_usize(3), HANDLE).is_ok());
}

#[test]
fn event_keeps_host_and_handle() {
    let event = registered();
    assert_eq!(event.get_raw_event(), HANDLE);
    assert_eq!(event.get_boot_services(), HOST);
    assert!(!event.is_ready());
}

#[test]
fn event_carries_shared_state_over() {
    let mut data = Userdata::new();
    data.set_waker(Waker { task: 4 });
    let mut event = match Event::new(HOST, data, ok(), HANDLE) {
        Ok(event) => event,
        Err(_) => panic!("the host accepted the registration"),
    };
    assert_eq!(event.callback(), Some(Waker { task: 4 }));
}

#[test]
fn poll_before_the_callback_is_pending() {
    let mut event = registered();
    assert!(event.poll(Waker { task: 0 }).is_pending());
    assert!(event.poll(Waker { task: 0 }).is_pending());
    assert!(!event.is_ready());
}

#[test]
fn poll_then_fire_then_poll_resolves() {
    let mut event = registered();
    assert!(event.poll(Waker { task: 5 }).is_pending());
    assert_eq!(event.callback(), Some(Waker { task: 5 }));
    assert!(event.is_ready());
    assert!(matches!(event.poll(Waker { task: 5 }), Poll::Ready(())));
}

#[test]
fn fire_before_the_first_poll_resolves_at_once() {
    let mut event = registered();
    assert_eq!(event.callback(), None);
    assert!(event.poll(Waker { task: 5 }).is_ready());
}

#[test]
fn a_resolved_event_stays_resolved() {
    let mut event = registered();
    event.callback();
    assert!(event.poll(Waker { task: 1 }).is_ready());
    assert!(event.poll(Waker { task: 1 }).is_ready());
    assert!(event.is_ready());
}

#[test]
fn the_callback_wakes_the_latest_poller() {
    let mut event = registered();
    assert!(event.poll(Waker { task: 1 }).is_pending());
    assert!(event.poll(Waker { task: 2 }).is_pending());
    assert_eq!(event.callback(), Some(Waker { task: 2 }));
    assert_eq!(event.callback(), None);
}

#[test]
fn every_interleaving_of_three_polls_and_one_fire() {
    for fire_at in 0..4 {
        let mut event = registered();
        let mut wakes = 0;
        let mut resolved = 0;
        for step in 0..4 {
            if step == fire_at {
                let woken = event.callback();
                assert_eq!(woken.is_some(), fire_at > 0);
                if woken.is_some() {
                    assert_eq!(woken, Some(Waker { task: 10 + fire_at - 1 }));
                    wakes += 1;
                }
            }
            if step < 3 {
                let polled = event.poll(Waker { task: 10 + step });
                assert_eq!(polled.is_ready(), step >= fire_at);
                if polled.is_ready() {
                    resolved += 1;
                }
            }
        }
        assert!(wakes <= 1);
        assert_eq!(resolved, 3 - fire_at.min(3));
    }
}

#[test]
fn close_releases_the_event() {
    let event = registered();
    assert!(event.close(ok()).is_ok());
}

#[test]
fn failed_close_keeps_the_event() {
    let mut event = registered();
    assert!(event.poll(Waker { task: 8 }).is_pending());
    match event.close(out_of_resources()) {
        Err(mut kept) => {
            assert_eq!(kept.get_raw_event(), HANDLE);
            assert_eq!(kept.get_boot_services(), HOST);
            assert_eq!(kept.callback(), Some(Waker { task: 8 }));
        },
        Ok(()) => panic!("the host failed to deregister"),
    }
}
