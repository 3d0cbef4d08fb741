//! Completion signals: the bridge from a host callback to a future.
//!
//! The host owns a single-shot notification handle and, when the operation
//! behind it completes, calls back once with the address of a block of shared
//! state. That block is a mailbox with a flag and one waker slot. The callback
//! raises the flag and takes the waker; the poller installs its waker and then
//! looks at the flag. Each of these is one step on the mailbox, and this
//! module states what every sequence of such steps does.

use crate::status::Status;
use crate::task::{Future, Poll, Waker};
use atomic_option::AtomicOption;
use vstd::prelude::*;

verus! {

/// `atomic_option::AtomicOption`, a slot for one boxed value that can be
/// emptied and filled in one step. Nothing is known of a slot but what
/// [`slot_contents`] says it holds.
#[verifier::external_type_specification]
#[verifier::external_body]
#[verifier::reject_recursive_types(T)]
pub struct ExAtomicOption<T>(AtomicOption<T>);

/// What a waker slot holds: nothing, or the number of one task.
pub uninterp spec fn slot_contents(slot: AtomicOption<usize>) -> Option<usize>;

/// `AtomicOption::empty`: a new slot that holds nothing.
#[verifier::external_body]
fn slot_empty() -> (slot: AtomicOption<usize>)
    ensures
        slot_contents(slot) == None::<usize>,
{
    AtomicOption::empty()
}

/// `AtomicOption::take`: hands out what the slot held and leaves it empty.
#[verifier::external_body]
fn slot_take(slot: &mut AtomicOption<usize>) -> (taken: Option<Box<usize>>)
    ensures
        slot_contents(*final(slot)) == None::<usize>,
        taken == match slot_contents(*old(slot)) {
            Some(task) => Some(Box::new(task)),
            None => None,
        },
{
    slot.take(std::sync::atomic::Ordering::Release)
}

/// `AtomicOption::swap`: stores `new` and hands out what the slot held.
#[verifier::external_body]
fn slot_swap(slot: &mut AtomicOption<usize>, new: Box<usize>) -> (replaced: Option<Box<usize>>)
    ensures
        slot_contents(*final(slot)) == Some(*new),
        replaced == match slot_contents(*old(slot)) {
            Some(task) => Some(Box::new(task)),
            None => None,
        },
{
    slot.swap(new, std::sync::atomic::Ordering::Release)
}

/// The shared state of one signal, as a value.
pub struct Mailbox {
    /// Raised by the callback, never lowered.
    pub signalled: bool,
    /// The waker of the poller that is waiting, if one is.
    pub waker: Option<Waker>,
}

impl Mailbox {
    /// A mailbox nobody has touched.
    pub open spec fn fresh() -> Mailbox {
        Mailbox { signalled: false, waker: None }
    }

    /// The mailbox after a poller has put `waker` in the slot. The waker that
    /// was there is dropped.
    pub open spec fn install(self, waker: Waker) -> Mailbox {
        Mailbox { signalled: self.signalled, waker: Some(waker) }
    }

    /// The mailbox after the callback has run.
    pub open spec fn fire(self) -> Mailbox {
        Mailbox { signalled: true, waker: None }
    }

    /// What a poll that finds the mailbox in this state yields.
    pub open spec fn outcome(self) -> Poll<()> {
        if self.signalled {
            Poll::Ready(())
        } else {
            Poll::Pending
        }
    }
}

/// One thing that happens to a signal.
pub enum Step {
    /// A poll that brings this waker.
    Poll(Waker),
    /// The host's callback.
    Fire,
}

impl Mailbox {
    /// The mailbox after one step.
    pub open spec fn step(self, step: Step) -> Mailbox {
        match step {
            Step::Poll(waker) => self.install(waker),
            Step::Fire => self.fire(),
        }
    }

    /// The mailbox after a sequence of steps, in the order in which they
    /// took effect.
    pub open spec fn after(self, steps: Seq<Step>) -> Mailbox
        decreases steps.len(),
    {
        if steps.len() == 0 {
            self
        } else {
            self.after(steps.drop_last()).step(steps.last())
        }
    }
}

/// Whether the callback runs somewhere in `steps`.
pub open spec fn fired(steps: Seq<Step>) -> bool {
    exists|j: int| 0 <= j < steps.len() && steps[j] is Fire
}

/// How often the callback runs in `steps`.
pub open spec fn fires(steps: Seq<Step>) -> nat
    decreases steps.len(),
{
    if steps.len() == 0 {
        0
    } else {
        fires(steps.drop_last()) + if steps.last() is Fire { 1nat } else { 0nat }
    }
}

/// How many polls `steps` holds.
pub open spec fn polls(steps: Seq<Step>) -> nat
    decreases steps.len(),
{
    if steps.len() == 0 {
        0
    } else {
        polls(steps.drop_last()) + if steps.last() is Poll { 1nat } else { 0nat }
    }
}

/// How many wakers the callbacks in `steps` hand out, on a mailbox that
/// starts fresh.
pub open spec fn wakes(steps: Seq<Step>) -> nat
    decreases steps.len(),
{
    if steps.len() == 0 {
        0
    } else {
        let before = Mailbox::fresh().after(steps.drop_last());
        wakes(steps.drop_last()) + if steps.last() is Fire && before.waker is Some {
            1nat
        } else {
            0nat
        }
    }
}

/// The flag of a signal is up exactly when its callback has run.
pub proof fn lemma_flag_follows_callback(steps: Seq<Step>)
    ensures
        Mailbox::fresh().after(steps).signalled <==> fired(steps),
    decreases steps.len(),
{
    if steps.len() > 0 {
        let front = steps.drop_last();
        lemma_flag_follows_callback(front);
        if fired(front) {
            let j = choose|j: int| 0 <= j < front.len() && front[j] is Fire;
            assert(steps[j] is Fire);
        }
        if steps.last() is Fire {
            assert(steps[steps.len() - 1] is Fire);
        }
        if fired(steps) {
            let j = choose|j: int| 0 <= j < steps.len() && steps[j] is Fire;
            if j < front.len() {
                assert(front[j] is Fire);
            }
        }
    }
}

/// In every interleaving of polls and callbacks, a poll resolves if and only
/// if the callback has run before it: never earlier, and from then on always.
pub proof fn lemma_poll_resolves_iff_fired(steps: Seq<Step>, i: int)
    requires
        0 <= i < steps.len(),
        steps[i] is Poll,
    ensures
        Mailbox::fresh().after(steps.take(i)).outcome() is Ready <==> fired(steps.take(i)),
{
    lemma_flag_follows_callback(steps.take(i));
}

/// A signal that a poll found resolved is found resolved by every later
/// poll: it does not go back to pending.
pub proof fn lemma_resolved_stays_resolved(steps: Seq<Step>, i: int, j: int)
    requires
        0 <= i <= j <= steps.len(),
        Mailbox::fresh().after(steps.take(i)).outcome() is Ready,
    ensures
        Mailbox::fresh().after(steps.take(j)).outcome() is Ready,
{
    lemma_flag_follows_callback(steps.take(i));
    lemma_flag_follows_callback(steps.take(j));
    let k = choose|k: int| 0 <= k < steps.take(i).len() && steps.take(i)[k] is Fire;
    assert(steps.take(j)[k] is Fire);
}

/// While the callback has not run, the slot holds the waker of the latest
/// poll. So the callback, when it runs, hands out that waker: the poller that
/// was told to wait is woken.
pub proof fn lemma_waiting_poller_is_woken(steps: Seq<Step>, waker: Waker)
    requires
        !fired(steps),
        steps.len() > 0,
        steps.last() == Step::Poll(waker),
    ensures
        Mailbox::fresh().after(steps).outcome() is Pending,
        Mailbox::fresh().after(steps).waker == Some(waker),
{
    lemma_flag_follows_callback(steps);
}

/// Callbacks hand out at most one waker for each time the host fires the
/// signal, and at most one for each poll that installed one.
pub proof fn lemma_wakes_bounded(steps: Seq<Step>)
    ensures
        wakes(steps) <= fires(steps),
        wakes(steps) <= polls(steps),
        Mailbox::fresh().after(steps).waker is Some ==> wakes(steps) < polls(steps),
    decreases steps.len(),
{
    if steps.len() > 0 {
        lemma_wakes_bounded(steps.drop_last());
    }
}

/// The block of state that a signal shares with the host's callback.
pub struct Userdata {
    waker: AtomicOption<usize>,
    signalled: bool,
}

impl View for Userdata {
    type V = Mailbox;

    closed spec fn view(&self) -> Mailbox {
        Mailbox {
            signalled: self.signalled,
            waker: match slot_contents(self.waker) {
                Some(task) => Some(Waker { task }),
                None => None,
            },
        }
    }
}

impl Userdata {
    /// Allocates the shared state of a signal that has not fired.
    pub fn new() -> (data: Box<Userdata>)
        ensures
            data@ == Mailbox::fresh(),
    {
        Box::new(Userdata { waker: slot_empty(), signalled: false })
    }

    /// The callback's step: raises the flag, then takes the waker out of the
    /// slot. The caller invokes the waker that is handed out.
    pub fn signal(&mut self) -> (woken: Option<Waker>)
        ensures
            final(self)@ == old(self)@.fire(),
            woken == old(self)@.waker,
    {
        self.signalled = true;
        match slot_take(&mut self.waker) {
            Some(task) => Some(Waker { task: *task }),
            None => None,
        }
    }

    pub fn is_signalled(&self) -> (signalled: bool)
        ensures
            signalled == self@.signalled,
    {
        self.signalled
    }

    /// Puts `waker` in the slot, in place of the one that was there.
    pub fn set_waker(&mut self, waker: Waker)
        ensures
            final(self)@ == old(self)@.install(waker),
    {
        let _ = slot_swap(&mut self.waker, Box::new(waker.task));
    }
}

/// A registered signal, as a value.
pub struct Signal {
    /// The service table of the host that registered it.
    pub host: usize,
    /// The host's handle for it.
    pub handle: usize,
    /// Its shared state.
    pub mailbox: Mailbox,
}

impl Signal {
    /// The signal after a poll that brings `waker`.
    pub open spec fn install(self, waker: Waker) -> Signal {
        Signal { host: self.host, handle: self.handle, mailbox: self.mailbox.install(waker) }
    }

    /// The signal after the host's callback.
    pub open spec fn fire(self) -> Signal {
        Signal { host: self.host, handle: self.handle, mailbox: self.mailbox.fire() }
    }
}

/// What the host is asked for when a signal is registered: an event of this
/// type, whose callback runs at this priority.
#[derive(Clone, Copy, Debug, PartialEq, Eq, Structural)]
pub struct Registration {
    pub event_type: u32,
    pub notify_tpl: usize,
}

/// `r_efi::efi::EVT_NOTIFY_SIGNAL`, the type of an event whose callback runs
/// when the event is signalled.
#[verifier::external_body]
fn notify_signal() -> (event_type: u32)
    ensures
        event_type == 0x200,
{
    r_efi::efi::EVT_NOTIFY_SIGNAL
}

/// `r_efi::efi::TPL_CALLBACK`, the priority level of callbacks.
#[verifier::external_body]
fn callback_tpl() -> (tpl: usize)
    ensures
        tpl == 8,
{
    r_efi::efi::TPL_CALLBACK
}

/// A completion signal that the host has registered.
///
/// The shared state is allocated before the host registers the handle, and
/// the only way to give it up is [`Event::close`], which takes the host's
/// answer to the deregistration.
pub struct Event {
    boot_services: usize,
    event: usize,
    data: Box<Userdata>,
}

impl View for Event {
    type V = Signal;

    closed spec fn view(&self) -> Signal {
        Signal { host: self.boot_services, handle: self.event, mailbox: self.data@ }
    }
}

impl Event {
    /// The parameters of the registration: a signal-notified event whose
    /// callback runs at callback priority.
    pub fn registration() -> (registration: Registration)
        ensures
            registration == (Registration { event_type: 0x200, notify_tpl: 8 }),
    {
        Registration { event_type: notify_signal(), notify_tpl: callback_tpl() }
    }

    /// Builds the signal from the host's answer to the registration of
    /// `data`. Where the host refused, its status is handed back and `data`
    /// is released; nothing of the signal remains.
    pub fn new(boot_services: usize, data: Box<Userdata>, status: Status, event: usize) -> (created:
        Result<Event, Status>)
        ensures
            status.is_error() ==> created == Err::<Event, Status>(status),
            !status.is_error() ==> created is Ok && created->Ok_0@ == (Signal {
                host: boot_services,
                handle: event,
                mailbox: data@,
            }),
    {
        if status.is_error() {
            Err(status)
        } else {
            Ok(Event { boot_services, event, data })
        }
    }

    pub fn get_boot_services(&self) -> (boot_services: usize)
        ensures
            boot_services == self@.host,
    {
        self.boot_services
    }

    pub fn get_raw_event(&self) -> (event: usize)
        ensures
            event == self@.handle,
    {
        self.event
    }

    /// Whether the callback has run.
    pub fn is_ready(&self) -> (ready: bool)
        ensures
            ready == self@.mailbox.signalled,
    {
        self.data.is_signalled()
    }

    /// The host's callback: marks the signal as fired and hands out the
    /// waker of the poller that was waiting.
    pub fn callback(&mut self) -> (woken: Option<Waker>)
        ensures
            final(self)@ == old(self)@.fire(),
            woken == old(self)@.mailbox.waker,
    {
        self.data.signal()
    }

    /// Gives the signal up, given the host's answer to its deregistration.
    /// Where the host failed to deregister, the signal comes back untouched:
    /// the host may still call into the shared state, so it must not be
    /// released.
    pub fn close(self, status: Status) -> (closed: Result<(), Event>)
        ensures
            status.is_error() ==> closed == Err::<(), Event>(self),
            !status.is_error() ==> closed is Ok,
    {
        if status.is_error() {
            Err(self)
        } else {
            Ok(())
        }
    }
}

impl Future for Event {
    type Output = ();

    /// A poll installs the waker and resolves exactly if the callback has
    /// run.
    open spec fn polls_to(&self, waker: Waker, after: &Event, polled: Poll<()>) -> bool {
        after@ == self@.install(waker) && polled == self@.mailbox.outcome()
    }

    /// Installs `waker`, then looks at the flag. In this order a callback
    /// that runs between the two steps is seen by the second, and one that
    /// runs after them finds the waker.
    fn poll(&mut self, waker: Waker) -> (polled: Poll<()>) {
        self.data.set_waker(waker);
        match self.data.is_signalled() {
            false => Poll::Pending,
            true => Poll::Ready(()),
        }
    }
}

} // verus!
