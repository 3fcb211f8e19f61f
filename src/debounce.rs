//! The debouncer: coalesces a burst of raw notifications into one, the last
//! of the burst, forwarded once no further notification has arrived within
//! the quiescence window. Time is given by the caller, in milliseconds.
use vstd::prelude::*;
use crate::notification::Notification;

verus! {

/// The default quiescence window, in milliseconds.
pub const QUIESCENCE_MS: u64 = 100;

/// A raw notification and the time at which it arrived.
#[derive(Clone, Copy, Debug, PartialEq, Eq, Structural)]
pub struct Arrival {
    pub at: u64,
    pub notification: Notification,
}

/// The time at which a window opened at `at` closes (saturating).
pub open spec fn deadline_of(at: u64, window: u64) -> u64 {
    if at + window > u64::MAX {
        u64::MAX
    } else {
        (at + window) as u64
    }
}

/// The notifications of `arr` that the arrival after them closed the window
/// of, in order: all but the last of `arr`, where the next one came at or
/// after the deadline.
pub open spec fn flushed(arr: Seq<Arrival>, window: u64) -> Seq<Notification>
    decreases arr.len(),
{
    if arr.len() <= 1 {
        Seq::empty()
    } else {
        let prev = arr[arr.len() - 2];
        flushed(arr.drop_last(), window) + if arr.last().at >= deadline_of(prev.at, window) {
            seq![prev.notification]
        } else {
            Seq::empty()
        }
    }
}

/// What the debouncer forwards for the arrivals `arr` and the end of input:
/// the notifications flushed by later arrivals, then the last one.
pub open spec fn forwarded(arr: Seq<Arrival>, window: u64) -> Seq<Notification> {
    if arr.len() == 0 {
        Seq::empty()
    } else {
        flushed(arr, window).push(arr.last().notification)
    }
}

/// The mathematical value of a [`Debouncer`].
pub struct DebouncerView {
    pub window: u64,
    pub pending: Option<Notification>,
    pub deadline: u64,
}

/// The debouncer's state: the window, the notification held back, and the
/// time at which it is due.
pub struct Debouncer {
    window: u64,
    pending: Option<Notification>,
    deadline: u64,
}

impl View for Debouncer {
    type V = DebouncerView;

    closed spec fn view(&self) -> DebouncerView {
        DebouncerView { window: self.window, pending: self.pending, deadline: self.deadline }
    }
}

fn deadline_after(at: u64, window: u64) -> (r: u64)
    ensures
        r == deadline_of(at, window),
{
    at.saturating_add(window)
}

impl Debouncer {
    /// A debouncer with quiescence window `window`, holding nothing.
    pub fn new(window: u64) -> (r: Debouncer)
        ensures
            r@.window == window,
            r@.pending.is_none(),
    {
        Debouncer { window, pending: None, deadline: 0 }
    }

    /// The time at which the notification held back is due, if there is one.
    pub fn due(&self) -> (r: Option<u64>)
        ensures
            r == (if self@.pending is Some {
                Some(self@.deadline)
            } else {
                None::<u64>
            }),
    {
        if self.pending.is_some() {
            Some(self.deadline)
        } else {
            None
        }
    }

    /// A notification arrives at `now`. The notification held back is
    /// forwarded if its window had closed; the new one is held back with a
    /// window of its own, superseding a held one whose window is still open.
    pub fn receive(&mut self, notification: Notification, now: u64) -> (r: Option<Notification>)
        ensures
            r == (if old(self)@.pending is Some && now >= old(self)@.deadline {
                old(self)@.pending
            } else {
                None::<Notification>
            }),
            final(self)@.window == old(self)@.window,
            final(self)@.pending == Some(notification),
            final(self)@.deadline == deadline_of(now, old(self)@.window),
    {
        let out = if self.pending.is_some() && now >= self.deadline {
            self.pending
        } else {
            None
        };
        self.pending = Some(notification);
        self.deadline = deadline_after(now, self.window);
        out
    }

    /// The clock reads `now`: the notification held back is forwarded if
    /// its window has closed.
    pub fn expire(&mut self, now: u64) -> (r: Option<Notification>)
        ensures
            final(self)@.window == old(self)@.window,
            final(self)@.deadline == old(self)@.deadline,
            if old(self)@.pending is Some && now >= old(self)@.deadline {
                &&& r == old(self)@.pending
                &&& final(self)@.pending.is_none()
            } else {
                &&& r.is_none()
                &&& final(self)@.pending == old(self)@.pending
            },
    {
        if self.pending.is_some() && now >= self.deadline {
            let out = self.pending;
            self.pending = None;
            out
        } else {
            None
        }
    }

    /// The input has ended: the notification held back, if any, is forwarded.
    pub fn flush(&mut self) -> (r: Option<Notification>)
        ensures
            r == old(self)@.pending,
            final(self)@.pending.is_none(),
            final(self)@.window == old(self)@.window,
            final(self)@.deadline == old(self)@.deadline,
    {
        let out = self.pending;
        self.pending = None;
        out
    }
}

/// Runs a debouncer with window `window` over `arrivals`, then ends the
/// input; returns what it forwarded, in order.
pub fn coalesce(arrivals: &Vec<Arrival>, window: u64) -> (r: Vec<Notification>)
    ensures
        r@ == forwarded(arrivals@, window),
{
    let mut d = Debouncer::new(window);
    let mut out: Vec<Notification> = Vec::new();
    let mut i: usize = 0;
    while i < arrivals.len()
        invariant
            0 <= i <= arrivals@.len(),
            d@.window == window,
            i == 0 ==> d@.pending.is_none() && out@ == Seq::<Notification>::empty(),
            i > 0 ==> d@.pending == Some(arrivals@[i - 1].notification) && d@.deadline
                == deadline_of(arrivals@[i - 1].at, window),
            i > 0 ==> out@ == flushed(arrivals@.subrange(0, i as int), window),
        decreases arrivals@.len() - i,
    {
        let a = arrivals[i];
        let sent = d.receive(a.notification, a.at);
        if let Some(n) = sent {
            out.push(n);
        }
        proof {
            let pre = arrivals@.subrange(0, i + 1);
            if i > 0 {
                assert(pre.drop_last() =~= arrivals@.subrange(0, i as int));
                assert(pre[pre.len() - 2] == arrivals@[i - 1]);
            } else {
                assert(flushed(pre, window) == Seq::<Notification>::empty());
            }
        }
        i = i + 1;
    }
    if let Some(n) = d.flush() {
        out.push(n);
    }
    proof {
        if arrivals@.len() > 0 {
            assert(arrivals@.subrange(0, arrivals@.len() as int) =~= arrivals@);
        }
    }
    out
}

/// Notifications each arriving within the quiescence window of the one
/// before are forwarded as exactly one notification, the last.
pub proof fn lemma_burst_forwards_last(arr: Seq<Arrival>, window: u64)
    requires
        arr.len() >= 1,
        forall|i: int| 0 <= i < arr.len() - 1 ==> #[trigger] arr[i + 1].at < deadline_of(arr[i].at, window),
    ensures
        forwarded(arr, window) == seq![arr.last().notification],
    decreases arr.len(),
{
    lemma_burst_flushes_nothing(arr, window);
    assert(forwarded(arr, window) =~= seq![arr.last().notification]);
}

proof fn lemma_burst_flushes_nothing(arr: Seq<Arrival>, window: u64)
    requires
        forall|i: int| 0 <= i < arr.len() - 1 ==> #[trigger] arr[i + 1].at < deadline_of(arr[i].at, window),
    ensures
        flushed(arr, window) == Seq::<Notification>::empty(),
    decreases arr.len(),
{
    if arr.len() > 1 {
        let init = arr.drop_last();
        assert forall|i: int| 0 <= i < init.len() - 1 implies #[trigger] init[i + 1].at < deadline_of(init[i].at, window) by {
            assert(arr[i + 1].at < deadline_of(arr[i].at, window));
        }
        lemma_burst_flushes_nothing(init, window);
        let j = arr.len() - 2;
        assert(arr[j + 1].at < deadline_of(arr[j].at, window));
        assert(flushed(arr, window) =~= Seq::<Notification>::empty());
    }
}

/// Notifications each separated from the one before by more than the
/// quiescence window are all forwarded, in order.
pub proof fn lemma_spaced_forwards_all(arr: Seq<Arrival>, window: u64)
    requires
        forall|i: int| 0 <= i < arr.len() - 1 ==> #[trigger] arr[i + 1].at > arr[i].at + window,
    ensures
        forwarded(arr, window) == arr.map_values(|a: Arrival| a.notification),
{
    if arr.len() > 0 {
        lemma_spaced_flushes_all_but_last(arr, window);
        assert(forwarded(arr, window) =~= arr.map_values(|a: Arrival| a.notification));
    }
}

proof fn lemma_spaced_flushes_all_but_last(arr: Seq<Arrival>, window: u64)
    requires
        arr.len() >= 1,
        forall|i: int| 0 <= i < arr.len() - 1 ==> #[trigger] arr[i + 1].at > arr[i].at + window,
    ensures
        flushed(arr, window) == arr.drop_last().map_values(|a: Arrival| a.notification),
    decreases arr.len(),
{
    if arr.len() > 1 {
        let init = arr.drop_last();
        assert forall|i: int| 0 <= i < init.len() - 1 implies #[trigger] init[i + 1].at > init[i].at + window by {
            assert(arr[i + 1].at > arr[i].at + window);
        }
        lemma_spaced_flushes_all_but_last(init, window);
        let j = arr.len() - 2;
        assert(arr[j + 1].at > arr[j].at + window);
        assert(flushed(arr, window) =~= arr.drop_last().map_values(|a: Arrival| a.notification));
    } else {
        assert(arr.drop_last().map_values(|a: Arrival| a.notification) =~= Seq::<Notification>::empty());
    }
}

} // verus!
