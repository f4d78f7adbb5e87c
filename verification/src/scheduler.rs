//! The reminder scheduler: the handle other parts of the app use to wake it,
//! the timing decisions of its loop, and what it does with each due reminder.
//! The loop itself, which waits on the channel and talks to the store and the
//! desktop, runs in the application around this library.
use std::sync::mpsc::Sender;
use std::time::Duration;

use vstd::prelude::*;

use crate::domain::Settings;
use crate::records::DueNotification;
use crate::text::str_eq;

verus! {

/// How often the scheduler looks for due reminders when nothing wakes it, in
/// milliseconds.
pub const POLL_INTERVAL_MILLIS: u64 = 30_000;

/// A request sent to the scheduler thread.
#[derive(Debug, Clone, Copy)]
pub enum SchedulerSignal {
    /// Look for due reminders now.
    Wake,
    /// Look for due reminders once the delay has passed.
    WakeAfter(Duration),
    /// Leave the loop.
    Stop,
}

#[verifier::external_type_specification]
#[verifier::external_body]
#[verifier::reject_recursive_types(T)]
pub struct ExSender<T>(Sender<T>);

/// Another sender on the same channel (`<Sender<T> as Clone>::clone`); the
/// channel is not modelled, so nothing is stated of the copy.
pub assume_specification<T>[ <Sender<T> as Clone>::clone ](sender: &Sender<T>) -> Sender<T>;

/// Hands a signal to the scheduler thread (`Sender::send`). A closed channel
/// means the scheduler has already stopped; the signal is then dropped, as
/// the handle does not report it.
#[verifier::external_body]
fn send_signal(sender: &Sender<SchedulerSignal>, signal: SchedulerSignal) {
    let _ = sender.send(signal);
}

/// The sending side of the scheduler's channel.
#[derive(Clone)]
pub struct SchedulerHandle {
    sender: Sender<SchedulerSignal>,
}

impl SchedulerHandle {
    /// The channel this handle signals on.
    pub closed spec fn channel(&self) -> Sender<SchedulerSignal> {
        self.sender
    }

    /// A handle that signals the loop listening on the other end of `sender`.
    pub fn from_sender(sender: Sender<SchedulerSignal>) -> (r: Self)
        ensures
            r.channel() == sender,
    {
        SchedulerHandle { sender }
    }

    /// Asks the scheduler to look for due reminders now.
    pub fn wake(&self) {
        send_signal(&self.sender, SchedulerSignal::Wake)
    }

    /// Asks the scheduler to look again once `delay` has passed.
    pub fn wake_after(&self, delay: Duration) {
        send_signal(&self.sender, SchedulerSignal::WakeAfter(delay))
    }

    /// Asks the scheduler to stop.
    pub fn stop(&self) {
        send_signal(&self.sender, SchedulerSignal::Stop)
    }
}

// ---------------------------------------------------------------------------
// Timing of the loop
// ---------------------------------------------------------------------------
/// What the loop saw while it waited.
#[derive(Debug, Clone, Copy, PartialEq, Eq, Structural)]
pub enum SchedulerEvent {
    /// A wake request.
    Wake,
    /// A delayed wake request, with its delay in milliseconds.
    WakeAfter(u64),
    /// A stop request.
    Stop,
    /// The wait reached its deadline.
    Timeout,
    /// Every handle is gone.
    Disconnected,
}

/// What the loop does next.
#[derive(Debug, Clone, Copy, PartialEq, Eq, Structural)]
pub enum SchedulerStep {
    /// Leave the loop.
    Exit,
    /// Look for due reminders now.
    Process,
    /// Nothing to do but wait again.
    Wait,
}

/// The loop's clock state: when it polls next and the delayed wakes it still
/// owes, all as milliseconds on the monotonic clock.
#[derive(Debug, Clone)]
pub struct SchedulerState {
    pub next_poll: u64,
    pub delayed_wakes: Vec<u64>,
}

/// `a + b`, held at `u64::MAX`.
pub open spec fn add_sat(a: u64, b: u64) -> u64 {
    if a + b > u64::MAX {
        u64::MAX
    } else {
        (a + b) as u64
    }
}

/// The earliest of the delayed wakes and the next poll.
pub open spec fn earliest(deadlines: Seq<u64>, poll: u64) -> u64
    decreases deadlines.len(),
{
    if deadlines.len() == 0 {
        poll
    } else {
        let rest = earliest(deadlines.drop_last(), poll);
        if deadlines.last() < rest {
            deadlines.last()
        } else {
            rest
        }
    }
}

/// The deadlines still in the future at `now`, in their order.
pub open spec fn still_pending(deadlines: Seq<u64>, now: u64) -> Seq<u64> {
    deadlines.filter(|d: u64| d > now)
}

proof fn lemma_earliest_bounds(deadlines: Seq<u64>, poll: u64)
    ensures
        earliest(deadlines, poll) <= poll,
        forall|i: int| 0 <= i < deadlines.len() ==> earliest(deadlines, poll) <= #[trigger] deadlines[i],
        earliest(deadlines, poll) == poll || exists|i: int|
            0 <= i < deadlines.len() && deadlines[i] == earliest(deadlines, poll),
    decreases deadlines.len(),
{
    if deadlines.len() > 0 {
        let init = deadlines.drop_last();
        lemma_earliest_bounds(init, poll);
        assert forall|i: int| 0 <= i < deadlines.len() implies earliest(deadlines, poll)
            <= #[trigger] deadlines[i] by {
            if i < deadlines.len() - 1 {
                assert(deadlines[i] == init[i]);
            }
        }
        if earliest(deadlines, poll) != poll && earliest(deadlines, poll) != deadlines.last() {
            let j = choose|j: int| 0 <= j < init.len() && init[j] == earliest(init, poll);
            assert(deadlines[j] == init[j]);
        }
    }
}

impl SchedulerState {
    /// The state when the loop starts at `now`: the first poll one interval away.
    pub fn start(now: u64) -> (r: Self)
        ensures
            r.next_poll == add_sat(now, POLL_INTERVAL_MILLIS),
            r.delayed_wakes@.len() == 0,
    {
        SchedulerState { next_poll: now.saturating_add(POLL_INTERVAL_MILLIS), delayed_wakes: Vec::new() }
    }

    /// The earliest moment the loop must act: the first delayed wake, or the
    /// next poll if that comes first.
    pub fn next_deadline(&self) -> (r: u64)
        ensures
            r == earliest(self.delayed_wakes@, self.next_poll),
            r <= self.next_poll,
            forall|i: int| 0 <= i < self.delayed_wakes@.len() ==> r <= #[trigger] self.delayed_wakes@[i],
    {
        proof {
            lemma_earliest_bounds(self.delayed_wakes@, self.next_poll);
        }
        let mut best = self.next_poll;
        let mut i: usize = 0;
        while i < self.delayed_wakes.len()
            invariant
                i <= self.delayed_wakes@.len(),
                best == earliest(self.delayed_wakes@.subrange(0, i as int), self.next_poll),
            decreases self.delayed_wakes@.len() - i,
        {
            let d = self.delayed_wakes[i];
            proof {
                let next = self.delayed_wakes@.subrange(0, i as int + 1);
                assert(next.drop_last() =~= self.delayed_wakes@.subrange(0, i as int));
            }
            if d < best {
                best = d;
            }
            i = i + 1;
        }
        assert(self.delayed_wakes@.subrange(0, self.delayed_wakes@.len() as int) =~= self.delayed_wakes@);
        best
    }

    /// How long to wait at `now`, in milliseconds: until the next deadline, or
    /// not at all once it has passed.
    pub fn wait_millis(&self, now: u64) -> (r: u64)
        ensures
            r == if earliest(self.delayed_wakes@, self.next_poll) > now {
                (earliest(self.delayed_wakes@, self.next_poll) - now) as u64
            } else {
                0u64
            },
    {
        let deadline = self.next_deadline();
        if deadline > now {
            deadline - now
        } else {
            0
        }
    }

    /// Reacts to what the wait brought at `now`. A stop request or a closed
    /// channel ends the loop; a wake asks for processing; a delayed wake is
    /// remembered; a timeout drops the delayed wakes that have passed, asks for
    /// processing and, when the poll time has come, moves it one interval on.
    pub fn on_event(&mut self, event: SchedulerEvent, now: u64) -> (r: SchedulerStep)
        ensures
            match event {
                SchedulerEvent::Stop | SchedulerEvent::Disconnected => {
                    &&& r == SchedulerStep::Exit
                    &&& final(self).next_poll == old(self).next_poll
                    &&& final(self).delayed_wakes@ == old(self).delayed_wakes@
                },
                SchedulerEvent::Wake => {
                    &&& r == SchedulerStep::Process
                    &&& final(self).next_poll == old(self).next_poll
                    &&& final(self).delayed_wakes@ == old(self).delayed_wakes@
                },
                SchedulerEvent::WakeAfter(delay) => {
                    &&& r == SchedulerStep::Wait
                    &&& final(self).next_poll == old(self).next_poll
                    &&& final(self).delayed_wakes@ == old(self).delayed_wakes@.push(add_sat(now, delay))
                },
                SchedulerEvent::Timeout => {
                    &&& r == SchedulerStep::Process
                    &&& final(self).delayed_wakes@ == still_pending(old(self).delayed_wakes@, now)
                    &&& final(self).next_poll == if now >= old(self).next_poll {
                        add_sat(now, POLL_INTERVAL_MILLIS)
                    } else {
                        old(self).next_poll
                    }
                },
            },
    {
        match event {
            SchedulerEvent::Stop | SchedulerEvent::Disconnected => SchedulerStep::Exit,
            SchedulerEvent::Wake => SchedulerStep::Process,
            SchedulerEvent::WakeAfter(delay) => {
                self.delayed_wakes.push(now.saturating_add(delay));
                SchedulerStep::Wait
            },
            SchedulerEvent::Timeout => {
                let mut kept: Vec<u64> = Vec::new();
                let mut i: usize = 0;
                while i < self.delayed_wakes.len()
                    invariant
                        i <= self.delayed_wakes@.len(),
                        kept@ == still_pending(self.delayed_wakes@.subrange(0, i as int), now),
                    decreases self.delayed_wakes@.len() - i,
                {
                    let d = self.delayed_wakes[i];
                    proof {
                        let next = self.delayed_wakes@.subrange(0, i as int + 1);
                        assert(next.drop_last() =~= self.delayed_wakes@.subrange(0, i as int));
                        reveal_with_fuel(Seq::filter, 1);
                    }
                    if d > now {
                        kept.push(d);
                    }
                    i = i + 1;
                }
                assert(self.delayed_wakes@.subrange(0, self.delayed_wakes@.len() as int)
                    =~= self.delayed_wakes@);
                self.delayed_wakes = kept;
                if now >= self.next_poll {
                    self.next_poll = now.saturating_add(POLL_INTERVAL_MILLIS);
                }
                SchedulerStep::Process
            },
        }
    }

    /// After processing that a wake request asked for, at `now`: the next
    /// poll comes one interval later.
    pub fn after_wake(&mut self, now: u64)
        ensures
            final(self).next_poll == add_sat(now, POLL_INTERVAL_MILLIS),
            final(self).delayed_wakes@ == old(self).delayed_wakes@,
    {
        self.next_poll = now.saturating_add(POLL_INTERVAL_MILLIS);
    }
}

/// After a timeout, no delayed wake that is kept has already passed, and the
/// next poll lies ahead (unless the clock is at its very end).
pub proof fn lemma_timeout_leaves_only_future_deadlines(deadlines: Seq<u64>, poll: u64, now: u64)
    ensures
        forall|i: int|
            0 <= i < still_pending(deadlines, now).len() ==> #[trigger] still_pending(deadlines, now)[i]
                > now,
        now < u64::MAX - POLL_INTERVAL_MILLIS ==> (if now >= poll {
            add_sat(now, POLL_INTERVAL_MILLIS)
        } else {
            poll
        }) > now,
{
    let kept = still_pending(deadlines, now);
    assert forall|i: int| 0 <= i < kept.len() implies #[trigger] kept[i] > now by {
        deadlines.lemma_filter_pred(|d: u64| d > now, i);
    }
}

// ---------------------------------------------------------------------------
// What to do with each due reminder
// ---------------------------------------------------------------------------
/// Whether a reminder is shown as a persistent notification: the setting is
/// on and the reminder must be completed today or is forced.
pub open spec fn persistent_spec(settings: Settings, n: DueNotification) -> bool {
    settings.persistent_notifications_enabled && (n.completion_policy@ == "MUST_COMPLETE_TODAY"@
        || n.reminder_plan@ == "FORCE"@)
}

/// Whether a reminder should be shown as a persistent notification.
pub fn should_use_persistent_notification(settings: &Settings, notification: &DueNotification) -> (r: bool)
    ensures
        r == persistent_spec(*settings, *notification),
{
    settings.persistent_notifications_enabled && (str_eq(
        notification.completion_policy.as_str(),
        "MUST_COMPLETE_TODAY",
    ) || str_eq(notification.reminder_plan.as_str(), "FORCE"))
}

/// What the loop does with one due reminder.
#[derive(Debug, Clone, Copy, PartialEq, Eq, Structural)]
pub struct ReminderPlan {
    /// Show the always-on-top reminder window.
    pub show_overlay: bool,
    /// Claim and send the reminder e-mail.
    pub send_email: bool,
    /// Record that notifications are switched off instead of showing one.
    pub record_disabled: bool,
    /// Show a system notification, persistent or not.
    pub notify: Option<bool>,
}

/// Plans the handling of one due reminder: the overlay and the e-mail follow
/// their settings; the system notification is shown only while notifications
/// are on, and is otherwise recorded as switched off.
pub fn plan_reminder(settings: &Settings, notifications_enabled: bool, notification: &DueNotification) -> (r:
    ReminderPlan)
    ensures
        r.show_overlay == settings.overlay_reminders_enabled,
        r.send_email == settings.smtp_enabled,
        r.record_disabled == !notifications_enabled,
        r.notify == if notifications_enabled {
            Some(persistent_spec(*settings, *notification))
        } else {
            None::<bool>
        },
{
    ReminderPlan {
        show_overlay: settings.overlay_reminders_enabled,
        send_email: settings.smtp_enabled,
        record_disabled: !notifications_enabled,
        notify: if notifications_enabled {
            Some(should_use_persistent_notification(settings, notification))
        } else {
            None
        },
    }
}

/// The e-mail claims for one due reminder: none while e-mail is off,
/// otherwise the steps the rule engine gives (`plan_claims`) for the
/// enabled rules of the store, the item's category and the local date.
pub fn reminder_email_claims(
    settings: &Settings,
    rules: Vec<crate::email_rules::EmailDeliveryRule>,
    notification: &DueNotification,
    category_id: &Option<String>,
    local_date: &str,
) -> (r: Vec<Option<crate::email_rules::ClaimStep>>)
    ensures
        !settings.smtp_enabled ==> r@.len() == 0,
        settings.smtp_enabled ==> crate::email_rules::claims_for(
            rules@,
            *notification,
            crate::schedule::opt_view(*category_id),
            local_date@,
            r@,
        ),
{
    if settings.smtp_enabled {
        crate::email_rules::plan_claims(rules, notification, category_id, local_date)
    } else {
        Vec::new()
    }
}

/// How a classification prompt ended, as recorded in the store.
#[derive(Debug)]
pub struct ClassificationOutcome {
    pub result: String,
    pub error_code: Option<String>,
}

/// The record of a classification prompt: switched off (nothing was
/// submitted because notifications are off), submitted, or failed with the
/// platform's code.
pub fn classification_outcome(submitted: Option<Result<(), String>>) -> (r: ClassificationOutcome)
    ensures
        submitted is None ==> r.result@ == "DISABLED"@ && crate::schedule::opt_view(r.error_code) == Some(
            "notifications_disabled"@,
        ),
        submitted matches Some(Ok(())) ==> r.result@ == "SUBMITTED"@ && r.error_code is None,
        submitted matches Some(Err(code)) ==> r.result@ == "FAILED"@ && crate::schedule::opt_view(r.error_code)
            == Some(code@),
{
    match submitted {
        None => ClassificationOutcome {
            result: crate::text::owned("DISABLED"),
            error_code: Some(crate::text::owned("notifications_disabled")),
        },
        Some(Ok(())) => ClassificationOutcome { result: crate::text::owned("SUBMITTED"), error_code: None },
        Some(Err(code)) => ClassificationOutcome { result: crate::text::owned("FAILED"), error_code: Some(code) },
    }
}

} // verus!
