//! The decisions of the polling loop: which outside step to take next,
//! given what the previous one produced. Waiting, querying, delivering and
//! printing are done by the caller, which reports back through the methods.
use crate::notice::{message, message_text, title, title_text};
use crate::tracker::{
    apply, changes, record_views, transition_views, Record, Tracker, Transition, TransitionView,
};
use vstd::prelude::*;

verus! {

/// How the loop runs.
#[derive(Clone, Copy, Debug, PartialEq, Eq)]
pub struct Settings {
    /// Poll on every timer tick; otherwise poll once and stop.
    pub repeat: bool,
    /// Send a notification for each transition; otherwise only print it.
    pub notify: bool,
    /// The priority given to every notification.
    pub priority: u32,
}

/// Where the loop stands: what it waits for from the caller.
#[derive(Clone, Copy, Debug, PartialEq, Eq, Structural)]
pub enum Phase {
    /// Nothing has happened yet.
    Ready,
    /// A timer tick is awaited.
    Waiting,
    /// The outcome of an availability query is awaited.
    Fetching,
    /// The outcome of sending a notification is awaited.
    Delivering,
    /// The printing of a message is awaited.
    Announcing,
    /// The loop is over.
    Stopped,
}

/// A notification to send.
pub struct Notification {
    pub title: String,
    pub message: String,
    pub priority: u32,
}

/// What the caller is to do next.
pub enum Action {
    /// Wait for the next timer tick, then call `ticked`.
    Wait,
    /// Query the availability of all products, then call `fetched` or `fetch_failed`.
    Fetch,
    /// Send this notification, then call `delivered`.
    Deliver(Notification),
    /// Print this message, then call `announced`.
    Announce(String),
    /// End the loop.
    Stop,
}

pub enum ActionView {
    Wait,
    Fetch,
    Deliver { title: Seq<char>, message: Seq<char>, priority: u32 },
    Announce(Seq<char>),
    Stop,
}

impl View for Action {
    type V = ActionView;

    open spec fn view(&self) -> ActionView {
        match self {
            Action::Wait => ActionView::Wait,
            Action::Fetch => ActionView::Fetch,
            Action::Deliver(n) => ActionView::Deliver {
                title: n.title@,
                message: n.message@,
                priority: n.priority,
            },
            Action::Announce(m) => ActionView::Announce(m@),
            Action::Stop => ActionView::Stop,
        }
    }
}

/// The phase after the transitions before `next` are dealt with.
pub open spec fn phase_at(s: Settings, pending: Seq<TransitionView>, next: int) -> Phase {
    if next < pending.len() {
        if s.notify {
            Phase::Delivering
        } else {
            Phase::Announcing
        }
    } else if s.repeat {
        Phase::Waiting
    } else {
        Phase::Stopped
    }
}

/// The action after the transitions before `next` are dealt with: announce
/// the next one (by notification when enabled, else by printing), or end the
/// cycle by waiting for the next tick, or by stopping when not repeating.
pub open spec fn action_at(s: Settings, pending: Seq<TransitionView>, next: int) -> ActionView {
    if next < pending.len() {
        if s.notify {
            ActionView::Deliver {
                title: title_text(pending[next].now),
                message: message_text(pending[next]),
                priority: s.priority,
            }
        } else {
            ActionView::Announce(message_text(pending[next]))
        }
    } else if s.repeat {
        ActionView::Wait
    } else {
        ActionView::Stop
    }
}

/// The polling loop's state: the tracker it feeds, the transitions of the
/// current cycle and how far their announcement has gone.
pub struct Poller {
    tracker: Tracker,
    settings: Settings,
    phase: Phase,
    pending: Vec<Transition>,
    next: usize,
}

impl Poller {
    pub closed spec fn states(&self) -> Map<i64, bool> {
        self.tracker@
    }

    pub closed spec fn settings_spec(&self) -> Settings {
        self.settings
    }

    pub closed spec fn phase_spec(&self) -> Phase {
        self.phase
    }

    /// The transitions of the current cycle.
    pub closed spec fn pending(&self) -> Seq<TransitionView> {
        transition_views(self.pending@)
    }

    /// How many transitions of the current cycle are dealt with.
    pub closed spec fn done(&self) -> int {
        self.next as int
    }

    /// The state is consistent: the announcements never run past the
    /// transitions, and a loop that does not repeat never waits for a tick.
    pub closed spec fn well_formed(&self) -> bool {
        &&& self.next <= self.pending@.len()
        &&& (self.phase == Phase::Delivering || self.phase == Phase::Announcing) ==> self.next
            < self.pending@.len()
        &&& self.phase == Phase::Delivering ==> self.settings.notify
        &&& !self.settings.repeat ==> self.phase != Phase::Waiting
    }

    /// A loop over `tracker` that has not started yet.
    pub fn new(tracker: Tracker, settings: Settings) -> (r: Poller)
        ensures
            r.well_formed(),
            r.states() == tracker@,
            r.settings_spec() == settings,
            r.phase_spec() == Phase::Ready,
    {
        Poller { tracker, settings, phase: Phase::Ready, pending: Vec::new(), next: 0 }
    }

    pub fn phase(&self) -> (r: Phase)
        ensures
            r == self.phase_spec(),
    {
        self.phase
    }

    pub fn settings(&self) -> (r: Settings)
        ensures
            r == self.settings_spec(),
    {
        self.settings
    }

    pub fn tracker(&self) -> (r: &Tracker)
        ensures
            r@ == self.states(),
    {
        &self.tracker
    }

    /// Decides the step after the first `next` transitions are dealt with.
    fn advance(&mut self) -> (r: Action)
        requires
            old(self).next <= old(self).pending@.len(),
        ensures
            final(self).tracker@ == old(self).tracker@,
            final(self).settings == old(self).settings,
            final(self).pending@ == old(self).pending@,
            final(self).next == old(self).next,
            final(self).phase == phase_at(
                old(self).settings,
                old(self).pending(),
                old(self).next as int,
            ),
            r@ == action_at(old(self).settings, old(self).pending(), old(self).next as int),
            final(self).well_formed(),
    {
        if self.next < self.pending.len() {
            let t = &self.pending[self.next];
            assert(self.pending()[self.next as int] == t@);
            if self.settings.notify {
                self.phase = Phase::Delivering;
                Action::Deliver(
                    Notification { title: title(t), message: message(t), priority: self.settings.priority },
                )
            } else {
                self.phase = Phase::Announcing;
                Action::Announce(message(t))
            }
        } else if self.settings.repeat {
            self.phase = Phase::Waiting;
            Action::Wait
        } else {
            self.phase = Phase::Stopped;
            Action::Stop
        }
    }

    /// Starts the loop: wait for the first tick when repeating, else query at once.
    pub fn begin(&mut self) -> (r: Action)
        requires
            old(self).well_formed(),
            old(self).phase_spec() == Phase::Ready,
        ensures
            final(self).well_formed(),
            final(self).states() == old(self).states(),
            final(self).settings_spec() == old(self).settings_spec(),
            old(self).settings_spec().repeat ==> r@ == ActionView::Wait && final(self).phase_spec()
                == Phase::Waiting,
            !old(self).settings_spec().repeat ==> r@ == ActionView::Fetch && final(self).phase_spec()
                == Phase::Fetching,
    {
        if self.settings.repeat {
            self.phase = Phase::Waiting;
            Action::Wait
        } else {
            self.phase = Phase::Fetching;
            Action::Fetch
        }
    }

    /// A tick came: query the availability.
    pub fn ticked(&mut self) -> (r: Action)
        requires
            old(self).well_formed(),
            old(self).phase_spec() == Phase::Waiting,
        ensures
            final(self).well_formed(),
            final(self).states() == old(self).states(),
            final(self).settings_spec() == old(self).settings_spec(),
            final(self).phase_spec() == Phase::Fetching,
            r@ == ActionView::Fetch,
    {
        self.phase = Phase::Fetching;
        Action::Fetch
    }

    /// The query answered with `snapshot`: the tracker takes it in, and the
    /// transitions it reveals are announced in order.
    pub fn fetched(&mut self, snapshot: &Vec<Record>) -> (r: Action)
        requires
            old(self).well_formed(),
            old(self).phase_spec() == Phase::Fetching,
        ensures
            final(self).well_formed(),
            final(self).states() == apply(old(self).states(), record_views(snapshot@)),
            final(self).pending() == changes(old(self).states(), record_views(snapshot@)),
            final(self).done() == 0,
            final(self).settings_spec() == old(self).settings_spec(),
            final(self).phase_spec() == phase_at(old(self).settings_spec(), final(self).pending(), 0),
            r@ == action_at(old(self).settings_spec(), final(self).pending(), 0),
    {
        let found = self.tracker.observe(snapshot);
        self.pending = found;
        self.next = 0;
        self.advance()
    }

    /// The query failed: the tracker is left as it was, nothing is announced,
    /// and the cycle ends.
    pub fn fetch_failed(&mut self) -> (r: Action)
        requires
            old(self).well_formed(),
            old(self).phase_spec() == Phase::Fetching,
        ensures
            final(self).well_formed(),
            final(self).states() == old(self).states(),
            final(self).pending() == Seq::<TransitionView>::empty(),
            final(self).settings_spec() == old(self).settings_spec(),
            old(self).settings_spec().repeat ==> r@ == ActionView::Wait && final(self).phase_spec()
                == Phase::Waiting,
            !old(self).settings_spec().repeat ==> r@ == ActionView::Stop && final(self).phase_spec()
                == Phase::Stopped,
    {
        self.pending = Vec::new();
        self.next = 0;
        proof {
            assert(transition_views(self.pending@) =~= Seq::<TransitionView>::empty());
        }
        self.advance()
    }

    /// The notification was sent (`ok`) or not. Either way the tracker keeps
    /// the state already recorded; a sent one is then printed, a failed one
    /// is passed over for the next transition.
    pub fn delivered(&mut self, ok: bool) -> (r: Action)
        requires
            old(self).well_formed(),
            old(self).phase_spec() == Phase::Delivering,
        ensures
            final(self).well_formed(),
            final(self).states() == old(self).states(),
            final(self).pending() == old(self).pending(),
            final(self).settings_spec() == old(self).settings_spec(),
            ok ==> final(self).done() == old(self).done() && final(self).phase_spec()
                == Phase::Announcing && r@ == ActionView::Announce(
                message_text(old(self).pending()[old(self).done()]),
            ),
            !ok ==> final(self).done() == old(self).done() + 1 && final(self).phase_spec()
                == phase_at(old(self).settings_spec(), old(self).pending(), old(self).done() + 1)
                && r@ == action_at(
                old(self).settings_spec(),
                old(self).pending(),
                old(self).done() + 1,
            ),
    {
        if ok {
            let t = &self.pending[self.next];
            assert(self.pending()[self.next as int] == t@);
            self.phase = Phase::Announcing;
            Action::Announce(message(t))
        } else {
            // the length of `pending` fits in `usize`, and `next` is below it
            let _len = self.pending.len();
            self.next = self.next + 1;
            self.advance()
        }
    }

    /// The message was printed: go on with the next transition.
    pub fn announced(&mut self) -> (r: Action)
        requires
            old(self).well_formed(),
            old(self).phase_spec() == Phase::Announcing,
        ensures
            final(self).well_formed(),
            final(self).states() == old(self).states(),
            final(self).pending() == old(self).pending(),
            final(self).settings_spec() == old(self).settings_spec(),
            final(self).done() == old(self).done() + 1,
            final(self).phase_spec() == phase_at(
                old(self).settings_spec(),
                old(self).pending(),
                old(self).done() + 1,
            ),
            r@ == action_at(old(self).settings_spec(), old(self).pending(), old(self).done() + 1),
    {
        // the length of `pending` fits in `usize`, and `next` is below it
        let _len = self.pending.len();
        self.next = self.next + 1;
        self.advance()
    }
}

/// Without repeat the loop runs one cycle: it never waits for a tick, so the
/// only query is the one `begin` asks for, and once the transitions of that
/// query are dealt with the next action is `Stop`.
pub proof fn lemma_single_pass(p: &Poller)
    requires
        p.well_formed(),
        !p.settings_spec().repeat,
    ensures
        p.phase_spec() != Phase::Waiting,
        forall|n: int|
            0 <= n <= p.pending().len() ==> #[trigger] action_at(p.settings_spec(), p.pending(), n)
                != ActionView::Wait,
        action_at(p.settings_spec(), p.pending(), p.pending().len() as int) == ActionView::Stop,
        phase_at(p.settings_spec(), p.pending(), p.pending().len() as int) == Phase::Stopped,
{
}

} // verus!
