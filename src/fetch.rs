//! The state of the latest page retrieval, and the timer that asks for a
//! periodic refresh.
use vstd::prelude::*;

verus! {

/// Where the latest retrieval of a page stands.
pub enum FetchState<T> {
    /// No retrieval has been made yet.
    Init,
    /// Every retrieval so far has failed.
    InitFailed,
    Fetching,
    /// The latest retrieval failed after an earlier one had succeeded.
    Error,
    Complete(T),
}

impl<T> FetchState<T> {
    /// No page has been shown yet.
    pub open spec fn spec_is_init(&self) -> bool {
        self is Init || self is InitFailed
    }

    #[verifier::when_used_as_spec(spec_is_init)]
    pub fn is_init(&self) -> (r: bool)
        ensures
            r == self.spec_is_init(),
    {
        match self {
            FetchState::Init | FetchState::InitFailed => true,
            _ => false,
        }
    }

    /// The state that a finished retrieval leaves: the page where it was
    /// retrieved and parsed; else `InitFailed` where no page had been shown
    /// before the attempt, and `Error` where one had.
    pub open spec fn after_fetch_spec(was_init: bool, outcome: Option<T>) -> FetchState<T> {
        match outcome {
            Some(page) => FetchState::Complete(page),
            None => if was_init {
                FetchState::InitFailed
            } else {
                FetchState::Error
            },
        }
    }

    #[verifier::when_used_as_spec(after_fetch_spec)]
    pub fn after_fetch(was_init: bool, outcome: Option<T>) -> (r: FetchState<T>)
        ensures
            r == Self::after_fetch_spec(was_init, outcome),
            outcome matches Some(page) ==> r == FetchState::Complete(page),
            outcome is None && was_init ==> r is InitFailed,
            outcome is None && !was_init ==> r is Error,
    {
        match outcome {
            Some(page) => FetchState::Complete(page),
            None => if was_init {
                FetchState::InitFailed
            } else {
                FetchState::Error
            },
        }
    }
}

/// The refresh timer as plain values.
pub struct WorkerView {
    pub running: bool,
    /// Whole seconds counted toward the next refresh.
    pub timer: u64,
    /// Seconds between refreshes.
    pub interval: u64,
    pub should_refresh: bool,
}

impl WorkerView {
    pub open spec fn wf(self) -> bool {
        self.timer == 0 || self.timer < self.interval
    }

    /// `next` is this timer one second later: while running and with no
    /// refresh pending, the count goes up, and on reaching the interval it
    /// starts again from zero with the refresh flag raised.
    pub open spec fn ticked(self, next: WorkerView) -> bool {
        if !self.running || self.should_refresh {
            next == self
        } else if self.timer + 1 >= self.interval {
            next == (WorkerView { timer: 0, should_refresh: true, ..self })
        } else {
            next == (WorkerView { timer: (self.timer + 1) as u64, ..self })
        }
    }
}

/// Counts seconds while it runs and raises a flag each time `interval` of them
/// have passed; it counts nothing while the flag is up.
pub struct GuiWorker {
    running: bool,
    timer: u64,
    interval: u64,
    should_refresh: bool,
}

impl View for GuiWorker {
    type V = WorkerView;

    closed spec fn view(&self) -> WorkerView {
        WorkerView {
            running: self.running,
            timer: self.timer,
            interval: self.interval,
            should_refresh: self.should_refresh,
        }
    }
}

/// Five minutes.
pub const DEFAULT_REFRESH_INTERVAL: u64 = 300;

impl GuiWorker {
    /// A stopped timer with the given interval in seconds.
    pub fn new(interval: u64) -> (r: GuiWorker)
        ensures
            r@ == (WorkerView { running: false, timer: 0, interval, should_refresh: false }),
            r@.wf(),
    {
        GuiWorker { running: false, timer: 0, interval, should_refresh: false }
    }

    pub fn start(&mut self)
        requires
            old(self)@.wf(),
        ensures
            final(self)@ == (WorkerView { running: true, ..old(self)@ }),
            final(self)@.wf(),
    {
        self.running = true;
    }

    /// Stops counting and clears the count.
    pub fn stop(&mut self)
        requires
            old(self)@.wf(),
        ensures
            final(self)@ == (WorkerView { running: false, timer: 0, ..old(self)@ }),
            final(self)@.wf(),
    {
        self.timer = 0;
        self.running = false;
    }

    /// Sets a new interval and starts the count again.
    pub fn set_interval(&mut self, interval: u64)
        requires
            old(self)@.wf(),
        ensures
            final(self)@ == (WorkerView { timer: 0, interval, ..old(self)@ }),
            final(self)@.wf(),
    {
        self.timer = 0;
        self.interval = interval;
    }

    pub fn should_refresh(&self) -> (r: bool)
        ensures
            r == self@.should_refresh,
    {
        self.should_refresh
    }

    /// Takes down the refresh flag once the refresh has been made.
    pub fn use_refresh(&mut self)
        requires
            old(self)@.wf(),
        ensures
            final(self)@ == (WorkerView { should_refresh: false, ..old(self)@ }),
            final(self)@.wf(),
    {
        self.should_refresh = false;
    }

    /// One second has passed.
    pub fn tick(&mut self)
        requires
            old(self)@.wf(),
        ensures
            final(self)@.wf(),
            old(self)@.ticked(final(self)@),
    {
        if self.running && !self.should_refresh {
            if self.timer >= self.interval || self.interval - self.timer <= 1 {
                self.timer = 0;
                self.should_refresh = true;
            } else {
                self.timer = self.timer + 1;
            }
        }
    }
}

impl Default for GuiWorker {
    fn default() -> (r: GuiWorker)
        ensures
            r@ == (WorkerView {
                running: false,
                timer: 0,
                interval: DEFAULT_REFRESH_INTERVAL,
                should_refresh: false,
            }),
    {
        GuiWorker::new(DEFAULT_REFRESH_INTERVAL)
    }
}

} // verus!
