//! The reader's decisions: which page to fetch on each user action and timer
//! tick, and what a finished fetch does to the shown state. The caller performs
//! the fetches and hands their outcome back.
use vstd::prelude::*;
use crate::fetch::{FetchState, GuiWorker, WorkerView};
use crate::history::TeleHistory;
use crate::page::{digit_char, fmt_int, push_int, TelePage, TelePager};
use crate::text::push_char;
use crate::yle_image::YleImage;
use crate::yle_text::TeleText;

verus! {

/// The page dialect that the reader shows.
#[derive(Debug, Clone, Copy, PartialEq, Eq, Structural)]
pub enum Pages {
    YleText,
    YleImage,
}

/// A parsed page of either dialect.
#[derive(Debug)]
pub enum PageDocument {
    Text(TeleText),
    Image(YleImage),
}

/// A user action that moves between pages.
#[derive(Debug, Clone, Copy, PartialEq, Eq, Structural)]
pub enum NavEvent {
    /// A digit key, 0 to 9, toward a three-digit page number.
    Digit(i32),
    /// The back button.
    Back,
    /// The forward button.
    Forward,
}

/// A fetch for the caller to perform: the page, its full address, and the
/// number that ties the outcome to this request.
#[derive(Debug)]
pub struct LoadRequest {
    pub page: TelePage,
    pub url: String,
    pub id: u64,
}

/// The full address of `page` in the dialect `kind`.
pub open spec fn full_page_spec(kind: Pages, page: TelePage) -> Seq<char> {
    match kind {
        Pages::YleText => <TeleText as TelePager>::full_page_spec(page),
        Pages::YleImage => <YleImage as TelePager>::full_page_spec(page),
    }
}

/// The address that the short form `s` gives in the dialect `kind`.
pub open spec fn page_from_str_in(kind: Pages, s: Seq<char>) -> Option<TelePage> {
    match kind {
        Pages::YleText => <TeleText as TelePager>::from_page_str_spec(s),
        Pages::YleImage => <YleImage as TelePager>::from_page_str_spec(s),
    }
}

/// The value of three digits, first digit highest.
pub open spec fn three_digit_value(a: i32, b: i32, c: i32) -> int {
    a * 100 + b * 10 + c
}

/// The page number shown in the header: the digits typed so far, with dashes
/// for those still to come, or else the current page number.
pub open spec fn page_label_spec(buffer: Seq<i32>, page: i32) -> Seq<char> {
    if buffer.len() > 0 {
        seq!['P'] + Seq::new(
            3,
            |i: int|
                if i < buffer.len() {
                    digit_char(buffer[i] as nat)
                } else {
                    '-'
                },
        )
    } else {
        seq!['P'] + fmt_int(page as int, 0)
    }
}

/// The first page shown.
pub const FIRST_PAGE: i32 = 100;

pub const PAGE_DIGITS: usize = 3;

/// The reader's state: the page shown, the history, the digits typed so far,
/// the refresh timer and the state of the latest fetch.
pub struct GuiContext {
    pub kind: Pages,
    pub state: FetchState<PageDocument>,
    pub current_page: TelePage,
    pub history: TeleHistory,
    pub page_buffer: Vec<i32>,
    pub worker: Option<GuiWorker>,
    /// The number of the latest request; outcomes of older ones are dropped.
    pub latest_request: u64,
    /// No page had been shown when the pending fetches began.
    pub fetch_from_init: bool,
}

impl GuiContext {
    pub open spec fn wf(&self) -> bool {
        &&& self.history@.wf()
        &&& self.page_buffer@.len() < PAGE_DIGITS
        &&& forall|i: int| 0 <= i < self.page_buffer@.len() ==> 0 <= #[trigger] self.page_buffer@[i] <= 9
        &&& self.worker matches Some(w) ==> w@.wf()
    }

    /// `self` holds what `old` held: the history may differ only in its
    /// representation.
    pub open spec fn unchanged(&self, old: &GuiContext) -> bool {
        &&& *self == (GuiContext { history: self.history, ..*old })
        &&& self.history@ == old.history@
    }

    /// The refresh timer asks for a refresh.
    pub open spec fn refresh_due(&self) -> bool {
        self.worker matches Some(w) && w@.should_refresh
    }

    /// `self` has begun the fetch `req` of `page` from the state `old`.
    pub open spec fn started_load(&self, old: &GuiContext, page: TelePage, req: LoadRequest) -> bool {
        &&& self.state is Fetching
        &&& self.current_page == page
        &&& req.page == page
        &&& req.url@ == full_page_spec(self.kind, page)
        &&& req.id == self.latest_request
        &&& self.latest_request == (old.latest_request + 1) % 0x1_0000_0000_0000_0000
        &&& self.fetch_from_init == (old.state.spec_is_init() || (old.state is Fetching
            && old.fetch_from_init))
    }

    /// A reader of the dialect `kind` that has fetched nothing yet and stands
    /// at page 100.
    pub fn new(kind: Pages) -> (r: GuiContext)
        ensures
            r.wf(),
            r.kind == kind,
            r.state is Init,
            r.current_page == (TelePage { page: FIRST_PAGE, sub_page: 1 }),
            r.history@.pages == seq![r.current_page],
            r.page_buffer@.len() == 0,
            r.worker is None,
    {
        let current_page = TelePage::new(FIRST_PAGE, 1);
        GuiContext {
            kind,
            state: FetchState::Init,
            current_page,
            history: TeleHistory::new(current_page),
            page_buffer: Vec::new(),
            worker: None,
            latest_request: 0,
            fetch_from_init: true,
        }
    }

    /// A reader that shows an already parsed page.
    pub fn from_document(kind: Pages, document: PageDocument) -> (r: GuiContext)
        ensures
            r.wf(),
            r.kind == kind,
            r.state == FetchState::Complete(document),
            r.current_page == (TelePage { page: FIRST_PAGE, sub_page: 1 }),
    {
        let mut r = Self::new(kind);
        r.state = FetchState::Complete(document);
        r
    }

    fn full_page(&self, page: &TelePage) -> (r: String)
        ensures
            r@ == full_page_spec(self.kind, *page),
    {
        match self.kind {
            Pages::YleText => TeleText::to_full_page(page),
            Pages::YleImage => YleImage::to_full_page(page),
        }
    }

    /// Begins a fetch of `page`, which becomes the current page.
    fn start_load(&mut self, page: TelePage) -> (r: LoadRequest)
        requires
            old(self).wf(),
        ensures
            final(self).wf(),
            final(self).started_load(old(self), page, r),
            final(self).kind == old(self).kind,
            final(self).history == old(self).history,
            final(self).page_buffer == old(self).page_buffer,
            final(self).worker == old(self).worker,
    {
        let was_init = match self.state {
            FetchState::Init | FetchState::InitFailed => true,
            FetchState::Fetching => self.fetch_from_init,
            _ => false,
        };
        self.fetch_from_init = was_init;
        self.state = FetchState::Fetching;
        self.current_page = page;
        self.latest_request = self.latest_request.wrapping_add(1);
        let url = self.full_page(&page);
        LoadRequest { page, url, id: self.latest_request }
    }

    /// Goes to the page that `page` names in the short form of the dialect;
    /// `None`, with nothing changed, where it names none.
    pub fn load_page(&mut self, page: &str, add_to_history: bool) -> (r: Option<LoadRequest>)
        requires
            old(self).wf(),
        ensures
            final(self).wf(),
            final(self).kind == old(self).kind,
            final(self).page_buffer == old(self).page_buffer,
            final(self).worker == old(self).worker,
            match page_from_str_in(old(self).kind, page@) {
                None => r is None && *final(self) == *old(self),
                Some(p) => r matches Some(req) && final(self).started_load(old(self), p, req) && (
                add_to_history ==> final(self).history@.pages == old(self).history@.pages.take(
                    old(self).history@.current + 1,
                ).push(p) && final(self).history@.current == old(self).history@.current + 1) && (
                !add_to_history ==> final(self).history == old(self).history),
            },
    {
        let target = match self.kind {
            Pages::YleText => TeleText::from_page_str(page),
            Pages::YleImage => YleImage::from_page_str(page),
        };
        match target {
            None => None,
            Some(p) => {
                if add_to_history {
                    self.history.add(p);
                }
                Some(self.start_load(p))
            },
        }
    }

    /// Fetches the current page again, leaving the history as it is.
    pub fn load_current_page(&mut self) -> (r: LoadRequest)
        requires
            old(self).wf(),
        ensures
            final(self).wf(),
            final(self).started_load(old(self), old(self).current_page, r),
            final(self).kind == old(self).kind,
            final(self).history == old(self).history,
            final(self).page_buffer == old(self).page_buffer,
            final(self).worker == old(self).worker,
    {
        let page = self.current_page;
        self.start_load(page)
    }

    /// Takes the outcome of the fetch `id`: the page where it was retrieved
    /// and parsed, `None` where either failed. The outcome of any but the
    /// latest request is dropped. Says whether the shown state changed.
    pub fn finish_load(&mut self, id: u64, outcome: Option<PageDocument>) -> (r: bool)
        requires
            old(self).wf(),
        ensures
            final(self).wf(),
            r == (id == old(self).latest_request),
            !r ==> *final(self) == *old(self),
            r ==> *final(self) == (GuiContext {
                state: FetchState::after_fetch_spec(old(self).fetch_from_init, outcome),
                ..*old(self)
            }),
    {
        if id != self.latest_request {
            return false;
        }
        let was_init = self.fetch_from_init;
        self.state = FetchState::after_fetch(was_init, outcome);
        true
    }

    /// Handles a navigation event; events are ignored unless a page is shown.
    /// A digit joins the typed ones, and the third one goes to that page
    /// number, sub-page 1, adding it to the history. Back and forward move in
    /// the history and fetch the page reached, where there is one.
    pub fn handle_input(&mut self, event: NavEvent) -> (r: Option<LoadRequest>)
        requires
            old(self).wf(),
            event matches NavEvent::Digit(d) ==> 0 <= d <= 9,
        ensures
            final(self).wf(),
            final(self).kind == old(self).kind,
            final(self).worker == old(self).worker,
            !(old(self).state is Complete) ==> r is None && *final(self) == *old(self),
            old(self).state is Complete ==> match event {
                NavEvent::Digit(d) => if old(self).page_buffer@.len() + 1 < PAGE_DIGITS {
                    &&& r is None
                    &&& final(self).page_buffer@ == old(self).page_buffer@.push(d)
                    &&& final(self).history == old(self).history
                    &&& final(self).state == old(self).state
                    &&& final(self).current_page == old(self).current_page
                    &&& final(self).latest_request == old(self).latest_request
                    &&& final(self).fetch_from_init == old(self).fetch_from_init
                } else {
                    let b = old(self).page_buffer@;
                    let p = TelePage { page: three_digit_value(b[0], b[1], d) as i32, sub_page: 1 };
                    &&& r matches Some(req) && final(self).started_load(old(self), p, req)
                    &&& final(self).page_buffer@.len() == 0
                    &&& final(self).history@.pages == old(self).history@.pages.take(
                        old(self).history@.current + 1,
                    ).push(p)
                    &&& final(self).history@.current == old(self).history@.current + 1
                },
                NavEvent::Back => if old(self).history@.current > 0 {
                    let p = old(self).history@.pages[old(self).history@.current - 1];
                    &&& r matches Some(req) && final(self).started_load(old(self), p, req)
                    &&& final(self).history@.current == old(self).history@.current - 1
                    &&& final(self).history@.pages == old(self).history@.pages
                    &&& final(self).page_buffer == old(self).page_buffer
                } else {
                    r is None && final(self).unchanged(old(self))
                },
                NavEvent::Forward => if old(self).history@.current + 1 < old(self).history@.pages.len() {
                    let p = old(self).history@.pages[old(self).history@.current + 1];
                    &&& r matches Some(req) && final(self).started_load(old(self), p, req)
                    &&& final(self).history@.current == old(self).history@.current + 1
                    &&& final(self).history@.pages == old(self).history@.pages
                    &&& final(self).page_buffer == old(self).page_buffer
                } else {
                    r is None && final(self).unchanged(old(self))
                },
            },
    {
        match self.state {
            FetchState::Complete(_) => {},
            _ => return None,
        }
        match event {
            NavEvent::Digit(num) => {
                self.page_buffer.push(num);
                if self.page_buffer.len() < PAGE_DIGITS {
                    return None;
                }
                let page_num = self.page_buffer[0] * 100 + self.page_buffer[1] * 10 + self.page_buffer[2];
                self.page_buffer.clear();
                let page = TelePage::new(page_num, 1);
                self.history.add(page);
                Some(self.start_load(page))
            },
            NavEvent::Back => match self.history.prev() {
                Some(page) => Some(self.start_load(page)),
                None => None,
            },
            NavEvent::Forward => match self.history.next() {
                Some(page) => Some(self.start_load(page)),
                None => None,
            },
        }
    }

    /// The per-frame check: where the refresh timer has raised its flag, the
    /// flag is taken down and the current page fetched again.
    pub fn draw(&mut self) -> (r: Option<LoadRequest>)
        requires
            old(self).wf(),
        ensures
            final(self).wf(),
            final(self).kind == old(self).kind,
            final(self).history == old(self).history,
            final(self).page_buffer == old(self).page_buffer,
            old(self).refresh_due() ==> !final(self).refresh_due() && final(self).worker is Some && (r matches Some(
                req) && final(self).started_load(old(self), old(self).current_page, req)),
            !old(self).refresh_due() ==> r is None && *final(self) == *old(self),
    {
        let due = match &self.worker {
            Some(worker) => worker.should_refresh(),
            None => false,
        };
        if !due {
            return None;
        }
        let mut worker = self.worker.take().unwrap();
        worker.use_refresh();
        self.worker = Some(worker);
        Some(self.load_current_page())
    }

    /// One second has passed for the refresh timer, if there is one.
    pub fn timer_tick(&mut self)
        requires
            old(self).wf(),
        ensures
            final(self).wf(),
            final(self).kind == old(self).kind,
            final(self).state == old(self).state,
            final(self).history == old(self).history,
            final(self).current_page == old(self).current_page,
            old(self).worker is None ==> final(self).worker is None,
            old(self).worker matches Some(w) ==> (final(self).worker matches Some(w2) && w@.ticked(w2@)),
    {
        if let Some(worker) = &mut self.worker {
            worker.tick();
        }
    }

    /// Refreshes every `interval` seconds: a running timer gets the new
    /// interval, else a new timer is started.
    pub fn set_refresh_interval(&mut self, interval: u64)
        requires
            old(self).wf(),
        ensures
            final(self).wf(),
            final(self).state == old(self).state,
            final(self).history == old(self).history,
            final(self).current_page == old(self).current_page,
            old(self).worker matches Some(w0) ==> (final(self).worker matches Some(w) && w@ == (WorkerView {
                timer: 0,
                interval,
                ..w0@
            })),
            old(self).worker is None ==> (final(self).worker matches Some(w) && w@ == (WorkerView {
                running: true,
                timer: 0,
                interval,
                should_refresh: false,
            })),
    {
        match self.worker.take() {
            Some(mut worker) => {
                worker.set_interval(interval);
                self.worker = Some(worker);
            },
            None => {
                let mut worker = GuiWorker::new(interval);
                worker.start();
                self.worker = Some(worker);
            },
        }
    }

    /// Stops refreshing; the timer is dropped.
    pub fn stop_refresh_interval(&mut self)
        requires
            old(self).wf(),
        ensures
            final(self).wf(),
            *final(self) == (GuiContext { worker: None, ..*old(self) }),
    {
        self.worker = None;
    }

    /// Leaves a page that failed to load: goes back one page, drops the
    /// failed one from the history and fetches the page reached.
    pub fn return_from_error_page(&mut self) -> (r: Option<LoadRequest>)
        requires
            old(self).wf(),
        ensures
            final(self).wf(),
            final(self).kind == old(self).kind,
            final(self).page_buffer == old(self).page_buffer,
            final(self).worker == old(self).worker,
            old(self).history@.current > 0 ==> {
                let p = old(self).history@.pages[old(self).history@.current - 1];
                &&& r matches Some(req) && final(self).started_load(old(self), p, req)
                &&& final(self).history@.current == old(self).history@.current - 1
                &&& final(self).history@.pages == old(self).history@.pages.take(
                    old(self).history@.current,
                )
            },
            old(self).history@.current == 0 ==> r is None && final(self).unchanged(old(self)),
    {
        match self.history.prev_trunc() {
            Some(page) => Some(self.start_load(page)),
            None => None,
        }
    }

    /// The page number for the header.
    pub fn get_page_str(&self) -> (r: String)
        requires
            self.wf(),
        ensures
            r@ == page_label_spec(self.page_buffer@, self.current_page.page),
    {
        let mut label = String::new();
        push_char(&mut label, 'P');
        let ghost start = label@;
        if self.page_buffer.len() > 0 {
            let mut i: usize = 0;
            while i < PAGE_DIGITS
                invariant
                    self.wf(),
                    self.page_buffer@.len() > 0,
                    i <= PAGE_DIGITS,
                    label@ == start + page_label_spec(self.page_buffer@, self.current_page.page).skip(
                        1,
                    ).take(i as int),
                decreases PAGE_DIGITS - i,
            {
                let c = if i < self.page_buffer.len() {
                    let d = self.page_buffer[i];
                    assert(((d as u8) + 48u8) as char == digit_char(d as nat));
                    ((d as u8) + 48u8) as char
                } else {
                    '-'
                };
                assert(c == page_label_spec(self.page_buffer@, self.current_page.page)[i + 1]);
                push_char(&mut label, c);
                i = i + 1;
                assert(label@ =~= start + page_label_spec(self.page_buffer@, self.current_page.page).skip(
                    1,
                ).take(i as int));
            }
            assert(label@ =~= page_label_spec(self.page_buffer@, self.current_page.page));
        } else {
            push_int(&mut label, self.current_page.page, 0);
        }
        label
    }
}

/// A fetch that fails leaves `InitFailed` when it began before any page was
/// shown, and `Error` when it began while a page was shown.
pub proof fn lemma_failed_fetch_state(
    before: GuiContext,
    started: GuiContext,
    page: TelePage,
    req: LoadRequest,
)
    requires
        started.started_load(&before, page, req),
    ensures
        before.state.spec_is_init() ==> FetchState::<PageDocument>::after_fetch_spec(
            started.fetch_from_init,
            None,
        ) is InitFailed,
        before.state is Complete ==> FetchState::<PageDocument>::after_fetch_spec(
            started.fetch_from_init,
            None,
        ) is Error,
{
}

} // verus!
