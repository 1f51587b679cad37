use teletext::controller::{GuiContext, NavEvent, PageDocument, Pages};
use teletext::fetch::{FetchState, GuiWorker};
use teletext::history::TeleHistory;
use teletext::page::TelePage;
use teletext::yle_text::TeleText;

fn page(n: i32) -> TelePage {
    TelePage::new(n, 1)
}

#[test]
fn history_add_prev_and_branch() {
    let (a, b, c, d) = (page(100), page(200), page(300), page(400));
    let mut history = TeleHistory::new(a);
    assert_eq!(history.pages().clone(), vec![a]);
    assert_eq!(history.current(), 0);
    history.add(b);
    assert_eq!(history.pages().clone(), vec![a, b]);
    assert_eq!(history.current(), 1);
    history.add(c);
    assert_eq!(history.pages().clone(), vec![a, b, c]);
    assert_eq!(history.current(), 2);
    assert_eq!(history.prev(), Some(b));
    assert_eq!(history.current(), 1);
    history.add(d);
    assert_eq!(history.pages().clone(), vec![a, b, d]);
    assert_eq!(history.current(), 2);
}

#[test]
fn history_prev_trunc_drops_the_page_left() {
    let (a, b, c) = (page(100), page(200), page(300));
    let mut history = TeleHistory::new(a);
    history.add(b);
    history.add(c);
    assert_eq!(history.prev_trunc(), Some(b));
    assert_eq!(history.pages().clone(), vec![a, b]);
    assert_eq!(history.current(), 1);
    assert_eq!(history.next(), None);
}

#[test]
fn history_bounds_are_no_ops() {
    let a = page(100);
    let mut history = TeleHistory::new(a);
    assert_eq!(history.prev(), None);
    assert_eq!(history.prev_trunc(), None);
    assert_eq!(history.next(), None);
    history.add(page(101));
    assert_eq!(history.prev(), Some(a));
    assert_eq!(history.next(), Some(page(101)));
}

fn shown() -> PageDocument {
    PageDocument::Text(TeleText::new())
}

#[test]
fn first_failed_load_is_init_failed() {
    let mut ctx = GuiContext::new(Pages::YleText);
    assert!(matches!(ctx.state, FetchState::Init));
    let req = ctx.load_current_page();
    assert_eq!(req.url, "https://yle.fi/tekstitv/txt/100_0001.htm");
    assert_eq!(req.page, page(100));
    assert!(matches!(ctx.state, FetchState::Fetching));
    assert!(ctx.finish_load(req.id, None));
    assert!(matches!(ctx.state, FetchState::InitFailed));
    let req = ctx.load_current_page();
    assert!(ctx.finish_load(req.id, None));
    assert!(matches!(ctx.state, FetchState::InitFailed));
}

#[test]
fn failure_after_a_shown_page_is_error() {
    let mut ctx = GuiContext::new(Pages::YleImage);
    let req = ctx.load_current_page();
    assert_eq!(req.url, "https://yle.fi/aihe/yle-ttv/json?P=100_0001");
    assert!(ctx.finish_load(req.id, Some(shown())));
    assert!(matches!(ctx.state, FetchState::Complete(_)));
    let req = ctx.load_current_page();
    assert!(ctx.finish_load(req.id, None));
    assert!(matches!(ctx.state, FetchState::Error));
    let req = ctx.load_current_page();
    assert!(ctx.finish_load(req.id, Some(shown())));
    assert!(matches!(ctx.state, FetchState::Complete(_)));
}

#[test]
fn stale_outcomes_are_dropped() {
    let mut ctx = GuiContext::new(Pages::YleText);
    let first = ctx.load_current_page();
    let second = ctx.load_page("200_0001.htm", true).unwrap();
    assert!(!ctx.finish_load(first.id, Some(shown())));
    assert!(matches!(ctx.state, FetchState::Fetching));
    assert!(ctx.finish_load(second.id, None));
    assert!(matches!(ctx.state, FetchState::InitFailed));
}

#[test]
fn load_page_rejects_a_malformed_address() {
    let mut ctx = GuiContext::new(Pages::YleText);
    assert!(ctx.load_page("xyz", true).is_none());
    assert!(matches!(ctx.state, FetchState::Init));
    assert_eq!(ctx.history.pages().len(), 1);
}

#[test]
fn three_digits_jump_to_a_page() {
    let mut ctx = GuiContext::from_document(Pages::YleText, shown());
    assert_eq!(ctx.get_page_str(), "P100");
    assert!(ctx.handle_input(NavEvent::Digit(1)).is_none());
    assert_eq!(ctx.get_page_str(), "P1--");
    assert!(ctx.handle_input(NavEvent::Digit(0)).is_none());
    assert_eq!(ctx.get_page_str(), "P10-");
    let req = ctx.handle_input(NavEvent::Digit(2)).unwrap();
    assert_eq!(req.page, page(102));
    assert_eq!(req.url, "https://yle.fi/tekstitv/txt/102_0001.htm");
    assert!(ctx.page_buffer.is_empty());
    assert_eq!(ctx.current_page, page(102));
    assert_eq!(ctx.history.pages().clone(), vec![page(100), page(102)]);
    assert_eq!(ctx.get_page_str(), "P102");
}

#[test]
fn input_is_ignored_while_no_page_is_shown() {
    let mut ctx = GuiContext::new(Pages::YleText);
    assert!(ctx.handle_input(NavEvent::Digit(1)).is_none());
    assert!(ctx.page_buffer.is_empty());
    assert!(ctx.handle_input(NavEvent::Back).is_none());
}

#[test]
fn back_and_forward_follow_the_history() {
    let mut ctx = GuiContext::from_document(Pages::YleText, shown());
    let req = ctx.load_page("200_0001.htm", true).unwrap();
    ctx.finish_load(req.id, Some(shown()));
    let back = ctx.handle_input(NavEvent::Back).unwrap();
    assert_eq!(back.page, page(100));
    assert_eq!(ctx.current_page, page(100));
    ctx.finish_load(back.id, Some(shown()));
    let forward = ctx.handle_input(NavEvent::Forward).unwrap();
    assert_eq!(forward.page, page(200));
    ctx.finish_load(forward.id, Some(shown()));
    assert!(ctx.handle_input(NavEvent::Forward).is_none());
}

#[test]
fn return_from_error_page_drops_the_failed_page() {
    let mut ctx = GuiContext::from_document(Pages::YleText, shown());
    let req = ctx.load_page("300_0001.htm", true).unwrap();
    ctx.finish_load(req.id, None);
    assert!(matches!(ctx.state, FetchState::Error));
    let back = ctx.return_from_error_page().unwrap();
    assert_eq!(back.page, page(100));
    assert_eq!(ctx.history.pages().clone(), vec![page(100)]);
    assert!(ctx.return_from_error_page().is_none());
}

#[test]
fn refresh_timer_raises_its_flag_at_the_interval() {
    let mut worker = GuiWorker::new(3);
    worker.tick();
    assert!(!worker.should_refresh());
    worker.start();
    worker.tick();
    worker.tick();
    assert!(!worker.should_refresh());
    worker.tick();
    assert!(worker.should_refresh());
    worker.use_refresh();
    assert!(!worker.should_refresh());
    worker.set_interval(1);
    worker.tick();
    assert!(worker.should_refresh());
}

#[test]
fn refresh_reloads_the_current_page() {
    let mut ctx = GuiContext::from_document(Pages::YleText, shown());
    assert!(ctx.draw().is_none());
    ctx.set_refresh_interval(2);
    ctx.timer_tick();
    assert!(ctx.draw().is_none());
    ctx.timer_tick();
    let req = ctx.draw().unwrap();
    assert_eq!(req.page, page(100));
    assert!(ctx.draw().is_none());
    ctx.stop_refresh_interval();
    assert!(ctx.worker.is_none());
    ctx.timer_tick();
    assert!(ctx.draw().is_none());
}

#[test]
fn default_worker_waits_five_minutes() {
    let mut worker = GuiWorker::default();
    worker.start();
    for _ in 0..299 {
        worker.tick();
    }
    assert!(!worker.should_refresh());
    worker.tick();
    assert!(worker.should_refresh());
}

#[test]
fn image_mode_loads_pages_below_one_hundred() {
    let mut ctx = GuiContext::new(Pages::YleImage);
    let req = ctx.load_page("42_0001", true).unwrap();
    assert_eq!(req.page, page(42));
    assert_eq!(req.url, "https://yle.fi/aihe/yle-ttv/json?P=42_0001");
    assert_eq!(ctx.current_page, page(42));
}
