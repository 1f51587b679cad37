use teletext::cursor::{HtmlItem, HtmlLoader, ParseErr, ParseState, TagType};
use teletext::yle_text::TeleText;

const TOP: &str = "<html><body><big>Suomi &amp; Ruotsi</big>\r\n\
<SPAN class=\"nav\"><a href=\"099_0001.htm\">Edellinen</a>&nbsp;|&nbsp;Seuraava&nbsp;|&nbsp;\
<a href=\"100_0001.htm\">Hakemisto</a>&nbsp;|&nbsp;Ohje</SPAN>\r\n";

const BODY: &str = "<pre>\r\n UUTISET <a href=\"102_0001.htm\">102</a>\r\n&nbsp;\r\n Katso <a href=\"https://example.com/x\">linkki</a> nyt &amp; heti\r\n</pre>\r\n";

const BOTTOM: &str = "<p><font color=\"x\">1/2</font> <a href=\"100_0002.htm\">2</a></p>\r\n\
<p><a href=\"099_0001.htm\">&lt;&lt;</a> <a href=\"101_0001.htm\">&gt;&gt;</a> \
<a href=\"100_0001.htm\">100</a> <a href=\"200_0001.htm\">200</a> \
<a href=\"300_0001.htm\">300</a> <a href=\"400_0001.htm\">400</a></p></body></html>";

fn page_text() -> String {
    format!("{}{}{}", TOP, BODY, BOTTOM)
}

fn parse(text: String) -> Result<TeleText, ParseErr> {
    TeleText::new().parse(HtmlLoader { page_data: text })
}

fn text_of(item: &HtmlItem) -> &str {
    match item {
        HtmlItem::Text(t) => t,
        HtmlItem::Link(_) => panic!("expected text"),
    }
}

fn link_of(item: &HtmlItem) -> (&str, &str) {
    match item {
        HtmlItem::Link(l) => (&l.url, &l.inner_text),
        HtmlItem::Text(_) => panic!("expected a link"),
    }
}

#[test]
fn title_is_entity_decoded() {
    let page = parse(page_text()).unwrap();
    assert_eq!(page.title, "Suomi & Ruotsi");
}

#[test]
fn top_navigation_has_four_slots() {
    let page = parse(page_text()).unwrap();
    assert_eq!(page.page_navigation.len(), 4);
    assert_eq!(link_of(&page.page_navigation[0]), ("099_0001.htm", "Edellinen"));
    assert_eq!(text_of(&page.page_navigation[1]), "Seuraava");
    assert_eq!(link_of(&page.page_navigation[2]), ("100_0001.htm", "Hakemisto"));
    assert_eq!(text_of(&page.page_navigation[3]), "Ohje");
}

#[test]
fn body_rows_keep_page_links_and_demote_others() {
    let page = parse(page_text()).unwrap();
    assert_eq!(page.middle_rows.len(), 4);
    assert!(page.middle_rows[0].is_empty());
    let row = &page.middle_rows[1];
    assert_eq!(row.len(), 2);
    assert_eq!(text_of(&row[0]), " UUTISET ");
    assert_eq!(link_of(&row[1]), ("102_0001.htm", "102"));
    let row = &page.middle_rows[3];
    assert_eq!(row.len(), 3);
    assert_eq!(text_of(&row[0]), " Katso ");
    assert_eq!(text_of(&row[1]), "linkki");
    assert_eq!(text_of(&row[2]), " nyt & heti");
}

#[test]
fn nbsp_line_is_an_empty_row() {
    let page = parse(page_text()).unwrap();
    assert!(page.middle_rows[2].is_empty());
}

#[test]
fn sub_pages_skip_font_and_keep_links() {
    let page = parse(page_text()).unwrap();
    assert_eq!(page.sub_pages.len(), 2);
    assert_eq!(text_of(&page.sub_pages[0]), " ");
    assert_eq!(link_of(&page.sub_pages[1]), ("100_0002.htm", "2"));
}

#[test]
fn bottom_navigation_has_six_links() {
    let page = parse(page_text()).unwrap();
    assert_eq!(page.bottom_navigation.len(), 6);
    assert_eq!(page.bottom_navigation[0].url, "099_0001.htm");
    assert_eq!(page.bottom_navigation[0].inner_text, "<<");
    assert_eq!(page.bottom_navigation[5].url, "400_0001.htm");
}

#[test]
fn fewer_than_six_bottom_links_is_malformed() {
    let short = BOTTOM.replace("<a href=\"400_0001.htm\">400</a>", "");
    let text = format!("{}{}{}", TOP, BODY, short);
    assert_eq!(parse(text).unwrap_err(), ParseErr::MalformedDocument);
}

#[test]
fn missing_pre_terminator_is_malformed() {
    let body = BODY.replace("</pre>", "");
    let text = format!("{}{}{}", TOP, body, BOTTOM);
    assert_eq!(parse(text).unwrap_err(), ParseErr::MalformedDocument);
}

#[test]
fn other_tag_in_body_row_is_malformed() {
    let body = BODY.replace(" UUTISET ", "<b>UUTISET</b>");
    let text = format!("{}{}{}", TOP, body, BOTTOM);
    assert_eq!(parse(text).unwrap_err(), ParseErr::MalformedDocument);
}

#[test]
fn missing_title_is_malformed() {
    assert_eq!(parse(String::from("<html></html>")).unwrap_err(), ParseErr::MalformedDocument);
    assert_eq!(parse(String::new()).unwrap_err(), ParseErr::MalformedDocument);
}

#[test]
fn tag_types_by_prefix() {
    assert_eq!(ParseState::new("<p class=x>").get_tag_type(), TagType::P);
    assert_eq!(ParseState::new("a href").get_tag_type(), TagType::Link);
    assert_eq!(ParseState::new("<big>").get_tag_type(), TagType::Big);
    assert_eq!(ParseState::new("<div>").get_tag_type(), TagType::Div);
    assert_eq!(ParseState::new("<pre>").get_tag_type(), TagType::Pre);
    assert_eq!(ParseState::new("<font>").get_tag_type(), TagType::Font);
    assert_eq!(ParseState::new("<span>").get_tag_type(), TagType::Span);
    assert_eq!(ParseState::new("<center>").get_tag_type(), TagType::Center);
    assert_eq!(ParseState::new("<b>").get_tag_type(), TagType::Unknown);
    assert_eq!(ParseState::new("").get_tag_type(), TagType::Unknown);
}

#[test]
fn skip_next_tag_passes_attributes() {
    let mut state = ParseState::new("xx<font size=\"2\">rest</font>");
    state.skip_next_tag("font", false).unwrap();
    assert_eq!(state.take_text(state.len()), "rest</font>");
    state.skip_next_tag("font", true).unwrap();
    assert!(state.is_empty());
    assert_eq!(state.skip_next_tag("font", true), Err(ParseErr::MalformedDocument));
}

#[test]
fn cursor_skips_by_character_and_string() {
    let mut state = ParseState::new("äb|cd|ef");
    state.skip_next_char('|').unwrap();
    assert_eq!(state.take_text(state.len()), "cd|ef");
    state.skip_to_next_char('|').unwrap();
    assert_eq!(state.take_text(state.len()), "|ef");
    state.skip_next_string("|e").unwrap();
    assert_eq!(state.take_text(state.len()), "f");
    assert_eq!(state.skip_next_char('|'), Err(ParseErr::MalformedDocument));
    assert_eq!(state.skip_next_string("zz"), Err(ParseErr::MalformedDocument));
}

#[test]
fn middle_link_classification_by_url_length() {
    let mut state = ParseState::new("<a href=\"123_0001.htm\">x</a>");
    let link = TeleText::parse_middle_link(&mut state).unwrap().unwrap();
    assert_eq!(link.url, "123_0001.htm");
    let mut state = ParseState::new("<a href=\"123_01.htm\">y &amp; z</a>");
    let text = TeleText::parse_middle_link(&mut state).unwrap().unwrap_err();
    assert_eq!(text, "y & z");
}

#[test]
fn current_link_decodes_the_label() {
    let mut state = ParseState::new("<a href=\"u\">&auml;&#228;</a>after");
    let link = state.parse_current_link().unwrap();
    assert_eq!(link.url, "u");
    assert_eq!(link.inner_text, "ää");
    assert_eq!(state.take_text(state.len()), "after");
}

#[test]
fn body_text_starting_like_a_tag_name_is_text() {
    let body = "<pre>\r\nabc\r\n<a href=\"102_0001.htm\">102</a>alkaen\r\n</pre>\r\n";
    let page = parse(format!("{}{}{}", TOP, body, BOTTOM)).unwrap();
    assert_eq!(page.middle_rows.len(), 3);
    assert_eq!(page.middle_rows[1].len(), 1);
    assert_eq!(text_of(&page.middle_rows[1][0]), "abc");
    assert_eq!(page.middle_rows[2].len(), 2);
    assert_eq!(link_of(&page.middle_rows[2][0]), ("102_0001.htm", "102"));
    assert_eq!(text_of(&page.middle_rows[2][1]), "alkaen");
}

#[test]
fn top_navigation_text_starting_with_a_is_text() {
    let top = TOP.replace("Seuraava", "aamu");
    let page = parse(format!("{}{}{}", top, BODY, BOTTOM)).unwrap();
    assert_eq!(text_of(&page.page_navigation[1]), "aamu");
}

#[test]
fn sub_page_text_starting_with_f_is_text() {
    let bottom = BOTTOM.replace("</font> <a", "</font>fi <a");
    let page = parse(format!("{}{}{}", TOP, BODY, bottom)).unwrap();
    assert_eq!(text_of(&page.sub_pages[0]), "fi ");
}
