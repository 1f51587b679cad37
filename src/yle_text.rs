//! The text page dialect: a title, four top navigation slots, the rows of the
//! `<pre>` body, the sub-page selector and six bottom links.
use vstd::prelude::*;
use crate::cursor::{
    after_tag, is_suffix, lemma_after_char, lemma_suffix_trans, items_view, lemma_after_tag, lemma_link_spec, link_spec, links_view, opening_tag,
    HtmlItem, HtmlLink, HtmlLoader, ItemView, LinkView, ParseErr, ParseState, TagType,
};
use crate::page::{page_from_str_spec, url_path_spec, TelePage, TelePager};
use crate::text::{
    after_str, html_decoded, find_char, find_str, lemma_find_char, lemma_find_str, occurs_at, starts_with,
};

verus! {

pub const TOP_NAVIGATION_SIZE: usize = 4;

pub const BOTTOM_NAVIGATION_SIZE: usize = 6;

/// The url of every page link of the body is this long.
pub const HTML_LINK_SIZE: usize = 12;

/// The body rows are at most this many characters wide.
pub const MIDDLE_TEXT_MAX_LEN: usize = 39;

/// `p` put in front of the items of a partial parse.
pub open spec fn prepend<A>(p: Seq<A>, o: Option<(Seq<A>, Seq<char>)>) -> Option<(Seq<A>, Seq<char>)> {
    match o {
        Some((r, t)) => Some((p + r, t)),
        None => None,
    }
}

pub proof fn lemma_prepend_assoc<A>(p: Seq<A>, q: Seq<A>, o: Option<(Seq<A>, Seq<char>)>)
    ensures
        prepend(p, prepend(q, o)) == prepend(p + q, o),
{
    if let Some((r, t)) = o {
        assert(p + (q + r) =~= (p + q) + r);
    }
}

pub open spec fn prepend_row(p: Seq<ItemView>, o: Option<Seq<ItemView>>) -> Option<Seq<ItemView>> {
    match o {
        Some(r) => Some(p + r),
        None => None,
    }
}

pub open spec fn rows_view(v: Seq<Vec<HtmlItem>>) -> Seq<Seq<ItemView>> {
    v.map_values(|r: Vec<HtmlItem>| items_view(r@))
}

/// The title: the decoded text after the first `<big>` tag, up to the next tag.
/// The cursor stays at the start of that text.
pub open spec fn title_spec(s: Seq<char>) -> Option<(Seq<char>, Seq<char>)> {
    match after_tag(s, "big"@, false) {
        None => None,
        Some(s1) => match find_char(s1, '<') {
            None => None,
            Some(k) => Some((html_decoded(s1.take(k)), s1)),
        },
    }
}

/// One top navigation slot: an anchor, or the text up to the next `&`
/// (up to the next tag in the last slot), which is then skipped past.
pub open spec fn top_nav_item(s: Seq<char>, last: bool) -> Option<(ItemView, Seq<char>)> {
    if opening_tag(s) == TagType::Link {
        match link_spec(s) {
            Some((l, t)) => Some((ItemView::Link(l), t)),
            None => None,
        }
    } else {
        let e = if last {
            '<'
        } else {
            '&'
        };
        match find_char(s, e) {
            Some(k) => Some((ItemView::Text(s.take(k)), s.skip(k + 1))),
            None => None,
        }
    }
}

/// The top navigation slots from slot `i` on; slots are separated by
/// `&nbsp;` before and `nbsp;|` after each one but the last.
pub open spec fn top_nav_from(s: Seq<char>, i: int) -> Option<(Seq<ItemView>, Seq<char>)>
    decreases 4 - i,
{
    if i < 0 || i >= 4 {
        Some((seq![], s))
    } else {
        let last = i == 3;
        let s0 = if i != 0 {
            after_str(s, "&nbsp;"@)
        } else {
            Some(s)
        };
        match s0 {
            None => None,
            Some(s0) => match top_nav_item(s0, last) {
                None => None,
                Some((item, s1)) => {
                    let s2 = if !last {
                        after_str(s1, "nbsp;|"@)
                    } else {
                        Some(s1)
                    };
                    match s2 {
                        None => None,
                        Some(s2) => prepend(seq![item], top_nav_from(s2, i + 1)),
                    }
                },
            },
        }
    }
}

/// The top navigation: four slots after the first `<SPAN>` tag.
pub open spec fn top_nav_spec(s: Seq<char>) -> Option<(Seq<ItemView>, Seq<char>)> {
    match after_tag(s, "SPAN"@, false) {
        None => None,
        Some(s1) => top_nav_from(s1, 0),
    }
}

/// An anchor of the body: a page link when its url has the length of one,
/// else plain text that holds its label.
pub open spec fn middle_item(l: LinkView) -> ItemView {
    if l.url.len() == HTML_LINK_SIZE {
        ItemView::Link(l)
    } else {
        ItemView::Text(l.inner_text)
    }
}

/// The items of one body row `l`: anchors, and decoded runs of text between
/// them. A tag other than an anchor makes the row malformed.
pub open spec fn row_items(l: Seq<char>) -> Option<Seq<ItemView>>
    decreases l.len(),
{
    if l.len() == 0 {
        Some(seq![])
    } else if opening_tag(l) == TagType::Link {
        match link_spec(l) {
            None => None,
            Some((link, t)) => {
                proof {
                    lemma_link_spec(l);
                }
                prepend_row(seq![middle_item(link)], row_items(t))
            },
        }
    } else {
        match find_char(l, '<') {
            None => Some(seq![ItemView::Text(html_decoded(l))]),
            Some(k) => if k == 0 {
                None
            } else {
                proof {
                    lemma_find_char(l, '<');
                }
                prepend_row(seq![ItemView::Text(html_decoded(l.take(k)))], row_items(l.skip(k)))
            },
        }
    }
}

/// The rows of the body up to `</pre>`: each ends in a CR LF pair, and one that
/// is empty or starts with `&` holds no items.
pub open spec fn middle_rows_from(s: Seq<char>) -> Option<(Seq<Seq<ItemView>>, Seq<char>)>
    decreases s.len(),
{
    if starts_with(s, "</pre>"@) {
        Some((seq![], s))
    } else {
        match find_char(s, '\r') {
            None => None,
            Some(k) => if k + 2 > s.len() {
                None
            } else {
                let line = s.take(k);
                let row = if line.len() == 0 || line[0] == '&' {
                    Some(seq![])
                } else {
                    row_items(line)
                };
                match row {
                    None => None,
                    Some(row) => {
                        proof {
                            lemma_find_char(s, '\r');
                        }
                        prepend(seq![row], middle_rows_from(s.skip(k + 2)))
                    },
                }
            },
        }
    }
}

/// The body: the rows after the first `<pre>` tag.
pub open spec fn middle_spec(s: Seq<char>) -> Option<(Seq<Seq<ItemView>>, Seq<char>)> {
    match after_tag(s, "pre"@, false) {
        None => None,
        Some(s1) => middle_rows_from(s1),
    }
}

/// The sub-page selector up to `</p>`: `<font>` wrappers are skipped past
/// their closing tag, anchors are links of any kind, and runs of text up to the
/// next tag are kept as they stand.
pub open spec fn sub_pages_from(s: Seq<char>) -> Option<(Seq<ItemView>, Seq<char>)>
    decreases s.len(),
{
    if starts_with(s, "</p>"@) {
        Some((seq![], s))
    } else if opening_tag(s) == TagType::Font {
        match after_tag(s, "font"@, true) {
            None => None,
            Some(t) => {
                proof {
                    lemma_after_tag(s, "font"@, true);
                }
                sub_pages_from(t)
            },
        }
    } else if opening_tag(s) == TagType::Link {
        match link_spec(s) {
            None => None,
            Some((l, t)) => {
                proof {
                    lemma_link_spec(s);
                }
                prepend(seq![ItemView::Link(l)], sub_pages_from(t))
            },
        }
    } else {
        match find_char(s, '<') {
            None => None,
            Some(k) => if k == 0 {
                None
            } else {
                proof {
                    lemma_find_char(s, '<');
                }
                prepend(seq![ItemView::Text(s.take(k))], sub_pages_from(s.skip(k)))
            },
        }
    }
}

/// The sub-page selector: what follows the next `<p>` tag.
pub open spec fn sub_pages_spec(s: Seq<char>) -> Option<(Seq<ItemView>, Seq<char>)> {
    match after_tag(s, "p"@, false) {
        None => None,
        Some(s1) => sub_pages_from(s1),
    }
}

/// `n` anchors in a row.
pub open spec fn links_from(s: Seq<char>, n: nat) -> Option<(Seq<LinkView>, Seq<char>)>
    decreases n,
{
    if n == 0 {
        Some((seq![], s))
    } else {
        match link_spec(s) {
            None => None,
            Some((l, t)) => prepend(seq![l], links_from(t, (n - 1) as nat)),
        }
    }
}

/// The bottom navigation: six anchors after the next `<p>` tag.
pub open spec fn bottom_nav_spec(s: Seq<char>) -> Option<(Seq<LinkView>, Seq<char>)> {
    match after_tag(s, "p"@, false) {
        None => None,
        Some(s1) => links_from(s1, BOTTOM_NAVIGATION_SIZE as nat),
    }
}


/// A text page as plain values.
pub struct TextPageView {
    pub title: Seq<char>,
    pub page_navigation: Seq<ItemView>,
    pub middle_rows: Seq<Seq<ItemView>>,
    pub sub_pages: Seq<ItemView>,
    pub bottom_navigation: Seq<LinkView>,
}

/// The text page that `s` holds: its parts in order, each scanned from where
/// the one before it stopped.
pub open spec fn text_page_spec(s: Seq<char>) -> Option<TextPageView> {
    match title_spec(s) {
        None => None,
        Some((title, s1)) => match top_nav_spec(s1) {
            None => None,
            Some((top, s2)) => match middle_spec(s2) {
                None => None,
                Some((rows, s3)) => match sub_pages_spec(s3) {
                    None => None,
                    Some((subs, s4)) => match bottom_nav_spec(s4) {
                        None => None,
                        Some((bottom, _)) => Some(
                            TextPageView {
                                title,
                                page_navigation: top,
                                middle_rows: rows,
                                sub_pages: subs,
                                bottom_navigation: bottom,
                            },
                        ),
                    },
                },
            },
        },
    }
}

/// The fields of a text page.
#[derive(Debug)]
pub struct TeleText {
    pub title: String,
    pub page_navigation: Vec<HtmlItem>,
    pub bottom_navigation: Vec<HtmlLink>,
    pub sub_pages: Vec<HtmlItem>,
    pub middle_rows: Vec<Vec<HtmlItem>>,
}

impl View for TeleText {
    type V = TextPageView;

    open spec fn view(&self) -> TextPageView {
        TextPageView {
            title: self.title@,
            page_navigation: items_view(self.page_navigation@),
            middle_rows: rows_view(self.middle_rows@),
            sub_pages: items_view(self.sub_pages@),
            bottom_navigation: links_view(self.bottom_navigation@),
        }
    }
}

impl TeleText {
    /// Parses the title, the text of the `<big>` element.
    pub fn parse_title(state: &mut ParseState) -> (r: Result<String, ParseErr>)
        requires
            old(state).wf(),
        ensures
            final(state).wf(),
            final(state).same_page(old(state)),
            r is Ok <==> title_spec(old(state)@) is Some,
            r matches Ok(t) ==> title_spec(old(state)@) == Some((t@, final(state)@)),
            r matches Err(e) ==> e == ParseErr::MalformedDocument,
    {
        state.skip_next_tag("big", false)?;
        let text_end = match state.find_char('<') {
            Some(k) => k,
            None => return Err(ParseErr::MalformedDocument),
        };
        proof {
            lemma_find_char(state@, '<');
        }
        Ok(state.take_decoded(text_end))
    }

    /// Parses the four slots of the top navigation.
    pub fn parse_top_navigation(state: &mut ParseState) -> (r: Result<Vec<HtmlItem>, ParseErr>)
        requires
            old(state).wf(),
        ensures
            final(state).wf(),
            final(state).same_page(old(state)),
            r is Ok <==> top_nav_spec(old(state)@) is Some,
            r matches Ok(nav) ==> top_nav_spec(old(state)@) == Some((items_view(nav@), final(state)@))
                && nav@.len() == TOP_NAVIGATION_SIZE,
            r matches Err(e) ==> e == ParseErr::MalformedDocument,
    {
        state.skip_next_tag("SPAN", false)?;
        let ghost s1 = state@;
        let ghost text = state.text@;
        let ghost end = state.end;
        let mut navigation: Vec<HtmlItem> = Vec::new();
        let mut ii: usize = 0;
        while ii < TOP_NAVIGATION_SIZE
            invariant
                state.wf(),
                state.text@ == text,
                state.end == end,
                text == old(state).text@,
                end == old(state).end,
                top_nav_spec(old(state)@) == top_nav_from(s1, 0),
                ii <= TOP_NAVIGATION_SIZE,
                navigation@.len() == ii,
                top_nav_from(s1, 0) == prepend(items_view(navigation@), top_nav_from(state@, ii as int)),
            decreases TOP_NAVIGATION_SIZE - ii,
        {
            let ghost before = state@;
            let ghost nav0 = navigation@;
            let last_link = ii == TOP_NAVIGATION_SIZE - 1;
            if ii != 0 {
                state.skip_next_string("&nbsp;")?;
            }
            let ghost s0 = state@;
            let item = match state.tag_at_cursor() {
                TagType::Link => HtmlItem::Link(state.parse_current_link()?),
                _ => {
                    let endchar = if last_link {
                        '<'
                    } else {
                        '&'
                    };
                    let text_end = match state.find_char(endchar) {
                        Some(k) => k,
                        None => return Err(ParseErr::MalformedDocument),
                    };
                    proof {
                        lemma_find_char(state@, endchar);
                    }
                    let text = state.take_text(text_end);
                    state.skip_next_char(endchar)?;
                    HtmlItem::Text(text)
                },
            };
            assert(top_nav_item(s0, last_link) == Some((item@, state@)));
            navigation.push(item);
            if !last_link {
                state.skip_next_string("nbsp;|")?;
            }
            proof {
                lemma_prepend_assoc(items_view(nav0), seq![item@], top_nav_from(state@, ii + 1));
                assert(items_view(navigation@) =~= items_view(nav0) + seq![item@]);
            }
            ii = ii + 1;
        }
        Ok(navigation)
    }

    /// Parses an anchor of the body. A page link, whose url has the length of
    /// one, comes back as `Ok`; any other anchor as `Err` with its label.
    pub fn parse_middle_link(state: &mut ParseState) -> (r: Result<Result<HtmlLink, String>, ParseErr>)
        requires
            old(state).wf(),
        ensures
            final(state).wf(),
            final(state).same_page(old(state)),
            r is Ok <==> link_spec(old(state)@) is Some,
            r matches Ok(Ok(link)) ==> link_spec(old(state)@) == Some((link@, final(state)@))
                && link.url@.len() == HTML_LINK_SIZE,
            r matches Ok(Err(text)) ==> link_spec(old(state)@) matches Some((l, t)) && t
                == final(state)@ && l.url.len() != HTML_LINK_SIZE && text@ == l.inner_text,
            r matches Err(e) ==> e == ParseErr::MalformedDocument,
    {
        let link = state.parse_current_link()?;
        if link.url.unicode_len() != HTML_LINK_SIZE {
            return Ok(Err(link.inner_text));
        }
        Ok(Ok(link))
    }

    /// Parses the items of one body row; the cursor covers the row alone.
    pub fn parse_middle_row(state: &mut ParseState) -> (r: Result<Vec<HtmlItem>, ParseErr>)
        requires
            old(state).wf(),
        ensures
            final(state).wf(),
            final(state).same_page(old(state)),
            r is Ok <==> row_items(old(state)@) is Some,
            r matches Ok(row) ==> row_items(old(state)@) == Some(items_view(row@)),
            r matches Err(e) ==> e == ParseErr::MalformedDocument,
    {
        let mut row: Vec<HtmlItem> = Vec::new();
        while !state.is_empty()
            invariant
                state.wf(),
                state.same_page(old(state)),
                row_items(old(state)@) == prepend_row(items_view(row@), row_items(state@)),
            decreases state@.len(),
        {
            let ghost before = state@;
            let ghost row0 = row@;
            let item = match state.tag_at_cursor() {
                TagType::Link => {
                    proof {
                        lemma_link_spec(state@);
                    }
                    match Self::parse_middle_link(state)? {
                        Ok(link) => HtmlItem::Link(link),
                        Err(text) => HtmlItem::Text(text),
                    }
                },
                _ => match state.find_char('<') {
                    None => {
                        let len = state.len();
                        let text = state.take_decoded(len);
                        state.advance(len);
                        assert(before.take(len as int) =~= before);
                        HtmlItem::Text(text)
                    },
                    Some(start) => {
                        if start == 0 {
                            return Err(ParseErr::MalformedDocument);
                        }
                        proof {
                            lemma_find_char(state@, '<');
                        }
                        let text = state.take_decoded(start);
                        state.advance(start);
                        HtmlItem::Text(text)
                    },
                },
            };
            assert(row_items(before) == prepend_row(seq![item@], row_items(state@)));
            row.push(item);
            proof {
                assert(items_view(row@) =~= items_view(row0) + seq![item@]);
                if let Some(rest) = row_items(state@) {
                    assert(items_view(row0) + (seq![item@] + rest) =~= items_view(row@) + rest);
                }
            }
        }
        assert(row_items(state@) == Some(Seq::<ItemView>::empty()));
        assert(items_view(row@) + Seq::<ItemView>::empty() =~= items_view(row@));
        Ok(row)
    }

    /// Parses the rows of the `<pre>` body, up to its closing tag.
    pub fn parse_middle(state: &mut ParseState) -> (r: Result<Vec<Vec<HtmlItem>>, ParseErr>)
        requires
            old(state).wf(),
        ensures
            final(state).wf(),
            final(state).same_page(old(state)),
            r is Ok <==> middle_spec(old(state)@) is Some,
            r matches Ok(rows) ==> middle_spec(old(state)@) == Some((rows_view(rows@), final(state)@)),
            r matches Err(e) ==> e == ParseErr::MalformedDocument,
    {
        state.skip_next_tag("pre", false)?;
        let ghost s1 = state@;
        let mut middle_rows: Vec<Vec<HtmlItem>> = Vec::new();
        while !state.starts_with("</pre>")
            invariant
                state.wf(),
                state.same_page(old(state)),
                middle_spec(old(state)@) == middle_rows_from(s1),
                middle_rows_from(s1) == prepend(rows_view(middle_rows@), middle_rows_from(state@)),
            decreases state@.len(),
        {
            let ghost before = state@;
            let ghost rows0 = middle_rows@;
            let line_len = match state.find_char('\r') {
                Some(k) => k,
                None => return Err(ParseErr::MalformedDocument),
            };
            proof {
                lemma_find_char(state@, '\r');
            }
            if state.len() - line_len < 2 {
                return Err(ParseErr::MalformedDocument);
            }
            let mut row: Vec<HtmlItem> = Vec::new();
            if line_len > 0 && !state.starts_with_char('&') {
                let line_start = state.pos;
                let doc_end = state.end;
                state.end = state.pos + line_len;
                assert(state@ =~= before.take(line_len as int));
                let parsed = Self::parse_middle_row(state);
                state.pos = line_start;
                state.end = doc_end;
                assert(state@ =~= before);
                row = parsed?;
            } else {
                assert(items_view(row@) =~= Seq::<ItemView>::empty());
            }
            state.advance(line_len + 2);
            assert(middle_rows_from(before) == prepend(seq![items_view(row@)], middle_rows_from(state@)));
            middle_rows.push(row);
            proof {
                lemma_prepend_assoc(rows_view(rows0), seq![items_view(row@)], middle_rows_from(state@));
                assert(rows_view(middle_rows@) =~= rows_view(rows0) + seq![items_view(row@)]);
            }
        }
        assert(rows_view(middle_rows@) + Seq::<Seq<ItemView>>::empty() =~= rows_view(middle_rows@));
        Ok(middle_rows)
    }

    /// Parses the sub-page selector, from the next `<p>` tag up to `</p>`.
    pub fn parse_sub_pages(state: &mut ParseState) -> (r: Result<Vec<HtmlItem>, ParseErr>)
        requires
            old(state).wf(),
        ensures
            final(state).wf(),
            final(state).same_page(old(state)),
            r is Ok <==> sub_pages_spec(old(state)@) is Some,
            r matches Ok(subs) ==> sub_pages_spec(old(state)@) == Some((items_view(subs@), final(state)@)),
            r matches Err(e) ==> e == ParseErr::MalformedDocument,
    {
        state.skip_next_tag("p", false)?;
        let ghost s1 = state@;
        let mut sub_pages: Vec<HtmlItem> = Vec::new();
        while !state.starts_with("</p>")
            invariant
                state.wf(),
                state.same_page(old(state)),
                sub_pages_spec(old(state)@) == sub_pages_from(s1),
                sub_pages_from(s1) == prepend(items_view(sub_pages@), sub_pages_from(state@)),
            decreases state@.len(),
        {
            let ghost before = state@;
            let ghost subs0 = sub_pages@;
            match state.tag_at_cursor() {
                TagType::Font => {
                    proof {
                        lemma_after_tag(state@, "font"@, true);
                    }
                    state.skip_next_tag("font", true)?;
                },
                TagType::Link => {
                    proof {
                        lemma_link_spec(state@);
                    }
                    let link = state.parse_current_link()?;
                    let item = HtmlItem::Link(link);
                    assert(sub_pages_from(before) == prepend(seq![item@], sub_pages_from(state@)));
                    sub_pages.push(item);
                    proof {
                        lemma_prepend_assoc(items_view(subs0), seq![item@], sub_pages_from(state@));
                        assert(items_view(sub_pages@) =~= items_view(subs0) + seq![item@]);
                    }
                },
                _ => {
                    let link_start = match state.find_char('<') {
                        Some(k) => k,
                        None => return Err(ParseErr::MalformedDocument),
                    };
                    if link_start == 0 {
                        return Err(ParseErr::MalformedDocument);
                    }
                    proof {
                        lemma_find_char(state@, '<');
                    }
                    let item = HtmlItem::Text(state.take_text(link_start));
                    state.advance(link_start);
                    assert(sub_pages_from(before) == prepend(seq![item@], sub_pages_from(state@)));
                    sub_pages.push(item);
                    proof {
                        lemma_prepend_assoc(items_view(subs0), seq![item@], sub_pages_from(state@));
                        assert(items_view(sub_pages@) =~= items_view(subs0) + seq![item@]);
                    }
                },
            }
        }
        assert(items_view(sub_pages@) + Seq::<ItemView>::empty() =~= items_view(sub_pages@));
        Ok(sub_pages)
    }

    /// Parses the six anchors of the bottom navigation after the next `<p>` tag.
    pub fn parse_bottom_navigation(state: &mut ParseState) -> (r: Result<Vec<HtmlLink>, ParseErr>)
        requires
            old(state).wf(),
        ensures
            final(state).wf(),
            final(state).same_page(old(state)),
            r is Ok <==> bottom_nav_spec(old(state)@) is Some,
            r matches Ok(links) ==> bottom_nav_spec(old(state)@) == Some((links_view(links@), final(state)@))
                && links@.len() == BOTTOM_NAVIGATION_SIZE,
            r matches Err(e) ==> e == ParseErr::MalformedDocument,
    {
        state.skip_next_tag("p", false)?;
        let ghost s1 = state@;
        let mut links: Vec<HtmlLink> = Vec::new();
        let mut i: usize = 0;
        while i < BOTTOM_NAVIGATION_SIZE
            invariant
                state.wf(),
                state.same_page(old(state)),
                i <= BOTTOM_NAVIGATION_SIZE,
                links@.len() == i,
                bottom_nav_spec(old(state)@) == links_from(s1, BOTTOM_NAVIGATION_SIZE as nat),
                links_from(s1, BOTTOM_NAVIGATION_SIZE as nat) == prepend(
                    links_view(links@),
                    links_from(state@, (BOTTOM_NAVIGATION_SIZE - i) as nat),
                ),
            decreases BOTTOM_NAVIGATION_SIZE - i,
        {
            let ghost links0 = links@;
            let ghost before = state@;
            let link = state.parse_current_link()?;
            assert(links_from(before, (BOTTOM_NAVIGATION_SIZE - i) as nat) == prepend(
                seq![link@],
                links_from(state@, (BOTTOM_NAVIGATION_SIZE - i - 1) as nat),
            ));
            links.push(link);
            proof {
                lemma_prepend_assoc(
                    links_view(links0),
                    seq![link@],
                    links_from(state@, (BOTTOM_NAVIGATION_SIZE - i - 1) as nat),
                );
                assert(links_view(links@) =~= links_view(links0) + seq![link@]);
            }
            i = i + 1;
        }
        assert(links_view(links@) + Seq::<LinkView>::empty() =~= links_view(links@));
        Ok(links)
    }

    /// An empty page, to be filled by `parse`.
    pub fn new() -> (r: TeleText)
        ensures
            r@.title.len() == 0,
            r@.page_navigation.len() == 0,
            r@.middle_rows.len() == 0,
            r@.sub_pages.len() == 0,
            r@.bottom_navigation.len() == 0,
    {
        TeleText {
            title: String::new(),
            page_navigation: Vec::new(),
            bottom_navigation: Vec::new(),
            sub_pages: Vec::new(),
            middle_rows: Vec::new(),
        }
    }

    /// Parses a text page: the title, the top navigation, the body rows, the
    /// sub-page selector and the bottom navigation, in this order.
    pub fn parse(self, loader: HtmlLoader) -> (r: Result<TeleText, ParseErr>)
        ensures
            r is Ok <==> text_page_spec(loader.page_data@) is Some,
            r matches Ok(page) ==> text_page_spec(loader.page_data@) == Some(page@),
            r matches Ok(page) ==> page.page_navigation@.len() == TOP_NAVIGATION_SIZE
                && page.bottom_navigation@.len() == BOTTOM_NAVIGATION_SIZE,
            r matches Err(e) ==> e == ParseErr::MalformedDocument,
    {
        let mut page = self;
        let mut state = ParseState::new(loader.page_data.as_str());
        page.title = Self::parse_title(&mut state)?;
        page.page_navigation = Self::parse_top_navigation(&mut state)?;
        page.middle_rows = Self::parse_middle(&mut state)?;
        page.sub_pages = Self::parse_sub_pages(&mut state)?;
        page.bottom_navigation = Self::parse_bottom_navigation(&mut state)?;
        Ok(page)
    }
}

impl TelePager for TeleText {
    /// `https://yle.fi/tekstitv/txt/` followed by the file name form.
    open spec fn full_page_spec(page: TelePage) -> Seq<char> {
        "https://yle.fi/tekstitv/txt/"@ + url_path_spec(page)
    }

    open spec fn page_str_spec(page: TelePage) -> Seq<char> {
        url_path_spec(page)
    }

    fn to_full_page(page: &TelePage) -> (r: String) {
        let mut full = String::from_str("https://yle.fi/tekstitv/txt/");
        let path = page.to_url_path_form();
        full.append(path.as_str());
        full
    }

    fn to_page_str(page: &TelePage) -> (r: String) {
        page.to_url_path_form()
    }

    open spec fn from_page_str_spec(page: Seq<char>) -> Option<TelePage> {
        page_from_str_spec(page)
    }

    fn from_page_str(page: &str) -> (r: Option<TelePage>) {
        TelePage::from_url_path_form(page)
    }
}

/// Every anchor of a body row whose url does not have the length of a page link
/// is kept as text: each link item of a row has a url of that length.
pub proof fn lemma_row_links_are_pages(l: Seq<char>)
    ensures
        row_items(l) matches Some(items) ==> forall|i: int|
            0 <= i < items.len() ==> (#[trigger] items[i] matches ItemView::Link(lk) ==> lk.url.len()
                == HTML_LINK_SIZE),
    decreases l.len(),
{
    if l.len() > 0 {
        if opening_tag(l) == TagType::Link {
            lemma_link_spec(l);
            if let Some((link, t)) = link_spec(l) {
                lemma_row_links_are_pages(t);
            }
        } else {
            lemma_find_char(l, '<');
            if let Some(k) = find_char(l, '<') {
                if k != 0 {
                    lemma_row_links_are_pages(l.skip(k));
                }
            }
        }
    }
}

/// Each link item of the body rows has a url of the length of a page link.
pub proof fn lemma_body_links_are_pages(s: Seq<char>)
    ensures
        middle_rows_from(s) matches Some((rows, _)) ==> forall|i: int, j: int|
            0 <= i < rows.len() && 0 <= j < rows[i].len() ==> (#[trigger] rows[i][j] matches ItemView::Link(
                lk,
            ) ==> lk.url.len() == HTML_LINK_SIZE),
    decreases s.len(),
{
    if !starts_with(s, "</pre>"@) {
        lemma_find_char(s, '\r');
        if let Some(k) = find_char(s, '\r') {
            if k + 2 <= s.len() {
                lemma_row_links_are_pages(s.take(k));
                lemma_body_links_are_pages(s.skip(k + 2));
                if let Some((rows, _)) = middle_rows_from(s) {
                    let (rest, _) = middle_rows_from(s.skip(k + 2))->0;
                    assert forall|i: int, j: int|
                        0 <= i < rows.len() && 0 <= j < rows[i].len() implies (#[trigger] rows[i][j] matches ItemView::Link(
                        lk,
                    ) ==> lk.url.len() == HTML_LINK_SIZE) by {
                        if i > 0 {
                            assert(rows[i] == rest[i - 1]);
                        }
                    }
                }
            }
        }
    }
}

/// A body line that is empty or starts with `&` (such as `&nbsp;`) is a row
/// without items, and the body goes on with the next line.
pub proof fn lemma_blank_line_is_empty_row(line: Seq<char>, rest: Seq<char>)
    requires
        !line.contains('\r'),
        line.len() == 0 || line[0] == '&',
    ensures
        middle_rows_from(line + seq!['\r', '\n'] + rest) == prepend(
            seq![Seq::<ItemView>::empty()],
            middle_rows_from(rest),
        ),
{
    let s = line + seq!['\r', '\n'] + rest;
    reveal_strlit("</pre>");
    assert(s[line.len() as int] == '\r');
    lemma_find_char(s, '\r');
    let k = find_char(s, '\r')->0;
    if k < line.len() {
        assert(line[k] == s[k]);
    }
    assert(!starts_with(s, "</pre>"@)) by {
        if starts_with(s, "</pre>"@) {
            assert(s.subrange(0, 6)[0] == '<');
        }
    }
    assert(s.take(k) =~= line);
    assert(s.skip(k + 2) =~= rest);
}

proof fn lemma_absent_from_suffix(s: Seq<char>, t: Seq<char>, p: Seq<char>)
    requires
        is_suffix(t, s),
        find_str(s, p) is None,
    ensures
        find_str(t, p) is None,
{
    lemma_find_str(s, p);
    lemma_find_str(t, p);
    if let Some(m) = find_str(t, p) {
        let d = s.len() - t.len();
        assert(s.subrange(m + d, m + d + p.len()) =~= t.subrange(m, m + p.len()));
        assert(occurs_at(s, p, m + d));
    }
}

/// Without a closing `</pre>` the body rows never end: the parse fails.
pub proof fn lemma_unterminated_body_rows(s: Seq<char>)
    requires
        find_str(s, "</pre>"@) is None,
    ensures
        middle_rows_from(s) is None,
    decreases s.len(),
{
    lemma_find_str(s, "</pre>"@);
    assert(!starts_with(s, "</pre>"@));
    lemma_find_char(s, '\r');
    if let Some(k) = find_char(s, '\r') {
        if k + 2 <= s.len() {
            let t = s.skip(k + 2);
            assert(t =~= s.skip(s.len() - t.len()));
            lemma_absent_from_suffix(s, t, "</pre>"@);
            lemma_unterminated_body_rows(t);
        }
    }
}

/// No line of `s` starts with `</pre>`: neither its start nor any place two
/// characters after a CR.
pub open spec fn no_line_closes_body(s: Seq<char>) -> bool {
    forall|j: int|
        0 <= j < s.len() && (j == 0 || (j >= 2 && s[j - 2] == '\r')) ==> !#[trigger] occurs_at(
            s,
            "</pre>"@,
            j,
        )
}

/// Where no line starts with `</pre>`, the body rows never end: the parse
/// fails after finitely many lines.
pub proof fn lemma_unclosed_body_rows(s: Seq<char>)
    requires
        no_line_closes_body(s),
    ensures
        middle_rows_from(s) is None,
    decreases s.len(),
{
    if s.len() > 0 {
        assert(!occurs_at(s, "</pre>"@, 0));
    } else {
        reveal_strlit("</pre>");
    }
    lemma_find_char(s, '\r');
    if let Some(k) = find_char(s, '\r') {
        if k + 2 <= s.len() {
            let t = s.skip(k + 2);
            assert forall|j: int|
                0 <= j < t.len() && (j == 0 || (j >= 2 && t[j - 2] == '\r')) implies !#[trigger] occurs_at(
                t,
                "</pre>"@,
                j,
            ) by {
                if j >= 2 {
                    assert(t[j - 2] == s[j + k]);
                }
                assert(s[j + k] == '\r');
                assert(!occurs_at(s, "</pre>"@, j + k + 2));
                if occurs_at(t, "</pre>"@, j) {
                    assert(s.subrange(j + k + 2, j + k + 2 + "</pre>"@.len()) =~= t.subrange(
                        j,
                        j + "</pre>"@.len(),
                    ));
                }
            }
            lemma_unclosed_body_rows(t);
        }
    }
}

/// A body in which no line starts with `</pre>` is malformed.
pub proof fn lemma_unclosed_body(s: Seq<char>)
    requires
        after_tag(s, "pre"@, false) matches Some(b) && no_line_closes_body(b),
    ensures
        middle_spec(s) is None,
{
    lemma_unclosed_body_rows(after_tag(s, "pre"@, false)->0);
}

/// An anchor of the body is a link item exactly when its url has the length
/// of a page link; any other anchor is text that holds its label.
pub proof fn lemma_middle_item(l: LinkView)
    ensures
        (middle_item(l) is Link) <==> l.url.len() == HTML_LINK_SIZE,
        l.url.len() == HTML_LINK_SIZE ==> middle_item(l) == ItemView::Link(l),
        l.url.len() != HTML_LINK_SIZE ==> middle_item(l) == ItemView::Text(l.inner_text),
{
}

proof fn lemma_top_nav_suffix(s: Seq<char>, i: int)
    ensures
        top_nav_from(s, i) matches Some((_, t)) ==> is_suffix(t, s),
    decreases 4 - i,
{
    assert(s =~= s.skip(0));
    if 0 <= i < 4 {
        let last = i == 3;
        crate::cursor::lemma_after_str(s, "&nbsp;"@);
        let s0 = if i != 0 {
            after_str(s, "&nbsp;"@)
        } else {
            Some(s)
        };
        if let Some(s0) = s0 {
            lemma_link_spec(s0);
            lemma_after_char(s0, if last {
                '<'
            } else {
                '&'
            });
            if let Some((item, s1)) = top_nav_item(s0, last) {
                lemma_find_char(s0, if last {
                    '<'
                } else {
                    '&'
                });
                assert(is_suffix(s1, s0)) by {
                    if opening_tag(s0) != TagType::Link {
                        let k = find_char(
                            s0,
                            if last {
                                '<'
                            } else {
                                '&'
                            },
                        )->0;
                        assert(s0.skip(k + 1) =~= s0.skip(s0.len() - s0.skip(k + 1).len()));
                    }
                }
                crate::cursor::lemma_after_str(s1, "nbsp;|"@);
                let s2 = if !last {
                    after_str(s1, "nbsp;|"@)
                } else {
                    Some(s1)
                };
                if let Some(s2) = s2 {
                    assert(s1 =~= s1.skip(0));
                    lemma_top_nav_suffix(s2, i + 1);
                    if let Some((_, t)) = top_nav_from(s2, i + 1) {
                        lemma_suffix_trans(s1, s0, s);
                        lemma_suffix_trans(s2, s1, s);
                        lemma_suffix_trans(t, s2, s);
                    }
                }
            }
        }
    }
}

/// A page without a closing `</pre>` is malformed.
pub proof fn lemma_unterminated_body(s: Seq<char>)
    requires
        find_str(s, "</pre>"@) is None,
    ensures
        text_page_spec(s) is None,
{
    if let Some((_, s1)) = title_spec(s) {
        crate::cursor::lemma_after_tag(s, "big"@, false);
        if let Some((_, s2)) = top_nav_spec(s1) {
            lemma_after_tag(s1, "SPAN"@, false);
            let s15 = after_tag(s1, "SPAN"@, false)->0;
            lemma_top_nav_suffix(s15, 0);
            lemma_suffix_trans(s15, s1, s);
            lemma_suffix_trans(s2, s15, s);
            lemma_after_tag(s2, "pre"@, false);
            if let Some(s3) = after_tag(s2, "pre"@, false) {
                lemma_suffix_trans(s3, s2, s);
                lemma_absent_from_suffix(s, s3, "</pre>"@);
                lemma_unterminated_body_rows(s3);
            }
        }
    }
}

} // verus!
