//! The image page dialect: a JSON envelope whose first data record holds the
//! page label, a base64 PNG inside image markup, and pagination markup.
use vstd::prelude::*;
use base64::Engine;
use crate::cursor::{
    after_tag, lemma_after_char, lemma_after_tag, tag_type, HtmlLink, LinkView, ParseErr,
    ParseState, TagType,
};
use crate::page::{api_query_spec, query_from_str_spec, TelePage, TelePager};
use crate::text::{
    push_char, after_char, after_str, at_char, find_char, html_decoded, lemma_find_char, trim_text, trimmed,
};

verus! {

#[verifier::external_type_specification]
#[verifier::external_body]
pub struct ExDecodeError(base64::DecodeError);

/// The bytes that the base64 text `s` stands for under the standard alphabet
/// with padding, or `None` where it is not such text.
pub uninterp spec fn base64_decoded(s: Seq<char>) -> Option<Seq<u8>>;

/// Relies on `base64::engine::general_purpose::STANDARD.decode`, which returns
/// the decoded bytes, or an error where the input is not valid base64.
#[verifier::external_body]
fn decode_base64(s: &str) -> (r: Result<Vec<u8>, base64::DecodeError>)
    ensures
        r is Ok <==> base64_decoded(s@) is Some,
        r matches Ok(b) ==> base64_decoded(s@) == Some(b@),
{
    base64::engine::general_purpose::STANDARD.decode(s)
}

pub struct IJMeta {
    pub code: String,
}

pub struct IJDataPage {
    pub page: String,
    pub subpage: String,
}

pub struct IJDataInfoPage {
    /// e.g. "898"
    pub number: String,
    /// e.g. "898_0003"
    pub name: String,
    /// e.g. "898/3"
    pub label: String,
    /// e.g. "?P=898#3"
    pub href: String,
}

pub struct IJDataInfo {
    pub page: IJDataInfoPage,
    pub aspect_ratio: String,
}

pub struct IJDataContent {
    /// The text of the page as plain characters.
    pub text: String,
    /// The image as base64 data inside an `<img>` tag.
    pub image: String,
    pub image_map: String,
    pub pagination: String,
}

pub struct IJData {
    pub page: IJDataPage,
    pub info: IJDataInfo,
    pub content: IJDataContent,
}

/// The JSON envelope of an image page. Only the first data record is read.
pub struct ImageJson {
    pub meta: IJMeta,
    pub data: Vec<IJData>,
}

/// `p` put in front of the items of a partial parse.
pub open spec fn prepend_some<A>(p: Seq<A>, o: Option<Seq<A>>) -> Option<Seq<A>> {
    match o {
        Some(r) => Some(p + r),
        None => None,
    }
}

/// The base64 run after the PNG data marker, up to the closing quote.
pub open spec fn image_data(s: Seq<char>) -> Option<Seq<char>> {
    match after_str(s, "data:image/png;base64,"@) {
        None => None,
        Some(s1) => match find_char(s1, '"') {
            None => None,
            Some(k) => Some(s1.take(k)),
        },
    }
}

/// The image that the image markup `s` holds, or why it holds none.
pub open spec fn image_spec(s: Seq<char>) -> Result<Seq<u8>, ParseErr> {
    match image_data(s) {
        None => Err(ParseErr::MalformedDocument),
        Some(d) => match base64_decoded(d) {
            None => Err(ParseErr::InvalidImageData),
            Some(bytes) => Ok(bytes),
        },
    }
}

/// A pagination anchor: the url is its page-name attribute, the label joins the
/// text of its inner `<span>` and the decoded text beside it, each trimmed, in
/// the order in which they stand.
pub open spec fn nav_link_spec(s: Seq<char>) -> Option<(LinkView, Seq<char>)> {
    match after_str(s, "data-yle-ttv-page-name=\""@) {
        None => None,
        Some(s1) => match find_char(s1, '"') {
            None => None,
            Some(u) => match after_char(s1, '>') {
                None => None,
                Some(s2) => {
                    let label_rest: Option<(Seq<char>, Seq<char>)> = if s2.len() > 0 && s2[0] == '<' {
                        match after_char(s2, '>') {
                            None => None,
                            Some(s3) => match find_char(s3, '<') {
                                None => None,
                                Some(e) => match after_char(s3, '>') {
                                    None => None,
                                    Some(s4) => match find_char(s4, '<') {
                                        None => None,
                                        Some(k) => Some(
                                            (
                                                trimmed(s3.take(e)) + seq![' '] + trimmed(
                                                    html_decoded(s4.take(k)),
                                                ),
                                                s4,
                                            ),
                                        ),
                                    },
                                },
                            },
                        }
                    } else {
                        match find_char(s2, '<') {
                            None => None,
                            Some(k) => match after_char(s2, '>') {
                                None => None,
                                Some(s3) => match find_char(s3, '<') {
                                    None => None,
                                    Some(e) => Some(
                                        (
                                            trimmed(html_decoded(s2.take(k))) + seq![' '] + trimmed(
                                                s3.take(e),
                                            ),
                                            s3,
                                        ),
                                    ),
                                },
                            },
                        }
                    };
                    match label_rest {
                        None => None,
                        Some((label, rest)) => match after_tag(rest, "a"@, true) {
                            None => None,
                            Some(t) => Some((LinkView { url: s1.take(u), inner_text: label }, t)),
                        },
                    }
                },
            },
        },
    }
}

pub proof fn lemma_nav_link_shorter(s: Seq<char>)
    ensures
        nav_link_spec(s) matches Some((_, t)) ==> t.len() < s.len(),
{
    crate::cursor::lemma_after_str(s, "data-yle-ttv-page-name=\""@);
    if let Some(s1) = after_str(s, "data-yle-ttv-page-name=\""@) {
        lemma_after_char(s1, '>');
        if let Some(s2) = after_char(s1, '>') {
            lemma_after_char(s2, '>');
            if let Some(s3) = after_char(s2, '>') {
                lemma_after_char(s3, '>');
                if let Some(s4) = after_char(s3, '>') {
                    lemma_after_tag(s4, "a"@, true);
                }
                lemma_after_tag(s3, "a"@, true);
            }
        }
    }
}

/// One tag of the pagination markup, after its `<`: a bare `<span>` is a
/// disabled slot, a `<div>` holds the page number form and gives no slot, an
/// anchor is a slot with its link; any other tag is malformed.
pub open spec fn nav_step(s: Seq<char>) -> Option<(Seq<Option<LinkView>>, Seq<char>)> {
    if tag_type(s) == TagType::Span {
        match after_tag(s, "span"@, true) {
            None => None,
            Some(t) => Some((seq![None], t)),
        }
    } else if tag_type(s) == TagType::Div {
        match after_tag(s, "form"@, true) {
            None => None,
            Some(t0) => match after_tag(t0, "div"@, true) {
                None => None,
                Some(t) => Some((seq![], t)),
            },
        }
    } else if tag_type(s) == TagType::Link {
        match nav_link_spec(s) {
            None => None,
            Some((l, t)) => Some((seq![Some(l)], t)),
        }
    } else {
        None
    }
}

/// `t` from its next tag on, or nothing where no tag is left.
pub open spec fn next_tag_or_end(t: Seq<char>) -> Seq<char> {
    match at_char(t, '<') {
        Some(u) => u,
        None => Seq::empty(),
    }
}

pub proof fn lemma_nav_step_shorter(s: Seq<char>)
    ensures
        nav_step(s) matches Some((_, t)) ==> next_tag_or_end(t).len() < s.len() + 1,
{
    lemma_after_tag(s, "span"@, true);
    lemma_after_tag(s, "form"@, true);
    if let Some(t0) = after_tag(s, "form"@, true) {
        lemma_after_tag(t0, "div"@, true);
    }
    lemma_nav_link_shorter(s);
    if let Some((_, t)) = nav_step(s) {
        lemma_after_char(t, '<');
    }
}

/// The slots of the pagination markup `s`, tag by tag.
pub open spec fn pagination_from(s: Seq<char>) -> Option<Seq<Option<LinkView>>>
    decreases s.len(),
{
    if s.len() == 0 {
        Some(seq![])
    } else {
        match after_char(s, '<') {
            None => None,
            Some(s1) => match nav_step(s1) {
                None => None,
                Some((items, t)) => {
                    proof {
                        lemma_after_char(s, '<');
                        lemma_nav_step_shorter(s1);
                    }
                    prepend_some(items, pagination_from(next_tag_or_end(t)))
                },
            },
        }
    }
}

pub open spec fn opt_links_view(v: Seq<Option<HtmlLink>>) -> Seq<Option<LinkView>> {
    v.map_values(
        |o: Option<HtmlLink>|
            match o {
                Some(l) => Some(l@),
                None => None,
            },
    )
}

/// An image page as plain values.
pub struct ImagePageView {
    pub title: Seq<char>,
    pub image: Seq<u8>,
    pub bottom_navigation: Seq<Option<LinkView>>,
}

/// The image page of a record with the given label, image markup and
/// pagination markup, or the error that parsing it meets first.
pub open spec fn image_page_spec(label: Seq<char>, image: Seq<char>, pagination: Seq<char>) -> Result<
    ImagePageView,
    ParseErr,
> {
    match image_spec(image) {
        Err(e) => Err(e),
        Ok(bytes) => match pagination_from(pagination) {
            None => Err(ParseErr::MalformedDocument),
            Some(nav) => Ok(ImagePageView { title: label, image: bytes, bottom_navigation: nav }),
        },
    }
}

/// The fields of an image page.
#[derive(Debug)]
pub struct YleImage {
    pub title: String,
    pub image: Vec<u8>,
    pub botton_navigation: Vec<Option<HtmlLink>>,
}

impl View for YleImage {
    type V = ImagePageView;

    open spec fn view(&self) -> ImagePageView {
        ImagePageView {
            title: self.title@,
            image: self.image@,
            bottom_navigation: opt_links_view(self.botton_navigation@),
        }
    }
}

/// The two texts, each trimmed, with one space between them.
fn join_trimmed(first: &String, second: &String) -> (r: String)
    ensures
        r@ == trimmed(first@) + seq![' '] + trimmed(second@),
{
    let mut joined = String::new();
    joined.append(trim_text(first.as_str()));
    push_char(&mut joined, ' ');
    joined.append(trim_text(second.as_str()));
    joined
}

impl YleImage {
    /// An empty page, to be filled by `parse_envelope`.
    pub fn new() -> (r: YleImage)
        ensures
            r@.title.len() == 0,
            r@.image.len() == 0,
            r@.bottom_navigation.len() == 0,
    {
        YleImage { title: String::new(), image: Vec::new(), botton_navigation: Vec::new() }
    }

    /// Decodes the PNG image whose base64 data follows the data marker of the
    /// image markup.
    pub fn parse_image(state: &mut ParseState) -> (r: Result<Vec<u8>, ParseErr>)
        requires
            old(state).wf(),
        ensures
            match image_spec(old(state)@) {
                Ok(b) => r matches Ok(image) && image@ == b,
                Err(e) => r == Err::<Vec<u8>, ParseErr>(e),
            },
    {
        state.skip_next_string("data:image/png;base64,")?;
        let image_end = match state.find_char('"') {
            Some(k) => k,
            None => return Err(ParseErr::MalformedDocument),
        };
        proof {
            lemma_find_char(state@, '"');
        }
        let data = state.take_text(image_end);
        match decode_base64(data.as_str()) {
            Ok(image) => Ok(image),
            Err(_) => Err(ParseErr::InvalidImageData),
        }
    }

    /// Parses a pagination anchor, its url from the page-name attribute and its
    /// label from the texts inside and beside its `<span>`.
    pub fn parse_bottom_nav_link(state: &mut ParseState) -> (r: Result<HtmlLink, ParseErr>)
        requires
            old(state).wf(),
        ensures
            final(state).wf(),
            final(state).same_page(old(state)),
            r is Ok <==> nav_link_spec(old(state)@) is Some,
            r matches Ok(link) ==> nav_link_spec(old(state)@) == Some((link@, final(state)@)),
            r matches Err(e) ==> e == ParseErr::MalformedDocument,
    {
        state.skip_next_string("data-yle-ttv-page-name=\"")?;
        let url_end = match state.find_char('"') {
            Some(k) => k,
            None => return Err(ParseErr::MalformedDocument),
        };
        proof {
            lemma_find_char(state@, '"');
        }
        let url = state.take_text(url_end);
        state.skip_next_char('>')?;
        let inner_text = if state.starts_with_char('<') {
            state.skip_next_char('>')?;
            let span_end = match state.find_char('<') {
                Some(k) => k,
                None => return Err(ParseErr::MalformedDocument),
            };
            proof {
                lemma_find_char(state@, '<');
            }
            let span_inner = state.take_text(span_end);
            state.skip_next_char('>')?;
            let link_start = match state.find_char('<') {
                Some(k) => k,
                None => return Err(ParseErr::MalformedDocument),
            };
            proof {
                lemma_find_char(state@, '<');
            }
            let span_out = state.take_decoded(link_start);
            join_trimmed(&span_inner, &span_out)
        } else {
            let span_start = match state.find_char('<') {
                Some(k) => k,
                None => return Err(ParseErr::MalformedDocument),
            };
            proof {
                lemma_find_char(state@, '<');
            }
            let span_out = state.take_decoded(span_start);
            state.skip_next_char('>')?;
            let span_end = match state.find_char('<') {
                Some(k) => k,
                None => return Err(ParseErr::MalformedDocument),
            };
            proof {
                lemma_find_char(state@, '<');
            }
            let span_inner = state.take_text(span_end);
            join_trimmed(&span_out, &span_inner)
        };
        state.skip_next_tag("a", true)?;
        Ok(HtmlLink { url, inner_text })
    }

    /// Parses the pagination markup tag by tag into its slots.
    pub fn parse_bottom_navigation(state: &mut ParseState) -> (r: Result<Vec<Option<HtmlLink>>, ParseErr>)
        requires
            old(state).wf(),
        ensures
            final(state).wf(),
            r is Ok <==> pagination_from(old(state)@) is Some,
            r matches Ok(nav) ==> pagination_from(old(state)@) == Some(opt_links_view(nav@)),
            r matches Err(e) ==> e == ParseErr::MalformedDocument,
    {
        let mut nav_links: Vec<Option<HtmlLink>> = Vec::new();
        while !state.is_empty()
            invariant
                state.wf(),
                pagination_from(old(state)@) == prepend_some(
                    opt_links_view(nav_links@),
                    pagination_from(state@),
                ),
            decreases state@.len(),
        {
            let ghost before = state@;
            let ghost nav0 = nav_links@;
            proof {
                lemma_after_char(state@, '<');
            }
            state.skip_next_char('<')?;
            let ghost s1 = state@;
            proof {
                lemma_nav_step_shorter(s1);
            }
            let ghost items: Seq<Option<LinkView>>;
            match state.get_tag_type() {
                TagType::Span => {
                    state.skip_next_tag("span", true)?;
                    nav_links.push(None);
                    proof {
                        items = seq![None];
                    }
                },
                TagType::Div => {
                    state.skip_next_tag("form", true)?;
                    state.skip_next_tag("div", true)?;
                    proof {
                        items = seq![];
                    }
                },
                TagType::Link => {
                    let link = Self::parse_bottom_nav_link(state)?;
                    proof {
                        items = seq![Some(link@)];
                    }
                    nav_links.push(Some(link));
                },
                _ => return Err(ParseErr::MalformedDocument),
            }
            assert(nav_step(s1) == Some((items, state@)));
            assert(opt_links_view(nav_links@) =~= opt_links_view(nav0) + items);
            let ghost t = state@;
            match state.find_char('<') {
                Some(k) => {
                    proof {
                        lemma_find_char(state@, '<');
                    }
                    state.advance(k);
                },
                None => {
                    let n = state.len();
                    state.advance(n);
                    assert(state@ =~= Seq::<char>::empty());
                },
            }
            assert(state@ == next_tag_or_end(t));
            proof {
                if let Some(rest) = pagination_from(state@) {
                    assert(opt_links_view(nav0) + (items + rest) =~= opt_links_view(nav_links@) + rest);
                }
            }
        }
        assert(opt_links_view(nav_links@) + Seq::<Option<LinkView>>::empty() =~= opt_links_view(nav_links@));
        Ok(nav_links)
    }

    /// Builds the page from the first data record of its envelope: the label
    /// is the title, then the image and the pagination are parsed.
    pub fn parse_envelope(self, json: ImageJson) -> (r: Result<YleImage, ParseErr>)
        ensures
            json.data@.len() == 0 ==> r == Err::<YleImage, ParseErr>(ParseErr::InvalidEnvelope),
            json.data@.len() > 0 ==> match image_page_spec(
                json.data@[0].info.page.label@,
                json.data@[0].content.image@,
                json.data@[0].content.pagination@,
            ) {
                Ok(v) => r matches Ok(page) && page@ == v,
                Err(e) => r == Err::<YleImage, ParseErr>(e),
            },
    {
        let mut page = self;
        if json.data.len() == 0 {
            return Err(ParseErr::InvalidEnvelope);
        }
        let record = &json.data[0];
        page.title = record.info.page.label.clone();
        let mut state = ParseState::new(record.content.image.as_str());
        page.image = Self::parse_image(&mut state)?;
        let mut state = ParseState::new(record.content.pagination.as_str());
        page.botton_navigation = Self::parse_bottom_navigation(&mut state)?;
        Ok(page)
    }
}

impl TelePager for YleImage {
    /// `https://yle.fi/aihe/yle-ttv/json?P=` followed by the query form.
    open spec fn full_page_spec(page: TelePage) -> Seq<char> {
        "https://yle.fi/aihe/yle-ttv/json?P="@ + api_query_spec(page)
    }

    open spec fn page_str_spec(page: TelePage) -> Seq<char> {
        api_query_spec(page)
    }

    fn to_full_page(page: &TelePage) -> (r: String) {
        let mut full = String::from_str("https://yle.fi/aihe/yle-ttv/json?P=");
        let query = page.to_api_query_form();
        full.append(query.as_str());
        full
    }

    fn to_page_str(page: &TelePage) -> (r: String) {
        page.to_api_query_form()
    }

    open spec fn from_page_str_spec(page: Seq<char>) -> Option<TelePage> {
        query_from_str_spec(page)
    }

    fn from_page_str(page: &str) -> (r: Option<TelePage>) {
        TelePage::from_api_query_form(page)
    }
}

} // verus!
