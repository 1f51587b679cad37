//! The scanning cursor over a page's characters, and the primitives that the
//! page parsers are built from.
use vstd::prelude::*;
use crate::text::{
    after_char, after_str, at_char, chars_of, decode_string, find_char, find_char_from,
    find_str, find_str_from, html_decoded, lemma_find_char, lemma_find_str, occurs_at,
    push_char, starts_with,
};

verus! {

/// Why a page could not be parsed.
#[derive(Debug, Clone, Copy, PartialEq, Eq, Structural)]
pub enum ParseErr {
    /// A literal, tag or delimiter that the page dialect requires is missing.
    MalformedDocument,
    /// The JSON envelope of an image page lacks a field or has the wrong shape.
    InvalidEnvelope,
    /// The embedded image is not valid base64.
    InvalidImageData,
}

/// The kinds of tag that the parsers tell apart, by the prefix of the tag name.
#[derive(Debug, Clone, Copy, PartialEq, Eq, Structural)]
pub enum TagType {
    Unknown,
    P,
    Big,
    Div,
    Pre,
    Link,
    Font,
    Span,
    Center,
}

#[derive(Debug)]
pub struct HtmlLink {
    pub url: String,
    pub inner_text: String,
}

#[derive(Debug)]
pub enum HtmlItem {
    Text(String),
    Link(HtmlLink),
}

/// A link as plain character sequences.
pub struct LinkView {
    pub url: Seq<char>,
    pub inner_text: Seq<char>,
}

/// A navigation item as plain character sequences.
pub enum ItemView {
    Text(Seq<char>),
    Link(LinkView),
}

impl View for HtmlLink {
    type V = LinkView;

    open spec fn view(&self) -> LinkView {
        LinkView { url: self.url@, inner_text: self.inner_text@ }
    }
}

impl View for HtmlItem {
    type V = ItemView;

    open spec fn view(&self) -> ItemView {
        match self {
            HtmlItem::Text(t) => ItemView::Text(t@),
            HtmlItem::Link(l) => ItemView::Link(l@),
        }
    }
}

pub open spec fn items_view(v: Seq<HtmlItem>) -> Seq<ItemView> {
    v.map_values(|i: HtmlItem| i@)
}

pub open spec fn links_view(v: Seq<HtmlLink>) -> Seq<LinkView> {
    v.map_values(|l: HtmlLink| l@)
}

/// The raw text of a page, as the transport delivered it.
#[derive(Debug)]
pub struct HtmlLoader {
    pub page_data: String,
}

/// The text that opens the tag `name`, or closes it.
pub open spec fn tag_pattern(name: Seq<char>, closing: bool) -> Seq<char> {
    if closing {
        seq!['<', '/'] + name
    } else {
        seq!['<'] + name
    }
}

/// What follows the first tag `name` (opening or closing) in `s`, past its `>`.
pub open spec fn after_tag(s: Seq<char>, name: Seq<char>, closing: bool) -> Option<Seq<char>> {
    match after_str(s, tag_pattern(name, closing)) {
        Some(t) => after_char(t, '>'),
        None => None,
    }
}

/// The kind of the tag at the start of `s`, whose leading `<` may be missing.
pub open spec fn tag_type(s: Seq<char>) -> TagType {
    let h = if s.len() > 0 && s[0] == '<' {
        s.skip(1)
    } else {
        s
    };
    if starts_with(h, "pre"@) {
        TagType::Pre
    } else if starts_with(h, "p"@) {
        TagType::P
    } else if starts_with(h, "a"@) {
        TagType::Link
    } else if starts_with(h, "big"@) {
        TagType::Big
    } else if starts_with(h, "div"@) {
        TagType::Div
    } else if starts_with(h, "font"@) {
        TagType::Font
    } else if starts_with(h, "span"@) {
        TagType::Span
    } else if starts_with(h, "center"@) {
        TagType::Center
    } else {
        TagType::Unknown
    }
}

/// The kind of the tag that `s` starts with, `<` included; text that does
/// not start with `<` is no tag.
pub open spec fn opening_tag(s: Seq<char>) -> TagType {
    if s.len() > 0 && s[0] == '<' {
        tag_type(s)
    } else {
        TagType::Unknown
    }
}

/// The anchor that `s` starts with, and what follows its closing tag: the url is
/// the `href` value, the label the decoded text up to the next tag.
pub open spec fn link_spec(s: Seq<char>) -> Option<(LinkView, Seq<char>)> {
    match after_str(s, "href=\""@) {
        None => None,
        Some(s1) => match find_char(s1, '"') {
            None => None,
            Some(u) => match after_str(s1, ">"@) {
                None => None,
                Some(s2) => match find_char(s2, '<') {
                    None => None,
                    Some(k) => match after_tag(s2, "a"@, true) {
                        None => None,
                        Some(s3) => Some(
                            (LinkView { url: s1.take(u), inner_text: html_decoded(s2.take(k)) }, s3),
                        ),
                    },
                },
            },
        },
    }
}

/// Each step of the scanner leaves a suffix of what it started from.
pub open spec fn is_suffix(t: Seq<char>, s: Seq<char>) -> bool {
    t.len() <= s.len() && t == s.skip(s.len() - t.len())
}

pub proof fn lemma_suffix_trans(a: Seq<char>, b: Seq<char>, c: Seq<char>)
    requires
        is_suffix(a, b),
        is_suffix(b, c),
    ensures
        is_suffix(a, c),
{
    assert(a =~= c.skip(c.len() - a.len()));
}

pub proof fn lemma_after_char(s: Seq<char>, c: char)
    ensures
        after_char(s, c) matches Some(t) ==> is_suffix(t, s) && t.len() < s.len(),
        at_char(s, c) matches Some(t) ==> is_suffix(t, s) && t.len() > 0 && t[0] == c,
{
    lemma_find_char(s, c);
    if let Some(i) = find_char(s, c) {
        assert(s.skip(i + 1) =~= s.skip(s.len() - s.skip(i + 1).len()));
        assert(s.skip(i) =~= s.skip(s.len() - s.skip(i).len()));
    }
}

pub proof fn lemma_after_str(s: Seq<char>, p: Seq<char>)
    ensures
        after_str(s, p) matches Some(t) ==> is_suffix(t, s) && t.len() + p.len() <= s.len(),
{
    lemma_find_str(s, p);
    if let Some(i) = find_str(s, p) {
        assert(s.skip(i + p.len()) =~= s.skip(s.len() - s.skip(i + p.len()).len()));
    }
}

pub proof fn lemma_after_tag(s: Seq<char>, name: Seq<char>, closing: bool)
    ensures
        after_tag(s, name, closing) matches Some(t) ==> is_suffix(t, s) && t.len() < s.len(),
{
    lemma_after_str(s, tag_pattern(name, closing));
    if let Some(t) = after_str(s, tag_pattern(name, closing)) {
        lemma_after_char(t, '>');
        if let Some(u) = after_char(t, '>') {
            lemma_suffix_trans(u, t, s);
        }
    }
}

pub proof fn lemma_link_spec(s: Seq<char>)
    ensures
        link_spec(s) matches Some((_, t)) ==> is_suffix(t, s) && t.len() < s.len(),
{
    lemma_after_str(s, "href=\""@);
    if let Some(s1) = after_str(s, "href=\""@) {
        lemma_after_str(s1, ">"@);
        if let Some(s2) = after_str(s1, ">"@) {
            lemma_after_tag(s2, "a"@, true);
            if let Some(s3) = after_tag(s2, "a"@, true) {
                lemma_suffix_trans(s2, s1, s);
                lemma_suffix_trans(s3, s2, s);
            }
        }
    }
}

/// A cursor over the characters `text[pos..end]` of a page.
pub struct ParseState {
    pub text: Vec<char>,
    pub pos: usize,
    pub end: usize,
}

impl View for ParseState {
    type V = Seq<char>;

    /// What is left to scan.
    open spec fn view(&self) -> Seq<char> {
        self.text@.subrange(self.pos as int, self.end as int)
    }
}

impl ParseState {
    pub open spec fn wf(&self) -> bool {
        self.pos <= self.end <= self.text@.len()
    }

    /// `self` scans the same page as `other`, up to the same end.
    pub open spec fn same_page(&self, other: &ParseState) -> bool {
        self.text@ == other.text@ && self.end == other.end
    }

    pub fn new(current: &str) -> (r: ParseState)
        ensures
            r.wf(),
            r@ == current@,
            r.text@ == current@,
            r.pos == 0,
            r.end == r.text@.len(),
    {
        let text = chars_of(current);
        let end = text.len();
        let r = ParseState { text, pos: 0, end };
        assert(r@ =~= current@);
        r
    }

    pub fn is_empty(&self) -> (r: bool)
        requires
            self.wf(),
        ensures
            r == (self@.len() == 0),
    {
        self.pos == self.end
    }

    pub fn len(&self) -> (r: usize)
        requires
            self.wf(),
        ensures
            r == self@.len(),
    {
        self.end - self.pos
    }

    /// Offset of the first `c` in what is left.
    pub fn find_char(&self, c: char) -> (r: Option<usize>)
        requires
            self.wf(),
        ensures
            r matches Some(k) ==> find_char(self@, c) == Some(k as int),
            r is None ==> find_char(self@, c) is None,
    {
        let mut i = self.pos;
        while i < self.end
            invariant
                self.wf(),
                self.pos <= i <= self.end,
                find_char(self@, c) == find_char_from(self@, c, i - self.pos),
            decreases self.end - i,
        {
            if self.text[i] == c {
                return Some(i - self.pos);
            }
            i = i + 1;
        }
        None
    }

    /// Whether `pat` stands at offset `k` of what is left.
    fn occurs_here(&self, k: usize, pat: &Vec<char>) -> (r: bool)
        requires
            self.wf(),
        ensures
            r == occurs_at(self@, pat@, k as int),
    {
        let len = self.end - self.pos;
        if k > len || pat.len() > len - k {
            return false;
        }
        let mut j: usize = 0;
        while j < pat.len()
            invariant
                self.wf(),
                len == self@.len(),
                k + pat@.len() <= len,
                j <= pat@.len(),
                forall|jj: int| 0 <= jj < j ==> self@[k + jj] == pat@[jj],
            decreases pat.len() - j,
        {
            if self.text[self.pos + k + j] != pat[j] {
                assert(self@.subrange(k as int, k + pat@.len())[j as int] != pat@[j as int]);
                return false;
            }
            j = j + 1;
        }
        assert(self@.subrange(k as int, k + pat@.len()) =~= pat@);
        true
    }

    /// Offset of the first occurrence of `pat` in what is left.
    fn find_pattern(&self, pat: &Vec<char>) -> (r: Option<usize>)
        requires
            self.wf(),
        ensures
            r matches Some(k) ==> find_str(self@, pat@) == Some(k as int),
            r is None ==> find_str(self@, pat@) is None,
    {
        let len = self.end - self.pos;
        if pat.len() > len {
            return None;
        }
        let mut k: usize = 0;
        loop
            invariant
                self.wf(),
                len == self@.len(),
                pat@.len() <= len,
                k <= len - pat@.len(),
                find_str(self@, pat@) == find_str_from(self@, pat@, k as int),
            decreases len - pat.len() - k,
        {
            if self.occurs_here(k, pat) {
                return Some(k);
            }
            if k == len - pat.len() {
                assert(find_str_from(self@, pat@, k + 1) is None);
                return None;
            }
            k = k + 1;
        }
    }

    /// Offset of the first occurrence of `p` in what is left.
    pub fn find_str(&self, p: &str) -> (r: Option<usize>)
        requires
            self.wf(),
        ensures
            r matches Some(k) ==> find_str(self@, p@) == Some(k as int),
            r is None ==> find_str(self@, p@) is None,
    {
        let pat = chars_of(p);
        self.find_pattern(&pat)
    }

    pub fn starts_with(&self, p: &str) -> (r: bool)
        requires
            self.wf(),
        ensures
            r == starts_with(self@, p@),
    {
        let pat = chars_of(p);
        self.occurs_here(0, &pat)
    }

    pub fn starts_with_char(&self, c: char) -> (r: bool)
        requires
            self.wf(),
        ensures
            r == (self@.len() > 0 && self@[0] == c),
    {
        self.pos < self.end && self.text[self.pos] == c
    }

    /// Moves the cursor `n` characters on.
    pub fn advance(&mut self, n: usize)
        requires
            old(self).wf(),
            n <= old(self)@.len(),
        ensures
            final(self).wf(),
            final(self).same_page(old(self)),
            final(self)@ == old(self)@.skip(n as int),
    {
        self.pos = self.pos + n;
        assert(self@ =~= old(self)@.skip(n as int));
    }

    /// Skips past the first `chr`.
    pub fn skip_next_char(&mut self, chr: char) -> (r: Result<(), ParseErr>)
        requires
            old(self).wf(),
        ensures
            final(self).wf(),
            final(self).same_page(old(self)),
            r is Ok <==> after_char(old(self)@, chr) is Some,
            r is Ok ==> after_char(old(self)@, chr) == Some(final(self)@),
            r matches Err(e) ==> e == ParseErr::MalformedDocument,
            r is Err ==> final(self).pos == old(self).pos && final(self)@ == old(self)@,
    {
        match self.find_char(chr) {
            Some(k) => {
                proof {
                    lemma_find_char(self@, chr);
                }
                self.advance(k + 1);
                Ok(())
            },
            None => Err(ParseErr::MalformedDocument),
        }
    }

    /// Moves the cursor to the first `chr`.
    pub fn skip_to_next_char(&mut self, chr: char) -> (r: Result<(), ParseErr>)
        requires
            old(self).wf(),
        ensures
            final(self).wf(),
            final(self).same_page(old(self)),
            r is Ok <==> at_char(old(self)@, chr) is Some,
            r is Ok ==> at_char(old(self)@, chr) == Some(final(self)@),
            r matches Err(e) ==> e == ParseErr::MalformedDocument,
            r is Err ==> final(self).pos == old(self).pos && final(self)@ == old(self)@,
    {
        match self.find_char(chr) {
            Some(k) => {
                proof {
                    lemma_find_char(self@, chr);
                }
                self.advance(k);
                Ok(())
            },
            None => Err(ParseErr::MalformedDocument),
        }
    }

    fn skip_past_pattern(&mut self, pat: &Vec<char>) -> (r: Result<(), ParseErr>)
        requires
            old(self).wf(),
        ensures
            final(self).wf(),
            final(self).same_page(old(self)),
            r is Ok <==> after_str(old(self)@, pat@) is Some,
            r is Ok ==> after_str(old(self)@, pat@) == Some(final(self)@),
            r matches Err(e) ==> e == ParseErr::MalformedDocument,
            r is Err ==> final(self).pos == old(self).pos && final(self)@ == old(self)@,
    {
        match self.find_pattern(pat) {
            Some(k) => {
                proof {
                    lemma_find_str(self@, pat@);
                }
                self.advance(k + pat.len());
                Ok(())
            },
            None => Err(ParseErr::MalformedDocument),
        }
    }

    /// Skips past the first occurrence of `string`.
    pub fn skip_next_string(&mut self, string: &str) -> (r: Result<(), ParseErr>)
        requires
            old(self).wf(),
        ensures
            final(self).wf(),
            final(self).same_page(old(self)),
            r is Ok <==> after_str(old(self)@, string@) is Some,
            r is Ok ==> after_str(old(self)@, string@) == Some(final(self)@),
            r matches Err(e) ==> e == ParseErr::MalformedDocument,
            r is Err ==> final(self).pos == old(self).pos && final(self)@ == old(self)@,
    {
        let pat = chars_of(string);
        self.skip_past_pattern(&pat)
    }

    /// Skips past the first `<tag` (or `</tag` when `closing`), then past the
    /// `>` that ends it, whatever attributes stand between.
    pub fn skip_next_tag(&mut self, tag: &str, closing: bool) -> (r: Result<(), ParseErr>)
        requires
            old(self).wf(),
        ensures
            final(self).wf(),
            final(self).same_page(old(self)),
            r is Ok <==> after_tag(old(self)@, tag@, closing) is Some,
            r is Ok ==> after_tag(old(self)@, tag@, closing) == Some(final(self)@),
            r matches Err(e) ==> e == ParseErr::MalformedDocument,
            r is Err ==> final(self).pos == old(self).pos && final(self)@ == old(self)@,
    {
        let name = chars_of(tag);
        let mut pat: Vec<char> = Vec::new();
        pat.push('<');
        if closing {
            pat.push('/');
        }
        let mut i: usize = 0;
        while i < name.len()
            invariant
                i <= name@.len(),
                pat@ == tag_pattern(name@, closing).take(pat@.len() as int),
                pat@.len() == i + if closing { 2int } else { 1int },
            decreases name.len() - i,
        {
            pat.push(name[i]);
            i = i + 1;
            assert(pat@ =~= tag_pattern(name@, closing).take(pat@.len() as int));
        }
        assert(pat@ =~= tag_pattern(tag@, closing));
        let start = self.pos;
        match self.skip_past_pattern(&pat) {
            Ok(()) => match self.skip_next_char('>') {
                Ok(()) => Ok(()),
                Err(e) => {
                    self.pos = start;
                    Err(e)
                },
            },
            Err(e) => Err(e),
        }
    }

    /// The first `n` characters of what is left, as they stand.
    pub fn take_text(&self, n: usize) -> (r: String)
        requires
            self.wf(),
            n <= self@.len(),
        ensures
            r@ == self@.take(n as int),
    {
        let mut r = String::new();
        let mut i: usize = 0;
        while i < n
            invariant
                self.wf(),
                n <= self@.len(),
                i <= n,
                r@ == self@.take(i as int),
            decreases n - i,
        {
            push_char(&mut r, self.text[self.pos + i]);
            i = i + 1;
            assert(r@ =~= self@.take(i as int));
        }
        r
    }

    /// The first `n` characters of what is left, with their character
    /// references decoded.
    pub fn take_decoded(&self, n: usize) -> (r: String)
        requires
            self.wf(),
            n <= self@.len(),
        ensures
            r@ == html_decoded(self@.take(n as int)),
    {
        let raw = self.take_text(n);
        decode_string(raw.as_str())
    }

    /// Whether what is left after its first `off` characters starts with `p`.
    fn starts_with_after(&self, off: usize, p: &str) -> (r: bool)
        requires
            self.wf(),
            off <= self@.len(),
        ensures
            r == starts_with(self@.skip(off as int), p@),
    {
        let pat = chars_of(p);
        let r = self.occurs_here(off, &pat);
        assert(r == starts_with(self@.skip(off as int), pat@)) by {
            if off + pat@.len() <= self@.len() {
                assert(self@.skip(off as int).subrange(0, pat@.len() as int) =~= self@.subrange(
                    off as int,
                    off + pat@.len(),
                ));
            }
        }
        r
    }

    /// Classifies the tag at the cursor by the prefix of its name; the
    /// leading `<` may be missing.
    pub fn get_tag_type(&self) -> (r: TagType)
        requires
            self.wf(),
        ensures
            r == tag_type(self@),
    {
        let off: usize = if self.starts_with_char('<') {
            1
        } else {
            0
        };
        assert(self@.skip(0) =~= self@);
        if self.starts_with_after(off, "pre") {
            TagType::Pre
        } else if self.starts_with_after(off, "p") {
            TagType::P
        } else if self.starts_with_after(off, "a") {
            TagType::Link
        } else if self.starts_with_after(off, "big") {
            TagType::Big
        } else if self.starts_with_after(off, "div") {
            TagType::Div
        } else if self.starts_with_after(off, "font") {
            TagType::Font
        } else if self.starts_with_after(off, "span") {
            TagType::Span
        } else if self.starts_with_after(off, "center") {
            TagType::Center
        } else {
            TagType::Unknown
        }
    }

    /// The kind of the tag that opens at the cursor, which must start with
    /// `<`; text is `Unknown`.
    pub fn tag_at_cursor(&self) -> (r: TagType)
        requires
            self.wf(),
        ensures
            r == opening_tag(self@),
    {
        if self.starts_with_char('<') {
            self.get_tag_type()
        } else {
            TagType::Unknown
        }
    }

    /// Parses the anchor at the cursor: its `href` value as the url and the
    /// decoded text up to the next tag as the label; the cursor ends past the
    /// closing `</a>`. On an error the cursor stays where it was.
    pub fn parse_current_link(&mut self) -> (r: Result<HtmlLink, ParseErr>)
        requires
            old(self).wf(),
        ensures
            final(self).wf(),
            final(self).same_page(old(self)),
            r is Ok <==> link_spec(old(self)@) is Some,
            r matches Ok(link) ==> link_spec(old(self)@) == Some((link@, final(self)@)),
            r matches Err(e) ==> e == ParseErr::MalformedDocument,
            r is Err ==> final(self).pos == old(self).pos && final(self)@ == old(self)@,
    {
        let start = self.pos;
        let r = self.read_link();
        if let Err(e) = r {
            self.pos = start;
            return Err(e);
        }
        r
    }

    /// The anchor at the cursor; on an error the cursor may have moved.
    fn read_link(&mut self) -> (r: Result<HtmlLink, ParseErr>)
        requires
            old(self).wf(),
        ensures
            final(self).wf(),
            final(self).same_page(old(self)),
            r is Ok <==> link_spec(old(self)@) is Some,
            r matches Ok(link) ==> link_spec(old(self)@) == Some((link@, final(self)@)),
            r matches Err(e) ==> e == ParseErr::MalformedDocument,
    {
        self.skip_next_string("href=\"")?;
        let url_end = match self.find_char('"') {
            Some(k) => k,
            None => return Err(ParseErr::MalformedDocument),
        };
        proof {
            lemma_find_char(self@, '"');
        }
        let url = self.take_text(url_end);
        self.skip_next_string(">")?;
        let inner_end = match self.find_char('<') {
            Some(k) => k,
            None => return Err(ParseErr::MalformedDocument),
        };
        proof {
            lemma_find_char(self@, '<');
        }
        let inner_text = self.take_decoded(inner_end);
        self.skip_next_tag("a", true)?;
        Ok(HtmlLink { url, inner_text })
    }
}

} // verus!
