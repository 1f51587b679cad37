//! Page addresses and their two text forms: the file name of a text page and
//! the query value of an image page.
use vstd::prelude::*;
use crate::cursor::ParseState;
use crate::text::{chars_of, find_char, lemma_find_char, push_char};

verus! {

/// A teletext page number with its sub-page number.
#[derive(Debug, Clone, Copy, PartialEq, Eq, Structural)]
pub struct TelePage {
    pub page: i32,
    pub sub_page: i32,
}

pub open spec fn digit_char(d: nat) -> char {
    ((d + 48) as u8) as char
}

/// The decimal digits of `n`, without leading zeros.
pub open spec fn dec_digits(n: nat) -> Seq<char>
    decreases n,
{
    if n < 10 {
        seq![digit_char(n)]
    } else {
        dec_digits(n / 10).push(digit_char(n % 10))
    }
}

pub open spec fn zeros(n: nat) -> Seq<char> {
    Seq::new(n, |i: int| '0')
}

/// `s` with zeros in front, up to `w` characters.
pub open spec fn zero_pad(s: Seq<char>, w: nat) -> Seq<char> {
    if s.len() >= w {
        s
    } else {
        zeros((w - s.len()) as nat) + s
    }
}

/// `n` in decimal, zero-padded to width `w`; a minus sign counts toward the
/// width, as in Rust's `{:0w}`.
pub open spec fn fmt_int(n: int, w: nat) -> Seq<char> {
    if n < 0 {
        seq!['-'] + zero_pad(
            dec_digits((-n) as nat),
            if w > 0 {
                (w - 1) as nat
            } else {
                0
            },
        )
    } else {
        zero_pad(dec_digits(n as nat), w)
    }
}

pub open spec fn is_digit(c: char) -> bool {
    '0' <= c <= '9'
}

pub open spec fn all_digits(s: Seq<char>) -> bool {
    forall|i: int| 0 <= i < s.len() ==> is_digit(#[trigger] s[i])
}

/// The value of a run of decimal digits.
pub open spec fn digits_value(s: Seq<char>) -> int
    decreases s.len(),
{
    if s.len() == 0 {
        0
    } else {
        digits_value(s.drop_last()) * 10 + (s.last() as int - '0' as int)
    }
}

/// The integer that `s` spells as `i32::from_str` reads it: an optional sign,
/// then at least one decimal digit.
pub open spec fn parse_int(s: Seq<char>) -> Option<int> {
    if s.len() > 0 && (s[0] == '+' || s[0] == '-') {
        let d = s.skip(1);
        if d.len() > 0 && all_digits(d) {
            Some(
                if s[0] == '-' {
                    -digits_value(d)
                } else {
                    digits_value(d)
                },
            )
        } else {
            None
        }
    } else if s.len() > 0 && all_digits(s) {
        Some(digits_value(s))
    } else {
        None
    }
}

/// The file name form: `{page:03}_{sub_page:04}.htm`.
pub open spec fn url_path_spec(p: TelePage) -> Seq<char> {
    fmt_int(p.page as int, 3) + seq!['_'] + fmt_int(p.sub_page as int, 4) + ".htm"@
}

/// The query form: `{page}_{sub_page:04}`.
pub open spec fn api_query_spec(p: TelePage) -> Seq<char> {
    fmt_int(p.page as int, 0) + seq!['_'] + fmt_int(p.sub_page as int, 4)
}

/// The address that `s` gives by position: the page number in its first three
/// characters and the sub-page number in the four after the separator.
pub open spec fn page_from_str_spec(s: Seq<char>) -> Option<TelePage> {
    if s.len() < 8 {
        None
    } else {
        match (parse_int(s.subrange(0, 3)), parse_int(s.subrange(4, 8))) {
            (Some(p), Some(q)) => Some(TelePage { page: p as i32, sub_page: q as i32 }),
            _ => None,
        }
    }
}

/// The address that the query form `s` gives: the page number before the
/// first `_`, of one to four characters, and the sub-page number in the four
/// characters after it.
pub open spec fn query_from_str_spec(s: Seq<char>) -> Option<TelePage> {
    match find_char(s, '_') {
        None => None,
        Some(k) => if 1 <= k <= 4 && s.len() == k + 5 {
            match (parse_int(s.take(k)), parse_int(s.skip(k + 1))) {
                (Some(p), Some(q)) => Some(TelePage { page: p as i32, sub_page: q as i32 }),
                _ => None,
            }
        } else {
            None
        },
    }
}

/// The decimal digits of `m`.
fn decimal_digits(m: u32) -> (r: Vec<char>)
    ensures
        r@ == dec_digits(m as nat),
    decreases m,
{
    let d = ((m % 10) as u8 + 48u8) as char;
    if m < 10 {
        let mut v: Vec<char> = Vec::new();
        v.push(d);
        v
    } else {
        let mut v = decimal_digits(m / 10);
        v.push(d);
        v
    }
}

/// Appends `n` in decimal, zero-padded to width `w`.
pub(crate) fn push_int(s: &mut String, n: i32, w: usize)
    ensures
        final(s)@ == old(s)@ + fmt_int(n as int, w as nat),
{
    let ghost start = s@;
    let m: u32 = if n < 0 {
        (-(n as i64)) as u32
    } else {
        n as u32
    };
    let digits = decimal_digits(m);
    let mut width = w;
    if n < 0 {
        push_char(s, '-');
        if width > 0 {
            width = width - 1;
        }
    }
    let ghost signed = s@;
    let mut i: usize = digits.len();
    while i < width
        invariant
            digits.len() <= i <= width || width < digits.len() && i == digits.len(),
            s@ == signed + zeros((i - digits.len()) as nat),
        decreases width - i,
    {
        push_char(s, '0');
        i = i + 1;
        assert(s@ =~= signed + zeros((i - digits.len()) as nat));
    }
    let ghost padded = s@;
    let mut j: usize = 0;
    while j < digits.len()
        invariant
            j <= digits.len(),
            s@ == padded + digits@.take(j as int),
        decreases digits.len() - j,
    {
        push_char(s, digits[j]);
        j = j + 1;
        assert(s@ =~= padded + digits@.take(j as int));
    }
    assert(digits@.take(digits.len() as int) =~= digits@);
    if digits.len() >= width {
        assert(zeros(0) =~= Seq::<char>::empty());
    }
    assert(s@ =~= old(s)@ + fmt_int(n as int, w as nat));
}

/// Reads `chars[from..to]` as `i32::from_str` does; a field of at most four
/// characters cannot overflow.
fn parse_field(chars: &Vec<char>, from: usize, to: usize) -> (r: Option<i32>)
    requires
        from <= to <= chars@.len(),
        to - from <= 4,
    ensures
        match parse_int(chars@.subrange(from as int, to as int)) {
            Some(v) => r == Some(v as i32),
            None => r is None,
        },
{
    let ghost s = chars@.subrange(from as int, to as int);
    let mut i = from;
    let mut neg = false;
    if i < to && (chars[i] == '+' || chars[i] == '-') {
        neg = chars[i] == '-';
        i = i + 1;
    }
    let start = i;
    if start == to {
        return None;
    }
    assert(start > from ==> chars@.subrange(start as int, to as int) =~= s.skip(1));
    let mut v: i64 = 0;
    while i < to
        invariant
            start <= i <= to <= chars@.len(),
            from <= start,
            to - start <= 4,
            s == chars@.subrange(from as int, to as int),
            start > from ==> chars@.subrange(start as int, to as int) == s.skip(1),
            start > from <==> (s.len() > 0 && (s[0] == '+' || s[0] == '-')),
            neg == (start > from && s[0] == '-'),
            v == digits_value(chars@.subrange(start as int, i as int)),
            all_digits(chars@.subrange(start as int, i as int)),
            i - start <= 1 ==> 0 <= v < 10,
            i - start <= 2 ==> 0 <= v < 100,
            i - start <= 3 ==> 0 <= v < 1000,
            0 <= v < 10000,
        decreases to - i,
    {
        let c = chars[i];
        if !('0' <= c && c <= '9') {
            assert(!all_digits(chars@.subrange(start as int, to as int))) by {
                assert(chars@.subrange(start as int, to as int)[i - start] == c);
            }
            return None;
        }
        assert(chars@.subrange(start as int, i + 1).drop_last() =~= chars@.subrange(start as int, i as int));
        v = v * 10 + (c as i64 - '0' as i64);
        i = i + 1;
        assert forall|k: int| 0 <= k < chars@.subrange(start as int, i as int).len() implies is_digit(
            #[trigger] chars@.subrange(start as int, i as int)[k],
        ) by {
            if k < i - 1 - start {
                assert(chars@.subrange(start as int, i as int)[k] == chars@.subrange(
                    start as int,
                    i - 1,
                )[k]);
            }
        }
    }
    if neg {
        Some((-v) as i32)
    } else {
        Some(v as i32)
    }
}

impl TelePage {
    pub fn new(page: i32, sub_page: i32) -> (r: TelePage)
        ensures
            r.page == page,
            r.sub_page == sub_page,
    {
        TelePage { page, sub_page }
    }

    /// The file name form of the address, `{page:03}_{sub_page:04}.htm`.
    pub fn to_url_path_form(&self) -> (r: String)
        ensures
            r@ == url_path_spec(*self),
    {
        let mut s = String::new();
        push_int(&mut s, self.page, 3);
        push_char(&mut s, '_');
        push_int(&mut s, self.sub_page, 4);
        s.append(".htm");
        s
    }

    /// The query form of the address, `{page}_{sub_page:04}`.
    pub fn to_api_query_form(&self) -> (r: String)
        ensures
            r@ == api_query_spec(*self),
    {
        let mut s = String::new();
        push_int(&mut s, self.page, 0);
        push_char(&mut s, '_');
        push_int(&mut s, self.sub_page, 4);
        s
    }

    /// Reads the query form: the page number up to the `_` separator, the
    /// sub-page number after it. `None` where either is not an integer.
    pub fn from_api_query_form(s: &str) -> (r: Option<TelePage>)
        ensures
            r == query_from_str_spec(s@),
    {
        let state = ParseState::new(s);
        let k = match state.find_char('_') {
            Some(k) => k,
            None => return None,
        };
        proof {
            lemma_find_char(s@, '_');
        }
        let chars = &state.text;
        assert(chars@ =~= s@);
        if k < 1 || k > 4 || chars.len() != k + 5 {
            return None;
        }
        assert(chars@.subrange(0, k as int) =~= s@.take(k as int));
        assert(chars@.subrange(k + 1, k + 5) =~= s@.skip(k + 1));
        let page = parse_field(chars, 0, k);
        let sub_page = parse_field(chars, k + 1, k + 5);
        match (page, sub_page) {
            (Some(p), Some(q)) => Some(TelePage { page: p, sub_page: q }),
            _ => None,
        }
    }

    /// Reads an address by position: the page number from the first three
    /// characters, the sub-page number from the four after the separator.
    /// `None` where either is not an integer, or the text is too short.
    pub fn from_url_path_form(s: &str) -> (r: Option<TelePage>)
        ensures
            r == page_from_str_spec(s@),
    {
        let chars = chars_of(s);
        if chars.len() < 8 {
            return None;
        }
        let page = parse_field(&chars, 0, 3);
        let sub_page = parse_field(&chars, 4, 8);
        match (page, sub_page) {
            (Some(p), Some(q)) => Some(TelePage { page: p, sub_page: q }),
            _ => None,
        }
    }
}

/// How a page dialect names its pages: the full address to fetch, the short
/// form that links and history carry, and reading the short form back.
pub trait TelePager {
    spec fn full_page_spec(page: TelePage) -> Seq<char>;

    spec fn page_str_spec(page: TelePage) -> Seq<char>;

    fn to_full_page(page: &TelePage) -> (r: String)
        ensures
            r@ == Self::full_page_spec(*page),
    ;

    fn to_page_str(page: &TelePage) -> (r: String)
        ensures
            r@ == Self::page_str_spec(*page),
    ;

    spec fn from_page_str_spec(page: Seq<char>) -> Option<TelePage>;

    fn from_page_str(page: &str) -> (r: Option<TelePage>)
        ensures
            r == Self::from_page_str_spec(page@),
    ;
}

pub proof fn lemma_dec_digits(n: nat)
    ensures
        all_digits(dec_digits(n)),
        digits_value(dec_digits(n)) == n,
        dec_digits(n).len() >= 1,
        n < 10 ==> dec_digits(n).len() == 1,
        n < 100 ==> dec_digits(n).len() <= 2,
        n < 1000 ==> dec_digits(n).len() <= 3,
        n < 10000 ==> dec_digits(n).len() <= 4,
    decreases n,
{
    assert(digit_char(n % 10) as int == n % 10 + 48);
    if n < 10 {
        assert(dec_digits(n).drop_last() =~= Seq::<char>::empty());
        assert('0' as int == 48);
        assert(dec_digits(n).last() == digit_char(n));
        assert(digits_value(dec_digits(n)) == digits_value(Seq::<char>::empty()) * 10 + (digit_char(n) as int - 48));
    } else {
        lemma_dec_digits(n / 10);
        let d = dec_digits(n);
        assert(d.drop_last() =~= dec_digits(n / 10));
        assert((n / 10) * 10 + n % 10 == n);
        assert(d.last() == digit_char(n % 10));
        assert(digits_value(d) == digits_value(d.drop_last()) * 10 + (d.last() as int - '0' as int));
        assert forall|i: int| 0 <= i < d.len() implies is_digit(#[trigger] d[i]) by {
            if i < d.len() - 1 {
                assert(d[i] == dec_digits(n / 10)[i]);
            }
        }
    }
}

pub proof fn lemma_zeros_value(n: nat)
    ensures
        digits_value(zeros(n)) == 0,
    decreases n,
{
    if n > 0 {
        assert(zeros(n).drop_last() =~= zeros((n - 1) as nat));
        lemma_zeros_value((n - 1) as nat);
    }
}

/// Leading zeros do not change the value of a run of digits.
pub proof fn lemma_leading_zeros(n: nat, s: Seq<char>)
    ensures
        digits_value(zeros(n) + s) == digits_value(s),
    decreases s.len(),
{
    if s.len() == 0 {
        assert(zeros(n) + s =~= zeros(n));
        lemma_zeros_value(n);
    } else {
        assert((zeros(n) + s).drop_last() =~= zeros(n) + s.drop_last());
        lemma_leading_zeros(n, s.drop_last());
    }
}

/// A number written with `fmt_int` at a width that it fits is read back.
pub proof fn lemma_fmt_int_read_back(n: int, w: nat)
    requires
        0 <= n,
        w == 3 && n <= 999 || w == 4 && n <= 9999,
    ensures
        fmt_int(n, w).len() == w,
        parse_int(fmt_int(n, w)) == Some(n),
{
    lemma_dec_digits(n as nat);
    let d = dec_digits(n as nat);
    let f = fmt_int(n, w);
    if d.len() < w {
        lemma_leading_zeros((w - d.len()) as nat, d);
        assert forall|i: int| 0 <= i < f.len() implies is_digit(#[trigger] f[i]) by {
            if i >= w - d.len() {
                assert(f[i] == d[i - (w - d.len())]);
            }
        }
    }
    assert(is_digit(f[0]));
}

/// An address with a page number of at most three digits and a sub-page
/// number of at most four is read back from its file name form unchanged.
pub proof fn lemma_url_path_round_trip(p: TelePage)
    requires
        0 <= p.page <= 999,
        0 <= p.sub_page <= 9999,
    ensures
        page_from_str_spec(url_path_spec(p)) == Some(p),
{
    reveal_strlit(".htm");
    lemma_fmt_int_read_back(p.page as int, 3);
    lemma_fmt_int_read_back(p.sub_page as int, 4);
    let a = fmt_int(p.page as int, 3);
    let b = fmt_int(p.sub_page as int, 4);
    let s = url_path_spec(p);
    assert(s.subrange(0, 3) =~= a);
    assert(s.subrange(4, 8) =~= b);
}

/// An address with a page number of at most three digits and a sub-page
/// number of at most four is read back from its query form unchanged.
pub proof fn lemma_api_query_round_trip(p: TelePage)
    requires
        0 <= p.page <= 999,
        0 <= p.sub_page <= 9999,
    ensures
        query_from_str_spec(api_query_spec(p)) == Some(p),
{
    lemma_dec_digits(p.page as nat);
    lemma_fmt_int_read_back(p.sub_page as int, 4);
    let a = fmt_int(p.page as int, 0);
    let b = fmt_int(p.sub_page as int, 4);
    let s = api_query_spec(p);
    assert(a == dec_digits(p.page as nat));
    let k = a.len() as int;
    assert(s[k] == '_');
    lemma_find_char(s, '_');
    assert(find_char(s, '_') == Some(k)) by {
        match find_char(s, '_') {
            Some(j) => {
                if j < k {
                    assert(s[j] == a[j]);
                    assert(is_digit(a[j]));
                }
            },
            None => {
                assert(s.contains('_'));
            },
        }
    }
    assert(s.take(k) =~= a);
    assert(s.skip(k + 1) =~= b);
    assert(is_digit(a[0]));
}

} // verus!
