//! Reading and writing the small pieces of text that commands exchange.
//!
//! A string is modelled by its sequence of characters. Everything here is
//! proved against a definition on such sequences; the one function that leans
//! on the standard library's formatting is [`quoted`].

use vstd::prelude::*;
use vstd::utf8::*;

verus! {

/// Unicode's `White_Space` property.
pub open spec fn is_white(c: char) -> bool {
    ||| '\u{9}' <= c <= '\u{d}'
    ||| c == ' '
    ||| c == '\u{85}'
    ||| c == '\u{a0}'
    ||| c == '\u{1680}'
    ||| '\u{2000}' <= c <= '\u{200a}'
    ||| c == '\u{2028}'
    ||| c == '\u{2029}'
    ||| c == '\u{202f}'
    ||| c == '\u{205f}'
    ||| c == '\u{3000}'
}

/// `s` without the white space it starts with.
pub open spec fn without_leading(s: Seq<char>) -> Seq<char>
    decreases s.len(),
{
    if s.len() > 0 && is_white(s.first()) {
        without_leading(s.drop_first())
    } else {
        s
    }
}

/// `s` without the white space it ends with.
pub open spec fn without_trailing(s: Seq<char>) -> Seq<char>
    decreases s.len(),
{
    if s.len() > 0 && is_white(s.last()) {
        without_trailing(s.drop_last())
    } else {
        s
    }
}

/// `s` without white space at either end.
pub open spec fn trimmed(s: Seq<char>) -> Seq<char> {
    without_trailing(without_leading(s))
}

/// Whether `needle` occurs in `hay` as a contiguous run.
pub open spec fn occurs_in(needle: Seq<char>, hay: Seq<char>) -> bool {
    exists|i: int| #[trigger] occurs_at(needle, hay, i)
}

/// Whether `needle` stands in `hay` from position `i` on.
pub open spec fn occurs_at(needle: Seq<char>, hay: Seq<char>, i: int) -> bool {
    &&& 0 <= i
    &&& i + needle.len() <= hay.len()
    &&& hay.subrange(i, i + needle.len()) == needle
}

/// A text that ends another occurs in it.
pub proof fn lemma_ends_with(before: Seq<char>, needle: Seq<char>)
    ensures
        occurs_in(needle, before + needle),
{
    let hay = before + needle;
    let i = before.len() as int;
    assert(hay.subrange(i, i + needle.len()) =~= needle);
    assert(occurs_at(needle, hay, i));
}

/// A text that occurs in another occurs in what continues that.
pub proof fn lemma_continues(needle: Seq<char>, hay: Seq<char>, after: Seq<char>)
    requires
        occurs_in(needle, hay),
    ensures
        occurs_in(needle, hay + after),
{
    let i = choose|i: int| #[trigger] occurs_at(needle, hay, i);
    assert((hay + after).subrange(i, i + needle.len()) =~= hay.subrange(i, i + needle.len()));
    assert(occurs_at(needle, hay + after, i));
}

/// The decimal digit with value `d`, for `d` below ten.
pub open spec fn digit(d: nat) -> char {
    (d + 48) as char
}

/// `n` in decimal, without leading zeros.
pub open spec fn decimal(n: nat) -> Seq<char>
    decreases n,
{
    if n < 10 {
        seq![digit(n)]
    } else {
        decimal(n / 10).push(digit(n % 10))
    }
}

/// Why a text is no number.
#[derive(Debug, Clone, Copy, PartialEq, Eq, Structural)]
pub enum NumberError {
    /// There is nothing to read.
    Empty,
    /// A character is no decimal digit, or there is a sign and nothing else.
    InvalidDigit,
    /// The digits read so far exceed the largest 32-bit number.
    TooLarge,
}

/// The number that a run of digits denotes. Reading goes from left to right
/// and stops at the first fault.
pub open spec fn digits_value(s: Seq<char>) -> Result<u32, NumberError>
    decreases s.len(),
{
    if s.len() == 0 {
        Ok(0)
    } else {
        match digits_value(s.drop_last()) {
            Err(e) => Err(e),
            Ok(v) => if !('0' <= s.last() <= '9') {
                Err(NumberError::InvalidDigit)
            } else if v * 10 + (s.last() as int - 48) > u32::MAX {
                Err(NumberError::TooLarge)
            } else {
                Ok((v * 10 + (s.last() as int - 48)) as u32)
            },
        }
    }
}

/// The number that `s` denotes: digits, after an optional plus sign.
pub open spec fn number(s: Seq<char>) -> Result<u32, NumberError> {
    if s.len() == 0 {
        Err(NumberError::Empty)
    } else if s == seq!['+'] {
        Err(NumberError::InvalidDigit)
    } else if s.first() == '+' {
        digits_value(s.drop_first())
    } else {
        digits_value(s)
    }
}

/// Where the last slash of `s` stands, or minus one if there is none.
pub open spec fn last_slash(s: Seq<char>) -> int
    decreases s.len(),
{
    if s.len() == 0 {
        -1
    } else if s.last() == '/' {
        s.len() - 1
    } else {
        last_slash(s.drop_last())
    }
}

/// The last of the slash-separated parts of `s` that is a number.
pub open spec fn last_number(s: Seq<char>) -> Option<u32>
    decreases s.len(),
{
    proof {
        lemma_last_slash(s);
    }
    let i = last_slash(s);
    match number(s.skip(i + 1)) {
        Ok(n) => Some(n),
        Err(_) => if i < 0 {
            None
        } else {
            last_number(s.take(i))
        },
    }
}

/// `s` as a string literal: in double quotes, with escapes. This is the
/// standard library's debug format of a string.
pub uninterp spec fn quoted_text(s: Seq<char>) -> Seq<char>;

/// Texts with a comma and a space between neighbours.
pub open spec fn listed(items: Seq<Seq<char>>) -> Seq<char>
    decreases items.len(),
{
    if items.len() == 0 {
        Seq::empty()
    } else if items.len() == 1 {
        items[0]
    } else {
        listed(items.drop_last()) + ", "@ + items.last()
    }
}

/// A list in square brackets.
pub open spec fn bracketed(items: Seq<Seq<char>>) -> Seq<char> {
    "["@ + listed(items) + "]"@
}

/// The views of a sequence of strings.
pub open spec fn views(s: Seq<String>) -> Seq<Seq<char>> {
    s.map_values(|x: String| x@)
}

/// Decides [`is_white`].
fn white(c: char) -> (r: bool)
    ensures
        r == is_white(c),
{
    ('\u{9}' <= c && c <= '\u{d}') || c == ' ' || c == '\u{85}' || c == '\u{a0}' || c == '\u{1680}'
        || ('\u{2000}' <= c && c <= '\u{200a}') || c == '\u{2028}' || c == '\u{2029}' || c
        == '\u{202f}' || c == '\u{205f}' || c == '\u{3000}'
}

/// The characters of a string.
fn characters(s: &str) -> (r: Vec<char>)
    ensures
        r@ == s@,
{
    let mut r: Vec<char> = Vec::new();
    for c in it: s.chars()
        invariant
            it.seq() == s@,
            r@ == s@.take(it.index()),
    {
        r.push(c);
    }
    r
}

proof fn lemma_leading(s: Seq<char>, i: int)
    requires
        0 <= i <= s.len(),
        forall|k: int| 0 <= k < i ==> is_white(#[trigger] s[k]),
        i < s.len() ==> !is_white(s[i]),
    ensures
        without_leading(s) == s.skip(i),
    decreases i,
{
    if i > 0 {
        assert(is_white(s[0]));
        let t = s.drop_first();
        assert forall|k: int| 0 <= k < i - 1 implies is_white(#[trigger] t[k]) by {
            assert(t[k] == s[k + 1]);
        }
        lemma_leading(t, i - 1);
        assert(t.skip(i - 1) =~= s.skip(i));
    } else {
        assert(s.skip(0) =~= s);
    }
}

proof fn lemma_trailing(s: Seq<char>, j: int)
    requires
        0 <= j <= s.len(),
        forall|k: int| j <= k < s.len() ==> is_white(#[trigger] s[k]),
        j > 0 ==> !is_white(s[j - 1]),
    ensures
        without_trailing(s) == s.take(j),
    decreases s.len() - j,
{
    if j < s.len() {
        assert(is_white(s[s.len() - 1]));
        let t = s.drop_last();
        assert forall|k: int| j <= k < t.len() implies is_white(#[trigger] t[k]) by {
            assert(t[k] == s[k]);
        }
        lemma_trailing(t, j);
        assert(t.take(j) =~= s.take(j));
    } else {
        assert(s.take(j) =~= s);
    }
}

/// The part of `s` between the white space at its ends.
pub fn trim(s: &str) -> (r: &str)
    ensures
        r@ == trimmed(s@),
{
    let chars = characters(s);
    let n: usize = chars.len();
    let mut i: usize = 0;
    while i < n && white(chars[i])
        invariant
            n == chars@.len(),
            chars@ == s@,
            i <= n,
            forall|k: int| 0 <= k < i ==> is_white(#[trigger] s@[k]),
        decreases n - i,
    {
        i += 1;
    }
    let mut j: usize = n;
    while j > i && white(chars[j - 1])
        invariant
            n == chars@.len(),
            chars@ == s@,
            i <= j <= n,
            forall|k: int| j <= k < n ==> is_white(#[trigger] s@[k]),
        decreases j,
    {
        j -= 1;
    }
    proof {
        let rest = s@.skip(i as int);
        lemma_leading(s@, i as int);
        assert forall|k: int| j - i <= k < rest.len() implies is_white(#[trigger] rest[k]) by {
            assert(rest[k] == s@[k + i]);
        }
        lemma_trailing(rest, j - i);
        assert(rest.take(j - i) =~= s@.subrange(i as int, j as int));
    }
    s.substring_char(i, j)
}

/// Whether `needle` occurs in `hay`.
pub fn contains(hay: &str, needle: &str) -> (r: bool)
    ensures
        r == occurs_in(needle@, hay@),
{
    let h = characters(hay);
    let d = characters(needle);
    if d.len() > h.len() {
        return false;
    }
    let last: usize = h.len() - d.len();
    let mut i: usize = 0;
    loop
        invariant
            h@ == hay@,
            d@ == needle@,
            last == h.len() - d.len(),
            i <= last,
            forall|k: int| 0 <= k < i ==> !(#[trigger] occurs_at(needle@, hay@, k)),
        decreases last - i,
    {
        let mut k: usize = 0;
        while k < d.len() && h[i + k] == d[k]
            invariant
                h@ == hay@,
                d@ == needle@,
                i + d.len() <= h.len(),
                k <= d.len(),
                forall|m: int| 0 <= m < k ==> hay@[i + m] == #[trigger] needle@[m],
            decreases d.len() - k,
        {
            k += 1;
        }
        if k == d.len() {
            assert(hay@.subrange(i as int, i + needle@.len()) =~= needle@);
            assert(occurs_at(needle@, hay@, i as int));
            return true;
        }
        assert(hay@.subrange(i as int, i + needle@.len())[k as int] == hay@[i + k]);
        if i == last {
            return false;
        }
        i += 1;
    }
}

/// The text of one digit.
fn digit_text(d: u64) -> (r: &'static str)
    requires
        d < 10,
    ensures
        r@ == seq![digit(d as nat)],
{
    proof {
        reveal_strlit("0");
        reveal_strlit("1");
        reveal_strlit("2");
        reveal_strlit("3");
        reveal_strlit("4");
        reveal_strlit("5");
        reveal_strlit("6");
        reveal_strlit("7");
        reveal_strlit("8");
        reveal_strlit("9");
    }
    if d == 0 {
        "0"
    } else if d == 1 {
        "1"
    } else if d == 2 {
        "2"
    } else if d == 3 {
        "3"
    } else if d == 4 {
        "4"
    } else if d == 5 {
        "5"
    } else if d == 6 {
        "6"
    } else if d == 7 {
        "7"
    } else if d == 8 {
        "8"
    } else {
        "9"
    }
}

/// `n` in decimal.
pub fn decimal_text(n: u64) -> (r: String)
    ensures
        r@ == decimal(n as nat),
    decreases n,
{
    if n < 10 {
        digit_text(n).to_owned()
    } else {
        let mut r = decimal_text(n / 10);
        let last = digit_text(n % 10);
        r.append(last);
        proof {
            assert(decimal((n / 10) as nat) + seq![digit((n % 10) as nat)] =~= decimal(
                (n / 10) as nat,
            ).push(digit((n % 10) as nat)));
        }
        r
    }
}

/// Reads a 32-bit number: decimal digits, after an optional plus sign.
pub fn parse_number(s: &str) -> (r: Result<u32, NumberError>)
    ensures
        r == number(s@),
{
    let chars = characters(s);
    let n: usize = chars.len();
    if n == 0 {
        return Err(NumberError::Empty);
    }
    let start: usize = if chars[0] == '+' {
        1
    } else {
        0
    };
    if start == 1 && n == 1 {
        assert(s@ =~= seq!['+']);
        return Err(NumberError::InvalidDigit);
    }
    let ghost digits = s@.skip(start as int);
    proof {
        assert(start == 0 ==> digits =~= s@);
        assert(start == 1 ==> digits =~= s@.drop_first());
        assert(digits.take(0) =~= Seq::<char>::empty());
    }
    let mut v: u32 = 0;
    let mut i: usize = start;
    while i < n
        invariant
            n == chars@.len(),
            chars@ == s@,
            start <= i <= n,
            digits == s@.skip(start as int),
            number(s@) == digits_value(digits),
            digits_value(digits.take(i - start)) == Ok::<u32, NumberError>(v),
        decreases n - i,
    {
        let c = chars[i];
        proof {
            let upto = digits.take(i + 1 - start);
            assert(upto.drop_last() =~= digits.take(i - start));
            assert(upto.last() == c);
            lemma_first_fault(digits, i + 1 - start);
        }
        if !('0' <= c && c <= '9') {
            return Err(NumberError::InvalidDigit);
        }
        let d: u32 = c as u32 - 48;
        if v > (u32::MAX - d) / 10 {
            return Err(NumberError::TooLarge);
        }
        v = v * 10 + d;
        i += 1;
    }
    proof {
        assert(digits.take(n - start) =~= digits);
    }
    Ok(v)
}

/// A fault in a prefix is the fault of the whole.
proof fn lemma_first_fault(s: Seq<char>, i: int)
    requires
        0 <= i <= s.len(),
    ensures
        digits_value(s.take(i)) is Err ==> digits_value(s) == digits_value(s.take(i)),
    decreases s.len() - i,
{
    if i == s.len() {
        assert(s.take(i) =~= s);
    } else {
        lemma_first_fault(s, i + 1);
        assert(s.take(i + 1).drop_last() =~= s.take(i));
    }
}

pub proof fn lemma_last_slash(s: Seq<char>)
    ensures
        -1 <= last_slash(s) < s.len(),
        last_slash(s) >= 0 ==> s[last_slash(s)] == '/',
        forall|k: int| last_slash(s) < k < s.len() ==> #[trigger] s[k] != '/',
    decreases s.len(),
{
    if s.len() > 0 && s.last() != '/' {
        let t = s.drop_last();
        lemma_last_slash(t);
        assert forall|k: int| last_slash(s) < k < s.len() implies #[trigger] s[k] != '/' by {
            if k < t.len() {
                assert(t[k] == s[k]);
            }
        }
    }
}

/// A position is the last slash if it is one and no slash follows.
proof fn lemma_is_last_slash(s: Seq<char>, i: int)
    requires
        -1 <= i < s.len(),
        i >= 0 ==> s[i] == '/',
        forall|k: int| i < k < s.len() ==> #[trigger] s[k] != '/',
    ensures
        last_slash(s) == i,
{
    lemma_last_slash(s);
    let j = last_slash(s);
    if j < i {
        assert(s[i] != '/');
    }
    if i < j {
        assert(s[j] != '/');
    }
}

/// The last of the slash-separated parts of `s` that is a number.
pub fn find_last_number(s: &str) -> (r: Option<u32>)
    ensures
        r == last_number(s@),
{
    let chars = characters(s);
    let mut end: usize = chars.len();
    proof {
        assert(s@.take(end as int) =~= s@);
    }
    loop
        invariant
            chars@ == s@,
            end <= chars@.len(),
            last_number(s@) == last_number(s@.take(end as int)),
        decreases end,
    {
        let mut start: usize = end;
        while start > 0 && chars[start - 1] != '/'
            invariant
                chars@ == s@,
                start <= end <= chars@.len(),
                forall|k: int| start <= k < end ==> #[trigger] s@[k] != '/',
            decreases start,
        {
            start -= 1;
        }
        proof {
            let head = s@.take(end as int);
            assert forall|k: int| start - 1 < k < head.len() implies #[trigger] head[k] != '/' by {
                assert(head[k] == s@[k]);
            }
            lemma_is_last_slash(head, start - 1);
            assert(head.skip(start as int) =~= s@.subrange(start as int, end as int));
        }
        if let Ok(n) = parse_number(s.substring_char(start, end)) {
            return Some(n);
        }
        if start == 0 {
            return None;
        }
        proof {
            assert(s@.take(end as int).take(start - 1) =~= s@.take(start - 1));
        }
        end = start - 1;
    }
}

/// `s` in quotes, as `format!("{:?}", s)` writes it: the standard library's
/// `Debug` of `str`, which adds the quotes and escapes what needs it. Only
/// that the result is a function of the string is claimed.
#[verifier::external_body]
pub(crate) fn quoted(s: &str) -> (r: String)
    ensures
        r@ == quoted_text(s@),
{
    format!("{:?}", s)
}

/// Writes a list of texts in square brackets.
pub fn bracketed_text(items: &Vec<String>) -> (r: String)
    ensures
        r@ == bracketed(views(items@)),
{
    let mut r = "[".to_owned();
    let ghost all = views(items@);
    let mut i: usize = 0;
    proof {
        assert("["@ + listed(all.take(0)) =~= "["@);
    }
    while i < items.len()
        invariant
            all == views(items@),
            i <= items.len(),
            r@ == "["@ + listed(all.take(i as int)),
        decreases items.len() - i,
    {
        proof {
            assert(all.take(i + 1).drop_last() =~= all.take(i as int));
            assert(all.take(0) =~= Seq::<Seq<char>>::empty());
        }
        if i > 0 {
            r.append(", ");
        }
        r.append(items[i].as_str());
        proof {
            let next = listed(all.take(i + 1));
            assert(r@ =~= "["@ + next);
        }
        i += 1;
    }
    proof {
        assert(all.take(i as int) =~= all);
    }
    r.append("]");
    r
}

/// Writes a list of strings the way a debug print of the list shows it: each
/// string in quotes.
pub fn quoted_list(items: &Vec<String>) -> (r: String)
    ensures
        r@ == bracketed(views(items@).map_values(|s: Seq<char>| quoted_text(s))),
{
    let mut shown: Vec<String> = Vec::new();
    let mut i: usize = 0;
    while i < items.len()
        invariant
            i <= items.len(),
            shown.len() == i,
            forall|k: int| 0 <= k < i ==> (#[trigger] shown@[k])@ == quoted_text(items@[k]@),
        decreases items.len() - i,
    {
        shown.push(quoted(items[i].as_str()));
        i += 1;
    }
    proof {
        assert(views(shown@) =~= views(items@).map_values(|s: Seq<char>| quoted_text(s)));
    }
    bracketed_text(&shown)
}

/// Owned copies of the given words.
pub fn words(parts: &[&str]) -> (r: Vec<String>)
    ensures
        views(r@) == parts@.map_values(|p: &str| p@),
{
    let mut r: Vec<String> = Vec::new();
    let mut i: usize = 0;
    while i < parts.len()
        invariant
            i <= parts.len(),
            r.len() == i,
            forall|k: int| 0 <= k < i ==> (#[trigger] r@[k])@ == parts@[k]@,
        decreases parts.len() - i,
    {
        r.push(parts[i].to_owned());
        i += 1;
    }
    proof {
        assert(views(r@) =~= parts@.map_values(|p: &str| p@));
    }
    r
}

/// A number written in decimal reads back as itself.
pub proof fn decimal_reads_back(n: u32)
    ensures
        number(decimal(n as nat)) == Ok::<u32, NumberError>(n),
{
    lemma_decimal_digits(n as nat);
    let s = decimal(n as nat);
    assert('0' <= s.first() <= '9');
    assert(s != seq!['+']) by {
        assert(seq!['+'].first() == '+');
    }
}

proof fn lemma_decimal_digits(n: nat)
    requires
        n <= u32::MAX,
    ensures
        decimal(n).len() > 0,
        '0' <= decimal(n).first() <= '9',
        digits_value(decimal(n)) == Ok::<u32, NumberError>(n as u32),
    decreases n,
{
    let s = decimal(n);
    if n < 10 {
        assert(s.drop_last() =~= Seq::<char>::empty());
        assert(digits_value(s.drop_last()) == Ok::<u32, NumberError>(0));
    } else {
        lemma_decimal_digits(n / 10);
        assert(s.drop_last() =~= decimal(n / 10));
        assert(s.last() as int - 48 == n % 10);
        assert((n / 10) * 10 + n % 10 == n);
        assert(s.first() == decimal(n / 10).first());
    }
}

/// Every character of a decimal is a digit.
proof fn lemma_all_digits(n: nat)
    ensures
        decimal(n).len() > 0,
        forall|k: int| 0 <= k < decimal(n).len() ==> '0' <= #[trigger] decimal(n)[k] <= '9',
    decreases n,
{
    if n >= 10 {
        lemma_all_digits(n / 10);
    }
}

/// How much white space a text starts with.
proof fn lemma_leading_exists(s: Seq<char>) -> (i: int)
    ensures
        0 <= i <= s.len(),
        forall|k: int| 0 <= k < i ==> is_white(#[trigger] s[k]),
        i < s.len() ==> !is_white(s[i]),
    decreases s.len(),
{
    if s.len() > 0 && is_white(s[0]) {
        let rest = s.drop_first();
        let i = lemma_leading_exists(rest);
        assert forall|k: int| 0 <= k < i + 1 implies is_white(#[trigger] s[k]) by {
            if k > 0 {
                assert(rest[k - 1] == s[k]);
            }
        }
        if i + 1 < s.len() {
            assert(rest[i] == s[i + 1]);
        }
        i + 1
    } else {
        0
    }
}

/// A number is read from behind the last slash of a text, white space at its
/// end aside.
pub proof fn the_number_at_the_end_is_read(before: Seq<char>, n: u32, blank: Seq<char>)
    requires
        forall|k: int| 0 <= k < blank.len() ==> is_white(#[trigger] blank[k]),
    ensures
        last_number(trimmed(before + seq!['/'] + decimal(n as nat) + blank)) == Some(n),
{
    let d = decimal(n as nat);
    let s = before + seq!['/'] + d + blank;
    let slash = before.len() as int;
    lemma_all_digits(n as nat);
    assert(s[slash] == '/');
    let i = lemma_leading_exists(s);
    assert(i <= slash) by {
        if i > slash {
            assert(is_white(s[slash]));
        }
    }
    lemma_leading(s, i);
    let rest = s.skip(i);
    let end = slash + 1 + d.len() - i;
    assert forall|k: int| end <= k < rest.len() implies is_white(#[trigger] rest[k]) by {
        assert(rest[k] == blank[k + i - slash - 1 - d.len()]);
    }
    assert(rest[end - 1] == d[d.len() - 1]);
    lemma_trailing(rest, end);
    let core = rest.take(end);
    assert forall|k: int| slash - i < k < core.len() implies #[trigger] core[k] != '/' by {
        assert(core[k] == d[k + i - slash - 1]);
    }
    assert(core[slash - i] == '/');
    lemma_is_last_slash(core, slash - i);
    assert(core.skip(slash - i + 1) =~= d);
    decimal_reads_back(n);
}

/// The short form of a commit's name: its first seven bytes, where it has that
/// many.
pub open spec fn shortened(id: Seq<char>) -> Option<Seq<char>> {
    if encode_utf8(id).len() >= 7 {
        Some(decode_utf8(encode_utf8(id).subrange(0, 7)))
    } else {
        None
    }
}

/// Whether a commit's name can be cut after its seventh byte, where it is that
/// long. Every name in plain ASCII can.
pub open spec fn shortens(id: Seq<char>) -> bool {
    encode_utf8(id).len() >= 7 ==> is_char_boundary(encode_utf8(id), 7)
}

/// Decides [`shortens`].
pub fn can_shorten(id: &str) -> (r: bool)
    ensures
        r == shortens(id@),
{
    id.as_bytes().len() < 7 || id.is_char_boundary(7)
}

/// The short form of a commit's name: its first seven bytes, where it has that
/// many.
pub fn short_commit(id: &str) -> (r: Option<String>)
    requires
        shortens(id@),
    ensures
        r is Some <==> shortened(id@) is Some,
        r matches Some(short) ==> Some(short@) == shortened(id@),
{
    if id.as_bytes().len() >= 7 {
        let (short, _rest) = id.split_at(7);
        proof {
            encode_utf8_decode_utf8(short@);
        }
        Some(short.to_owned())
    } else {
        None
    }
}

/// The short form of a plain ASCII name is its first seven characters.
pub proof fn ascii_names_shorten(id: Seq<char>)
    requires
        is_ascii_chars(id),
    ensures
        shortens(id),
        shortened(id) == if id.len() >= 7 {
            Some(id.take(7))
        } else {
            None
        },
{
    is_ascii_chars_encode_utf8(id);
    if id.len() >= 7 {
        let head = id.take(7);
        assert(is_ascii_chars(head));
        is_ascii_chars_encode_utf8(head);
        assert(encode_utf8(id).subrange(0, 7) =~= encode_utf8(head));
        encode_utf8_decode_utf8(head);
        encode_utf8_valid_utf8(id);
        is_char_boundary_start_end_of_seq(encode_utf8(id));
        if id.len() > 7 {
            is_char_boundary_iff_not_is_continuation_byte(encode_utf8(id), 7);
        }
    }
}

/// The content of an optional string.
pub open spec fn optional(s: Option<String>) -> Option<Seq<char>> {
    match s {
        Some(text) => Some(text@),
        None => None,
    }
}

/// A copy of an optional string.
pub fn copied(s: &Option<String>) -> (r: Option<String>)
    ensures
        optional(r) == optional(*s),
{
    match s {
        Some(text) => Some(text.clone()),
        None => None,
    }
}

/// White space is what Unicode says it is.
pub proof fn white_space_by_its_numbers(c: char)
    ensures
        is_white(c) <==> {
            let n = c as u32;
            ||| n == 9 || n == 10 || n == 11 || n == 12 || n == 13 || n == 32
            ||| n == 0x85 || n == 0xa0 || n == 0x1680
            ||| 0x2000 <= n <= 0x200a
            ||| n == 0x2028 || n == 0x2029 || n == 0x202f || n == 0x205f || n == 0x3000
        },
{
}

/// Trimming takes away white space at the ends, all of it and nothing else: what
/// is left stands in the text from `i` to `j` and has no white space at its own
/// ends.
pub proof fn trimming_takes_white_space_alone(s: Seq<char>) -> (ends: (int, int))
    ensures
        ({
            let (i, j) = ends;
            &&& 0 <= i <= j <= s.len()
            &&& trimmed(s) == s.subrange(i, j)
            &&& forall|k: int| 0 <= k < i || j <= k < s.len() ==> is_white(#[trigger] s[k])
            &&& i < j ==> !is_white(s[i]) && !is_white(s[j - 1])
        }),
{
    let i = lemma_leading_exists(s);
    lemma_leading(s, i);
    let rest = s.skip(i);
    let j = lemma_trailing_exists(rest);
    lemma_trailing(rest, j);
    assert(rest.take(j) =~= s.subrange(i, i + j));
    assert forall|k: int| 0 <= k < i || i + j <= k < s.len() implies is_white(#[trigger] s[k]) by {
        if k >= i {
            assert(s[k] == rest[k - i]);
        }
    }
    if j > 0 {
        assert(rest[0] == s[i]);
        assert(rest[j - 1] == s[i + j - 1]);
    }
    (i, i + j)
}

/// Where the white space at the end of a text begins.
proof fn lemma_trailing_exists(s: Seq<char>) -> (j: int)
    ensures
        0 <= j <= s.len(),
        forall|k: int| j <= k < s.len() ==> is_white(#[trigger] s[k]),
        j > 0 ==> !is_white(s[j - 1]),
    decreases s.len(),
{
    if s.len() > 0 && is_white(s.last()) {
        let rest = s.drop_last();
        let j = lemma_trailing_exists(rest);
        assert forall|k: int| j <= k < s.len() implies is_white(#[trigger] s[k]) by {
            if k < rest.len() {
                assert(rest[k] == s[k]);
            }
        }
        if j > 0 {
            assert(rest[j - 1] == s[j - 1]);
        }
        j
    } else {
        s.len() as int
    }
}

/// Nothing is left of a text exactly if it is all white space.
pub proof fn what_is_blank_trims_to_nothing(s: Seq<char>)
    ensures
        trimmed(s).len() == 0 <==> forall|k: int| 0 <= k < s.len() ==> is_white(#[trigger] s[k]),
{
    let (i, j) = trimming_takes_white_space_alone(s);
    if i < j {
        assert(!is_white(s[i]));
    }
}

/// A text occurs in another exactly if that is the text with something before it
/// and something after it.
pub proof fn what_occurs_is_in_between(needle: Seq<char>, hay: Seq<char>)
    ensures
        occurs_in(needle, hay) <==> exists|before: Seq<char>, after: Seq<char>|
            hay == #[trigger] (before + needle + after),
{
    if occurs_in(needle, hay) {
        let i = choose|i: int| #[trigger] occurs_at(needle, hay, i);
        let before = hay.take(i);
        let after = hay.skip(i + needle.len());
        assert(hay =~= before + needle + after) by {
            assert forall|k: int| 0 <= k < needle.len() implies hay[i + k] == needle[k] by {
                assert(hay.subrange(i, i + needle.len())[k] == hay[i + k]);
            }
        }
    }
    if exists|before: Seq<char>, after: Seq<char>| hay == #[trigger] (before + needle + after) {
        let (before, after) = choose|before: Seq<char>, after: Seq<char>|
            hay == #[trigger] (before + needle + after);
        lemma_ends_with(before, needle);
        lemma_continues(needle, before + needle, after);
    }
}

/// A digit more makes a number ten times as large and adds the digit, as long as
/// it fits; anything else than a digit makes it no number. One digit is its own
/// value.
pub proof fn one_character_more(s: Seq<char>, c: char)
    ensures
        '0' <= c <= '9' ==> number(seq![c]) == Ok::<u32, NumberError>((c as int - 48) as u32),
        number(s) matches Ok(v) ==> number(s.push(c)) == if !('0' <= c <= '9') {
            Err::<u32, NumberError>(NumberError::InvalidDigit)
        } else if v * 10 + (c as int - 48) > u32::MAX {
            Err::<u32, NumberError>(NumberError::TooLarge)
        } else {
            Ok::<u32, NumberError>((v * 10 + (c as int - 48)) as u32)
        },
        s.len() > 0 && s != seq!['+'] ==> (number(s) matches Err(e) ==> number(s.push(c)) == Err::<
            u32,
            NumberError,
        >(e)),
{
    let more = s.push(c);
    assert(seq![c].drop_last() =~= Seq::<char>::empty());
    assert(digits_value(Seq::<char>::empty()) == Ok::<u32, NumberError>(0));
    assert('0' <= c <= '9' ==> seq![c] != seq!['+']) by {
        assert(seq![c][0] == c);
        assert(seq!['+'][0] == '+');
    }
    if s.len() > 0 {
        assert(more.first() == s.first());
        assert(more != seq!['+']) by {
            assert(more.len() != seq!['+'].len());
        }
        assert(more.drop_last() =~= s);
        assert(more.drop_first() =~= s.drop_first().push(c));
        assert(more.drop_first().drop_last() =~= s.drop_first());
    }
}

/// A plus sign before a number makes no difference; there is at most one.
pub proof fn a_plus_sign_makes_no_difference(s: Seq<char>)
    requires
        s.len() > 0,
    ensures
        s.first() != '+' ==> number(seq!['+'] + s) == number(s),
        s.first() == '+' ==> number(seq!['+'] + s) is Err,
        number(Seq::empty()) == Err::<u32, NumberError>(NumberError::Empty),
        number(seq!['+']) == Err::<u32, NumberError>(NumberError::InvalidDigit),
{
    let signed = seq!['+'] + s;
    assert(signed.drop_first() =~= s);
    assert(signed != seq!['+']) by {
        assert(signed.len() != seq!['+'].len());
    }
    if s.first() == '+' {
        lemma_first_fault(s, 1);
        assert(s.take(1).last() == '+');
        assert(s.take(1).drop_last() =~= Seq::<char>::empty());
        assert(digits_value(Seq::<char>::empty()) == Ok::<u32, NumberError>(0));
    }
}

/// What is written in decimal is written without leading zeros, and a further
/// digit stands for ten times the number and the digit.
pub proof fn decimals_are_written_digit_by_digit(n: nat, d: nat)
    requires
        d < 10,
    ensures
        decimal(d) == seq![(d + 48) as char],
        n > 0 ==> decimal(n * 10 + d) == decimal(n).push((d + 48) as char),
        n > 0 ==> decimal(n).first() != '0',
    decreases n,
{
    if n > 0 {
        assert((n * 10 + d) / 10 == n);
        assert((n * 10 + d) % 10 == d);
        if n >= 10 {
            decimals_are_written_digit_by_digit(n / 10, n % 10);
            assert((n / 10) * 10 + n % 10 == n);
            lemma_all_digits(n / 10);
            assert(decimal(n).first() == decimal(n / 10).first());
        }
    }
}

/// The part behind the last slash counts if it is a number; otherwise what comes
/// before that slash decides. Without a slash the whole text has to be a number.
pub proof fn the_last_part_that_is_a_number_counts(before: Seq<char>, part: Seq<char>)
    requires
        forall|k: int| 0 <= k < part.len() ==> #[trigger] part[k] != '/',
    ensures
        last_number(part) == match number(part) {
            Ok(n) => Some(n),
            Err(_) => None,
        },
        last_number(before + seq!['/'] + part) == match number(part) {
            Ok(n) => Some(n),
            Err(_) => last_number(before),
        },
{
    lemma_is_last_slash(part, -1);
    assert(part.skip(0) =~= part);
    let s = before + seq!['/'] + part;
    let slash = before.len() as int;
    assert(s[slash] == '/');
    assert forall|k: int| slash < k < s.len() implies #[trigger] s[k] != '/' by {
        assert(s[k] == part[k - slash - 1]);
    }
    lemma_is_last_slash(s, slash);
    assert(s.skip(slash + 1) =~= part);
    assert(s.take(slash) =~= before);
}

/// A list is written with a comma and a space between neighbours, in brackets.
pub proof fn one_item_more(items: Seq<Seq<char>>, item: Seq<char>)
    ensures
        listed(seq![item]) == item,
        items.len() > 0 ==> listed(items.push(item)) == listed(items) + ", "@ + item,
        bracketed(items) == "["@ + listed(items) + "]"@,
        listed(Seq::empty()).len() == 0,
{
    assert(items.push(item).drop_last() =~= items);
}

/// An optional text is there exactly if the string is, and is its content.
pub proof fn an_optional_text_is_the_strings(s: Option<String>)
    ensures
        s matches Some(text) ==> optional(s) == Some(text@),
        s is None ==> optional(s) is None,
{
}

/// A text occurs between what comes before it and what comes after it.
pub proof fn lemma_between(before: Seq<char>, needle: Seq<char>, after: Seq<char>)
    ensures
        occurs_in(needle, before + needle + after),
{
    lemma_ends_with(before, needle);
    lemma_continues(needle, before + needle, after);
}

/// The end of one text, another, and the beginning of a third occur where the
/// three stand together.
pub proof fn lemma_spans(
    before: Seq<char>,
    left: Seq<char>,
    middle: Seq<char>,
    right: Seq<char>,
    after: Seq<char>,
    m: int,
    n: int,
)
    requires
        0 <= m <= left.len(),
        0 <= n <= right.len(),
    ensures
        occurs_in(
            left.skip(left.len() - m) + middle + right.take(n),
            before + left + middle + right + after,
        ),
{
    let needle = left.skip(left.len() - m) + middle + right.take(n);
    let first = before + left.take(left.len() - m);
    let last = right.skip(n) + after;
    assert(before + left + middle + right + after =~= first + needle + last);
    lemma_between(first, needle, last);
}

} // verus!
