//! Text helpers with exact contracts: character access, trimming, integer
//! parsing as `str::parse` does it, decimal rendering, and substring search.

use vstd::prelude::*;

verus! {

/// The characters of a string slice, in order.
pub fn chars_of(s: &str) -> (v: Vec<char>)
    ensures
        v@ == s@,
{
    let mut v: Vec<char> = Vec::new();
    for c in it: s.chars()
        invariant
            v@ == it.seq().take(it.index() as int),
            it.seq() == s@,
    {
        v.push(c);
    }
    v
}

/// The string holding exactly these characters: `Iterator::collect` into a
/// `String`, claimed to keep the characters and their order.
#[verifier::external_body]
pub(crate) fn string_from_chars(v: &[char]) -> (s: String)
    ensures
        s@ == v@,
{
    v.iter().collect()
}

/// An owned copy of a string slice.
pub fn owned(s: &str) -> (r: String)
    ensures
        r@ == s@,
{
    s.to_owned()
}

/// Two strings hold the same characters.
pub fn same_text(a: &str, b: &str) -> (r: bool)
    ensures
        r == (a@ == b@),
{
    let x = chars_of(a);
    let y = chars_of(b);
    if x.len() != y.len() {
        return false;
    }
    let mut i: usize = 0;
    while i < x.len()
        invariant
            x@ == a@,
            y@ == b@,
            x.len() == y.len(),
            i <= x.len(),
            forall|k: int| 0 <= k < i ==> x@[k] == y@[k],
        decreases x.len() - i,
    {
        if x[i] != y[i] {
            return false;
        }
        i = i + 1;
    }
    assert(x@ =~= y@);
    true
}

/// Unicode `White_Space`, the set that `char::is_whitespace` tests.
pub open spec fn is_white(c: char) -> bool {
    ||| ('\u{9}' <= c && c <= '\u{d}')
    ||| c == ' '
    ||| c == '\u{85}'
    ||| c == '\u{a0}'
    ||| c == '\u{1680}'
    ||| ('\u{2000}' <= c && c <= '\u{200a}')
    ||| c == '\u{2028}'
    ||| c == '\u{2029}'
    ||| c == '\u{202f}'
    ||| c == '\u{205f}'
    ||| c == '\u{3000}'
}

pub fn is_whitespace(c: char) -> (r: bool)
    ensures
        r == is_white(c),
{
    ('\u{9}' <= c && c <= '\u{d}') || c == ' ' || c == '\u{85}' || c == '\u{a0}' || c == '\u{1680}'
        || ('\u{2000}' <= c && c <= '\u{200a}') || c == '\u{2028}' || c == '\u{2029}' || c
        == '\u{202f}' || c == '\u{205f}' || c == '\u{3000}'
}

/// `s` without leading whitespace.
pub open spec fn spec_trim_start(s: Seq<char>) -> Seq<char>
    decreases s.len(),
{
    if s.len() > 0 && is_white(s[0]) {
        spec_trim_start(s.drop_first())
    } else {
        s
    }
}

/// `s` without trailing whitespace.
pub open spec fn spec_trim_end(s: Seq<char>) -> Seq<char>
    decreases s.len(),
{
    if s.len() > 0 && is_white(s.last()) {
        spec_trim_end(s.drop_last())
    } else {
        s
    }
}

/// `s` without leading and trailing whitespace, as `str::trim` gives it.
pub open spec fn spec_trim(s: Seq<char>) -> Seq<char> {
    spec_trim_end(spec_trim_start(s))
}

/// The characters of `s` without leading and trailing whitespace.
pub fn trim_chars(s: &str) -> (t: Vec<char>)
    ensures
        t@ == spec_trim(s@),
{
    let v = chars_of(s);
    let n = v.len();
    let mut i: usize = 0;
    assert(s@.subrange(0, n as int) =~= s@);
    while i < n && is_whitespace(v[i])
        invariant
            v@ == s@,
            n == v.len(),
            i <= n,
            spec_trim_start(s@) == spec_trim_start(s@.subrange(i as int, n as int)),
        decreases n - i,
    {
        assert(s@.subrange(i as int, n as int).drop_first() =~= s@.subrange(i + 1, n as int));
        i = i + 1;
    }
    assert(spec_trim_start(s@) == s@.subrange(i as int, n as int));
    let mut j: usize = n;
    while j > i && is_whitespace(v[j - 1])
        invariant
            v@ == s@,
            n == v.len(),
            i <= j <= n,
            spec_trim(s@) == spec_trim_end(s@.subrange(i as int, j as int)),
        decreases j,
    {
        assert(s@.subrange(i as int, j as int).drop_last() =~= s@.subrange(i as int, j - 1));
        j = j - 1;
    }
    let mut t: Vec<char> = Vec::new();
    let mut k: usize = i;
    while k < j
        invariant
            v@ == s@,
            n == v.len(),
            i <= k <= j <= n,
            t@ == s@.subrange(i as int, k as int),
        decreases j - k,
    {
        t.push(v[k]);
        assert(t@ =~= s@.subrange(i as int, k + 1));
        k = k + 1;
    }
    t
}

/// `str::trim` as an owned string.
pub fn trim(s: &str) -> (t: String)
    ensures
        t@ == spec_trim(s@),
{
    let v = trim_chars(s);
    string_from_chars(v.as_slice())
}

pub open spec fn is_digit(c: char) -> bool {
    '0' <= c && c <= '9'
}

pub open spec fn all_digits(s: Seq<char>) -> bool {
    forall|i: int| 0 <= i < s.len() ==> is_digit(#[trigger] s[i])
}

/// The value of a string of decimal digits.
pub open spec fn digits_value(s: Seq<char>) -> int
    decreases s.len(),
{
    if s.len() == 0 {
        0
    } else {
        digits_value(s.drop_last()) * 10 + (s.last() as int - '0' as int)
    }
}

/// What `str::parse` gives for a signed integer type, before the range check.
pub open spec fn spec_parse_signed(s: Seq<char>) -> Option<int> {
    if s.len() == 0 {
        None
    } else if (s[0] == '+' || s[0] == '-') && s.len() == 1 {
        None
    } else if s[0] == '-' {
        if all_digits(s.drop_first()) {
            Some(-digits_value(s.drop_first()))
        } else {
            None
        }
    } else if s[0] == '+' {
        if all_digits(s.drop_first()) {
            Some(digits_value(s.drop_first()))
        } else {
            None
        }
    } else if all_digits(s) {
        Some(digits_value(s))
    } else {
        None
    }
}

/// What `str::parse` gives for an unsigned integer type, before the range check.
pub open spec fn spec_parse_unsigned(s: Seq<char>) -> Option<int> {
    if s.len() == 0 {
        None
    } else if s[0] == '+' {
        if s.len() > 1 && all_digits(s.drop_first()) {
            Some(digits_value(s.drop_first()))
        } else {
            None
        }
    } else if all_digits(s) {
        Some(digits_value(s))
    } else {
        None
    }
}

/// Magnitudes at or above this are reported as this.
pub const PARSE_CAP: i128 = 0x1_0000_0000_0000_0000;

pub open spec fn cap(v: int) -> int {
    if v > PARSE_CAP {
        PARSE_CAP as int
    } else if v < -PARSE_CAP {
        -PARSE_CAP
    } else {
        v
    }
}

proof fn lemma_digits_value_nonneg(s: Seq<char>)
    requires
        all_digits(s),
    ensures
        digits_value(s) >= 0,
    decreases s.len(),
{
    if s.len() > 0 {
        assert(all_digits(s.drop_last()));
        lemma_digits_value_nonneg(s.drop_last());
        assert(is_digit(s[s.len() - 1]));
    }
}

/// The value of a run of digits, capped at `PARSE_CAP`; `None` if a
/// character is not a digit.
fn digits_capped(v: &Vec<char>, start: usize) -> (r: Option<i128>)
    requires
        start <= v.len(),
    ensures
        r is Some <==> all_digits(v@.subrange(start as int, v.len() as int)),
        r matches Some(x) ==> x == cap(digits_value(v@.subrange(start as int, v.len() as int))),
{
    let mut value: i128 = 0;
    let mut k: usize = start;
    while k < v.len()
        invariant
            start <= k <= v.len(),
            all_digits(v@.subrange(start as int, k as int)),
            0 <= value <= PARSE_CAP,
            value == cap(digits_value(v@.subrange(start as int, k as int))),
        decreases v.len() - k,
    {
        let c = v[k];
        if !('0' <= c && c <= '9') {
            assert(!all_digits(v@.subrange(start as int, v.len() as int))) by {
                assert(v@.subrange(start as int, v.len() as int)[k - start] == c);
            }
            return None;
        }
        let d = (c as u32 - '0' as u32) as i128;
        let ghost pre = v@.subrange(start as int, k as int);
        let ghost next = v@.subrange(start as int, k + 1);
        assert(next.drop_last() =~= pre);
        assert(next.last() == c);
        proof {
            lemma_digits_value_nonneg(pre);
        }
        assert(digits_value(next) == digits_value(pre) * 10 + d);
        let step = value * 10 + d;
        value = if step > PARSE_CAP {
            PARSE_CAP
        } else {
            step
        };
        assert(all_digits(next)) by {
            assert forall|i: int| 0 <= i < next.len() implies is_digit(#[trigger] next[i]) by {
                if i < pre.len() {
                    assert(next[i] == pre[i]);
                }
            }
        }
        k = k + 1;
    }
    Some(value)
}

/// The parsed value of `s` as a signed integer, capped at `PARSE_CAP` in magnitude.
fn parse_signed_capped(s: &str) -> (r: Option<i128>)
    ensures
        r is Some <==> spec_parse_signed(s@) is Some,
        r matches Some(x) ==> x == cap(spec_parse_signed(s@)->0),
{
    let v = chars_of(s);
    if v.len() == 0 {
        return None;
    }
    let first = v[0];
    if (first == '+' || first == '-') && v.len() == 1 {
        return None;
    }
    if first == '-' || first == '+' {
        assert(v@.subrange(1, v.len() as int) =~= s@.drop_first());
        match digits_capped(&v, 1) {
            Some(m) => {
                proof {
                    lemma_digits_value_nonneg(s@.drop_first());
                }
                if first == '-' {
                    Some(-m)
                } else {
                    Some(m)
                }
            },
            None => None,
        }
    } else {
        assert(v@.subrange(0, v.len() as int) =~= s@);
        digits_capped(&v, 0)
    }
}

/// The parsed value of `s` as an unsigned integer, capped at `PARSE_CAP`.
fn parse_unsigned_capped(s: &str) -> (r: Option<i128>)
    ensures
        r is Some <==> spec_parse_unsigned(s@) is Some,
        r matches Some(x) ==> x == cap(spec_parse_unsigned(s@)->0),
{
    let v = chars_of(s);
    if v.len() == 0 {
        return None;
    }
    if v[0] == '+' {
        if v.len() == 1 {
            return None;
        }
        assert(v@.subrange(1, v.len() as int) =~= s@.drop_first());
        digits_capped(&v, 1)
    } else {
        assert(v@.subrange(0, v.len() as int) =~= s@);
        digits_capped(&v, 0)
    }
}

/// `s.parse::<i64>().ok()`.
pub fn parse_i64(s: &str) -> (r: Option<i64>)
    ensures
        r is Some <==> (spec_parse_signed(s@) is Some && i64::MIN <= spec_parse_signed(s@)->0
            <= i64::MAX),
        r matches Some(x) ==> x == spec_parse_signed(s@)->0,
{
    match parse_signed_capped(s) {
        Some(x) => {
            if x >= i64::MIN as i128 && x <= i64::MAX as i128 {
                Some(x as i64)
            } else {
                None
            }
        },
        None => None,
    }
}

/// `s.parse::<u64>().ok()`.
pub fn parse_u64(s: &str) -> (r: Option<u64>)
    ensures
        r is Some <==> (spec_parse_unsigned(s@) is Some && spec_parse_unsigned(s@)->0
            <= u64::MAX),
        r matches Some(x) ==> x == spec_parse_unsigned(s@)->0,
{
    match parse_unsigned_capped(s) {
        Some(x) => {
            proof {
                lemma_digits_value_nonneg(
                    if s@.len() > 0 && s@[0] == '+' {
                        s@.drop_first()
                    } else {
                        s@
                    },
                );
            }
            if x <= u64::MAX as i128 {
                Some(x as u64)
            } else {
                None
            }
        },
        None => None,
    }
}

/// `s.parse::<u16>().ok()`.
pub fn parse_u16(s: &str) -> (r: Option<u16>)
    ensures
        r is Some <==> (spec_parse_unsigned(s@) is Some && spec_parse_unsigned(s@)->0
            <= u16::MAX),
        r matches Some(x) ==> x == spec_parse_unsigned(s@)->0,
{
    match parse_u64(s) {
        Some(x) => {
            if x <= u16::MAX as u64 {
                Some(x as u16)
            } else {
                None
            }
        },
        None => None,
    }
}

/// `s.parse::<usize>().ok()`.
pub fn parse_usize(s: &str) -> (r: Option<usize>)
    ensures
        r is Some <==> (spec_parse_unsigned(s@) is Some && spec_parse_unsigned(s@)->0
            <= usize::MAX),
        r matches Some(x) ==> x == spec_parse_unsigned(s@)->0,
{
    match parse_u64(s) {
        Some(x) => {
            if x as u128 <= usize::MAX as u128 {
                Some(x as usize)
            } else {
                None
            }
        },
        None => None,
    }
}

/// An optional integer kept as text: blank text is no value, and text that
/// does not parse as an `i64` is no value either.
pub open spec fn spec_optional_i64(s: Seq<char>) -> Option<i64> {
    if spec_trim(s).len() == 0 {
        None
    } else {
        match spec_parse_signed(s) {
            Some(v) => if i64::MIN <= v <= i64::MAX {
                Some(v as i64)
            } else {
                None
            },
            None => None,
        }
    }
}

/// Reads an optional integer stored as text; blank or malformed text is `None`.
pub fn optional_i64(value: String) -> (r: Option<i64>)
    ensures
        r == spec_optional_i64(value@),
{
    let t = trim_chars(value.as_str());
    if t.len() == 0 {
        None
    } else {
        parse_i64(value.as_str())
    }
}

/// The message of an error, as its `Display` renders it.
pub fn to_string<E: std::fmt::Display>(error: E) -> (message: String)
    ensures
        vstd::string::to_string_from_display_ensures::<E>(&error, message),
{
    error.to_string()
}

/// The character of a decimal digit.
pub open spec fn digit_char(d: int) -> char {
    (d + 48) as char
}

/// Decimal digits of a natural number, most significant first.
pub open spec fn spec_digits(n: nat) -> Seq<char>
    decreases n,
{
    if n < 10 {
        seq![digit_char(n as int)]
    } else {
        spec_digits(n / 10).push(digit_char((n % 10) as int))
    }
}

/// An integer as `Display` renders it: a minus sign for negatives, then the digits.
pub open spec fn spec_decimal(n: int) -> Seq<char> {
    if n < 0 {
        seq!['-'] + spec_digits((-n) as nat)
    } else {
        spec_digits(n as nat)
    }
}

fn push_digits(n: u64, out: &mut Vec<char>)
    ensures
        final(out)@ == old(out)@ + spec_digits(n as nat),
    decreases n,
{
    if n >= 10 {
        push_digits(n / 10, out);
    }
    let d = (n % 10) as u8;
    let c = (d + 48) as char;
    let ghost before = out@;
    out.push(c);
    proof {
        if n >= 10 {
            assert(out@ =~= old(out)@ + spec_digits(n as nat));
        } else {
            assert(out@ =~= old(out)@ + spec_digits(n as nat));
        }
    }
}

/// The decimal rendering of an integer, as characters.
pub fn decimal_chars(n: i64) -> (v: Vec<char>)
    ensures
        v@ == spec_decimal(n as int),
{
    let mut v: Vec<char> = Vec::new();
    if n < 0 {
        v.push('-');
        let m: u64 = if n == i64::MIN {
            0x8000_0000_0000_0000u64
        } else {
            (-n) as u64
        };
        push_digits(m, &mut v);
        assert(v@ =~= spec_decimal(n as int));
    } else {
        push_digits(n as u64, &mut v);
        assert(v@ =~= spec_decimal(n as int));
    }
    v
}

/// `hay` holds `pat` as a contiguous run.
pub open spec fn spec_contains(hay: Seq<char>, pat: Seq<char>) -> bool {
    exists|i: int| 0 <= i && i + pat.len() <= hay.len() && #[trigger] hay.subrange(i, i + pat.len()) == pat
}

/// Substring search, as `str::contains` with a string pattern does it.
pub fn contains_chars(hay: &Vec<char>, pat: &Vec<char>) -> (r: bool)
    ensures
        r == spec_contains(hay@, pat@),
{
    if pat.len() > hay.len() {
        return false;
    }
    let last = hay.len() - pat.len();
    let mut i: usize = 0;
    while i <= last
        invariant
            last == hay.len() - pat.len(),
            pat.len() <= hay.len(),
            i <= last + 1,
            forall|k: int| 0 <= k < i ==> #[trigger] hay@.subrange(k, k + pat.len()) != pat@,
        decreases last + 1 - i,
    {
        let mut j: usize = 0;
        let mut same = true;
        while j < pat.len()
            invariant
                i <= last,
                last == hay.len() - pat.len(),
                j <= pat.len(),
                same == (forall|k: int| 0 <= k < j ==> hay@[i + k] == pat@[k]),
            decreases pat.len() - j,
        {
            if hay[i + j] != pat[j] {
                same = false;
            }
            j = j + 1;
        }
        if same {
            assert(hay@.subrange(i as int, i + pat.len()) =~= pat@);
            return true;
        }
        proof {
            if hay@.subrange(i as int, i + pat.len()) == pat@ {
                assert forall|k: int| 0 <= k < pat.len() implies hay@[i + k] == pat@[k] by {
                    assert(hay@.subrange(i as int, i + pat.len())[k] == pat@[k]);
                }
            }
        }
        i = i + 1;
    }
    proof {
        if spec_contains(hay@, pat@) {
            let w = choose|w: int| 0 <= w && w + pat.len() <= hay.len() && #[trigger] hay@.subrange(w, w + pat.len()) == pat@;
            assert(w < i);
        }
    }
    false
}

/// Lower-case form of a string as `str::to_lowercase` gives it (full Unicode mapping).
pub uninterp spec fn spec_lowercase(s: Seq<char>) -> Seq<char>;

/// Calls `str::to_lowercase`; the result is named, not spelled out.
#[verifier::external_body]
pub(crate) fn to_lowercase(s: &str) -> (r: String)
    ensures
        r@ == spec_lowercase(s@),
{
    s.to_lowercase()
}

/// Appends the characters of `s`.
pub fn push_str(v: &mut Vec<char>, s: &str)
    ensures
        final(v)@ == old(v)@ + s@,
{
    let c = chars_of(s);
    let mut i: usize = 0;
    while i < c.len()
        invariant
            c@ == s@,
            i <= c.len(),
            v@ == old(v)@ + s@.take(i as int),
        decreases c.len() - i,
    {
        v.push(c[i]);
        assert(s@.take(i + 1) =~= s@.take(i as int).push(c@[i as int]));
        i = i + 1;
    }
    assert(s@.take(c.len() as int) =~= s@);
}

/// Appends the decimal rendering of `n`.
pub fn push_decimal(v: &mut Vec<char>, n: i64)
    ensures
        final(v)@ == old(v)@ + spec_decimal(n as int),
{
    let d = decimal_chars(n);
    let mut i: usize = 0;
    while i < d.len()
        invariant
            d@ == spec_decimal(n as int),
            i <= d.len(),
            v@ == old(v)@ + d@.take(i as int),
        decreases d.len() - i,
    {
        v.push(d[i]);
        assert(d@.take(i + 1) =~= d@.take(i as int).push(d@[i as int]));
        i = i + 1;
    }
    assert(d@.take(d.len() as int) =~= d@);
}

/// Appends the decimal rendering of an unsigned integer.
pub fn push_unsigned(v: &mut Vec<char>, n: u64)
    ensures
        final(v)@ == old(v)@ + spec_decimal(n as int),
{
    push_digits(n, v);
}

/// The views of some strings.
pub open spec fn string_views(items: Seq<String>) -> Seq<Seq<char>> {
    items.map_values(|x: String| x@)
}

/// The items with `sep` between each two, as `[..].join(sep)` gives them.
pub open spec fn spec_join(items: Seq<Seq<char>>, sep: Seq<char>) -> Seq<char>
    decreases items.len(),
{
    if items.len() == 0 {
        Seq::empty()
    } else if items.len() == 1 {
        items[0]
    } else {
        spec_join(items.drop_last(), sep) + sep + items.last()
    }
}

/// Joins strings with a separator.
pub fn join(items: &Vec<String>, sep: &str) -> (r: String)
    ensures
        r@ == spec_join(string_views(items@), sep@),
{
    let ghost lv = string_views(items@);
    let mut v: Vec<char> = Vec::new();
    let mut i: usize = 0;
    while i < items.len()
        invariant
            i <= items.len(),
            lv == string_views(items@),
            v@ == spec_join(lv.take(i as int), sep@),
        decreases items.len() - i,
    {
        assert(lv.take(i + 1).drop_last() =~= lv.take(i as int));
        assert(lv.take(i + 1).last() == items@[i as int]@);
        if i > 0 {
            push_str(&mut v, sep);
        }
        push_str(&mut v, items[i].as_str());
        proof {
            if i == 0 {
                assert(v@ =~= spec_join(lv.take(1), sep@));
            } else {
                assert(v@ =~= spec_join(lv.take(i + 1), sep@));
            }
        }
        i = i + 1;
    }
    assert(lv.take(items.len() as int) =~= lv);
    string_from_chars(v.as_slice())
}

/// `s` cut at every `sep`, as `str::split` with a character does it.
pub open spec fn spec_split(s: Seq<char>, sep: char) -> Seq<Seq<char>>
    decreases s.len(),
{
    if s.len() == 0 {
        seq![Seq::<char>::empty()]
    } else {
        let p = spec_split(s.drop_last(), sep);
        if s.last() == sep {
            p.push(Seq::<char>::empty())
        } else {
            p.update(p.len() - 1, p.last().push(s.last()))
        }
    }
}

pub proof fn lemma_split_nonempty(s: Seq<char>, sep: char)
    ensures
        spec_split(s, sep).len() >= 1,
    decreases s.len(),
{
    if s.len() > 0 {
        lemma_split_nonempty(s.drop_last(), sep);
    }
}

/// The pieces of `s` between the separators.
pub fn split_chars(s: &Vec<char>, sep: char) -> (r: Vec<Vec<char>>)
    ensures
        r@.len() == spec_split(s@, sep).len(),
        forall|i: int| 0 <= i < r@.len() ==> (#[trigger] r@[i])@ == spec_split(s@, sep)[i],
{
    let mut pieces: Vec<Vec<char>> = Vec::new();
    let mut cur: Vec<char> = Vec::new();
    let mut i: usize = 0;
    while i < s.len()
        invariant
            i <= s.len(),
            pieces@.len() + 1 == spec_split(s@.take(i as int), sep).len(),
            forall|k: int| 0 <= k < pieces@.len() ==> (#[trigger] pieces@[k])@ == spec_split(s@.take(i as int), sep)[k],
            cur@ == spec_split(s@.take(i as int), sep).last(),
        decreases s.len() - i,
    {
        proof {
            lemma_split_nonempty(s@.take(i as int), sep);
        }
        assert(s@.take(i + 1).drop_last() =~= s@.take(i as int));
        if s[i] == sep {
            let done = cur;
            pieces.push(done);
            cur = Vec::new();
        } else {
            cur.push(s[i]);
        }
        i = i + 1;
    }
    assert(s@.take(s.len() as int) =~= s@);
    proof {
        lemma_split_nonempty(s@, sep);
    }
    pieces.push(cur);
    pieces
}

/// `text.parse::<i64>().unwrap_or(default)`.
pub open spec fn spec_i64_or(text: Seq<char>, default: i64) -> i64 {
    match spec_parse_signed(text) {
        Some(x) => if i64::MIN <= x <= i64::MAX {
            x as i64
        } else {
            default
        },
        None => default,
    }
}

/// `text.parse::<u64>().unwrap_or(default)`.
pub open spec fn spec_u64_or(text: Seq<char>, default: u64) -> u64 {
    match spec_parse_unsigned(text) {
        Some(x) => if x <= u64::MAX {
            x as u64
        } else {
            default
        },
        None => default,
    }
}

/// Reads an integer setting, falling back to `default`.
pub fn parse_i64_or(text: &str, default: i64) -> (r: i64)
    ensures
        r == spec_i64_or(text@, default),
{
    match parse_i64(text) {
        Some(x) => x,
        None => default,
    }
}

/// Reads an unsigned setting, falling back to `default`.
pub fn parse_u64_or(text: &str, default: u64) -> (r: u64)
    ensures
        r == spec_u64_or(text@, default),
{
    match parse_u64(text) {
        Some(x) => x,
        None => default,
    }
}

/// The words of a text, as `str::split_whitespace` gives them.
pub open spec fn spec_words(s: Seq<char>) -> Seq<Seq<char>>
    decreases s.len(),
{
    if s.len() == 0 {
        Seq::empty()
    } else {
        let w = spec_words(s.drop_last());
        let c = s.last();
        if is_white(c) {
            w
        } else if s.len() >= 2 && !is_white(s[s.len() - 2]) {
            w.update(w.len() - 1, w.last().push(c))
        } else {
            w.push(seq![c])
        }
    }
}

pub open spec fn words_view(v: Seq<Vec<char>>) -> Seq<Seq<char>> {
    v.map_values(|w: Vec<char>| w@)
}

pub fn words_of(s: &Vec<char>) -> (r: Vec<Vec<char>>)
    ensures
        words_view(r@) == spec_words(s@),
{
    let mut out: Vec<Vec<char>> = Vec::new();
    let mut cur: Vec<char> = Vec::new();
    let mut in_word = false;
    let mut i: usize = 0;
    while i < s.len()
        invariant
            i <= s.len(),
            in_word == (i > 0 && !is_white(s@[i - 1])),
            in_word ==> words_view(out@).push(cur@) == spec_words(s@.take(i as int)),
            !in_word ==> words_view(out@) == spec_words(s@.take(i as int)),
        decreases s.len() - i,
    {
        let c = s[i];
        let ghost t = s@.take(i + 1);
        assert(t.drop_last() =~= s@.take(i as int));
        assert(t.last() == c);
        if i >= 1 {
            assert(t[t.len() - 2] == s@[i - 1]);
        }
        if is_whitespace(c) {
            if in_word {
                let done = cur;
                out.push(done);
                cur = Vec::new();
                assert(words_view(out@) =~= words_view(out@.drop_last()).push(done@));
                in_word = false;
            }
        } else if in_word {
            let ghost before = words_view(out@).push(cur@);
            cur.push(c);
            assert(words_view(out@).push(cur@) =~= before.update(before.len() - 1, before.last().push(c)));
        } else {
            cur = Vec::new();
            cur.push(c);
            assert(cur@ =~= seq![c]);
            in_word = true;
        }
        i = i + 1;
    }
    assert(s@.take(s.len() as int) =~= s@);
    if in_word {
        let ghost before = out@;
        out.push(cur);
        assert(words_view(out@) =~= words_view(before).push(out@.last()@));
    }
    out
}

} // verus!
