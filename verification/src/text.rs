//! Character-level text operations over `&str` and `String`, each stated
//! over the `Seq<char>` view of its arguments.
use vstd::prelude::*;
use vstd::std_specs::iter::IteratorSpec;

verus! {

broadcast use vstd::string::group_string_axioms;

/// The views of a sequence of strings.
pub open spec fn views(v: Seq<String>) -> Seq<Seq<char>> {
    v.map_values(|s: String| s@)
}

/// `s` split at every occurrence of `c`; as `str::split` with a char
/// pattern, always at least one (possibly empty) piece.
pub open spec fn split_on(s: Seq<char>, c: char) -> Seq<Seq<char>>
    decreases s.len(),
{
    if s.len() == 0 {
        seq![Seq::<char>::empty()]
    } else {
        let rest = split_on(s.drop_first(), c);
        if s[0] == c {
            seq![Seq::<char>::empty()] + rest
        } else {
            rest.update(0, seq![s[0]] + rest[0])
        }
    }
}

/// `c` occurs nowhere in `s`.
pub open spec fn lacks(s: Seq<char>, c: char) -> bool {
    forall|i: int| 0 <= i < s.len() ==> s[i] != c
}

pub proof fn lemma_split_on_len(s: Seq<char>, c: char)
    ensures
        split_on(s, c).len() >= 1,
    decreases s.len(),
{
    if s.len() > 0 {
        lemma_split_on_len(s.drop_first(), c);
    }
}

/// Splitting a text without the separator gives the text itself.
pub proof fn lemma_split_on_none(s: Seq<char>, c: char)
    requires
        lacks(s, c),
    ensures
        split_on(s, c) == seq![s],
    decreases s.len(),
{
    if s.len() > 0 {
        lemma_split_on_none(s.drop_first(), c);
        assert(seq![s[0]] + s.drop_first() =~= s);
        assert(split_on(s, c) =~= seq![s]);
    } else {
        assert(s =~= Seq::<char>::empty());
    }
}

/// The first piece runs up to the first separator.
pub proof fn lemma_split_on_first(s: Seq<char>, c: char, k: int)
    requires
        0 <= k < s.len(),
        lacks(s.take(k), c),
        s[k] == c,
    ensures
        split_on(s, c) == seq![s.take(k)] + split_on(s.skip(k + 1), c),
    decreases k,
{
    if k == 0 {
        assert(s.drop_first() =~= s.skip(1));
        assert(s.take(0) =~= Seq::<char>::empty());
    } else {
        let t = s.drop_first();
        assert(t.take(k - 1) =~= s.take(k).drop_first());
        assert forall|i: int| 0 <= i < k - 1 implies #[trigger] t.take(k - 1)[i] != c by {
            assert(t.take(k - 1)[i] == s.take(k)[i + 1]);
        }
        lemma_split_on_first(t, c, k - 1);
        assert(t.skip(k) =~= s.skip(k + 1));
        assert(s.take(k)[0] == s[0]);
        assert(seq![s[0]] + t.take(k - 1) =~= s.take(k));
        lemma_split_on_len(s.skip(k + 1), c);
        assert(split_on(s, c) =~= seq![s.take(k)] + split_on(s.skip(k + 1), c));
    }
}

/// `String::push`. Claimed of it: the text afterwards is the text before
/// with `c` appended.
#[verifier::external_body]
pub(crate) fn push_char(s: &mut String, c: char)
    ensures
        final(s)@ == old(s)@.push(c),
{
    s.push(c);
}

/// The characters of `s`, in order.
pub fn chars_of(s: &str) -> (v: Vec<char>)
    ensures
        v@ == s@,
{
    let mut v: Vec<char> = Vec::new();
    let mut it = s.chars();
    loop
        invariant
            v@ + it.remaining() == s@,
            it.decrease() is Some,
        decreases it.decrease()->0,
    {
        match it.next() {
            Some(c) => {
                v.push(c);
            },
            None => {
                return v;
            },
        }
    }
}

/// The characters `v[lo..hi]` as a `String`.
pub fn string_of(v: &Vec<char>, lo: usize, hi: usize) -> (r: String)
    requires
        lo <= hi <= v@.len(),
    ensures
        r@ == v@.subrange(lo as int, hi as int),
{
    let mut r = String::new();
    let mut i = lo;
    while i < hi
        invariant
            lo <= i <= hi <= v@.len(),
            r@ == v@.subrange(lo as int, i as int),
        decreases hi - i,
    {
        push_char(&mut r, v[i]);
        i = i + 1;
        assert(r@ =~= v@.subrange(lo as int, i as int));
    }
    r
}

/// `str::split` with a char separator.
pub fn split_chars(v: &Vec<char>, c: char) -> (parts: Vec<String>)
    ensures
        views(parts@) == split_on(v@, c),
{
    let mut parts: Vec<String> = Vec::new();
    let mut start: usize = 0;
    let mut i: usize = 0;
    assert(v@.skip(0) =~= v@);
    assert(views(parts@) =~= Seq::<Seq<char>>::empty());
    assert(views(parts@) + split_on(v@, c) =~= split_on(v@, c));
    while i < v.len()
        invariant
            start <= i <= v@.len(),
            views(parts@) + split_on(v@.skip(start as int), c) == split_on(v@, c),
            lacks(v@.subrange(start as int, i as int), c),
        decreases v@.len() - i,
    {
        if v[i] == c {
            let piece = string_of(v, start, i);
            proof {
                let t = v@.skip(start as int);
                assert(t.take(i - start) =~= v@.subrange(start as int, i as int));
                assert(t.skip(i - start + 1) =~= v@.skip(i + 1));
                lemma_split_on_first(t, c, i - start);
            }
            let ghost before = parts@;
            parts.push(piece);
            assert(views(parts@) =~= views(before).push(piece@));
            start = i + 1;
        }
        i = i + 1;
    }
    let last = string_of(v, start, v.len());
    proof {
        assert(v@.skip(start as int) =~= v@.subrange(start as int, v@.len() as int));
        lemma_split_on_none(v@.skip(start as int), c);
    }
    let ghost before = parts@;
    parts.push(last);
    assert(views(parts@) =~= views(before).push(last@));
    parts
}

/// `p` occurs in `v` at position `i`.
pub open spec fn occurs_at(v: Seq<char>, p: Seq<char>, i: int) -> bool {
    0 <= i && i + p.len() <= v.len() && v.subrange(i, i + p.len()) == p
}

/// `p` occurs somewhere in `v` (`str::contains` with a string pattern).
pub open spec fn is_infix(p: Seq<char>, v: Seq<char>) -> bool {
    exists|i: int| occurs_at(v, p, i)
}

/// `v` begins with `p`.
pub open spec fn has_prefix(v: Seq<char>, p: Seq<char>) -> bool {
    occurs_at(v, p, 0)
}

/// Whether `p` occurs in `v` at position `i`.
pub fn matches_at(v: &Vec<char>, p: &Vec<char>, i: usize) -> (r: bool)
    ensures
        r == occurs_at(v@, p@, i as int),
{
    if i > v.len() || p.len() > v.len() - i {
        return false;
    }
    let mut k: usize = 0;
    while k < p.len()
        invariant
            i + p@.len() <= v.len(),
            k <= p@.len(),
            forall|j: int| 0 <= j < k ==> v@[i + j] == p@[j],
        decreases p@.len() - k,
    {
        if v[i + k] != p[k] {
            assert(v@.subrange(i as int, i + p@.len())[k as int] != p@[k as int]);
            return false;
        }
        k = k + 1;
    }
    assert(v@.subrange(i as int, i + p@.len()) =~= p@);
    true
}

/// `str::contains` with a string pattern, on characters.
pub fn contains_seq(v: &Vec<char>, p: &Vec<char>) -> (r: bool)
    ensures
        r == is_infix(p@, v@),
{
    if p.len() > v.len() {
        return false;
    }
    let last: usize = v.len() - p.len();
    let mut i: usize = 0;
    loop
        invariant_except_break
            last == v@.len() - p@.len(),
            i <= last,
            forall|j: int| 0 <= j < i ==> !occurs_at(v@, p@, j),
        ensures
            forall|j: int| 0 <= j <= last ==> !occurs_at(v@, p@, j),
        decreases last - i,
    {
        if matches_at(v, p, i) {
            return true;
        }
        if i == last {
            break;
        }
        i = i + 1;
    }
    assert forall|j: int| !occurs_at(v@, p@, j) by {
        if 0 <= j < i {
        }
    }
    false
}

/// `str::contains` with a string pattern.
pub fn contains_str(s: &str, p: &str) -> (r: bool)
    ensures
        r == is_infix(p@, s@),
{
    contains_seq(&chars_of(s), &chars_of(p))
}

/// `str::starts_with` with a string pattern.
pub fn starts_with_str(s: &str, p: &str) -> (r: bool)
    ensures
        r == has_prefix(s@, p@),
{
    matches_at(&chars_of(s), &chars_of(p), 0)
}

/// `str::strip_prefix` with a string pattern.
pub fn strip_prefix_str(s: &str, p: &str) -> (r: Option<String>)
    ensures
        match r {
            Some(t) => has_prefix(s@, p@) && t@ == s@.skip(p@.len() as int),
            None => !has_prefix(s@, p@),
        },
{
    let v = chars_of(s);
    let q = chars_of(p);
    if matches_at(&v, &q, 0) {
        let t = string_of(&v, q.len(), v.len());
        assert(t@ =~= s@.skip(p@.len() as int));
        Some(t)
    } else {
        None
    }
}

/// Text equality.
pub fn str_eq(a: &str, b: &str) -> (r: bool)
    ensures
        r == (a@ == b@),
{
    a.to_owned() == b.to_owned()
}

/// `a` followed by `b`.
pub fn concat(a: &str, b: &str) -> (r: String)
    ensures
        r@ == a@ + b@,
{
    let mut r = a.to_owned();
    r.append(b);
    r
}

/// `a`, `b` and `c` one after the other.
pub fn concat3(a: &str, b: &str, c: &str) -> (r: String)
    ensures
        r@ == a@ + b@ + c@,
{
    let mut r = a.to_owned();
    r.append(b);
    r.append(c);
    r
}

/// A line with one trailing carriage return removed.
pub open spec fn strip_cr(l: Seq<char>) -> Seq<char> {
    if l.len() > 0 && l.last() == '\r' {
        l.drop_last()
    } else {
        l
    }
}

/// `str::lines`: pieces between `'\n'`; a `"\r\n"` ending loses its
/// `'\r'`, and a final line ending adds no empty line.
pub open spec fn lines_of(s: Seq<char>) -> Seq<Seq<char>> {
    let p = split_on(s, '\n');
    let n = if s.len() == 0 || s.last() == '\n' {
        p.len() - 1
    } else {
        p.len() as int
    };
    Seq::new(n as nat, |i: int| if i < p.len() - 1 { strip_cr(p[i]) } else { p[i] })
}

/// `l` without one trailing `'\r'`.
fn strip_cr_string(l: &String) -> (r: String)
    ensures
        r@ == strip_cr(l@),
{
    let v = chars_of(l.as_str());
    if v.len() > 0 && v[v.len() - 1] == '\r' {
        let r = string_of(&v, 0, v.len() - 1);
        assert(r@ =~= strip_cr(l@));
        r
    } else {
        let r = string_of(&v, 0, v.len());
        assert(r@ =~= l@);
        r
    }
}

/// `str::lines`.
pub fn lines(s: &str) -> (r: Vec<String>)
    ensures
        views(r@) == lines_of(s@),
{
    let v = chars_of(s);
    let parts = split_chars(&v, '\n');
    proof {
        lemma_split_on_len(s@, '\n');
    }
    let n = if v.len() == 0 || v[v.len() - 1] == '\n' {
        parts.len() - 1
    } else {
        parts.len()
    };
    let mut r: Vec<String> = Vec::new();
    let mut i: usize = 0;
    while i < n
        invariant
            n <= parts@.len(),
            views(parts@) == split_on(s@, '\n'),
            n == lines_of(s@).len(),
            i <= n,
            views(r@) == lines_of(s@).take(i as int),
        decreases n - i,
    {
        let line = if i < parts.len() - 1 {
            strip_cr_string(&parts[i])
        } else {
            parts[i].clone()
        };
        assert(views(parts@)[i as int] == parts@[i as int]@);
        let ghost before = r@;
        r.push(line);
        assert(views(r@) =~= views(before).push(line@));
        i = i + 1;
        assert(views(r@) =~= lines_of(s@).take(i as int));
    }
    assert(lines_of(s@).take(n as int) =~= lines_of(s@));
    r
}

/// `char::is_whitespace`: the Unicode `White_Space` characters.
pub open spec fn is_ws(c: char) -> bool {
    ||| ('\t' <= c && c <= '\r')
    ||| c == ' '
    ||| c == '\u{85}'
    ||| c == '\u{a0}'
    ||| c == '\u{1680}'
    ||| ('\u{2000}' <= c && c <= '\u{200a}')
    ||| c == '\u{2028}'
    ||| c == '\u{2029}'
    ||| c == '\u{202f}'
    ||| c == '\u{205f}'
    ||| c == '\u{3000}'
}

/// `char::is_whitespace`.
pub fn is_whitespace(c: char) -> (r: bool)
    ensures
        r == is_ws(c),
{
    ('\t' <= c && c <= '\r') || c == ' ' || c == '\u{85}' || c == '\u{a0}' || c == '\u{1680}'
        || ('\u{2000}' <= c && c <= '\u{200a}') || c == '\u{2028}' || c == '\u{2029}' || c
        == '\u{202f}' || c == '\u{205f}' || c == '\u{3000}'
}

/// `str::trim_start`.
pub open spec fn trim_start_of(s: Seq<char>) -> Seq<char>
    decreases s.len(),
{
    if s.len() > 0 && is_ws(s[0]) {
        trim_start_of(s.drop_first())
    } else {
        s
    }
}

/// `str::trim_end`.
pub open spec fn trim_end_of(s: Seq<char>) -> Seq<char>
    decreases s.len(),
{
    if s.len() > 0 && is_ws(s.last()) {
        trim_end_of(s.drop_last())
    } else {
        s
    }
}

/// `str::trim`.
pub open spec fn trim_of(s: Seq<char>) -> Seq<char> {
    trim_end_of(trim_start_of(s))
}

/// The index of the first character of `v[lo..]` that is not whitespace.
fn skip_ws(v: &Vec<char>) -> (a: usize)
    ensures
        a <= v@.len(),
        trim_start_of(v@) == v@.skip(a as int),
{
    let mut a: usize = 0;
    assert(v@.skip(0) =~= v@);
    while a < v.len() && is_whitespace(v[a])
        invariant
            a <= v@.len(),
            trim_start_of(v@) == trim_start_of(v@.skip(a as int)),
        decreases v@.len() - a,
    {
        assert(v@.skip(a as int).drop_first() =~= v@.skip(a + 1));
        a = a + 1;
    }
    a
}

/// `str::trim_start`.
pub fn trim_start_str(s: &str) -> (r: String)
    ensures
        r@ == trim_start_of(s@),
{
    let v = chars_of(s);
    let a = skip_ws(&v);
    let r = string_of(&v, a, v.len());
    assert(r@ =~= v@.skip(a as int));
    r
}

/// `str::trim`.
pub fn trim_str(s: &str) -> (r: String)
    ensures
        r@ == trim_of(s@),
{
    let v = chars_of(s);
    let a = skip_ws(&v);
    let ghost t = v@.skip(a as int);
    let mut b: usize = v.len();
    assert(t.take(t.len() as int) =~= t);
    while b > a && is_whitespace(v[b - 1])
        invariant
            a <= b <= v@.len(),
            t == v@.skip(a as int),
            trim_end_of(t) == trim_end_of(t.take(b - a)),
        decreases b,
    {
        assert(t.take(b - a).drop_last() =~= t.take(b - 1 - a));
        b = b - 1;
    }
    let r = string_of(&v, a, b);
    assert(r@ =~= t.take(b - a));
    r
}

/// Base-10 digit character of `d < 10`.
pub open spec fn digit_char(d: nat) -> char {
    ((d + 48) as u32) as char
}

/// The decimal representation of `n`, without sign or leading zeros.
pub open spec fn decimal(n: nat) -> Seq<char>
    decreases n,
{
    if n < 10 {
        seq![digit_char(n)]
    } else {
        decimal(n / 10).push(digit_char(n % 10))
    }
}

/// The digit character for `d < 10`.
fn digit_of(d: u64) -> (c: char)
    requires
        d < 10,
    ensures
        c == digit_char(d as nat),
{
    match d {
        0 => '0',
        1 => '1',
        2 => '2',
        3 => '3',
        4 => '4',
        5 => '5',
        6 => '6',
        7 => '7',
        8 => '8',
        _ => '9',
    }
}

/// Appends the decimal representation of `n`.
pub fn push_decimal(s: &mut String, n: u64)
    ensures
        final(s)@ == old(s)@ + decimal(n as nat),
    decreases n,
{
    if n >= 10 {
        push_decimal(s, n / 10);
    }
    let c = digit_of(n % 10);
    push_char(s, c);
    assert(final(s)@ =~= old(s)@ + decimal(n as nat));
}

/// `u64::to_string`.
pub fn decimal_string(n: u64) -> (r: String)
    ensures
        r@ == decimal(n as nat),
{
    let mut r = String::new();
    push_decimal(&mut r, n);
    assert(r@ =~= decimal(n as nat));
    r
}

/// Why text is not an unsigned integer (`core::num::IntErrorKind`).
#[derive(Debug, Clone, Copy, PartialEq, Eq)]
pub enum IntErrorKind {
    Empty,
    InvalidDigit,
    PosOverflow,
}

impl IntErrorKind {
    /// The message `ParseIntError` displays for this kind.
    pub fn message(&self) -> (r: &'static str)
        ensures
            r@ == int_error_message(*self),
    {
        match self {
            IntErrorKind::Empty => "cannot parse integer from empty string",
            IntErrorKind::InvalidDigit => "invalid digit found in string",
            IntErrorKind::PosOverflow => "number too large to fit in target type",
        }
    }
}

/// The message `ParseIntError` displays for each kind.
pub open spec fn int_error_message(k: IntErrorKind) -> Seq<char> {
    match k {
        IntErrorKind::Empty => "cannot parse integer from empty string"@,
        IntErrorKind::InvalidDigit => "invalid digit found in string"@,
        IntErrorKind::PosOverflow => "number too large to fit in target type"@,
    }
}

/// `char::to_digit(radix)` for `radix <= 36`.
pub open spec fn digit_value(c: char, radix: nat) -> Option<nat> {
    let n = c as nat;
    if 48 <= n <= 57 && n - 48 < radix {
        Some((n - 48) as nat)
    } else if 97 <= n <= 122 && n - 87 < radix {
        Some((n - 87) as nat)
    } else if 65 <= n <= 90 && n - 55 < radix {
        Some((n - 55) as nat)
    } else {
        None
    }
}

/// Digits read left to right into a value at most `max`; the first bad
/// digit or the first step past `max` is the error.
pub open spec fn digits_value(s: Seq<char>, radix: nat, max: nat) -> Result<nat, IntErrorKind>
    decreases s.len(),
{
    if s.len() == 0 {
        Ok(0)
    } else {
        match digits_value(s.drop_last(), radix, max) {
            Err(e) => Err(e),
            Ok(v) => match digit_value(s.last(), radix) {
                None => Err(IntErrorKind::InvalidDigit),
                Some(d) => if v * radix + d > max {
                    Err(IntErrorKind::PosOverflow)
                } else {
                    Ok(v * radix + d)
                },
            },
        }
    }
}

/// Once a prefix of the digits is refused, so is the whole.
pub proof fn lemma_digits_error_extends(s: Seq<char>, k: int, radix: nat, max: nat)
    requires
        0 <= k <= s.len(),
        digits_value(s.take(k), radix, max) is Err,
    ensures
        digits_value(s, radix, max) == digits_value(s.take(k), radix, max),
    decreases s.len() - k,
{
    if k < s.len() {
        assert(s.drop_last().take(k) =~= s.take(k));
        lemma_digits_error_extends(s.drop_last(), k, radix, max);
    } else {
        assert(s.take(k) =~= s);
    }
}

/// `from_str_radix` for an unsigned type whose largest value is `max`:
/// one leading `'+'` is allowed before at least one digit.
pub open spec fn parse_uint(s: Seq<char>, radix: nat, max: nat) -> Result<nat, IntErrorKind> {
    if s.len() == 0 {
        Err(IntErrorKind::Empty)
    } else if s[0] == '+' {
        if s.len() == 1 {
            Err(IntErrorKind::InvalidDigit)
        } else {
            digits_value(s.drop_first(), radix, max)
        }
    } else {
        digits_value(s, radix, max)
    }
}

/// `char::to_digit(radix)`.
fn to_digit(c: char, radix: u64) -> (r: Option<u64>)
    requires
        2 <= radix <= 36,
    ensures
        match r {
            Some(d) => digit_value(c, radix as nat) == Some(d as nat),
            None => digit_value(c, radix as nat) is None,
        },
{
    let n: u64 = c as u32 as u64;
    if 48 <= n && n <= 57 && n - 48 < radix {
        Some(n - 48)
    } else if 97 <= n && n <= 122 && n - 87 < radix {
        Some(n - 87)
    } else if 65 <= n && n <= 90 && n - 55 < radix {
        Some(n - 55)
    } else {
        None
    }
}

/// `from_str_radix` on text, for an unsigned type whose largest value is `max`.
pub fn parse_uint_str(s: &str, radix: u64, max: u64) -> (r: Result<u64, IntErrorKind>)
    requires
        2 <= radix <= 36,
    ensures
        match r {
            Ok(n) => parse_uint(s@, radix as nat, max as nat) == Ok::<nat, IntErrorKind>(n as nat),
            Err(e) => parse_uint(s@, radix as nat, max as nat) == Err::<nat, IntErrorKind>(e),
        },
{
    let v = chars_of(s);
    if v.len() == 0 {
        return Err(IntErrorKind::Empty);
    }
    let mut start: usize = 0;
    if v[0] == '+' {
        if v.len() == 1 {
            return Err(IntErrorKind::InvalidDigit);
        }
        start = 1;
    }
    let ghost digits = if start == 1 { s@.drop_first() } else { s@ };
    assert(digits =~= v@.skip(start as int));
    assert(parse_uint(s@, radix as nat, max as nat) == digits_value(digits, radix as nat, max as nat));
    let mut acc: u64 = 0;
    let mut i: usize = start;
    assert(digits.take(0) =~= Seq::<char>::empty());
    while i < v.len()
        invariant
            start <= i <= v@.len(),
            digits == v@.skip(start as int),
            parse_uint(s@, radix as nat, max as nat) == digits_value(digits, radix as nat, max as nat),
            acc <= max,
            2 <= radix <= 36,
            digits_value(digits.take(i - start), radix as nat, max as nat) == Ok::<nat, IntErrorKind>(acc as nat),
        decreases v@.len() - i,
    {
        let ghost pre = digits.take(i - start);
        assert(digits.take(i + 1 - start).drop_last() =~= pre);
        assert(digits.take(i + 1 - start).last() == v@[i as int]);
        match to_digit(v[i], radix) {
            None => {
                proof {
                    assert(digits_value(digits.take(i + 1 - start), radix as nat, max as nat)
                        == Err::<nat, IntErrorKind>(IntErrorKind::InvalidDigit));
                    lemma_digits_error_extends(digits, i + 1 - start, radix as nat, max as nat);
                }
                return Err(IntErrorKind::InvalidDigit);
            },
            Some(d) => {
                assert(acc as u128 * radix as u128 <= 0xffff_ffff_ffff_ffffu128 * 36u128)
                    by (nonlinear_arith)
                    requires
                        acc <= 0xffff_ffff_ffff_ffffu64,
                        radix <= 36,
                ;
                let wide: u128 = acc as u128 * radix as u128 + d as u128;
                if wide > max as u128 {
                    proof {
                        assert(digits_value(digits.take(i + 1 - start), radix as nat, max as nat)
                            == Err::<nat, IntErrorKind>(IntErrorKind::PosOverflow));
                        lemma_digits_error_extends(digits, i + 1 - start, radix as nat, max as nat);
                    }
                    return Err(IntErrorKind::PosOverflow);
                }
                acc = wide as u64;
            },
        }
        i = i + 1;
    }
    assert(digits.take(i - start) =~= digits);
    Ok(acc)
}

/// Decimal `u64` (`str::parse::<u64>`).
pub fn parse_u64(s: &str) -> (r: Option<u64>)
    ensures
        match r {
            Some(n) => parse_uint(s@, 10, u64::MAX as nat) == Ok::<nat, IntErrorKind>(n as nat),
            None => parse_uint(s@, 10, u64::MAX as nat) is Err,
        },
{
    match parse_uint_str(s, 10, u64::MAX) {
        Ok(n) => Some(n),
        Err(_) => None,
    }
}

/// Pieces joined with `sep` between neighbours (`[T]::join`).
pub open spec fn join_with(p: Seq<Seq<char>>, sep: Seq<char>) -> Seq<char>
    decreases p.len(),
{
    if p.len() == 0 {
        Seq::<char>::empty()
    } else if p.len() == 1 {
        p[0]
    } else {
        join_with(p.drop_last(), sep) + sep + p.last()
    }
}

/// `[String]::join`.
pub fn join(parts: &Vec<String>, sep: &str) -> (r: String)
    ensures
        r@ == join_with(views(parts@), sep@),
{
    let mut r = String::new();
    let mut i: usize = 0;
    while i < parts.len()
        invariant
            i <= parts@.len(),
            r@ == join_with(views(parts@).take(i as int), sep@),
        decreases parts@.len() - i,
    {
        let ghost pre = views(parts@).take(i as int);
        assert(views(parts@).take(i + 1).drop_last() =~= pre);
        if i > 0 {
            r.append(sep);
        }
        r.append(parts[i].as_str());
        i = i + 1;
        assert(r@ =~= join_with(views(parts@).take(i as int), sep@));
    }
    assert(views(parts@).take(i as int) =~= views(parts@));
    r
}

/// Index of the first `c` in `s`.
pub open spec fn find_first(s: Seq<char>, c: char) -> Option<nat>
    decreases s.len(),
{
    if s.len() == 0 {
        None
    } else if s[0] == c {
        Some(0)
    } else {
        match find_first(s.drop_first(), c) {
            Some(i) => Some(i + 1),
            None => None,
        }
    }
}

/// `find_first` is the first occurrence, or there is none.
pub proof fn lemma_find_first(s: Seq<char>, c: char)
    ensures
        match find_first(s, c) {
            Some(i) => i < s.len() && s[i as int] == c && lacks(s.take(i as int), c),
            None => lacks(s, c),
        },
    decreases s.len(),
{
    if s.len() > 0 && s[0] != c {
        lemma_find_first(s.drop_first(), c);
        match find_first(s.drop_first(), c) {
            Some(i) => {
                assert forall|j: int| 0 <= j < i + 1 implies #[trigger] s.take(i as int + 1)[j] != c by {
                    if j > 0 {
                        assert(s.take(i as int + 1)[j] == s.drop_first().take(i as int)[j - 1]);
                    }
                }
            },
            None => {
                assert forall|j: int| 0 <= j < s.len() implies s[j] != c by {
                    if j > 0 {
                        assert(s[j] == s.drop_first()[j - 1]);
                    }
                }
            },
        }
    }
}

/// Index of the first `c` in `v`.
pub fn find_char(v: &Vec<char>, c: char) -> (r: Option<usize>)
    ensures
        match r {
            Some(i) => find_first(v@, c) == Some(i as nat),
            None => find_first(v@, c) is None,
        },
{
    proof {
        lemma_find_first(v@, c);
    }
    let mut i: usize = 0;
    while i < v.len()
        invariant
            i <= v@.len(),
            lacks(v@.take(i as int), c),
            match find_first(v@, c) {
                Some(k) => k < v@.len() && v@[k as int] == c && lacks(v@.take(k as int), c),
                None => lacks(v@, c),
            },
        decreases v@.len() - i,
    {
        if v[i] == c {
            proof {
                match find_first(v@, c) {
                    Some(k) => {
                        if k < i {
                            assert(v@.take(i as int)[k as int] == c);
                        } else if k > i {
                            assert(v@.take(k as int)[i as int] == c);
                        }
                    },
                    None => {},
                }
            }
            return Some(i);
        }
        assert forall|j: int| 0 <= j < i + 1 implies #[trigger] v@.take(i + 1)[j] != c by {
            if j < i {
                assert(v@.take(i + 1)[j] == v@.take(i as int)[j]);
            }
        }
        i = i + 1;
    }
    proof {
        match find_first(v@, c) {
            Some(k) => {
                assert(v@.take(i as int)[k as int] == c);
            },
            None => {},
        }
    }
    None
}

/// `str::split_once` with a char separator.
pub open spec fn split_once_of(s: Seq<char>, c: char) -> Option<(Seq<char>, Seq<char>)> {
    match find_first(s, c) {
        Some(i) => Some((s.take(i as int), s.skip(i as int + 1))),
        None => None,
    }
}

/// `str::split_once` with a char separator.
pub fn split_once(s: &str, c: char) -> (r: Option<(String, String)>)
    ensures
        match r {
            Some((a, b)) => split_once_of(s@, c) == Some((a@, b@)),
            None => split_once_of(s@, c) is None,
        },
{
    let v = chars_of(s);
    match find_char(&v, c) {
        Some(i) => {
            proof {
                lemma_find_first(s@, c);
            }
            let a = string_of(&v, 0, i);
            let b = string_of(&v, i + 1, v.len());
            assert(a@ =~= s@.take(i as int));
            assert(b@ =~= s@.skip(i + 1));
            Some((a, b))
        },
        None => None,
    }
}

/// Index of the last `c` in `s`.
pub open spec fn find_last(s: Seq<char>, c: char) -> Option<nat>
    decreases s.len(),
{
    if s.len() == 0 {
        None
    } else if s.last() == c {
        Some((s.len() - 1) as nat)
    } else {
        find_last(s.drop_last(), c)
    }
}

/// `str::rsplit_once` with a char separator.
pub open spec fn rsplit_once_of(s: Seq<char>, c: char) -> Option<(Seq<char>, Seq<char>)> {
    match find_last(s, c) {
        Some(i) => Some((s.take(i as int), s.skip(i as int + 1))),
        None => None,
    }
}

/// `str::rsplit_once` with a char separator.
pub fn rsplit_once(s: &str, c: char) -> (r: Option<(String, String)>)
    ensures
        match r {
            Some((a, b)) => rsplit_once_of(s@, c) == Some((a@, b@)),
            None => rsplit_once_of(s@, c) is None,
        },
{
    let v = chars_of(s);
    let mut n: usize = v.len();
    assert(v@.take(n as int) =~= v@);
    while n > 0 && v[n - 1] != c
        invariant
            n <= v@.len(),
            find_last(v@, c) == find_last(v@.take(n as int), c),
        decreases n,
    {
        assert(v@.take(n as int).drop_last() =~= v@.take(n - 1));
        n = n - 1;
    }
    if n == 0 {
        assert(v@.take(0) =~= Seq::<char>::empty());
        None
    } else {
        let i: usize = n - 1;
        assert(v@.take(n as int).last() == c);
        let a = string_of(&v, 0, i);
        let b = string_of(&v, n, v.len());
        assert(a@ =~= s@.take(i as int));
        assert(b@ =~= s@.skip(i + 1));
        Some((a, b))
    }
}

/// How often `c` occurs in `s`.
pub open spec fn count_of(s: Seq<char>, c: char) -> nat
    decreases s.len(),
{
    if s.len() == 0 {
        0
    } else {
        count_of(s.drop_last(), c) + if s.last() == c {
            1nat
        } else {
            0nat
        }
    }
}

/// `str::matches(c).count()`.
pub fn count_char(s: &str, c: char) -> (r: usize)
    ensures
        r == count_of(s@, c),
{
    let v = chars_of(s);
    let mut n: usize = 0;
    let mut i: usize = 0;
    assert(v@.take(0) =~= Seq::<char>::empty());
    while i < v.len()
        invariant
            i <= v@.len(),
            n <= i,
            n == count_of(v@.take(i as int), c),
        decreases v@.len() - i,
    {
        assert(v@.take(i + 1).drop_last() =~= v@.take(i as int));
        if v[i] == c {
            n = n + 1;
        }
        i = i + 1;
    }
    assert(v@.take(i as int) =~= v@);
    n
}

/// Strict lexicographic order by code point: the order of `str` (UTF-8
/// byte order and code-point order agree).
pub open spec fn lex_lt(a: Seq<char>, b: Seq<char>) -> bool
    decreases a.len(),
{
    if a.len() == 0 {
        b.len() > 0
    } else if b.len() == 0 {
        false
    } else if a[0] != b[0] {
        a[0] < b[0]
    } else {
        lex_lt(a.drop_first(), b.drop_first())
    }
}

pub proof fn lemma_lex_irreflexive(a: Seq<char>)
    ensures
        !lex_lt(a, a),
    decreases a.len(),
{
    if a.len() > 0 {
        lemma_lex_irreflexive(a.drop_first());
    }
}

pub proof fn lemma_lex_total(a: Seq<char>, b: Seq<char>)
    ensures
        a == b || lex_lt(a, b) || lex_lt(b, a),
        !(lex_lt(a, b) && lex_lt(b, a)),
    decreases a.len(),
{
    if a.len() > 0 && b.len() > 0 {
        lemma_lex_total(a.drop_first(), b.drop_first());
        if a[0] == b[0] && a.drop_first() == b.drop_first() {
            assert(a =~= seq![a[0]] + a.drop_first());
            assert(b =~= seq![b[0]] + b.drop_first());
        }
    } else if a.len() == 0 && b.len() == 0 {
        assert(a =~= b);
    }
}

pub proof fn lemma_lex_transitive(a: Seq<char>, b: Seq<char>, c: Seq<char>)
    requires
        lex_lt(a, b),
        lex_lt(b, c),
    ensures
        lex_lt(a, c),
    decreases a.len(),
{
    if a.len() > 0 && b.len() > 0 && c.len() > 0 {
        if a[0] == b[0] && b[0] == c[0] {
            lemma_lex_transitive(a.drop_first(), b.drop_first(), c.drop_first());
        }
    }
}

/// The three ways two texts compare.
#[derive(Debug, Clone, Copy, PartialEq, Eq)]
pub enum Order3 {
    Less,
    Equal,
    Greater,
}

/// Lexicographic comparison of two character sequences.
pub fn compare_chars(a: &Vec<char>, b: &Vec<char>) -> (r: Order3)
    ensures
        (r == Order3::Less) == lex_lt(a@, b@),
        (r == Order3::Equal) == (a@ == b@),
        (r == Order3::Greater) == lex_lt(b@, a@),
{
    let mut i: usize = 0;
    proof {
        lemma_lex_total(a@, b@);
        assert(a@.skip(0) =~= a@);
        assert(b@.skip(0) =~= b@);
    }
    while i < a.len() && i < b.len() && a[i] == b[i]
        invariant
            i <= a@.len(),
            i <= b@.len(),
            a@.take(i as int) == b@.take(i as int),
            lex_lt(a@, b@) == lex_lt(a@.skip(i as int), b@.skip(i as int)),
            lex_lt(b@, a@) == lex_lt(b@.skip(i as int), a@.skip(i as int)),
        decreases a@.len() - i,
    {
        assert(a@.skip(i as int).drop_first() =~= a@.skip(i + 1));
        assert(b@.skip(i as int).drop_first() =~= b@.skip(i + 1));
        assert(a@.take(i + 1) =~= a@.take(i as int).push(a@[i as int]));
        assert(b@.take(i + 1) =~= b@.take(i as int).push(b@[i as int]));
        i = i + 1;
    }
    proof {
        lemma_lex_total(a@, b@);
    }
    if i == a.len() && i == b.len() {
        assert(a@ =~= a@.take(i as int));
        assert(b@ =~= b@.take(i as int));
        Order3::Equal
    } else if i == a.len() {
        assert(a@ =~= a@.take(i as int));
        assert(a@.len() != b@.len());
        Order3::Less
    } else if i == b.len() {
        assert(b@ =~= b@.take(i as int));
        assert(a@.len() != b@.len());
        Order3::Greater
    } else if a[i] < b[i] {
        assert(a@[i as int] != b@[i as int]);
        Order3::Less
    } else {
        assert(a@[i as int] != b@[i as int]);
        Order3::Greater
    }
}

/// Lexicographic comparison of two texts (`str::cmp`).
pub fn compare_str(a: &str, b: &str) -> (r: Order3)
    ensures
        (r == Order3::Less) == lex_lt(a@, b@),
        (r == Order3::Equal) == (a@ == b@),
        (r == Order3::Greater) == lex_lt(b@, a@),
{
    compare_chars(&chars_of(a), &chars_of(b))
}

/// The number of bytes in the UTF-8 encoding of `s`, as `str::len`
/// reports it.
pub open spec fn utf8_len(s: Seq<char>) -> usize {
    vstd::utf8::encode_utf8(s).len() as usize
}

/// `str::len` of a `String`: its UTF-8 byte count.
pub fn byte_len(s: &String) -> (n: usize)
    ensures
        n == utf8_len(s@),
{
    s.as_str().len()
}

/// The text `format!("{:?}", s)` gives for a string: quoted, with
/// `char::escape_debug` applied to its characters.
pub uninterp spec fn debug_text(s: Seq<char>) -> Seq<char>;

/// `<str as Debug>::fmt`, through `format!("{:?}", s)`. Claimed of it: the
/// result is `debug_text` of `s`, so it depends on `s` alone.
#[verifier::external_body]
pub(crate) fn debug_quoted(s: &str) -> (r: String)
    ensures
        r@ == debug_text(s@),
{
    format!("{:?}", s)
}

/// The first position at or after `i` where `p` occurs in `s`.
pub open spec fn find_from(s: Seq<char>, p: Seq<char>, i: int) -> Option<int>
    decreases s.len() + 1 - i,
{
    if i < 0 || i + p.len() > s.len() {
        None
    } else if occurs_at(s, p, i) {
        Some(i)
    } else {
        find_from(s, p, i + 1)
    }
}

/// `str::split_once` with a string separator.
pub open spec fn split_once_str_of(s: Seq<char>, p: Seq<char>) -> Option<(Seq<char>, Seq<char>)> {
    match find_from(s, p, 0) {
        Some(i) => Some((s.take(i), s.skip(i + p.len()))),
        None => None,
    }
}

/// `str::split_once` with a string separator.
#[verifier::loop_isolation(false)]
pub fn split_once_str(s: &str, p: &str) -> (r: Option<(String, String)>)
    ensures
        match r {
            Some((a, b)) => split_once_str_of(s@, p@) == Some((a@, b@)),
            None => split_once_str_of(s@, p@) is None,
        },
{
    let v = chars_of(s);
    let q = chars_of(p);
    if q.len() == 0 {
        assert(v@.subrange(0, 0) =~= q@);
        assert(occurs_at(v@, q@, 0));
        let a = string_of(&v, 0, 0);
        let b = string_of(&v, 0, v.len());
        assert(b@ =~= s@.skip(0));
        assert(a@ =~= s@.take(0));
        return Some((a, b));
    }
    let mut i: usize = 0;
    while i <= v.len() && q.len() <= v.len() - i
        invariant
            q@.len() > 0,
            find_from(v@, q@, 0) == find_from(v@, q@, i as int),
        decreases v@.len() + 1 - i,
    {
        if matches_at(&v, &q, i) {
            let a = string_of(&v, 0, i);
            let b = string_of(&v, i + q.len(), v.len());
            assert(a@ =~= s@.take(i as int));
            assert(b@ =~= s@.skip(i + p@.len()));
            return Some((a, b));
        }
        i = i + 1;
    }
    None
}

/// `s` with every leading repetition of `p` removed (`str::trim_start_matches`).
pub open spec fn strip_all(s: Seq<char>, p: Seq<char>) -> Seq<char>
    decreases s.len(),
{
    if p.len() > 0 && has_prefix(s, p) {
        strip_all(s.skip(p.len() as int), p)
    } else {
        s
    }
}

/// `str::trim_start_matches` with a string pattern.
#[verifier::loop_isolation(false)]
pub fn trim_start_matches(s: &str, p: &str) -> (r: String)
    ensures
        r@ == strip_all(s@, p@),
{
    let v = chars_of(s);
    let q = chars_of(p);
    let mut i: usize = 0;
    assert(v@.skip(0) =~= v@);
    if q.len() == 0 {
        return string_of(&v, 0, v.len());
    }
    while i <= v.len() && matches_at(&v, &q, i)
        invariant
            q@.len() > 0,
            i <= v@.len(),
            strip_all(v@, q@) == strip_all(v@.skip(i as int), q@),
        decreases v@.len() - i,
    {
        assert(has_prefix(v@.skip(i as int), q@)) by {
            assert(v@.skip(i as int).subrange(0, q@.len() as int) =~= v@.subrange(i as int, i + q@.len()));
        }
        assert(v@.skip(i as int).skip(q@.len() as int) =~= v@.skip(i + q@.len()));
        i = i + q.len();
    }
    proof {
        if i <= v@.len() && has_prefix(v@.skip(i as int), q@) {
            assert(v@.skip(i as int).subrange(0, q@.len() as int) =~= v@.subrange(i as int, i + q@.len()));
        }
    }
    let r = string_of(&v, i, v.len());
    assert(r@ =~= v@.skip(i as int));
    r
}

/// Every character of a decimal representation is an ASCII digit.
pub proof fn lemma_decimal_digits(n: nat)
    ensures
        decimal(n).len() >= 1,
        forall|i: int| 0 <= i < decimal(n).len() ==> 48 <= #[trigger] (decimal(n)[i] as nat) <= 57,
    decreases n,
{
    if n >= 10 {
        lemma_decimal_digits(n / 10);
        let d = decimal(n / 10);
        assert forall|i: int| 0 <= i < decimal(n).len() implies 48 <= #[trigger] (decimal(n)[i] as nat) <= 57 by {
            if i < d.len() {
                assert(decimal(n)[i] == d[i]);
            }
        }
    }
}

/// A decimal representation reads back as its number.
pub proof fn lemma_decimal_reads_back(n: nat, max: nat)
    requires
        n <= max,
    ensures
        digits_value(decimal(n), 10, max) == Ok::<nat, IntErrorKind>(n),
        parse_uint(decimal(n), 10, max) == Ok::<nat, IntErrorKind>(n),
    decreases n,
{
    lemma_decimal_digits(n);
    let s = decimal(n);
    if n < 10 {
        assert(s.drop_last() =~= Seq::<char>::empty());
        assert(digits_value(Seq::<char>::empty(), 10, max) == Ok::<nat, IntErrorKind>(0));
        assert(digits_value(s.drop_last(), 10, max) == Ok::<nat, IntErrorKind>(0));
        assert(digit_value(s.last(), 10) == Some(n));
        assert(digits_value(s, 10, max) == Ok::<nat, IntErrorKind>(n));
    } else {
        lemma_decimal_reads_back(n / 10, max);
        assert(s.drop_last() =~= decimal(n / 10));
        assert(digits_value(s.drop_last(), 10, max) == Ok::<nat, IntErrorKind>(n / 10));
        assert(digit_value(s.last(), 10) == Some(n % 10));
        assert((n / 10) * 10 + n % 10 == n);
        assert(digits_value(s, 10, max) == Ok::<nat, IntErrorKind>(n));
    }
    assert(48 <= (s[0] as nat));
    assert(s[0] != '+');
}

/// Splitting at the first `c` of `a + [c] + b`, where `a` lacks `c`,
/// gives back `a` and `b`.
pub proof fn lemma_split_once_join(a: Seq<char>, c: char, b: Seq<char>)
    requires
        lacks(a, c),
    ensures
        split_once_of(a + seq![c] + b, c) == Some((a, b)),
{
    let s = a + seq![c] + b;
    lemma_find_first(s, c);
    assert(s.take(a.len() as int) =~= a);
    assert(s.skip(a.len() as int + 1) =~= b);
    match find_first(s, c) {
        Some(i) => {
            if i < a.len() {
                assert(s[i as int] == a[i as int]);
            } else if i > a.len() {
                assert(s.take(i as int)[a.len() as int] == c);
            }
        },
        None => {
            assert(s[a.len() as int] == c);
        },
    }
}

/// Splitting at the last `c` of `a + [c] + b`, where `b` lacks `c`,
/// gives back `a` and `b`.
pub proof fn lemma_rsplit_once_join(a: Seq<char>, c: char, b: Seq<char>)
    requires
        lacks(b, c),
    ensures
        find_last(a + seq![c] + b, c) == Some(a.len()),
        rsplit_once_of(a + seq![c] + b, c) == Some((a, b)),
    decreases b.len(),
{
    let s = a + seq![c] + b;
    if b.len() == 0 {
        assert(s.last() == c);
    } else {
        lemma_rsplit_once_join(a, c, b.drop_last());
        assert(s.drop_last() =~= a + seq![c] + b.drop_last());
        assert(s.last() == b.last());
    }
    assert(s.take(a.len() as int) =~= a);
    assert(s.skip(a.len() as int + 1) =~= b);
}

/// Occurrences in a concatenation add up.
pub proof fn lemma_count_concat(a: Seq<char>, b: Seq<char>, c: char)
    ensures
        count_of(a + b, c) == count_of(a, c) + count_of(b, c),
    decreases b.len(),
{
    if b.len() == 0 {
        assert(a + b =~= a);
    } else {
        lemma_count_concat(a, b.drop_last(), c);
        assert((a + b).drop_last() =~= a + b.drop_last());
        assert((a + b).last() == b.last());
    }
}

/// Text that lacks `c` holds it zero times.
pub proof fn lemma_count_lacks(s: Seq<char>, c: char)
    requires
        lacks(s, c),
    ensures
        count_of(s, c) == 0,
    decreases s.len(),
{
    if s.len() > 0 {
        lemma_count_lacks(s.drop_last(), c);
    }
}

} // verus!
