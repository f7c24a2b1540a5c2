//! Character-level text helpers with exact specifications over `Seq<char>`:
//! Unicode whitespace trimming, prefix and substring tests, ASCII case
//! folding, line splitting, and decimal parsing and printing.

use vstd::prelude::*;
use vstd::string::StringExecFns;

verus! {

// ---------------------------------------------------------------------------
// Building strings
// ---------------------------------------------------------------------------

/// `String::push`: appends one character.
#[verifier::external_body]
pub(crate) fn push_char(s: &mut String, c: char)
    ensures
        final(s)@ == old(s)@.push(c),
{
    s.push(c);
}

/// Appends `t` to `s`.
pub fn push_str(s: &mut String, t: &str)
    ensures
        final(s)@ == old(s)@ + t@,
{
    s.append(t);
}

/// The characters of `s`, in order.
pub fn chars_of(s: &str) -> (v: Vec<char>)
    ensures
        v@ == s@,
{
    let mut v: Vec<char> = Vec::new();
    for c in it: s.chars()
        invariant
            v@ == it.history(),
    {
        v.push(c);
    }
    v
}

/// A string made of the characters `v[lo..hi]`, in order.
pub fn string_of_range(v: &[char], lo: usize, hi: usize) -> (s: String)
    requires
        lo <= hi <= v@.len(),
    ensures
        s@ == v@.subrange(lo as int, hi as int),
{
    let mut s = String::new();
    let mut i: usize = lo;
    while i < hi
        invariant
            lo <= i <= hi <= v@.len(),
            s@ == v@.subrange(lo as int, i as int),
        decreases hi - i,
    {
        push_char(&mut s, v[i]);
        assert(v@.subrange(lo as int, i + 1) =~= v@.subrange(lo as int, i as int).push(v@[i as int]));
        i += 1;
    }
    s
}

/// Whether two character sequences are equal.
pub fn chars_eq(a: &[char], b: &[char]) -> (r: bool)
    ensures
        r == (a@ == b@),
{
    if a.len() != b.len() {
        return false;
    }
    let mut i: usize = 0;
    while i < a.len()
        invariant
            a@.len() == b@.len(),
            i <= a@.len(),
            forall|j: int| 0 <= j < i ==> a@[j] == b@[j],
        decreases a@.len() - i,
    {
        if a[i] != b[i] {
            return false;
        }
        i += 1;
    }
    assert(a@ =~= b@);
    true
}

/// Whether two strings hold the same characters.
pub fn str_eq(a: &str, b: &str) -> (r: bool)
    ensures
        r == (a@ == b@),
{
    let va = chars_of(a);
    let vb = chars_of(b);
    chars_eq(va.as_slice(), vb.as_slice())
}

// ---------------------------------------------------------------------------
// Character classes and trimming
// ---------------------------------------------------------------------------

/// Unicode `White_Space`, the class that `char::is_whitespace` and
/// `str::trim` use.
pub open spec fn is_ws(c: char) -> bool {
    let u = c as u32;
    ||| 0x09 <= u <= 0x0D
    ||| u == 0x20
    ||| u == 0x85
    ||| u == 0xA0
    ||| u == 0x1680
    ||| 0x2000 <= u <= 0x200A
    ||| u == 0x2028
    ||| u == 0x2029
    ||| u == 0x202F
    ||| u == 0x205F
    ||| u == 0x3000
}

/// Unicode whitespace test.
pub fn is_whitespace(c: char) -> (r: bool)
    ensures
        r == is_ws(c),
{
    let u = c as u32;
    (0x09 <= u && u <= 0x0D) || u == 0x20 || u == 0x85 || u == 0xA0 || u == 0x1680 || (0x2000
        <= u && u <= 0x200A) || u == 0x2028 || u == 0x2029 || u == 0x202F || u == 0x205F || u
        == 0x3000
}

/// What a trimming operation removes: whitespace, or one given character.
#[derive(Clone, Copy)]
pub enum CharPat {
    Whitespace,
    Exactly(char),
}

pub open spec fn pat_holds(p: CharPat, c: char) -> bool {
    match p {
        CharPat::Whitespace => is_ws(c),
        CharPat::Exactly(x) => c == x,
    }
}

pub fn pat_test(p: CharPat, c: char) -> (r: bool)
    ensures
        r == pat_holds(p, c),
{
    match p {
        CharPat::Whitespace => is_whitespace(c),
        CharPat::Exactly(x) => c == x,
    }
}

/// `s` without its leading characters that match `p`.
pub open spec fn strip_start(s: Seq<char>, p: CharPat) -> Seq<char>
    decreases s.len(),
{
    if s.len() > 0 && pat_holds(p, s[0]) {
        strip_start(s.drop_first(), p)
    } else {
        s
    }
}

/// `s` without its trailing characters that match `p`.
pub open spec fn strip_end(s: Seq<char>, p: CharPat) -> Seq<char>
    decreases s.len(),
{
    if s.len() > 0 && pat_holds(p, s.last()) {
        strip_end(s.drop_last(), p)
    } else {
        s
    }
}

/// `str::trim`: leading and trailing Unicode whitespace removed.
pub open spec fn trim(s: Seq<char>) -> Seq<char> {
    strip_end(strip_start(s, CharPat::Whitespace), CharPat::Whitespace)
}

/// The index where `v[lo..hi]` begins once its leading matches of `p` are removed.
pub fn skip_start(v: &[char], lo: usize, hi: usize, p: CharPat) -> (r: usize)
    requires
        lo <= hi <= v@.len(),
    ensures
        lo <= r <= hi,
        v@.subrange(r as int, hi as int) == strip_start(v@.subrange(lo as int, hi as int), p),
{
    let mut i = lo;
    while i < hi && pat_test(p, v[i])
        invariant
            lo <= i <= hi <= v@.len(),
            strip_start(v@.subrange(i as int, hi as int), p) == strip_start(
                v@.subrange(lo as int, hi as int),
                p,
            ),
        decreases hi - i,
    {
        assert(v@.subrange(i as int, hi as int).drop_first() =~= v@.subrange(i + 1, hi as int));
        i += 1;
    }
    i
}

/// The index where `v[lo..hi]` ends once its trailing matches of `p` are removed.
pub fn skip_end(v: &[char], lo: usize, hi: usize, p: CharPat) -> (r: usize)
    requires
        lo <= hi <= v@.len(),
    ensures
        lo <= r <= hi,
        v@.subrange(lo as int, r as int) == strip_end(v@.subrange(lo as int, hi as int), p),
{
    let mut j = hi;
    while j > lo && pat_test(p, v[j - 1])
        invariant
            lo <= j <= hi <= v@.len(),
            strip_end(v@.subrange(lo as int, j as int), p) == strip_end(
                v@.subrange(lo as int, hi as int),
                p,
            ),
        decreases j - lo,
    {
        assert(v@.subrange(lo as int, j as int).drop_last() =~= v@.subrange(lo as int, j - 1));
        j -= 1;
    }
    j
}

/// `str::trim`.
pub fn trim_str(s: &str) -> (r: String)
    ensures
        r@ == trim(s@),
{
    let v = chars_of(s);
    let a = skip_start(v.as_slice(), 0, v.len(), CharPat::Whitespace);
    let b = skip_end(v.as_slice(), a, v.len(), CharPat::Whitespace);
    assert(v@.subrange(0, v@.len() as int) =~= v@);
    string_of_range(v.as_slice(), a, b)
}

/// `str::trim_start_matches` with a character class.
pub fn strip_start_str(s: &str, p: CharPat) -> (r: String)
    ensures
        r@ == strip_start(s@, p),
{
    let v = chars_of(s);
    let a = skip_start(v.as_slice(), 0, v.len(), p);
    assert(v@.subrange(0, v@.len() as int) =~= v@);
    string_of_range(v.as_slice(), a, v.len())
}

/// `str::trim_end_matches` with a character class.
pub fn strip_end_str(s: &str, p: CharPat) -> (r: String)
    ensures
        r@ == strip_end(s@, p),
{
    let v = chars_of(s);
    let b = skip_end(v.as_slice(), 0, v.len(), p);
    assert(v@.subrange(0, v@.len() as int) =~= v@);
    string_of_range(v.as_slice(), 0, b)
}

// ---------------------------------------------------------------------------
// Prefixes and substrings
// ---------------------------------------------------------------------------

/// Whether `s` begins with `p`.
pub open spec fn starts_with(s: Seq<char>, p: Seq<char>) -> bool {
    p.len() <= s.len() && s.subrange(0, p.len() as int) == p
}

/// Whether `t` occurs in `s` at index `i`.
pub open spec fn occurs_at(s: Seq<char>, t: Seq<char>, i: int) -> bool {
    0 <= i && i + t.len() <= s.len() && s.subrange(i, i + t.len()) == t
}

/// Whether `t` occurs anywhere in `s` (`str::contains`).
pub open spec fn contains(s: Seq<char>, t: Seq<char>) -> bool {
    exists|i: int| occurs_at(s, t, i)
}

/// Whether `t` occurs in `v` at index `i`.
pub fn match_at(v: &[char], t: &[char], i: usize) -> (r: bool)
    ensures
        r == occurs_at(v@, t@, i as int),
{
    if t.len() > v.len() || i > v.len() - t.len() {
        return false;
    }
    let mut k: usize = 0;
    while k < t.len()
        invariant
            i + t@.len() <= v@.len(),
            v@.len() <= usize::MAX,
            k <= t@.len(),
            forall|j: int| 0 <= j < k ==> v@[i + j] == t@[j],
        decreases t@.len() - k,
    {
        if v[i + k] != t[k] {
            assert(v@.subrange(i as int, i + t@.len())[k as int] != t@[k as int]);
            return false;
        }
        k += 1;
    }
    assert(v@.subrange(i as int, i + t@.len()) =~= t@);
    true
}

/// Whether `v` begins with `p`.
pub fn has_prefix(v: &[char], p: &[char]) -> (r: bool)
    ensures
        r == starts_with(v@, p@),
{
    let r = match_at(v, p, 0);
    assert(r == starts_with(v@, p@));
    r
}

/// Whether `t` occurs in `v`.
pub fn contains_chars(v: &[char], t: &[char]) -> (r: bool)
    ensures
        r == contains(v@, t@),
{
    if t.len() > v.len() {
        return false;
    }
    if t.len() == 0 {
        assert(v@.subrange(0, 0) =~= t@);
        assert(occurs_at(v@, t@, 0));
        return true;
    }
    let last = v.len() - t.len();
    let end = last + 1;
    let mut i: usize = 0;
    while i < end
        invariant
            last + t@.len() == v@.len(),
            end == last + 1,
            t@.len() > 0,
            i <= end,
            forall|j: int| 0 <= j < i ==> !occurs_at(v@, t@, j),
        decreases last + 1 - i,
    {
        if match_at(v, t, i) {
            return true;
        }
        i += 1;
    }
    assert forall|j: int| !occurs_at(v@, t@, j) by {
        if 0 <= j && j + t@.len() <= v@.len() {
            assert(j <= last);
        }
    }
    false
}

// ---------------------------------------------------------------------------
// ASCII case folding
// ---------------------------------------------------------------------------

/// `char::to_ascii_lowercase`.
pub open spec fn lower_char(c: char) -> char {
    if 'A' <= c && c <= 'Z' {
        ((c as u32) + 32) as char
    } else {
        c
    }
}

/// Every character of `s` folded with `lower_char`.
pub open spec fn lower_ascii(s: Seq<char>) -> Seq<char> {
    s.map_values(|c: char| lower_char(c))
}

pub fn lower_char_exec(c: char) -> (r: char)
    ensures
        r == lower_char(c),
{
    if 'A' <= c && c <= 'Z' {
        let b: u8 = (c as u32) as u8;
        (b + 32) as char
    } else {
        c
    }
}

/// `v` with every ASCII capital folded to lower case.
pub fn lower_ascii_vec(v: &[char]) -> (r: Vec<char>)
    ensures
        r@ == lower_ascii(v@),
{
    let mut r: Vec<char> = Vec::new();
    let mut i: usize = 0;
    while i < v.len()
        invariant
            i <= v@.len(),
            r@ == lower_ascii(v@.subrange(0, i as int)),
        decreases v@.len() - i,
    {
        r.push(lower_char_exec(v[i]));
        assert(lower_ascii(v@.subrange(0, i + 1)) =~= lower_ascii(v@.subrange(0, i as int)).push(
            lower_char(v@[i as int]),
        ));
        i += 1;
    }
    assert(v@.subrange(0, v@.len() as int) =~= v@);
    r
}

// ---------------------------------------------------------------------------
// Splitting
// ---------------------------------------------------------------------------

/// The pieces of `s` between occurrences of `sep` (`str::split` with a
/// character): always at least one piece, empty pieces kept.
pub open spec fn split_char(s: Seq<char>, sep: char) -> Seq<Seq<char>>
    decreases s.len(),
{
    if s.len() == 0 {
        seq![Seq::<char>::empty()]
    } else {
        let prev = split_char(s.drop_last(), sep);
        if s.last() == sep {
            prev.push(Seq::<char>::empty())
        } else {
            prev.update(prev.len() - 1, prev.last().push(s.last()))
        }
    }
}

/// The views of a sequence of strings.
pub open spec fn views(v: Seq<String>) -> Seq<Seq<char>> {
    v.map_values(|s: String| s@)
}

/// `s.split(sep)`, each piece as a `String`.
pub fn split_on(s: &str, sep: char) -> (r: Vec<String>)
    ensures
        views(r@) == split_char(s@, sep),
{
    let v = chars_of(s);
    let mut out: Vec<String> = Vec::new();
    let mut start: usize = 0;
    let mut i: usize = 0;
    assert(views(out@) =~= Seq::<Seq<char>>::empty());
    assert(v@.subrange(0, 0) =~= Seq::<char>::empty());
    assert(views(out@).push(v@.subrange(0, 0)) =~= split_char(v@.subrange(0, 0), sep));
    while i < v.len()
        invariant
            start <= i <= v@.len(),
            views(out@).push(v@.subrange(start as int, i as int)) == split_char(
                v@.subrange(0, i as int),
                sep,
            ),
        decreases v@.len() - i,
    {
        let ghost prev = views(out@).push(v@.subrange(start as int, i as int));
        assert(v@.subrange(0, i + 1).drop_last() =~= v@.subrange(0, i as int));
        let ghost old_views = views(out@);
        if v[i] == sep {
            let piece = string_of_range(v.as_slice(), start, i);
            out.push(piece);
            assert(views(out@) =~= old_views.push(v@.subrange(start as int, i as int)));
            assert(v@.subrange(i + 1, i + 1) =~= Seq::<char>::empty());
            start = i + 1;
            assert(views(out@).push(v@.subrange(start as int, i + 1)) =~= prev.push(
                Seq::<char>::empty(),
            ));
        } else {
            assert(v@.subrange(start as int, i + 1) =~= v@.subrange(start as int, i as int).push(
                v@[i as int],
            ));
            assert(views(out@).push(v@.subrange(start as int, i + 1)) =~= prev.update(
                prev.len() - 1,
                prev.last().push(v@[i as int]),
            ));
        }
        i += 1;
    }
    let last = string_of_range(v.as_slice(), start, v.len());
    out.push(last);
    assert(v@.subrange(0, v@.len() as int) =~= v@);
    assert(views(out@) =~= split_char(v@, sep));
    out
}

// ---------------------------------------------------------------------------
// Decimal numbers
// ---------------------------------------------------------------------------

pub open spec fn is_digit(c: char) -> bool {
    '0' <= c && c <= '9'
}

pub open spec fn digit_value(c: char) -> nat {
    ((c as u32) - 48) as nat
}

pub open spec fn all_digits(s: Seq<char>) -> bool {
    forall|i: int| 0 <= i < s.len() ==> is_digit(#[trigger] s[i])
}

/// The number that the decimal digits `s` denote.
pub open spec fn digits_value(s: Seq<char>) -> nat
    decreases s.len(),
{
    if s.len() == 0 {
        0
    } else {
        digits_value(s.drop_last()) * 10 + digit_value(s.last())
    }
}

/// The digits of `s` after an optional leading `+`.
pub open spec fn unsigned_digits(s: Seq<char>) -> Seq<char> {
    if s.len() > 0 && s[0] == '+' {
        s.drop_first()
    } else {
        s
    }
}

/// `str::parse` for an unsigned integer type whose largest value is `max`:
/// an optional `+`, then at least one ASCII digit, and nothing else.
pub open spec fn parse_unsigned(s: Seq<char>, max: nat) -> Option<nat> {
    let d = unsigned_digits(s);
    if d.len() == 0 || !all_digits(d) || digits_value(d) > max {
        None
    } else {
        Some(digits_value(d))
    }
}

/// `str::parse` for a signed integer type with range `-(max + 1) ..= max`.
pub open spec fn parse_signed(s: Seq<char>, max: nat) -> Option<int> {
    if s.len() > 0 && s[0] == '-' {
        let d = s.drop_first();
        if d.len() == 0 || !all_digits(d) || digits_value(d) > max + 1 {
            None
        } else {
            Some(-(digits_value(d) as int))
        }
    } else {
        match parse_unsigned(s, max) {
            Some(n) => Some(n as int),
            None => None,
        }
    }
}

pub proof fn lemma_digits_value_grows(t: Seq<char>, u: Seq<char>)
    ensures
        digits_value(t) <= digits_value(t + u),
    decreases u.len(),
{
    if u.len() > 0 {
        lemma_digits_value_grows(t, u.drop_last());
        assert((t + u).drop_last() =~= t + u.drop_last());
    } else {
        assert(t + u =~= t);
    }
}

/// The value of the digits `v[lo..hi]` when they are all digits and the value
/// is at most `max`; `None` otherwise.
pub fn digits_upto(v: &[char], lo: usize, hi: usize, max: u128) -> (r: Option<u128>)
    requires
        lo <= hi <= v@.len(),
    ensures
        ({
            let d = v@.subrange(lo as int, hi as int);
            match r {
                Some(n) => all_digits(d) && digits_value(d) <= max && n == digits_value(d),
                None => !all_digits(d) || digits_value(d) > max,
            }
        }),
{
    let ghost d = v@.subrange(lo as int, hi as int);
    let mut acc: u128 = 0;
    let mut i: usize = lo;
    while i < hi
        invariant
            lo <= i <= hi <= v@.len(),
            d == v@.subrange(lo as int, hi as int),
            all_digits(v@.subrange(lo as int, i as int)),
            acc == digits_value(v@.subrange(lo as int, i as int)),
            acc <= max,
        decreases hi - i,
    {
        let c = v[i];
        let ghost pre = v@.subrange(lo as int, i as int);
        let ghost next = v@.subrange(lo as int, i + 1);
        assert(next.drop_last() =~= pre);
        assert(d =~= next + v@.subrange(i + 1, hi as int));
        if !('0' <= c && c <= '9') {
            assert(!is_digit(d[i - lo]));
            return None;
        }
        let dv: u128 = ((c as u32) - 48) as u128;
        let m = acc.checked_mul(10);
        match m {
            None => {
                proof {
                    lemma_digits_value_grows(next, v@.subrange(i + 1, hi as int));
                }
                return None;
            },
            Some(m) => {
                let a = m.checked_add(dv);
                match a {
                    None => {
                        proof {
                            lemma_digits_value_grows(next, v@.subrange(i + 1, hi as int));
                        }
                        return None;
                    },
                    Some(a) => {
                        if a > max {
                            proof {
                                lemma_digits_value_grows(next, v@.subrange(i + 1, hi as int));
                            }
                            return None;
                        }
                        acc = a;
                    },
                }
            },
        }
        i += 1;
    }
    Some(acc)
}

/// `str::parse::<u64>`.
pub fn parse_u64(s: &str) -> (r: Option<u64>)
    ensures
        match parse_unsigned(s@, u64::MAX as nat) {
            Some(n) => r == Some(n as u64),
            None => r is None,
        },
{
    let v = chars_of(s);
    let lo: usize = if v.len() > 0 && v[0] == '+' { 1 } else { 0 };
    assert(unsigned_digits(v@) =~= v@.subrange(lo as int, v@.len() as int));
    if lo == v.len() {
        return None;
    }
    match digits_upto(v.as_slice(), lo, v.len(), u64::MAX as u128) {
        Some(n) => Some(n as u64),
        None => None,
    }
}

/// `str::parse::<u128>`.
pub fn parse_u128(s: &str) -> (r: Option<u128>)
    ensures
        match parse_unsigned(s@, u128::MAX as nat) {
            Some(n) => r == Some(n as u128),
            None => r is None,
        },
{
    let v = chars_of(s);
    let lo: usize = if v.len() > 0 && v[0] == '+' { 1 } else { 0 };
    assert(unsigned_digits(v@) =~= v@.subrange(lo as int, v@.len() as int));
    if lo == v.len() {
        return None;
    }
    digits_upto(v.as_slice(), lo, v.len(), u128::MAX)
}

/// `str::parse::<i64>`.
pub fn parse_i64(s: &str) -> (r: Option<i64>)
    ensures
        match parse_signed(s@, i64::MAX as nat) {
            Some(n) => r == Some(n as i64),
            None => r is None,
        },
{
    let v = chars_of(s);
    if v.len() > 0 && v[0] == '-' {
        assert(v@.drop_first() =~= v@.subrange(1, v@.len() as int));
        if v.len() == 1 {
            return None;
        }
        match digits_upto(v.as_slice(), 1, v.len(), 0x8000_0000_0000_0000u128) {
            Some(n) => {
                let m: i128 = -(n as i128);
                Some(m as i64)
            },
            None => None,
        }
    } else {
        let lo: usize = if v.len() > 0 && v[0] == '+' { 1 } else { 0 };
        assert(unsigned_digits(v@) =~= v@.subrange(lo as int, v@.len() as int));
        if lo == v.len() {
            return None;
        }
        match digits_upto(v.as_slice(), lo, v.len(), i64::MAX as u128) {
            Some(n) => Some(n as i64),
            None => None,
        }
    }
}

/// `str::parse::<i32>`.
pub fn parse_i32(s: &str) -> (r: Option<i32>)
    ensures
        match parse_signed(s@, i32::MAX as nat) {
            Some(n) => r == Some(n as i32),
            None => r is None,
        },
{
    let v = chars_of(s);
    if v.len() > 0 && v[0] == '-' {
        assert(v@.drop_first() =~= v@.subrange(1, v@.len() as int));
        if v.len() == 1 {
            return None;
        }
        match digits_upto(v.as_slice(), 1, v.len(), 0x8000_0000u128) {
            Some(n) => {
                let m: i64 = -(n as i64);
                Some(m as i32)
            },
            None => None,
        }
    } else {
        let lo: usize = if v.len() > 0 && v[0] == '+' { 1 } else { 0 };
        assert(unsigned_digits(v@) =~= v@.subrange(lo as int, v@.len() as int));
        if lo == v.len() {
            return None;
        }
        match digits_upto(v.as_slice(), lo, v.len(), i32::MAX as u128) {
            Some(n) => Some(n as i32),
            None => None,
        }
    }
}

/// The ASCII digit for `d < 10`.
pub open spec fn digit_char(d: nat) -> char {
    (d + 48) as char
}

/// The decimal digits of `n`, without leading zeros (`Display` for integers).
pub open spec fn decimal(n: nat) -> Seq<char>
    decreases n,
{
    if n < 10 {
        seq![digit_char(n)]
    } else {
        decimal(n / 10).push(digit_char(n % 10))
    }
}

/// `Display` for a signed integer.
pub open spec fn signed_decimal(i: int) -> Seq<char> {
    if i < 0 {
        seq!['-'] + decimal((-i) as nat)
    } else {
        decimal(i as nat)
    }
}

/// Appends the decimal digits of `n` to `s`.
pub fn push_u64(s: &mut String, n: u64)
    ensures
        final(s)@ == old(s)@ + decimal(n as nat),
    decreases n,
{
    if n >= 10 {
        push_u64(s, n / 10);
    }
    let d: u8 = (n % 10) as u8;
    push_char(s, (d + 48) as char);
    assert(final(s)@ =~= old(s)@ + decimal(n as nat));
}

/// Appends the decimal form of `n` to `s`.
pub fn push_i64(s: &mut String, n: i64)
    ensures
        final(s)@ == old(s)@ + signed_decimal(n as int),
{
    if n < 0 {
        push_char(s, '-');
        let m: u64 = (-(n as i128)) as u64;
        push_u64(s, m);
        assert(final(s)@ =~= old(s)@ + signed_decimal(n as int));
    } else {
        push_u64(s, n as u64);
    }
}

} // verus!
