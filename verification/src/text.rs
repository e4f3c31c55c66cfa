//! Text helpers: string operations of std with their contracts, and decimal
//! conversions of integers proved against their mathematical meaning.
use vstd::prelude::*;

verus! {

/// The lower-case form of a string as Unicode defines it (`str::to_lowercase`).
pub uninterp spec fn unicode_lowercase(s: Seq<char>) -> Seq<char>;

/// The upper-case form of a string as Unicode defines it (`str::to_uppercase`).
pub uninterp spec fn unicode_uppercase(s: Seq<char>) -> Seq<char>;

/// `c` has the Unicode `White_Space` property, as `char::is_whitespace` reads it:
/// U+0009 to U+000D, U+0020, U+0085, U+00A0, U+1680, U+2000 to U+200A, U+2028,
/// U+2029, U+202F, U+205F and U+3000.
pub open spec fn is_white_space(c: char) -> bool {
    let n = c as u32;
    ||| 0x9 <= n <= 0xD
    ||| n == 0x20
    ||| n == 0x85
    ||| n == 0xA0
    ||| n == 0x1680
    ||| 0x2000 <= n <= 0x200A
    ||| n == 0x2028
    ||| n == 0x2029
    ||| n == 0x202F
    ||| n == 0x205F
    ||| n == 0x3000
}

/// A string without its leading white space.
pub open spec fn trimmed_start(s: Seq<char>) -> Seq<char>
    decreases s.len(),
{
    if s.len() > 0 && is_white_space(s[0]) {
        trimmed_start(s.subrange(1, s.len() as int))
    } else {
        s
    }
}

/// A string without its trailing white space.
pub open spec fn trimmed_end(s: Seq<char>) -> Seq<char>
    decreases s.len(),
{
    if s.len() > 0 && is_white_space(s.last()) {
        trimmed_end(s.drop_last())
    } else {
        s
    }
}

/// A string with its leading and trailing Unicode white space removed (`str::trim`).
pub open spec fn unicode_trimmed(s: Seq<char>) -> Seq<char> {
    trimmed_end(trimmed_start(s))
}

/// Calls `str::to_lowercase`; the result is named, since Unicode case mapping
/// takes tables to state.
#[verifier::external_body]
pub fn to_lowercase(s: &str) -> (r: String)
    ensures
        r@ == unicode_lowercase(s@),
{
    s.to_lowercase()
}

/// Calls `str::to_uppercase`; the result is named, since Unicode case mapping
/// takes tables to state.
#[verifier::external_body]
pub fn to_uppercase(s: &str) -> (r: String)
    ensures
        r@ == unicode_uppercase(s@),
{
    s.to_uppercase()
}

/// Tells whether `c` is Unicode white space.
pub fn is_white_space_char(c: char) -> (r: bool)
    ensures
        r == is_white_space(c),
{
    let n = c as u32;
    (0x9 <= n && n <= 0xD) || n == 0x20 || n == 0x85 || n == 0xA0 || n == 0x1680 || (0x2000 <= n && n
        <= 0x200A) || n == 0x2028 || n == 0x2029 || n == 0x202F || n == 0x205F || n == 0x3000
}

/// A copy of the string without its leading and trailing white space, as
/// `str::trim` gives it.
pub fn trim(s: &str) -> (r: String)
    ensures
        r@ == unicode_trimmed(s@),
{
    let cs = chars_of(s);
    let n = cs.len();
    let mut i: usize = 0;
    assert(s@.subrange(0, n as int) =~= s@);
    while i < n && is_white_space_char(cs[i])
        invariant
            i <= n,
            n == cs@.len(),
            cs@ == s@,
            trimmed_start(s@) == trimmed_start(s@.subrange(i as int, n as int)),
        decreases n - i,
    {
        assert(s@.subrange(i as int, n as int).subrange(1, (n - i) as int) =~= s@.subrange(i + 1, n as int));
        i = i + 1;
    }
    assert(trimmed_start(s@) == s@.subrange(i as int, n as int));
    let mut j: usize = n;
    while j > i && is_white_space_char(cs[j - 1])
        invariant
            i <= j <= n,
            n == cs@.len(),
            cs@ == s@,
            unicode_trimmed(s@) == trimmed_end(s@.subrange(i as int, j as int)),
        decreases j,
    {
        assert(s@.subrange(i as int, j as int).drop_last() =~= s@.subrange(i as int, j - 1));
        j = j - 1;
    }
    string_from_range(cs.as_slice(), i, j)
}

/// Two string slices are equal when they hold the same characters
/// (`<str as PartialEq>::eq`).
pub fn str_eq(a: &str, b: &str) -> (r: bool)
    ensures
        r == (a@ == b@),
{
    let ca = chars_of(a);
    let cb = chars_of(b);
    if ca.len() != cb.len() {
        return false;
    }
    let mut i: usize = 0;
    while i < ca.len()
        invariant
            i <= ca@.len(),
            ca@.len() == cb@.len(),
            ca@ == a@,
            cb@ == b@,
            forall|k: int| 0 <= k < i ==> ca@[k] == cb@[k],
        decreases ca@.len() - i,
    {
        if ca[i] != cb[i] {
            return false;
        }
        i = i + 1;
    }
    assert(a@ =~= b@);
    true
}

/// Calls `String::push`: appends one character.
#[verifier::external_body]
pub fn push_char(s: &mut String, c: char)
    ensures
        final(s)@ == old(s)@.push(c),
{
    s.push(c)
}

/// Calls `str::chars` and collects the characters of a string slice.
#[verifier::external_body]
pub fn chars_of(s: &str) -> (r: Vec<char>)
    ensures
        r@ == s@,
{
    s.chars().collect()
}

/// Copies a string slice into a new `String`.
pub fn owned(s: &str) -> (r: String)
    ensures
        r@ == s@,
{
    s.to_owned()
}

/// Builds a `String` from a sequence of characters.
pub fn string_from_chars(cs: &[char]) -> (r: String)
    ensures
        r@ == cs@,
{
    let mut r = String::new();
    let mut i: usize = 0;
    while i < cs.len()
        invariant
            i <= cs@.len(),
            r@ == cs@.subrange(0, i as int),
        decreases cs@.len() - i,
    {
        push_char(&mut r, cs[i]);
        i = i + 1;
        assert(r@ =~= cs@.subrange(0, i as int));
    }
    assert(cs@.subrange(0, cs@.len() as int) =~= cs@);
    r
}


/// The ASCII lower-case form of a character (`char::to_ascii_lowercase`).
pub open spec fn ascii_lower_char(c: char) -> char {
    if 'A' <= c && c <= 'Z' {
        ((c as u32) + 32) as char
    } else {
        c
    }
}

/// The ASCII lower-case form of a string (`str::to_ascii_lowercase`).
pub open spec fn ascii_lower(s: Seq<char>) -> Seq<char> {
    s.map_values(|c: char| ascii_lower_char(c))
}

/// Lower-cases the ASCII letters of a string, as `str::to_ascii_lowercase` does.
pub fn to_ascii_lowercase(s: &str) -> (r: String)
    ensures
        r@ == ascii_lower(s@),
{
    let cs = chars_of(s);
    let mut out: Vec<char> = Vec::new();
    let mut i: usize = 0;
    while i < cs.len()
        invariant
            i <= cs@.len(),
            out@ == ascii_lower(cs@.subrange(0, i as int)),
        decreases cs@.len() - i,
    {
        let c = cs[i];
        let l = if 'A' <= c && c <= 'Z' {
            let code: u32 = c as u32 + 32;
            // Upper-case ASCII letters map onto the lower-case ones.
            if code == 97 { 'a' } else if code == 98 { 'b' } else if code == 99 { 'c' }
            else if code == 100 { 'd' } else if code == 101 { 'e' } else if code == 102 { 'f' }
            else if code == 103 { 'g' } else if code == 104 { 'h' } else if code == 105 { 'i' }
            else if code == 106 { 'j' } else if code == 107 { 'k' } else if code == 108 { 'l' }
            else if code == 109 { 'm' } else if code == 110 { 'n' } else if code == 111 { 'o' }
            else if code == 112 { 'p' } else if code == 113 { 'q' } else if code == 114 { 'r' }
            else if code == 115 { 's' } else if code == 116 { 't' } else if code == 117 { 'u' }
            else if code == 118 { 'v' } else if code == 119 { 'w' } else if code == 120 { 'x' }
            else if code == 121 { 'y' } else { 'z' }
        } else {
            c
        };
        out.push(l);
        i = i + 1;
        assert(out@ =~= ascii_lower(cs@.subrange(0, i as int)));
    }
    assert(cs@.subrange(0, cs@.len() as int) =~= cs@);
    string_from_chars(out.as_slice())
}

/// `a` equals `b` when ASCII letters are compared without case
/// (`str::eq_ignore_ascii_case`).
pub open spec fn eq_ignore_ascii_case(a: Seq<char>, b: Seq<char>) -> bool {
    ascii_lower(a) == ascii_lower(b)
}

pub fn str_eq_ignore_ascii_case(a: &str, b: &str) -> (r: bool)
    ensures
        r == eq_ignore_ascii_case(a@, b@),
{
    let la = to_ascii_lowercase(a);
    let lb = to_ascii_lowercase(b);
    str_eq(la.as_str(), lb.as_str())
}

/// `s` begins with `p`.
pub open spec fn starts_with(s: Seq<char>, p: Seq<char>) -> bool {
    p.len() <= s.len() && s.subrange(0, p.len() as int) == p
}

/// `s` begins with `p` (`str::starts_with` with a string pattern).
pub fn str_starts_with(s: &str, p: &str) -> (r: bool)
    ensures
        r == starts_with(s@, p@),
{
    let cs = chars_of(s);
    let cp = chars_of(p);
    if cp.len() > cs.len() {
        return false;
    }
    let mut i: usize = 0;
    while i < cp.len()
        invariant
            i <= cp@.len() <= cs@.len(),
            cs@ == s@,
            cp@ == p@,
            forall|k: int| 0 <= k < i ==> cs@[k] == cp@[k],
        decreases cp@.len() - i,
    {
        if cs[i] != cp[i] {
            assert(s@.subrange(0, p@.len() as int)[i as int] != p@[i as int]);
            return false;
        }
        i = i + 1;
    }
    assert(s@.subrange(0, p@.len() as int) =~= p@);
    true
}

/// `p` occurs in `s` at some position.
pub open spec fn contains_at(s: Seq<char>, p: Seq<char>, i: int) -> bool {
    0 <= i && i + p.len() <= s.len() && s.subrange(i, i + p.len()) == p
}

pub open spec fn contains(s: Seq<char>, p: Seq<char>) -> bool {
    exists|i: int| contains_at(s, p, i)
}

/// `p` occurs in `s` (`str::contains` with a string pattern).
pub fn str_contains(s: &str, p: &str) -> (r: bool)
    ensures
        r == contains(s@, p@),
{
    let cs = chars_of(s);
    let cp = chars_of(p);
    if cp.len() > cs.len() {
        assert forall|k: int| !contains_at(s@, p@, k) by {}
        return false;
    }
    if cp.len() == 0 {
        assert(s@.subrange(0, 0) =~= p@);
        assert(contains_at(s@, p@, 0));
        return true;
    }
    let n = cs.len();
    let last = n - cp.len();
    let mut i: usize = 0;
    while i <= last
        invariant
            last == cs@.len() - cp@.len(),
            n == cs@.len(),
            0 < cp@.len() <= cs@.len(),
            cs@ == s@,
            cp@ == p@,
            forall|k: int| 0 <= k < i ==> !contains_at(s@, p@, k),
        decreases last + 1 - i,
    {
        let mut j: usize = 0;
        while j < cp.len() && cs[i + j] == cp[j]
            invariant
                j <= cp@.len(),
                i <= last,
                n == cs@.len(),
                0 < cp@.len() <= cs@.len(),
                last == cs@.len() - cp@.len(),
                cs@ == s@,
                cp@ == p@,
                forall|k: int| 0 <= k < j ==> cs@[i + k] == cp@[k],
            decreases cp@.len() - j,
        {
            j = j + 1;
        }
        if j == cp.len() {
            assert(s@.subrange(i as int, i + p@.len()) =~= p@);
            assert(contains_at(s@, p@, i as int));
            return true;
        }
        assert(s@.subrange(i as int, i + p@.len())[j as int] != p@[j as int]);
        i = i + 1;
    }
    assert forall|k: int| !contains_at(s@, p@, k) by {
        if 0 <= k && k + p@.len() <= s@.len() {
            assert(k < i);
        }
    }
    false
}

/// `str::split_once` with a character: the text before and after the first
/// occurrence of `c`.
pub open spec fn split_once(s: Seq<char>, c: char) -> Option<(Seq<char>, Seq<char>)> {
    match s.index_of_first(c) {
        Some(i) => Some((s.subrange(0, i), s.subrange(i + 1, s.len() as int))),
        None => None,
    }
}

/// Splits at the first occurrence of a character, as `str::split_once` does.
pub fn split_once_char(s: &str, c: char) -> (r: Option<(String, String)>)
    ensures
        match r {
            Some((a, b)) => split_once(s@, c) == Some((a@, b@)),
            None => split_once(s@, c) is None,
        },
{
    let cs = chars_of(s);
    let mut i: usize = 0;
    while i < cs.len()
        invariant
            i <= cs@.len(),
            cs@ == s@,
            forall|k: int| 0 <= k < i ==> cs@[k] != c,
        decreases cs@.len() - i,
    {
        if cs[i] == c {
            proof {
                s@.index_of_first_ensures(c);
                let j = s@.index_of_first(c).unwrap();
                assert(s@[i as int] == c);
                assert(j == i);
            }
            let before = string_from_range(cs.as_slice(), 0, i);
            let after = string_from_range(cs.as_slice(), i + 1, cs.len());
            return Some((before, after));
        }
        i = i + 1;
    }
    proof {
        s@.index_of_first_ensures(c);
        if s@.contains(c) {
            let j = s@.index_of_first(c).unwrap();
            assert(s@[j] == c);
        }
    }
    None
}

/// Builds a `String` from the characters `cs[from..to]`.
pub fn string_from_range(cs: &[char], from: usize, to: usize) -> (r: String)
    requires
        from <= to <= cs@.len(),
    ensures
        r@ == cs@.subrange(from as int, to as int),
{
    let mut r = String::new();
    let mut k: usize = from;
    while k < to
        invariant
            from <= k <= to,
            to <= cs@.len(),
            r@ == cs@.subrange(from as int, k as int),
        decreases to - k,
    {
        push_char(&mut r, cs[k]);
        k = k + 1;
        assert(r@ =~= cs@.subrange(from as int, k as int));
    }
    r
}

/// `c` is one of the ASCII digits `0` to `9`.
pub open spec fn is_ascii_digit(c: char) -> bool {
    '0' <= c && c <= '9'
}

/// The value of an ASCII digit.
pub open spec fn digit_value(c: char) -> int {
    (c as int) - ('0' as int)
}

/// The value of a non-empty run of ASCII digits read as a decimal numeral.
pub open spec fn digits_value(ds: Seq<char>) -> int
    decreases ds.len(),
{
    if ds.len() == 0 {
        0
    } else {
        digits_value(ds.drop_last()) * 10 + digit_value(ds.last())
    }
}

/// All characters of `ds` are ASCII digits.
pub open spec fn all_digits(ds: Seq<char>) -> bool {
    forall|i: int| 0 <= i < ds.len() ==> is_ascii_digit(#[trigger] ds[i])
}

/// What `str::parse::<i64>` gives back: an optional `+` or `-`, then at least one
/// ASCII digit and nothing else, with a value that fits an `i64`.
pub open spec fn spec_parse_i64(s: Seq<char>) -> Option<i64> {
    let negative = s.len() > 0 && s[0] == '-';
    let signed = s.len() > 0 && (s[0] == '-' || s[0] == '+');
    let ds = if signed { s.drop_first() } else { s };
    let v = if negative { -digits_value(ds) } else { digits_value(ds) };
    if ds.len() > 0 && all_digits(ds) && i64::MIN <= v <= i64::MAX {
        Some(v as i64)
    } else {
        None
    }
}

proof fn lemma_digits_value_nonneg(ds: Seq<char>)
    requires
        all_digits(ds),
    ensures
        digits_value(ds) >= 0,
    decreases ds.len(),
{
    if ds.len() > 0 {
        assert(all_digits(ds.drop_last())) by {
            assert forall|i: int| 0 <= i < ds.drop_last().len() implies is_ascii_digit(
                #[trigger] ds.drop_last()[i],
            ) by {
                assert(ds.drop_last()[i] == ds[i]);
            }
        }
        lemma_digits_value_nonneg(ds.drop_last());
        assert(is_ascii_digit(ds[ds.len() - 1]));
    }
}

/// Parses a string as `str::parse::<i64>` does.
pub fn parse_i64(s: &str) -> (r: Option<i64>)
    ensures
        r == spec_parse_i64(s@),
{
    let cs = chars_of(s);
    let n = cs.len();
    if n == 0 {
        return None;
    }
    let negative = cs[0] == '-';
    let start: usize = if cs[0] == '-' || cs[0] == '+' { 1 } else { 0 };
    let ghost ds = if start == 1 { cs@.drop_first() } else { cs@ };
    assert(ds =~= cs@.subrange(start as int, n as int));
    if start >= n {
        return None;
    }
    // The largest magnitude that the sign admits.
    let limit: u64 = if negative { 9223372036854775808u64 } else { 9223372036854775807u64 };
    let mut mag: u64 = 0;
    let mut i: usize = start;
    let mut exceeded = false;
    while i < n
        invariant
            start <= i <= n,
            n == cs@.len(),
            cs@ == s@,
            n > 0,
            negative == (cs@[0] == '-'),
            start == (if cs@[0] == '-' || cs@[0] == '+' { 1usize } else { 0usize }),
            ds =~= cs@.subrange(start as int, n as int),
            all_digits(ds.subrange(0, i - start)),
            !exceeded ==> mag as int == digits_value(ds.subrange(0, i - start)),
            !exceeded ==> mag <= limit,
            exceeded ==> digits_value(ds.subrange(0, i - start)) > limit,
            limit == (if negative { 9223372036854775808u64 } else { 9223372036854775807u64 }),
        decreases n - i,
    {
        let c = cs[i];
        if !('0' <= c && c <= '9') {
            assert(!all_digits(ds)) by {
                assert(ds[i - start] == c);
                assert(!is_ascii_digit(ds[i - start]));
            }
            assert(spec_parse_i64(s@) is None) by {
                assert(cs@ == s@);
            }
            return None;
        }
        let d: u64 = (c as u32 - '0' as u32) as u64;
        let ghost pre = ds.subrange(0, i - start);
        let ghost next = ds.subrange(0, i - start + 1);
        assert(next.drop_last() =~= pre);
        assert(next.last() == c);
        assert(all_digits(next)) by {
            assert forall|j: int| 0 <= j < next.len() implies is_ascii_digit(#[trigger] next[j]) by {
                if j < pre.len() {
                    assert(next[j] == pre[j]);
                }
            }
        }
        assert(digits_value(next) == digits_value(pre) * 10 + d);
        proof {
            lemma_digits_value_nonneg(pre);
        }
        if exceeded || d > limit || mag > (limit - d) / 10 {
            assert(digits_value(next) > limit) by (nonlinear_arith)
                requires
                    digits_value(next) == digits_value(pre) * 10 + d,
                    digits_value(pre) >= 0,
                    exceeded ==> digits_value(pre) > limit,
                    !exceeded ==> mag == digits_value(pre),
                    exceeded || d > limit || mag > (limit - d) / 10,
                    0 <= d <= 9,
            ;
            exceeded = true;
        } else {
            assert(mag * 10 + d <= limit) by (nonlinear_arith)
                requires
                    mag <= (limit - d) / 10,
                    d <= limit,
            ;
            mag = mag * 10 + d;
        }
        i = i + 1;
    }
    assert(ds.subrange(0, n - start) =~= ds);
    if exceeded {
        return None;
    }
    if negative {
        if mag == 9223372036854775808u64 {
            Some(i64::MIN)
        } else {
            Some(-(mag as i64))
        }
    } else {
        Some(mag as i64)
    }
}

/// The decimal numeral of a natural number, most significant digit first.
pub open spec fn nat_digits(n: nat) -> Seq<char>
    decreases n,
{
    if n < 10 {
        seq![digit_char(n)]
    } else {
        nat_digits(n / 10).push(digit_char(n % 10))
    }
}

/// The ASCII digit for a value below ten.
pub open spec fn digit_char(d: nat) -> char {
    if d == 0 {
        '0'
    } else if d == 1 {
        '1'
    } else if d == 2 {
        '2'
    } else if d == 3 {
        '3'
    } else if d == 4 {
        '4'
    } else if d == 5 {
        '5'
    } else if d == 6 {
        '6'
    } else if d == 7 {
        '7'
    } else if d == 8 {
        '8'
    } else {
        '9'
    }
}

/// What `i64::to_string` gives back: a `-` for negative values, then the
/// decimal numeral of the magnitude.
pub open spec fn spec_i64_text(v: i64) -> Seq<char> {
    if v < 0 {
        seq!['-'] + nat_digits((-(v as int)) as nat)
    } else {
        nat_digits(v as nat)
    }
}

fn digit_to_char(d: u64) -> (c: char)
    requires
        d < 10,
    ensures
        c == digit_char(d as nat),
{
    if d == 0 {
        '0'
    } else if d == 1 {
        '1'
    } else if d == 2 {
        '2'
    } else if d == 3 {
        '3'
    } else if d == 4 {
        '4'
    } else if d == 5 {
        '5'
    } else if d == 6 {
        '6'
    } else if d == 7 {
        '7'
    } else if d == 8 {
        '8'
    } else {
        '9'
    }
}

fn u64_digits(n: u64) -> (r: Vec<char>)
    ensures
        r@ == nat_digits(n as nat),
    decreases n,
{
    if n < 10 {
        let mut v = Vec::new();
        v.push(digit_to_char(n));
        v
    } else {
        let mut v = u64_digits(n / 10);
        v.push(digit_to_char(n % 10));
        v
    }
}

/// Writes a natural number in decimal, as `u64::to_string` does.
pub fn u64_to_text(n: u64) -> (r: String)
    ensures
        r@ == nat_digits(n as nat),
{
    let ds = u64_digits(n);
    string_from_chars(ds.as_slice())
}

/// Writes an integer in decimal, as `i64::to_string` does.
pub fn i64_to_text(v: i64) -> (r: String)
    ensures
        r@ == spec_i64_text(v),
{
    if v < 0 {
        let mag: u64 = if v == i64::MIN {
            9223372036854775808u64
        } else {
            (-v) as u64
        };
        let ds = u64_digits(mag);
        let mut cs: Vec<char> = Vec::new();
        cs.push('-');
        let mut i: usize = 0;
        while i < ds.len()
            invariant
                i <= ds@.len(),
                cs@ == seq!['-'] + ds@.subrange(0, i as int),
            decreases ds@.len() - i,
        {
            cs.push(ds[i]);
            i = i + 1;
            assert(cs@ =~= seq!['-'] + ds@.subrange(0, i as int));
        }
        assert(ds@.subrange(0, ds@.len() as int) =~= ds@);
        string_from_chars(cs.as_slice())
    } else {
        let ds = u64_digits(v as u64);
        string_from_chars(ds.as_slice())
    }
}

} // verus!

verus! {

/// The concatenation of two strings.
pub fn concat(a: &str, b: &str) -> (r: String)
    ensures
        r@ == a@ + b@,
{
    let mut r = a.to_owned();
    r.append(b);
    r
}

/// The number of bytes that UTF-8 takes for a character.
pub open spec fn utf8_len(c: char) -> int {
    if (c as u32) < 0x80 {
        1
    } else if (c as u32) < 0x800 {
        2
    } else if (c as u32) < 0x10000 {
        3
    } else {
        4
    }
}

/// What `str::split_at(n)` leaves after its first `n` bytes: none where byte
/// `n` is past the end or inside a character (there `split_at` panics).
pub open spec fn rest_after_bytes(s: Seq<char>, n: int) -> Option<Seq<char>>
    decreases s.len(),
{
    if n == 0 {
        Some(s)
    } else if n < 0 || s.len() == 0 || utf8_len(s[0]) > n {
        None
    } else {
        rest_after_bytes(s.drop_first(), n - utf8_len(s[0]))
    }
}

/// The text after the first `n` bytes of `s`, where byte `n` is at a character
/// boundary.
pub fn split_off_bytes(s: &str, n: usize) -> (r: Option<String>)
    ensures
        opt_seq(r) == rest_after_bytes(s@, n as int),
{
    let cs = chars_of(s);
    let mut i: usize = 0;
    let mut rem: usize = n;
    assert(cs@.subrange(0, cs@.len() as int) =~= cs@);
    while rem > 0
        invariant
            i <= cs@.len(),
            cs@ == s@,
            rest_after_bytes(s@, n as int) == rest_after_bytes(cs@.subrange(i as int, cs@.len() as int), rem as int),
        decreases cs@.len() - i,
    {
        let ghost sub = cs@.subrange(i as int, cs@.len() as int);
        if i >= cs.len() {
            return None;
        }
        let c = cs[i];
        let code = c as u32;
        let l: usize = if code < 0x80 {
            1
        } else if code < 0x800 {
            2
        } else if code < 0x10000 {
            3
        } else {
            4
        };
        assert(sub[0] == c);
        assert(l == utf8_len(sub[0]));
        if l > rem {
            return None;
        }
        assert(sub.drop_first() =~= cs@.subrange(i + 1, cs@.len() as int));
        rem = rem - l;
        i = i + 1;
    }
    Some(string_from_range(cs.as_slice(), i, cs.len()))
}

pub open spec fn opt_seq(o: Option<String>) -> Option<Seq<char>> {
    match o {
        Some(s) => Some(s@),
        None => None,
    }
}

/// What `str::parse::<i32>` gives back: as for an `i64`, within the range of an `i32`.
pub open spec fn spec_parse_i32(s: Seq<char>) -> Option<i32> {
    match spec_parse_i64(s) {
        Some(v) => if i32::MIN <= v <= i32::MAX {
            Some(v as i32)
        } else {
            None
        },
        None => None,
    }
}

/// Parses a string as `str::parse::<i32>` does.
pub fn parse_i32(s: &str) -> (r: Option<i32>)
    ensures
        r == spec_parse_i32(s@),
{
    match parse_i64(s) {
        Some(v) => if i32::MIN as i64 <= v && v <= i32::MAX as i64 {
            Some(v as i32)
        } else {
            None
        },
        None => None,
    }
}

} // verus!
