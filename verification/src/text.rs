//! Character-level text handling shared by the client and the relay:
//! whitespace trimming, decimal and hexadecimal rendering, integer parsing.
use vstd::prelude::*;

verus! {

// ---------------------------------------------------------------------------
// Whitespace and trimming
// ---------------------------------------------------------------------------

/// The Unicode `White_Space` code points: the set that `char::is_whitespace`
/// accepts and that `str::trim` strips.
pub open spec fn is_space(c: char) -> bool {
    let u = c as u32;
    ||| 0x09 <= u <= 0x0D
    ||| u == 0x20 || u == 0x85 || u == 0xA0 || u == 0x1680
    ||| 0x2000 <= u <= 0x200A
    ||| u == 0x2028 || u == 0x2029 || u == 0x202F || u == 0x205F || u == 0x3000
}

/// `s` without its leading whitespace.
pub open spec fn trim_start(s: Seq<char>) -> Seq<char>
    decreases s.len(),
{
    if s.len() > 0 && is_space(s[0]) {
        trim_start(s.drop_first())
    } else {
        s
    }
}

/// `s` without its trailing whitespace.
pub open spec fn trim_end(s: Seq<char>) -> Seq<char>
    decreases s.len(),
{
    if s.len() > 0 && is_space(s.last()) {
        trim_end(s.drop_last())
    } else {
        s
    }
}

/// What `str::trim` returns.
pub open spec fn trim(s: Seq<char>) -> Seq<char> {
    trim_end(trim_start(s))
}

/// A text that is empty once trimmed.
pub open spec fn is_blank(s: Seq<char>) -> bool {
    trim(s).len() == 0
}

/// `s` without any trailing `'/'` (what `trim_end_matches('/')` returns).
pub open spec fn trim_trailing_slashes(s: Seq<char>) -> Seq<char>
    decreases s.len(),
{
    if s.len() > 0 && s.last() == '/' {
        trim_trailing_slashes(s.drop_last())
    } else {
        s
    }
}

pub fn is_space_char(c: char) -> (r: bool)
    ensures
        r == is_space(c),
{
    let u = c as u32;
    (0x09 <= u && u <= 0x0D) || u == 0x20 || u == 0x85 || u == 0xA0 || u == 0x1680 || (0x2000
        <= u && u <= 0x200A) || u == 0x2028 || u == 0x2029 || u == 0x202F || u == 0x205F || u
        == 0x3000
}

/// The characters of `s`, in order.
pub fn chars_of(s: &str) -> (v: Vec<char>)
    ensures
        v@ == s@,
{
    let mut v: Vec<char> = Vec::new();
    for c in it: s.chars()
        invariant
            v@ == it.seq().take(it.index() as int),
    {
        v.push(c);
    }
    v
}

/// `String::push`: appends one character.
#[verifier::external_body]
fn push_char(s: &mut String, c: char)
    ensures
        final(s)@ == old(s)@.push(c),
{
    s.push(c);
}

/// A `String` holding exactly the given characters.
pub fn string_from_chars(v: &[char]) -> (s: String)
    ensures
        s@ == v@,
{
    let mut s = String::new();
    let n = v.len();
    for i in 0..n
        invariant
            n == v@.len(),
            s@ == v@.take(i as int),
    {
        push_char(&mut s, v[i]);
        assert(v@.take(i + 1) == v@.take(i as int).push(v@[i as int]));
    }
    assert(v@.take(n as int) == v@);
    s
}

/// `a` followed by `b`, as a new `String`.
pub fn concat_str(a: &str, b: &str) -> (s: String)
    ensures
        s@ == a@ + b@,
{
    let mut s = a.to_owned();
    s.append(b);
    s
}

/// Whether two texts hold the same characters.
pub fn same_text(a: &str, b: &str) -> (r: bool)
    ensures
        r == (a@ == b@),
{
    let x = a.to_owned();
    let y = b.to_owned();
    x == y
}

proof fn lemma_trim_start_step(s: Seq<char>, i: int)
    requires
        0 <= i < s.len(),
        is_space(s[i]),
    ensures
        trim_start(s.subrange(i, s.len() as int)) == trim_start(s.subrange(i + 1, s.len() as int)),
{
    let t = s.subrange(i, s.len() as int);
    assert(t.drop_first() == s.subrange(i + 1, s.len() as int));
}

proof fn lemma_trim_end_step(s: Seq<char>, j: int)
    requires
        0 < j <= s.len(),
        is_space(s[j - 1]),
    ensures
        trim_end(s.subrange(0, j)) == trim_end(s.subrange(0, j - 1)),
{
    let t = s.subrange(0, j);
    assert(t.drop_last() == s.subrange(0, j - 1));
}

/// The characters of `s` with leading and trailing whitespace removed.
pub fn trim_chars(s: &[char]) -> (r: Vec<char>)
    ensures
        r@ == trim(s@),
{
    let n = s.len();
    let mut i: usize = 0;
    assert(s@.subrange(0, n as int) == s@);
    while i < n && is_space_char(s[i])
        invariant
            i <= n,
            n == s@.len(),
            trim_start(s@) == trim_start(s@.subrange(i as int, n as int)),
        decreases n - i,
    {
        proof {
            lemma_trim_start_step(s@, i as int);
        }
        i = i + 1;
    }
    let ghost start = s@.subrange(i as int, n as int);
    assert(trim_start(start) == start);
    let mut j: usize = n;
    assert(start.subrange(0, (j - i) as int) == start);
    while j > i && is_space_char(s[j - 1])
        invariant
            i <= j <= n,
            n == s@.len(),
            start == s@.subrange(i as int, n as int),
            trim_end(start) == trim_end(start.subrange(0, (j - i) as int)),
        decreases j,
    {
        proof {
            lemma_trim_end_step(start, (j - i) as int);
        }
        j = j - 1;
    }
    let ghost fin = start.subrange(0, (j - i) as int);
    assert(trim_end(fin) == fin);
    let mut r: Vec<char> = Vec::new();
    let mut k: usize = i;
    while k < j
        invariant
            i <= k <= j <= n,
            n == s@.len(),
            r@ == s@.subrange(i as int, k as int),
        decreases j - k,
    {
        r.push(s[k]);
        k = k + 1;
    }
    assert(r@ == fin);
    r
}

/// A text that neither starts nor ends with whitespace is its own trim.
pub proof fn lemma_trim_unchanged(s: Seq<char>)
    requires
        s.len() > 0 ==> !is_space(s[0]) && !is_space(s.last()),
    ensures
        trim(s) == s,
{
    assert(trim_start(s) == s);
    assert(trim_end(s) == s);
}

/// `str::trim`, as a new `String`.
pub fn trim_text(s: &str) -> (r: String)
    ensures
        r@ == trim(s@),
{
    let v = chars_of(s);
    let t = trim_chars(v.as_slice());
    string_from_chars(t.as_slice())
}

/// Whether `s` is empty once trimmed.
pub fn blank_text(s: &str) -> (r: bool)
    ensures
        r == is_blank(s@),
{
    let v = chars_of(s);
    let t = trim_chars(v.as_slice());
    t.len() == 0
}

/// `trim_end_matches('/')`.
pub fn trim_trailing_slashes_text(s: &[char]) -> (r: Vec<char>)
    ensures
        r@ == trim_trailing_slashes(s@),
{
    let n = s.len();
    let mut j: usize = n;
    assert(s@.subrange(0, n as int) == s@);
    while j > 0 && s[j - 1] == '/'
        invariant
            j <= n,
            n == s@.len(),
            trim_trailing_slashes(s@) == trim_trailing_slashes(s@.subrange(0, j as int)),
        decreases j,
    {
        assert(s@.subrange(0, j as int).drop_last() == s@.subrange(0, j - 1));
        j = j - 1;
    }
    let mut r: Vec<char> = Vec::new();
    let mut k: usize = 0;
    while k < j
        invariant
            k <= j <= n,
            n == s@.len(),
            r@ == s@.subrange(0, k as int),
        decreases j - k,
    {
        r.push(s[k]);
        k = k + 1;
    }
    r
}

// ---------------------------------------------------------------------------
// Byte length
// ---------------------------------------------------------------------------

/// The length in bytes of the UTF-8 encoding of `s` (what `str::len` returns).
pub open spec fn utf8_len(s: Seq<char>) -> nat {
    vstd::utf8::encode_utf8(s).len()
}

pub fn byte_len(s: &str) -> (n: usize)
    ensures
        n == utf8_len(s@),
{
    s.as_bytes().len()
}

// ---------------------------------------------------------------------------
// Decimal numbers
// ---------------------------------------------------------------------------

/// The ASCII digit for `d` in `0..=9`.
pub open spec fn digit_char(d: int) -> char {
    (d + 48) as char
}

/// Whether `c` is an ASCII decimal digit.
pub open spec fn is_digit(c: char) -> bool {
    '0' <= c <= '9'
}

/// Whether every character of `s` is an ASCII decimal digit.
pub open spec fn all_digits(s: Seq<char>) -> bool {
    forall|i: int| 0 <= i < s.len() ==> is_digit(#[trigger] s[i])
}

/// Decimal rendering of a natural number, without leading zeros.
pub open spec fn decimal_nat(n: nat) -> Seq<char>
    decreases n,
{
    if n < 10 {
        seq![digit_char(n as int)]
    } else {
        decimal_nat(n / 10).push(digit_char((n % 10) as int))
    }
}

/// Decimal rendering of an integer, as `Display` writes it.
pub open spec fn decimal(i: int) -> Seq<char> {
    if i < 0 {
        seq!['-'] + decimal_nat((-i) as nat)
    } else {
        decimal_nat(i as nat)
    }
}

fn decimal_u64_chars(n: u64) -> (v: Vec<char>)
    ensures
        v@ == decimal_nat(n as nat),
    decreases n,
{
    let d = (n % 10) as u8;
    let c = (48u8 + d) as char;
    if n < 10 {
        let mut v: Vec<char> = Vec::new();
        v.push(c);
        v
    } else {
        let mut v = decimal_u64_chars(n / 10);
        v.push(c);
        v
    }
}

/// The decimal rendering of `i` (what `i.to_string()` returns).
pub fn decimal_i64(i: i64) -> (s: String)
    ensures
        s@ == decimal(i as int),
{
    if i < 0 {
        let m: u64 = (0i128 - i as i128) as u64;
        let mut v: Vec<char> = Vec::new();
        v.push('-');
        let mut d = decimal_u64_chars(m);
        v.append(&mut d);
        string_from_chars(v.as_slice())
    } else {
        let d = decimal_u64_chars(i as u64);
        string_from_chars(d.as_slice())
    }
}

/// The numeric value of a string of ASCII digits.
pub open spec fn digits_value(s: Seq<char>) -> int
    decreases s.len(),
{
    if s.len() == 0 {
        0
    } else {
        digits_value(s.drop_last()) * 10 + (s.last() as int - 48)
    }
}

/// What `str::parse` accepts as an integer, before the range check:
/// an optional sign followed by one or more ASCII digits, nothing else.
pub open spec fn parse_integer(s: Seq<char>) -> Option<int> {
    if s.len() > 0 && (s[0] == '+' || s[0] == '-') {
        let rest = s.drop_first();
        if rest.len() > 0 && all_digits(rest) {
            Some(
                if s[0] == '-' {
                    -digits_value(rest)
                } else {
                    digits_value(rest)
                },
            )
        } else {
            None
        }
    } else if s.len() > 0 && all_digits(s) {
        Some(digits_value(s))
    } else {
        None
    }
}

/// What `s.parse::<i64>()` gives, as an `Option`.
pub open spec fn parse_i64_spec(s: Seq<char>) -> Option<i64> {
    match parse_integer(s) {
        Some(v) => if i64::MIN <= v <= i64::MAX {
            Some(v as i64)
        } else {
            None
        },
        None => None,
    }
}

/// What `s.parse::<i32>()` gives, as an `Option`.
pub open spec fn parse_i32_spec(s: Seq<char>) -> Option<i32> {
    match parse_integer(s) {
        Some(v) => if i32::MIN <= v <= i32::MAX {
            Some(v as i32)
        } else {
            None
        },
        None => None,
    }
}

/// The decimal rendering of a natural number is a non-empty string of digits
/// whose value is the number.
pub proof fn lemma_decimal_nat(n: nat)
    ensures
        decimal_nat(n).len() > 0,
        all_digits(decimal_nat(n)),
        digits_value(decimal_nat(n)) == n,
    decreases n,
{
    if n >= 10 {
        lemma_decimal_nat(n / 10);
        let p = decimal_nat(n / 10);
        let s = decimal_nat(n);
        assert(s.drop_last() == p);
        assert forall|i: int| 0 <= i < s.len() implies is_digit(#[trigger] s[i]) by {
            if i < p.len() {
                assert(s[i] == p[i]);
            }
        }
        assert(s.last() as int == (n % 10) + 48);
        assert(digits_value(s) == digits_value(p) * 10 + (s.last() as int - 48));
        assert(digits_value(p) == n / 10);
        assert((n / 10) * 10 + n % 10 == n);
    } else {
        let s = decimal_nat(n);
        assert(s.drop_last() == Seq::<char>::empty());
        assert(s.last() as int == n + 48);
        assert(digits_value(s) == digits_value(s.drop_last()) * 10 + (s.last() as int - 48));
    }
}

/// Parsing the decimal rendering of a non-negative `i64` gives it back.
pub proof fn lemma_parse_decimal(p: i64)
    requires
        p >= 0,
    ensures
        parse_i64_spec(decimal(p as int)) == Some(p),
        trim(decimal(p as int)) == decimal(p as int),
{
    let s = decimal(p as int);
    lemma_decimal_nat(p as nat);
    assert(is_digit(s[0]));
    assert(is_digit(s[s.len() - 1]));
    lemma_trim_unchanged(s);
}

proof fn lemma_digits_value_nonneg(s: Seq<char>)
    requires
        all_digits(s),
    ensures
        digits_value(s) >= 0,
    decreases s.len(),
{
    if s.len() > 0 {
        assert(all_digits(s.drop_last())) by {
            assert forall|i: int| 0 <= i < s.drop_last().len() implies is_digit(
                #[trigger] s.drop_last()[i],
            ) by {
                assert(s.drop_last()[i] == s[i]);
            }
        }
        lemma_digits_value_nonneg(s.drop_last());
        assert(is_digit(s[s.len() - 1]));
    }
}

proof fn lemma_digits_value_grows(s: Seq<char>, k: int)
    requires
        all_digits(s),
        0 <= k <= s.len(),
    ensures
        digits_value(s.take(k)) <= digits_value(s),
    decreases s.len() - k,
{
    if k < s.len() {
        lemma_digits_value_grows(s, k + 1);
        let t = s.take(k + 1);
        assert(t.drop_last() == s.take(k));
        assert(is_digit(s[k]));
        assert(all_digits(s.take(k))) by {
            assert forall|i: int| 0 <= i < s.take(k).len() implies is_digit(
                #[trigger] s.take(k)[i],
            ) by {
                assert(s.take(k)[i] == s[i]);
            }
        }
        lemma_digits_value_nonneg(s.take(k));
    } else {
        assert(s.take(k) == s);
    }
}

/// Accumulates the digits of `s[from..]`; `None` when a character is not a
/// digit or when the value exceeds `bound`.
fn digits_upto(s: &[char], from: usize, bound: u64) -> (r: Option<u64>)
    requires
        from < s@.len(),
        bound >= 9,
    ensures
        ({
            let rest = s@.subrange(from as int, s@.len() as int);
            match r {
                Some(v) => all_digits(rest) && v == digits_value(rest) && v <= bound,
                None => !all_digits(rest) || digits_value(rest) > bound,
            }
        }),
{
    let n = s.len();
    let ghost rest = s@.subrange(from as int, n as int);
    let mut acc: u64 = 0;
    let mut i: usize = from;
    assert(rest.take(0) == Seq::<char>::empty());
    while i < n
        invariant
            from <= i <= n,
            n == s@.len(),
            rest == s@.subrange(from as int, n as int),
            all_digits(rest.take(i - from)),
            acc == digits_value(rest.take(i - from)),
            acc <= bound,
            bound >= 9,
        decreases n - i,
    {
        let c = s[i];
        let ghost k = (i - from) as int;
        assert(rest.take(k + 1).drop_last() == rest.take(k));
        assert(rest[k] == c);
        if !('0' <= c && c <= '9') {
            assert(!all_digits(rest));
            return None;
        }
        let d = (c as u32 - 48) as u64;
        if acc > (bound - d) / 10 {
            proof {
                assert(all_digits(rest.take(k + 1))) by {
                    assert forall|j: int| 0 <= j < rest.take(k + 1).len() implies is_digit(
                        #[trigger] rest.take(k + 1)[j],
                    ) by {
                        if j < k {
                            assert(rest.take(k + 1)[j] == rest.take(k)[j]);
                        }
                    }
                }
                assert(digits_value(rest.take(k + 1)) == acc * 10 + d);
                assert(acc * 10 + d > bound) by (nonlinear_arith)
                    requires
                        acc > (bound - d) / 10,
                        d <= 9,
                        d <= bound || acc >= 1,
                ;
                if all_digits(rest) {
                    lemma_digits_value_grows(rest, k + 1);
                }
            }
            return None;
        }
        proof {
            assert(acc * 10 + d <= bound) by (nonlinear_arith)
                requires
                    acc <= (bound - d) / 10,
                    d <= bound,
            ;
        }
        acc = acc * 10 + d;
        proof {
            assert(all_digits(rest.take(k + 1))) by {
                assert forall|j: int| 0 <= j < rest.take(k + 1).len() implies is_digit(
                    #[trigger] rest.take(k + 1)[j],
                ) by {
                    if j < k {
                        assert(rest.take(k + 1)[j] == rest.take(k)[j]);
                    }
                }
            }
        }
        i = i + 1;
    }
    assert(rest.take(n - from) == rest);
    Some(acc)
}

/// `s.parse::<i64>()`, as an `Option`.
pub fn parse_i64(s: &str) -> (r: Option<i64>)
    ensures
        r == parse_i64_spec(s@),
{
    let v = chars_of(s);
    let n = v.len();
    if n == 0 {
        return None;
    }
    let c0 = v[0];
    if c0 == '+' || c0 == '-' {
        if n == 1 {
            return None;
        }
        assert(v@.subrange(1, n as int) == v@.drop_first());
        if c0 == '-' {
            match digits_upto(v.as_slice(), 1, 9223372036854775808u64) {
                Some(m) => {
                    let r = (0i128 - m as i128) as i64;
                    Some(r)
                },
                None => None,
            }
        } else {
            match digits_upto(v.as_slice(), 1, 9223372036854775807u64) {
                Some(m) => Some(m as i64),
                None => None,
            }
        }
    } else {
        assert(v@.subrange(0, n as int) == v@);
        if !('0' <= c0 && c0 <= '9') {
            return None;
        }
        match digits_upto(v.as_slice(), 0, 9223372036854775807u64) {
            Some(m) => Some(m as i64),
            None => None,
        }
    }
}

/// `s.parse::<i32>()`, as an `Option`.
pub fn parse_i32(s: &str) -> (r: Option<i32>)
    ensures
        r == parse_i32_spec(s@),
{
    match parse_i64(s) {
        Some(v) => {
            if -2147483648 <= v && v <= 2147483647 {
                Some(v as i32)
            } else {
                None
            }
        },
        None => {
            proof {
                let p = parse_integer(s@);
                if p is Some {
                    let x = p->0;
                    assert(!(i64::MIN <= x <= i64::MAX));
                }
            }
            None
        },
    }
}

// ---------------------------------------------------------------------------
// Hexadecimal
// ---------------------------------------------------------------------------

/// The lower-case hexadecimal digit for `d` in `0..=15`.
pub open spec fn hex_digit(d: int) -> char {
    if d < 10 {
        (d + 48) as char
    } else {
        (d + 87) as char
    }
}

/// Two lower-case hexadecimal digits per byte, most significant first
/// (what `format!("{:x}", digest)` writes for a digest).
pub open spec fn hex_lower(b: Seq<u8>) -> Seq<char>
    decreases b.len(),
{
    if b.len() == 0 {
        Seq::empty()
    } else {
        hex_lower(b.drop_last()) + seq![
            hex_digit((b.last() / 16) as int),
            hex_digit((b.last() % 16) as int),
        ]
    }
}

/// A hexadecimal rendering has two digits per byte, each `0`..`9` or `a`..`f`.
pub proof fn lemma_hex_lower(b: Seq<u8>)
    ensures
        hex_lower(b).len() == 2 * b.len(),
        forall|i: int|
            0 <= i < hex_lower(b).len() ==> ('0' <= #[trigger] hex_lower(b)[i] <= '9' || 'a'
                <= hex_lower(b)[i] <= 'f'),
    decreases b.len(),
{
    if b.len() > 0 {
        lemma_hex_lower(b.drop_last());
        let h = hex_lower(b);
        let p = hex_lower(b.drop_last());
        assert forall|i: int| 0 <= i < h.len() implies ('0' <= #[trigger] h[i] <= '9' || 'a'
            <= h[i] <= 'f') by {
            if i < p.len() {
                assert(h[i] == p[i]);
            }
        }
    }
}

fn hex_digit_char(d: u8) -> (c: char)
    requires
        d < 16,
    ensures
        c == hex_digit(d as int),
{
    if d < 10 {
        (48u8 + d) as char
    } else {
        (87u8 + d) as char
    }
}

/// The lower-case hexadecimal rendering of `b`.
pub fn hex_lower_text(b: &[u8]) -> (s: String)
    ensures
        s@ == hex_lower(b@),
{
    let n = b.len();
    let mut v: Vec<char> = Vec::new();
    for i in 0..n
        invariant
            n == b@.len(),
            v@ == hex_lower(b@.take(i as int)),
    {
        let x = b[i];
        assert(b@.take(i + 1).drop_last() == b@.take(i as int));
        v.push(hex_digit_char(x / 16));
        v.push(hex_digit_char(x % 16));
    }
    assert(b@.take(n as int) == b@);
    string_from_chars(v.as_slice())
}

/// Whether `c` is an ASCII hexadecimal digit, either case.
pub open spec fn is_hex_digit(c: char) -> bool {
    ||| '0' <= c <= '9'
    ||| 'a' <= c <= 'f'
    ||| 'A' <= c <= 'F'
}

/// Whether every character of `s` is an ASCII hexadecimal digit.
pub fn all_hex_digits(s: &str) -> (r: bool)
    ensures
        r == (forall|i: int| 0 <= i < s@.len() ==> is_hex_digit(#[trigger] s@[i])),
{
    let v = chars_of(s);
    let n = v.len();
    for i in 0..n
        invariant
            n == v@.len(),
            v@ == s@,
            forall|j: int| 0 <= j < i ==> is_hex_digit(#[trigger] s@[j]),
    {
        let c = v[i];
        if !(('0' <= c && c <= '9') || ('a' <= c && c <= 'f') || ('A' <= c && c <= 'F')) {
            return false;
        }
    }
    true
}

/// Whether every character of `s` is an ASCII decimal digit.
pub fn all_ascii_digits(s: &str) -> (r: bool)
    ensures
        r == all_digits(s@),
{
    let v = chars_of(s);
    let n = v.len();
    for i in 0..n
        invariant
            n == v@.len(),
            v@ == s@,
            forall|j: int| 0 <= j < i ==> is_digit(#[trigger] s@[j]),
    {
        let c = v[i];
        if !('0' <= c && c <= '9') {
            return false;
        }
    }
    true
}

} // verus!
