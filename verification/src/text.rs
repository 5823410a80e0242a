//! Text primitives the balancer uses to inspect requests and responses.

use vstd::prelude::*;
use vstd::string::*;
use vstd::std_specs::iter::IteratorSpec;

verus! {

/// `needle` occurs in `haystack` starting at byte `i`.
pub open spec fn occurs_at(haystack: Seq<u8>, needle: Seq<u8>, i: int) -> bool {
    0 <= i && i + needle.len() <= haystack.len() && haystack.subrange(i, i + needle.len()) == needle
}

/// `needle` occurs somewhere in `haystack`.
pub open spec fn contains_bytes(haystack: Seq<u8>, needle: Seq<u8>) -> bool {
    exists|i: int| occurs_at(haystack, needle, i)
}

/// Calls `memchr::memmem::find`, which returns the index of the first
/// occurrence of `needle` in `haystack`, or `None` when there is none.
#[verifier::external_body]
fn memmem_find(haystack: &[u8], needle: &[u8]) -> (r: Option<usize>)
    ensures
        match r {
            Some(i) => occurs_at(haystack@, needle@, i as int) && forall|j: int|
                0 <= j < i ==> !occurs_at(haystack@, needle@, j),
            None => !contains_bytes(haystack@, needle@),
        },
{
    memchr::memmem::find(haystack, needle)
}

/// The UTF-8 encoding of one character.
pub open spec fn utf8_char(c: char) -> Seq<u8> {
    let v = c as int;
    if v < 0x80 {
        seq![v as u8]
    } else if v < 0x800 {
        seq![(0xC0 + v / 64) as u8, (0x80 + v % 64) as u8]
    } else if v < 0x10000 {
        seq![(0xE0 + v / 4096) as u8, (0x80 + (v / 64) % 64) as u8, (0x80 + v % 64) as u8]
    } else {
        seq![
            (0xF0 + v / 262144) as u8,
            (0x80 + (v / 4096) % 64) as u8,
            (0x80 + (v / 64) % 64) as u8,
            (0x80 + v % 64) as u8,
        ]
    }
}

/// The UTF-8 encoding of a text.
pub open spec fn utf8(s: Seq<char>) -> Seq<u8>
    decreases s.len(),
{
    if s.len() == 0 {
        Seq::empty()
    } else {
        utf8(s.drop_last()) + utf8_char(s.last())
    }
}

/// Every character takes at least one byte.
pub proof fn lemma_utf8_len_at_least(s: Seq<char>)
    ensures
        utf8(s).len() >= s.len(),
    decreases s.len(),
{
    if s.len() > 0 {
        lemma_utf8_len_at_least(s.drop_last());
    }
}

/// Characters below 0x80 take one byte each.
pub proof fn lemma_utf8_ascii_len(s: Seq<char>)
    requires
        forall|i: int| 0 <= i < s.len() ==> 0 <= (#[trigger] s[i] as int) < 0x80,
    ensures
        utf8(s).len() == s.len(),
    decreases s.len(),
{
    if s.len() > 0 {
        lemma_utf8_ascii_len(s.drop_last());
    }
}

/// An ASCII text is encoded one byte per character, each byte being the
/// character's code.
pub proof fn lemma_utf8_ascii_bytes(s: Seq<char>)
    requires
        forall|i: int| 0 <= i < s.len() ==> 0 <= (#[trigger] s[i] as int) < 0x80,
    ensures
        utf8(s).len() == s.len(),
        forall|i: int| 0 <= i < s.len() ==> #[trigger] utf8(s)[i] as int == s[i] as int,
    decreases s.len(),
{
    if s.len() > 0 {
        let d = s.drop_last();
        assert forall|i: int| 0 <= i < d.len() implies 0 <= (#[trigger] d[i] as int) < 0x80 by {
            assert(d[i] == s[i]);
        }
        lemma_utf8_ascii_bytes(d);
        let last = s[s.len() - 1];
        assert(0 <= (last as int) < 0x80);
        assert forall|i: int| 0 <= i < s.len() implies #[trigger] utf8(s)[i] as int == s[i] as int by {
            if i < d.len() {
                assert(utf8(s)[i] == utf8(d)[i]);
                assert(s[i] == d[i]);
            } else {
                let v = last as int;
                assert(0 <= v < 0x80);
                assert(utf8_char(s.last()) == seq![v as u8]);
                assert(utf8(s)[i] == utf8_char(s.last())[0]);
                assert((v as u8) as int == v);
            }
        }
    }
}

/// A name of printable ASCII characters, without quotes or backslashes,
/// whose only underscore is its fourth character (such as `eth_call`).
pub open spec fn underscore_name(s: Seq<char>) -> bool {
    &&& s.len() > 3
    &&& s[3] == '_'
    &&& forall|i: int|
        0 <= i < s.len() ==> 32 <= (#[trigger] s[i] as int) < 0x80 && (s[i] as u32) >= 32 && s[i] != '"' && s[i]
            != '\\' && (s[i] == '_' ==> i == 3)
}

/// Such a name occurs in the bytes of another one written within quotes
/// exactly when it is the start of that other name.
pub proof fn lemma_name_in_quotes(m: Seq<char>, n: Seq<char>)
    requires
        underscore_name(m),
        underscore_name(n),
    ensures
        contains_bytes(utf8(seq!['"'] + m + seq!['"']), utf8(n)) <==> (n.len() <= m.len() && m.take(
            n.len() as int,
        ) == n),
{
    let h = seq!['"'] + m + seq!['"'];
    assert forall|i: int| 0 <= i < h.len() implies 0 <= (#[trigger] h[i] as int) < 0x80 by {
        if 1 <= i <= m.len() {
            assert(h[i] == m[i - 1]);
        }
    }
    lemma_utf8_ascii_bytes(h);
    assert forall|i: int| 0 <= i < n.len() implies 0 <= (#[trigger] n[i] as int) < 0x80 by {
        assert(32 <= n[i] as int);
    }
    lemma_utf8_ascii_bytes(n);
    let hb = utf8(h);
    let nb = utf8(n);
    if contains_bytes(hb, nb) {
        let i = choose|i: int| occurs_at(hb, nb, i);
        assert(hb.subrange(i, i + nb.len())[3] == nb[3]);
        assert(hb[i + 3] == nb[3]);
        assert(n[3] == '_');
        assert(h[i + 3] as int == n[3] as int);
        if i + 3 == 0 || i + 3 == m.len() + 1 {
            assert(h[i + 3] == '"');
        }
        assert(h[i + 3] == m[i + 2]);
        assert(m[i + 2] == '_');
        assert(i == 1);
        assert forall|k: int| 0 <= k < n.len() implies h[1 + k] == n[k] by {
            assert(hb.subrange(1, 1 + nb.len() as int)[k] == nb[k]);
            assert(hb[1 + k] as int == h[1 + k] as int);
            assert(nb[k] as int == n[k] as int);
        }
        if n.len() > m.len() {
            assert(h[1 + m.len() as int] == n[m.len() as int]);
            assert(h[1 + m.len() as int] == '"');
        }
        assert forall|k: int| 0 <= k < n.len() implies m.take(n.len() as int)[k] == n[k] by {
            assert(h[1 + k] == m[k]);
        }
        assert(m.take(n.len() as int) =~= n);
    }
    if n.len() <= m.len() && m.take(n.len() as int) == n {
        assert forall|k: int| 0 <= k < nb.len() implies hb.subrange(1, 1 + nb.len() as int)[k] == nb[k] by {
            assert(h[1 + k] == m[k]);
            assert(m.take(n.len() as int)[k] == m[k]);
            assert(hb[1 + k] as int == h[1 + k] as int);
            assert(nb[k] as int == n[k] as int);
        }
        assert(hb.subrange(1, 1 + nb.len() as int) =~= nb);
        assert(occurs_at(hb, nb, 1));
    }
}

/// Calls `str::as_bytes`: a `str` is stored as the UTF-8 encoding of its
/// characters, and this is that encoding.
#[verifier::external_body]
fn utf8_bytes(s: &str) -> (r: &[u8])
    ensures
        r@ == utf8(s@),
{
    s.as_bytes()
}

/// Whether the UTF-8 bytes of `haystack` contain the UTF-8 bytes of `needle`.
pub fn contains_str(haystack: &str, needle: &str) -> (r: bool)
    ensures
        r == contains_bytes(utf8(haystack@), utf8(needle@)),
{
    memmem_find(utf8_bytes(haystack), utf8_bytes(needle)).is_some()
}

/// Character-wise equality of two string slices.
pub fn str_eq(a: &str, b: &str) -> (r: bool)
    ensures
        r == (a@ == b@),
{
    let n = a.unicode_len();
    if n != b.unicode_len() {
        return false;
    }
    let mut i: usize = 0;
    while i < n
        invariant
            n == a@.len(),
            n == b@.len(),
            i <= n,
            forall|k: int| 0 <= k < i ==> a@[k] == b@[k],
        decreases n - i,
    {
        if a.get_char(i) != b.get_char(i) {
            return false;
        }
        i = i + 1;
    }
    assert(a@ =~= b@);
    true
}

/// The characters of `s`, in order.
pub fn chars_of(s: &str) -> (r: Vec<char>)
    ensures
        r@ == s@,
{
    broadcast use vstd::string::group_string_axioms;
    broadcast use vstd::string::next_postcondition;
    let mut it = s.chars();
    let mut out: Vec<char> = Vec::new();
    loop
        invariant
            out@ + it.remaining() == s@,
            it.obeys_prophetic_iter_laws(),
        ensures
            out@ == s@,
        decreases s@.len() - out@.len(),
    {
        match it.next() {
            Some(c) => {
                out.push(c);
            },
            None => {
                break;
            },
        }
    }
    out
}

/// Calls `String::push`, which appends one character.
#[verifier::external_body]
pub(crate) fn push_char(s: &mut String, c: char)
    ensures
        final(s)@ == old(s)@.push(c),
{
    s.push(c);
}

// ---------------------------------------------------------------------------
// Integers written in text
// ---------------------------------------------------------------------------

/// Why a text is not an unsigned integer.
#[derive(Debug, Clone, Copy, PartialEq, Eq)]
pub enum ParseIntError {
    /// The text is empty.
    Empty,
    /// A character is not a digit of the radix.
    InvalidDigit,
    /// The number is larger than the type holds.
    PosOverflow,
}

/// The value of `c` as a digit of `radix` (2 to 36), if it is one.
pub open spec fn digit_value(c: char, radix: int) -> Option<int> {
    let v: int = if '0' <= c && c <= '9' {
        c as int - 48
    } else if 'a' <= c && c <= 'z' {
        c as int - 87
    } else if 'A' <= c && c <= 'Z' {
        c as int - 55
    } else {
        36
    };
    if v < radix {
        Some(v)
    } else {
        None
    }
}

/// Reads digits left to right: the value, or the first failure met
/// (a character that is no digit, or a value beyond `max`).
pub open spec fn digits_value(s: Seq<char>, radix: int, max: int) -> Result<int, ParseIntError>
    decreases s.len(),
{
    if s.len() == 0 {
        Ok(0)
    } else {
        match digits_value(s.drop_last(), radix, max) {
            Err(e) => Err(e),
            Ok(v) => match digit_value(s.last(), radix) {
                None => Err(ParseIntError::InvalidDigit),
                Some(d) => if v * radix + d > max {
                    Err(ParseIntError::PosOverflow)
                } else {
                    Ok(v * radix + d)
                },
            },
        }
    }
}

/// An unsigned integer in `radix` no larger than `max`: an optional `+`
/// followed by at least one digit (the rule of `u64::from_str_radix`).
pub open spec fn uint_value(s: Seq<char>, radix: int, max: int) -> Result<int, ParseIntError> {
    if s.len() == 0 {
        Err(ParseIntError::Empty)
    } else if s[0] == '+' {
        if s.len() == 1 {
            Err(ParseIntError::InvalidDigit)
        } else {
            digits_value(s.drop_first(), radix, max)
        }
    } else {
        digits_value(s, radix, max)
    }
}

/// A successful read never exceeds `max`.
pub proof fn lemma_digits_value_bounded(s: Seq<char>, radix: int, max: int)
    requires
        radix >= 2,
        max >= 0,
    ensures
        digits_value(s, radix, max) matches Ok(v) ==> 0 <= v <= max,
    decreases s.len(),
{
    if s.len() > 0 {
        lemma_digits_value_bounded(s.drop_last(), radix, max);
    }
}

/// The digit `c` stands for in `radix`.
fn char_digit(c: char, radix: u32) -> (r: Option<u32>)
    requires
        2 <= radix <= 36,
    ensures
        match r {
            Some(d) => digit_value(c, radix as int) == Some(d as int),
            None => digit_value(c, radix as int) is None,
        },
{
    let v: u32 = if '0' <= c && c <= '9' {
        (c as u32) - 48
    } else if 'a' <= c && c <= 'z' {
        (c as u32) - 87
    } else if 'A' <= c && c <= 'Z' {
        (c as u32) - 55
    } else {
        36
    };
    if v < radix {
        Some(v)
    } else {
        None
    }
}

/// Reads `chars[from..]` as digits of `radix`.
fn parse_digits(chars: &Vec<char>, from: usize, radix: u32, max: u64) -> (r: Result<u64, ParseIntError>)
    requires
        2 <= radix <= 36,
        max >= 36,
        from <= chars@.len(),
    ensures
        match r {
            Ok(v) => digits_value(chars@.skip(from as int), radix as int, max as int) == Ok::<int, ParseIntError>(v as int),
            Err(e) => digits_value(chars@.skip(from as int), radix as int, max as int) == Err::<int, ParseIntError>(e),
        },
{
    let ghost digits = chars@.skip(from as int);
    let mut value: u64 = 0;
    let mut i: usize = from;
    assert(digits.take(0) =~= Seq::<char>::empty());
    while i < chars.len()
        invariant
            2 <= radix <= 36,
            from <= i <= chars@.len(),
            digits == chars@.skip(from as int),
            digits_value(digits.take(i - from), radix as int, max as int) == Ok::<int, ParseIntError>(value as int),
            value <= max,
            max >= 36,
        decreases chars@.len() - i,
    {
        let ghost prefix = digits.take(i - from + 1);
        assert(prefix.drop_last() =~= digits.take(i - from));
        assert(prefix.last() == chars@[i as int]);
        match char_digit(chars[i], radix) {
            None => {
                proof { lemma_error_extends(digits, (i - from + 1) as int, radix as int, max as int); }
                return Err(ParseIntError::InvalidDigit);
            },
            Some(d) => {
                let lim: u64 = (max - d as u64) / (radix as u64);
                if value > lim {
                    assert(value * radix + d > max) by (nonlinear_arith)
                        requires
                            value > lim,
                            lim as int == (max as int - d as int) / (radix as int),
                            radix >= 2,
                            d <= max,
                    {
                    }
                    proof { lemma_error_extends(digits, (i - from + 1) as int, radix as int, max as int); }
                    return Err(ParseIntError::PosOverflow);
                }
                assert(value * radix + d <= max) by (nonlinear_arith)
                    requires
                        value <= lim,
                        lim as int == (max as int - d as int) / (radix as int),
                        radix >= 2,
                        d <= max,
                {
                }
                value = value * (radix as u64) + (d as u64);
            },
        }
        i = i + 1;
    }
    assert(digits.take(i - from) =~= digits);
    Ok(value)
}

/// An error met on a prefix stays the error of the whole text.
proof fn lemma_error_extends(s: Seq<char>, k: int, radix: int, max: int)
    requires
        0 <= k <= s.len(),
        digits_value(s.take(k), radix, max) is Err,
    ensures
        digits_value(s, radix, max) == digits_value(s.take(k), radix, max),
    decreases s.len() - k,
{
    if k < s.len() {
        let next = s.take(k + 1);
        assert(next.drop_last() =~= s.take(k));
        lemma_error_extends(s, k + 1, radix, max);
    } else {
        assert(s.take(k) =~= s);
    }
}

/// Reads `chars[from..]` as an unsigned integer in `radix` no larger than
/// `max`.
pub fn parse_uint_from(cs: &Vec<char>, from: usize, radix: u32, max: u64) -> (r: Result<u64, ParseIntError>)
    requires
        2 <= radix <= 36,
        max >= 36,
        from <= cs@.len(),
    ensures
        match r {
            Ok(v) => uint_value(cs@.skip(from as int), radix as int, max as int) == Ok::<int, ParseIntError>(v as int),
            Err(e) => uint_value(cs@.skip(from as int), radix as int, max as int) == Err::<int, ParseIntError>(e),
        },
{
    let ghost t = cs@.skip(from as int);
    if from == cs.len() {
        return Err(ParseIntError::Empty);
    }
    if cs[from] == '+' {
        if from + 1 == cs.len() {
            return Err(ParseIntError::InvalidDigit);
        }
        assert(cs@.skip(from + 1) =~= t.drop_first());
        parse_digits(cs, from + 1, radix, max)
    } else {
        parse_digits(cs, from, radix, max)
    }
}

/// Reads an unsigned integer in `radix` that must not exceed `max`, as
/// `u64::from_str_radix` (or `u32::from_str_radix` with `max` the `u32`
/// limit) does.
pub fn parse_uint(s: &str, radix: u32, max: u64) -> (r: Result<u64, ParseIntError>)
    requires
        2 <= radix <= 36,
        max >= 36,
    ensures
        match r {
            Ok(v) => uint_value(s@, radix as int, max as int) == Ok::<int, ParseIntError>(v as int),
            Err(e) => uint_value(s@, radix as int, max as int) == Err::<int, ParseIntError>(e),
        },
{
    let cs = chars_of(s);
    assert(cs@.skip(0) =~= s@);
    parse_uint_from(&cs, 0, radix, max)
}

// ---------------------------------------------------------------------------
// Small rewrites of text
// ---------------------------------------------------------------------------

/// `s` with every `c` taken out (`str::replace(c, "")`).
pub open spec fn without_char(s: Seq<char>, c: char) -> Seq<char>
    decreases s.len(),
{
    if s.len() == 0 {
        Seq::empty()
    } else if s.last() == c {
        without_char(s.drop_last(), c)
    } else {
        without_char(s.drop_last(), c).push(s.last())
    }
}

/// Taking out a character that does not occur changes nothing.
pub proof fn lemma_without_absent(s: Seq<char>, c: char)
    requires
        forall|i: int| 0 <= i < s.len() ==> s[i] != c,
    ensures
        without_char(s, c) == s,
    decreases s.len(),
{
    if s.len() > 0 {
        lemma_without_absent(s.drop_last(), c);
        assert(s.drop_last().push(s.last()) =~= s);
    }
}

/// `s` with every `c` taken out.
pub fn remove_char(s: &str, c: char) -> (r: String)
    ensures
        r@ == without_char(s@, c),
{
    let cs = chars_of(s);
    let mut out = String::new();
    let mut i: usize = 0;
    while i < cs.len()
        invariant
            cs@ == s@,
            i <= cs@.len(),
            out@ == without_char(cs@.take(i as int), c),
        decreases cs@.len() - i,
    {
        assert(cs@.take(i + 1).drop_last() =~= cs@.take(i as int));
        if cs[i] != c {
            push_char(&mut out, cs[i]);
        }
        i = i + 1;
    }
    assert(cs@.take(cs@.len() as int) =~= cs@);
    out
}

/// `s` after taking off every leading `0x` (`trim_start_matches("0x")`).
pub open spec fn strip_hex_prefixes(s: Seq<char>) -> Seq<char>
    decreases s.len(),
{
    if s.len() >= 2 && s[0] == '0' && s[1] == 'x' {
        strip_hex_prefixes(s.skip(2))
    } else {
        s
    }
}

/// The lower-case hexadecimal digits of `n`, without a prefix (`{:x}`).
pub open spec fn hex_text(n: nat) -> Seq<char>
    decreases n,
{
    if n < 16 {
        seq![lower_hex_digit(n as int)]
    } else {
        hex_text(n / 16).push(lower_hex_digit((n % 16) as int))
    }
}

/// Lower-case hexadecimal digit for `d` (0 to 15).
pub open spec fn lower_hex_digit(d: int) -> char {
    if d < 10 {
        (48 + d) as char
    } else {
        (87 + d) as char
    }
}

/// A lower-case hexadecimal digit reads back as its value.
pub proof fn lemma_lower_hex_digit_value(d: int)
    requires
        0 <= d < 16,
    ensures
        digit_value(lower_hex_digit(d), 16) == Some(d),
        lower_hex_digit(d) != 'x',
        lower_hex_digit(d) != '"',
        lower_hex_digit(d) != '+',
{
}

/// The hexadecimal digits of `n` are at least one, and each is a digit.
pub proof fn lemma_hex_text_digits(n: nat)
    ensures
        hex_text(n).len() >= 1,
        forall|i: int| 0 <= i < hex_text(n).len() ==> exists|d: int| 0 <= d < 16 && #[trigger] hex_text(n)[i]
            == lower_hex_digit(d),
    decreases n,
{
    if n < 16 {
        assert(hex_text(n)[0] == lower_hex_digit(n as int));
    } else {
        lemma_hex_text_digits(n / 16);
        let t = hex_text(n);
        assert forall|i: int| 0 <= i < t.len() implies exists|d: int| 0 <= d < 16 && #[trigger] t[i]
            == lower_hex_digit(d) by {
            if i < t.len() - 1 {
                assert(t[i] == hex_text(n / 16)[i]);
            } else {
                assert(t[i] == lower_hex_digit((n % 16) as int));
            }
        }
    }
}

/// Reading the hexadecimal digits of `n` back gives `n`.
pub proof fn lemma_hex_text_value(n: nat, max: int)
    requires
        n <= max,
    ensures
        digits_value(hex_text(n), 16, max) == Ok::<int, ParseIntError>(n as int),
    decreases n,
{
    if n < 16 {
        let t = hex_text(n);
        assert(t.drop_last() =~= Seq::<char>::empty());
        assert(t.last() == lower_hex_digit(n as int));
        lemma_lower_hex_digit_value(n as int);
        assert(digits_value(t.drop_last(), 16, max) == Ok::<int, ParseIntError>(0));
    } else {
        assert((n / 16) * 16 + n % 16 == n && n / 16 <= n) by (nonlinear_arith);
        lemma_hex_text_value(n / 16, max);
        let t = hex_text(n);
        assert(t.drop_last() =~= hex_text(n / 16));
        assert(t.last() == lower_hex_digit((n % 16) as int));
        lemma_lower_hex_digit_value((n % 16) as int);
        assert(digits_value(t.drop_last(), 16, max) == Ok::<int, ParseIntError>((n / 16) as int));
    }
}

/// The upper-case hexadecimal digits of `n`, without a prefix (`{:X}`).
pub open spec fn upper_hex_text(n: nat) -> Seq<char>
    decreases n,
{
    if n < 16 {
        seq![upper_hex_digit(n as int)]
    } else {
        upper_hex_text(n / 16).push(upper_hex_digit((n % 16) as int))
    }
}

/// Upper-case hexadecimal digit for `d` (0 to 15).
pub open spec fn upper_hex_digit(d: int) -> char {
    if d < 10 {
        (48 + d) as char
    } else {
        (55 + d) as char
    }
}

/// An upper-case hexadecimal digit reads back as its value.
pub proof fn lemma_upper_hex_digit_value(d: int)
    requires
        0 <= d < 16,
    ensures
        digit_value(upper_hex_digit(d), 16) == Some(d),
        upper_hex_digit(d) != 'x',
        upper_hex_digit(d) != '"',
        upper_hex_digit(d) != '+',
{
}

/// The upper-case hexadecimal digits of `n` are at least one, and each is
/// a digit.
pub proof fn lemma_upper_hex_text_digits(n: nat)
    ensures
        upper_hex_text(n).len() >= 1,
        forall|i: int| 0 <= i < upper_hex_text(n).len() ==> exists|d: int| 0 <= d < 16 && #[trigger] upper_hex_text(n)[i]
            == upper_hex_digit(d),
    decreases n,
{
    if n < 16 {
        assert(upper_hex_text(n)[0] == upper_hex_digit(n as int));
    } else {
        lemma_upper_hex_text_digits(n / 16);
        let t = upper_hex_text(n);
        assert forall|i: int| 0 <= i < t.len() implies exists|d: int| 0 <= d < 16 && #[trigger] t[i]
            == upper_hex_digit(d) by {
            if i < t.len() - 1 {
                assert(t[i] == upper_hex_text(n / 16)[i]);
            } else {
                assert(t[i] == upper_hex_digit((n % 16) as int));
            }
        }
    }
}

/// Reading the upper-case hexadecimal digits of `n` back gives `n`.
pub proof fn lemma_upper_hex_text_value(n: nat, max: int)
    requires
        n <= max,
    ensures
        digits_value(upper_hex_text(n), 16, max) == Ok::<int, ParseIntError>(n as int),
    decreases n,
{
    let t = upper_hex_text(n);
    if n < 16 {
        assert(t.drop_last() =~= Seq::<char>::empty());
        assert(t.last() == upper_hex_digit(n as int));
        lemma_upper_hex_digit_value(n as int);
        assert(digits_value(t.drop_last(), 16, max) == Ok::<int, ParseIntError>(0));
    } else {
        assert((n / 16) * 16 + n % 16 == n && n / 16 <= n) by (nonlinear_arith);
        lemma_upper_hex_text_value(n / 16, max);
        assert(t.drop_last() =~= upper_hex_text(n / 16));
        assert(t.last() == upper_hex_digit((n % 16) as int));
        lemma_upper_hex_digit_value((n % 16) as int);
        assert(digits_value(t.drop_last(), 16, max) == Ok::<int, ParseIntError>((n / 16) as int));
    }
}

/// Taking a character out of two texts put together takes it out of each.
pub proof fn lemma_without_char_concat(a: Seq<char>, b: Seq<char>, c: char)
    ensures
        without_char(a + b, c) == without_char(a, c) + without_char(b, c),
    decreases b.len(),
{
    if b.len() == 0 {
        assert(a + b =~= a);
        assert(without_char(a, c) + without_char(b, c) =~= without_char(a, c));
    } else {
        lemma_without_char_concat(a, b.drop_last(), c);
        assert((a + b).drop_last() =~= a + b.drop_last());
        assert((a + b).last() == b.last());
        if b.last() == c {
        } else {
            assert(without_char(a, c) + without_char(b, c) =~= (without_char(a, c) + without_char(b.drop_last(), c)).push(b.last()));
        }
    }
}

/// The character for a hexadecimal digit.
pub fn lower_hex_char(d: u64) -> (c: char)
    requires
        d < 16,
    ensures
        c == lower_hex_digit(d as int),
{
    if d < 10 {
        ((48 + d) as u8) as char
    } else {
        ((87 + d) as u8) as char
    }
}

/// Appends the lower-case hexadecimal digits of `n`.
fn hex_into(n: u64, out: &mut String)
    ensures
        final(out)@ == old(out)@ + hex_text(n as nat),
    decreases n,
{
    if n < 16 {
        push_char(out, lower_hex_char(n));
        assert(out@ =~= old(out)@ + hex_text(n as nat));
    } else {
        let ghost start = out@;
        hex_into(n / 16, out);
        push_char(out, lower_hex_char(n % 16));
        assert(out@ =~= start + hex_text(n as nat));
    }
}

/// `format!("0x{:x}", n)`.
pub fn to_hex_string(n: u64) -> (r: String)
    ensures
        r@ == seq!['0', 'x'] + hex_text(n as nat),
{
    let mut out = String::new();
    push_char(&mut out, '0');
    push_char(&mut out, 'x');
    hex_into(n, &mut out);
    assert(out@ =~= seq!['0', 'x'] + hex_text(n as nat));
    out
}

/// The decimal digits of `n` (`{}`).
pub open spec fn dec_text(n: nat) -> Seq<char>
    decreases n,
{
    if n < 10 {
        seq![(48 + n) as char]
    } else {
        dec_text(n / 10).push((48 + n % 10) as char)
    }
}

/// Appends the decimal digits of `n`.
fn dec_into(n: u128, out: &mut String)
    ensures
        final(out)@ == old(out)@ + dec_text(n as nat),
    decreases n,
{
    if n < 10 {
        push_char(out, ((48 + n) as u8) as char);
        assert(out@ =~= old(out)@ + dec_text(n as nat));
    } else {
        let ghost start = out@;
        dec_into(n / 10, out);
        push_char(out, ((48 + n % 10) as u8) as char);
        assert(out@ =~= start + dec_text(n as nat));
    }
}

/// `n.to_string()`.
pub fn to_decimal_string(n: u128) -> (r: String)
    ensures
        r@ == dec_text(n as nat),
{
    let mut out = String::new();
    dec_into(n, &mut out);
    assert(out@ =~= dec_text(n as nat));
    out
}

} // verus!
