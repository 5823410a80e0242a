//! JSON values as the balancer reads, rewrites and prints them.
//!
//! A `JsonValue` holds a request or a response after it was parsed. Numbers
//! keep the text they were written with, and the members of an object keep
//! their order, so that printing a value gives back the compact text that
//! keys the cache.

use vstd::prelude::*;
use crate::text::{chars_of, push_char};

verus! {

/// A JSON value.
#[derive(Debug, PartialEq)]
pub enum JsonValue {
    Null,
    Bool(bool),
    /// A number, held as its JSON text (such as `1`, `-3` or `0.5`).
    Number(String),
    Str(String),
    Array(Vec<JsonValue>),
    /// Members in order; serialized objects keep their keys sorted.
    Object(Vec<(String, JsonValue)>),
}

// ---------------------------------------------------------------------------
// The compact text of a value
// ---------------------------------------------------------------------------

/// Lower-case hexadecimal digit for `d` (0 to 15).
pub open spec fn hex_digit(d: int) -> char {
    if d < 10 {
        (48 + d) as char
    } else {
        (87 + d) as char
    }
}

/// How one character of a string is written between the quotes.
pub open spec fn escape_char(c: char) -> Seq<char> {
    if c == '"' {
        seq!['\\', '"']
    } else if c == '\\' {
        seq!['\\', '\\']
    } else if c == '\n' {
        seq!['\\', 'n']
    } else if c == '\r' {
        seq!['\\', 'r']
    } else if c == '\t' {
        seq!['\\', 't']
    } else if (c as u32) == 8 {
        seq!['\\', 'b']
    } else if (c as u32) == 12 {
        seq!['\\', 'f']
    } else if (c as u32) < 32 {
        seq!['\\', 'u', '0', '0', hex_digit((c as int) / 16), hex_digit((c as int) % 16)]
    } else {
        seq![c]
    }
}

/// The escaped characters of a string.
pub open spec fn escape(s: Seq<char>) -> Seq<char>
    decreases s.len(),
{
    if s.len() == 0 {
        Seq::empty()
    } else {
        escape(s.drop_last()) + escape_char(s.last())
    }
}

/// A string as a JSON string literal.
pub open spec fn quoted(s: Seq<char>) -> Seq<char> {
    seq!['"'] + escape(s) + seq!['"']
}

/// A character that is written as itself between quotes.
pub open spec fn is_plain_char(c: char) -> bool {
    (c as u32) >= 32 && c != '"' && c != '\\'
}

/// A text of plain characters is written as itself between quotes.
pub proof fn lemma_escape_plain(s: Seq<char>)
    requires
        forall|i: int| 0 <= i < s.len() ==> is_plain_char(#[trigger] s[i]),
    ensures
        escape(s) == s,
    decreases s.len(),
{
    if s.len() > 0 {
        let d = s.drop_last();
        assert forall|i: int| 0 <= i < d.len() implies is_plain_char(#[trigger] d[i]) by {
            assert(d[i] == s[i]);
        }
        lemma_escape_plain(d);
        let c = s[s.len() - 1];
        assert(is_plain_char(c));
        assert(escape_char(c) == seq![c]);
        assert(d + seq![s.last()] =~= s);
    }
}

/// The compact JSON text of a value: no whitespace, members and elements
/// separated by commas, strings escaped.
pub open spec fn render(v: JsonValue) -> Seq<char>
    decreases v,
{
    match v {
        JsonValue::Null => seq!['n', 'u', 'l', 'l'],
        JsonValue::Bool(b) => if b {
            seq!['t', 'r', 'u', 'e']
        } else {
            seq!['f', 'a', 'l', 's', 'e']
        },
        JsonValue::Number(t) => t@,
        JsonValue::Str(s) => quoted(s@),
        JsonValue::Array(items) => seq!['['] + render_items(items@) + seq![']'],
        JsonValue::Object(members) => seq!['{'] + render_members(members@) + seq!['}'],
    }
}

/// The elements of an array, separated by commas.
pub open spec fn render_items(items: Seq<JsonValue>) -> Seq<char>
    decreases items,
{
    if items.len() == 0 {
        Seq::empty()
    } else if items.len() == 1 {
        render(items[0])
    } else {
        render_items(items.drop_last()) + seq![','] + render(items.last())
    }
}

/// The members of an object as `"key":value`, separated by commas.
pub open spec fn render_members(members: Seq<(String, JsonValue)>) -> Seq<char>
    decreases members,
{
    if members.len() == 0 {
        Seq::empty()
    } else if members.len() == 1 {
        quoted(members[0].0@) + seq![':'] + render(members[0].1)
    } else {
        render_members(members.drop_last()) + seq![','] + quoted(members.last().0@) + seq![':']
            + render(members.last().1)
    }
}

/// The character for hexadecimal digit `d`.
fn hex_char(d: u32) -> (c: char)
    requires
        d < 16,
    ensures
        c == hex_digit(d as int),
{
    if d < 10 {
        ((48 + d) as u8) as char
    } else {
        ((87 + d) as u8) as char
    }
}

/// Appends the escaped form of `c`.
fn escape_char_into(c: char, out: &mut String)
    ensures
        final(out)@ == old(out)@ + escape_char(c),
{
    let ghost start = out@;
    let code: u32 = c as u32;
    if c == '"' {
        push_char(out, '\\');
        push_char(out, '"');
    } else if c == '\\' {
        push_char(out, '\\');
        push_char(out, '\\');
    } else if c == '\n' {
        push_char(out, '\\');
        push_char(out, 'n');
    } else if c == '\r' {
        push_char(out, '\\');
        push_char(out, 'r');
    } else if c == '\t' {
        push_char(out, '\\');
        push_char(out, 't');
    } else if code == 8 {
        push_char(out, '\\');
        push_char(out, 'b');
    } else if code == 12 {
        push_char(out, '\\');
        push_char(out, 'f');
    } else if code < 32 {
        push_char(out, '\\');
        push_char(out, 'u');
        push_char(out, '0');
        push_char(out, '0');
        push_char(out, hex_char(code / 16));
        push_char(out, hex_char(code % 16));
    } else {
        push_char(out, c);
    }
    assert(out@ =~= start + escape_char(c));
}

/// Appends `s` as a JSON string literal.
pub fn quote_into(s: &str, out: &mut String)
    ensures
        final(out)@ == old(out)@ + quoted(s@),
{
    let ghost start = out@;
    let cs = chars_of(s);
    push_char(out, '"');
    let mut i: usize = 0;
    while i < cs.len()
        invariant
            cs@ == s@,
            i <= cs@.len(),
            out@ == start + seq!['"'] + escape(cs@.take(i as int)),
        decreases cs@.len() - i,
    {
        escape_char_into(cs[i], out);
        assert(cs@.take(i + 1).drop_last() =~= cs@.take(i as int));
        i = i + 1;
    }
    assert(cs@.take(cs@.len() as int) =~= cs@);
    push_char(out, '"');
    assert(out@ =~= start + quoted(s@));
}

/// Appends a string slice.
fn append_str(out: &mut String, s: &str)
    ensures
        final(out)@ == old(out)@ + s@,
{
    out.append(s);
}

impl JsonValue {
    /// Appends the compact JSON text of this value.
    pub fn render_into(&self, out: &mut String)
        ensures
            final(out)@ == old(out)@ + render(*self),
        decreases self,
    {
        let ghost start = out@;
        match self {
            JsonValue::Null => {
                append_str(out, "null");
                proof { reveal_strlit("null"); }
                assert(out@ =~= start + render(*self));
            },
            JsonValue::Bool(b) => {
                if *b {
                    append_str(out, "true");
                    proof { reveal_strlit("true"); }
                } else {
                    append_str(out, "false");
                    proof { reveal_strlit("false"); }
                }
                assert(out@ =~= start + render(*self));
            },
            JsonValue::Number(t) => {
                append_str(out, t.as_str());
            },
            JsonValue::Str(s) => {
                quote_into(s.as_str(), out);
            },
            JsonValue::Array(items) => {
                push_char(out, '[');
                let mut i: usize = 0;
                while i < items.len()
                    invariant
                        i <= items@.len(),
                        out@ == start + seq!['['] + render_items(items@.take(i as int)),
                        *self == JsonValue::Array(*items),
                    decreases items@.len() - i,
                {
                    if i > 0 {
                        push_char(out, ',');
                    }
                    proof {
                        assert(decreases_to!(*self => (*self)->Array_0));
                        assert(decreases_to!(*items => items@));
                        assert(decreases_to!(items@ => items@[i as int]));
                        assert(decreases_to!(*self => items@[i as int]));
                    }
                    items[i].render_into(out);
                    assert(items@.take(i + 1).drop_last() =~= items@.take(i as int));
                    i = i + 1;
                }
                assert(items@.take(items@.len() as int) =~= items@);
                push_char(out, ']');
                assert(out@ =~= start + render(*self));
            },
            JsonValue::Object(members) => {
                push_char(out, '{');
                let mut i: usize = 0;
                while i < members.len()
                    invariant
                        i <= members@.len(),
                        out@ == start + seq!['{'] + render_members(members@.take(i as int)),
                        *self == JsonValue::Object(*members),
                    decreases members@.len() - i,
                {
                    if i > 0 {
                        push_char(out, ',');
                    }
                    quote_into(members[i].0.as_str(), out);
                    push_char(out, ':');
                    proof {
                        assert(decreases_to!(*self => (*self)->Object_0));
                        assert(decreases_to!(*members => members@));
                        assert(decreases_to!(members@ => members@[i as int]));
                        assert(decreases_to!(members@[i as int] => members@[i as int].1));
                        assert(decreases_to!(*self => members@[i as int].1));
                    }
                    members[i].1.render_into(out);
                    assert(members@.take(i + 1).drop_last() =~= members@.take(i as int));
                    i = i + 1;
                }
                assert(members@.take(members@.len() as int) =~= members@);
                push_char(out, '}');
                assert(out@ =~= start + render(*self));
            },
        }
    }

    /// The compact JSON text of this value.
    pub fn render(&self) -> (r: String)
        ensures
            r@ == render(*self),
    {
        let mut out = String::new();
        self.render_into(&mut out);
        assert(out@ =~= render(*self));
        out
    }
}

// ---------------------------------------------------------------------------
// Reading members and elements
// ---------------------------------------------------------------------------

/// `i` is the first member of `members` whose key is `key`.
pub open spec fn is_first_member(members: Seq<(String, JsonValue)>, key: Seq<char>, i: int) -> bool {
    &&& 0 <= i < members.len()
    &&& members[i].0@ == key
    &&& forall|j: int| 0 <= j < i ==> members[j].0@ != key
}

/// Some member of `members` has the key `key`.
pub open spec fn has_member(members: Seq<(String, JsonValue)>, key: Seq<char>) -> bool {
    exists|i: int| 0 <= i < members.len() && members[i].0@ == key
}

/// The position of the first member with key `key`.
pub open spec fn first_member(members: Seq<(String, JsonValue)>, key: Seq<char>) -> int {
    choose|i: int| is_first_member(members, key, i)
}

/// `v[key]`: the value of the first member named `key` of an object, and
/// `null` for a missing member or a value that is not an object.
pub open spec fn field(v: JsonValue, key: Seq<char>) -> JsonValue {
    match v {
        JsonValue::Object(m) => if has_member(m@, key) {
            m@[first_member(m@, key)].1
        } else {
            JsonValue::Null
        },
        _ => JsonValue::Null,
    }
}

/// `v[i]`: element `i` of an array, and `null` past its end or for a value
/// that is not an array.
pub open spec fn element(v: JsonValue, i: int) -> JsonValue {
    match v {
        JsonValue::Array(items) => if 0 <= i < items@.len() {
            items@[i]
        } else {
            JsonValue::Null
        },
        _ => JsonValue::Null,
    }
}

/// The elements of an array value.
pub open spec fn array_items(v: JsonValue) -> Option<Seq<JsonValue>> {
    match v {
        JsonValue::Array(items) => Some(items@),
        _ => None,
    }
}

/// The characters of a string value.
pub open spec fn string_chars(v: JsonValue) -> Option<Seq<char>> {
    match v {
        JsonValue::Str(s) => Some(s@),
        _ => None,
    }
}

/// There is at most one first member with a given key.
pub proof fn lemma_first_member_unique(members: Seq<(String, JsonValue)>, key: Seq<char>, i: int)
    requires
        is_first_member(members, key, i),
    ensures
        has_member(members, key),
        first_member(members, key) == i,
{
    let k = first_member(members, key);
    assert(is_first_member(members, key, k));
    if k < i {
        assert(members[k].0@ != key);
    } else if i < k {
        assert(members[i].0@ != key);
    }
}

// ---------------------------------------------------------------------------
// Ordering of keys
// ---------------------------------------------------------------------------

/// `a` sorts before `b`: lexicographic order of code points, the order in
/// which serialized objects keep their keys.
pub open spec fn key_before(a: Seq<char>, b: Seq<char>) -> bool
    decreases a.len(),
{
    if a.len() == 0 {
        b.len() > 0
    } else if b.len() == 0 {
        false
    } else if a[0] != b[0] {
        (a[0] as int) < (b[0] as int)
    } else {
        key_before(a.drop_first(), b.drop_first())
    }
}

/// Where a new key goes: before the first member whose key sorts after it.
pub open spec fn is_insert_position(members: Seq<(String, JsonValue)>, key: Seq<char>, j: int) -> bool {
    &&& 0 <= j <= members.len()
    &&& j < members.len() ==> key_before(key, members[j].0@)
    &&& forall|k: int| 0 <= k < j ==> !key_before(key, #[trigger] members[k].0@)
}

/// The insert position of `key`.
pub open spec fn insert_position(members: Seq<(String, JsonValue)>, key: Seq<char>) -> int {
    choose|j: int| is_insert_position(members, key, j)
}

/// The insert position is unique.
pub proof fn lemma_insert_position_unique(members: Seq<(String, JsonValue)>, key: Seq<char>, j: int)
    requires
        is_insert_position(members, key, j),
    ensures
        insert_position(members, key) == j,
{
    let k = insert_position(members, key);
    assert(is_insert_position(members, key, k));
    if k < j {
        assert(!key_before(key, members[k].0@));
    } else if j < k {
        assert(!key_before(key, members[j].0@));
    }
}

/// `v[key] = new`, as a relation between the value before and after:
/// an existing member is replaced in place, a new member is inserted in key
/// order, and `null` becomes an object with the one member.
pub open spec fn field_set(old: JsonValue, key: Seq<char>, new: JsonValue, result: JsonValue) -> bool {
    match old {
        JsonValue::Object(m) => match result {
            JsonValue::Object(r) => if has_member(m@, key) {
                let i = first_member(m@, key);
                r@ == m@.update(i, (m@[i].0, new))
            } else {
                let j = insert_position(m@, key);
                &&& r@.len() == m@.len() + 1
                &&& r@[j].0@ == key
                &&& r@[j].1 == new
                &&& r@.take(j) == m@.take(j)
                &&& r@.skip(j + 1) == m@.skip(j)
            },
            _ => false,
        },
        JsonValue::Null => match result {
            JsonValue::Object(r) => r@.len() == 1 && r@[0].0@ == key && r@[0].1 == new,
            _ => false,
        },
        _ => false,
    }
}

/// The first position at or below `n` with the key, when one below `n` has
/// it.
proof fn first_member_witness(members: Seq<(String, JsonValue)>, key: Seq<char>, n: int) -> (i: int)
    requires
        0 <= n <= members.len(),
        exists|k: int| 0 <= k < n && members[k].0@ == key,
    ensures
        is_first_member(members, key, i),
    decreases n,
{
    if exists|k: int| 0 <= k < n - 1 && members[k].0@ == key {
        first_member_witness(members, key, n - 1)
    } else {
        let k = choose|k: int| 0 <= k < n && members[k].0@ == key;
        assert(k == n - 1);
        n - 1
    }
}

/// When some member has a key, a first one does.
pub proof fn lemma_first_member_exists(members: Seq<(String, JsonValue)>, key: Seq<char>)
    requires
        has_member(members, key),
    ensures
        is_first_member(members, key, first_member(members, key)),
{
    let w = first_member_witness(members, key, members.len() as int);
    assert(is_first_member(members, key, w));
}

/// The first position below `n` whose key sorts after `key`, else `n`.
proof fn insert_witness(members: Seq<(String, JsonValue)>, key: Seq<char>, n: int) -> (j: int)
    requires
        0 <= n <= members.len(),
    ensures
        0 <= j <= n,
        j < n ==> key_before(key, members[j].0@),
        forall|k: int| 0 <= k < j ==> !key_before(key, #[trigger] members[k].0@),
    decreases n,
{
    if n == 0 {
        0
    } else {
        let j = insert_witness(members, key, n - 1);
        if j < n - 1 {
            j
        } else if key_before(key, members[n - 1].0@) {
            n - 1
        } else {
            n
        }
    }
}

/// Every key has an insert position.
pub proof fn lemma_insert_position_exists(members: Seq<(String, JsonValue)>, key: Seq<char>)
    ensures
        is_insert_position(members, key, insert_position(members, key)),
{
    let w = insert_witness(members, key, members.len() as int);
    assert(is_insert_position(members, key, w));
}

/// Reading back after `v[key] = new`: `v[key]` reads `new`, and every other
/// member reads as it did before.
pub proof fn lemma_read_after_set(old: JsonValue, key: Seq<char>, new: JsonValue, result: JsonValue, other: Seq<char>)
    requires
        field_set(old, key, new, result),
        other != key,
    ensures
        field(result, key) == new,
        field(result, other) == field(old, other),
{
    match (old, result) {
        (JsonValue::Object(m), JsonValue::Object(r)) => {
            if has_member(m@, key) {
                lemma_first_member_exists(m@, key);
                let i = first_member(m@, key);
                assert(r@ == m@.update(i, (m@[i].0, new)));
                assert(is_first_member(r@, key, i));
                lemma_first_member_unique(r@, key, i);
                if has_member(m@, other) {
                    lemma_first_member_exists(m@, other);
                    let k = first_member(m@, other);
                    assert(k != i);
                    assert(is_first_member(r@, other, k));
                    lemma_first_member_unique(r@, other, k);
                } else {
                    assert forall|t: int| 0 <= t < r@.len() implies r@[t].0@ != other by {
                        if t != i {
                            assert(r@[t] == m@[t]);
                        }
                    }
                }
            } else {
                lemma_insert_position_exists(m@, key);
                let j = insert_position(m@, key);
                assert(0 <= j <= m@.len());
                assert forall|t: int| 0 <= t < j implies #[trigger] r@[t] == m@[t] by {
                    assert(r@.take(j)[t] == m@.take(j)[t]);
                }
                assert forall|t: int| j < t < r@.len() implies #[trigger] r@[t] == m@[t - 1] by {
                    assert(r@.skip(j + 1)[t - j - 1] == m@.skip(j)[t - j - 1]);
                }
                assert forall|t: int| 0 <= t < j implies (#[trigger] r@[t]).0@ != key by {
                    assert(r@[t] == m@[t]);
                }
                assert(is_first_member(r@, key, j));
                lemma_first_member_unique(r@, key, j);
                if has_member(m@, other) {
                    lemma_first_member_exists(m@, other);
                    let k = first_member(m@, other);
                    if k < j {
                        assert(r@[k] == m@[k]);
                        assert forall|t: int| 0 <= t < k implies (#[trigger] r@[t]).0@ != other by {
                            assert(r@[t] == m@[t]);
                        }
                        assert(is_first_member(r@, other, k));
                        lemma_first_member_unique(r@, other, k);
                    } else {
                        assert(r@[k + 1] == m@[k]);
                        assert forall|t: int| 0 <= t < k + 1 implies (#[trigger] r@[t]).0@ != other by {
                            if t < j {
                                assert(r@[t] == m@[t]);
                            } else if t > j {
                                assert(r@[t] == m@[t - 1]);
                            }
                        }
                        assert(is_first_member(r@, other, k + 1));
                        lemma_first_member_unique(r@, other, k + 1);
                    }
                } else {
                    assert forall|t: int| 0 <= t < r@.len() implies r@[t].0@ != other by {
                        if t < j {
                            assert(r@[t] == m@[t]);
                        } else if t > j {
                            assert(r@[t] == m@[t - 1]);
                        }
                    }
                }
            }
        },
        (JsonValue::Null, JsonValue::Object(r)) => {
            assert(is_first_member(r@, key, 0));
            lemma_first_member_unique(r@, key, 0);
            assert(!has_member(r@, other));
        },
        _ => {},
    }
}

/// A value that `v[key] = ...` accepts (the others make it panic).
pub open spec fn is_object_or_null(v: JsonValue) -> bool {
    v is Object || v is Null
}

/// Whether `a` sorts before `b`.
pub fn str_before(a: &str, b: &str) -> (r: bool)
    ensures
        r == key_before(a@, b@),
{
    let ca = chars_of(a);
    let cb = chars_of(b);
    let mut i: usize = 0;
    assert(a@.skip(0) =~= a@);
    assert(b@.skip(0) =~= b@);
    while i < ca.len() && i < cb.len() && ca[i] == cb[i]
        invariant
            ca@ == a@,
            cb@ == b@,
            i <= ca@.len(),
            i <= cb@.len(),
            forall|k: int| 0 <= k < i ==> ca@[k] == cb@[k],
            key_before(a@, b@) == key_before(a@.skip(i as int), b@.skip(i as int)),
        decreases ca@.len() - i,
    {
        assert(a@.skip(i as int).drop_first() =~= a@.skip(i + 1));
        assert(b@.skip(i as int).drop_first() =~= b@.skip(i + 1));
        i = i + 1;
    }
    let ghost sa = a@.skip(i as int);
    let ghost sb = b@.skip(i as int);
    if i == ca.len() {
        assert(sa.len() == 0);
        i < cb.len()
    } else if i == cb.len() {
        assert(sb.len() == 0);
        false
    } else {
        assert(sa[0] == ca@[i as int] && sb[0] == cb@[i as int]);
        ca[i] < cb[i]
    }
}

impl JsonValue {
    /// The position of the first member named `key`, for an object.
    pub fn member_position(&self, key: &str) -> (r: Option<usize>)
        ensures
            match *self {
                JsonValue::Object(m) => match r {
                    Some(i) => is_first_member(m@, key@, i as int),
                    None => !has_member(m@, key@),
                },
                _ => r is None,
            },
    {
        match self {
            JsonValue::Object(members) => {
                let mut i: usize = 0;
                while i < members.len()
                    invariant
                        i <= members@.len(),
                        forall|j: int| 0 <= j < i ==> members@[j].0@ != key@,
                        *self == JsonValue::Object(*members),
                    decreases members@.len() - i,
                {
                    if crate::text::str_eq(members[i].0.as_str(), key) {
                        return Some(i);
                    }
                    i = i + 1;
                }
                None
            },
            _ => None,
        }
    }

    /// `self[key]`, with `None` standing for `null`.
    pub fn get(&self, key: &str) -> (r: Option<&JsonValue>)
        ensures
            match r {
                Some(x) => *x == field(*self, key@),
                None => field(*self, key@) == JsonValue::Null,
            },
    {
        match self.member_position(key) {
            Some(i) => {
                match self {
                    JsonValue::Object(members) => {
                        proof { lemma_first_member_unique(members@, key@, i as int); }
                        Some(&members[i].1)
                    },
                    _ => None,
                }
            },
            None => None,
        }
    }

    /// `self[i]`, with `None` standing for `null`.
    pub fn index(&self, i: usize) -> (r: Option<&JsonValue>)
        ensures
            match r {
                Some(x) => *x == element(*self, i as int),
                None => element(*self, i as int) == JsonValue::Null,
            },
    {
        match self {
            JsonValue::Array(items) => {
                if i < items.len() {
                    Some(&items[i])
                } else {
                    None
                }
            },
            _ => None,
        }
    }

    /// The characters of a string value.
    pub fn as_str(&self) -> (r: Option<&str>)
        ensures
            match r {
                Some(s) => string_chars(*self) == Some(s@),
                None => string_chars(*self) is None,
            },
    {
        match self {
            JsonValue::Str(s) => Some(s.as_str()),
            _ => None,
        }
    }

    /// The elements of an array value.
    pub fn as_array(&self) -> (r: Option<&Vec<JsonValue>>)
        ensures
            match r {
                Some(v) => array_items(*self) == Some(v@),
                None => array_items(*self) is None,
            },
    {
        match self {
            JsonValue::Array(items) => Some(items),
            _ => None,
        }
    }

    /// Whether this is `null`.
    pub fn is_null(&self) -> (r: bool)
        ensures
            r == (*self is Null),
    {
        match self {
            JsonValue::Null => true,
            _ => false,
        }
    }

    /// `self[key] = new`: replaces the first member named `key`, or inserts
    /// a member in key order, or turns `null` into a one-member object.
    pub fn set_field(&mut self, key: &str, new: JsonValue)
        requires
            is_object_or_null(*old(self)),
        ensures
            field_set(*old(self), key@, new, *final(self)),
    {
        let ghost orig = *self;
        let pos = self.member_position(key);
        let mut old_value = JsonValue::Null;
        std::mem::swap(self, &mut old_value);
        match old_value {
            JsonValue::Object(mut members) => {
                let ghost m = members@;
                match pos {
                    Some(i) => {
                        proof { lemma_first_member_unique(m, key@, i as int); }
                        let k = members[i].0.clone();
                        members.set(i, (k, new));
                        *self = JsonValue::Object(members);
                        assert(field_set(orig, key@, new, *self));
                    },
                    None => {
                        let mut j: usize = 0;
                        while j < members.len() && !str_before(key, members[j].0.as_str())
                            invariant
                                members@ == m,
                                j <= m.len(),
                                forall|k: int| 0 <= k < j ==> !key_before(key@, #[trigger] m[k].0@),
                            decreases m.len() - j,
                        {
                            j = j + 1;
                        }
                        assert(is_insert_position(m, key@, j as int));
                        proof { lemma_insert_position_unique(m, key@, j as int); }
                        members.insert(j, (key.to_owned(), new));
                        assert(members@.take(j as int) =~= m.take(j as int));
                        assert(members@.skip(j + 1) =~= m.skip(j as int));
                        assert(members@[j as int].1 == new);
                        assert(!has_member(m, key@));
                        let ghost r = members@;
                        assert(is_insert_position(m, key@, j as int) && r.len() == m.len() + 1
                            && r[j as int].0@ == key@ && r[j as int].1 == new
                            && r.take(j as int) == m.take(j as int) && r.skip(j + 1) == m.skip(
                            j as int,
                        ));
                        *self = JsonValue::Object(members);
                        assert(field_set(orig, key@, new, *self));
                    },
                }
            },
            _ => {
                let mut members: Vec<(String, JsonValue)> = Vec::new();
                members.push((key.to_owned(), new));
                *self = JsonValue::Object(members);
            },
        }
    }

    /// `self[key].take()`: the value of the member, which becomes `null`
    /// (and is added as `null` when missing).
    pub fn take_field(&mut self, key: &str) -> (r: JsonValue)
        requires
            is_object_or_null(*old(self)),
        ensures
            r == field(*old(self), key@),
            field_set(*old(self), key@, JsonValue::Null, *final(self)),
    {
        let pos = self.member_position(key);
        match pos {
            Some(i) => {
                match self {
                    JsonValue::Object(members) => {
                        proof { lemma_first_member_unique(members@, key@, i as int); }
                        let k = members[i].0.clone();
                        let mut entry = (k, JsonValue::Null);
                        members.set_and_swap(i, &mut entry);
                        entry.1
                    },
                    _ => JsonValue::Null,
                }
            },
            None => {
                self.set_field(key, JsonValue::Null);
                JsonValue::Null
            },
        }
    }

    /// `self[i] = new` for an element of an array.
    pub fn set_element(&mut self, i: usize, new: JsonValue)
        requires
            array_items(*old(self)) is Some,
            i < array_items(*old(self))->0.len(),
        ensures
            array_items(*final(self)) == Some(array_items(*old(self))->0.update(i as int, new)),
    {
        match self {
            JsonValue::Array(items) => {
                items.set(i, new);
            },
            _ => {},
        }
    }
}

/// The value of a number that is a non-negative integer fitting `u64`
/// (`as_u64`): digits only, no sign, fraction or exponent.
pub open spec fn json_u64(v: JsonValue) -> Option<u64> {
    match v {
        JsonValue::Number(t) => if t@.len() > 0 && t@[0] != '+' {
            match crate::text::uint_value(t@, 10, u64::MAX as int) {
                Ok(n) => Some(n as u64),
                Err(_) => None,
            }
        } else {
            None
        },
        _ => None,
    }
}

impl JsonValue {
    /// The value of a number that is a non-negative integer fitting `u64`.
    pub fn as_u64(&self) -> (r: Option<u64>)
        ensures
            r == json_u64(*self),
    {
        match self {
            JsonValue::Number(t) => {
                let cs = chars_of(t.as_str());
                if cs.len() == 0 || cs[0] == '+' {
                    return None;
                }
                match crate::text::parse_uint(t.as_str(), 10, u64::MAX) {
                    Ok(n) => Some(n),
                    Err(_) => None,
                }
            },
            _ => None,
        }
    }

    /// A number holding the decimal digits of `n`.
    pub fn from_u64(n: u64) -> (r: JsonValue)
        ensures
            r matches JsonValue::Number(t) && t@ == crate::text::dec_text(n as nat),
    {
        JsonValue::Number(crate::text::to_decimal_string(n as u128))
    }
}

} // verus!
