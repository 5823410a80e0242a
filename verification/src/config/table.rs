//! Reading settings out of the config file, given as a tree of values:
//! tables are objects, integers are numbers written in decimal.

use vstd::prelude::*;
use crate::json::{field, has_member, string_chars, JsonValue};
use crate::text::{chars_of, parse_uint_from, uint_value};

verus! {

/// `table[key]`, for a table (`None` for a missing key or no table).
#[verifier::opaque]
pub open spec fn table_get(t: Option<JsonValue>, key: Seq<char>) -> Option<JsonValue> {
    match t {
        Some(JsonValue::Object(m)) => if has_member(m@, key) {
            Some(field(JsonValue::Object(m), key))
        } else {
            None
        },
        _ => None,
    }
}

/// The value, if it is a table.
pub open spec fn as_table(v: Option<JsonValue>) -> Option<JsonValue> {
    match v {
        Some(JsonValue::Object(m)) => Some(JsonValue::Object(m)),
        _ => None,
    }
}

/// The value of an integer: an optional `-` and decimal digits.
#[verifier::opaque]
pub open spec fn toml_int(v: JsonValue) -> Option<int> {
    match v {
        JsonValue::Number(t) => if t@.len() > 0 && t@[0] == '-' {
            if t@.len() > 1 && t@[1] != '+' {
                match uint_value(t@.drop_first(), 10, u64::MAX as int) {
                    Ok(n) => Some(-n),
                    Err(_) => None,
                }
            } else {
                None
            }
        } else if t@.len() > 0 && t@[0] != '+' {
            match uint_value(t@, 10, u64::MAX as int) {
                Ok(n) => Some(n),
                Err(_) => None,
            }
        } else {
            None
        },
        _ => None,
    }
}

/// The value, if it is a boolean.
pub open spec fn toml_bool(v: Option<JsonValue>) -> Option<bool> {
    match v {
        Some(JsonValue::Bool(b)) => Some(b),
        _ => None,
    }
}

/// The characters, if it is a string.
pub open spec fn toml_str(v: Option<JsonValue>) -> Option<Seq<char>> {
    match v {
        Some(x) => string_chars(x),
        None => None,
    }
}

/// An integer setting of a table: `None` when missing or no integer, an
/// error when it does not fit `0..=max`.
pub open spec fn int_setting(t: Option<JsonValue>, key: Seq<char>, max: int) -> Result<Option<int>, ()> {
    match table_get(t, key) {
        None => Ok(None),
        Some(v) => match toml_int(v) {
            None => Ok(None),
            Some(n) => if 0 <= n <= max {
                Ok(Some(n))
            } else {
                Err(())
            },
        },
    }
}

/// A flag set from a pair of options or the config: the option that turns it
/// on, else the option that turns it off, else the config's value.
pub open spec fn flag_setting(on: bool, off: bool, config: Option<bool>) -> Option<bool> {
    if on {
        Some(true)
    } else if off {
        Some(false)
    } else {
        config
    }
}

/// Reads `table[key]` for a table.
pub fn get_member<'a>(t: Option<&'a JsonValue>, key: &str) -> (r: Option<&'a JsonValue>)
    ensures
        match r {
            Some(v) => table_get(opt_value(t), key@) == Some(*v),
            None => table_get(opt_value(t), key@) is None,
        },
{
    reveal(table_get);
    match t {
        Some(v) => match v {
            JsonValue::Object(members) => match v.member_position(key) {
                Some(i) => {
                    proof {
                        crate::json::lemma_first_member_unique(members@, key@, i as int);
                    }
                    Some(&members[i].1)
                },
                None => None,
            },
            _ => None,
        },
        None => None,
    }
}

/// The value behind an optional reference.
pub open spec fn opt_value(t: Option<&JsonValue>) -> Option<JsonValue> {
    match t {
        Some(v) => Some(*v),
        None => None,
    }
}

/// The value, if it is a table.
pub fn get_table<'a>(v: Option<&'a JsonValue>) -> (r: Option<&'a JsonValue>)
    ensures
        opt_value(r) == as_table(opt_value(v)),
{
    match v {
        Some(x) => match x {
            JsonValue::Object(_) => Some(x),
            _ => None,
        },
        None => None,
    }
}

/// Reads an integer value.
pub fn read_int(v: &JsonValue) -> (r: Option<(bool, u64)>)
    ensures
        match r {
            Some((neg, n)) => toml_int(*v) == Some(if neg {
                -(n as int)
            } else {
                n as int
            }),
            None => toml_int(*v) is None,
        },
{
    reveal(toml_int);
    match v {
        JsonValue::Number(t) => {
            let cs = chars_of(t.as_str());
            if cs.len() == 0 {
                return None;
            }
            if cs[0] == '-' {
                if cs.len() < 2 || cs[1] == '+' {
                    return None;
                }
                assert(cs@.skip(1) =~= t@.drop_first());
                match parse_uint_from(&cs, 1, 10, u64::MAX) {
                    Ok(n) => Some((true, n)),
                    Err(_) => None,
                }
            } else if cs[0] == '+' {
                None
            } else {
                assert(cs@.skip(0) =~= t@);
                match parse_uint_from(&cs, 0, 10, u64::MAX) {
                    Ok(n) => Some((false, n)),
                    Err(_) => None,
                }
            }
        },
        _ => None,
    }
}

/// Reads an integer setting that must fit `0..=max`.
pub fn int_entry(t: Option<&JsonValue>, key: &str, max: u64) -> (r: Result<Option<u64>, ()>)
    ensures
        match r {
            Ok(Some(n)) => int_setting(opt_value(t), key@, max as int) == Ok::<Option<int>, ()>(Some(n as int)),
            Ok(None) => int_setting(opt_value(t), key@, max as int) == Ok::<Option<int>, ()>(None),
            Err(()) => int_setting(opt_value(t), key@, max as int) == Err::<Option<int>, ()>(()),
        },
{
    let v = match get_member(t, key) {
        Some(v) => v,
        None => {
            return Ok(None);
        },
    };
    match read_int(v) {
        None => Ok(None),
        Some((neg, n)) => {
            if neg && n != 0 {
                Err(())
            } else if n > max {
                Err(())
            } else {
                Ok(Some(n))
            }
        },
    }
}

/// Reads a boolean setting.
pub fn bool_entry(t: Option<&JsonValue>, key: &str) -> (r: Option<bool>)
    ensures
        r == toml_bool(table_get(opt_value(t), key@)),
{
    match get_member(t, key) {
        Some(JsonValue::Bool(b)) => Some(*b),
        _ => None,
    }
}

/// Reads a text setting.
pub fn str_entry(t: Option<&JsonValue>, key: &str) -> (r: Option<String>)
    ensures
        match r {
            Some(s) => toml_str(table_get(opt_value(t), key@)) == Some(s@),
            None => toml_str(table_get(opt_value(t), key@)) is None,
        },
{
    match get_member(t, key) {
        Some(v) => match v.as_str() {
            Some(s) => Some(s.to_owned()),
            None => None,
        },
        None => None,
    }
}

/// A flag from a pair of options or the config.
pub fn flag(on: bool, off: bool, config: Option<bool>) -> (r: Option<bool>)
    ensures
        r == flag_setting(on, off, config),
{
    if on {
        Some(true)
    } else if off {
        Some(false)
    } else {
        config
    }
}

} // verus!
