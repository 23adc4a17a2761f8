use vstd::prelude::*;

use crate::json::{JsonNumber, JsonValue};
use crate::text::{decimal_text, int_text, uint_text};

verus! {

/// The text of a boolean.
pub open spec fn bool_text(b: bool) -> Seq<char> {
    if b {
        seq!['t', 'r', 'u', 'e']
    } else {
        seq!['f', 'a', 'l', 's', 'e']
    }
}

/// The text of a number: base 10 for an integer, the held decimal text for a
/// floating-point number.
pub open spec fn number_text(n: JsonNumber) -> Seq<char> {
    match n {
        JsonNumber::Int(i) => decimal_text(i as int),
        JsonNumber::UInt(u) => decimal_text(u as int),
        JsonNumber::Float(t) => t@,
    }
}

/// The text that a scalar stands for in a dotenv file; `None` for an array or
/// an object, which have no such text.
pub open spec fn scalar_text(v: JsonValue) -> Option<Seq<char>> {
    match v {
        JsonValue::Str(s) => Some(s@),
        JsonValue::Bool(b) => Some(bool_text(b)),
        JsonValue::Null => Some(Seq::empty()),
        JsonValue::Number(n) => Some(number_text(n)),
        JsonValue::Array(_) => None,
        JsonValue::Object(_) => None,
    }
}

/// The view of an optional string.
pub open spec fn opt_text(r: Option<String>) -> Option<Seq<char>> {
    match r {
        Some(s) => Some(s@),
        None => None,
    }
}

/// Converts a scalar to its text: a string is itself, a boolean `true` or
/// `false`, null the empty string, a number its decimal text. Arrays and
/// objects give `None`.
pub fn stringify_json_value(value: &JsonValue) -> (r: Option<String>)
    ensures
        opt_text(r) == scalar_text(*value),
{
    match value {
        JsonValue::Str(s) => Some(s.clone()),
        JsonValue::Bool(b) => {
            let mut t = String::new();
            if *b {
                crate::text::push_text(&mut t, "true");
                proof {
                    reveal_strlit("true");
                }
            } else {
                crate::text::push_text(&mut t, "false");
                proof {
                    reveal_strlit("false");
                }
            }
            assert(t@ =~= bool_text(*b));
            Some(t)
        },
        JsonValue::Null => Some(String::new()),
        JsonValue::Number(n) => match n {
            JsonNumber::Int(i) => Some(int_text(*i)),
            JsonNumber::UInt(u) => Some(uint_text(*u)),
            JsonNumber::Float(t) => Some(t.clone()),
        },
        JsonValue::Array(_) => None,
        JsonValue::Object(_) => None,
    }
}

} // verus!
