use vstd::prelude::*;
use vstd::string::*;
use crate::asm_text::{decimal, decimal_text};

verus! {

/// Type tags that generated code hands to the printer with a value.
pub const TAG_INT: u64 = 0;
pub const TAG_BOOL: u64 = 1;
pub const TAG_POINTER: u64 = 2;
pub const TAG_OPEN_STRUCT: u64 = 3;
pub const TAG_CLOSE_STRUCT: u64 = 4;

/// The printer's one piece of state: whether it is inside a struct literal.
#[derive(Clone, Copy, Debug, PartialEq, Eq, Structural)]
pub struct PrinterState {
    pub in_struct: bool,
}

/// The text of the value itself, by its tag; markers and unknown tags have none.
pub open spec fn value_text(value: i64, tag: u64) -> Seq<char> {
    if tag == TAG_BOOL {
        if value == 1 { "true "@ } else { "false "@ }
    } else if tag == TAG_INT {
        decimal(value as int) + " "@
    } else if tag == TAG_POINTER {
        if value == 0 { "pointer: null "@ } else { "pointer: "@ + decimal(value as int) + " "@ }
    } else {
        Seq::empty()
    }
}

/// Everything one printer call writes: the value, a newline unless inside a struct
/// literal, then "(" for an open marker or ")" and a newline for a close marker.
pub open spec fn print_text(st: PrinterState, value: i64, tag: u64) -> Seq<char> {
    value_text(value, tag) + (if st.in_struct { Seq::empty() } else { "\n"@ }) + (if tag
        == TAG_OPEN_STRUCT {
        "("@
    } else if tag == TAG_CLOSE_STRUCT {
        ")\n"@
    } else {
        Seq::empty()
    })
}

/// The printer state after a call: the markers set and clear the struct flag.
pub open spec fn next_state(st: PrinterState, tag: u64) -> PrinterState {
    if tag == TAG_OPEN_STRUCT {
        PrinterState { in_struct: true }
    } else if tag == TAG_CLOSE_STRUCT {
        PrinterState { in_struct: false }
    } else {
        st
    }
}

/// The text that the printer writes for one value and type tag, updating its state.
pub fn snek_print_text(st: &mut PrinterState, value: i64, type_flag: u64) -> (s: String)
    ensures
        s@ == print_text(*old(st), value, type_flag),
        *final(st) == next_state(*old(st), type_flag),
{
    let mut s = if type_flag == TAG_BOOL {
        if value == 1 {
            String::from_str("true ")
        } else {
            String::from_str("false ")
        }
    } else if type_flag == TAG_INT {
        let mut t = decimal_text(value);
        t.append(" ");
        t
    } else if type_flag == TAG_POINTER {
        if value == 0 {
            String::from_str("pointer: null ")
        } else {
            let mut t = String::from_str("pointer: ");
            t.append(decimal_text(value).as_str());
            t.append(" ");
            t
        }
    } else {
        String::new()
    };
    let ghost v = s@;
    if !st.in_struct {
        s.append("\n");
    }
    let ghost w = s@;
    assert(w == v + (if old(st).in_struct { Seq::<char>::empty() } else { "\n"@ }));
    if type_flag == TAG_OPEN_STRUCT {
        st.in_struct = true;
        s.append("(");
    } else if type_flag == TAG_CLOSE_STRUCT {
        st.in_struct = false;
        s.append(")\n");
    } else {
        assert(s@ =~= w + Seq::<char>::empty());
    }
    s
}

/// The diagnostic for an error code reported by generated code; code 1 is
/// arithmetic overflow.
pub fn error_message(errcode: i64) -> (s: String)
    ensures
        s@ == (if errcode == 1 { "Integer overflow"@ } else { "an error ocurred "@ + decimal(errcode as int) }),
{
    if errcode == 1 {
        String::from_str("Integer overflow")
    } else {
        let mut s = String::from_str("an error ocurred ");
        s.append(decimal_text(errcode).as_str());
        s
    }
}

pub open spec fn is_digit(c: char) -> bool {
    '0' <= c <= '9'
}

/// The value of a run of decimal digits.
pub open spec fn digits_value(s: Seq<char>) -> int
    decreases s.len(),
{
    if s.len() == 0 {
        0
    } else {
        10 * digits_value(s.drop_last()) + (s.last() as int - '0' as int)
    }
}

/// The integer that decimal text denotes: an optional sign, then one or more digits.
pub open spec fn decimal_value(s: Seq<char>) -> Option<int> {
    let signed = s.len() > 0 && (s[0] == '+' || s[0] == '-');
    let digits = if signed { s.drop_first() } else { s };
    if digits.len() > 0 && forall|i: int| 0 <= i < digits.len() ==> is_digit(#[trigger] digits[i]) {
        Some(if signed && s[0] == '-' { -digits_value(digits) } else { digits_value(digits) })
    } else {
        None
    }
}

/// What reading a 64-bit integer from the text gives.
pub open spec fn parsed_i64(s: Seq<char>) -> Option<i64> {
    match decimal_value(s) {
        Some(v) => if i64::MIN <= v <= i64::MAX { Some(v as i64) } else { None },
        None => None,
    }
}

/// Relies on `str::parse::<i64>`: an optional `+` or `-`, then ASCII digits only,
/// with a value in range; anything else is an error.
#[verifier::external_body]
fn parse_i64(s: &str) -> (r: Option<i64>)
    ensures
        r == parsed_i64(s@),
{
    s.parse::<i64>().ok()
}

/// The program's input argument from its text: 0 when empty, else the integer it
/// denotes; `None` when it denotes none.
pub fn parse_input(input: &str) -> (r: Option<i64>)
    ensures
        r == (if input@.len() == 0 { Some(0i64) } else { parsed_i64(input@) }),
{
    if input.is_empty() {
        return Some(0);
    }
    parse_i64(input)
}

} // verus!
