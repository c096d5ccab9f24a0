//! The lines that the utility shows on the console.

use vstd::prelude::*;
use vstd::string::*;

verus! {

/// The character for a digit below ten.
pub open spec fn digit_char(d: nat) -> char
    recommends
        d < 10,
{
    ('0' as int + d) as char
}

/// A number in base ten, without leading zeros.
pub open spec fn decimal_digits(n: nat) -> Seq<char>
    decreases n,
{
    if n < 10 {
        seq![digit_char(n)]
    } else {
        decimal_digits(n / 10).push(digit_char(n % 10))
    }
}

/// The line above the list of ports.
pub open spec fn listing_header_text() -> Seq<char> {
    "Available MIDI device output ports:"@
}

/// The line that lists one port: its number, ` - `, its name.
pub open spec fn listing_line_text(position: nat, name: Seq<char>) -> Seq<char> {
    decimal_digits(position) + " - "@ + name
}

/// The line that asks for a selection.
pub open spec fn prompt_text() -> Seq<char> {
    "Type a number to select a MIDI device output port:"@
}

/// The line that answers a selection that names no listed port.
pub open spec fn retry_text() -> Seq<char> {
    "Input was not a valid choice; try again."@
}

/// The line that confirms a selection: it names the port in single quotes.
pub open spec fn confirmation_text(name: Seq<char>) -> Seq<char> {
    "Selected MIDI device output port '"@ + name + "'"@
}

/// The description of the failure that the end of the input stands for.
pub open spec fn end_of_input_text() -> Seq<char> {
    "end of input while waiting for a selection"@
}

/// The line shown before the first message is sent.
pub open spec fn sending_text() -> Seq<char> {
    "Sending some sysex messages to the MIDI output connection..."@
}

/// The line shown after the last message was sent.
pub open spec fn done_text() -> Seq<char> {
    "Done sending sysex messages"@
}

fn digit_text(d: usize) -> (r: &'static str)
    requires
        d < 10,
    ensures
        r@ == seq![digit_char(d as nat)],
{
    proof {
        reveal_strlit("0");
        reveal_strlit("1");
        reveal_strlit("2");
        reveal_strlit("3");
        reveal_strlit("4");
        reveal_strlit("5");
        reveal_strlit("6");
        reveal_strlit("7");
        reveal_strlit("8");
        reveal_strlit("9");
    }
    let r = if d == 0 {
        "0"
    } else if d == 1 {
        "1"
    } else if d == 2 {
        "2"
    } else if d == 3 {
        "3"
    } else if d == 4 {
        "4"
    } else if d == 5 {
        "5"
    } else if d == 6 {
        "6"
    } else if d == 7 {
        "7"
    } else if d == 8 {
        "8"
    } else {
        "9"
    };
    assert(r@ =~= seq![digit_char(d as nat)]);
    r
}

/// `n` written in base ten.
pub fn decimal(n: usize) -> (r: String)
    ensures
        r@ == decimal_digits(n as nat),
    decreases n,
{
    if n < 10 {
        String::from_str(digit_text(n))
    } else {
        let head = decimal(n / 10);
        let r = head.concat(digit_text(n % 10));
        assert(r@ =~= decimal_digits(n as nat));
        r
    }
}

/// The line above the list of ports.
pub fn listing_header() -> (r: String)
    ensures
        r@ == listing_header_text(),
{
    String::from_str("Available MIDI device output ports:")
}

/// The line that lists the port at `position`, counted from one.
pub fn listing_line(position: usize, name: &str) -> (r: String)
    ensures
        r@ == listing_line_text(position as nat, name@),
{
    decimal(position).concat(" - ").concat(name)
}

/// The line that asks for a selection.
pub fn prompt() -> (r: String)
    ensures
        r@ == prompt_text(),
{
    String::from_str("Type a number to select a MIDI device output port:")
}

/// The line that answers a selection that names no listed port.
pub fn retry_notice() -> (r: String)
    ensures
        r@ == retry_text(),
{
    String::from_str("Input was not a valid choice; try again.")
}

/// The line that confirms the selection of the port called `name`.
pub fn confirmation(name: &str) -> (r: String)
    ensures
        r@ == confirmation_text(name@),
{
    String::from_str("Selected MIDI device output port '").concat(name).concat("'")
}

/// The description of the failure that the end of the input stands for.
pub fn end_of_input_notice() -> (r: String)
    ensures
        r@ == end_of_input_text(),
{
    String::from_str("end of input while waiting for a selection")
}

/// The line shown before the first message is sent.
pub fn sending_notice() -> (r: String)
    ensures
        r@ == sending_text(),
{
    String::from_str("Sending some sysex messages to the MIDI output connection...")
}

/// The line shown after the last message was sent.
pub fn done_notice() -> (r: String)
    ensures
        r@ == done_text(),
{
    String::from_str("Done sending sysex messages")
}

} // verus!
