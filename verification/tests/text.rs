use sysex_out::text::{
    confirmation, decimal, done_notice, listing_header, listing_line, prompt, retry_notice,
    sending_notice,
};

#[test]
fn decimal_writes_numbers_in_base_ten() {
    assert_eq!(decimal(0), "0");
    assert_eq!(decimal(7), "7");
    assert_eq!(decimal(9), "9");
    assert_eq!(decimal(10), "10");
    assert_eq!(decimal(11), "11");
    assert_eq!(decimal(99), "99");
    assert_eq!(decimal(100), "100");
    assert_eq!(decimal(1234567890), "1234567890");
    assert_eq!(decimal(usize::MAX), usize::MAX.to_string());
}

#[test]
fn decimal_agrees_with_the_standard_library() {
    let mut n: usize = 0;
    while n < 3000 {
        assert_eq!(decimal(n), n.to_string());
        n += 1;
    }
}

#[test]
fn a_listing_line_holds_number_dash_and_name() {
    assert_eq!(listing_line(1, "Synth A"), "1 - Synth A");
    assert_eq!(listing_line(12, "Midi Through:Midi Through Port-0 14:0"), "12 - Midi Through:Midi Through Port-0 14:0");
    assert_eq!(listing_line(3, ""), "3 - ");
    assert_eq!(listing_line(2, "Flöte ♪"), "2 - Flöte ♪");
}

#[test]
fn the_fixed_lines_read_as_documented() {
    assert_eq!(listing_header(), "Available MIDI device output ports:");
    assert_eq!(prompt(), "Type a number to select a MIDI device output port:");
    assert_eq!(retry_notice(), "Input was not a valid choice; try again.");
    assert_eq!(sending_notice(), "Sending some sysex messages to the MIDI output connection...");
    assert_eq!(done_notice(), "Done sending sysex messages");
}

#[test]
fn the_confirmation_quotes_the_name() {
    assert_eq!(confirmation("Synth B"), "Selected MIDI device output port 'Synth B'");
    assert_eq!(confirmation(""), "Selected MIDI device output port ''");
    assert_eq!(confirmation("it's"), "Selected MIDI device output port 'it's'");
}
