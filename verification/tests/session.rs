use sysex_out::batch::message_batch;
use sysex_out::errors::MidiError;
use sysex_out::session::{run, Script, Session};

fn texts(items: &[&str]) -> Vec<String> {
    items.iter().map(|s| s.to_string()).collect()
}

fn two_synths() -> Vec<Result<String, String>> {
    vec![Ok("Synth A".to_string()), Ok("Synth B".to_string())]
}

const LISTING: [&str; 4] = [
    "Available MIDI device output ports:",
    "1 - Synth A",
    "2 - Synth B",
    "Type a number to select a MIDI device output port:",
];

#[test]
fn a_whole_run_shows_every_line_and_sends_the_batch() {
    let script = Script {
        lookups: two_synths(),
        lines: texts(&["x\n", "0\n", "3\n", "2\n"]),
        refusal: None,
        faults: Vec::new(),
    };
    let session = run(&script);
    let expected = Session {
        output: texts(&[
            "Available MIDI device output ports:",
            "1 - Synth A",
            "2 - Synth B",
            "Type a number to select a MIDI device output port:",
            "Input was not a valid choice; try again.",
            "Type a number to select a MIDI device output port:",
            "Input was not a valid choice; try again.",
            "Type a number to select a MIDI device output port:",
            "Input was not a valid choice; try again.",
            "Type a number to select a MIDI device output port:",
            "Selected MIDI device output port 'Synth B'",
            "Sending some sysex messages to the MIDI output connection...",
            "Done sending sysex messages",
        ]),
        connected_to: Some(1),
        releases: 1,
        handed: message_batch(),
        result: Ok(()),
    };
    assert_eq!(session, expected);
}

#[test]
fn a_run_without_ports_reports_that_and_nothing_else() {
    let script = Script {
        lookups: Vec::new(),
        lines: texts(&["1\n"]),
        refusal: None,
        faults: Vec::new(),
    };
    assert_eq!(
        run(&script),
        Session {
            output: texts(&["Error: no MIDI device output ports found"]),
            connected_to: None,
            releases: 0,
            handed: Vec::new(),
            result: Err(MidiError::NoOutputsAvailable),
        }
    );
}

#[test]
fn a_port_without_a_name_ends_the_run_before_the_list() {
    let script = Script {
        lookups: vec![Ok("Synth A".to_string()), Err("invalid port".to_string())],
        lines: texts(&["1\n"]),
        refusal: None,
        faults: Vec::new(),
    };
    assert_eq!(
        run(&script),
        Session {
            output: texts(&["Error: invalid port"]),
            connected_to: None,
            releases: 0,
            handed: Vec::new(),
            result: Err(MidiError::NameResolution("invalid port".to_string())),
        }
    );
}

#[test]
fn the_end_of_the_input_ends_the_run_after_the_prompt() {
    let script = Script {
        lookups: two_synths(),
        lines: texts(&["7\n"]),
        refusal: None,
        faults: Vec::new(),
    };
    let session = run(&script);
    let mut output = texts(&LISTING);
    output.push("Input was not a valid choice; try again.".to_string());
    output.push("Type a number to select a MIDI device output port:".to_string());
    output.push("Error: end of input while waiting for a selection".to_string());
    assert_eq!(session.output, output);
    assert_eq!(session.connected_to, None);
    assert_eq!(session.releases, 0);
    assert!(session.handed.is_empty());
    assert_eq!(
        session.result,
        Err(MidiError::Input("end of input while waiting for a selection".to_string()))
    );
}

#[test]
fn a_refused_connection_is_reported_and_never_released() {
    let script = Script {
        lookups: two_synths(),
        lines: texts(&["1\n"]),
        refusal: Some("invalid port".to_string()),
        faults: Vec::new(),
    };
    let session = run(&script);
    let mut output = texts(&LISTING);
    output.push("Selected MIDI device output port 'Synth A'".to_string());
    output.push("Error: invalid port".to_string());
    assert_eq!(
        session,
        Session {
            output,
            connected_to: None,
            releases: 0,
            handed: Vec::new(),
            result: Err(MidiError::Connection("invalid port".to_string())),
        }
    );
}

#[test]
fn a_refused_message_ends_the_run_after_one_release() {
    let batch = message_batch();
    let mut j = 0;
    while j < 9 {
        let mut faults: Vec<Option<String>> = vec![None; j];
        faults.push(Some("could not send encoded ALSA message".to_string()));
        let script =
            Script { lookups: two_synths(), lines: texts(&["2\n"]), refusal: None, faults };
        let session = run(&script);
        let mut output = texts(&LISTING);
        output.push("Selected MIDI device output port 'Synth B'".to_string());
        output.push("Sending some sysex messages to the MIDI output connection...".to_string());
        output.push("Error: could not send encoded ALSA message".to_string());
        assert_eq!(
            session,
            Session {
                output,
                connected_to: Some(1),
                releases: 1,
                handed: batch[..j + 1].to_vec(),
                result: Err(MidiError::Transmission(
                    "could not send encoded ALSA message".to_string()
                )),
            }
        );
        j += 1;
    }
}

#[test]
fn exactly_one_line_reports_a_failure() {
    let scripts = vec![
        Script { lookups: Vec::new(), lines: Vec::new(), refusal: None, faults: Vec::new() },
        Script { lookups: two_synths(), lines: Vec::new(), refusal: None, faults: Vec::new() },
        Script {
            lookups: two_synths(),
            lines: texts(&["1"]),
            refusal: Some("busy".to_string()),
            faults: Vec::new(),
        },
        Script {
            lookups: two_synths(),
            lines: texts(&["1"]),
            refusal: None,
            faults: vec![Some("first".to_string()), Some("second".to_string())],
        },
    ];
    for script in &scripts {
        let session = run(script);
        assert!(session.result.is_err());
        let reports = session.output.iter().filter(|line| line.starts_with("Error: ")).count();
        assert_eq!(reports, 1);
        assert!(session.output.last().unwrap().starts_with("Error: "));
        assert_eq!(session.releases, if session.connected_to.is_some() { 1 } else { 0 });
    }
    let good = run(&Script {
        lookups: two_synths(),
        lines: texts(&["1"]),
        refusal: None,
        faults: Vec::new(),
    });
    assert_eq!(good.output.iter().filter(|line| line.starts_with("Error: ")).count(), 0);
    assert_eq!(good.releases, 1);
}
