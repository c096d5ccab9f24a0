use sysex_out::errors::MidiError;
use sysex_out::selector::{
    get_out_port_names, select_output_port, Input, Reply, Selection, Selector, Verdict,
};

fn owned(items: &[&str]) -> Vec<String> {
    items.iter().map(|s| s.to_string()).collect()
}

const HEADER: &str = "Available MIDI device output ports:";
const PROMPT: &str = "Type a number to select a MIDI device output port:";
const RETRY: &str = "Input was not a valid choice; try again.";

#[test]
fn end_to_end_scenario_selects_second_synth() {
    let run = select_output_port(owned(&["Synth A", "Synth B"]), &owned(&["x\n", "0\n", "3\n", "2\n"]));
    let expected = Selection {
        result: Ok(1),
        retries: 3,
        output: owned(&[
            HEADER,
            "1 - Synth A",
            "2 - Synth B",
            PROMPT,
            RETRY,
            PROMPT,
            RETRY,
            PROMPT,
            RETRY,
            PROMPT,
            "Selected MIDI device output port 'Synth B'",
        ]),
    };
    assert_eq!(run, expected);
}

#[test]
fn an_empty_list_fails_and_shows_nothing() {
    let run = select_output_port(Vec::new(), &owned(&["1\n", "2\n"]));
    assert_eq!(
        run,
        Selection { result: Err(MidiError::NoOutputsAvailable), retries: 0, output: Vec::new() }
    );
    let silent = select_output_port(Vec::new(), &Vec::new());
    assert_eq!(silent.result, Err(MidiError::NoOutputsAvailable));
    assert!(silent.output.is_empty());
    assert!(Selector::new(Vec::new()).is_err());
}

#[test]
fn every_invalid_line_costs_one_retry() {
    let invalid = ["x\n", "0\n", "-3\n", "6\n", "\n", "2 2\n", "five\n", "1.5\n", "99999999999999999999999\n"];
    let names = owned(&["a", "b", "c", "d", "e"]);
    let mut count = 0;
    while count <= invalid.len() {
        let mut k = 1;
        while k <= names.len() {
            let mut lines = owned(&invalid[..count]);
            lines.push(format!("{k}\n"));
            let run = select_output_port(names.clone(), &lines);
            assert_eq!(run.result, Ok(k - 1));
            assert_eq!(run.retries, count);
            assert_eq!(run.output.len(), 1 + names.len() + 1 + 2 * count + 1);
            assert_eq!(
                run.output.last().unwrap(),
                &format!("Selected MIDI device output port '{}'", names[k - 1])
            );
            assert_eq!(run.output.iter().filter(|line| line.as_str() == RETRY).count(), count);
            k += 1;
        }
        count += 1;
    }
}

#[test]
fn lines_after_the_valid_one_are_not_read() {
    let names = owned(&["a", "b"]);
    let short = select_output_port(names.clone(), &owned(&["9\n", "2\n"]));
    let long = select_output_port(names, &owned(&["9\n", "2\n", "1\n", "x\n"]));
    assert_eq!(short, long);
    assert_eq!(long.result, Ok(1));
    assert_eq!(long.retries, 1);
}

#[test]
fn the_same_list_and_input_select_the_same_port_again() {
    let names = owned(&["Synth A", "Synth B", "Synth C"]);
    let lines = owned(&["0\n", "3\n"]);
    let first = select_output_port(names.clone(), &lines);
    let second = select_output_port(names, &lines);
    assert_eq!(first, second);
    assert_eq!(first.result, Ok(2));
}

#[test]
fn the_end_of_the_input_ends_the_selection() {
    let run = select_output_port(owned(&["only"]), &owned(&["2\n", "\n"]));
    assert_eq!(
        run.result,
        Err(MidiError::Input("end of input while waiting for a selection".to_string()))
    );
    assert_eq!(run.retries, 2);
    assert_eq!(run.output, owned(&[HEADER, "1 - only", PROMPT, RETRY, PROMPT, RETRY, PROMPT]));
    let at_once = select_output_port(owned(&["only"]), &Vec::new());
    assert_eq!(at_once.retries, 0);
    assert_eq!(at_once.output, owned(&[HEADER, "1 - only", PROMPT]));
    assert!(matches!(at_once.result, Err(MidiError::Input(_))));
}

#[test]
fn the_opening_lists_every_port_from_one() {
    let names: Vec<String> = (0..12).map(|i| format!("Port {i}")).collect();
    let selector = Selector::new(names).unwrap();
    assert_eq!(selector.count(), 12);
    let lines = selector.opening();
    assert_eq!(lines.len(), 14);
    assert_eq!(lines[0], HEADER);
    assert_eq!(lines[1], "1 - Port 0");
    assert_eq!(lines[9], "9 - Port 8");
    assert_eq!(lines[10], "10 - Port 9");
    assert_eq!(lines[12], "12 - Port 11");
    assert_eq!(lines[13], PROMPT);
}

#[test]
fn the_number_shown_beside_a_port_selects_it() {
    let names: Vec<String> = (0..25).map(|i| format!("Port {i}")).collect();
    let selector = Selector::new(names.clone()).unwrap();
    let lines = selector.opening();
    let mut i = 0;
    while i < names.len() {
        let shown = lines[i + 1].split(" - ").next().unwrap().to_string();
        let reply = selector.respond(&Input::Line(shown));
        assert_eq!(reply.verdict, Verdict::Selected(i));
        i += 1;
    }
}

#[test]
fn the_selector_answers_each_kind_of_input() {
    let selector = Selector::new(owned(&["Synth A", "Synth B"])).unwrap();
    assert_eq!(
        selector.respond(&Input::Line("2\n".to_string())),
        Reply {
            verdict: Verdict::Selected(1),
            output: owned(&["Selected MIDI device output port 'Synth B'"]),
        }
    );
    assert_eq!(
        selector.respond(&Input::Line("3\n".to_string())),
        Reply { verdict: Verdict::Retry, output: owned(&[RETRY, PROMPT]) }
    );
    assert_eq!(
        selector.respond(&Input::Failure("stream did not contain valid UTF-8".to_string())),
        Reply {
            verdict: Verdict::Failed(MidiError::Input(
                "stream did not contain valid UTF-8".to_string()
            )),
            output: Vec::new(),
        }
    );
    assert_eq!(
        selector.respond(&Input::End),
        Reply {
            verdict: Verdict::Failed(MidiError::Input(
                "end of input while waiting for a selection".to_string()
            )),
            output: Vec::new(),
        }
    );
    assert_eq!(
        selector.respond(&Input::Line("1\n".to_string())).verdict,
        Verdict::Selected(0)
    );
}

#[test]
fn names_are_gathered_in_order() {
    let lookups = vec![Ok("Synth A".to_string()), Ok("Synth B".to_string())];
    assert_eq!(get_out_port_names(&lookups), Ok(owned(&["Synth A", "Synth B"])));
    assert_eq!(get_out_port_names(&Vec::new()), Ok(Vec::new()));
}

#[test]
fn the_first_failed_lookup_ends_the_gathering() {
    let lookups = vec![
        Ok("Synth A".to_string()),
        Err("invalid port".to_string()),
        Ok("Synth C".to_string()),
        Err("unknown error when trying to retrieve the port name".to_string()),
    ];
    assert_eq!(
        get_out_port_names(&lookups),
        Err(MidiError::NameResolution("invalid port".to_string()))
    );
    let only = vec![Err("provided port number was out of range".to_string())];
    assert_eq!(
        get_out_port_names(&only),
        Err(MidiError::NameResolution("provided port number was out of range".to_string()))
    );
}
