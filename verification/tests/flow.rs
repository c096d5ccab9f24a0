use sysex_out::errors::MidiError;
use sysex_out::flow::{client_name, port_label, Flow, FlowAction, FlowEvent, Link, Stage};

fn open_second() -> FlowAction {
    FlowAction::Open { port: 1, label: "test port".to_string() }
}

fn count_of(actions: &[FlowAction], wanted: &FlowAction) -> usize {
    actions.iter().filter(|action| *action == wanted).count()
}

#[test]
fn the_labels_are_fixed() {
    assert_eq!(client_name(), "output");
    assert_eq!(port_label(), "test port");
}

#[test]
fn a_run_begins_with_the_selection() {
    let (flow, actions) = Flow::begin();
    assert_eq!(actions, vec![FlowAction::Select]);
    assert_eq!(flow.stage(), Stage::Initialized);
    assert_eq!(flow.link(), Link::Unopened);
}

#[test]
fn a_good_run_goes_through_every_stage_and_reports_nothing() {
    let (mut flow, _) = Flow::begin();
    assert_eq!(flow.step(FlowEvent::Selected(Ok(1))), vec![open_second()]);
    assert_eq!(flow.stage(), Stage::PortSelected);
    assert_eq!(flow.link(), Link::Unopened);
    assert_eq!(flow.step(FlowEvent::Opened), vec![FlowAction::Send]);
    assert_eq!(flow.stage(), Stage::Connected);
    assert_eq!(flow.link(), Link::Open);
    assert_eq!(flow.step(FlowEvent::Transmitted(Ok(()))), vec![FlowAction::Close]);
    assert_eq!(flow.stage(), Stage::Sent);
    assert_eq!(flow.link(), Link::Released);
}

#[test]
fn a_failed_selection_is_reported_and_nothing_is_opened() {
    let events = vec![FlowEvent::Selected(Err(MidiError::NoOutputsAvailable))];
    let (flow, actions) = Flow::replay(events);
    assert_eq!(
        actions,
        vec![
            FlowAction::Select,
            FlowAction::Report(MidiError::NoOutputsAvailable),
        ]
    );
    assert_eq!(flow.stage(), Stage::Failed);
    assert_eq!(flow.link(), Link::Unopened);
    let (_, by_name) = Flow::replay(vec![FlowEvent::Selected(Err(MidiError::NameResolution(
        "invalid port".to_string(),
    )))]);
    assert_eq!(
        by_name[1],
        FlowAction::Report(MidiError::NameResolution("invalid port".to_string()))
    );
    let (_, by_input) =
        Flow::replay(vec![FlowEvent::Selected(Err(MidiError::Input("broken pipe".to_string())))]);
    assert_eq!(by_input[1], FlowAction::Report(MidiError::Input("broken pipe".to_string())));
}

#[test]
fn a_refused_connection_is_reported_and_nothing_is_released() {
    let events = vec![
        FlowEvent::Selected(Ok(1)),
        FlowEvent::OpenFailed("invalid port".to_string()),
    ];
    let (flow, actions) = Flow::replay(events);
    assert_eq!(
        actions,
        vec![
            FlowAction::Select,
            open_second(),
            FlowAction::Report(MidiError::Connection("invalid port".to_string())),
        ]
    );
    assert_eq!(flow.stage(), Stage::Failed);
    assert_eq!(flow.link(), Link::Unopened);
    assert_eq!(count_of(&actions, &FlowAction::Close), 0);
}

#[test]
fn the_connection_is_released_once_however_the_send_phase_ends() {
    let good = vec![FlowEvent::Selected(Ok(1)), FlowEvent::Opened, FlowEvent::Transmitted(Ok(()))];
    let (flow, actions) = Flow::replay(good);
    assert_eq!(
        actions,
        vec![FlowAction::Select, open_second(), FlowAction::Send, FlowAction::Close]
    );
    assert_eq!(flow.stage(), Stage::Sent);
    assert_eq!(count_of(&actions, &FlowAction::Close), 1);

    let bad = vec![
        FlowEvent::Selected(Ok(1)),
        FlowEvent::Opened,
        FlowEvent::Transmitted(Err(MidiError::Transmission(
            "could not send encoded ALSA message".to_string(),
        ))),
    ];
    let (flow, actions) = Flow::replay(bad);
    assert_eq!(
        actions,
        vec![
            FlowAction::Select,
            open_second(),
            FlowAction::Send,
            FlowAction::Close,
            FlowAction::Report(MidiError::Transmission(
                "could not send encoded ALSA message".to_string(),
            )),
        ]
    );
    assert_eq!(flow.stage(), Stage::Failed);
    assert_eq!(flow.link(), Link::Released);
    assert_eq!(count_of(&actions, &FlowAction::Close), 1);
}

#[test]
fn a_run_that_has_ended_takes_no_more_events() {
    let events = vec![
        FlowEvent::Selected(Ok(0)),
        FlowEvent::Opened,
        FlowEvent::Transmitted(Err(MidiError::Transmission("gone".to_string()))),
        FlowEvent::Transmitted(Ok(())),
        FlowEvent::Opened,
        FlowEvent::Selected(Ok(3)),
        FlowEvent::Transmitted(Err(MidiError::Transmission("again".to_string()))),
        FlowEvent::OpenFailed("late".to_string()),
    ];
    let (flow, actions) = Flow::replay(events);
    assert_eq!(actions.len(), 5);
    assert_eq!(count_of(&actions, &FlowAction::Close), 1);
    assert_eq!(actions[4], FlowAction::Report(MidiError::Transmission("gone".to_string())));
    assert_eq!(flow.stage(), Stage::Failed);
    assert_eq!(flow.link(), Link::Released);
}

#[test]
fn events_out_of_turn_change_nothing() {
    let (mut flow, _) = Flow::begin();
    assert!(flow.step(FlowEvent::Opened).is_empty());
    assert!(flow.step(FlowEvent::Transmitted(Ok(()))).is_empty());
    assert!(flow.step(FlowEvent::OpenFailed("early".to_string())).is_empty());
    assert_eq!(flow.stage(), Stage::Initialized);
    flow.step(FlowEvent::Selected(Ok(0)));
    assert!(flow.step(FlowEvent::Selected(Ok(1))).is_empty());
    assert!(flow.step(FlowEvent::Transmitted(Ok(()))).is_empty());
    assert_eq!(flow.stage(), Stage::PortSelected);
    flow.step(FlowEvent::Opened);
    assert!(flow.step(FlowEvent::Opened).is_empty());
    assert!(flow.step(FlowEvent::OpenFailed("late".to_string())).is_empty());
    assert_eq!(flow.stage(), Stage::Connected);
    assert_eq!(flow.link(), Link::Open);
}

#[test]
fn an_invalid_selection_never_ends_a_run() {
    let (mut flow, _) = Flow::begin();
    assert!(flow.step(FlowEvent::Selected(Err(MidiError::InvalidSelection))).is_empty());
    assert_eq!(flow.stage(), Stage::Initialized);
    flow.step(FlowEvent::Selected(Ok(0)));
    flow.step(FlowEvent::Opened);
    assert!(flow.step(FlowEvent::Transmitted(Err(MidiError::InvalidSelection))).is_empty());
    assert_eq!(flow.stage(), Stage::Connected);
    assert_eq!(flow.link(), Link::Open);
}

#[test]
fn no_events_leave_the_run_at_its_beginning() {
    let (flow, actions) = Flow::replay(Vec::new());
    assert_eq!(actions, vec![FlowAction::Select]);
    assert_eq!(flow.stage(), Stage::Initialized);
}
