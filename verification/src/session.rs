//! A whole run of the utility in a recorded world: what the transport
//! says, what is typed, and how the connection answers are fixed
//! beforehand, and the run shows what it would show and does what it
//! would do.

use vstd::prelude::*;
use vstd::string::*;
use crate::batch::batch;
use crate::errors::{MidiError, MidiErrorView};
use crate::flow::{
    action_views, port_label_text, Flow, FlowAction, FlowActionView, FlowEvent, FlowView, Stage,
};
use crate::selector::{
    gathered, get_out_port_names, lemma_gathered_names, lookup_views, select_output_port,
    selection_of, Selection,
};
use crate::sender::{send_messages, transmission_of, Transmission};

verus! {

/// A recorded world.
#[derive(Debug, PartialEq, Eq)]
pub struct Script {
    /// For each port that the transport lists, its name, or the
    /// transport's description of why it has none.
    pub lookups: Vec<Result<String, String>>,
    /// The lines of the input stream.
    pub lines: Vec<String>,
    /// Why the transport opens no connection, if it opens none.
    pub refusal: Option<String>,
    /// For each message handed to the connection, in order, why the
    /// connection refuses it, if it does. It accepts what has no entry.
    pub faults: Vec<Option<String>>,
}

/// The mathematical value of a [`Script`].
pub struct ScriptView {
    pub lookups: Seq<Result<Seq<char>, Seq<char>>>,
    pub lines: Seq<Seq<char>>,
    pub refusal: Option<Seq<char>>,
    pub faults: Seq<Option<Seq<char>>>,
}

impl View for Script {
    type V = ScriptView;

    open spec fn view(&self) -> ScriptView {
        ScriptView {
            lookups: lookup_views(self.lookups@),
            lines: self.lines.deep_view(),
            refusal: self.refusal.deep_view(),
            faults: self.faults.deep_view(),
        }
    }
}

/// What a run showed and did.
#[derive(Debug, PartialEq, Eq)]
pub struct Session {
    /// Every line shown, in order.
    pub output: Vec<String>,
    /// The zero-based position of the port to which a connection was
    /// opened, if one was.
    pub connected_to: Option<usize>,
    /// How often a connection was released.
    pub releases: usize,
    /// Every message that was handed to the connection, in order.
    pub handed: Vec<Vec<u8>>,
    /// How the run ended.
    pub result: Result<(), MidiError>,
}

/// The mathematical value of a [`Session`].
pub struct SessionView {
    pub output: Seq<Seq<char>>,
    pub connected_to: Option<nat>,
    pub releases: nat,
    pub handed: Seq<Seq<u8>>,
    pub result: Result<(), MidiErrorView>,
}

impl View for Session {
    type V = SessionView;

    open spec fn view(&self) -> SessionView {
        SessionView {
            output: self.output.deep_view(),
            connected_to: match self.connected_to {
                Some(port) => Some(port as nat),
                None => None,
            },
            releases: self.releases as nat,
            handed: self.handed.deep_view(),
            result: match self.result {
                Ok(()) => Ok(()),
                Err(e) => Err(e@),
            },
        }
    }
}

impl SessionView {
    /// A run in which nothing has happened yet.
    pub open spec fn blank() -> SessionView {
        SessionView {
            output: Seq::empty(),
            connected_to: None,
            releases: 0,
            handed: Seq::empty(),
            result: Ok(()),
        }
    }

    /// A run that showed `output` and then failed with `e` before a
    /// connection was open: the failure is reported, and there is nothing
    /// to release.
    pub open spec fn failed_early(output: Seq<Seq<char>>, e: MidiErrorView) -> SessionView {
        SessionView {
            output: output.push(e.report()),
            connected_to: None,
            releases: 0,
            handed: Seq::empty(),
            result: Err(e),
        }
    }

    /// The run after one thing that it was asked to do and that needs no
    /// answer: a release is counted, a report is shown and kept as the
    /// result.
    pub open spec fn after(self, action: FlowActionView) -> SessionView {
        match action {
            FlowActionView::Close => SessionView { releases: self.releases + 1, ..self },
            FlowActionView::Report(e) => SessionView {
                output: self.output.push(e.report()),
                result: Err(e),
                ..self
            },
            _ => self,
        }
    }

    /// The run after `actions`, taken in order.
    pub open spec fn settle(self, actions: Seq<FlowActionView>) -> SessionView
        decreases actions.len(),
    {
        if actions.len() == 0 {
            self
        } else {
            self.after(actions.first()).settle(actions.drop_first())
        }
    }
}

/// What a run shows and does in a recorded world.
///
/// The names are gathered and the port selector runs over them and the
/// typed lines. A failure up to there, or a refused connection, is
/// reported after what the selector showed, and no connection is opened
/// or released. Otherwise the connection is opened to the selected port,
/// the batch is sent over it, the connection is released once, and the
/// failure of the send phase, if any, is reported last.
pub open spec fn session_of(script: ScriptView) -> SessionView {
    match gathered(script.lookups) {
        Err(e) => SessionView::failed_early(Seq::empty(), e),
        Ok(names) => {
            let selection = selection_of(names, script.lines);
            match selection.result {
                Err(e) => SessionView::failed_early(selection.output, e),
                Ok(port) => match script.refusal {
                    Some(reason) => SessionView::failed_early(
                        selection.output,
                        MidiErrorView::Connection(reason),
                    ),
                    None => {
                        let sent = transmission_of(batch(), script.faults);
                        SessionView {
                            output: match sent.result {
                                Ok(()) => selection.output + sent.output,
                                Err(e) => (selection.output + sent.output).push(e.report()),
                            },
                            connected_to: Some(port),
                            releases: 1,
                            handed: sent.handed,
                            result: sent.result,
                        }
                    },
                },
            }
        },
    }
}

/// Whether `actions` holds nothing but releases and reports.
spec fn needs_no_answer(actions: Seq<FlowActionView>) -> bool {
    forall|i: int| 0 <= i < actions.len() ==> (#[trigger] actions[i]) is Close || actions[i] is Report
}

/// How many more stages a run can go through.
spec fn stages_left(stage: Stage) -> nat {
    match stage {
        Stage::Initialized => 3,
        Stage::PortSelected => 2,
        Stage::Connected => 1,
        Stage::Sent => 0,
        Stage::Failed => 0,
    }
}

/// Where a run in the world of `script` stands when it is at `state`,
/// has still to do `pending`, and has shown and done `session`.
spec fn on_track(
    script: ScriptView,
    state: FlowView,
    pending: Seq<FlowActionView>,
    session: SessionView,
) -> bool {
    match state.stage {
        Stage::Initialized => {
            &&& pending == seq![FlowActionView::Select]
            &&& session == SessionView::blank()
        },
        Stage::PortSelected => {
            &&& gathered(script.lookups) matches Ok(names)
            &&& selection_of(names, script.lines).result matches Ok(port)
            &&& pending == seq![FlowActionView::Open { port, label: port_label_text() }]
            &&& session == SessionView {
                output: selection_of(names, script.lines).output,
                ..SessionView::blank()
            }
        },
        Stage::Connected => {
            &&& gathered(script.lookups) matches Ok(names)
            &&& selection_of(names, script.lines).result matches Ok(port)
            &&& script.refusal is None
            &&& pending == seq![FlowActionView::Send]
            &&& session == SessionView {
                output: selection_of(names, script.lines).output,
                connected_to: Some(port),
                ..SessionView::blank()
            }
        },
        _ => {
            &&& needs_no_answer(pending)
            &&& session.settle(pending) == session_of(script)
        },
    }
}

/// Runs the utility in the world of `script`.
pub fn run(script: &Script) -> (session: Session)
    ensures
        session@ == session_of(script@),
{
    let (mut flow, mut queue) = Flow::begin();
    let mut session = Session {
        output: Vec::new(),
        connected_to: None,
        releases: 0,
        handed: Vec::new(),
        result: Ok(()),
    };
    proof {
        assert(session.output.deep_view() =~= Seq::<Seq<char>>::empty());
        assert(session.handed.deep_view() =~= Seq::<Seq<u8>>::empty());
    }
    while queue.len() > 0
        invariant
            flow@.wf(),
            on_track(script@, flow@, action_views(queue@), session@),
        decreases stages_left(flow@.stage) * 3 + queue.len(),
    {
        let ghost before = session@;
        let ghost pending = action_views(queue@);
        let action = queue.remove(0);
        proof {
            assert(pending[0] == action@);
            assert(action_views(queue@) =~= pending.drop_first());
            reveal_with_fuel(SessionView::settle, 3);
        }
        match action {
            FlowAction::Select => {
                let selected = match get_out_port_names(&script.lookups) {
                    Ok(names) => {
                        let Selection { result, retries: _, output: mut shown } =
                            select_output_port(names, &script.lines);
                        let ghost lines = shown.deep_view();
                        session.output.append(&mut shown);
                        assert(session.output.deep_view() =~= lines);
                        result
                    },
                    Err(e) => Err(e),
                };
                let mut more = flow.step(FlowEvent::Selected(selected));
                let ghost added = action_views(more@);
                queue.append(&mut more);
                proof {
                    lemma_gathered_names(script@.lookups);
                    assert(action_views(queue@) =~= added);
                    if added.len() == 1 {
                        assert(added.drop_first() =~= Seq::<FlowActionView>::empty());
                    }
                }
            },
            FlowAction::Open { port, label: _ } => {
                let event = match &script.refusal {
                    Some(reason) => FlowEvent::OpenFailed(reason.clone()),
                    None => {
                        session.connected_to = Some(port);
                        FlowEvent::Opened
                    },
                };
                let mut more = flow.step(event);
                let ghost added = action_views(more@);
                queue.append(&mut more);
                proof {
                    assert(action_views(queue@) =~= added);
                    if added.len() == 1 {
                        assert(added.drop_first() =~= Seq::<FlowActionView>::empty());
                    }
                }
            },
            FlowAction::Send => {
                let Transmission { handed, accepted: _, result, output: mut shown } =
                    send_messages(&script.faults);
                let ghost lines = shown.deep_view();
                let ghost shown_before = session.output.deep_view();
                session.output.append(&mut shown);
                session.handed = handed;
                let mut more = flow.step(FlowEvent::Transmitted(result));
                let ghost added = action_views(more@);
                queue.append(&mut more);
                proof {
                    assert(session.output.deep_view() =~= shown_before + lines);
                    assert(action_views(queue@) =~= added);
                    if added.len() == 1 {
                        assert(added.drop_first() =~= Seq::<FlowActionView>::empty());
                    }
                    if added.len() == 2 {
                        assert(added.drop_first().drop_first() =~= Seq::<FlowActionView>::empty());
                    }
                }
            },
            FlowAction::Close => {
                assert(session@.settle(pending).releases >= 1 + session.releases) by {
                    lemma_settle_counts(before.after(pending[0]), pending.drop_first());
                }
                session.releases = session.releases + 1;
            },
            FlowAction::Report(e) => {
                let ghost shown_before = session.output.deep_view();
                session.output.push(e.report_line());
                session.result = Err(e);
                assert(session.output.deep_view() =~= shown_before.push(e@.report()));
            },
        }
    }
    session
}

/// Doing what needs no answer never lowers the number of releases.
proof fn lemma_settle_counts(session: SessionView, actions: Seq<FlowActionView>)
    ensures
        session.settle(actions).releases >= session.releases,
    decreases actions.len(),
{
    if actions.len() > 0 {
        lemma_settle_counts(session.after(actions.first()), actions.drop_first());
    }
}

/// A run releases a connection exactly once where it opened one, however
/// the send phase ended, and never where it opened none.
pub proof fn lemma_session_releases_what_it_opened(script: ScriptView)
    ensures
        session_of(script).releases == if session_of(script).connected_to is Some {
            1nat
        } else {
            0nat
        },
        session_of(script).connected_to is None ==> session_of(script).handed.len() == 0,
{
}

} // verus!
