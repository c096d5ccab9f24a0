//! The run as a whole: select a port, open a connection to it, send the
//! batch, release the connection, report.

use vstd::prelude::*;
use vstd::string::*;
use crate::errors::{MidiError, MidiErrorView};

verus! {

/// How far a run has come.
#[derive(Debug, Clone, Copy, PartialEq, Eq, Structural)]
pub enum Stage {
    /// Nothing has happened yet: the port selector is to run.
    Initialized,
    /// A port is selected: a connection to it is to be opened.
    PortSelected,
    /// The connection is open: the batch is to be sent.
    Connected,
    /// The batch was sent and the connection released: the run ended well.
    Sent,
    /// The run ended with a failure, which was reported.
    Failed,
}

/// What has become of the connection.
#[derive(Debug, Clone, Copy, PartialEq, Eq, Structural)]
pub enum Link {
    /// No connection was opened.
    Unopened,
    /// The connection is open.
    Open,
    /// The connection was opened and has been released.
    Released,
}

/// What the world outside reports back to a run.
#[derive(Debug, PartialEq, Eq)]
pub enum FlowEvent {
    /// The port selector has finished, with the zero-based position of
    /// the selected port or with a failure.
    Selected(Result<usize, MidiError>),
    /// The connection is open.
    Opened,
    /// The connection could not be opened, with the transport's
    /// description of the failure.
    OpenFailed(String),
    /// The message sender has finished.
    Transmitted(Result<(), MidiError>),
}

/// The mathematical value of a [`FlowEvent`].
pub enum FlowEventView {
    Selected(Result<nat, MidiErrorView>),
    Opened,
    OpenFailed(Seq<char>),
    Transmitted(Result<(), MidiErrorView>),
}

impl View for FlowEvent {
    type V = FlowEventView;

    open spec fn view(&self) -> FlowEventView {
        match self {
            FlowEvent::Selected(Ok(port)) => FlowEventView::Selected(Ok(*port as nat)),
            FlowEvent::Selected(Err(e)) => FlowEventView::Selected(Err(e@)),
            FlowEvent::Opened => FlowEventView::Opened,
            FlowEvent::OpenFailed(reason) => FlowEventView::OpenFailed(reason@),
            FlowEvent::Transmitted(Ok(())) => FlowEventView::Transmitted(Ok(())),
            FlowEvent::Transmitted(Err(e)) => FlowEventView::Transmitted(Err(e@)),
        }
    }
}

/// What a run asks the world outside to do.
#[derive(Debug, PartialEq, Eq)]
pub enum FlowAction {
    /// Run the port selector.
    Select,
    /// Open a connection to the port at this zero-based position, under
    /// this label.
    Open { port: usize, label: String },
    /// Run the message sender over the open connection.
    Send,
    /// Release the connection.
    Close,
    /// Report this failure, which has ended the run.
    Report(MidiError),
}

/// The mathematical value of a [`FlowAction`].
pub enum FlowActionView {
    Select,
    Open { port: nat, label: Seq<char> },
    Send,
    Close,
    Report(MidiErrorView),
}

impl View for FlowAction {
    type V = FlowActionView;

    open spec fn view(&self) -> FlowActionView {
        match self {
            FlowAction::Select => FlowActionView::Select,
            FlowAction::Open { port, label } => FlowActionView::Open {
                port: *port as nat,
                label: label@,
            },
            FlowAction::Send => FlowActionView::Send,
            FlowAction::Close => FlowActionView::Close,
            FlowAction::Report(e) => FlowActionView::Report(e@),
        }
    }
}

/// The views of a list of actions, in order.
pub open spec fn action_views(actions: Seq<FlowAction>) -> Seq<FlowActionView> {
    Seq::new(actions.len(), |i: int| actions[i]@)
}

/// The name under which the utility registers with the transport.
pub open spec fn client_name_text() -> Seq<char> {
    "output"@
}

/// The label under which the connection is opened.
pub open spec fn port_label_text() -> Seq<char> {
    "test port"@
}

/// The name under which the utility registers with the transport.
pub fn client_name() -> (r: String)
    ensures
        r@ == client_name_text(),
{
    String::from_str("output")
}

/// The label under which the connection is opened.
pub fn port_label() -> (r: String)
    ensures
        r@ == port_label_text(),
{
    String::from_str("test port")
}

/// The mathematical value of a [`Flow`].
pub struct FlowView {
    pub stage: Stage,
    pub link: Link,
}

impl FlowView {
    /// A run that has not begun.
    pub open spec fn initial() -> FlowView {
        FlowView { stage: Stage::Initialized, link: Link::Unopened }
    }

    /// What holds of every run: the connection is open exactly while the
    /// run is at `Connected`, it is untouched before that, and it has been
    /// released once the batch was sent.
    pub open spec fn wf(self) -> bool {
        &&& self.stage == Stage::Initialized ==> self.link == Link::Unopened
        &&& self.stage == Stage::PortSelected ==> self.link == Link::Unopened
        &&& self.stage == Stage::Connected <==> self.link == Link::Open
        &&& self.stage == Stage::Sent ==> self.link == Link::Released
    }

    /// Whether the run has ended.
    pub open spec fn ended(self) -> bool {
        self.stage == Stage::Sent || self.stage == Stage::Failed
    }

    /// One step of a run: the state after `event`, and what is to be done
    /// next, in order.
    ///
    /// A selection moves from `Initialized` to `PortSelected` and asks for
    /// the connection. The opened connection moves on to `Connected` and
    /// asks for the batch to be sent. The end of the send phase releases
    /// the connection first, whatever the result, and then moves to `Sent`
    /// or reports the failure. A failure before that is reported at once.
    /// An invalid selection ends nothing, and an event that does not fit
    /// the stage changes nothing.
    pub open spec fn step(self, event: FlowEventView) -> (FlowView, Seq<FlowActionView>) {
        match (self.stage, event) {
            (Stage::Initialized, FlowEventView::Selected(Ok(port))) => (
                FlowView { stage: Stage::PortSelected, link: Link::Unopened },
                seq![FlowActionView::Open { port, label: port_label_text() }],
            ),
            (Stage::Initialized, FlowEventView::Selected(Err(e))) => if e.is_fatal() {
                (
                    FlowView { stage: Stage::Failed, link: Link::Unopened },
                    seq![FlowActionView::Report(e)],
                )
            } else {
                (self, Seq::empty())
            },
            (Stage::PortSelected, FlowEventView::Opened) => (
                FlowView { stage: Stage::Connected, link: Link::Open },
                seq![FlowActionView::Send],
            ),
            (Stage::PortSelected, FlowEventView::OpenFailed(reason)) => (
                FlowView { stage: Stage::Failed, link: Link::Unopened },
                seq![FlowActionView::Report(MidiErrorView::Connection(reason))],
            ),
            (Stage::Connected, FlowEventView::Transmitted(Ok(()))) => (
                FlowView { stage: Stage::Sent, link: Link::Released },
                seq![FlowActionView::Close],
            ),
            (Stage::Connected, FlowEventView::Transmitted(Err(e))) => if e.is_fatal() {
                (
                    FlowView { stage: Stage::Failed, link: Link::Released },
                    seq![FlowActionView::Close, FlowActionView::Report(e)],
                )
            } else {
                (self, Seq::empty())
            },
            _ => (self, Seq::empty()),
        }
    }

    /// A whole run: the state after `events`, taken in order from the
    /// beginning, and everything that was asked for on the way. The first
    /// thing asked for is the selection.
    pub open spec fn run(events: Seq<FlowEventView>) -> (FlowView, Seq<FlowActionView>)
        decreases events.len(),
    {
        if events.len() == 0 {
            (FlowView::initial(), seq![FlowActionView::Select])
        } else {
            let (state, actions) = FlowView::run(events.drop_last());
            let (next, more) = state.step(events.last());
            (next, actions + more)
        }
    }
}

/// The views of a list of events, in order.
pub open spec fn event_views(events: Seq<FlowEvent>) -> Seq<FlowEventView> {
    Seq::new(events.len(), |i: int| events[i]@)
}

/// How often `actions` asks for the connection to be released.
pub open spec fn closes(actions: Seq<FlowActionView>) -> nat
    decreases actions.len(),
{
    if actions.len() == 0 {
        0
    } else {
        closes(actions.drop_last()) + if actions.last() is Close {
            1nat
        } else {
            0nat
        }
    }
}

/// How often `actions` asks for a failure to be reported.
pub open spec fn reports(actions: Seq<FlowActionView>) -> nat
    decreases actions.len(),
{
    if actions.len() == 0 {
        0
    } else {
        reports(actions.drop_last()) + if actions.last() is Report {
            1nat
        } else {
            0nat
        }
    }
}

/// A run of the utility, from the selection of a port to the report.
pub struct Flow {
    stage: Stage,
    link: Link,
}

impl View for Flow {
    type V = FlowView;

    closed spec fn view(&self) -> FlowView {
        FlowView { stage: self.stage, link: self.link }
    }
}

impl Flow {
    #[verifier::type_invariant]
    spec fn sound(&self) -> bool {
        self@.wf()
    }

    /// A run that has not begun, and the first thing it asks for: the
    /// selection of a port.
    pub fn begin() -> (r: (Flow, Vec<FlowAction>))
        ensures
            r.0@ == FlowView::initial(),
            action_views(r.1@) == seq![FlowActionView::Select],
    {
        let mut actions: Vec<FlowAction> = Vec::new();
        actions.push(FlowAction::Select);
        assert(action_views(actions@) =~= seq![FlowActionView::Select]);
        (Flow { stage: Stage::Initialized, link: Link::Unopened }, actions)
    }

    /// How far the run has come.
    pub fn stage(&self) -> (stage: Stage)
        ensures
            stage == self@.stage,
            self@.wf(),
    {
        proof {
            use_type_invariant(self);
        }
        self.stage
    }

    /// What has become of the connection.
    pub fn link(&self) -> (link: Link)
        ensures
            link == self@.link,
            self@.wf(),
    {
        proof {
            use_type_invariant(self);
        }
        self.link
    }

    /// Takes one event and says what to do next, in order.
    pub fn step(&mut self, event: FlowEvent) -> (actions: Vec<FlowAction>)
        ensures
            (final(self)@, action_views(actions@)) == old(self)@.step(event@),
            final(self)@.wf(),
    {
        proof {
            use_type_invariant(&*self);
        }
        let mut actions: Vec<FlowAction> = Vec::new();
        match (self.stage, event) {
            (Stage::Initialized, FlowEvent::Selected(Ok(port))) => {
                *self = Flow { stage: Stage::PortSelected, link: Link::Unopened };
                actions.push(FlowAction::Open { port, label: port_label() });
            },
            (Stage::Initialized, FlowEvent::Selected(Err(e))) => {
                if e.is_fatal() {
                    *self = Flow { stage: Stage::Failed, link: Link::Unopened };
                    actions.push(FlowAction::Report(e));
                }
            },
            (Stage::PortSelected, FlowEvent::Opened) => {
                *self = Flow { stage: Stage::Connected, link: Link::Open };
                actions.push(FlowAction::Send);
            },
            (Stage::PortSelected, FlowEvent::OpenFailed(reason)) => {
                *self = Flow { stage: Stage::Failed, link: Link::Unopened };
                actions.push(FlowAction::Report(MidiError::Connection(reason)));
            },
            (Stage::Connected, FlowEvent::Transmitted(Ok(()))) => {
                *self = Flow { stage: Stage::Sent, link: Link::Released };
                actions.push(FlowAction::Close);
            },
            (Stage::Connected, FlowEvent::Transmitted(Err(e))) => {
                if e.is_fatal() {
                    *self = Flow { stage: Stage::Failed, link: Link::Released };
                    actions.push(FlowAction::Close);
                    actions.push(FlowAction::Report(e));
                }
            },
            _ => {},
        }
        assert(action_views(actions@) =~= old(self)@.step(event@).1);
        actions
    }

    /// Takes `events` through a new run, in order, and records
    /// everything that it asked for.
    pub fn replay(events: Vec<FlowEvent>) -> (r: (Flow, Vec<FlowAction>))
        ensures
            (r.0@, action_views(r.1@)) == FlowView::run(event_views(events@)),
    {
        let (mut flow, mut actions) = Flow::begin();
        let ghost given = event_views(events@);
        proof {
            assert(given.take(0) =~= Seq::<FlowEventView>::empty());
        }
        for event in it: events
            invariant
                given == event_views(it.seq()),
                (flow@, action_views(actions@)) == FlowView::run(given.take(it.index() as int)),
        {
            let ghost pos = it.index() as int;
            let ghost before = action_views(actions@);
            let mut more = flow.step(event);
            let ghost added = action_views(more@);
            actions.append(&mut more);
            proof {
                assert(given.take(pos + 1).drop_last() =~= given.take(pos));
                assert(given.take(pos + 1).last() == event@);
                assert(action_views(actions@) =~= before + added);
            }
        }
        proof {
            assert(given.take(given.len() as int) =~= given);
        }
        (flow, actions)
    }
}

/// Counting the releases in two lists of actions, one after the other,
/// adds up.
proof fn lemma_closes_add(first: Seq<FlowActionView>, second: Seq<FlowActionView>)
    ensures
        closes(first + second) == closes(first) + closes(second),
    decreases second.len(),
{
    if second.len() == 0 {
        assert(first + second =~= first);
    } else {
        lemma_closes_add(first, second.drop_last());
        assert((first + second).drop_last() =~= first + second.drop_last());
    }
}

/// Counting the reports in two lists of actions, one after the other,
/// adds up.
proof fn lemma_reports_add(first: Seq<FlowActionView>, second: Seq<FlowActionView>)
    ensures
        reports(first + second) == reports(first) + reports(second),
    decreases second.len(),
{
    if second.len() == 0 {
        assert(first + second =~= first);
    } else {
        lemma_reports_add(first, second.drop_last());
        assert((first + second).drop_last() =~= first + second.drop_last());
    }
}

/// What one step asks for: at most one release, and exactly one where
/// the connection goes from open to released; at most one report, and
/// exactly one where the run fails; and the report, if any, comes last.
proof fn lemma_step_counts(state: FlowView, event: FlowEventView)
    requires
        state.wf(),
    ensures
        ({
            let (next, more) = state.step(event);
            &&& next.wf()
            &&& closes(more) == if state.link == Link::Open && next.link == Link::Released {
                1nat
            } else {
                0nat
            }
            &&& reports(more) == if state.stage != Stage::Failed && next.stage == Stage::Failed {
                1nat
            } else {
                0nat
            }
            &&& state.link == Link::Released ==> next.link == Link::Released
            &&& state.link != Link::Open ==> next.link != Link::Released || state.link
                == Link::Released
            &&& state.ended() ==> next == state && more.len() == 0
            &&& reports(more) == 1 ==> more.last() is Report
        }),
{
    let (next, more) = state.step(event);
    reveal_with_fuel(closes, 3);
    reveal_with_fuel(reports, 3);
    if more.len() == 2 {
        assert(more.drop_last().drop_last() =~= Seq::<FlowActionView>::empty());
    }
    if more.len() == 1 {
        assert(more.drop_last() =~= Seq::<FlowActionView>::empty());
    }
}

/// Resource safety. Whatever events reach a run, the connection is open
/// only while the run is at `Connected`, and a release is asked for
/// exactly once where the connection was opened and the send phase is
/// over, however that ended, and never otherwise. A run that has ended
/// holds no open connection.
pub proof fn lemma_released_exactly_once(events: Seq<FlowEventView>)
    ensures
        ({
            let (state, actions) = FlowView::run(events);
            &&& state.wf()
            &&& closes(actions) == if state.link == Link::Released {
                1nat
            } else {
                0nat
            }
            &&& state.ended() ==> state.link != Link::Open
        }),
    decreases events.len(),
{
    if events.len() == 0 {
        reveal_with_fuel(closes, 2);
        assert(seq![FlowActionView::Select].drop_last() =~= Seq::<FlowActionView>::empty());
    } else {
        lemma_released_exactly_once(events.drop_last());
        let (state, actions) = FlowView::run(events.drop_last());
        let (next, more) = state.step(events.last());
        lemma_step_counts(state, events.last());
        lemma_closes_add(actions, more);
    }
}

/// A run reports exactly one failure where it fails and none where it
/// does not, and the report is the last thing it asks for: the release
/// of the connection, where there was one, comes before it.
pub proof fn lemma_one_report_at_the_end(events: Seq<FlowEventView>)
    ensures
        ({
            let (state, actions) = FlowView::run(events);
            &&& reports(actions) == if state.stage == Stage::Failed {
                1nat
            } else {
                0nat
            }
            &&& state.stage == Stage::Failed ==> actions.last() is Report
        }),
    decreases events.len(),
{
    if events.len() == 0 {
        reveal_with_fuel(reports, 2);
        assert(seq![FlowActionView::Select].drop_last() =~= Seq::<FlowActionView>::empty());
    } else {
        lemma_one_report_at_the_end(events.drop_last());
        lemma_released_exactly_once(events.drop_last());
        let (state, actions) = FlowView::run(events.drop_last());
        let (next, more) = state.step(events.last());
        lemma_step_counts(state, events.last());
        lemma_reports_add(actions, more);
        if more.len() == 0 {
            assert(actions + more =~= actions);
        } else {
            assert((actions + more).last() == more.last());
        }
    }
}

/// Whatever a run reports is a failure that ends a run: an invalid
/// selection is never reported.
pub proof fn lemma_reports_are_fatal(events: Seq<FlowEventView>, i: int)
    requires
        0 <= i < FlowView::run(events).1.len(),
    ensures
        FlowView::run(events).1[i] matches FlowActionView::Report(e) ==> e.is_fatal(),
    decreases events.len(),
{
    if events.len() > 0 {
        let (state, actions) = FlowView::run(events.drop_last());
        let (next, more) = state.step(events.last());
        if i < actions.len() {
            lemma_reports_are_fatal(events.drop_last(), i);
        } else {
            assert((actions + more)[i] == more[i - actions.len()]);
        }
    }
}

} // verus!
