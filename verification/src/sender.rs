//! The message sender: it hands out the messages of a batch one by one,
//! in order, and stops at the first that the connection refuses.

use vstd::pervasive::unreached;
use vstd::prelude::*;
use vstd::string::*;
use crate::batch::{batch, lemma_batch_is_framed, message_batch};
use crate::errors::{MidiError, MidiErrorView};
use crate::text::{done_notice, done_text, sending_notice, sending_text};

verus! {

/// Where a sender stands.
#[derive(Debug, Clone, Copy, PartialEq, Eq, Structural)]
pub enum Phase {
    /// Nothing has been sent yet.
    Idle,
    /// A message was handed out and its fate is not known yet.
    Awaiting,
    /// Every message was accepted.
    Done,
    /// A message was refused.
    Failed,
}

/// What the connection said, or the signal to begin.
#[derive(Debug, Clone, PartialEq, Eq)]
pub enum SendEvent {
    /// Begin to send.
    Start,
    /// The connection accepted the message that was handed out last.
    Accepted,
    /// The connection refused it, with its description of the failure.
    Rejected(String),
}

/// The mathematical value of a [`SendEvent`].
pub enum SendEventView {
    Start,
    Accepted,
    Rejected(Seq<char>),
}

impl View for SendEvent {
    type V = SendEventView;

    open spec fn view(&self) -> SendEventView {
        match self {
            SendEvent::Start => SendEventView::Start,
            SendEvent::Accepted => SendEventView::Accepted,
            SendEvent::Rejected(reason) => SendEventView::Rejected(reason@),
        }
    }
}

/// What the sender asks for next.
#[derive(Debug, PartialEq, Eq)]
pub enum SendAction {
    /// Send these bytes over the connection and report what it said.
    Transmit(Vec<u8>),
    /// The send phase is over, with this result.
    Finish(Result<(), MidiError>),
    /// The event does not fit the sender's phase: nothing changes.
    Ignore,
}

/// The mathematical value of a [`SendAction`].
pub enum SendActionView {
    Transmit(Seq<u8>),
    Finish(Result<(), MidiErrorView>),
    Ignore,
}

impl View for SendAction {
    type V = SendActionView;

    open spec fn view(&self) -> SendActionView {
        match self {
            SendAction::Transmit(bytes) => SendActionView::Transmit(bytes@),
            SendAction::Finish(Ok(())) => SendActionView::Finish(Ok(())),
            SendAction::Finish(Err(e)) => SendActionView::Finish(Err(e@)),
            SendAction::Ignore => SendActionView::Ignore,
        }
    }
}

/// The sender's answer to one event: what to do next, and the lines to
/// show first.
#[derive(Debug, PartialEq, Eq)]
pub struct SendCommand {
    pub action: SendAction,
    pub output: Vec<String>,
}

/// The mathematical value of a [`SendCommand`].
pub struct SendCommandView {
    pub action: SendActionView,
    pub output: Seq<Seq<char>>,
}

impl View for SendCommand {
    type V = SendCommandView;

    open spec fn view(&self) -> SendCommandView {
        SendCommandView { action: self.action@, output: self.output.deep_view() }
    }
}

/// The mathematical value of a [`Sender`]: its batch, its phase, and how
/// many messages the connection has accepted.
pub struct SenderView {
    pub batch: Seq<Seq<u8>>,
    pub phase: Phase,
    pub accepted: nat,
}

impl SenderView {
    /// A sender that has not begun.
    pub open spec fn idle(batch: Seq<Seq<u8>>) -> SenderView {
        SenderView { batch, phase: Phase::Idle, accepted: 0 }
    }

    /// What holds of every sender: it never counts more messages than its
    /// batch has, the message it waits for exists, and it is done only
    /// when all were accepted.
    pub open spec fn wf(self) -> bool {
        &&& self.accepted <= self.batch.len()
        &&& self.phase == Phase::Idle ==> self.accepted == 0
        &&& self.phase == Phase::Awaiting ==> self.accepted < self.batch.len()
        &&& self.phase == Phase::Done ==> self.accepted == self.batch.len()
        &&& self.phase == Phase::Failed ==> self.accepted < self.batch.len()
    }

    /// The state after `self` has handed out the message at `index`, or
    /// after it found that none is left.
    pub open spec fn proceed(self, index: nat) -> (SenderView, SendCommandView) {
        if index < self.batch.len() {
            (
                SenderView { batch: self.batch, phase: Phase::Awaiting, accepted: index },
                SendCommandView {
                    action: SendActionView::Transmit(self.batch[index as int]),
                    output: Seq::empty(),
                },
            )
        } else {
            (
                SenderView { batch: self.batch, phase: Phase::Done, accepted: index },
                SendCommandView {
                    action: SendActionView::Finish(Ok(())),
                    output: seq![done_text()],
                },
            )
        }
    }

    /// One step of the sender: the state after `event`, and what it asks
    /// for.
    ///
    /// From `Idle`, `Start` shows the first notice and hands out the first
    /// message. While `Awaiting`, `Accepted` hands out the next message,
    /// or finishes with the closing notice when none is left, and
    /// `Rejected` finishes with the failure and no notice. Any other
    /// event is ignored.
    pub open spec fn step(self, event: SendEventView) -> (SenderView, SendCommandView) {
        match (self.phase, event) {
            (Phase::Idle, SendEventView::Start) => {
                let (next, command) = self.proceed(0);
                (
                    next,
                    SendCommandView {
                        action: command.action,
                        output: seq![sending_text()] + command.output,
                    },
                )
            },
            (Phase::Awaiting, SendEventView::Accepted) => self.proceed(self.accepted + 1),
            (Phase::Awaiting, SendEventView::Rejected(reason)) => (
                SenderView { batch: self.batch, phase: Phase::Failed, accepted: self.accepted },
                SendCommandView {
                    action: SendActionView::Finish(Err(MidiErrorView::Transmission(reason))),
                    output: Seq::empty(),
                },
            ),
            _ => (self, SendCommandView { action: SendActionView::Ignore, output: Seq::empty() }),
        }
    }
}

/// A batch of messages on its way over a connection.
pub struct Sender {
    batch: Vec<Vec<u8>>,
    state: State,
}

/// A phase, with the number of accepted messages where the phase does
/// not fix it.
enum State {
    Idle,
    Awaiting(usize),
    Done,
    Failed(usize),
}

impl View for Sender {
    type V = SenderView;

    closed spec fn view(&self) -> SenderView {
        SenderView {
            batch: self.batch.deep_view(),
            phase: match self.state {
                State::Idle => Phase::Idle,
                State::Awaiting(_) => Phase::Awaiting,
                State::Done => Phase::Done,
                State::Failed(_) => Phase::Failed,
            },
            accepted: match self.state {
                State::Idle => 0,
                State::Awaiting(n) => n as nat,
                State::Done => self.batch.len() as nat,
                State::Failed(n) => n as nat,
            },
        }
    }
}

impl Sender {
    #[verifier::type_invariant]
    spec fn sound(&self) -> bool {
        self@.wf()
    }

    /// A sender for `batch` that has not begun.
    pub fn new(batch: Vec<Vec<u8>>) -> (sender: Sender)
        ensures
            sender@ == SenderView::idle(batch.deep_view()),
    {
        Sender { batch, state: State::Idle }
    }

    /// Where the sender stands.
    pub fn phase(&self) -> (phase: Phase)
        ensures
            phase == self@.phase,
            self@.wf(),
    {
        proof {
            use_type_invariant(self);
        }
        match self.state {
            State::Idle => Phase::Idle,
            State::Awaiting(_) => Phase::Awaiting,
            State::Done => Phase::Done,
            State::Failed(_) => Phase::Failed,
        }
    }

    /// How many messages the connection has accepted so far: the first
    /// that many of the batch.
    pub fn accepted(&self) -> (n: usize)
        ensures
            n == self@.accepted,
            self@.wf(),
    {
        proof {
            use_type_invariant(self);
        }
        match self.state {
            State::Idle => 0,
            State::Awaiting(n) => n,
            State::Done => self.batch.len(),
            State::Failed(n) => n,
        }
    }

    fn proceed(&mut self, index: usize) -> (command: SendCommand)
        requires
            index <= old(self)@.batch.len(),
        ensures
            (final(self)@, command@) == old(self)@.proceed(index as nat),
    {
        if index < self.batch.len() {
            let bytes = self.batch[index].clone();
            assert(bytes@ =~= self.batch[index as int]@);
            assert(self.batch.deep_view()[index as int] == self.batch[index as int]@);
            self.state = State::Awaiting(index);
            let output: Vec<String> = Vec::new();
            assert(output.deep_view() =~= Seq::<Seq<char>>::empty());
            SendCommand { action: SendAction::Transmit(bytes), output }
        } else {
            self.state = State::Done;
            let mut output: Vec<String> = Vec::new();
            output.push(done_notice());
            assert(output.deep_view() =~= seq![done_text()]);
            SendCommand { action: SendAction::Finish(Ok(())), output }
        }
    }

    /// Takes one event and says what to do next.
    pub fn step(&mut self, event: &SendEvent) -> (command: SendCommand)
        ensures
            (final(self)@, command@) == old(self)@.step(event@),
            final(self)@.wf(),
    {
        proof {
            use_type_invariant(&*self);
        }
        match (&self.state, event) {
            (State::Idle, SendEvent::Start) => {
                let SendCommand { action, output: mut rest } = self.proceed(0);
                let mut output: Vec<String> = Vec::new();
                output.push(sending_notice());
                let ghost shown = rest.deep_view();
                output.append(&mut rest);
                assert(output.deep_view() =~= seq![sending_text()] + shown);
                SendCommand { action, output }
            },
            (State::Awaiting(n), SendEvent::Accepted) => {
                assert(self@.batch.len() == self.batch.len());
                let index = *n + 1;
                self.proceed(index)
            },
            (State::Awaiting(n), SendEvent::Rejected(reason)) => {
                self.state = State::Failed(*n);
                let output: Vec<String> = Vec::new();
                assert(output.deep_view() =~= Seq::<Seq<char>>::empty());
                SendCommand {
                    action: SendAction::Finish(Err(MidiError::Transmission(reason.clone()))),
                    output,
                }
            },
            _ => {
                let output: Vec<String> = Vec::new();
                assert(output.deep_view() =~= Seq::<Seq<char>>::empty());
                SendCommand { action: SendAction::Ignore, output }
            },
        }
    }
}

/// A finished run of the sender over a connection whose answers were
/// fixed beforehand.
#[derive(Debug, PartialEq, Eq)]
pub struct Transmission {
    /// Every message that was handed to the connection, in order, the
    /// refused one included.
    pub handed: Vec<Vec<u8>>,
    /// How many of them the connection accepted.
    pub accepted: usize,
    /// Whether the whole batch went through, or why it did not.
    pub result: Result<(), MidiError>,
    /// Every line shown, in order.
    pub output: Vec<String>,
}

/// The mathematical value of a [`Transmission`].
pub struct TransmissionView {
    pub handed: Seq<Seq<u8>>,
    pub accepted: nat,
    pub result: Result<(), MidiErrorView>,
    pub output: Seq<Seq<char>>,
}

impl View for Transmission {
    type V = TransmissionView;

    open spec fn view(&self) -> TransmissionView {
        TransmissionView {
            handed: self.handed.deep_view(),
            accepted: self.accepted as nat,
            result: match self.result {
                Ok(()) => Ok(()),
                Err(e) => Err(e@),
            },
            output: self.output.deep_view(),
        }
    }
}

/// How a connection with fixed answers treats the message at position
/// `i`: it refuses it with `faults[i]` where that is a reason, and
/// accepts it otherwise, also where `faults` has no such position.
pub open spec fn fault_at(faults: Seq<Option<Seq<char>>>, i: int) -> Option<Seq<char>> {
    if 0 <= i < faults.len() {
        faults[i]
    } else {
        None
    }
}

/// The first position from `from` on, and below `limit`, at which the
/// connection refuses a message.
pub open spec fn first_fault(faults: Seq<Option<Seq<char>>>, limit: nat, from: nat) -> Option<nat>
    decreases limit - from,
{
    if from >= limit {
        None
    } else if fault_at(faults, from as int) is Some {
        Some(from)
    } else {
        first_fault(faults, limit, from + 1)
    }
}

/// The whole run of the sender for `batch` over a connection that
/// answers by `faults`.
///
/// Where the connection refuses a message of the batch, the messages up
/// to and including the first such were handed to it, those before were
/// accepted, and the run fails with the connection's reason after the
/// opening notice alone. Otherwise the whole batch was handed over and
/// accepted, and the closing notice follows the opening one.
pub open spec fn transmission_of(
    batch: Seq<Seq<u8>>,
    faults: Seq<Option<Seq<char>>>,
) -> TransmissionView {
    match first_fault(faults, batch.len(), 0) {
        Some(j) => TransmissionView {
            handed: batch.take(j as int + 1),
            accepted: j,
            result: Err(MidiErrorView::Transmission(fault_at(faults, j as int)->0)),
            output: seq![sending_text()],
        },
        None => TransmissionView {
            handed: batch,
            accepted: batch.len(),
            result: Ok(()),
            output: seq![sending_text(), done_text()],
        },
    }
}

/// Runs a sender for `batch` over a connection that answers by `faults`,
/// and records what was handed to the connection and how the run ended.
pub fn send_all(batch: Vec<Vec<u8>>, faults: &Vec<Option<String>>) -> (run: Transmission)
    ensures
        run@ == transmission_of(batch.deep_view(), faults.deep_view()),
        run.result matches Err(e) ==> e@ is Transmission,
{
    let ghost messages = batch.deep_view();
    let ghost answers = faults.deep_view();
    let mut sender = Sender::new(batch);
    let mut handed: Vec<Vec<u8>> = Vec::new();
    let mut output: Vec<String> = Vec::new();
    let SendCommand { action: first, output: mut shown } = sender.step(&SendEvent::Start);
    output.append(&mut shown);
    let mut action = first;
    let mut pos: usize = 0;
    proof {
        assert(handed.deep_view() =~= messages.take(0));
        if messages.len() == 0 {
            assert(output.deep_view() =~= seq![sending_text(), done_text()]);
            assert(handed.deep_view() =~= messages);
        } else {
            assert(output.deep_view() =~= seq![sending_text()]);
        }
    }
    loop
        invariant
            messages == batch.deep_view(),
            answers == faults.deep_view(),
            sender@.batch == messages,
            sender@.wf(),
            !(action@ is Ignore),
            action@ matches SendActionView::Transmit(bytes) ==> {
                &&& pos < messages.len()
                &&& bytes == messages[pos as int]
                &&& sender@.phase == Phase::Awaiting
                &&& sender@.accepted == pos
                &&& handed.deep_view() == messages.take(pos as int)
                &&& output.deep_view() == seq![sending_text()]
                &&& first_fault(answers, messages.len(), 0) == first_fault(
                    answers,
                    messages.len(),
                    pos as nat,
                )
            },
            action@ matches SendActionView::Finish(result) ==> transmission_of(messages, answers)
                == (TransmissionView {
                handed: handed.deep_view(),
                accepted: sender@.accepted,
                result,
                output: output.deep_view(),
            }),
        decreases messages.len() - pos,
    {
        match action {
            SendAction::Transmit(bytes) => {
                let ghost before = handed.deep_view();
                assert(bytes.deep_view() =~= bytes@);
                handed.push(bytes);
                let event = if pos < faults.len() {
                    match &faults[pos] {
                        Some(reason) => SendEvent::Rejected(reason.clone()),
                        None => SendEvent::Accepted,
                    }
                } else {
                    SendEvent::Accepted
                };
                let ghost shown_before = output.deep_view();
                let SendCommand { action: next, output: mut shown } = sender.step(&event);
                let ghost shown_now = shown.deep_view();
                output.append(&mut shown);
                proof {
                    assert(handed.deep_view() =~= messages.take(pos + 1)) by {
                        assert(handed.deep_view() =~= before.push(messages[pos as int]));
                    }
                    assert(output.deep_view() =~= shown_before + shown_now);
                    if pos + 1 == messages.len() {
                        assert(messages.take(pos + 1) =~= messages);
                    }
                    if fault_at(answers, pos as int) is None && pos + 1 == messages.len() {
                        assert(output.deep_view() =~= seq![sending_text(), done_text()]);
                    } else {
                        assert(output.deep_view() =~= seq![sending_text()]);
                    }
                }
                action = next;
                pos += 1;
            },
            SendAction::Finish(result) => {
                let accepted = sender.accepted();
                return Transmission { handed, accepted, result, output };
            },
            SendAction::Ignore => {
                return unreached();
            },
        }
    }
}

/// Runs a sender for the fixed batch over a connection that answers by
/// `faults`.
pub fn send_messages(faults: &Vec<Option<String>>) -> (run: Transmission)
    ensures
        run@ == transmission_of(batch(), faults.deep_view()),
        run.result matches Err(e) ==> e@ is Transmission,
{
    send_all(message_batch(), faults)
}

/// Where nothing is refused from `from` up to `j`, and the message at
/// `j` is, `j` is the first refusal from `from` on.
proof fn lemma_first_fault_found(faults: Seq<Option<Seq<char>>>, limit: nat, from: nat, j: nat)
    requires
        from <= j < limit,
        fault_at(faults, j as int) is Some,
        forall|i: int| from <= i < j ==> fault_at(faults, i) is None,
    ensures
        first_fault(faults, limit, from) == Some(j),
    decreases j - from,
{
    if from < j {
        lemma_first_fault_found(faults, limit, from + 1, j);
    }
}

/// Where nothing is refused from `from` on, there is no first refusal.
proof fn lemma_first_fault_absent(faults: Seq<Option<Seq<char>>>, limit: nat, from: nat)
    requires
        forall|i: int| from <= i < limit ==> fault_at(faults, i) is None,
    ensures
        first_fault(faults, limit, from) is None,
    decreases limit - from,
{
    if from < limit {
        lemma_first_fault_absent(faults, limit, from + 1);
    }
}

/// Fail-fast. Where the connection accepts the first `j` messages of the
/// batch and refuses the next, exactly those `j` were transmitted, the
/// refused one was the last handed to the connection, and the run ends
/// with the connection's reason. No later message is ever handed over,
/// whatever the connection would have said to it.
pub proof fn lemma_stops_at_first_refusal(
    batch: Seq<Seq<u8>>,
    faults: Seq<Option<Seq<char>>>,
    j: nat,
)
    requires
        j < batch.len(),
        fault_at(faults, j as int) is Some,
        forall|i: int| 0 <= i < j ==> fault_at(faults, i) is None,
    ensures
        transmission_of(batch, faults).accepted == j,
        transmission_of(batch, faults).handed == batch.take(j as int + 1),
        transmission_of(batch, faults).handed.len() == j + 1,
        transmission_of(batch, faults).result == Err::<(), MidiErrorView>(
            MidiErrorView::Transmission(fault_at(faults, j as int)->0),
        ),
        transmission_of(batch, faults).output == seq![sending_text()],
{
    lemma_first_fault_found(faults, batch.len(), 0, j);
}

/// Full success. Where the connection refuses no message of the batch,
/// the whole batch is transmitted, in its order, and the run ends well,
/// with the closing notice.
pub proof fn lemma_sends_whole_batch(batch: Seq<Seq<u8>>, faults: Seq<Option<Seq<char>>>)
    requires
        forall|i: int| 0 <= i < batch.len() ==> fault_at(faults, i) is None,
    ensures
        transmission_of(batch, faults).handed == batch,
        transmission_of(batch, faults).accepted == batch.len(),
        transmission_of(batch, faults).result == Ok::<(), MidiErrorView>(()),
        transmission_of(batch, faults).output == seq![sending_text(), done_text()],
{
    lemma_first_fault_absent(faults, batch.len(), 0);
}

/// Over a connection that refuses none of them, the nine messages of the
/// fixed batch are all transmitted, in the order of the batch, and the
/// run ends well.
pub proof fn lemma_fixed_batch_goes_through(faults: Seq<Option<Seq<char>>>)
    requires
        forall|i: int| 0 <= i < 9 ==> fault_at(faults, i) is None,
    ensures
        transmission_of(batch(), faults).handed == batch(),
        transmission_of(batch(), faults).handed.len() == 9,
        transmission_of(batch(), faults).accepted == 9,
        transmission_of(batch(), faults).result == Ok::<(), MidiErrorView>(()),
{
    lemma_batch_is_framed();
    lemma_sends_whole_batch(batch(), faults);
}

/// A sender that is done or has failed stays as it is: it ignores every
/// event and hands out nothing more.
pub proof fn lemma_finished_sender_is_inert(state: SenderView, event: SendEventView)
    requires
        state.phase == Phase::Done || state.phase == Phase::Failed,
    ensures
        state.step(event).0 == state,
        state.step(event).1.action is Ignore,
        state.step(event).1.output.len() == 0,
{
}

/// Every step keeps a sender well formed, and the number of accepted
/// messages never falls.
pub proof fn lemma_step_keeps_order(state: SenderView, event: SendEventView)
    requires
        state.wf(),
    ensures
        state.step(event).0.wf(),
        state.step(event).0.batch == state.batch,
        state.step(event).0.accepted >= state.accepted,
        state.step(event).1.action matches SendActionView::Transmit(bytes) ==> bytes
            == state.batch[state.step(event).0.accepted as int],
{
}

} // verus!
