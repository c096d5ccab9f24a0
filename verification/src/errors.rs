//! The failures that can end a run, as one closed type.

use vstd::prelude::*;
use vstd::string::*;
use crate::text::{retry_notice, retry_text};

verus! {

/// Raised when the transport lists no output port at all.
#[derive(Debug, Clone)]
pub struct NoMidiOutputsError;

impl NoMidiOutputsError {
    /// The text shown for this failure.
    pub open spec fn text() -> Seq<char> {
        "no MIDI device output ports found"@
    }

    /// The text shown for this failure, as an owned string.
    pub fn message(&self) -> (r: String)
        ensures
            r@ == Self::text(),
    {
        String::from_str("no MIDI device output ports found")
    }
}

/// Every way in which selecting a port or sending to it can fail.
///
/// The variants that carry a string hold the transport's or the input
/// stream's own description of what went wrong.
#[derive(Debug, Clone, PartialEq, Eq)]
pub enum MidiError {
    /// The transport lists no output port.
    NoOutputsAvailable,
    /// A typed line names no listed port. The selector answers it with a
    /// new prompt; it never ends a run.
    InvalidSelection,
    /// The transport could not give the display name of a port.
    NameResolution(String),
    /// Reading a line of input failed.
    Input(String),
    /// The transport could not open a connection to the chosen port.
    Connection(String),
    /// The connection refused a message.
    Transmission(String),
}

/// The mathematical value of a [`MidiError`]: its strings as sequences of
/// characters.
pub enum MidiErrorView {
    NoOutputsAvailable,
    InvalidSelection,
    NameResolution(Seq<char>),
    Input(Seq<char>),
    Connection(Seq<char>),
    Transmission(Seq<char>),
}

impl View for MidiError {
    type V = MidiErrorView;

    open spec fn view(&self) -> MidiErrorView {
        match self {
            MidiError::NoOutputsAvailable => MidiErrorView::NoOutputsAvailable,
            MidiError::InvalidSelection => MidiErrorView::InvalidSelection,
            MidiError::NameResolution(s) => MidiErrorView::NameResolution(s@),
            MidiError::Input(s) => MidiErrorView::Input(s@),
            MidiError::Connection(s) => MidiErrorView::Connection(s@),
            MidiError::Transmission(s) => MidiErrorView::Transmission(s@),
        }
    }
}

impl MidiErrorView {
    /// The text shown for a failure.
    pub open spec fn text(self) -> Seq<char> {
        match self {
            MidiErrorView::NoOutputsAvailable => NoMidiOutputsError::text(),
            MidiErrorView::InvalidSelection => retry_text(),
            MidiErrorView::NameResolution(s) => s,
            MidiErrorView::Input(s) => s,
            MidiErrorView::Connection(s) => s,
            MidiErrorView::Transmission(s) => s,
        }
    }

    /// Whether a failure ends the run. Only an invalid selection does not.
    pub open spec fn is_fatal(self) -> bool {
        !(self is InvalidSelection)
    }

    /// The line that reports a failure: `Error: ` and its text.
    pub open spec fn report(self) -> Seq<char> {
        "Error: "@ + self.text()
    }
}

impl MidiError {
    /// The text shown for this failure.
    pub fn message(&self) -> (r: String)
        ensures
            r@ == self@.text(),
    {
        match self {
            MidiError::NoOutputsAvailable => NoMidiOutputsError.message(),
            MidiError::InvalidSelection => retry_notice(),
            MidiError::NameResolution(s) => s.clone(),
            MidiError::Input(s) => s.clone(),
            MidiError::Connection(s) => s.clone(),
            MidiError::Transmission(s) => s.clone(),
        }
    }

    /// Whether this failure ends the run.
    pub fn is_fatal(&self) -> (fatal: bool)
        ensures
            fatal == self@.is_fatal(),
    {
        match self {
            MidiError::InvalidSelection => false,
            _ => true,
        }
    }

    /// The one line that reports this failure to the user.
    pub fn report_line(&self) -> (r: String)
        ensures
            r@ == self@.report(),
    {
        let text = self.message();
        String::from_str("Error: ").concat(text.as_str())
    }
}

impl From<NoMidiOutputsError> for MidiError {
    fn from(e: NoMidiOutputsError) -> (r: MidiError) {
        MidiError::NoOutputsAvailable
    }
}

impl vstd::std_specs::convert::FromSpecImpl<NoMidiOutputsError> for MidiError {
    open spec fn obeys_from_spec() -> bool {
        true
    }

    open spec fn from_spec(e: NoMidiOutputsError) -> MidiError {
        MidiError::NoOutputsAvailable
    }
}

} // verus!
