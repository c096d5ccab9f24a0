//! The port selector: it lists the ports, asks for a number, and asks
//! again until a line names one of them.

use vstd::prelude::*;
use vstd::string::*;
use crate::choice::{
    all_digits, choice_of, decimal_value, digit_value, is_digit, select_index, trim_end, trim_start,
    unsigned_part, written_number,
};
use crate::errors::{MidiError, MidiErrorView, NoMidiOutputsError};
use crate::text::{
    confirmation, confirmation_text, decimal_digits, end_of_input_notice, end_of_input_text,
    listing_header, listing_header_text, listing_line, listing_line_text, prompt, prompt_text,
    retry_notice, retry_text,
};

verus! {

/// What one attempt to read a line of input gave.
#[derive(Debug, Clone, PartialEq, Eq)]
pub enum Input {
    /// A line, with or without its line break.
    Line(String),
    /// The input stream has ended.
    End,
    /// The read failed, with the stream's description of the failure.
    Failure(String),
}

/// The mathematical value of an [`Input`].
pub enum InputView {
    Line(Seq<char>),
    End,
    Failure(Seq<char>),
}

impl View for Input {
    type V = InputView;

    open spec fn view(&self) -> InputView {
        match self {
            Input::Line(s) => InputView::Line(s@),
            Input::End => InputView::End,
            Input::Failure(s) => InputView::Failure(s@),
        }
    }
}

/// What the selector decides on one input.
#[derive(Debug, Clone, PartialEq, Eq)]
pub enum Verdict {
    /// The line names no listed port: read another.
    Retry,
    /// The line names the port at this zero-based position.
    Selected(usize),
    /// The selection is given up.
    Failed(MidiError),
}

/// The mathematical value of a [`Verdict`].
pub enum VerdictView {
    Retry,
    Selected(nat),
    Failed(MidiErrorView),
}

impl View for Verdict {
    type V = VerdictView;

    open spec fn view(&self) -> VerdictView {
        match self {
            Verdict::Retry => VerdictView::Retry,
            Verdict::Selected(i) => VerdictView::Selected(*i as nat),
            Verdict::Failed(e) => VerdictView::Failed(e@),
        }
    }
}

/// The selector's answer to one input: what it decided, and the lines to
/// show.
#[derive(Debug, Clone, PartialEq, Eq)]
pub struct Reply {
    pub verdict: Verdict,
    pub output: Vec<String>,
}

/// The mathematical value of a [`Reply`].
pub struct ReplyView {
    pub verdict: VerdictView,
    pub output: Seq<Seq<char>>,
}

impl View for Reply {
    type V = ReplyView;

    open spec fn view(&self) -> ReplyView {
        ReplyView { verdict: self.verdict@, output: self.output.deep_view() }
    }
}

/// The lines shown before the first read: the header, one line for each
/// port, numbered from one, and the prompt.
pub open spec fn opening_text(names: Seq<Seq<char>>) -> Seq<Seq<char>> {
    seq![listing_header_text()] + Seq::new(
        names.len(),
        |i: int| listing_line_text((i + 1) as nat, names[i]),
    ) + seq![prompt_text()]
}

/// The answer to one input, for a list of port names.
///
/// A line that names a port selects it and is confirmed with its name.
/// Any other line is answered with the retry notice and a new prompt.
/// A read that fails, or the end of the input, ends the selection.
pub open spec fn reply_to(names: Seq<Seq<char>>, input: InputView) -> ReplyView {
    match input {
        InputView::Line(line) => match choice_of(line, names.len()) {
            Some(i) => ReplyView {
                verdict: VerdictView::Selected(i),
                output: seq![confirmation_text(names[i as int])],
            },
            None => ReplyView {
                verdict: VerdictView::Retry,
                output: seq![retry_text(), prompt_text()],
            },
        },
        InputView::End => ReplyView {
            verdict: VerdictView::Failed(MidiErrorView::Input(end_of_input_text())),
            output: Seq::empty(),
        },
        InputView::Failure(reason) => ReplyView {
            verdict: VerdictView::Failed(MidiErrorView::Input(reason)),
            output: Seq::empty(),
        },
    }
}

/// The mathematical value of a list of name lookups: for each port its
/// name, or the transport's description of why it has none.
pub open spec fn lookup_views(lookups: Seq<Result<String, String>>) -> Seq<
    Result<Seq<char>, Seq<char>>,
> {
    Seq::new(
        lookups.len(),
        |i: int|
            match lookups[i] {
                Ok(name) => Ok(name@),
                Err(reason) => Err(reason@),
            },
    )
}

/// The names of the ports, in order, where every lookup gave one, and
/// else the failure of the first lookup that gave none.
pub open spec fn gathered(lookups: Seq<Result<Seq<char>, Seq<char>>>) -> Result<
    Seq<Seq<char>>,
    MidiErrorView,
>
    decreases lookups.len(),
{
    if lookups.len() == 0 {
        Ok(Seq::empty())
    } else {
        match gathered(lookups.drop_last()) {
            Err(e) => Err(e),
            Ok(names) => match lookups.last() {
                Ok(name) => Ok(names.push(name)),
                Err(reason) => Err(MidiErrorView::NameResolution(reason)),
            },
        }
    }
}

/// The names of the ports, where every lookup gave one, or the failure of
/// the first lookup that gave none.
pub fn get_out_port_names(lookups: &Vec<Result<String, String>>) -> (r: Result<
    Vec<String>,
    MidiError,
>)
    ensures
        match r {
            Ok(names) => gathered(lookup_views(lookups@)) == Ok::<Seq<Seq<char>>, MidiErrorView>(
                names.deep_view(),
            ),
            Err(e) => gathered(lookup_views(lookups@)) == Err::<Seq<Seq<char>>, MidiErrorView>(
                e@,
            ),
        },
{
    let ghost given = lookup_views(lookups@);
    let mut names: Vec<String> = Vec::new();
    let mut pos: usize = 0;
    proof {
        assert(given.take(0) =~= Seq::<Result<Seq<char>, Seq<char>>>::empty());
        assert(names.deep_view() =~= Seq::<Seq<char>>::empty());
    }
    while pos < lookups.len()
        invariant
            pos <= lookups.len(),
            given == lookup_views(lookups@),
            gathered(given.take(pos as int)) == Ok::<Seq<Seq<char>>, MidiErrorView>(
                names.deep_view(),
            ),
        decreases lookups.len() - pos,
    {
        proof {
            assert(given.take(pos + 1).drop_last() =~= given.take(pos as int));
            assert(given.take(pos + 1).last() == given[pos as int]);
        }
        match &lookups[pos] {
            Ok(name) => {
                let ghost before = names.deep_view();
                names.push(name.clone());
                assert(names.deep_view() =~= before.push(name@));
            },
            Err(reason) => {
                proof {
                    lemma_gathered_stays_failed(given, pos + 1);
                }
                return Err(MidiError::NameResolution(reason.clone()));
            },
        }
        pos += 1;
    }
    proof {
        assert(given.take(pos as int) =~= given);
    }
    Ok(names)
}

/// Once the lookups up to some position have failed, more lookups change
/// nothing: the failure is that of the first lookup that gave no name.
proof fn lemma_gathered_stays_failed(lookups: Seq<Result<Seq<char>, Seq<char>>>, k: int)
    requires
        0 <= k <= lookups.len(),
        gathered(lookups.take(k)) is Err,
    ensures
        gathered(lookups) == gathered(lookups.take(k)),
    decreases lookups.len() - k,
{
    if k == lookups.len() {
        assert(lookups.take(k) =~= lookups);
    } else {
        assert(lookups.drop_last().take(k) =~= lookups.take(k));
        lemma_gathered_stays_failed(lookups.drop_last(), k);
    }
}

/// What gathering the names comes to: all of them, in order, where every
/// lookup gave one, and else the failure of the lookup before which every
/// lookup gave a name.
pub proof fn lemma_gathered_names(lookups: Seq<Result<Seq<char>, Seq<char>>>)
    ensures
        match gathered(lookups) {
            Ok(names) => {
                &&& names.len() == lookups.len()
                &&& forall|i: int|
                    0 <= i < lookups.len() ==> #[trigger] lookups[i] == Ok::<
                        Seq<char>,
                        Seq<char>,
                    >(names[i])
            },
            Err(e) => exists|k: int|
                {
                    &&& 0 <= k < lookups.len()
                    &&& forall|i: int| 0 <= i < k ==> (#[trigger] lookups[i]) is Ok
                    &&& #[trigger] lookups[k] matches Err(reason) && e
                        == MidiErrorView::NameResolution(reason)
                },
        },
    decreases lookups.len(),
{
    if lookups.len() > 0 {
        let fewer = lookups.drop_last();
        lemma_gathered_names(fewer);
        match gathered(fewer) {
            Ok(names) => {
                match lookups.last() {
                    Ok(name) => {
                        let all = names.push(name);
                        assert forall|i: int| 0 <= i < lookups.len() implies #[trigger] lookups[i]
                            == Ok::<Seq<char>, Seq<char>>(all[i]) by {
                            if i < fewer.len() {
                                assert(lookups[i] == fewer[i]);
                            }
                        }
                    },
                    Err(reason) => {
                        let k = lookups.len() - 1;
                        assert forall|i: int| 0 <= i < k implies (#[trigger] lookups[i]) is Ok by {
                            assert(lookups[i] == fewer[i]);
                        }
                        assert(lookups[k] is Err);
                    },
                }
            },
            Err(e) => {
                let k = choose|k: int|
                    {
                        &&& 0 <= k < fewer.len()
                        &&& forall|i: int| 0 <= i < k ==> (#[trigger] fewer[i]) is Ok
                        &&& #[trigger] fewer[k] matches Err(reason) && e
                            == MidiErrorView::NameResolution(reason)
                    };
                assert forall|i: int| 0 <= i < k implies (#[trigger] lookups[i]) is Ok by {
                    assert(lookups[i] == fewer[i]);
                }
                assert(lookups[k] == fewer[k]);
            },
        }
    }
}

/// A list of at least one port name, ready to answer typed selections.
pub struct Selector {
    names: Vec<String>,
}

impl View for Selector {
    type V = Seq<Seq<char>>;

    /// The names of the listed ports, in the order of the list.
    closed spec fn view(&self) -> Seq<Seq<char>> {
        self.names.deep_view()
    }
}

impl Selector {
    #[verifier::type_invariant]
    spec fn listed(&self) -> bool {
        self.names.len() >= 1
    }

    /// A selector over `names`. Without a name there is nothing to select,
    /// and nothing is shown.
    pub fn new(names: Vec<String>) -> (r: Result<Selector, NoMidiOutputsError>)
        ensures
            r is Err <==> names.len() == 0,
            r matches Ok(selector) ==> selector@ == names.deep_view(),
    {
        if names.len() == 0 {
            Err(NoMidiOutputsError)
        } else {
            Ok(Selector { names })
        }
    }

    /// The number of listed ports: at least one.
    pub fn count(&self) -> (n: usize)
        ensures
            n == self@.len(),
            n >= 1,
    {
        proof {
            use_type_invariant(self);
        }
        self.names.len()
    }

    /// The lines to show before the first read.
    pub fn opening(&self) -> (lines: Vec<String>)
        ensures
            lines.deep_view() == opening_text(self@),
    {
        let mut lines: Vec<String> = Vec::new();
        lines.push(listing_header());
        let mut pos: usize = 0;
        while pos < self.names.len()
            invariant
                pos <= self.names.len(),
                lines.len() == pos + 1,
                lines[0]@ == listing_header_text(),
                forall|i: int|
                    0 <= i < pos ==> (#[trigger] lines[i + 1])@ == listing_line_text(
                        (i + 1) as nat,
                        self.names[i]@,
                    ),
            decreases self.names.len() - pos,
        {
            lines.push(listing_line(pos + 1, self.names[pos].as_str()));
            pos += 1;
        }
        lines.push(prompt());
        assert(lines.deep_view() =~= opening_text(self@)) by {
            let want = opening_text(self@);
            assert(want.len() == lines.len());
            assert forall|j: int| 0 <= j < lines.len() implies lines.deep_view()[j] == want[j] by {
                if 0 < j < lines.len() - 1 {
                    assert((j - 1) + 1 == j);
                    assert(lines[(j - 1) + 1]@ == listing_line_text(j as nat, self.names[j - 1]@));
                }
            }
        }
        lines
    }

    /// The answer to one input.
    pub fn respond(&self, input: &Input) -> (reply: Reply)
        ensures
            reply@ == reply_to(self@, input@),
    {
        match input {
            Input::Line(line) => {
                match select_index(line.as_str(), self.names.len()) {
                    Ok(i) => {
                        let mut output: Vec<String> = Vec::new();
                        output.push(confirmation(self.names[i].as_str()));
                        assert(output.deep_view() =~= seq![confirmation_text(self@[i as int])]);
                        Reply { verdict: Verdict::Selected(i), output }
                    },
                    Err(_) => {
                        let mut output: Vec<String> = Vec::new();
                        output.push(retry_notice());
                        output.push(prompt());
                        assert(output.deep_view() =~= seq![retry_text(), prompt_text()]);
                        Reply { verdict: Verdict::Retry, output }
                    },
                }
            },
            Input::End => {
                let output: Vec<String> = Vec::new();
                assert(output.deep_view() =~= Seq::<Seq<char>>::empty());
                Reply {
                    verdict: Verdict::Failed(MidiError::Input(end_of_input_notice())),
                    output,
                }
            },
            Input::Failure(reason) => {
                let output: Vec<String> = Vec::new();
                assert(output.deep_view() =~= Seq::<Seq<char>>::empty());
                Reply { verdict: Verdict::Failed(MidiError::Input(reason.clone())), output }
            },
        }
    }
}

/// A finished run of the selector over recorded input.
#[derive(Debug, PartialEq, Eq)]
pub struct Selection {
    /// The zero-based position of the selected port, or why none was
    /// selected.
    pub result: Result<usize, MidiError>,
    /// How many lines were answered with the retry notice.
    pub retries: usize,
    /// Every line shown, in order.
    pub output: Vec<String>,
}

/// The mathematical value of a [`Selection`].
pub struct SelectionView {
    pub result: Result<nat, MidiErrorView>,
    pub retries: nat,
    pub output: Seq<Seq<char>>,
}

impl View for Selection {
    type V = SelectionView;

    open spec fn view(&self) -> SelectionView {
        SelectionView {
            result: match self.result {
                Ok(i) => Ok(i as nat),
                Err(e) => Err(e@),
            },
            retries: self.retries as nat,
            output: self.output.deep_view(),
        }
    }
}

/// What the selector makes of the lines of an input stream, read one by
/// one once the list and the first prompt have been shown: it answers
/// each line in turn and stops at the first that it does not answer with
/// a retry. Where the lines run out, the input has ended.
pub open spec fn answers(names: Seq<Seq<char>>, lines: Seq<Seq<char>>) -> SelectionView
    decreases lines.len(),
{
    if lines.len() == 0 {
        let reply = reply_to(names, InputView::End);
        SelectionView {
            result: Err(MidiErrorView::Input(end_of_input_text())),
            retries: 0,
            output: reply.output,
        }
    } else {
        let reply = reply_to(names, InputView::Line(lines.first()));
        match reply.verdict {
            VerdictView::Selected(i) => SelectionView {
                result: Ok(i),
                retries: 0,
                output: reply.output,
            },
            VerdictView::Failed(e) => SelectionView {
                result: Err(e),
                retries: 0,
                output: reply.output,
            },
            VerdictView::Retry => {
                let rest = answers(names, lines.drop_first());
                SelectionView {
                    result: rest.result,
                    retries: rest.retries + 1,
                    output: reply.output + rest.output,
                }
            },
        }
    }
}

/// The whole run of the selector over a list of port names and the lines
/// of an input stream. An empty list fails before anything is shown.
pub open spec fn selection_of(names: Seq<Seq<char>>, lines: Seq<Seq<char>>) -> SelectionView {
    if names.len() == 0 {
        SelectionView {
            result: Err(MidiErrorView::NoOutputsAvailable),
            retries: 0,
            output: Seq::empty(),
        }
    } else {
        let run = answers(names, lines);
        SelectionView {
            result: run.result,
            retries: run.retries,
            output: opening_text(names) + run.output,
        }
    }
}

/// Runs the selector over `names` with `lines` as the input stream, and
/// records what it showed and decided.
pub fn select_output_port(names: Vec<String>, lines: &Vec<String>) -> (run: Selection)
    ensures
        run@ == selection_of(names.deep_view(), lines.deep_view()),
        run.result matches Err(e) ==> e@ is NoOutputsAvailable || e@ is Input,
{
    let ghost given = names.deep_view();
    let selector = match Selector::new(names) {
        Ok(selector) => selector,
        Err(e) => {
            let output: Vec<String> = Vec::new();
            assert(output.deep_view() =~= Seq::<Seq<char>>::empty());
            return Selection { result: Err(MidiError::from(e)), retries: 0, output };
        },
    };
    let ghost listed = selector@;
    let ghost typed = lines.deep_view();
    let count = selector.count();
    let mut output = selector.opening();
    let mut pos: usize = 0;
    proof {
        assert(typed.skip(0) =~= typed);
        assert(output.deep_view() + answers(listed, typed).output =~= opening_text(listed)
            + answers(listed, typed).output);
    }
    loop
        invariant
            listed == selector@,
            listed == given,
            given == names.deep_view(),
            listed.len() >= 1,
            typed == lines.deep_view(),
            pos <= lines.len(),
            answers(listed, typed).result == answers(listed, typed.skip(pos as int)).result,
            answers(listed, typed).retries == pos + answers(
                listed,
                typed.skip(pos as int),
            ).retries,
            opening_text(listed) + answers(listed, typed).output == output.deep_view() + answers(
                listed,
                typed.skip(pos as int),
            ).output,
        decreases lines.len() - pos,
    {
        let input = if pos < lines.len() {
            Input::Line(lines[pos].clone())
        } else {
            Input::End
        };
        let reply = selector.respond(&input);
        let Reply { verdict, output: mut shown } = reply;
        let ghost before = output.deep_view();
        let ghost remaining = typed.skip(pos as int);
        output.append(&mut shown);
        proof {
            assert(output.deep_view() =~= before + reply@.output);
            if pos < lines.len() {
                assert(remaining.first() == typed[pos as int]);
                assert(remaining.drop_first() =~= typed.skip(pos + 1));
            }
            let rest = answers(listed, remaining);
            if !(reply@.verdict is Retry) {
                assert(before + rest.output =~= before + reply@.output);
            } else {
                let after = answers(listed, typed.skip(pos + 1));
                assert(before + rest.output =~= (before + reply@.output) + after.output);
            }
        }
        match verdict {
            Verdict::Selected(i) => {
                return Selection { result: Ok(i), retries: pos, output };
            },
            Verdict::Failed(e) => {
                return Selection { result: Err(e), retries: pos, output };
            },
            Verdict::Retry => {
                pos += 1;
            },
        }
    }
}

/// With no port listed the selection fails at once, whatever the input
/// holds, and nothing is shown: no list, no prompt.
pub proof fn lemma_no_ports_nothing_shown(names: Seq<Seq<char>>, lines: Seq<Seq<char>>)
    requires
        names.len() == 0,
    ensures
        selection_of(names, lines).result == Err::<nat, MidiErrorView>(
            MidiErrorView::NoOutputsAvailable,
        ),
        selection_of(names, lines).retries == 0,
        selection_of(names, lines).output.len() == 0,
{
}

/// Lines that name no listed port, followed by a line that holds the
/// number `k` of a listed port: the selector retries once for each of the
/// former and then selects the port at position `k - 1`. What follows the
/// valid line is never read.
pub proof fn lemma_retries_then_selects(
    names: Seq<Seq<char>>,
    invalid: Seq<Seq<char>>,
    valid: Seq<char>,
    k: nat,
    unread: Seq<Seq<char>>,
)
    requires
        names.len() >= 1,
        forall|i: int|
            0 <= i < invalid.len() ==> (written_number(#[trigger] invalid[i]) matches Some(v)
                ==> v == 0 || v > names.len()),
        written_number(valid) == Some(k),
        1 <= k <= names.len(),
    ensures
        selection_of(names, invalid.push(valid) + unread).result == Ok::<nat, MidiErrorView>(
            (k - 1) as nat,
        ),
        selection_of(names, invalid.push(valid) + unread).retries == invalid.len(),
    decreases invalid.len(),
{
    let lines = invalid.push(valid) + unread;
    if invalid.len() == 0 {
        assert(lines.first() == valid);
    } else {
        assert(lines.first() == invalid[0]);
        let fewer = invalid.drop_first();
        assert forall|i: int| 0 <= i < fewer.len() implies (written_number(
            #[trigger] fewer[i],
        ) matches Some(v) ==> v == 0 || v > names.len()) by {
            assert(fewer[i] == invalid[i + 1]);
        }
        lemma_retries_then_selects(names, fewer, valid, k, unread);
        assert(lines.drop_first() =~= fewer.push(valid) + unread);
    }
}

/// The selector keeps nothing from one run to the next: two runs over the
/// same names and the same input show the same lines, retry as often, and
/// select the same port.
pub proof fn lemma_selection_repeats(
    names: Seq<Seq<char>>,
    lines: Seq<Seq<char>>,
    first: Selection,
    second: Selection,
)
    requires
        first@ == selection_of(names, lines),
        second@ == selection_of(names, lines),
    ensures
        first@ == second@,
        first.result matches Ok(port) ==> second.result == Ok::<usize, MidiError>(port),
{
}

/// A number written in base ten is a run of digits that denotes it.
proof fn lemma_decimal_digits_denote(n: nat)
    ensures
        decimal_digits(n).len() >= 1,
        all_digits(decimal_digits(n)),
        decimal_value(decimal_digits(n)) == n,
    decreases n,
{
    let digits = decimal_digits(n);
    if n < 10 {
        assert(digits.drop_last() =~= Seq::<char>::empty());
        assert(decimal_value(digits.drop_last()) == 0);
        assert(digit_value(digits.last()) == n);
    } else {
        lemma_decimal_digits_denote(n / 10);
        assert(digits.drop_last() =~= decimal_digits(n / 10));
        assert(digit_value(digits.last()) == n % 10);
        assert forall|i: int| 0 <= i < digits.len() implies is_digit(#[trigger] digits[i]) by {
            if i < digits.len() - 1 {
                assert(digits[i] == decimal_digits(n / 10)[i]);
            }
        }
    }
}

/// The number shown beside a port in the list, typed back as it stands,
/// selects that port.
pub proof fn lemma_listed_number_selects(names: Seq<Seq<char>>, i: nat)
    requires
        i < names.len(),
    ensures
        choice_of(decimal_digits(i + 1), names.len()) == Some(i),
{
    let digits = decimal_digits(i + 1);
    lemma_decimal_digits_denote(i + 1);
    assert(is_digit(digits.first()));
    assert(is_digit(digits.last()));
    assert(trim_start(digits) == digits);
    assert(trim_end(digits) == digits);
    assert(unsigned_part(digits) == digits);
}

} // verus!
