//! What holds of every run of a line receiver, alone and among other lines.
use crate::ingress::line_step;
use crate::ingress::LineAction;
use crate::ingress::LineEvent;
use crate::ingress::LineReceiver;
use vstd::prelude::*;

verus! {

/// A run of a line receiver from `state` over `events`: the state it ends in
/// and the actions it returned, one per event.
pub open spec fn run_line(state: LineReceiver, events: Seq<LineEvent>) -> (
    LineReceiver,
    Seq<LineAction>,
)
    decreases events.len(),
{
    if events.len() == 0 {
        (state, Seq::empty())
    } else {
        let (next, action) = line_step(state, events[0]);
        let (last, actions) = run_line(next, events.drop_first());
        (last, seq![action] + actions)
    }
}

/// The events of one whole list: its arrival with `outcomes.len()` payloads,
/// then the outcome of each injection.
pub open spec fn list_events(outcomes: Seq<bool>) -> Seq<LineEvent> {
    seq![LineEvent::Received { len: outcomes.len() as usize }] + injection_outcomes(outcomes)
}

/// The events that report the outcomes of successive injections.
pub open spec fn injection_outcomes(outcomes: Seq<bool>) -> Seq<LineEvent> {
    Seq::new(outcomes.len(), |i: int| LineEvent::Injected { accepted: outcomes[i] })
}

/// The injections of a list of `len` payloads from index `from` on, in the
/// order in which the payloads were received.
pub open spec fn injections(len: usize, from: int) -> Seq<LineAction> {
    Seq::new((len - from) as nat, |i: int| LineAction::Inject { item: (from + i) as usize })
}

/// From the state in which payload `item` is being injected, the outcomes of
/// the injections that are left, whatever they are, lead through the rest of
/// the list in order and then back to receiving.
proof fn lemma_run_while_injecting(len: usize, item: usize, outcomes: Seq<bool>)
    requires
        item < len,
        outcomes.len() == len - item,
    ensures
        run_line(LineReceiver::Injecting { len, item }, injection_outcomes(outcomes)) == (
            LineReceiver::Receiving,
            injections(len, item + 1).push(LineAction::Receive { discard: len }),
        ),
    decreases outcomes.len(),
{
    let events = injection_outcomes(outcomes);
    let rest = outcomes.drop_first();
    assert(events.drop_first() =~= injection_outcomes(rest));
    if item + 1 < len {
        lemma_run_while_injecting(len, (item + 1) as usize, rest);
    } else {
        // The last payload: its outcome leads back to receiving.
        let (next, action) = line_step(LineReceiver::Injecting { len, item }, events[0]);
        assert(seq![action] + run_line(next, events.drop_first()).1 =~= injections(
            len,
            item + 1,
        ).push(LineAction::Receive { discard: len }));
    }
}

/// The payloads of a list are injected in the order in which they were
/// received, and none holds up another: whatever the outcome of each injection,
/// a receiver that gets a list asks for the injection of each payload in turn,
/// then for the next receive, which clears the list.
pub proof fn lemma_list_is_injected_in_order(outcomes: Seq<bool>)
    requires
        0 < outcomes.len() <= usize::MAX,
    ensures
        run_line(LineReceiver::Receiving, list_events(outcomes)) == (
            LineReceiver::Receiving,
            injections(outcomes.len() as usize, 0).push(
                LineAction::Receive { discard: outcomes.len() as usize },
            ),
        ),
        forall|i: int|
            0 <= i < outcomes.len() ==> #[trigger] run_line(
                LineReceiver::Receiving,
                list_events(outcomes),
            ).1[i] == (LineAction::Inject { item: i as usize }),
{
    assert(list_events(outcomes).drop_first() =~= injection_outcomes(outcomes));
    lemma_run_while_injecting(outcomes.len() as usize, 0, outcomes);
}

/// A payload that the stack refused and one that it took lead to the same
/// state and action.
pub proof fn lemma_injection_outcome_is_ignored(state: LineReceiver)
    ensures
        line_step(state, LineEvent::Injected { accepted: false }) == line_step(
            state,
            LineEvent::Injected { accepted: true },
        ),
{
}

/// An event of one line among those of all lines.
pub struct LineInput {
    /// The line that the event belongs to.
    pub line: int,
    /// What the owner of that line's receiver reports.
    pub event: LineEvent,
}

/// The lines that are open side by side, each with a receiver of its own, take
/// one event: only the receiver of the line that the event belongs to moves.
pub open spec fn lines_step(lines: Map<int, LineReceiver>, input: LineInput) -> (
    Map<int, LineReceiver>,
    LineAction,
) {
    if lines.contains_key(input.line) {
        let (next, action) = line_step(lines[input.line], input.event);
        (lines.insert(input.line, next), action)
    } else {
        (lines, LineAction::Idle)
    }
}

/// A run of all lines over the events of all of them, in the order in which
/// they happen: the receivers at the end, and for each event the line it
/// belongs to with the action that was returned.
pub open spec fn run_lines(lines: Map<int, LineReceiver>, inputs: Seq<LineInput>) -> (
    Map<int, LineReceiver>,
    Seq<(int, LineAction)>,
)
    decreases inputs.len(),
{
    if inputs.len() == 0 {
        (lines, Seq::empty())
    } else {
        let (next, action) = lines_step(lines, inputs[0]);
        let (last, actions) = run_lines(next, inputs.drop_first());
        (last, seq![(inputs[0].line, action)] + actions)
    }
}

/// The events among `inputs` that belong to `line`, in order.
pub open spec fn events_of(inputs: Seq<LineInput>, line: int) -> Seq<LineEvent>
    decreases inputs.len(),
{
    if inputs.len() == 0 {
        Seq::empty()
    } else if inputs[0].line == line {
        seq![inputs[0].event] + events_of(inputs.drop_first(), line)
    } else {
        events_of(inputs.drop_first(), line)
    }
}

/// The actions among `actions` that were returned to `line`, in order.
pub open spec fn actions_of(actions: Seq<(int, LineAction)>, line: int) -> Seq<LineAction>
    decreases actions.len(),
{
    if actions.len() == 0 {
        Seq::empty()
    } else if actions[0].0 == line {
        seq![actions[0].1] + actions_of(actions.drop_first(), line)
    } else {
        actions_of(actions.drop_first(), line)
    }
}

/// Lines do not touch each other: however the events of the other lines fall
/// among its own, and whether those lines go on, end or fail, a line ends in
/// the state and is given the actions that its own events alone lead to.
pub proof fn lemma_lines_are_isolated(
    lines: Map<int, LineReceiver>,
    inputs: Seq<LineInput>,
    line: int,
)
    requires
        lines.contains_key(line),
    ensures
        run_lines(lines, inputs).0.contains_key(line),
        run_lines(lines, inputs).0[line] == run_line(lines[line], events_of(inputs, line)).0,
        actions_of(run_lines(lines, inputs).1, line) == run_line(
            lines[line],
            events_of(inputs, line),
        ).1,
    decreases inputs.len(),
{
    if inputs.len() > 0 {
        // The first event moves the receiver of its own line and no other; the
        // rest follows by induction.
        let (next, action) = lines_step(lines, inputs[0]);
        let rest = inputs.drop_first();
        lemma_lines_are_isolated(next, rest, line);
        let tagged = seq![(inputs[0].line, action)] + run_lines(next, rest).1;
        assert(tagged.drop_first() =~= run_lines(next, rest).1);
        if inputs[0].line == line {
            assert((seq![inputs[0].event] + events_of(rest, line)).drop_first() =~= events_of(
                rest,
                line,
            ));
        }
    }
}

} // verus!
