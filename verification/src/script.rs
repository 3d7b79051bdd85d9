//! What a phase hands to whoever draws it: the texts to show and the pauses
//! to keep between them.

use crate::candidate::CandidateModel;
use crate::layout::frame_text;
use crate::terminal::{clear_buffer, clear_code};
use vstd::prelude::*;

verus! {

/// One thing for the display to do.
#[derive(Debug, PartialEq, Eq)]
pub enum Event {
    /// Print the text, followed by a line break.
    Show(String),
    /// Wait the short while that separates two actions of a phase.
    Beat,
    /// Wait the longer while that separates two phases.
    Rest,
}

/// An event as a mathematical value.
pub enum EventModel {
    Show(Seq<char>),
    Beat,
    Rest,
}

impl View for Event {
    type V = EventModel;

    open spec fn view(&self) -> EventModel {
        match self {
            Event::Show(text) => EventModel::Show(text@),
            Event::Beat => EventModel::Beat,
            Event::Rest => EventModel::Rest,
        }
    }
}

/// The models of a list of events, one by one.
pub open spec fn tale(events: Seq<Event>) -> Seq<EventModel> {
    events.map_values(|event: Event| event@)
}

/// What every frame of one phase is drawn with.
pub struct Stage {
    pub target: Seq<char>,
    pub columns: nat,
    pub label: Seq<char>,
}

/// The events that open a phase and show the first `n` of `snapshots`: the
/// screen is cleared, then each snapshot is drawn as a frame and followed by
/// a beat.
pub open spec fn narration(
    stage: Stage,
    snapshots: Seq<Seq<CandidateModel>>,
    n: nat,
) -> Seq<EventModel>
    decreases n,
{
    if n == 0 {
        seq![EventModel::Show(clear_code())]
    } else {
        narration(stage, snapshots, (n - 1) as nat) + seq![
            EventModel::Show(
                frame_text(snapshots[n - 1], stage.target, stage.columns, stage.label),
            ),
            EventModel::Beat,
        ]
    }
}

/// The events that show the first `n` of `snapshots` in the middle of a
/// phase: each snapshot is drawn as a frame and followed by a beat.
pub open spec fn frames(stage: Stage, snapshots: Seq<Seq<CandidateModel>>, n: nat) -> Seq<
    EventModel,
>
    decreases n,
{
    if n == 0 {
        Seq::empty()
    } else {
        frames(stage, snapshots, (n - 1) as nat) + seq![
            EventModel::Show(
                frame_text(snapshots[n - 1], stage.target, stage.columns, stage.label),
            ),
            EventModel::Beat,
        ]
    }
}

/// The events of a whole phase that shows `snapshots`: the narration of all
/// of them, and the rest that ends the phase.
pub open spec fn script(stage: Stage, snapshots: Seq<Seq<CandidateModel>>) -> Seq<EventModel> {
    narration(stage, snapshots, snapshots.len()) + seq![EventModel::Rest]
}

/// The events that every phase opens with: the screen is cleared.
pub fn open_script() -> (events: Vec<Event>)
    ensures
        tale(events@) == seq![EventModel::Show(clear_code())],
{
    let mut events: Vec<Event> = Vec::new();
    events.push(Event::Show(clear_buffer()));
    events
}

/// Adds the showing of `text` to `events`.
pub fn show(events: &mut Vec<Event>, text: String)
    ensures
        tale(final(events)@) == tale(old(events)@) + seq![EventModel::Show(text@)],
{
    events.push(Event::Show(text));
}

/// Ends the events of a phase with the rest that follows it.
pub fn close_script(events: &mut Vec<Event>)
    ensures
        tale(final(events)@) == tale(old(events)@) + seq![EventModel::Rest],
{
    events.push(Event::Rest);
}

/// A narration does not depend on the snapshots that come after it.
pub proof fn lemma_narration_of_prefix(
    stage: Stage,
    snapshots: Seq<Seq<CandidateModel>>,
    longer: Seq<Seq<CandidateModel>>,
    n: nat,
)
    requires
        n <= snapshots.len() <= longer.len(),
        forall|k: int| 0 <= k < n ==> snapshots[k] == longer[k],
    ensures
        narration(stage, snapshots, n) == narration(stage, longer, n),
    decreases n,
{
    if n > 0 {
        lemma_narration_of_prefix(stage, snapshots, longer, (n - 1) as nat);
    }
}

/// The frames of some snapshots do not depend on the snapshots that come
/// after them.
pub proof fn lemma_frames_of_prefix(
    stage: Stage,
    snapshots: Seq<Seq<CandidateModel>>,
    longer: Seq<Seq<CandidateModel>>,
    n: nat,
)
    requires
        n <= snapshots.len() <= longer.len(),
        forall|k: int| 0 <= k < n ==> snapshots[k] == longer[k],
    ensures
        frames(stage, snapshots, n) == frames(stage, longer, n),
    decreases n,
{
    if n > 0 {
        lemma_frames_of_prefix(stage, snapshots, longer, (n - 1) as nat);
    }
}

/// Showing more snapshots after a narration is the narration of all of
/// them.
pub proof fn lemma_narration_goes_on(
    stage: Stage,
    shown: Seq<Seq<CandidateModel>>,
    more: Seq<Seq<CandidateModel>>,
    n: nat,
)
    requires
        n <= more.len(),
    ensures
        narration(stage, shown + more, shown.len() + n) == narration(stage, shown, shown.len())
            + frames(stage, more, n),
    decreases n,
{
    if n == 0 {
        lemma_narration_of_prefix(stage, shown, shown + more, shown.len());
    } else {
        lemma_narration_goes_on(stage, shown, more, (n - 1) as nat);
    }
}

/// The models of two lists of events, one after the other, are the models
/// of the lists joined.
pub proof fn lemma_tale_of_joined(first: Seq<Event>, second: Seq<Event>)
    ensures
        tale(first + second) == tale(first) + tale(second),
{
}

} // verus!
