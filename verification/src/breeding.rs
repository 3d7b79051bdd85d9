//! The phase that creates new candidates: every place behind the survivors
//! is filled with the child of two survivors drawn at random.

use crate::candidate::{
    all_fit, fresh, spotlight, Candidate, CandidateModel, Visibility, UNSCORED,
};
use crate::genetics::{bred_from, cross};
use crate::random::{sample_indices, RandomSource};
use crate::script::{
    close_script, lemma_narration_of_prefix, narration, open_script, script, tale, Event,
    EventModel,
};
use crate::state::{fits, SimulationError, State, StateModel};
use crate::step::{label_of, Step};
use vstd::prelude::*;

verus! {

/// A child as the phase leaves it: unscored, out of focus, uncoloured, and
/// drawn.
pub open spec fn newborn(text: Seq<char>) -> CandidateModel {
    fresh(text).seen_as(Visibility::Visible)
}

/// Whether the candidate at `slot` of `result` is a child of the two
/// survivors of `former` that `parents` names for it: two different ones.
pub open spec fn slot_bred(
    result: Seq<CandidateModel>,
    former: Seq<CandidateModel>,
    keep: nat,
    alphabet: Seq<char>,
    rate: int,
    parents: Seq<(int, int)>,
    slot: int,
) -> bool {
    let (a, b) = parents[slot];
    &&& 0 <= a < keep
    &&& 0 <= b < keep
    &&& a != b
    &&& result[slot] == newborn(result[slot].text)
    &&& bred_from(result[slot].text, former[a].text, former[b].text, alphabet, rate)
}

/// Whether `result` is the generation bred from `former`: the first
/// `keep` candidates are the same, and every other one is a child of the
/// survivors that `parents` names for its place.
pub open spec fn bred_generation(
    result: Seq<CandidateModel>,
    former: Seq<CandidateModel>,
    keep: nat,
    alphabet: Seq<char>,
    rate: int,
    parents: Seq<(int, int)>,
) -> bool {
    &&& result.len() == former.len()
    &&& parents.len() == former.len()
    &&& forall|i: int| 0 <= i < keep && i < result.len() ==> #[trigger] result[i] == former[i]
    &&& forall|i: int|
        keep <= i < result.len() ==> #[trigger] slot_bred(
            result,
            former,
            keep,
            alphabet,
            rate,
            parents,
            i,
        )
}

/// Whether the first `keep` candidates of `result` are those of `former`,
/// unchanged.
pub open spec fn survivors_kept(
    result: Seq<CandidateModel>,
    former: Seq<CandidateModel>,
    keep: nat,
) -> bool {
    &&& result.len() == former.len()
    &&& forall|i: int| 0 <= i < keep && i < result.len() ==> #[trigger] result[i] == former[i]
}

/// Whether every candidate of `result` behind the first `keep` is unscored
/// and has a genome of `length` symbols.
pub open spec fn children_unscored(result: Seq<CandidateModel>, keep: nat, length: nat) -> bool {
    forall|i: int|
        keep <= i < result.len() ==> {
            &&& (#[trigger] result[i]).fitness == UNSCORED
            &&& result[i].text.len() == length
        }
}

/// The population at the time when `slot` is about to be filled: the
/// places before it hold their children already, the others still hold
/// what they held.
pub open spec fn current(
    former: Seq<CandidateModel>,
    result: Seq<CandidateModel>,
    keep: nat,
    slot: int,
) -> Seq<CandidateModel> {
    Seq::new(
        former.len(),
        |x: int|
            if keep <= x < slot {
                result[x]
            } else {
                former[x]
            },
    )
}

/// The population with both parents and the slot of their child in the
/// spotlight.
pub open spec fn lit(population: Seq<CandidateModel>, parents: (int, int), slot: int) -> Seq<
    CandidateModel,
> {
    spotlight(spotlight(spotlight(population, parents.0), parents.1), slot)
}

/// The `m`-th thing the phase shows. Two snapshots belong to each place to
/// fill: first the population with the parents and the place lit up, then
/// the same with the child in its place.
pub open spec fn breeding_snapshot(
    former: Seq<CandidateModel>,
    result: Seq<CandidateModel>,
    keep: nat,
    parents: Seq<(int, int)>,
    m: int,
) -> Seq<CandidateModel> {
    let slot = keep + m / 2;
    let scene = lit(current(former, result, keep, slot), parents[slot], slot);
    if m % 2 == 0 {
        scene
    } else {
        scene.update(slot, result[slot].turned())
    }
}

/// What the phase shows in all: the two snapshots of every place it fills,
/// and at the end the new generation.
pub open spec fn breeding_snapshots(
    former: Seq<CandidateModel>,
    result: Seq<CandidateModel>,
    keep: nat,
    parents: Seq<(int, int)>,
) -> Seq<Seq<CandidateModel>> {
    let bred = former.len() - keep;
    Seq::new(
        (2 * bred + 1) as nat,
        |m: int|
            if m < 2 * bred {
                breeding_snapshot(former, result, keep, parents, m)
            } else {
                result
            },
    )
}

/// Whether `events` and `result` are what breeding can make of `state`:
/// for some choice of parents, `result` is the generation bred from the
/// population of `state`, and `events` is the script that shows it.
pub open spec fn breeding_outcome(
    events: Seq<EventModel>,
    state: StateModel,
    result: Seq<CandidateModel>,
) -> bool {
    exists|parents: Seq<(int, int)>|
        {
            &&& #[trigger] bred_generation(
                result,
                state.population,
                state.num_fit_to_keep,
                state.alphabet,
                state.mutation_rate as int,
                parents,
            )
            &&& events == script(
                state.stage(Step::BreedNew),
                breeding_snapshots(state.population, result, state.num_fit_to_keep, parents),
            )
        }
}

/// What was shown for earlier places does not change when a later place
/// is filled.
proof fn lemma_snapshot_settled(
    former: Seq<CandidateModel>,
    before: Seq<CandidateModel>,
    after: Seq<CandidateModel>,
    keep: nat,
    parents_before: Seq<(int, int)>,
    parents_after: Seq<(int, int)>,
    slot: int,
    m: int,
)
    requires
        keep <= slot < former.len(),
        before.len() == former.len(),
        after.len() == former.len(),
        parents_before.len() == former.len(),
        parents_after.len() == former.len(),
        0 <= m < 2 * (slot - keep),
        forall|x: int| 0 <= x < slot ==> before[x] == after[x],
        forall|x: int| 0 <= x < slot ==> parents_before[x] == parents_after[x],
    ensures
        breeding_snapshot(former, before, keep, parents_before, m) == breeding_snapshot(
            former,
            after,
            keep,
            parents_after,
            m,
        ),
{
    let earlier = keep + m / 2;
    assert(current(former, before, keep, earlier) =~= current(former, after, keep, earlier));
}

impl State {
    /// Fills every place behind the survivors with the child of two
    /// different survivors, and tells how it went. The survivors stay as
    /// they are; every child is unscored and as long as the target. Fails,
    /// and changes nothing, if fewer than two survivors are kept.
    pub fn breed_new(&mut self, source: &mut RandomSource) -> (outcome: Result<
        Vec<Event>,
        SimulationError,
    >)
        requires
            old(self)@.wf(),
            old(self)@.seeded(),
        ensures
            outcome is Err <==> old(self)@.num_fit_to_keep < 2,
            match outcome {
                Ok(events) => {
                    &&& final(self)@.wf()
                    &&& final(self)@ == old(self)@.with_population(final(self)@.population)
                    &&& breeding_outcome(tale(events@), old(self)@, final(self)@.population)
                    &&& survivors_kept(
                        final(self)@.population,
                        old(self)@.population,
                        old(self)@.num_fit_to_keep,
                    )
                    &&& children_unscored(
                        final(self)@.population,
                        old(self)@.num_fit_to_keep,
                        old(self)@.target.len(),
                    )
                },
                Err(error) => {
                    &&& error == SimulationError::InvalidSampleSize
                    &&& final(self)@ == old(self)@
                },
            },
    {
        let size = self.population_size();
        let keep = self.num_fit_to_keep();
        if keep < 2 {
            return Err(SimulationError::InvalidSampleSize);
        }
        let label = Step::BreedNew.label();
        let rate = self.mutation_rate();
        let ghost start = self@;
        let ghost stage = start.stage(Step::BreedNew);
        let ghost mut parents: Seq<(int, int)> = Seq::new(size as nat, |x: int| (0int, 0int));
        let ghost mut shown: Seq<Seq<CandidateModel>> = Seq::empty();
        let mut events = open_script();
        let mut i: usize = keep;
        while i < size
            invariant
                start.wf(),
                start.seeded(),
                size == start.population_size,
                keep == start.num_fit_to_keep,
                rate == start.mutation_rate,
                2 <= keep <= i <= size,
                label@ == label_of(Step::BreedNew),
                stage == start.stage(Step::BreedNew),
                self@ == start.with_population(self@.population),
                self@.population.len() == size,
                all_fit(self@.population, start.target),
                parents.len() == size,
                forall|x: int|
                    0 <= x < keep || i <= x < size ==> #[trigger] self@.population[x]
                        == start.population[x],
                forall|x: int|
                    keep <= x < i ==> #[trigger] slot_bred(
                        self@.population,
                        start.population,
                        keep as nat,
                        start.alphabet,
                        rate as int,
                        parents,
                        x,
                    ),
                shown.len() == 2 * (i - keep),
                forall|m: int|
                    0 <= m < shown.len() ==> #[trigger] shown[m] == breeding_snapshot(
                        start.population,
                        self@.population,
                        keep as nat,
                        parents,
                        m,
                    ),
                tale(events@) == narration(stage, shown, shown.len()),
            decreases size - i,
        {
            let ghost before = self@.population;
            let ghost parents_before = parents;
            let ghost shown_before = shown;
            let pair = sample_indices(source, keep, 2);
            let a = pair[0];
            let b = pair[1];
            let child = cross(
                self.candidate(a).symbols(),
                self.candidate(b).symbols(),
                rate,
                self.alphabet(),
                source,
            );
            let ghost text = child@;
            self.turn(a);
            self.turn(b);
            self.turn(i);
            let ghost scene = lit(before, (a as int, b as int), i as int);
            self.render(label.as_str(), &mut events);
            let mut newcomer = Candidate::from_symbols(child);
            newcomer.toggle_visibility();
            newcomer.toggle_focus();
            self.install(i, newcomer);
            let ghost filled = scene.update(i as int, newborn(text).turned());
            self.render(label.as_str(), &mut events);
            self.turn(i);
            self.turn(a);
            self.turn(b);
            let ghost after = before.update(i as int, newborn(text));
            assert(self@.population =~= after);
            proof {
                parents = parents.update(i as int, (a as int, b as int));
                let first = shown_before.push(scene);
                shown = first.push(filled);
                lemma_narration_of_prefix(stage, shown_before, first, shown_before.len());
                lemma_narration_of_prefix(stage, first, shown, first.len());
                assert forall|x: int| keep <= x < i + 1 implies #[trigger] slot_bred(
                    after,
                    start.population,
                    keep as nat,
                    start.alphabet,
                    rate as int,
                    parents,
                    x,
                ) by {
                    if x < i {
                        assert(slot_bred(
                            before,
                            start.population,
                            keep as nat,
                            start.alphabet,
                            rate as int,
                            parents_before,
                            x,
                        ));
                    }
                }
                assert forall|m: int| 0 <= m < shown.len() implies #[trigger] shown[m]
                    == breeding_snapshot(start.population, after, keep as nat, parents, m) by {
                    if m < shown_before.len() {
                        lemma_snapshot_settled(
                            start.population,
                            before,
                            after,
                            keep as nat,
                            parents_before,
                            parents,
                            i as int,
                            m,
                        );
                    }
                }
            }
            i += 1;
        }
        self.render(label.as_str(), &mut events);
        close_script(&mut events);
        proof {
            let result = self@.population;
            let all = breeding_snapshots(start.population, result, keep as nat, parents);
            lemma_narration_of_prefix(stage, shown, all, shown.len());
            assert(bred_generation(
                result,
                start.population,
                keep as nat,
                start.alphabet,
                rate as int,
                parents,
            ));
            assert forall|x: int| keep <= x < result.len() implies (#[trigger] result[x]).fitness
                == UNSCORED by {
                assert(slot_bred(
                    result,
                    start.population,
                    keep as nat,
                    start.alphabet,
                    rate as int,
                    parents,
                    x,
                ));
            }
            assert forall|x: int| 0 <= x < result.len() implies fits(
                #[trigger] result[x],
                start.target,
            ) by {
                if x >= keep {
                    assert(slot_bred(
                        result,
                        start.population,
                        keep as nat,
                        start.alphabet,
                        rate as int,
                        parents,
                        x,
                    ));
                    let (p, q) = parents[x];
                }
            }
        }
        Ok(events)
    }
}

} // verus!
