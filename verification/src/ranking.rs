//! The phase that orders the population by fitness. The order comes about
//! by an odd-even transposition sort: sweep after sweep, neighbours that
//! stand the wrong way round change places, first in the pairs that start
//! at an even place, then in those that start at an odd one, until a whole
//! sweep finds nothing to do. Every exchange is small enough to be watched.

use crate::candidate::{all_fit, exchanged, CandidateModel};
use crate::evaluation::all_scored;
use crate::script::{
    close_script, frames, lemma_frames_of_prefix, lemma_narration_goes_on,
    lemma_narration_of_prefix, lemma_tale_of_joined, narration, open_script, script, tale, Event,
    EventModel, Stage,
};
use crate::state::{fits, State};
use crate::step::{label_of, Step};
use vstd::prelude::*;

verus! {

/// Whether no candidate is fitter than one that stands before it.
pub open spec fn ranked(population: Seq<CandidateModel>) -> bool {
    forall|i: int, j: int|
        0 <= i <= j < population.len() ==> population[i].fitness >= population[j].fitness
}

/// Whether the candidate at place `p` is at least as fit as the one right
/// behind it.
pub open spec fn in_order(population: Seq<CandidateModel>, p: int) -> bool {
    population[p].fitness >= population[p + 1].fitness
}

/// Whether no candidate is fitter than the one right before it.
pub open spec fn neighbours_ordered(population: Seq<CandidateModel>) -> bool {
    forall|p: int| 0 <= p && p + 1 < population.len() ==> #[trigger] in_order(population, p)
}

/// Whether the pairs of neighbours that start at places of parity `first`
/// stand the right way round.
pub open spec fn pairs_ordered(population: Seq<CandidateModel>, first: int) -> bool {
    forall|p: int|
        0 <= p && p + 1 < population.len() && p % 2 == first ==> #[trigger] in_order(
            population,
            p,
        )
}

/// Whether `current` holds the candidates of `former` in the order that
/// `places` gives: the `i`-th of `current` is the one that stood at
/// `places[i]`, and no place is taken twice.
pub open spec fn rearranges_by(
    current: Seq<CandidateModel>,
    former: Seq<CandidateModel>,
    places: Seq<int>,
) -> bool {
    &&& current.len() == former.len()
    &&& places.len() == former.len()
    &&& forall|i: int|
        0 <= i < current.len() ==> 0 <= #[trigger] places[i] < former.len() && current[i]
            == former[places[i]]
    &&& forall|i: int, j: int|
        0 <= i < places.len() && 0 <= j < places.len() && i != j ==> #[trigger] places[i]
            != #[trigger] places[j]
}

/// Whether `current` holds exactly the candidates of `former`, in some
/// order.
pub open spec fn rearranges(current: Seq<CandidateModel>, former: Seq<CandidateModel>) -> bool {
    exists|places: Seq<int>| rearranges_by(current, former, places)
}

/// An exchange is shown if it happens at a place that this number divides.
pub const SHOWN_EVERY: usize = 5;

/// Whether a pass finds the pair at `place` the wrong way round.
pub open spec fn out_of_order(population: Seq<CandidateModel>, place: int) -> bool {
    &&& 0 <= place
    &&& place + 1 < population.len()
    &&& population[place].fitness < population[place + 1].fitness
}

/// The population after a pass has gone through its first `k` pairs. A
/// pass that starts at `first` looks at the pairs at `first`, `first + 2`
/// and so on, and lets every pair that stands the wrong way round change
/// places.
pub open spec fn passed(population: Seq<CandidateModel>, first: int, k: nat) -> Seq<CandidateModel>
    decreases k,
{
    if k == 0 {
        population
    } else {
        let before = passed(population, first, (k - 1) as nat);
        let place = first + 2 * (k - 1);
        if out_of_order(before, place) {
            exchanged(before, place)
        } else {
            before
        }
    }
}

/// What a pass shows while it goes through its first `k` pairs: the
/// population right after every exchange at a place that `SHOWN_EVERY`
/// divides.
pub open spec fn pass_shown(population: Seq<CandidateModel>, first: int, k: nat) -> Seq<
    Seq<CandidateModel>,
>
    decreases k,
{
    if k == 0 {
        Seq::empty()
    } else {
        let earlier = pass_shown(population, first, (k - 1) as nat);
        let before = passed(population, first, (k - 1) as nat);
        let place = first + 2 * (k - 1);
        if out_of_order(before, place) && place % (SHOWN_EVERY as int) == 0 {
            earlier.push(exchanged(before, place))
        } else {
            earlier
        }
    }
}

/// The population after a whole pass. No pass has more pairs than the
/// population has candidates.
pub open spec fn after_pass(population: Seq<CandidateModel>, first: int) -> Seq<CandidateModel> {
    passed(population, first, population.len())
}

/// What a whole pass shows.
pub open spec fn shown_in_pass(population: Seq<CandidateModel>, first: int) -> Seq<
    Seq<CandidateModel>,
> {
    pass_shown(population, first, population.len())
}

/// The population after one sweep: a pass over the pairs at even places,
/// then one over those at odd places.
pub open spec fn swept(population: Seq<CandidateModel>) -> Seq<CandidateModel> {
    after_pass(after_pass(population, 0), 1)
}

/// What one sweep shows.
pub open spec fn shown_in_sweep(population: Seq<CandidateModel>) -> Seq<Seq<CandidateModel>> {
    shown_in_pass(population, 0) + shown_in_pass(after_pass(population, 0), 1)
}

/// The population after `n` sweeps.
pub open spec fn after_sweeps(population: Seq<CandidateModel>, n: nat) -> Seq<CandidateModel>
    decreases n,
{
    if n == 0 {
        population
    } else {
        swept(after_sweeps(population, (n - 1) as nat))
    }
}

/// What `n` sweeps show, one after the other.
pub open spec fn shown_in_sweeps(population: Seq<CandidateModel>, n: nat) -> Seq<
    Seq<CandidateModel>,
>
    decreases n,
{
    if n == 0 {
        Seq::empty()
    } else {
        shown_in_sweeps(population, (n - 1) as nat) + shown_in_sweep(
            after_sweeps(population, (n - 1) as nat),
        )
    }
}

/// Whether `events` are the script of a ranking that started from
/// `former` and ended in `result`: sweep followed sweep until one found
/// nothing to do; `result` is what the sweeps left; and the frames replay
/// the exchanges the sweeps show, in their order, and end on `result`.
pub open spec fn ranking_script(
    events: Seq<EventModel>,
    stage: Stage,
    former: Seq<CandidateModel>,
    result: Seq<CandidateModel>,
) -> bool {
    exists|sweeps: nat|
        {
            &&& sweeps >= 1
            &&& result == #[trigger] after_sweeps(former, sweeps)
            &&& result == after_sweeps(former, (sweeps - 1) as nat)
            &&& events == script(stage, shown_in_sweeps(former, sweeps).push(result))
        }
}

/// The fitness that the first `n` places carry, each place weighted by its
/// distance from the front. An exchange that brings a fitter candidate
/// forward makes it smaller; this is what shows that the sort ends.
pub open spec fn burden(population: Seq<CandidateModel>, n: nat) -> int
    decreases n,
{
    if n == 0 {
        0
    } else {
        burden(population, (n - 1) as nat) + (n - 1) * (population[n - 1].fitness + 1)
    }
}

/// A population whose neighbours are all in order is ranked, and the other
/// way round.
pub proof fn lemma_neighbours_ranked(population: Seq<CandidateModel>)
    ensures
        neighbours_ordered(population) <==> ranked(population),
{
    if neighbours_ordered(population) {
        assert forall|i: int, j: int| 0 <= i <= j < population.len() implies population[i].fitness
            >= population[j].fitness by {
            lemma_chain(population, i, j);
        }
    }
}

proof fn lemma_chain(population: Seq<CandidateModel>, i: int, j: int)
    requires
        neighbours_ordered(population),
        0 <= i <= j < population.len(),
    ensures
        population[i].fitness >= population[j].fitness,
    decreases j - i,
{
    if i < j {
        lemma_chain(population, i, j - 1);
        assert(in_order(population, j - 1));
    }
}

/// Every population rearranges itself.
pub proof fn lemma_rearranges_itself(population: Seq<CandidateModel>)
    ensures
        rearranges(population, population),
{
    let places = Seq::new(population.len(), |i: int| i);
    assert(rearranges_by(population, population, places));
}

/// A rearrangement of a rearrangement is a rearrangement.
pub proof fn lemma_rearranges_twice(
    current: Seq<CandidateModel>,
    middle: Seq<CandidateModel>,
    former: Seq<CandidateModel>,
)
    requires
        rearranges(current, middle),
        rearranges(middle, former),
    ensures
        rearranges(current, former),
{
    let late = choose|places: Seq<int>| rearranges_by(current, middle, places);
    let early = choose|places: Seq<int>| rearranges_by(middle, former, places);
    let places = Seq::new(current.len(), |i: int| early[late[i]]);
    assert(rearranges_by(current, former, places));
}

/// Two neighbours that change places leave a rearrangement behind.
pub proof fn lemma_exchange_rearranges(population: Seq<CandidateModel>, i: int)
    requires
        0 <= i,
        i + 1 < population.len(),
    ensures
        rearranges(exchanged(population, i), population),
{
    let places = Seq::new(
        population.len(),
        |x: int|
            if x == i {
                i + 1
            } else if x == i + 1 {
                i
            } else {
                x
            },
    );
    assert(rearranges_by(exchanged(population, i), population, places));
}

/// A pass keeps the number of candidates.
pub proof fn lemma_passed_length(population: Seq<CandidateModel>, first: int, k: nat)
    ensures
        passed(population, first, k).len() == population.len(),
    decreases k,
{
    if k > 0 {
        lemma_passed_length(population, first, (k - 1) as nat);
    }
}

/// Once a pass has come to the last pair, going on changes nothing and
/// shows nothing.
pub proof fn lemma_pass_is_over(population: Seq<CandidateModel>, first: int, k: nat, more: nat)
    requires
        0 <= first,
        first + 2 * k + 1 >= population.len(),
    ensures
        passed(population, first, k + more) == passed(population, first, k),
        pass_shown(population, first, k + more) == pass_shown(population, first, k),
    decreases more,
{
    if more > 0 {
        lemma_pass_is_over(population, first, k, (more - 1) as nat);
        lemma_passed_length(population, first, k);
    }
}

/// A pass over a ranked population changes nothing and shows nothing.
pub proof fn lemma_pass_of_ranked(population: Seq<CandidateModel>, first: int, k: nat)
    requires
        ranked(population),
    ensures
        passed(population, first, k) == population,
        pass_shown(population, first, k) == Seq::<Seq<CandidateModel>>::empty(),
    decreases k,
{
    if k > 0 {
        lemma_pass_of_ranked(population, first, (k - 1) as nat);
    }
}

/// A ranked population stays as it is under any number of sweeps, and no
/// exchange is shown: ranking it leaves every candidate in its place.
pub proof fn lemma_ranked_stays(population: Seq<CandidateModel>, n: nat)
    requires
        ranked(population),
    ensures
        after_sweeps(population, n) == population,
        shown_in_sweeps(population, n) == Seq::<Seq<CandidateModel>>::empty(),
    decreases n,
{
    if n > 0 {
        lemma_ranked_stays(population, (n - 1) as nat);
        lemma_pass_of_ranked(population, 0, population.len());
        lemma_pass_of_ranked(population, 1, population.len());
    }
}

/// A rearrangement of candidates that belong to a run belongs to it, and
/// if all of them were scored, they still are.
pub proof fn lemma_rearranged_still_fits(
    current: Seq<CandidateModel>,
    former: Seq<CandidateModel>,
    target: Seq<char>,
)
    requires
        rearranges(current, former),
    ensures
        (forall|i: int| 0 <= i < former.len() ==> fits(#[trigger] former[i], target)) ==> (
        forall|i: int| 0 <= i < current.len() ==> fits(#[trigger] current[i], target)),
        all_scored(former, target) ==> all_scored(current, target),
{
    let places = choose|places: Seq<int>| rearranges_by(current, former, places);
    if forall|i: int| 0 <= i < former.len() ==> fits(#[trigger] former[i], target) {
        assert forall|i: int| 0 <= i < current.len() implies fits(
            #[trigger] current[i],
            target,
        ) by {
            assert(current[i] == former[places[i]]);
        }
    }
    if all_scored(former, target) {
        assert forall|i: int| 0 <= i < current.len() implies (#[trigger] current[i]).fitness
            == crate::genetics::match_count(current[i].text, target) by {
            assert(current[i] == former[places[i]]);
        }
    }
}

proof fn lemma_burden_update(
    population: Seq<CandidateModel>,
    k: int,
    candidate: CandidateModel,
    n: nat,
)
    requires
        0 <= k < population.len(),
        n <= population.len(),
    ensures
        burden(population.update(k, candidate), n) == burden(population, n) + if k < n {
            k * (candidate.fitness - population[k].fitness)
        } else {
            0
        },
    decreases n,
{
    if n > 0 {
        lemma_burden_update(population, k, candidate, (n - 1) as nat);
        if n - 1 == k {
            let new = candidate.fitness;
            let old = population[k].fitness;
            assert(k * (new + 1) == k * (old + 1) + k * (new - old)) by (nonlinear_arith);
        }
    }
}

proof fn lemma_burden_swap(population: Seq<CandidateModel>, i: int, n: nat)
    requires
        0 <= i,
        i + 1 < n,
        n <= population.len(),
    ensures
        burden(exchanged(population, i), n) == burden(
            population,
            n,
        ) + population[i].fitness - population[i + 1].fitness,
{
    let front = population[i].fitness;
    let back = population[i + 1].fitness;
    let half = population.update(i, population[i + 1]);
    lemma_burden_update(population, i, population[i + 1], n);
    lemma_burden_update(half, i + 1, population[i], n);
    assert(i * (back - front) + (i + 1) * (front - back) == front - back) by (nonlinear_arith);
}

proof fn lemma_burden_bounded(population: Seq<CandidateModel>, n: nat)
    requires
        n <= population.len(),
        forall|k: int| 0 <= k < n ==> (#[trigger] population[k]).fitness >= -1,
    ensures
        burden(population, n) >= 0,
    decreases n,
{
    if n > 0 {
        lemma_burden_bounded(population, (n - 1) as nat);
        let fitness = population[n - 1].fitness;
        assert((n - 1) * (fitness + 1) >= 0) by (nonlinear_arith)
            requires
                n >= 1,
                fitness >= -1,
        ;
    }
}

impl State {
    /// Goes once through the pairs of neighbours that start at places of
    /// parity `first`, lets every pair that stands the wrong way round
    /// change places, and shows the exchanges at every fifth place. Says
    /// whether any pair changed places.
    fn pass(&mut self, first: usize, label: &str) -> (outcome: (bool, Vec<Event>))
        requires
            old(self)@.wf(),
            old(self)@.seeded(),
            first <= 1,
            label@ == label_of(Step::OrderByFitness),
        ensures
            final(self)@.wf(),
            final(self)@ == old(self)@.with_population(
                after_pass(old(self)@.population, first as int),
            ),
            rearranges(final(self)@.population, old(self)@.population),
            final(self)@.population.len() == old(self)@.population.len(),
            outcome.0 ==> burden(final(self)@.population, old(self)@.population.len()) < burden(
                old(self)@.population,
                old(self)@.population.len(),
            ),
            !outcome.0 ==> final(self)@.population == old(self)@.population && pairs_ordered(
                old(self)@.population,
                first as int,
            ),
            tale(outcome.1@) == frames(
                old(self)@.stage(Step::OrderByFitness),
                shown_in_pass(old(self)@.population, first as int),
                shown_in_pass(old(self)@.population, first as int).len(),
            ),
    {
        let n = self.population_size();
        let ghost start = self@;
        let ghost stage = start.stage(Step::OrderByFitness);
        let ghost mut places: Seq<int> = Seq::new(n as nat, |i: int| i);
        let ghost mut shown: Seq<Seq<CandidateModel>> = Seq::empty();
        let ghost mut k: nat = 0;
        let mut events: Vec<Event> = Vec::new();
        let mut swapped = false;
        let mut i: usize = first;
        while i < n - 1
            invariant
                start.wf(),
                start.seeded(),
                n == start.population_size,
                first <= 1,
                label@ == label_of(Step::OrderByFitness),
                stage == start.stage(Step::OrderByFitness),
                i == first + 2 * k,
                k <= n,
                self@ == start.with_population(passed(start.population, first as int, k)),
                shown == pass_shown(start.population, first as int, k),
                all_fit(self@.population, start.target),
                rearranges_by(self@.population, start.population, places),
                swapped ==> burden(self@.population, n as nat) < burden(
                    start.population,
                    n as nat,
                ),
                !swapped ==> self@.population == start.population,
                !swapped ==> forall|p: int|
                    0 <= p < i && p + 1 < n && p % 2 == first ==> #[trigger] in_order(
                        start.population,
                        p,
                    ),
                tale(events@) == frames(stage, shown, shown.len()),
            decreases n - i,
        {
            let ghost before = self@.population;
            if self.candidate(i).fitness() < self.candidate(i + 1).fitness() {
                self.swap_neighbours(i);
                proof {
                    lemma_burden_swap(before, i as int, n as nat);
                    places = places.update(i as int, places[i + 1]).update(
                        i + 1,
                        places[i as int],
                    );
                }
                swapped = true;
                if i % SHOWN_EVERY == 0 {
                    self.render(label, &mut events);
                    proof {
                        let longer = shown.push(self@.population);
                        lemma_frames_of_prefix(stage, shown, longer, shown.len());
                        shown = longer;
                    }
                }
            }
            proof {
                k = k + 1;
            }
            i += 2;
        }
        proof {
            lemma_pass_is_over(start.population, first as int, k, (n - k) as nat);
            lemma_rearranged_still_fits(self@.population, start.population, start.target);
        }
        (swapped, events)
    }

    /// Orders the population by fitness, fittest first, and tells how it
    /// went. Sweep follows sweep, each a pass over the pairs at even places
    /// and one over those at odd places, until a sweep finds nothing to do;
    /// the frames show the exchanges at every fifth place, and the last one
    /// the ranked population. A population that is ranked already stays as
    /// it is, and only that last frame is shown.
    pub fn order_by_fitness(&mut self) -> (events: Vec<Event>)
        requires
            old(self)@.wf(),
            old(self)@.seeded(),
        ensures
            final(self)@.wf(),
            final(self)@ == old(self)@.with_population(final(self)@.population),
            ranked(final(self)@.population),
            rearranges(final(self)@.population, old(self)@.population),
            all_scored(old(self)@.population, old(self)@.target) ==> all_scored(
                final(self)@.population,
                final(self)@.target,
            ),
            ranking_script(
                tale(events@),
                old(self)@.stage(Step::OrderByFitness),
                old(self)@.population,
                final(self)@.population,
            ),
            ranked(old(self)@.population) ==> {
                &&& final(self)@.population == old(self)@.population
                &&& tale(events@) == script(
                    old(self)@.stage(Step::OrderByFitness),
                    seq![old(self)@.population],
                )
            },
    {
        let label = Step::OrderByFitness.label();
        let ghost start = self@;
        let ghost stage = start.stage(Step::OrderByFitness);
        let ghost mut shown: Seq<Seq<CandidateModel>> = Seq::empty();
        let ghost mut sweeps: nat = 0;
        let mut events = open_script();
        let mut swapped = true;
        proof {
            lemma_rearranges_itself(start.population);
        }
        while swapped
            invariant
                start.wf(),
                start.seeded(),
                label@ == label_of(Step::OrderByFitness),
                stage == start.stage(Step::OrderByFitness),
                self@.wf(),
                self@ == start.with_population(after_sweeps(start.population, sweeps)),
                shown == shown_in_sweeps(start.population, sweeps),
                rearranges(self@.population, start.population),
                !swapped ==> neighbours_ordered(self@.population),
                !swapped ==> sweeps >= 1 && self@.population == after_sweeps(
                    start.population,
                    (sweeps - 1) as nat,
                ),
                tale(events@) == narration(stage, shown, shown.len()),
            decreases
                    burden(self@.population, self@.population.len()) + if swapped {
                        1int
                    } else {
                        0int
                    },
        {
            let ghost before = self@.population;
            let ghost told = events@;
            let (even_swapped, mut even_events) = self.pass(0, label.as_str());
            let ghost middle = self@.population;
            let ghost even_told = even_events@;
            let (odd_swapped, mut odd_events) = self.pass(1, label.as_str());
            let ghost odd_told = odd_events@;
            swapped = even_swapped || odd_swapped;
            events.append(&mut even_events);
            events.append(&mut odd_events);
            proof {
                let even_shown = shown_in_pass(before, 0);
                let odd_shown = shown_in_pass(middle, 1);
                lemma_rearranges_twice(middle, before, start.population);
                lemma_rearranges_twice(self@.population, middle, start.population);
                let first_part = shown + even_shown;
                let all = first_part + odd_shown;
                lemma_narration_goes_on(stage, shown, even_shown, even_shown.len());
                lemma_narration_goes_on(stage, first_part, odd_shown, odd_shown.len());
                lemma_tale_of_joined(told, even_told);
                lemma_tale_of_joined(told + even_told, odd_told);
                assert(all =~= shown + shown_in_sweep(before));
                shown = all;
                sweeps = sweeps + 1;
                lemma_burden_bounded(self@.population, self@.population.len());
                if !swapped {
                    assert forall|p: int|
                        0 <= p && p + 1 < before.len() implies #[trigger] in_order(before, p) by {
                        assert(pairs_ordered(before, p % 2));
                    }
                }
            }
        }
        self.render(label.as_str(), &mut events);
        close_script(&mut events);
        proof {
            lemma_neighbours_ranked(self@.population);
            lemma_rearranged_still_fits(self@.population, start.population, start.target);
            let all = shown.push(self@.population);
            lemma_narration_of_prefix(stage, shown, all, shown.len());
            if ranked(start.population) {
                lemma_ranked_stays(start.population, sweeps);
            }
        }
        events
    }
}

} // verus!
