//! Randomized local search that deletes polygon vertices one at a time.
//!
//! The search keeps a cyclic list of vertices. A pass starts at a random
//! index and walks once around the list; at each index it takes the vertex
//! out and asks a probe whether the shorter list is still acceptable: a
//! simple polygon in which the tracked subset stays shattered. The first
//! accepted removal is kept and a new pass begins. A pass in which every
//! removal is rejected ends the search, and so does reaching a triangle.
//!
//! The geometry is not decided here. [`Minimizer`] is the search as a state
//! machine that hands out candidates and takes verdicts;
//! [`minimize_w_subset`] runs it against a probe function.

use rand::distributions::{IndependentSample, Range};
use vstd::arithmetic::div_mod::{lemma_mod_add_multiples_vanish, lemma_small_mod};
use vstd::prelude::*;

verus! {

/// What a probe found out about a candidate vertex list.
#[derive(Clone, Copy, Debug, PartialEq, Eq, Structural)]
pub enum Verdict {
    /// The candidate polygon crosses itself or repeats a vertex.
    NotSimple,
    /// The candidate is simple, but the tracked subset is no longer shattered.
    Unshattered,
    /// The candidate is simple and the tracked subset is still shattered.
    Shattered,
}

/// Where a search stands.
pub enum Stage {
    /// More than three vertices are left and no pass is under way.
    Ready,
    /// A pass that began at index `offset` has had `visited` removals
    /// rejected and waits for the verdict on the next one.
    Probing { offset: nat, visited: nat },
    /// Nothing more will be tried.
    Done,
}

/// The state of a search: the vertex list kept so far, and the stage.
pub struct Search<P> {
    pub points: Seq<P>,
    pub stage: Stage,
}

/// The index visited `step` steps after `offset` on a cycle of `len` places.
pub open spec fn pass_index(offset: int, step: int, len: int) -> int {
    (offset + step) % len
}

impl<P> Search<P> {
    /// The state before the first pass. A triangle is final at once.
    pub open spec fn start(points: Seq<P>) -> Search<P> {
        Search {
            points,
            stage: if points.len() == 3 {
                Stage::Done
            } else {
                Stage::Ready
            },
        }
    }

    /// At least three vertices are kept; a pass runs only on more than
    /// three, starts inside the list and never visits an index twice.
    pub open spec fn valid(self) -> bool {
        match self.stage {
            Stage::Ready => self.points.len() > 3,
            Stage::Probing { offset, visited } => {
                &&& self.points.len() > 3
                &&& offset < self.points.len()
                &&& visited < self.points.len()
            },
            Stage::Done => self.points.len() >= 3,
        }
    }

    /// The state after a pass has begun at `offset`.
    pub open spec fn begin(self, offset: nat) -> Search<P> {
        Search { points: self.points, stage: Stage::Probing { offset, visited: 0 } }
    }

    /// The index whose vertex is out for the pending probe.
    pub open spec fn probe_index(self) -> int {
        match self.stage {
            Stage::Probing { offset, visited } => pass_index(
                offset as int,
                visited as int,
                self.points.len() as int,
            ),
            _ => 0,
        }
    }

    /// The list that the pending probe is asked about.
    pub open spec fn candidate(self) -> Seq<P> {
        self.points.remove(self.probe_index())
    }

    /// The state after the pending probe was answered with `verdict`.
    ///
    /// An accepted candidate becomes the kept list and the pass is over. A
    /// rejected one leaves the list as it was; the pass moves to the next
    /// index, or ends the search when it has been all the way round.
    pub open spec fn settle(self, verdict: Verdict) -> Search<P> {
        match self.stage {
            Stage::Probing { offset, visited } => {
                if verdict == Verdict::Shattered {
                    Search::start(self.candidate())
                } else if visited + 1 == self.points.len() {
                    Search { points: self.points, stage: Stage::Done }
                } else {
                    Search {
                        points: self.points,
                        stage: Stage::Probing { offset, visited: visited + 1 },
                    }
                }
            },
            _ => self,
        }
    }
}

/// What happens to a search from outside: a pass is begun at a drawn
/// index, or the pending probe is answered.
pub enum Event {
    Pass { offset: nat },
    Answer { verdict: Verdict },
}

impl<P> Search<P> {
    /// The state after `event`.
    pub open spec fn after(self, event: Event) -> Search<P> {
        match event {
            Event::Pass { offset } => self.begin(offset),
            Event::Answer { verdict } => self.settle(verdict),
        }
    }

    /// Whether `event` can happen in this state: a pass begins only where
    /// none is under way and more than a triangle is left, at an index of
    /// the list; an answer comes only to a pending probe, and is backed by
    /// `accepted` or `rejected` for its candidate.
    pub open spec fn allows(
        self,
        event: Event,
        accepted: spec_fn(Seq<P>) -> bool,
        rejected: spec_fn(Seq<P>) -> bool,
    ) -> bool {
        match event {
            Event::Pass { offset } => self.stage is Ready && offset < self.points.len(),
            Event::Answer { verdict } => self.stage is Probing && agrees(
                verdict,
                self.candidate(),
                accepted,
                rejected,
            ),
        }
    }
}

/// The state that `events` lead to from `first`.
pub open spec fn replay<P>(first: Search<P>, events: Seq<Event>) -> Search<P>
    decreases events.len(),
{
    if events.len() == 0 {
        first
    } else {
        replay(first, events.drop_last()).after(events.last())
    }
}

/// Whether each of `events` can happen in the state that those before it
/// lead to from `first`.
pub open spec fn lawful<P>(
    first: Search<P>,
    events: Seq<Event>,
    accepted: spec_fn(Seq<P>) -> bool,
    rejected: spec_fn(Seq<P>) -> bool,
) -> bool
    decreases events.len(),
{
    events.len() == 0 || (lawful(first, events.drop_last(), accepted, rejected) && replay(
        first,
        events.drop_last(),
    ).allows(events.last(), accepted, rejected))
}

/// `verdict` on `candidate` is backed by `accepted` or by `rejected`.
pub open spec fn agrees<P>(
    verdict: Verdict,
    candidate: Seq<P>,
    accepted: spec_fn(Seq<P>) -> bool,
    rejected: spec_fn(Seq<P>) -> bool,
) -> bool {
    if verdict == Verdict::Shattered {
        accepted(candidate)
    } else {
        rejected(candidate)
    }
}

/// Stepping once from `pass_index(offset, step, len)` on the cycle, with
/// wrap-around, gives `pass_index(offset, step + 1, len)`.
proof fn lemma_pass_index_step(offset: int, step: int, len: int)
    requires
        0 <= offset < len,
        0 <= step,
        step + 1 < len,
    ensures
        0 <= pass_index(offset, step, len) < len,
        pass_index(offset, step + 1, len) == if pass_index(offset, step, len) + 1 == len {
            0
        } else {
            pass_index(offset, step, len) + 1
        },
{
    if offset + step < len {
        lemma_small_mod((offset + step) as nat, len as nat);
        if offset + step + 1 < len {
            lemma_small_mod((offset + step + 1) as nat, len as nat);
        } else {
            lemma_mod_add_multiples_vanish(0, len);
            lemma_small_mod(0, len as nat);
        }
    } else {
        lemma_mod_add_multiples_vanish(offset + step - len, len);
        lemma_small_mod((offset + step - len) as nat, len as nat);
        lemma_mod_add_multiples_vanish(offset + step + 1 - len, len);
        lemma_small_mod((offset + step + 1 - len) as nat, len as nat);
    }
}

/// A pass that has taken `len` steps has visited every index of the cycle.
proof fn lemma_pass_covers(offset: int, idx: int, len: int) -> (step: int)
    requires
        0 <= offset < len,
        0 <= idx < len,
    ensures
        0 <= step < len,
        pass_index(offset, step, len) == idx,
{
    if idx >= offset {
        lemma_small_mod(idx as nat, len as nat);
        idx - offset
    } else {
        lemma_mod_add_multiples_vanish(idx, len);
        lemma_small_mod(idx as nat, len as nat);
        idx - offset + len
    }
}

/// Draws the index at which a pass starts, by `rand`'s
/// `Range::new(0, len).ind_sample(&mut thread_rng())`.
///
/// `Range::new` panics unless `0 < len`. `ind_sample` on a range of
/// integers returns its lower bound plus a remainder modulo its width, so
/// the draw lies in `[0, len)`. Nothing else is claimed of it: two draws
/// for one `len` may differ. `thread_rng` hands out the generator of the
/// running thread, and fails only where the system has no entropy to seed
/// it with.
#[verifier::external_body]
fn random_offset(len: usize) -> (offset: usize)
    requires
        0 < len,
    ensures
        offset < len,
{
    Range::new(0, len).ind_sample(&mut rand::thread_rng())
}

/// A search in progress, holding the vertices themselves.
///
/// While a probe is pending the vertex under test is kept aside, so that
/// [`Minimizer::candidate`] is the list without it.
pub struct Minimizer<P> {
    points: Vec<P>,
    held: Option<P>,
    offset: usize,
    visited: usize,
    cursor: usize,
    done: bool,
}

impl<P> View for Minimizer<P> {
    type V = Search<P>;

    closed spec fn view(&self) -> Search<P> {
        Search {
            points: match self.held {
                Some(pt) => self.points@.insert(self.cursor as int, pt),
                None => self.points@,
            },
            stage: if self.held is Some {
                Stage::Probing { offset: self.offset as nat, visited: self.visited as nat }
            } else if self.done {
                Stage::Done
            } else {
                Stage::Ready
            },
        }
    }
}

impl<P> Minimizer<P> {
    /// How the fields hang together while a vertex is held aside.
    pub closed spec fn consistent(&self) -> bool {
        self.held is Some ==> {
            &&& self.cursor <= self.points@.len()
            &&& self.points@.len() < usize::MAX
            &&& self.cursor == pass_index(
                self.offset as int,
                self.visited as int,
                (self.points@.len() + 1) as int,
            )
        }
    }

    /// The search is in a valid state.
    pub open spec fn wf(&self) -> bool {
        self@.valid() && self.consistent()
    }

    /// Starts a search on `points`.
    pub fn new(points: Vec<P>) -> (search: Self)
        requires
            points@.len() >= 3,
        ensures
            search.wf(),
            search@ == Search::start(points@),
    {
        let done = points.len() == 3;
        Minimizer { points, held: None, offset: 0, visited: 0, cursor: 0, done }
    }

    /// Whether the search has ended.
    pub fn is_done(&self) -> (done: bool)
        ensures
            done == (self@.stage is Done),
    {
        self.held.is_none() && self.done
    }

    /// Whether the next pass can begin.
    pub fn awaits_pass(&self) -> (ready: bool)
        ensures
            ready == (self@.stage is Ready),
    {
        self.held.is_none() && !self.done
    }

    /// Whether a candidate waits for its verdict.
    pub fn is_probing(&self) -> (probing: bool)
        ensures
            probing == (self@.stage is Probing),
    {
        self.held.is_some()
    }

    /// Begins a pass at `offset` and takes out the vertex there.
    pub fn begin_pass_at(&mut self, offset: usize)
        requires
            old(self).wf(),
            old(self)@.stage is Ready,
            offset < old(self)@.points.len(),
        ensures
            final(self).wf(),
            final(self)@ == old(self)@.begin(offset as nat),
    {
        let pt = self.points.remove(offset);
        self.held = Some(pt);
        self.offset = offset;
        self.visited = 0;
        self.cursor = offset;
        proof {
            lemma_small_mod(offset as nat, old(self).points@.len());
            assert(old(self).points.len() == old(self).points@.len());
            assert(self.points@.insert(offset as int, pt) =~= old(self).points@);
        }
    }

    /// Begins a pass at an index drawn at random from the whole list.
    pub fn begin_pass(&mut self)
        requires
            old(self).wf(),
            old(self)@.stage is Ready,
        ensures
            final(self).wf(),
            final(self)@.stage is Probing,
            final(self)@.stage->offset < old(self)@.points.len(),
            final(self)@ == old(self)@.begin(final(self)@.stage->offset),
    {
        let offset = random_offset(self.points.len());
        self.begin_pass_at(offset);
    }

    /// The list to be probed: the kept list without the vertex under test.
    pub fn candidate(&self) -> (list: &Vec<P>)
        requires
            self.wf(),
            self@.stage is Probing,
        ensures
            list@ == self@.candidate(),
    {
        proof {
            let pt = self.held->0;
            assert(self.points@.insert(self.cursor as int, pt).remove(self.cursor as int)
                =~= self.points@);
        }
        &self.points
    }

    /// Takes the verdict on the pending candidate and moves on.
    pub fn settle(&mut self, verdict: Verdict)
        requires
            old(self).wf(),
            old(self)@.stage is Probing,
        ensures
            final(self).wf(),
            final(self)@ == old(self)@.settle(verdict),
    {
        proof {
            let pt = self.held->0;
            assert(self.points@.insert(self.cursor as int, pt).remove(self.cursor as int)
                =~= self.points@);
        }
        let held = self.held.take();
        match verdict {
            Verdict::Shattered => {
                self.done = self.points.len() == 3;
            },
            _ => {
                match held {
                    Some(pt) => {
                        self.points.insert(self.cursor, pt);
                    },
                    None => {},
                }
                self.visited = self.visited + 1;
                if self.visited == self.points.len() {
                    self.done = true;
                } else {
                    proof {
                        lemma_pass_index_step(
                            self.offset as int,
                            old(self).visited as int,
                            self.points@.len() as int,
                        );
                    }
                    self.cursor = if self.cursor + 1 == self.points.len() {
                        0
                    } else {
                        self.cursor + 1
                    };
                    let next = self.points.remove(self.cursor);
                    self.held = Some(next);
                    proof {
                        assert(self.points@.insert(self.cursor as int, next) =~= old(self)@.points);
                    }
                }
            },
        }
    }

    /// The kept list, once no candidate is pending.
    pub fn points(&self) -> (list: &Vec<P>)
        requires
            !(self@.stage is Probing),
        ensures
            list@ == self@.points,
    {
        &self.points
    }

    /// Ends the search and hands out the kept list.
    pub fn into_points(self) -> (list: Vec<P>)
        requires
            !(self@.stage is Probing),
        ensures
            list@ == self@.points,
    {
        self.points
    }
}

/// Some call of `probe` on a list with the contents `list` may find it
/// simple and the subset still shattered.
pub open spec fn accepted_by<P, F: Fn(&Vec<P>) -> Verdict>(probe: F) -> spec_fn(Seq<P>) -> bool {
    |list: Seq<P>|
        exists|c: Vec<P>| c@ == list && #[trigger] call_ensures(probe, (&c,), Verdict::Shattered)
}

/// Some call of `probe` on a list with the contents `list` may find it
/// not simple, or the subset no longer shattered.
pub open spec fn rejected_by<P, F: Fn(&Vec<P>) -> Verdict>(probe: F) -> spec_fn(Seq<P>) -> bool {
    |list: Seq<P>|
        exists|c: Vec<P>, v: Verdict|
            c@ == list && v != Verdict::Shattered && #[trigger] call_ensures(probe, (&c,), v)
}

/// `to` comes from `from` by taking out one vertex at a time, and each list
/// on the way, `to` included, is accepted.
pub open spec fn reachable<P>(accepted: spec_fn(Seq<P>) -> bool, from: Seq<P>, to: Seq<P>) -> bool
    decreases from.len(),
{
    from == to || exists|idx: int|
        0 <= idx < from.len() && accepted(#[trigger] from.remove(idx)) && reachable(
            accepted,
            from.remove(idx),
            to,
        )
}

/// Taking out any single vertex of `points` is rejected.
pub open spec fn locally_minimal<P>(rejected: spec_fn(Seq<P>) -> bool, points: Seq<P>) -> bool {
    forall|idx: int| 0 <= idx < points.len() ==> rejected(#[trigger] points.remove(idx))
}

/// What a search that began on `origin` knows in state `s`, when `accepted`
/// and `rejected` say what the verdicts so far have meant.
///
/// The kept list was reached through accepted lists only. Every removal that
/// the running pass has already tried was rejected. A finished search holds
/// a triangle or a list from which no single vertex can go.
pub open spec fn sound<P>(
    s: Search<P>,
    origin: Seq<P>,
    accepted: spec_fn(Seq<P>) -> bool,
    rejected: spec_fn(Seq<P>) -> bool,
) -> bool {
    &&& s.valid()
    &&& reachable(accepted, origin, s.points)
    &&& match s.stage {
        Stage::Ready => true,
        Stage::Probing { offset, visited } => forall|step: int|
            0 <= step < visited ==> rejected(
                s.points.remove(
                    #[trigger] pass_index(offset as int, step, s.points.len() as int),
                ),
            ),
        Stage::Done => s.points.len() == 3 || locally_minimal(rejected, s.points),
    }
}

/// One more accepted removal at the end of a chain gives a chain.
pub proof fn lemma_reachable_extends<P>(
    accepted: spec_fn(Seq<P>) -> bool,
    from: Seq<P>,
    mid: Seq<P>,
    idx: int,
)
    requires
        reachable(accepted, from, mid),
        0 <= idx < mid.len(),
        accepted(mid.remove(idx)),
    ensures
        reachable(accepted, from, mid.remove(idx)),
    decreases from.len(),
{
    if from == mid {
        assert(reachable(accepted, mid.remove(idx), mid.remove(idx)));
    } else {
        let first = choose|first: int|
            0 <= first < from.len() && accepted(#[trigger] from.remove(first)) && reachable(
                accepted,
                from.remove(first),
                mid,
            );
        lemma_reachable_extends(accepted, from.remove(first), mid, idx);
    }
}

/// A search is sound when it starts.
pub proof fn lemma_start_is_sound<P>(
    points: Seq<P>,
    accepted: spec_fn(Seq<P>) -> bool,
    rejected: spec_fn(Seq<P>) -> bool,
)
    requires
        points.len() >= 3,
    ensures
        sound(Search::start(points), points, accepted, rejected),
{
}

/// Beginning a pass keeps a search sound.
pub proof fn lemma_begin_keeps_sound<P>(
    s: Search<P>,
    origin: Seq<P>,
    offset: nat,
    accepted: spec_fn(Seq<P>) -> bool,
    rejected: spec_fn(Seq<P>) -> bool,
)
    requires
        sound(s, origin, accepted, rejected),
        s.stage is Ready,
        offset < s.points.len(),
    ensures
        sound(s.begin(offset), origin, accepted, rejected),
{
}

/// A verdict that agrees with `accepted` and `rejected` keeps a search
/// sound: the kept list stays within reach of the first one through
/// accepted lists, it never drops under three vertices, and a search ends
/// only on a triangle or where every single removal was rejected.
pub proof fn lemma_settle_keeps_sound<P>(
    s: Search<P>,
    origin: Seq<P>,
    verdict: Verdict,
    accepted: spec_fn(Seq<P>) -> bool,
    rejected: spec_fn(Seq<P>) -> bool,
)
    requires
        sound(s, origin, accepted, rejected),
        s.stage is Probing,
        agrees(verdict, s.candidate(), accepted, rejected),
    ensures
        sound(s.settle(verdict), origin, accepted, rejected),
{
    let len = s.points.len() as int;
    let offset = s.stage->offset as int;
    let visited = s.stage->visited as int;
    let next = s.settle(verdict);
    if visited + 1 < len {
        lemma_pass_index_step(offset, visited, len);
    } else {
        lemma_pass_index_step(offset, visited - 1, len);
    }
    if verdict == Verdict::Shattered {
        lemma_reachable_extends(accepted, origin, s.points, s.probe_index());
    } else if visited + 1 == len {
        assert forall|idx: int| 0 <= idx < len implies rejected(
            #[trigger] s.points.remove(idx),
        ) by {
            let step = lemma_pass_covers(offset, idx, len);
            assert(pass_index(offset, step, len) == idx);
        }
    } else {
        assert forall|step: int| 0 <= step < visited + 1 implies rejected(
            next.points.remove(#[trigger] pass_index(offset, step, len)),
        ) by {
            if step < visited {
                assert(rejected(s.points.remove(pass_index(offset, step, len))));
            }
        }
    }
}

/// A search that began on `origin` and went through lawful events is sound,
/// whatever the indices at which its passes began.
pub proof fn lemma_lawful_run_is_sound<P>(
    origin: Seq<P>,
    events: Seq<Event>,
    accepted: spec_fn(Seq<P>) -> bool,
    rejected: spec_fn(Seq<P>) -> bool,
)
    requires
        origin.len() >= 3,
        lawful(Search::start(origin), events, accepted, rejected),
    ensures
        sound(replay(Search::start(origin), events), origin, accepted, rejected),
    decreases events.len(),
{
    if events.len() == 0 {
        lemma_start_is_sound(origin, accepted, rejected);
    } else {
        let before = replay(Search::start(origin), events.drop_last());
        lemma_lawful_run_is_sound(origin, events.drop_last(), accepted, rejected);
        match events.last() {
            Event::Pass { offset } => {
                lemma_begin_keeps_sound(before, origin, offset, accepted, rejected);
            },
            Event::Answer { verdict } => {
                lemma_settle_keeps_sound(before, origin, verdict, accepted, rejected);
            },
        }
    }
}

/// A list within reach is the first list itself or an accepted one, and it
/// is no longer than the first.
pub proof fn lemma_reachable_is_accepted<P>(
    accepted: spec_fn(Seq<P>) -> bool,
    from: Seq<P>,
    to: Seq<P>,
)
    requires
        reachable(accepted, from, to),
    ensures
        to == from || accepted(to),
        to.len() <= from.len(),
        to.len() == from.len() ==> to == from,
    decreases from.len(),
{
    if from != to {
        let first = choose|first: int|
            0 <= first < from.len() && accepted(#[trigger] from.remove(first)) && reachable(
                accepted,
                from.remove(first),
                to,
            );
        lemma_reachable_is_accepted(accepted, from.remove(first), to);
    }
}

/// Where no single vertex can be taken out of `from` with the result
/// accepted, nothing but `from` itself is within reach: the search is at
/// a fixed point.
pub proof fn lemma_fixed_point<P>(accepted: spec_fn(Seq<P>) -> bool, from: Seq<P>, to: Seq<P>)
    requires
        reachable(accepted, from, to),
        forall|idx: int| 0 <= idx < from.len() ==> !accepted(#[trigger] from.remove(idx)),
    ensures
        to == from,
{
}

/// Shrinks `points` by the search that this module describes, asking `probe`
/// about each candidate, and returns the list at which the search ends.
///
/// `probe` says of a vertex list whether it is a simple polygon that keeps
/// the tracked subset shattered. The search is the one that [`Search`]
/// describes, for some indices at which its passes began and with the
/// answers of `probe`: it takes the first accepted removal of a pass and
/// begins the next pass at a new index. So the result has at least three
/// vertices. It was reached from `points` by accepted removals alone: it is
/// `points` itself or a list that `probe` accepted, and it is `points`
/// itself where `probe` accepts no list that lacks one vertex of `points`.
/// It is a triangle, or `probe` rejected the removal of each of its
/// vertices in the last pass.
pub fn minimize_w_subset<P, F: Fn(&Vec<P>) -> Verdict>(points: Vec<P>, probe: F) -> (result: Vec<P>)
    requires
        points@.len() >= 3,
        forall|c: &Vec<P>| c@.len() >= 3 ==> call_requires(probe, (c,)),
    ensures
        exists|events: Seq<Event>|
            lawful(Search::start(points@), events, accepted_by(probe), rejected_by(probe))
                && #[trigger] replay(Search::start(points@), events) == (Search {
                points: result@,
                stage: Stage::Done,
            }),
        3 <= result@.len() <= points@.len(),
        reachable(accepted_by(probe), points@, result@),
        result@ == points@ || accepted_by(probe)(result@),
        (forall|idx: int|
            0 <= idx < points@.len() ==> !accepted_by(probe)(#[trigger] points@.remove(idx)))
            ==> result@ == points@,
        result@.len() == 3 || locally_minimal(rejected_by(probe), result@),
{
    let ghost origin = points@;
    let ghost first = Search::start(origin);
    let ghost accepted = accepted_by(probe);
    let ghost rejected = rejected_by(probe);
    let ghost mut events: Seq<Event> = Seq::empty();
    let mut search = Minimizer::new(points);
    while search.awaits_pass()
        invariant
            search.wf(),
            !(search@.stage is Probing),
            lawful(first, events, accepted, rejected),
            replay(first, events) == search@,
            accepted == accepted_by(probe),
            rejected == rejected_by(probe),
            forall|c: &Vec<P>| c@.len() >= 3 ==> call_requires(probe, (c,)),
        decreases
                search@.points.len(),
                if search@.stage is Ready {
                    1nat
                } else {
                    0nat
                },
    {
        let ghost before = search@;
        search.begin_pass();
        proof {
            let pass = Event::Pass { offset: search@.stage->offset };
            assert(events.push(pass).drop_last() =~= events);
            events = events.push(pass);
        }
        while search.is_probing()
            invariant
                search.wf(),
                search@.stage is Probing ==> search@.points == before.points,
                search@.stage is Ready ==> search@.points.len() < before.points.len(),
                search@.points.len() <= before.points.len(),
                lawful(first, events, accepted, rejected),
                replay(first, events) == search@,
                accepted == accepted_by(probe),
                rejected == rejected_by(probe),
                forall|c: &Vec<P>| c@.len() >= 3 ==> call_requires(probe, (c,)),
            decreases
                    if search@.stage is Probing {
                        search@.points.len() - search@.stage->visited
                    } else {
                        0
                    },
        {
            let candidate = search.candidate();
            let verdict = probe(candidate);
            proof {
                let answer = Event::Answer { verdict };
                assert(call_ensures(probe, (candidate,), verdict));
                assert(agrees(verdict, search@.candidate(), accepted, rejected));
                assert(events.push(answer).drop_last() =~= events);
                events = events.push(answer);
            }
            search.settle(verdict);
        }
    }
    proof {
        lemma_lawful_run_is_sound(origin, events, accepted, rejected);
        lemma_reachable_is_accepted(accepted, origin, search@.points);
        if forall|idx: int|
            0 <= idx < origin.len() ==> !accepted(#[trigger] origin.remove(idx)) {
            lemma_fixed_point(accepted, origin, search@.points);
        }
        assert(replay(first, events) == (Search { points: search@.points, stage: Stage::Done }));
    }
    search.into_points()
}

} // verus!
