use super::light_path::{bounce_events, bounce_material, events_of, trace};
use super::light_path::{recursive_colour, unwound_colour};
use super::light_path::{Bounce, Event, PathEnd, PathModel, Step};
use vstd::prelude::*;

verus! {

/// Whether every bounce that hit something names a material of a table of
/// `materials` entries.
pub open spec fn materials_exist(bounces: Seq<Bounce>, materials: nat) -> bool {
    forall|i: int|
        0 <= i < bounces.len() ==> (#[trigger] bounce_material(bounces[i]) matches Some(handle)
            ==> handle < materials)
}

/// A path with no bounce budget is over before anything is intersected, and
/// it contributes black: whatever the scene holds and wherever the ray points.
pub proof fn lemma_no_budget_is_black(materials: nat, bounces: Seq<Bounce>)
    ensures
        PathModel::start(0, materials).step == (Step::Finished { end: PathEnd::Exhausted }),
        trace(0, bounces) == Some((PathEnd::Exhausted, 0nat)),
        PathEnd::Exhausted.is_black(),
{
}

/// A ray that meets nothing ends its path in the sky with no bounce made, so
/// nothing attenuates what the sky gives: in the recursive definition and in
/// the state machine alike.
pub proof fn lemma_first_miss_is_sky(max_depth: nat, materials: nat, later: Seq<Bounce>)
    requires
        max_depth > 0,
    ensures
        trace(max_depth, seq![Bounce::Miss] + later) == Some((PathEnd::Escaped, 0nat)),
        PathModel::start(max_depth, materials).accepts(Event::Miss),
        PathModel::start(max_depth, materials).next(Event::Miss).step == (Step::Finished {
            end: PathEnd::Escaped,
        }),
        PathModel::start(max_depth, materials).next(Event::Miss).bounces == 0,
        !PathEnd::Escaped.is_black(),
{
    assert((seq![Bounce::Miss] + later)[0] == Bounce::Miss);
}

/// A path that was started is well formed, and an accepted event keeps it so,
/// keeps the material table and the sum of bounces made and bounces left, and
/// brings the end strictly nearer.
pub proof fn lemma_advance_makes_progress(path: PathModel, event: Event)
    requires
        path.inv(),
        path.accepts(event),
    ensures
        path.next(event).inv(),
        path.next(event).fuel() < path.fuel(),
        path.next(event).materials == path.materials,
        path.next(event).depth + path.next(event).bounces == path.depth + path.bounces,
        path.next(event).pending == path.next(event).bounces,
{
}

/// A fresh path is well formed and is over after at most two events for each
/// bounce of its budget.
pub proof fn lemma_start_is_well_formed(max_depth: nat, materials: nat)
    ensures
        PathModel::start(max_depth, materials).inv(),
        PathModel::start(max_depth, materials).fuel() == 2 * max_depth,
{
}

/// A path that is over accepts nothing and stays as it is.
pub proof fn lemma_finished_is_final(path: PathModel, events: Seq<Event>)
    requires
        path.finished(),
    ensures
        path.run(events) == path,
        forall|event: Event| !path.accepts(event),
    decreases events.len(),
{
    if events.len() > 0 {
        lemma_finished_is_final(path, events.skip(1));
    }
}

/// Feeding a path two runs of events one after the other is feeding it their
/// concatenation.
pub proof fn lemma_run_splits(path: PathModel, first: Seq<Event>, second: Seq<Event>)
    ensures
        path.run(first + second) == path.run(first).run(second),
    decreases first.len(),
{
    if first.len() == 0 {
        assert(first + second =~= second);
    } else {
        assert((first + second)[0] == first[0]);
        assert((first + second).skip(1) =~= first.skip(1) + second);
        lemma_run_splits(path.next(first[0]), first.skip(1), second);
    }
}

/// A path that has not ended takes part in a run only as long as it is fed:
/// it never makes more bounces than its budget.
pub proof fn lemma_run_keeps_budget(path: PathModel, events: Seq<Event>)
    requires
        path.inv(),
    ensures
        path.run(events).inv(),
        path.run(events).fuel() <= path.fuel(),
        path.run(events).materials == path.materials,
        path.run(events).depth + path.run(events).bounces == path.depth + path.bounces,
    decreases events.len(),
{
    if events.len() > 0 {
        if path.accepts(events[0]) {
            lemma_advance_makes_progress(path, events[0]);
        }
        lemma_run_keeps_budget(path.next(events[0]), events.skip(1));
    }
}

/// The state machine and the recursive definition agree. A path that has
/// made `made` bounces and is about to look at a ray with `depth` bounces
/// left, fed the events of `bounces`, ends as the recursion says, after as
/// many further bounces, with the attenuation of every bounce pending; and
/// where the recursion runs out of bounces, the path has consumed them all
/// and waits for the next intersection.
pub proof fn lemma_run_follows_trace(materials: nat, depth: nat, made: nat, bounces: Seq<Bounce>)
    requires
        materials_exist(bounces, materials),
    ensures
        ({
            let path = PathModel::entered(materials, depth, made).run(events_of(bounces));
            match trace(depth, bounces) {
                Some((end, scattered)) => {
                    &&& path.step == Step::Finished { end }
                    &&& path.bounces == made + scattered
                    &&& path.pending == made + scattered
                    &&& path.depth == depth - scattered
                    &&& scattered <= bounces.len()
                },
                None => {
                    &&& path.step == Step::Intersect
                    &&& path.bounces == made + bounces.len()
                    &&& path.pending == made + bounces.len()
                    &&& path.depth == depth - bounces.len()
                },
            }
        }),
    decreases bounces.len(),
{
    let entered = PathModel::entered(materials, depth, made);
    let events = events_of(bounces);
    if depth == 0 {
        lemma_finished_is_final(entered, events);
    } else if bounces.len() == 0 {
    } else {
        let rest = bounces.skip(1);
        let head = bounce_events(bounces[0]);
        assert(events == head + events_of(rest));
        lemma_run_splits(entered, head, events_of(rest));
        assert(bounce_material(bounces[0]) matches Some(handle) ==> handle < materials);
        assert forall|i: int| 0 <= i < rest.len() implies (#[trigger] bounce_material(rest[i])
            matches Some(handle) ==> handle < materials) by {
            assert(rest[i] == bounces[i + 1]);
        }
        match bounces[0] {
            Bounce::Miss => {
                assert(head.skip(1) =~= Seq::<Event>::empty());
                let after = entered.next(Event::Miss);
                assert(entered.run(head) == after.run(head.skip(1)));
                assert(entered.run(head) == after);
                lemma_finished_is_final(after, events_of(rest));
            },
            Bounce::Absorbed { material_handle } => {
                let hit = entered.next(Event::Hit { material_handle });
                let after = hit.next(Event::Absorbed);
                assert(head.skip(1) =~= seq![Event::Absorbed]);
                assert(head.skip(1).skip(1) =~= Seq::<Event>::empty());
                assert(entered.run(head) == hit.run(head.skip(1)));
                assert(hit.run(head.skip(1)) == after.run(head.skip(1).skip(1)));
                assert(entered.run(head) == after);
                lemma_finished_is_final(after, events_of(rest));
            },
            Bounce::Scattered { material_handle } => {
                let hit = entered.next(Event::Hit { material_handle });
                let after = hit.next(Event::Scattered);
                assert(head.skip(1) =~= seq![Event::Scattered]);
                assert(head.skip(1).skip(1) =~= Seq::<Event>::empty());
                assert(entered.run(head) == hit.run(head.skip(1)));
                assert(hit.run(head.skip(1)) == after.run(head.skip(1).skip(1)));
                assert(entered.run(head) == after);
                assert(after == PathModel::entered(materials, (depth - 1) as nat, made + 1));
                lemma_run_follows_trace(materials, (depth - 1) as nat, made + 1, rest);
            },
        }
    }
}

/// The integrator as a whole: a fresh path with a budget of `max_depth`, fed
/// what the scene answers, ends exactly as the recursive definition says, with
/// one attenuation pending for each bounce it made.
pub proof fn lemma_path_follows_trace(max_depth: nat, materials: nat, bounces: Seq<Bounce>)
    requires
        materials_exist(bounces, materials),
    ensures
        trace(max_depth, bounces) matches Some((end, scattered)) ==> {
            let path = PathModel::start(max_depth, materials).run(events_of(bounces));
            &&& path.step == Step::Finished { end }
            &&& path.bounces == scattered
            &&& path.pending == scattered
            &&& scattered <= max_depth
        },
{
    lemma_run_follows_trace(materials, max_depth, 0, bounces);
}

/// Applying an attenuation keeps a path well formed and over, and leaves one
/// attenuation fewer pending; the attenuations come latest first.
pub proof fn lemma_attenuations_come_latest_first(path: PathModel)
    requires
        path.inv(),
        path.finished(),
        path.pending > 0,
    ensures
        path.next_attenuation() == Some((path.pending - 1) as nat),
        path.attenuated().inv(),
        path.attenuated().finished(),
        path.attenuated().pending == path.pending - 1,
        path.attenuated().step == path.step,
        path.attenuated().bounces == path.bounces,
{
}

/// The colour that the state machine arrives at is the colour of the
/// recursive definition, whatever the product of a colour and an attenuation
/// is: a path that is over with the attenuations before `path.pending`
/// pending, and whose colour so far is that of the recursion from there on,
/// unwinds to the colour of the whole recursion.
pub proof fn lemma_unwinding_continues_recursion<C>(
    path: PathModel,
    end_colour: C,
    attenuations: Seq<C>,
    times: spec_fn(C, C) -> C,
)
    requires
        path.finished(),
        path.pending <= attenuations.len(),
    ensures
        unwound_colour(
            path,
            recursive_colour(end_colour, attenuations.skip(path.pending as int), times),
            attenuations,
            times,
        ) == recursive_colour(end_colour, attenuations, times),
    decreases path.pending,
{
    let here = attenuations.skip(path.pending as int);
    if path.pending == 0 {
        assert(here =~= attenuations);
    } else {
        let before = attenuations.skip(path.pending - 1);
        assert(before.skip(1) =~= here);
        assert(before[0] == attenuations[path.pending - 1]);
        lemma_unwinding_continues_recursion(path.attenuated(), end_colour, attenuations, times);
    }
}

/// A path that is over with the attenuation of every bounce pending turns
/// the colour of its end into the colour of the recursive definition.
pub proof fn lemma_unwinding_follows_recursion<C>(
    path: PathModel,
    end_colour: C,
    attenuations: Seq<C>,
    times: spec_fn(C, C) -> C,
)
    requires
        path.finished(),
        path.pending == attenuations.len(),
    ensures
        unwound_colour(path, end_colour, attenuations, times) == recursive_colour(
            end_colour,
            attenuations,
            times,
        ),
{
    assert(attenuations.skip(path.pending as int) =~= Seq::<C>::empty());
    lemma_unwinding_continues_recursion(path, end_colour, attenuations, times);
}

} // verus!
