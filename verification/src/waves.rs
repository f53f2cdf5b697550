//! The shells that spread from the nucleus: which ones there are, in what order.
//!
//! Lengths, speeds and colors are 32-bit floats. The list carries their bit patterns
//! and leaves arithmetic on them to its caller.

use crate::floats::ZERO_BITS;
use vstd::prelude::*;

verus! {

/// How many shells are drawn at the most.
pub const MAX_WAVES: u32 = 64;

/// Three floats by their bit patterns.
#[derive(Clone, Copy, PartialEq, Eq, Debug)]
pub struct Triple {
    pub x: u32,
    pub y: u32,
    pub z: u32,
}

/// A shell that spreads from `origin` until it reaches `max_radius`.
#[derive(Clone, Copy, PartialEq, Eq, Debug)]
pub struct Wave {
    pub origin: Triple,
    pub radius: u32,
    pub speed: u32,
    pub max_radius: u32,
    pub color: Triple,
    pub age: u32,
    pub alive: bool,
}

/// What became of a shell in one step of time.
#[derive(Clone, Copy, PartialEq, Eq, Debug)]
pub struct WaveStep {
    pub radius: u32,
    pub age: u32,
    pub alive: bool,
}

/// What the shader is told of a shell.
#[derive(Clone, Copy, PartialEq, Eq, Debug)]
pub struct WaveRow {
    pub origin: Triple,
    pub radius: u32,
    pub color: Triple,
    pub age: u32,
}

/// A shell at its start.
pub open spec fn fresh_wave(origin: Triple, color: Triple, max_radius: u32, speed: u32) -> Wave {
    Wave {
        origin,
        radius: ZERO_BITS,
        speed,
        max_radius,
        color,
        age: ZERO_BITS,
        alive: true,
    }
}

/// The shells after one more: where the list is full, the oldest makes room.
pub open spec fn emitted(waves: Seq<Wave>, w: Wave) -> Seq<Wave> {
    if waves.len() >= MAX_WAVES {
        waves.drop_first().push(w)
    } else {
        waves.push(w)
    }
}

/// A shell after a step; one that is no longer alive stays as it is.
pub open spec fn stepped(w: Wave, step: WaveStep) -> Wave {
    if w.alive {
        Wave { radius: step.radius, age: step.age, alive: step.alive, ..w }
    } else {
        w
    }
}

/// All shells after a step, the dead ones among them.
pub open spec fn all_stepped(waves: Seq<Wave>, steps: Seq<WaveStep>) -> Seq<Wave> {
    Seq::new(waves.len(), |i: int| stepped(waves[i], steps[i]))
}

/// Tells the shells that go on.
pub open spec fn goes_on() -> spec_fn(Wave) -> bool {
    |w: Wave| w.alive
}

/// The shells that go on after a step, in their order.
pub open spec fn waves_after(waves: Seq<Wave>, steps: Seq<WaveStep>) -> Seq<Wave> {
    all_stepped(waves, steps).filter(goes_on())
}

/// What the shader is told of a shell.
pub open spec fn row_of(w: Wave) -> WaveRow {
    WaveRow { origin: w.origin, radius: w.radius, color: w.color, age: w.age }
}

/// What the shader is told of the shells: the first ones, as many as it has room for.
pub open spec fn wave_rows(waves: Seq<Wave>) -> Seq<WaveRow> {
    Seq::new(
        if waves.len() <= MAX_WAVES {
            waves.len()
        } else {
            MAX_WAVES as nat
        },
        |i: int| row_of(waves[i]),
    )
}

/// Starts a shell.
pub fn emit(waves: &mut Vec<Wave>, origin: Triple, color: Triple, max_radius: u32, speed: u32)
    ensures
        final(waves)@ == emitted(old(waves)@, fresh_wave(origin, color, max_radius, speed)),
{
    if waves.len() >= MAX_WAVES as usize {
        waves.remove(0);
        assert(waves@ =~= old(waves)@.drop_first());
    }
    waves.push(
        Wave {
            origin,
            radius: ZERO_BITS,
            speed,
            max_radius,
            color,
            age: ZERO_BITS,
            alive: true,
        },
    );
}

/// Lets one step of time pass and drops the shells that ended.
pub fn advance(waves: &mut Vec<Wave>, steps: &Vec<WaveStep>)
    requires
        steps@.len() == old(waves)@.len(),
    ensures
        final(waves)@ == waves_after(old(waves)@, steps@),
{
    let ghost all = all_stepped(waves@, steps@);
    let mut kept: Vec<Wave> = Vec::new();
    assert(all.take(0).filter(goes_on()) =~= Seq::empty()) by {
        reveal(Seq::filter);
    }
    for i in 0..waves.len()
        invariant
            waves@ == old(waves)@,
            steps@.len() == waves@.len(),
            all == all_stepped(waves@, steps@),
            kept@ == all.take(i as int).filter(goes_on()),
    {
        let mut w: Wave = waves[i];
        if w.alive {
            w.radius = steps[i].radius;
            w.age = steps[i].age;
            w.alive = steps[i].alive;
        }
        assert(w == all[i as int]);
        proof {
            reveal(Seq::filter);
            assert(all.take(i + 1).drop_last() =~= all.take(i as int));
        }
        if w.alive {
            kept.push(w);
        }
    }
    assert(all.take(waves@.len() as int) =~= all);
    *waves = kept;
}

/// What the shader is told of the shells.
pub fn rows(waves: &Vec<Wave>) -> (out: Vec<WaveRow>)
    ensures
        out@ == wave_rows(waves@),
{
    let count: usize = if waves.len() <= MAX_WAVES as usize {
        waves.len()
    } else {
        MAX_WAVES as usize
    };
    let mut out: Vec<WaveRow> = Vec::new();
    for i in 0..count
        invariant
            count == wave_rows(waves@).len(),
            count <= waves.len(),
            out@ == wave_rows(waves@).take(i as int),
    {
        let w: Wave = waves[i];
        out.push(WaveRow { origin: w.origin, radius: w.radius, color: w.color, age: w.age });
        assert(out@ =~= wave_rows(waves@).take(i + 1));
    }
    assert(wave_rows(waves@).take(count as int) =~= wave_rows(waves@));
    out
}

/// The list that a series of new shells leaves behind.
pub open spec fn emitted_all(ws: Seq<Wave>) -> Seq<Wave>
    decreases ws.len(),
{
    if ws.len() == 0 {
        Seq::empty()
    } else {
        emitted(emitted_all(ws.drop_last()), ws.last())
    }
}

/// However many shells were started, the list holds the youngest ones, in the order
/// in which they were started and no more than can be drawn.
pub proof fn law_youngest_waves_stay(ws: Seq<Wave>)
    ensures
        emitted_all(ws) == (if ws.len() <= MAX_WAVES {
            ws
        } else {
            ws.skip(ws.len() - MAX_WAVES)
        }),
        emitted_all(ws).len() <= MAX_WAVES,
    decreases ws.len(),
{
    if ws.len() > 0 {
        law_youngest_waves_stay(ws.drop_last());
        assert(ws =~= ws.drop_last().push(ws.last()));
        if ws.len() > MAX_WAVES {
            let before = emitted_all(ws.drop_last());
            assert(before.len() == MAX_WAVES);
            assert(emitted_all(ws) =~= ws.skip(ws.len() - MAX_WAVES));
        } else {
            assert(emitted_all(ws) =~= ws);
        }
    } else {
        assert(emitted_all(ws) =~= ws);
    }
}

/// After a step no shell is left that ended, none is lost that goes on, and none
/// comes up that was not there.
pub proof fn law_only_ended_waves_go(waves: Seq<Wave>, steps: Seq<WaveStep>)
    requires
        steps.len() == waves.len(),
    ensures
        waves_after(waves, steps).len() <= waves.len(),
        forall|k: int|
            0 <= k < waves_after(waves, steps).len() ==> (#[trigger] waves_after(
                waves,
                steps,
            )[k]).alive,
        forall|w: Wave| #[trigger]
            waves_after(waves, steps).contains(w) <==> all_stepped(waves, steps).contains(w)
                && w.alive,
{
    let all = all_stepped(waves, steps);
    all.lemma_filter_len(goes_on());
    assert forall|k: int| 0 <= k < waves_after(waves, steps).len() implies (#[trigger] waves_after(
        waves,
        steps,
    )[k]).alive by {
        all.lemma_filter_pred(goes_on(), k);
    }
    assert forall|w: Wave| #[trigger] waves_after(waves, steps).contains(w) <==> all.contains(w)
        && w.alive by {
        if waves_after(waves, steps).contains(w) {
            let k = choose|k: int|
                0 <= k < waves_after(waves, steps).len() && waves_after(waves, steps)[k] == w;
            all.lemma_filter_contains_rev(goes_on(), w);
        }
        if all.contains(w) && w.alive {
            let i = choose|i: int| 0 <= i < all.len() && all[i] == w;
            all.lemma_filter_contains(goes_on(), i);
        }
    }
}

/// A step of time treats each shell by itself: one that was alive and is alive after its
/// step goes on with the step's radius and age and all else as it was, any other is gone,
/// and what becomes of the shells before it does not depend on it.
pub proof fn law_waves_step_one_by_one(
    waves: Seq<Wave>,
    steps: Seq<WaveStep>,
    w: Wave,
    step: WaveStep,
)
    requires
        steps.len() == waves.len(),
    ensures
        waves.len() == 0 ==> waves_after(waves, steps).len() == 0,
        w.alive && step.alive ==> waves_after(waves.push(w), steps.push(step)) == waves_after(
            waves,
            steps,
        ).push(
            Wave {
                origin: w.origin,
                radius: step.radius,
                speed: w.speed,
                max_radius: w.max_radius,
                color: w.color,
                age: step.age,
                alive: true,
            },
        ),
        !(w.alive && step.alive) ==> waves_after(waves.push(w), steps.push(step)) == waves_after(
            waves,
            steps,
        ),
{
    reveal(Seq::filter);
    let all = all_stepped(waves.push(w), steps.push(step));
    assert(all.drop_last() =~= all_stepped(waves, steps));
    assert(all.last() == stepped(w, step));
    if waves.len() == 0 {
        assert(all_stepped(waves, steps) =~= Seq::<Wave>::empty());
    }
}

/// A new shell comes last and starts from nothing: no radius, no age, alive, with the
/// origin, color, reach and speed that it was given. The others stay in their order; only
/// where there are as many as can be drawn does the first one go.
pub proof fn law_new_wave_comes_last(
    waves: Seq<Wave>,
    origin: Triple,
    color: Triple,
    max_radius: u32,
    speed: u32,
)
    ensures
        ({
            let after = emitted(waves, fresh_wave(origin, color, max_radius, speed));
            let w = after[after.len() - 1];
            &&& after.len() > 0
            &&& w.origin == origin && w.color == color
            &&& w.max_radius == max_radius && w.speed == speed
            &&& w.radius == 0 && w.age == 0 && w.alive
            &&& waves.len() < 64 ==> after.len() == waves.len() + 1 && forall|i: int|
                0 <= i < waves.len() ==> #[trigger] after[i] == waves[i]
            &&& waves.len() >= 64 ==> after.len() == waves.len() && forall|i: int|
                0 <= i < waves.len() - 1 ==> #[trigger] after[i] == waves[i + 1]
        }),
{
}

/// The shader is told origin, radius, color and age of the first shells, up to sixty-four.
pub proof fn law_rows_tell_the_waves(waves: Seq<Wave>, i: int)
    requires
        0 <= i < waves.len(),
        i < 64,
    ensures
        wave_rows(waves).len() == if waves.len() < 64 {
            waves.len()
        } else {
            64
        },
        wave_rows(waves)[i].origin == waves[i].origin,
        wave_rows(waves)[i].radius == waves[i].radius,
        wave_rows(waves)[i].color == waves[i].color,
        wave_rows(waves)[i].age == waves[i].age,
{
}

} // verus!
