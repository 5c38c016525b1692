//! The rules of the mix written out in real numbers.

use crate::controls::Control;
use crate::engine::{normalized_of, rebalance, rebalanced_of, Generator};
use crate::exact::{
    law_moving_a_volume_keeps_the_mix_whole, law_normalizing_makes_the_mix_whole,
};
use crate::number::{Number, Scale};
use crate::panel::{changed_of, in_mix, moved_of, settled_of, with_engine, Move};
use crate::run::{law_an_unmoved_pass_keeps_the_engine, Run};
use vstd::prelude::*;

verus! {

/// Where one volume of a mix that is whole is moved up by `d`, the smaller of the other two gives
/// up half of `d`, or all it has where that is less, and the larger gives up the rest. Where it is
/// moved down, both gain half. All three are from 0 to 1, and their sum stays 1.
pub proof fn law_the_others_make_room<V: Number>(
    scale: Scale<V>,
    previous: V,
    value: V,
    one: V,
    two: V,
    r: (V, V),
)
    requires
        scale.exact(),
        scale.has(previous) && scale.has(value) && scale.has(one) && scale.has(two),
        0 as real <= scale.at(previous),
        0 as real <= scale.at(one),
        0 as real <= scale.at(two),
        scale.at(previous) + scale.at(one) + scale.at(two) == 1 as real,
        0 as real <= scale.at(value) <= 1 as real,
        call_ensures(rebalance::<V>, (previous, value, one, two), r),
    ensures
        ({
            let (u, v) = (scale.at(previous), scale.at(value));
            let (a, b) = (scale.at(one), scale.at(two));
            let (x, y) = (scale.at(r.0), scale.at(r.1));
            let d = v - u;
            &&& scale.has(r.0) && scale.has(r.1)
            &&& 0 as real <= x <= 1 as real
            &&& 0 as real <= y <= 1 as real
            &&& v + x + y == 1 as real
            &&& a <= b && d <= a + a ==> x == a - d / 2 as real && y == b - d / 2 as real
            &&& a <= b && d > a + a ==> x == 0 as real && y == b - (d - a)
            &&& b <= a && d <= b + b ==> y == b - d / 2 as real && x == a - d / 2 as real
            &&& b <= a && d > b + b ==> y == 0 as real && x == a - (d - b)
        }),
{
    law_moving_a_volume_keeps_the_mix_whole(scale, previous, value, one, two, r.0, r.1);
}

/// The mix of a generator.
spec fn volumes<V, L, F, R>(generator: Generator<V, L, F, R>) -> (V, V, V) {
    (
        generator.engine.intake_volume,
        generator.engine.exhaust_volume,
        generator.engine.engine_vibrations_volume,
    )
}

/// The mix stays at the controls that are not its own, and at its own that were not moved.
proof fn lemma_mix_step<V: Number, L: Clone, F, R, C: Fn(usize) -> V>(
    run: Run<V, L, F, R>,
    to_value: C,
    n: int,
) -> (moved: Generator<V, L, F, R>)
    requires
        run.complete(to_value),
        0 <= n < run.controls.len(),
    ensures
        moved_of(
            run.controls[n],
            run.moves[n],
            run.states[n],
            run.passes[n],
            moved,
            run.passes[n + 1],
        ),
        !(in_mix(run.controls[n]) && run.moves[n] is Value) ==> volumes(moved) == volumes(
            run.states[n],
        ),
        settled_of(
            run.controls[n],
            to_value,
            moved.engine,
            run.passes[n + 1],
            run.states[n + 1].engine,
        ),
        n != 5 ==> volumes(run.states[n + 1]) == volumes(moved),
        n == 5 ==> run.controls[n] is EngineVibrationsVolume,
        n == 4 ==> run.controls[n] is ExhaustVolume,
        n == 3 ==> run.controls[n] is IntakeVolume,
        n < 3 || n > 5 ==> !in_mix(run.controls[n]),
{
    assert(run.stepped(to_value, n));
    choose|moved: Generator<V, L, F, R>|
        {
            &&& #[trigger] moved_of(
                run.controls[n],
                run.moves[n],
                run.states[n],
                run.passes[n],
                moved,
                run.passes[n + 1],
            )
            &&& settled_of(
                run.controls[n],
                to_value,
                moved.engine,
                run.passes[n + 1],
                run.states[n + 1].engine,
            )
            &&& run.states[n + 1] == with_engine(moved, run.states[n + 1].engine)
        }
}

proof fn lemma_mix_stays<V: Number, L: Clone, F, R, C: Fn(usize) -> V>(
    run: Run<V, L, F, R>,
    to_value: C,
    n: int,
    k: int,
)
    requires
        run.complete(to_value),
        0 <= n <= k <= run.controls.len(),
        k <= 3 || n >= 6,
    ensures
        volumes(run.states[k]) == volumes(run.states[n]),
    decreases k - n,
{
    if n < k {
        lemma_mix_stays(run, to_value, n, k - 1);
        let moved = lemma_mix_step(run, to_value, k - 1);
    }
}

/// A pass over a mix that is whole in which one of the three volumes is moved: that one stands
/// where it was moved to, and the other two have made room as above. `k` is the place of the
/// slider.
pub proof fn law_one_volume_moved_in_a_pass<V: Number, L: Clone, F, R, C: Fn(usize) -> V>(
    run: Run<V, L, F, R>,
    to_value: C,
    scale: Scale<V>,
    k: int,
    value: V,
)
    requires
        run.complete(to_value),
        scale.exact(),
        ({
            let e = run.states.first().engine;
            scale.whole(e.intake_volume, e.exhaust_volume, e.engine_vibrations_volume)
        }),
        0 <= k < run.controls.len(),
        in_mix(run.controls[k]),
        run.moves[k] == Move::<V, L, F>::Value(value),
        scale.in_unit_interval(value),
        forall|n: int|
            0 <= n < run.controls.len() && n != k && in_mix(#[trigger] run.controls[n])
                ==> run.moves[n] is Still,
    ensures
        ({
            let (e, f) = (run.states.first().engine, run.states.last().engine);
            let v = scale.at(value);
            let (u, a, b, w, x, y) = match run.controls[k] {
                Control::IntakeVolume => (
                    scale.at(e.intake_volume),
                    scale.at(e.exhaust_volume),
                    scale.at(e.engine_vibrations_volume),
                    (scale.place)(f.intake_volume),
                    (scale.place)(f.exhaust_volume),
                    (scale.place)(f.engine_vibrations_volume),
                ),
                Control::ExhaustVolume => (
                    scale.at(e.exhaust_volume),
                    scale.at(e.intake_volume),
                    scale.at(e.engine_vibrations_volume),
                    (scale.place)(f.exhaust_volume),
                    (scale.place)(f.intake_volume),
                    (scale.place)(f.engine_vibrations_volume),
                ),
                _ => (
                    scale.at(e.engine_vibrations_volume),
                    scale.at(e.exhaust_volume),
                    scale.at(e.intake_volume),
                    (scale.place)(f.engine_vibrations_volume),
                    (scale.place)(f.exhaust_volume),
                    (scale.place)(f.intake_volume),
                ),
            };
            let d = v - u;
            &&& w == Some(v)
            &&& a <= b && d <= a + a ==> x == Some(a - d / 2 as real) && y == Some(
                b - d / 2 as real,
            )
            &&& a <= b && d > a + a ==> x == Some(0 as real) && y == Some(b - (d - a))
            &&& b <= a && d <= b + b ==> y == Some(b - d / 2 as real) && x == Some(
                a - d / 2 as real,
            )
            &&& b <= a && d > b + b ==> y == Some(0 as real) && x == Some(a - (d - b))
        }),
{
    lemma_mix_stays(run, to_value, 0, 3);
    lemma_mix_stays(run, to_value, 6, run.controls.len() as int);
    let third = lemma_mix_step(run, to_value, 3);
    let fourth = lemma_mix_step(run, to_value, 4);
    let fifth = lemma_mix_step(run, to_value, 5);
    let here = lemma_mix_step(run, to_value, k);
    assert(k == 3 || k == 4 || k == 5);
    let (e, f) = (run.states[k].engine, run.states[k + 1].engine);
    assert(volumes(run.states[k]) == volumes(run.states.first())) by {
        assert(k > 3 ==> run.moves[3] is Still) by {
            let c = run.controls[3];
        }
        assert(k > 4 ==> run.moves[4] is Still) by {
            let c = run.controls[4];
        }
    }
    let moved = if k == 3 {
        third
    } else if k == 4 {
        fourth
    } else {
        fifth
    };
    assert(changed_of(
        run.controls[k],
        value,
        run.states[k],
        run.passes[k],
        moved,
        run.passes[k + 1],
    ));
    let (p, q, r) = (e.intake_volume, e.exhaust_volume, e.engine_vibrations_volume);
    let (x, y, z) = volumes(moved);
    if k == 3 {
        law_moving_a_volume_keeps_the_mix_whole(scale, p, value, q, r, y, z);
    } else if k == 4 {
        law_moving_a_volume_keeps_the_mix_whole(scale, q, value, p, r, x, z);
    } else {
        law_moving_a_volume_keeps_the_mix_whole(scale, r, value, q, p, y, x);
    }
    assert(volumes(fifth) == volumes(moved)) by {
        assert(k < 4 ==> run.moves[4] is Still) by {
            let c = run.controls[4];
        }
        assert(k < 5 ==> run.moves[5] is Still) by {
            let c = run.controls[5];
        }
    }
    let last = volumes(run.states[6]);
    law_normalizing_makes_the_mix_whole(scale, x, y, z, last.0, last.1, last.2);
}

/// A pass in which nothing is moved divides each volume by the sum of all, so that they sum to 1
/// and compare as before.
pub proof fn law_an_unmoved_pass_divides_by_the_sum<V: Number, L: Clone, F, R, C: Fn(usize) -> V>(
    run: Run<V, L, F, R>,
    to_value: C,
    scale: Scale<V>,
)
    requires
        run.complete(to_value),
        run.still(),
        scale.exact(),
        ({
            let e = run.states.first().engine;
            scale.sounds(e.intake_volume, e.exhaust_volume, e.engine_vibrations_volume)
        }),
    ensures
        ({
            let (e, f) = (run.states.first().engine, run.states.last().engine);
            let (a, b, c) = (
                scale.at(e.intake_volume),
                scale.at(e.exhaust_volume),
                scale.at(e.engine_vibrations_volume),
            );
            let (x, y, z) = (
                scale.at(f.intake_volume),
                scale.at(f.exhaust_volume),
                scale.at(f.engine_vibrations_volume),
            );
            &&& x * (a + b + c) == a
            &&& y * (a + b + c) == b
            &&& z * (a + b + c) == c
            &&& x + y + z == 1 as real
        }),
{
    law_an_unmoved_pass_keeps_the_engine(run, to_value);
    let (e, f) = (run.states.first().engine, run.states.last().engine);
    let (a, b, c) = (
        scale.at(e.intake_volume),
        scale.at(e.exhaust_volume),
        scale.at(e.engine_vibrations_volume),
    );
    law_normalizing_makes_the_mix_whole(
        scale,
        e.intake_volume,
        e.exhaust_volume,
        e.engine_vibrations_volume,
        f.intake_volume,
        f.exhaust_volume,
        f.engine_vibrations_volume,
    );
    let s = a + b + c;
    assert(a / s * s == a && b / s * s == b && c / s * s == c) by (nonlinear_arith)
        requires
            s > 0 as real,
    ;
}

/// What a pass makes of the mix: above the sliders of the mix it stays, each of the three sliders
/// that was moved sets its volume and moves the other two, below the last it is normalized once,
/// and from then on it stays.
pub proof fn law_the_mix_is_normalized_once<V: Number, L: Clone, F, R, C: Fn(usize) -> V>(
    run: Run<V, L, F, R>,
    to_value: C,
)
    requires
        run.complete(to_value),
    ensures
        ({
            let e = run.states.first().engine;
            let f = run.states.last().engine;
            let (a, b, c) = (e.intake_volume, e.exhaust_volume, e.engine_vibrations_volume);
            exists|a1: V, b1: V, c1: V, a2: V, b2: V, c2: V, a3: V, b3: V, c3: V|
                #![trigger same_mix(a1, b1, c1), same_mix(a2, b2, c2), same_mix(a3, b3, c3)]
                {
                    &&& run.controls[3] == Control::IntakeVolume
                    &&& match run.moves[3] {
                        Move::Value(v) => a1 == v && rebalanced_of(a, v, b, c, b1, c1),
                        _ => a1 == a && b1 == b && c1 == c,
                    }
                    &&& run.controls[4] == Control::ExhaustVolume
                    &&& match run.moves[4] {
                        Move::Value(v) => b2 == v && rebalanced_of(b1, v, a1, c1, a2, c2),
                        _ => a2 == a1 && b2 == b1 && c2 == c1,
                    }
                    &&& run.controls[5] == Control::EngineVibrationsVolume
                    &&& match run.moves[5] {
                        Move::Value(v) => c3 == v && rebalanced_of(c2, v, b2, a2, b3, a3),
                        _ => a3 == a2 && b3 == b2 && c3 == c2,
                    }
                    &&& normalized_of(
                        a3,
                        b3,
                        c3,
                        f.intake_volume,
                        f.exhaust_volume,
                        f.engine_vibrations_volume,
                    )
                }
        }),
{
    lemma_mix_stays(run, to_value, 0, 3);
    lemma_mix_stays(run, to_value, 6, run.controls.len() as int);
    let third = lemma_mix_step(run, to_value, 3);
    let fourth = lemma_mix_step(run, to_value, 4);
    let fifth = lemma_mix_step(run, to_value, 5);
    assert(run.stepped(to_value, 3) && run.stepped(to_value, 4) && run.stepped(to_value, 5));
    let (a1, b1, c1) = volumes(third);
    let (a2, b2, c2) = volumes(fourth);
    let (a3, b3, c3) = volumes(fifth);
    assert(same_mix(a1, b1, c1) && same_mix(a2, b2, c2) && same_mix(a3, b3, c3));
}

/// Three volumes, named for a quantifier.
pub open spec fn same_mix<V>(a: V, b: V, c: V) -> bool {
    true
}

}
