//! The colours of the waterfall.

use crate::number::{
    add_of, defined_everywhere, div_of, from_of, greater, greater_of, le_of, lesser, lesser_of,
    lt_of, mul_of, ratio, ratio_of, sub_of, Number, Scale,
};
use vstd::prelude::*;

verus! {

/// A colour at a position of a gradient.
pub struct Stop<V> {
    /// Red, green and blue.
    pub color: [V; 3],
    pub position: V,
}

/// The gradient of the waterfall in thousandths: red, green, blue and position of each stop.
pub open spec fn gradient_table() -> Seq<[u16; 4]> {
    seq![
        [0, 0, 0, 0],
        [0, 200, 230, 210],
        [0, 300, 600, 325],
        [510, 360, 1000, 440],
        [1000, 550, 0, 690],
        [1000, 860, 690, 850],
        [1000, 1000, 1000, 1000],
        [1000, 1000, 1000, 10010],
    ]
}

/// `r` is the stop with these thousandths.
pub open spec fn stop_of<V: Number>(thousandths: [u16; 4], r: Stop<V>) -> bool {
    &&& ratio_of(thousandths[0], 1000, r.color[0])
    &&& ratio_of(thousandths[1], 1000, r.color[1])
    &&& ratio_of(thousandths[2], 1000, r.color[2])
    &&& ratio_of(thousandths[3], 1000, r.position)
}

/// `r` is the gradient of the waterfall.
pub open spec fn gradient_of<V: Number>(r: Seq<Stop<V>>) -> bool {
    &&& r.len() == gradient_table().len()
    &&& forall|i: int| 0 <= i < r.len() ==> stop_of(gradient_table()[i], #[trigger] r[i])
}

/// `x` lies between stop `i` and the next.
pub open spec fn between<V: Number>(stops: Seq<Stop<V>>, x: V, i: int) -> bool {
    le_of(stops[i].position, x, true) && lt_of(x, stops[i + 1].position, true)
}

/// `x` was found not to lie between stop `i` and the next.
pub open spec fn outside<V: Number>(stops: Seq<Stop<V>>, x: V, i: int) -> bool {
    le_of(stops[i].position, x, false) || lt_of(x, stops[i + 1].position, false)
}

/// `x` lies between stop `i` and the next, and between no two stops before.
pub open spec fn first_between<V: Number>(stops: Seq<Stop<V>>, x: V, i: int) -> bool {
    &&& 0 <= i < stops.len() - 1
    &&& between(stops, x, i)
    &&& forall|j: int| 0 <= j < i ==> #[trigger] outside(stops, x, j)
}

/// `x` lies between no two stops.
pub open spec fn nowhere_between<V: Number>(stops: Seq<Stop<V>>, x: V) -> bool {
    forall|j: int| 0 <= j < stops.len() - 1 ==> #[trigger] outside(stops, x, j)
}

/// `r` is how far `x` is from `low` to `high`: 0 at `low`, 1 at `high`.
pub open spec fn share_of<V: Number>(x: V, low: V, high: V, r: V) -> bool {
    exists|above: V, width: V|
        #![trigger sub_of(x, low, above), sub_of(high, low, width)]
        sub_of(x, low, above) && sub_of(high, low, width) && div_of(above, width, r)
}

/// `r` is the value this share of the way from `low` to `high`.
pub open spec fn interpolated_of<V: Number>(low: V, high: V, share: V, r: V) -> bool {
    exists|width: V, part: V|
        #![trigger sub_of(high, low, width), add_of(low, part, r)]
        sub_of(high, low, width) && mul_of(width, share, part) && add_of(low, part, r)
}

/// `r` is the colour at `x` between stop `i` and the next.
pub open spec fn mixed_at<V: Number>(stops: Seq<Stop<V>>, x: V, i: int, r: [V; 3]) -> bool {
    exists|share: V| #[trigger]
        share_of(x, stops[i].position, stops[i + 1].position, share) && forall|k: int|
            0 <= k < 3 ==> interpolated_of(
                stops[i].color[k],
                stops[i + 1].color[k],
                share,
                #[trigger] r[k],
            )
}

/// `r` is the colour of the gradient at `x`, or nothing where `x` lies between no two stops.
pub open spec fn mix_of<V: Number>(x: V, stops: Seq<Stop<V>>, r: Option<[V; 3]>) -> bool {
    match r {
        Some(color) => exists|i: int| #[trigger]
            first_between(stops, x, i) && mixed_at(stops, x, i, color),
        None => nowhere_between(stops, x),
    }
}

/// `r` is `x` held between 0 and 10: first to at least 0, then to at most 10.
pub open spec fn level_of<V: Number>(x: V, r: V) -> bool {
    exists|zero: V, ten: V, raised: V|
        #![trigger from_of(10, ten), greater_of(x, zero, raised)]
        from_of(0, zero) && from_of(10, ten) && greater_of(x, zero, raised) && lesser_of(
            raised,
            ten,
            r,
        )
}

/// `r` is the byte of a colour channel: the channel held between 0 and 1, times 255, as `to_byte`
/// makes a byte of it.
pub open spec fn byte_of<V: Number, B: Fn(V) -> u8>(channel: V, to_byte: B, r: u8) -> bool {
    exists|zero: V, one: V, most: V, raised: V, held: V, scaled: V|
        #![trigger
            greater_of(channel, zero, raised),
            lesser_of(raised, one, held),
            from_of(255, most),
            call_ensures(to_byte, (scaled,), r),
        ]
        from_of(0, zero) && from_of(1, one) && from_of(255, most) && greater_of(
            channel,
            zero,
            raised,
        ) && lesser_of(raised, one, held) && mul_of(held, most, scaled) && call_ensures(
            to_byte,
            (scaled,),
            r,
        )
}

/// `r` is the colour of `x` in the waterfall, or nothing where the gradient has none.
pub open spec fn color_of<V: Number, B: Fn(V) -> u8>(
    x: V,
    stops: Seq<Stop<V>>,
    to_byte: B,
    r: Option<[u8; 3]>,
) -> bool {
    exists|level: V, mixed: Option<[V; 3]>|
        #![trigger level_of(x, level), mix_of(level, stops, mixed)]
        level_of(x, level) && mix_of(level, stops, mixed) && match (mixed, r) {
            (Some(color), Some(bytes)) => forall|k: int|
                0 <= k < 3 ==> byte_of(color[k], to_byte, #[trigger] bytes[k]),
            (None, None) => true,
            _ => false,
        }
}

fn stop<V: Number>(red: u16, green: u16, blue: u16, position: u16) -> (r: Stop<V>)
    requires
        defined_everywhere::<V>(),
    ensures
        stop_of([red, green, blue, position], r),
{
    Stop {
        color: [ratio(red, 1000), ratio(green, 1000), ratio(blue, 1000)],
        position: ratio(position, 1000),
    }
}

/// The gradient of the waterfall: from black over blue, violet and orange to white.
pub fn gradient<V: Number>() -> (r: Vec<Stop<V>>)
    requires
        defined_everywhere::<V>(),
    ensures
        gradient_of(r@),
{
    vec![
        stop(0, 0, 0, 0),
        stop(0, 200, 230, 210),
        stop(0, 300, 600, 325),
        stop(510, 360, 1000, 440),
        stop(1000, 550, 0, 690),
        stop(1000, 860, 690, 850),
        stop(1000, 1000, 1000, 1000),
        stop(1000, 1000, 1000, 10010),
    ]
}

fn interpolate<V: Number>(low: V, high: V, share: V) -> (r: V)
    requires
        defined_everywhere::<V>(),
    ensures
        interpolated_of(low, high, share, r),
{
    let width = high - low;
    let part = width * share;
    let r = low + part;
    assert(sub_of(high, low, width) && mul_of(width, share, part) && add_of(low, part, r));
    r
}

/// The colour of the gradient `stops` at `x`: the first two neighbouring stops around `x` are
/// mixed. Nothing where no two stops are around `x`.
pub fn mix<V: Number>(x: V, stops: &[Stop<V>]) -> (r: Option<[V; 3]>)
    requires
        defined_everywhere::<V>(),
    ensures
        mix_of(x, stops@, r),
{
    let mut i: usize = 0;
    while stops.len() > 1 && i < stops.len() - 1
        invariant
            defined_everywhere::<V>(),
            forall|j: int| 0 <= j < i ==> #[trigger] outside(stops@, x, j),
        decreases stops.len() - i,
    {
        let low = &stops[i];
        let high = &stops[i + 1];
        let from_low = low.position <= x;
        let below_high = x < high.position;
        assert(le_of(stops@[i as int].position, x, from_low));
        assert(lt_of(x, stops@[i + 1].position, below_high));
        if from_low && below_high {
            let above = x - low.position;
            let width = high.position - low.position;
            let share = above / width;
            assert(share_of(x, low.position, high.position, share)) by {
                assert(sub_of(x, low.position, above) && sub_of(
                    high.position,
                    low.position,
                    width,
                ));
            }
            let r = [
                interpolate(low.color[0], high.color[0], share),
                interpolate(low.color[1], high.color[1], share),
                interpolate(low.color[2], high.color[2], share),
            ];
            assert(mixed_at(stops@, x, i as int, r));
            assert(first_between(stops@, x, i as int));
            return Some(r);
        }
        assert(outside(stops@, x, i as int));
        i += 1;
    }
    None
}

fn level<V: Number>(x: V) -> (r: V)
    ensures
        level_of(x, r),
{
    let zero = V::from(0u16);
    let ten = V::from(10u16);
    let raised = greater(x, zero);
    let r = lesser(raised, ten);
    assert(from_of(10, ten) && greater_of(x, zero, raised));
    r
}

fn byte<V: Number, B: Fn(V) -> u8>(channel: V, to_byte: &B) -> (r: u8)
    requires
        defined_everywhere::<V>(),
        forall|v: V| #[trigger] call_requires(*to_byte, (v,)),
    ensures
        byte_of(channel, *to_byte, r),
{
    let zero = V::from(0u16);
    let one = V::from(1u16);
    let most = V::from(255u16);
    let raised = greater(channel, zero);
    let held = lesser(raised, one);
    let scaled = held * most;
    let r: u8 = to_byte(scaled);
    assert(greater_of(channel, zero, raised) && lesser_of(raised, one, held));
    assert(from_of(0, zero) && from_of(1, one) && from_of(255, most));
    assert(mul_of(held, most, scaled));
    assert(call_ensures(*to_byte, (scaled,), r));
    r
}

/// The colour of `x` in the gradient `stops`: `x` is held between 0 and 10, mixed, and turned into
/// bytes. Nothing where the gradient has no colour for it.
pub fn gradient_color<V: Number, B: Fn(V) -> u8>(
    x: V,
    stops: &[Stop<V>],
    to_byte: &B,
) -> (r: Option<[u8; 3]>)
    requires
        defined_everywhere::<V>(),
        forall|v: V| #[trigger] call_requires(*to_byte, (v,)),
    ensures
        color_of(x, stops@, *to_byte, r),
{
    let held = level(x);
    let mixed = mix(held, stops);
    assert(level_of(x, held) && mix_of(held, stops@, mixed));
    match mixed {
        Some(color) => {
            let bytes: [u8; 3] = [
                byte(color[0], to_byte),
                byte(color[1], to_byte),
                byte(color[2], to_byte),
            ];
            Some(bytes)
        },
        None => None,
    }
}

/// `r` is the colour of `x` in the waterfall.
pub open spec fn waterfall_color_of<V: Number, B: Fn(V) -> u8>(
    x: V,
    to_byte: B,
    r: Option<[u8; 3]>,
) -> bool {
    exists|stops: Seq<Stop<V>>| #[trigger] gradient_of(stops) && color_of(x, stops, to_byte, r)
}

/// The colour of `x` in the waterfall. There is one for every value, unless the numbers of `V` are
/// too coarse for the gradient.
pub fn waterfall_color<V: Number, B: Fn(V) -> u8>(x: V, to_byte: &B) -> (r: Option<[u8; 3]>)
    requires
        defined_everywhere::<V>(),
        forall|v: V| #[trigger] call_requires(*to_byte, (v,)),
    ensures
        waterfall_color_of(x, *to_byte, r),
{
    let stops = gradient();
    let r = gradient_color(x, stops.as_slice(), to_byte);
    assert(gradient_of(stops@));
    r
}

/// Every number from the first stop up to, but not including, the last one has a colour: the stops
/// leave no gaps, in whatever order they stand between.
pub proof fn law_gradient_has_no_gaps<V: Number>(scale: Scale<V>, stops: Seq<Stop<V>>, x: V)
    requires
        scale.followed(),
        forall|i: int| 0 <= i < stops.len() ==> scale.has((#[trigger] stops[i]).position),
        stops.len() > 1,
        scale.at_most(stops.first().position, x),
        scale.below(x, stops.last().position),
    ensures
        !mix_of(x, stops, None),
{
    if nowhere_between(stops, x) {
        lemma_stops_at_most(scale, stops, x, stops.len() - 2);
        assert(outside(stops, x, stops.len() - 2));
    }
}

proof fn lemma_stops_at_most<V: Number>(scale: Scale<V>, stops: Seq<Stop<V>>, x: V, i: int)
    requires
        scale.followed(),
        forall|i: int| 0 <= i < stops.len() ==> scale.has((#[trigger] stops[i]).position),
        scale.at_most(stops.first().position, x),
        nowhere_between(stops, x),
        0 <= i < stops.len(),
    ensures
        scale.at_most(stops[i].position, x),
    decreases i,
{
    if i > 0 {
        lemma_stops_at_most(scale, stops, x, i - 1);
        assert(outside(stops, x, i - 1));
        assert(scale.has(stops[i].position));
    }
}

/// Numbers of `V` are fine enough for the gradient: its stops are numbers, the first is at 0 and
/// the last is above 10.
pub open spec fn resolves_gradient<V: Number>(scale: Scale<V>) -> bool {
    &&& forall|n: u16, r: V| #[trigger] ratio_of(n, 1000, r) ==> scale.has(r)
    &&& forall|r: V| #[trigger] ratio_of(0, 1000, r) ==> (scale.place)(r) == Some(0 as real)
    &&& forall|r: V| #[trigger] ratio_of(10010, 1000, r) ==> scale.at(r) > 10 as real
}

/// Every value has a colour in the waterfall, however large or small it is, and even where it is
/// not a number.
pub proof fn law_every_value_has_a_color<V: Number, B: Fn(V) -> u8>(
    scale: Scale<V>,
    x: V,
    to_byte: B,
)
    requires
        scale.followed(),
        scale.counts(),
        resolves_gradient(scale),
    ensures
        !waterfall_color_of(x, to_byte, None),
{
    if waterfall_color_of(x, to_byte, None) {
        let stops = choose|stops: Seq<Stop<V>>| #[trigger]
            gradient_of(stops) && color_of(x, stops, to_byte, None);
        lemma_color_in_gradient(scale, x, stops, to_byte);
    }
}

proof fn lemma_color_in_gradient<V: Number, B: Fn(V) -> u8>(
    scale: Scale<V>,
    x: V,
    stops: Seq<Stop<V>>,
    to_byte: B,
)
    requires
        scale.followed(),
        scale.counts(),
        resolves_gradient(scale),
        gradient_of(stops),
    ensures
        !color_of(x, stops, to_byte, None),
{
    if color_of(x, stops, to_byte, None) {
        let (level, mixed) = choose|level: V, mixed: Option<[V; 3]>|
            #![trigger level_of(x, level), mix_of(level, stops, mixed)]
            level_of(x, level) && mix_of(level, stops, mixed) && mixed is None;
        assert(stop_of(gradient_table()[0], stops[0]));
        assert(stop_of(gradient_table()[7], stops[7]));
        assert forall|i: int| 0 <= i < stops.len() implies scale.has(
            (#[trigger] stops[i]).position,
        ) by {
            assert(stop_of(gradient_table()[i], stops[i]));
        }
        assert(scale.has(level) && 0 as real <= scale.at(level) <= 10 as real);
        law_gradient_has_no_gaps(scale, stops, level);
    }
}

}
