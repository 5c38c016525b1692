//! How the colours of the waterfall run from level to level.

use crate::color::{
    between, byte_of, color_of, first_between, gradient_of, gradient_table, interpolated_of,
    law_every_value_has_a_color, level_of, mix_of, mixed_at, resolves_gradient, share_of, stop_of,
    mix, outside, waterfall_color, waterfall_color_of, Stop,
};
use crate::exact::{held, spans};
use crate::number::{
    add_of, div_of, from_of, greater_of, lesser_of, mul_of, ratio_of, sub_of, Number, Scale,
};
use crate::rounded::Rounded;
use crate::waterfall::{image_of, pixel_of, GUIState, Image};
use vstd::prelude::*;

verus! {

/// Between two stops of a gradient each channel of the colour lies between those of the two stops,
/// and at the first of the two it is that of the first, where nothing is lost to rounding.
pub proof fn law_gradient_blends_neighbouring_stops<V: Number>(
    scale: Scale<V>,
    stops: Seq<Stop<V>>,
    x: V,
    i: int,
    r: [V; 3],
    k: int,
)
    requires
        scale.exact(),
        0 <= i < stops.len() - 1,
        scale.has(stops[i].color[k]),
        scale.has(stops[i + 1].color[k]),
        between(stops, x, i),
        mixed_at(stops, x, i, r),
        0 <= k < 3,
    ensures
        scale.has(r[k]),
        spans(scale.at(stops[i].color[k]), scale.at(stops[i + 1].color[k]), scale.at(r[k])),
        scale.at(x) == scale.at(stops[i].position) ==> scale.at(r[k]) == scale.at(
            stops[i].color[k],
        ),
{
    let share = choose|share: V| #[trigger]
        share_of(x, stops[i].position, stops[i + 1].position, share) && forall|k: int|
            0 <= k < 3 ==> interpolated_of(
                stops[i].color[k],
                stops[i + 1].color[k],
                share,
                #[trigger] r[k],
            );
    assert(interpolated_of(stops[i].color[k], stops[i + 1].color[k], share, r[k]));
    let (lo, hi, at, t) = (
        scale.at(stops[i].position),
        scale.at(stops[i + 1].position),
        scale.at(x),
        scale.at(share),
    );
    let (c, d, e) = (
        scale.at(stops[i].color[k]),
        scale.at(stops[i + 1].color[k]),
        scale.at(r[k]),
    );
    assert(scale.has(share) && t * (hi - lo) == at - lo);
    assert(e == c + (d - c) * t);
    assert(0 as real <= t <= 1 as real && (at == lo ==> t == 0 as real)) by (nonlinear_arith)
        requires
            t * (hi - lo) == at - lo,
            lo <= at,
            at < hi,
    ;
    assert(spans(c, d, e) && (t == 0 as real ==> e == c)) by (nonlinear_arith)
        requires
            e == c + (d - c) * t,
            0 as real <= t <= 1 as real,
    ;
}

/// `to_byte` gives no smaller byte for a larger number, and one byte for numbers that stand at one
/// place.
pub open spec fn rises<V: Number, B: Fn(V) -> u8>(scale: Scale<V>, to_byte: B) -> bool {
    forall|v: V, w: V, r: u8, s: u8| #[trigger]
        call_ensures(to_byte, (v,), r) && #[trigger] call_ensures(to_byte, (w,), s)
            && scale.at_most(v, w) ==> r <= s
}

impl<V: Number> Rounded<V> {
    /// Entry `k` of stop `i` of the gradient of the waterfall: red, green, blue or position.
    pub open spec fn entry(self, i: int, k: int) -> real {
        (self.round)(gradient_table()[i][k] as real / 1000 as real)
    }

    /// How far channel `k` is from stop `i` of the gradient of the waterfall to the next, and how
    /// far the position where `k` is 3.
    pub open spec fn width(self, i: int, k: int) -> real {
        (self.round)(self.entry(i + 1, k) - self.entry(i, k))
    }

    /// Channel `k` of the colour at `y` between stop `i` of the gradient of the waterfall and the
    /// next.
    pub open spec fn shade(self, y: real, i: int, k: int) -> real {
        let round = self.round;
        let share = round(round(y - self.entry(i, 3)) / self.width(i, 3));
        round(self.entry(i, k) + round(self.width(i, k) * share))
    }

    /// The gradient can be computed: its numbers are not too large, and from stop to stop red and
    /// green differ by a number.
    pub open spec fn fits_gradient(self) -> bool {
        &&& self.largest >= 10010 as real
        &&& forall|i: int, k: int|
            0 <= i < 7 && 0 <= k < 2 ==> #[trigger] self.width(i, k) == self.entry(i + 1, k)
                - self.entry(i, k)
    }

    /// Where the level of `x` stands: `x` held between 0 and 10, and 0 where `x` is not a number.
    pub open spec fn level_at(self, x: V) -> real {
        if !self.scale.has(x) || self.scale.at(x) < 0 as real {
            0 as real
        } else if self.scale.at(x) > 10 as real {
            10 as real
        } else {
            self.scale.at(x)
        }
    }

    /// `x` rounded is no further from 0 than the whole number `n`, if `x` is not.
    proof fn lemma_bounded(self, x: real, n: u16)
        requires
            self.steady(),
        ensures
            x <= n as real ==> (self.round)(x) <= n as real,
            0 as real <= x ==> 0 as real <= (self.round)(x),
    {
        reveal(Rounded::steady);
        assert(self.keeps(n as int) && self.keeps(0));
    }
}

proof fn lemma_ratio<V: Number>(rounded: Rounded<V>, n: u16, r: V)
    requires
        rounded.followed(),
        rounded.largest >= 10010 as real,
        n <= 10010,
        ratio_of(n, 1000, r),
    ensures
        (rounded.scale.place)(r) == Some((rounded.round)(n as real / 1000 as real)),
{
    let (a, b) = choose|a: V, b: V|
        #![trigger from_of(n, a), from_of(1000, b)]
        from_of(n, a) && from_of(1000, b) && div_of(a, b, r);
    assert(rounded.within(a) && rounded.within(b));
    assert(rounded.gives(n as real / 1000 as real, r));
}

proof fn lemma_table(i: int, k: int)
    requires
        0 <= i < 8,
        0 <= k < 4,
    ensures
        gradient_table()[i][k] <= if k < 3 {
            1000u16
        } else {
            10010u16
        },
{
    if i == 0 {
    } else if i == 1 {
    } else if i == 2 {
    } else if i == 3 {
    } else if i == 4 {
    } else if i == 5 {
    } else if i == 6 {
    } else {
    }
}

proof fn lemma_stop<V: Number>(rounded: Rounded<V>, stops: Seq<Stop<V>>, i: int)
    requires
        rounded.followed(),
        rounded.largest >= 10010 as real,
        gradient_of(stops),
        0 <= i < 8,
    ensures
        (rounded.scale.place)(stops[i].position) == Some(rounded.entry(i, 3)),
        forall|k: int|
            0 <= k < 3 ==> (rounded.scale.place)(#[trigger] stops[i].color[k]) == Some(
                rounded.entry(i, k),
            ),
        forall|k: int|
            0 <= k < 3 ==> 0 as real <= #[trigger] rounded.entry(i, k) <= 1 as real,
        0 as real <= rounded.entry(i, 3) <= 11 as real,
{
    let t = gradient_table()[i];
    assert(stop_of(t, stops[i]));
    lemma_table(i, 0);
    lemma_table(i, 1);
    lemma_table(i, 2);
    lemma_table(i, 3);
    lemma_ratio(rounded, t[0], stops[i].color[0]);
    lemma_ratio(rounded, t[1], stops[i].color[1]);
    lemma_ratio(rounded, t[2], stops[i].color[2]);
    lemma_ratio(rounded, t[3], stops[i].position);
    rounded.lemma_bounded(t[3] as real / 1000 as real, 11);
    assert forall|k: int| 0 <= k < 3 implies 0 as real <= #[trigger] rounded.entry(i, k)
        <= 1 as real by {
        lemma_table(i, k);
        rounded.lemma_bounded(t[k] as real / 1000 as real, 1);
    }
}

/// The positions of the stops never fall, and neither do red and green from stop to stop.
proof fn lemma_entries_rise<V: Number>(rounded: Rounded<V>, i: int, j: int)
    requires
        rounded.steady(),
        0 <= i <= j < 8,
    ensures
        rounded.entry(i, 0) <= rounded.entry(j, 0),
        rounded.entry(i, 1) <= rounded.entry(j, 1),
        rounded.entry(i, 3) <= rounded.entry(j, 3),
    decreases j - i,
{
    reveal(Rounded::steady);
    if i < j {
        lemma_entries_rise(rounded, i, j - 1);
        let t = gradient_table();
        assert(t[j - 1][0] <= t[j][0] && t[j - 1][1] <= t[j][1] && t[j - 1][3] <= t[j][3]) by {
            if j == 1 {
            } else if j == 2 {
            } else if j == 3 {
            } else if j == 4 {
            } else if j == 5 {
            } else if j == 6 {
            } else {
            }
        }
    }
}

/// Channel `k` of stop `i` and of the next, and how far they are apart, are numbers.
spec fn representable<V: Number>(rounded: Rounded<V>, i: int, k: int) -> bool {
    &&& (rounded.round)(rounded.width(i, k)) == rounded.width(i, k)
    &&& (rounded.round)(rounded.entry(i, k)) == rounded.entry(i, k)
    &&& (rounded.round)(rounded.entry(i + 1, k)) == rounded.entry(i + 1, k)
}

/// The share of the way from stop `i` to the next at `y`.
spec fn share_at<V: Number>(rounded: Rounded<V>, y: real, i: int) -> real {
    (rounded.round)((rounded.round)(y - rounded.entry(i, 3)) / rounded.width(i, 3))
}

proof fn lemma_share<V: Number>(rounded: Rounded<V>, y: real, z: real, i: int)
    requires
        rounded.steady(),
        rounded.width(i, 3) > 0 as real,
        rounded.entry(i, 3) <= y <= z < rounded.entry(i + 1, 3),
    ensures
        0 as real <= share_at(rounded, y, i) <= share_at(rounded, z, i) <= 1 as real,
        (rounded.round)(y - rounded.entry(i, 3)) / rounded.width(i, 3) <= 1 as real,
{
    reveal(Rounded::steady);
    let round = rounded.round;
    let (lo, w) = (rounded.entry(i, 3), rounded.width(i, 3));
    let (a, b) = (round(y - lo), round(z - lo));
    rounded.lemma_bounded(y - lo, 0);
    assert(0 as real <= a <= b <= w);
    assert(0 as real <= a / w <= b / w && b / w <= 1 as real) by (nonlinear_arith)
        requires
            0 as real <= a <= b <= w,
            w > 0 as real,
    ;
    rounded.lemma_bounded(a / w, 1);
    rounded.lemma_bounded(b / w, 1);
}

/// Red and green between two stops: from the one to the other, and never falling.
proof fn lemma_shade<V: Number>(rounded: Rounded<V>, y: real, z: real, i: int, k: int)
    requires
        rounded.steady(),
        0 <= i < 7,
        rounded.width(i, 3) > 0 as real,
        rounded.entry(i, 3) <= y <= z < rounded.entry(i + 1, 3),
        rounded.entry(i, k) <= rounded.entry(i + 1, k),
        rounded.width(i, k) == rounded.entry(i + 1, k) - rounded.entry(i, k),
        representable(rounded, i, k),
    ensures
        rounded.entry(i, k) <= rounded.shade(y, i, k) <= rounded.shade(z, i, k) <= rounded.entry(
            i + 1,
            k,
        ),
{
    reveal(Rounded::steady);
    lemma_share(rounded, y, z, i);
    let round = rounded.round;
    let (c, w) = (rounded.entry(i, k), rounded.width(i, k));
    let (t, u) = (share_at(rounded, y, i), share_at(rounded, z, i));
    assert(0 as real <= w * t <= w * u && w * u <= w) by (nonlinear_arith)
        requires
            0 as real <= w,
            0 as real <= t <= u <= 1 as real,
    ;
    rounded.lemma_bounded(w * t, 0);
    assert(round(w * t) <= round(w * u) <= round(w));
    assert(round(c) <= round(c + round(w * t)) <= round(c + round(w * u)));
    assert(round(c + round(w * u)) <= round(c + w));
}

/// At two places between the last two stops, where both are white, the colour is white.
proof fn lemma_white<V: Number>(rounded: Rounded<V>, y: real, k: int)
    requires
        rounded.steady(),
        0 <= k < 3,
    ensures
        rounded.shade(y, 6, k) == 1 as real,
{
    reveal(Rounded::steady);
    let t = gradient_table();
    assert(rounded.keeps(0) && rounded.keeps(1));
    assert(t[6][k] == 1000 && t[7][k] == 1000);
    assert(rounded.entry(6, k) == 1 as real && rounded.entry(7, k) == 1 as real);
    let share = share_at(rounded, y, 6);
    assert(rounded.width(6, k) == 0 as real);
    assert(rounded.width(6, k) * share == 0 as real) by (nonlinear_arith)
        requires
            rounded.width(6, k) == 0 as real,
    ;
}

/// Channel `k` of `color` is that at `y` between stop `i` of the gradient and the next, and
/// `to_byte` made a byte of it for `r`.
spec fn channel_at<V: Number, B: Fn(V) -> u8>(
    rounded: Rounded<V>,
    y: real,
    i: int,
    k: int,
    color: [V; 3],
    to_byte: B,
    r: [u8; 3],
) -> bool {
    &&& byte_of(color[k], to_byte, r[k])
    &&& (rounded.scale.place)(color[k]) == Some(rounded.shade(y, i, k))
}

proof fn lemma_mixed<V: Number>(
    rounded: Rounded<V>,
    stops: Seq<Stop<V>>,
    x: V,
    i: int,
    r: [V; 3],
    k: int,
)
    requires
        rounded.followed(),
        rounded.largest >= 10010 as real,
        gradient_of(stops),
        0 <= i < 7,
        0 <= k < 3,
        between(stops, x, i),
        mixed_at(stops, x, i, r),
    ensures
        rounded.width(i, 3) > 0 as real,
        rounded.entry(i, 3) <= rounded.scale.at(x) < rounded.entry(i + 1, 3),
        representable(rounded, i, k),
        (rounded.scale.place)(r[k]) == Some(rounded.shade(rounded.scale.at(x), i, k)),
{
    reveal(Rounded::steady);
    let (scale, round) = (rounded.scale, rounded.round);
    lemma_stop(rounded, stops, i);
    lemma_stop(rounded, stops, i + 1);
    let (low, high) = (stops[i], stops[i + 1]);
    let y = scale.at(x);
    assert(scale.at_most(low.position, x) && scale.below(x, high.position));
    assert(rounded.within(low.position) && rounded.within(high.position) && rounded.within(x));
    assert(scale.below(low.position, high.position));
    let share = choose|share: V| #[trigger]
        share_of(x, low.position, high.position, share) && forall|k: int|
            0 <= k < 3 ==> interpolated_of(low.color[k], high.color[k], share, #[trigger] r[k]);
    let (above, across) = choose|above: V, width: V|
        #![trigger sub_of(x, low.position, above), sub_of(high.position, low.position, width)]
        sub_of(x, low.position, above) && sub_of(high.position, low.position, width) && div_of(
            above,
            width,
            share,
        );
    assert(rounded.gives(y - rounded.entry(i, 3), above));
    assert(rounded.gives(rounded.entry(i + 1, 3) - rounded.entry(i, 3), across));
    rounded.lemma_bounded(y - rounded.entry(i, 3), 11);
    rounded.lemma_bounded(rounded.entry(i + 1, 3) - rounded.entry(i, 3), 11);
    assert(rounded.within(above) && rounded.within(across));
    lemma_share(rounded, y, y, i);
    let quotient = scale.at(above) / scale.at(across);
    assert(0 as real <= quotient) by (nonlinear_arith)
        requires
            quotient == scale.at(above) / scale.at(across),
            0 as real <= scale.at(above),
            scale.at(across) > 0 as real,
    ;
    assert(rounded.gives(quotient, share));
    assert((scale.place)(share) == Some(share_at(rounded, y, i)));
    assert(rounded.within(share));
    let (c, d) = (rounded.entry(i, k), rounded.entry(i + 1, k));
    assert((scale.place)(low.color[k]) == Some(c));
    assert((scale.place)(high.color[k]) == Some(d));
    assert(rounded.within(low.color[k]) && rounded.within(high.color[k]));
    assert(interpolated_of(low.color[k], high.color[k], share, r[k]));
    let (width, part) = choose|width: V, part: V|
        #![trigger sub_of(high.color[k], low.color[k], width), add_of(low.color[k], part, r[k])]
        sub_of(high.color[k], low.color[k], width) && mul_of(width, share, part) && add_of(
            low.color[k],
            part,
            r[k],
        );
    assert(rounded.gives(d - c, width));
    lemma_within_one(rounded, d - c);
    assert(rounded.within(width));
    let (w, t) = (scale.at(width), scale.at(share));
    assert(-1 as real <= w * t <= 1 as real) by (nonlinear_arith)
        requires
            -1 as real <= w <= 1 as real,
            0 as real <= t <= 1 as real,
    ;
    assert(rounded.gives(w * t, part));
    lemma_within_one(rounded, w * t);
    assert(rounded.within(part));
    assert(rounded.gives(c + scale.at(part), r[k]));
}

proof fn lemma_within_one<V: Number>(rounded: Rounded<V>, x: real)
    requires
        rounded.followed(),
        -1 as real <= x <= 1 as real,
    ensures
        -1 as real <= (rounded.round)(x) <= 1 as real,
{
    reveal(Rounded::steady);
    assert(rounded.keeps(-1) && rounded.keeps(1));
}

proof fn lemma_scaled<V: Number, B: Fn(V) -> u8>(
    rounded: Rounded<V>,
    channel: V,
    to_byte: B,
    r: u8,
) -> (scaled: V)
    requires
        rounded.followed(),
        rounded.largest >= 10010 as real,
        rounded.scale.has(channel),
        byte_of(channel, to_byte, r),
    ensures
        call_ensures(to_byte, (scaled,), r),
        (rounded.scale.place)(scaled) == Some(
            (rounded.round)(held(rounded.scale.at(channel)) * 255 as real),
        ),
{
    let (zero, one, most, raised, kept, scaled) = choose|
        zero: V,
        one: V,
        most: V,
        raised: V,
        kept: V,
        scaled: V,
    |
        #![trigger
            greater_of(channel, zero, raised),
            lesser_of(raised, one, kept),
            from_of(255, most),
            call_ensures(to_byte, (scaled,), r),
        ]
        from_of(0, zero) && from_of(1, one) && from_of(255, most) && greater_of(
            channel,
            zero,
            raised,
        ) && lesser_of(raised, one, kept) && mul_of(kept, most, scaled) && call_ensures(
            to_byte,
            (scaled,),
            r,
        );
    assert((rounded.scale.place)(kept) == Some(held(rounded.scale.at(channel))));
    assert(rounded.within(kept) && rounded.within(most));
    assert(rounded.gives(held(rounded.scale.at(channel)) * 255 as real, scaled));
    scaled
}

proof fn lemma_byte<V: Number, B: Fn(V) -> u8>(
    rounded: Rounded<V>,
    channel: V,
    other: V,
    to_byte: B,
    r: u8,
    s: u8,
)
    requires
        rounded.followed(),
        rounded.largest >= 10010 as real,
        rises(rounded.scale, to_byte),
        rounded.scale.at_most(channel, other),
        byte_of(channel, to_byte, r),
        byte_of(other, to_byte, s),
    ensures
        r <= s,
{
    reveal(Rounded::steady);
    let v = lemma_scaled(rounded, channel, to_byte, r);
    let w = lemma_scaled(rounded, other, to_byte, s);
    let round = rounded.round;
    let (a, b) = (held(rounded.scale.at(channel)), held(rounded.scale.at(other)));
    assert(round(a * 255 as real) <= round(b * 255 as real));
    assert(rounded.scale.at_most(v, w));
}

/// The colour of `x` is that at its level, between two stops of the gradient.
proof fn lemma_color<V: Number, B: Fn(V) -> u8>(
    rounded: Rounded<V>,
    x: V,
    to_byte: B,
    r: [u8; 3],
) -> (found: (int, [V; 3]))
    requires
        rounded.followed(),
        rounded.largest >= 10010 as real,
        waterfall_color_of(x, to_byte, Some(r)),
    ensures
        0 <= found.0 < 7,
        rounded.entry(found.0, 3) <= rounded.level_at(x) < rounded.entry(found.0 + 1, 3),
        rounded.width(found.0, 3) > 0 as real,
        forall|k: int|
            0 <= k < 3 ==> #[trigger] channel_at(
                rounded,
                rounded.level_at(x),
                found.0,
                k,
                found.1,
                to_byte,
                r,
            ),
        forall|k: int| 0 <= k < 3 ==> #[trigger] representable(rounded, found.0, k),
{
    let scale = rounded.scale;
    let stops = choose|stops: Seq<Stop<V>>| #[trigger]
        gradient_of(stops) && color_of(x, stops, to_byte, Some(r));
    let (level, mixed) = choose|level: V, mixed: Option<[V; 3]>|
        #![trigger level_of(x, level), mix_of(level, stops, mixed)]
        level_of(x, level) && mix_of(level, stops, mixed) && match (mixed, Some(r)) {
            (Some(color), Some(bytes)) => forall|k: int|
                0 <= k < 3 ==> byte_of(color[k], to_byte, #[trigger] bytes[k]),
            (None, None) => true,
            _ => false,
        };
    assert((scale.place)(level) == Some(rounded.level_at(x)));
    let color = mixed->0;
    let i = choose|i: int| #[trigger]
        first_between(stops, level, i) && mixed_at(stops, level, i, color);
    lemma_mixed(rounded, stops, level, i, color, 0);
    assert forall|k: int| 0 <= k < 3 implies #[trigger] representable(rounded, i, k) by {
        lemma_mixed(rounded, stops, level, i, color, k);
    }
    assert forall|k: int| 0 <= k < 3 implies #[trigger] channel_at(
        rounded,
        rounded.level_at(x),
        i,
        k,
        color,
        to_byte,
        r,
    ) by {
        let bytes = Some(r)->0;
        assert(byte_of(color[k], to_byte, bytes[k]));
        lemma_mixed(rounded, stops, level, i, color, k);
    }
    (i, color)
}

/// Red and green never fall as the level rises.
pub proof fn law_red_and_green_never_fall<V: Number, B: Fn(V) -> u8>(
    rounded: Rounded<V>,
    to_byte: B,
    x: V,
    y: V,
    r: [u8; 3],
    s: [u8; 3],
)
    requires
        rounded.followed(),
        rounded.fits_gradient(),
        rises(rounded.scale, to_byte),
        rounded.scale.at_most(x, y),
        waterfall_color_of(x, to_byte, Some(r)),
        waterfall_color_of(y, to_byte, Some(s)),
    ensures
        r[0] <= s[0],
        r[1] <= s[1],
{
    let (i, a) = lemma_color(rounded, x, to_byte, r);
    let (j, b) = lemma_color(rounded, y, to_byte, s);
    let (p, q) = (rounded.level_at(x), rounded.level_at(y));
    assert(p <= q);
    if j < i {
        lemma_entries_rise(rounded, j + 1, i);
    }
    assert(i <= j);
    lemma_entries_rise(rounded, i, i + 1);
    lemma_entries_rise(rounded, j, j + 1);
    assert forall|k: int| 0 <= k < 2 implies #[trigger] r[k] <= s[k] by {
        assert(representable(rounded, i, k) && representable(rounded, j, k));
        assert(rounded.width(i, k) == rounded.entry(i + 1, k) - rounded.entry(i, k));
        assert(rounded.width(j, k) == rounded.entry(j + 1, k) - rounded.entry(j, k));
        if i < j {
            lemma_shade(rounded, p, p, i, k);
            lemma_shade(rounded, q, q, j, k);
            lemma_entries_rise(rounded, i + 1, j);
        } else {
            lemma_shade(rounded, p, q, i, k);
        }
        assert(channel_at(rounded, p, i, k, a, to_byte, r));
        assert(channel_at(rounded, q, j, k, b, to_byte, s));
        lemma_byte(rounded, a[k], b[k], to_byte, r[k], s[k]);
    }
}

/// A value has the colour of that value held between 0 and 1: what is below 0, or not a number, has
/// the colour of 0, and what is above 1 has that of 1.
pub proof fn law_colors_end_at_zero_and_one<V: Number, B: Fn(V) -> u8>(
    rounded: Rounded<V>,
    to_byte: B,
    x: V,
    zero: V,
    one: V,
    raised: V,
    y: V,
    r: Option<[u8; 3]>,
    s: Option<[u8; 3]>,
)
    requires
        rounded.followed(),
        rounded.largest >= 10010 as real,
        resolves_gradient(rounded.scale),
        rises(rounded.scale, to_byte),
        from_of(0, zero),
        from_of(1, one),
        greater_of(x, zero, raised),
        lesser_of(raised, one, y),
        waterfall_color_of(x, to_byte, r),
        waterfall_color_of(y, to_byte, s),
    ensures
        r is Some,
        r == s,
{
    law_every_value_has_a_color(rounded.scale, x, to_byte);
    law_every_value_has_a_color(rounded.scale, y, to_byte);
    let (i, a) = lemma_color(rounded, x, to_byte, r->0);
    let (j, b) = lemma_color(rounded, y, to_byte, s->0);
    let (p, q) = (rounded.level_at(x), rounded.level_at(y));
    assert(rounded.entry(6, 3) == 1 as real) by {
        reveal(Rounded::steady);
        assert(gradient_table()[6][3] == 1000);
        assert(rounded.keeps(1));
    }
    if i < j {
        lemma_entries_rise(rounded, i + 1, j);
    } else if j < i {
        lemma_entries_rise(rounded, j + 1, i);
    }
    if i < 6 {
        lemma_entries_rise(rounded, i + 1, 6);
    }
    if j < 6 {
        lemma_entries_rise(rounded, j + 1, 6);
    }
    assert(i == j);
    assert forall|k: int| 0 <= k < 3 implies (r->0)[k] == (s->0)[k] by {
        if i == 6 {
            lemma_white(rounded, p, k);
            lemma_white(rounded, q, k);
        } else {
            assert(p == q);
        }
        assert(channel_at(rounded, p, i, k, a, to_byte, r->0));
        assert(channel_at(rounded, q, j, k, b, to_byte, s->0));
        lemma_byte(rounded, a[k], b[k], to_byte, (r->0)[k], (s->0)[k]);
        lemma_byte(rounded, b[k], a[k], to_byte, (s->0)[k], (r->0)[k]);
    }
    assert(r->0 =~= s->0);
}

/// Between the two stops around `x`, each of the three channels is linear in `x`, whether it rises
/// or falls: as far as `x` is from the one position to the other, so far is the channel from the
/// one colour to the other. There is a colour exactly where two neighbouring stops are around `x`,
/// and it is that of the first two.
pub proof fn law_each_channel_is_linear_between_stops<V: Number>(
    scale: Scale<V>,
    x: V,
    stops: &[Stop<V>],
    r: Option<[V; 3]>,
)
    requires
        scale.exact(),
        scale.has(x),
        forall|i: int| 0 <= i < stops@.len() ==> scale.has((#[trigger] stops@[i]).position),
        forall|i: int, k: int|
            #![trigger stops@[i].color[k]]
            0 <= i < stops@.len() && 0 <= k < 3 ==> scale.has(stops@[i].color[k]),
        call_ensures(mix::<V>, (x, stops), r),
    ensures
        r is Some <==> exists|i: int| #[trigger] lies_at(scale, x, stops@, i),
        r matches Some(color) ==> exists|i: int|
            {
                &&& #[trigger] lies_at(scale, x, stops@, i)
                &&& forall|j: int| 0 <= j < i ==> !#[trigger] lies_at(scale, x, stops@, j)
                &&& forall|k: int|
                    0 <= k < 3 ==> {
                        let (low, high) = (stops@[i], stops@[i + 1]);
                        &&& scale.has(#[trigger] color[k])
                        &&& (scale.at(color[k]) - scale.at(low.color[k])) * (scale.at(
                            high.position,
                        ) - scale.at(low.position)) == (scale.at(high.color[k]) - scale.at(
                            low.color[k],
                        )) * (scale.at(x) - scale.at(low.position))
                    }
            },
{
    lemma_linear(scale, x, stops@, r);
}

pub(crate) proof fn lemma_linear<V: Number>(
    scale: Scale<V>,
    x: V,
    stops: Seq<Stop<V>>,
    r: Option<[V; 3]>,
)
    requires
        scale.exact(),
        scale.has(x),
        forall|i: int| 0 <= i < stops.len() ==> scale.has((#[trigger] stops[i]).position),
        forall|i: int, k: int|
            #![trigger stops[i].color[k]]
            0 <= i < stops.len() && 0 <= k < 3 ==> scale.has(stops[i].color[k]),
        mix_of(x, stops, r),
    ensures
        r is Some <==> exists|i: int| #[trigger] lies_at(scale, x, stops, i),
        r matches Some(color) ==> exists|i: int|
            {
                &&& #[trigger] lies_at(scale, x, stops, i)
                &&& forall|j: int| 0 <= j < i ==> !#[trigger] lies_at(scale, x, stops, j)
                &&& forall|k: int|
                    0 <= k < 3 ==> {
                        let (low, high) = (stops[i], stops[i + 1]);
                        &&& scale.has(#[trigger] color[k])
                        &&& (scale.at(color[k]) - scale.at(low.color[k])) * (scale.at(
                            high.position,
                        ) - scale.at(low.position)) == (scale.at(high.color[k]) - scale.at(
                            low.color[k],
                        )) * (scale.at(x) - scale.at(low.position))
                    }
            },
{
    if let Some(color) = r {
        let i = choose|i: int| #[trigger]
            first_between(stops, x, i) && mixed_at(stops, x, i, color);
        let (low, high) = (stops[i], stops[i + 1]);
        assert(scale.has(low.position) && scale.has(high.position));
        assert(lies_at(scale, x, stops, i));
        assert forall|j: int| 0 <= j < i implies !#[trigger] lies_at(scale, x, stops, j) by {
            assert(outside(stops, x, j));
            let (a, b) = (stops[j], stops[j + 1]);
            assert(scale.has(a.position) && scale.has(b.position));
        }
        assert forall|k: int| 0 <= k < 3 implies {
            &&& scale.has(#[trigger] color[k])
            &&& (scale.at(color[k]) - scale.at(low.color[k])) * (scale.at(high.position)
                - scale.at(low.position)) == (scale.at(high.color[k]) - scale.at(low.color[k]))
                * (scale.at(x) - scale.at(low.position))
        } by {
            assert(scale.has(stops[i].color[k]) && scale.has(stops[i + 1].color[k]));
            let share = choose|share: V| #[trigger]
                share_of(x, low.position, high.position, share) && forall|k: int|
                    0 <= k < 3 ==> interpolated_of(
                        low.color[k],
                        high.color[k],
                        share,
                        #[trigger] color[k],
                    );
            assert(interpolated_of(low.color[k], high.color[k], share, color[k]));
            let (lo, hi, at, t) = (
                scale.at(low.position),
                scale.at(high.position),
                scale.at(x),
                scale.at(share),
            );
            let (c, d, e) = (
                scale.at(low.color[k]),
                scale.at(high.color[k]),
                scale.at(color[k]),
            );
            assert(scale.has(share) && t * (hi - lo) == at - lo);
            assert(e == c + (d - c) * t);
            assert((e - c) * (hi - lo) == (d - c) * (at - lo)) by (nonlinear_arith)
                requires
                    t * (hi - lo) == at - lo,
                    e == c + (d - c) * t,
            ;
        }
    } else {
        assert forall|i: int| !#[trigger] lies_at(scale, x, stops, i) by {
            if 0 <= i < stops.len() - 1 {
                assert(outside(stops, x, i));
                let (a, b) = (stops[i], stops[i + 1]);
                assert(scale.has(a.position) && scale.has(b.position));
            }
        }
    }
}

/// `x` stands at or above the position of stop `i`, and below that of the next.
pub open spec fn lies_at<V: Number>(
    scale: Scale<V>,
    x: V,
    stops: Seq<Stop<V>>,
    i: int,
) -> bool {
    &&& 0 <= i < stops.len() - 1
    &&& scale.at(stops[i].position) <= scale.at(x) < scale.at(stops[i + 1].position)
}

/// The value at `q` of what runs evenly from `c` at `lo` to `d` at `hi`.
pub open spec fn ramp(q: real, lo: real, hi: real, c: real, d: real) -> real {
    c + (d - c) * ((q - lo) / (hi - lo))
}

/// What runs evenly from value to value: `c0` at 0, and then `c1`, `c2` and so on at 210, 325, 440,
/// 690, 850 and 1000.
pub open spec fn runs(
    q: real,
    c0: real,
    c1: real,
    c2: real,
    c3: real,
    c4: real,
    c5: real,
    c6: real,
) -> real {
    if q < 210 as real {
        ramp(q, 0 as real, 210 as real, c0, c1)
    } else if q < 325 as real {
        ramp(q, 210 as real, 325 as real, c1, c2)
    } else if q < 440 as real {
        ramp(q, 325 as real, 440 as real, c2, c3)
    } else if q < 690 as real {
        ramp(q, 440 as real, 690 as real, c3, c4)
    } else if q < 850 as real {
        ramp(q, 690 as real, 850 as real, c4, c5)
    } else if q < 1000 as real {
        ramp(q, 850 as real, 1000 as real, c5, c6)
    } else {
        c6
    }
}

/// `to_byte` made `byte` of the number at `x`.
pub open spec fn byte_at<V: Number, B: Fn(V) -> u8>(
    scale: Scale<V>,
    to_byte: B,
    x: real,
    byte: u8,
) -> bool {
    exists|v: V| (scale.place)(v) == Some(x) && #[trigger] call_ensures(to_byte, (v,), byte)
}

proof fn lemma_exact_is_rounded<V: Number>(scale: Scale<V>) -> (rounded: Rounded<V>)
    requires
        scale.exact(),
    ensures
        rounded.scale == scale,
        rounded.followed(),
        rounded.largest == 100000 as real,
        forall|x: real| #[trigger] (rounded.round)(x) == x,
{
    let rounded = Rounded { scale, round: |x: real| x, largest: 100000 as real };
    reveal(Rounded::steady);
    assert forall|a: V, b: V, r: V| #[trigger]
        div_of(a, b, r) && rounded.within(a) && rounded.within(b) && scale.at(b)
            != 0 as real implies rounded.gives(scale.at(a) / scale.at(b), r) by {
        let (x, y, z) = (scale.at(a), scale.at(b), scale.at(r));
        assert(z == x / y) by (nonlinear_arith)
            requires
                z * y == x,
                y != 0 as real,
        ;
    }
    rounded
}

proof fn lemma_ramp(y: real, lo: real, hi: real, c: real, d: real)
    requires
        lo < hi,
    ensures
        1000 as real * (c / 1000 as real + (d / 1000 as real - c / 1000 as real) * ((y - lo
            / 1000 as real) / (hi / 1000 as real - lo / 1000 as real))) == ramp(
            1000 as real * y,
            lo,
            hi,
            c,
            d,
        ),
{
    let t = (y - lo / 1000 as real) / (hi / 1000 as real - lo / 1000 as real);
    let u = (1000 as real * y - lo) / (hi - lo);
    assert(t == u) by (nonlinear_arith)
        requires
            lo < hi,
            t == (y - lo / 1000 as real) / (hi / 1000 as real - lo / 1000 as real),
            u == (1000 as real * y - lo) / (hi - lo),
    ;
    assert(1000 as real * (c / 1000 as real + (d / 1000 as real - c / 1000 as real) * t) == c + (d
        - c) * t) by (nonlinear_arith);
}

/// The bytes are the colour of `x`, held between 0 and 1 (and 0 where it is not a number):
/// `to_byte` made them of 255 times red, green and blue, which run evenly between these
/// thousandths.
///
/// | level |   0 | 210 | 325 |  440 |  690 |  850 | 1000 |
/// |-------|-----|-----|-----|------|------|------|------|
/// | red   |   0 |   0 |   0 |  510 | 1000 | 1000 | 1000 |
/// | green |   0 | 200 | 300 |  360 |  550 |  860 | 1000 |
/// | blue  |   0 | 230 | 600 | 1000 |    0 |  690 | 1000 |
pub open spec fn has_color<V: Number, B: Fn(V) -> u8>(
    scale: Scale<V>,
    to_byte: B,
    x: V,
    red_byte: u8,
    green_byte: u8,
    blue_byte: u8,
) -> bool {
    let p = if !scale.has(x) || scale.at(x) < 0 as real {
        0 as real
    } else if scale.at(x) > 1 as real {
        1000 as real
    } else {
        1000 as real * scale.at(x)
    };
    let red = runs(
        p,
        0 as real,
        0 as real,
        0 as real,
        510 as real,
        1000 as real,
        1000 as real,
        1000 as real,
    );
    let green = runs(
        p,
        0 as real,
        200 as real,
        300 as real,
        360 as real,
        550 as real,
        860 as real,
        1000 as real,
    );
    let blue = runs(
        p,
        0 as real,
        230 as real,
        600 as real,
        1000 as real,
        0 as real,
        690 as real,
        1000 as real,
    );
    &&& byte_at(scale, to_byte, 255 as real * red / 1000 as real, red_byte)
    &&& byte_at(scale, to_byte, 255 as real * green / 1000 as real, green_byte)
    &&& byte_at(scale, to_byte, 255 as real * blue / 1000 as real, blue_byte)
}

/// Every value has the colour that the table above gives it.
pub proof fn law_waterfall_colors<V: Number, B: Fn(V) -> u8>(
    scale: Scale<V>,
    x: V,
    to_byte: &B,
    r: Option<[u8; 3]>,
)
    requires
        scale.exact(),
        call_ensures(waterfall_color::<V, B>, (x, to_byte), r),
    ensures
        r is Some,
        has_color(scale, *to_byte, x, (r->0)[0], (r->0)[1], (r->0)[2]),
{
    lemma_waterfall_colors(scale, x, *to_byte, r);
}

proof fn lemma_waterfall_colors<V: Number, B: Fn(V) -> u8>(
    scale: Scale<V>,
    x: V,
    to_byte: B,
    r: Option<[u8; 3]>,
)
    requires
        scale.exact(),
        waterfall_color_of(x, to_byte, r),
    ensures
        r is Some,
        has_color(scale, to_byte, x, (r->0)[0], (r->0)[1], (r->0)[2]),
{
    let rounded = lemma_exact_is_rounded(scale);
    lemma_resolves(scale);
    law_every_value_has_a_color(scale, x, to_byte);
    let (i, color) = lemma_color(rounded, x, to_byte, r->0);
    let y = rounded.level_at(x);
    assert(channel_at(rounded, y, i, 0, color, to_byte, r->0));
    assert(channel_at(rounded, y, i, 1, color, to_byte, r->0));
    assert(channel_at(rounded, y, i, 2, color, to_byte, r->0));
    lemma_hues(rounded, y, i);
    lemma_channel(rounded, y, i, 0, color, to_byte, r->0);
    lemma_channel(rounded, y, i, 1, color, to_byte, r->0);
    lemma_channel(rounded, y, i, 2, color, to_byte, r->0);
    let q = 1000 as real * y;
    if q >= 1000 as real {
        assert(hue(q, 0) == hue(1000 as real, 0) && hue(q, 1) == hue(1000 as real, 1) && hue(q, 2)
            == hue(1000 as real, 2));
    }
}

proof fn lemma_resolves<V: Number>(scale: Scale<V>)
    requires
        scale.exact(),
    ensures
        resolves_gradient(scale),
{
    assert forall|n: u16, r: V| #[trigger] ratio_of(n, 1000, r) implies scale.has(r) && scale.at(r)
        * 1000 as real == n as real by {}
}

/// Red, green or blue at the level `q`, in thousandths.
spec fn hue(q: real, k: int) -> real {
    if k == 0 {
        runs(
            q,
            0 as real,
            0 as real,
            0 as real,
            510 as real,
            1000 as real,
            1000 as real,
            1000 as real,
        )
    } else if k == 1 {
        runs(
            q,
            0 as real,
            200 as real,
            300 as real,
            360 as real,
            550 as real,
            860 as real,
            1000 as real,
        )
    } else {
        runs(
            q,
            0 as real,
            230 as real,
            600 as real,
            1000 as real,
            0 as real,
            690 as real,
            1000 as real,
        )
    }
}

proof fn lemma_channel<V: Number, B: Fn(V) -> u8>(
    rounded: Rounded<V>,
    y: real,
    i: int,
    k: int,
    color: [V; 3],
    to_byte: B,
    r: [u8; 3],
)
    requires
        rounded.followed(),
        rounded.largest >= 10010 as real,
        forall|x: real| #[trigger] (rounded.round)(x) == x,
        channel_at(rounded, y, i, k, color, to_byte, r),
        0 <= k < 3,
        1000 as real * rounded.shade(y, i, k) == hue(1000 as real * y, k),
        0 as real <= hue(1000 as real * y, k) <= 1000 as real,
    ensures
        byte_at(
            rounded.scale,
            to_byte,
            255 as real * hue(1000 as real * y, k) / 1000 as real,
            r[k],
        ),
{
    let v = lemma_scaled(rounded, color[k], to_byte, r[k]);
    let e = rounded.shade(y, i, k);
    assert(held(e) == e);
    assert(e * 255 as real == 255 as real * hue(1000 as real * y, k) / 1000 as real);
}

proof fn lemma_ramp_stays(q: real, lo: real, hi: real, c: real, d: real)
    requires
        lo <= q < hi,
        0 as real <= c <= 1000 as real,
        0 as real <= d <= 1000 as real,
    ensures
        0 as real <= ramp(q, lo, hi, c, d) <= 1000 as real,
{
    let t = (q - lo) / (hi - lo);
    assert(0 as real <= t <= 1 as real) by (nonlinear_arith)
        requires
            lo <= q < hi,
            t == (q - lo) / (hi - lo),
    ;
    assert(0 as real <= c + (d - c) * t <= 1000 as real) by (nonlinear_arith)
        requires
            0 as real <= t <= 1 as real,
            0 as real <= c <= 1000 as real,
            0 as real <= d <= 1000 as real,
    ;
}

proof fn lemma_between_stops<V: Number>(
    rounded: Rounded<V>,
    y: real,
    i: int,
    k: int,
    lo: real,
    hi: real,
    c: real,
    d: real,
)
    requires
        forall|x: real| #[trigger] (rounded.round)(x) == x,
        0 <= i < 7,
        0 <= k < 3,
        gradient_table()[i][3] as real == lo,
        gradient_table()[i + 1][3] as real == hi,
        gradient_table()[i][k] as real == c,
        gradient_table()[i + 1][k] as real == d,
        lo < hi,
        rounded.entry(i, 3) <= y < rounded.entry(i + 1, 3),
        0 as real <= c <= 1000 as real,
        0 as real <= d <= 1000 as real,
    ensures
        lo <= 1000 as real * y < hi,
        1000 as real * rounded.shade(y, i, k) == ramp(1000 as real * y, lo, hi, c, d),
        0 as real <= ramp(1000 as real * y, lo, hi, c, d) <= 1000 as real,
{
    lemma_ramp(y, lo, hi, c, d);
    lemma_ramp_stays(1000 as real * y, lo, hi, c, d);
}

proof fn lemma_hues<V: Number>(rounded: Rounded<V>, y: real, i: int)
    requires
        rounded.followed(),
        forall|x: real| #[trigger] (rounded.round)(x) == x,
        0 <= i < 7,
        rounded.entry(i, 3) <= y < rounded.entry(i + 1, 3),
    ensures
        forall|k: int|
            0 <= k < 3 ==> 1000 as real * #[trigger] rounded.shade(y, i, k) == hue(
                1000 as real * y,
                k,
            ),
        forall|k: int|
            0 <= k < 3 ==> 0 as real <= #[trigger] hue(1000 as real * y, k) <= 1000 as real,
{
    let t = gradient_table();
    if i == 0 {
        lemma_between_stops(
            rounded,
            y,
            0,
            0,
            0 as real,
            210 as real,
            0 as real,
            0 as real,
        );
        lemma_between_stops(
            rounded,
            y,
            0,
            1,
            0 as real,
            210 as real,
            0 as real,
            200 as real,
        );
        lemma_between_stops(
            rounded,
            y,
            0,
            2,
            0 as real,
            210 as real,
            0 as real,
            230 as real,
        );
    } else if i == 1 {
        lemma_between_stops(
            rounded,
            y,
            1,
            0,
            210 as real,
            325 as real,
            0 as real,
            0 as real,
        );
        lemma_between_stops(
            rounded,
            y,
            1,
            1,
            210 as real,
            325 as real,
            200 as real,
            300 as real,
        );
        lemma_between_stops(
            rounded,
            y,
            1,
            2,
            210 as real,
            325 as real,
            230 as real,
            600 as real,
        );
    } else if i == 2 {
        lemma_between_stops(
            rounded,
            y,
            2,
            0,
            325 as real,
            440 as real,
            0 as real,
            510 as real,
        );
        lemma_between_stops(
            rounded,
            y,
            2,
            1,
            325 as real,
            440 as real,
            300 as real,
            360 as real,
        );
        lemma_between_stops(
            rounded,
            y,
            2,
            2,
            325 as real,
            440 as real,
            600 as real,
            1000 as real,
        );
    } else if i == 3 {
        lemma_between_stops(
            rounded,
            y,
            3,
            0,
            440 as real,
            690 as real,
            510 as real,
            1000 as real,
        );
        lemma_between_stops(
            rounded,
            y,
            3,
            1,
            440 as real,
            690 as real,
            360 as real,
            550 as real,
        );
        lemma_between_stops(
            rounded,
            y,
            3,
            2,
            440 as real,
            690 as real,
            1000 as real,
            0 as real,
        );
    } else if i == 4 {
        lemma_between_stops(
            rounded,
            y,
            4,
            0,
            690 as real,
            850 as real,
            1000 as real,
            1000 as real,
        );
        lemma_between_stops(
            rounded,
            y,
            4,
            1,
            690 as real,
            850 as real,
            550 as real,
            860 as real,
        );
        lemma_between_stops(
            rounded,
            y,
            4,
            2,
            690 as real,
            850 as real,
            0 as real,
            690 as real,
        );
    } else if i == 5 {
        lemma_between_stops(
            rounded,
            y,
            5,
            0,
            850 as real,
            1000 as real,
            1000 as real,
            1000 as real,
        );
        lemma_between_stops(
            rounded,
            y,
            5,
            1,
            850 as real,
            1000 as real,
            860 as real,
            1000 as real,
        );
        lemma_between_stops(
            rounded,
            y,
            5,
            2,
            850 as real,
            1000 as real,
            690 as real,
            1000 as real,
        );
    } else {
        assert(t[6][3] == 1000);
        lemma_white(rounded, y, 0);
        lemma_white(rounded, y, 1);
        lemma_white(rounded, y, 2);
    }
}

/// The picture is 512 pixels wide and 50 high. Each pixel is opaque and has the colour of the cell
/// at its place.
pub proof fn law_the_picture_shows_every_cell<V: Number, B: Fn(V) -> u8>(
    scale: Scale<V>,
    state: &GUIState<V>,
    to_byte: &B,
    r: Option<Image>,
    i: int,
)
    requires
        scale.exact(),
        state.cells().len() == 25600,
        call_ensures(GUIState::<V>::waterfall_image::<B>, (state, to_byte), r),
        0 <= i < 25600,
    ensures
        r matches Some(image) && {
            &&& image.width == 512
            &&& image.height == 50
            &&& image.pixels@.len() == 25600
            &&& image.pixels@[i][3] == 255
            &&& has_color(
                scale,
                *to_byte,
                state.cells()[i],
                image.pixels@[i][0],
                image.pixels@[i][1],
                image.pixels@[i][2],
            )
        },
{
    let cells = state.cells();
    let stops = choose|stops: Seq<Stop<V>>| #[trigger]
        gradient_of(stops) && image_of(cells, stops, *to_byte, r);
    lemma_resolves(scale);
    if r is None {
        let j = choose|j: int|
            0 <= j < cells.len() && color_of(#[trigger] cells[j], stops, *to_byte, None);
        law_every_value_has_a_color(scale, cells[j], *to_byte);
        assert(waterfall_color_of(cells[j], *to_byte, None));
    } else {
        let pixel = (r->0).pixels@[i];
        assert(pixel_of(cells[i], stops, *to_byte, pixel));
        let color = choose|color: [u8; 3]| #[trigger]
            color_of(cells[i], stops, *to_byte, Some(color)) && pixel@ == seq![
                color[0],
                color[1],
                color[2],
                255u8,
            ];
        assert(waterfall_color_of(cells[i], *to_byte, Some(color)));
        lemma_waterfall_colors(scale, cells[i], *to_byte, Some(color));
        assert(pixel@[0] == color[0] && pixel@[1] == color[1] && pixel@[2] == color[2] && pixel@[3]
            == 255);
    }
}

}
