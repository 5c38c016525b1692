//! What holds of the waterfall where the operators of the number type give one result for given
//! operands, as those of a floating-point type do for numbers.

use crate::color::{
    between, byte_of, color_of, first_between, gradient_of, gradient_table, interpolated_of,
    level_of, mix_of, mixed_at, outside, share_of, stop_of, waterfall_color_of, Stop,
};
use crate::number::{from_of, greater_of, lesser_of, mul_of, ratio_of, repeatable, Number};
use crate::waterfall::{
    bin_before, blended_of, image_of, long_enough, pixel_of, row_len, row_of, scrolled, total_len,
    waterfall_image_of, Image, SamplePoint,
};
use vstd::prelude::*;

verus! {

/// `to_byte` gives one byte for a given number.
pub open spec fn converts_once<V, B: Fn(V) -> u8>(to_byte: B) -> bool {
    forall|v: V, r: u8, s: u8| #[trigger]
        call_ensures(to_byte, (v,), r) && #[trigger] call_ensures(to_byte, (v,), s) ==> r == s
}

proof fn lemma_blended<V: Number>(low: V, high: V, fraction: V, r: V, s: V)
    requires
        repeatable::<V>(),
        blended_of(low, high, fraction, r),
        blended_of(low, high, fraction, s),
    ensures
        r == s,
{
}

/// Two spectra that agree on the bins that are read give the same row, and so the same waterfall,
/// whatever stands in the bins above.
pub proof fn law_rows_show_the_bins_that_are_read<V: Number>(
    points: Seq<SamplePoint<V>>,
    bins: int,
    cells: Seq<V>,
    line: Seq<V>,
    other: Seq<V>,
    row: Seq<V>,
    other_row: Seq<V>,
)
    requires
        repeatable::<V>(),
        forall|i: int| 0 <= i < points.len() ==> (#[trigger] points[i]).index < bins,
        bins <= line.len(),
        bins <= other.len(),
        line.take(bins) == other.take(bins),
        row_of(points, line, row),
        row_of(points, other, other_row),
    ensures
        long_enough(points, line),
        long_enough(points, other),
        row == other_row,
        scrolled(cells, row) == scrolled(cells, other_row),
{
    assert forall|i: int| 0 <= i < points.len() implies row[i] == other_row[i] by {
        let point = points[i];
        let (before, at) = (bin_before(point.index), point.index as int);
        assert(point.index < bins);
        assert(line.take(bins)[before] == line[before] && line.take(bins)[at] == line[at]);
        assert(other.take(bins)[before] == other[before] && other.take(bins)[at] == other[at]);
        assert(blended_of(other[before], other[at], point.fraction, other_row[i]));
        lemma_blended(line[before], line[at], point.fraction, row[i], other_row[i]);
    }
    assert(row =~= other_row);
}

proof fn lemma_ratio<V: Number>(n: u16, d: u16, r: V, s: V)
    requires
        repeatable::<V>(),
        ratio_of(n, d, r),
        ratio_of(n, d, s),
    ensures
        r == s,
{
}

proof fn lemma_gradient<V: Number>(stops: Seq<Stop<V>>, others: Seq<Stop<V>>)
    requires
        repeatable::<V>(),
        gradient_of(stops),
        gradient_of(others),
    ensures
        stops == others,
{
    assert forall|i: int| 0 <= i < stops.len() implies stops[i] == others[i] by {
        let (a, b) = (stops[i], others[i]);
        let t = gradient_table()[i];
        assert(stop_of(t, a) && stop_of(t, b));
        lemma_ratio(t[0], 1000, a.color[0], b.color[0]);
        lemma_ratio(t[1], 1000, a.color[1], b.color[1]);
        lemma_ratio(t[2], 1000, a.color[2], b.color[2]);
        lemma_ratio(t[3], 1000, a.position, b.position);
        assert(a.color =~= b.color);
    }
    assert(stops =~= others);
}

proof fn lemma_greater<V: Number>(a: V, b: V, r: V, s: V)
    requires
        repeatable::<V>(),
        greater_of(a, b, r),
        greater_of(a, b, s),
    ensures
        r == s,
{
}

proof fn lemma_lesser<V: Number>(a: V, b: V, r: V, s: V)
    requires
        repeatable::<V>(),
        lesser_of(a, b, r),
        lesser_of(a, b, s),
    ensures
        r == s,
{
}

proof fn lemma_level<V: Number>(x: V, r: V, s: V)
    requires
        repeatable::<V>(),
        level_of(x, r),
        level_of(x, s),
    ensures
        r == s,
{
    let (zero, ten, raised) = choose|zero: V, ten: V, raised: V|
        #![trigger from_of(10, ten), greater_of(x, zero, raised)]
        from_of(0, zero) && from_of(10, ten) && greater_of(x, zero, raised) && lesser_of(
            raised,
            ten,
            r,
        );
    let (zero2, ten2, raised2) = choose|zero: V, ten: V, raised: V|
        #![trigger from_of(10, ten), greater_of(x, zero, raised)]
        from_of(0, zero) && from_of(10, ten) && greater_of(x, zero, raised) && lesser_of(
            raised,
            ten,
            s,
        );
    lemma_greater(x, zero, raised, raised2);
    lemma_lesser(raised, ten, r, s);
}

proof fn lemma_byte<V: Number, B: Fn(V) -> u8>(channel: V, to_byte: B, r: u8, s: u8)
    requires
        repeatable::<V>(),
        converts_once::<V, B>(to_byte),
        byte_of(channel, to_byte, r),
        byte_of(channel, to_byte, s),
    ensures
        r == s,
{
    let (zero, one, most, raised, held, scaled) = choose|
        zero: V,
        one: V,
        most: V,
        raised: V,
        held: V,
        scaled: V,
    |
        #![trigger
            greater_of(channel, zero, raised),
            lesser_of(raised, one, held),
            from_of(255, most),
            call_ensures(to_byte, (scaled,), r),
        ]
        from_of(0, zero) && from_of(1, one) && from_of(255, most) && greater_of(
            channel,
            zero,
            raised,
        ) && lesser_of(raised, one, held) && mul_of(held, most, scaled) && call_ensures(
            to_byte,
            (scaled,),
            r,
        );
    let (zero2, one2, most2, raised2, held2, scaled2) = choose|
        zero: V,
        one: V,
        most: V,
        raised: V,
        held: V,
        scaled: V,
    |
        #![trigger
            greater_of(channel, zero, raised),
            lesser_of(raised, one, held),
            from_of(255, most),
            call_ensures(to_byte, (scaled,), s),
        ]
        from_of(0, zero) && from_of(1, one) && from_of(255, most) && greater_of(
            channel,
            zero,
            raised,
        ) && lesser_of(raised, one, held) && mul_of(held, most, scaled) && call_ensures(
            to_byte,
            (scaled,),
            s,
        );
    lemma_greater(channel, zero, raised, raised2);
    lemma_lesser(raised, one, held, held2);
    assert(scaled == scaled2);
}

proof fn lemma_mixed<V: Number>(stops: Seq<Stop<V>>, x: V, i: int, r: [V; 3], s: [V; 3])
    requires
        repeatable::<V>(),
        mixed_at(stops, x, i, r),
        mixed_at(stops, x, i, s),
    ensures
        r == s,
{
    let (low, high) = (stops[i], stops[i + 1]);
    let a = choose|share: V| #[trigger]
        share_of(x, low.position, high.position, share) && forall|k: int|
            0 <= k < 3 ==> interpolated_of(low.color[k], high.color[k], share, #[trigger] r[k]);
    let b = choose|share: V| #[trigger]
        share_of(x, low.position, high.position, share) && forall|k: int|
            0 <= k < 3 ==> interpolated_of(low.color[k], high.color[k], share, #[trigger] s[k]);
    assert(a == b);
    assert forall|k: int| 0 <= k < 3 implies r[k] == s[k] by {
        assert(interpolated_of(low.color[k], high.color[k], a, r[k]));
        assert(interpolated_of(low.color[k], high.color[k], b, s[k]));
    }
    assert(r =~= s);
}

proof fn lemma_mix<V: Number>(stops: Seq<Stop<V>>, x: V, r: Option<[V; 3]>, s: Option<[V; 3]>)
    requires
        repeatable::<V>(),
        mix_of(x, stops, r),
        mix_of(x, stops, s),
    ensures
        r == s,
{
    if let Some(color) = r {
        let i = choose|i: int| #[trigger]
            first_between(stops, x, i) && mixed_at(stops, x, i, color);
        assert(!outside(stops, x, i));
        if let Some(other) = s {
            let j = choose|j: int| #[trigger]
                first_between(stops, x, j) && mixed_at(stops, x, j, other);
            assert(!outside(stops, x, j));
            assert(i == j);
            lemma_mixed(stops, x, i, color, other);
        }
    } else if let Some(other) = s {
        let j = choose|j: int| #[trigger]
            first_between(stops, x, j) && mixed_at(stops, x, j, other);
        assert(outside(stops, x, j) && between(stops, x, j));
    }
}

proof fn lemma_color<V: Number, B: Fn(V) -> u8>(
    x: V,
    stops: Seq<Stop<V>>,
    to_byte: B,
    r: Option<[u8; 3]>,
    s: Option<[u8; 3]>,
)
    requires
        repeatable::<V>(),
        converts_once::<V, B>(to_byte),
        color_of(x, stops, to_byte, r),
        color_of(x, stops, to_byte, s),
    ensures
        r == s,
{
    let (level, mixed) = choose|level: V, mixed: Option<[V; 3]>|
        #![trigger level_of(x, level), mix_of(level, stops, mixed)]
        level_of(x, level) && mix_of(level, stops, mixed) && match (mixed, r) {
            (Some(color), Some(bytes)) => forall|k: int|
                0 <= k < 3 ==> byte_of(color[k], to_byte, #[trigger] bytes[k]),
            (None, None) => true,
            _ => false,
        };
    let (level2, mixed2) = choose|level: V, mixed: Option<[V; 3]>|
        #![trigger level_of(x, level), mix_of(level, stops, mixed)]
        level_of(x, level) && mix_of(level, stops, mixed) && match (mixed, s) {
            (Some(color), Some(bytes)) => forall|k: int|
                0 <= k < 3 ==> byte_of(color[k], to_byte, #[trigger] bytes[k]),
            (None, None) => true,
            _ => false,
        };
    lemma_level(x, level, level2);
    lemma_mix(stops, level, mixed, mixed2);
    if let (Some(a), Some(b)) = (r, s) {
        let color = mixed->0;
        assert forall|k: int| 0 <= k < 3 implies a[k] == b[k] by {
            lemma_byte(color[k], to_byte, a[k], b[k]);
        }
        assert(a =~= b);
    }
}

/// A value has one colour in the waterfall.
pub proof fn law_a_value_has_one_color<V: Number, B: Fn(V) -> u8>(
    x: V,
    to_byte: B,
    r: Option<[u8; 3]>,
    s: Option<[u8; 3]>,
)
    requires
        repeatable::<V>(),
        converts_once::<V, B>(to_byte),
        waterfall_color_of(x, to_byte, r),
        waterfall_color_of(x, to_byte, s),
    ensures
        r == s,
{
    let stops = choose|stops: Seq<Stop<V>>| #[trigger]
        gradient_of(stops) && color_of(x, stops, to_byte, r);
    let others = choose|stops: Seq<Stop<V>>| #[trigger]
        gradient_of(stops) && color_of(x, stops, to_byte, s);
    lemma_gradient(stops, others);
    lemma_color(x, stops, to_byte, r, s);
}

/// `pixel` is opaque and has the colour of `value` in the waterfall.
pub open spec fn shows<V: Number, B: Fn(V) -> u8>(pixel: [u8; 4], value: V, to_byte: B) -> bool {
    exists|color: [u8; 3]| #[trigger]
        waterfall_color_of(value, to_byte, Some(color)) && pixel@ == seq![
            color[0],
            color[1],
            color[2],
            255u8,
        ]
}

proof fn lemma_pixel<V: Number, B: Fn(V) -> u8>(
    value: V,
    stops: Seq<Stop<V>>,
    to_byte: B,
    r: [u8; 4],
    s: [u8; 4],
)
    requires
        repeatable::<V>(),
        converts_once::<V, B>(to_byte),
        pixel_of(value, stops, to_byte, r),
        pixel_of(value, stops, to_byte, s),
    ensures
        r == s,
{
    let a = choose|color: [u8; 3]| #[trigger]
        color_of(value, stops, to_byte, Some(color)) && r@ == seq![
            color[0],
            color[1],
            color[2],
            255u8,
        ];
    let b = choose|color: [u8; 3]| #[trigger]
        color_of(value, stops, to_byte, Some(color)) && s@ == seq![
            color[0],
            color[1],
            color[2],
            255u8,
        ];
    lemma_color(value, stops, to_byte, Some(a), Some(b));
    assert forall|k: int| 0 <= k < 4 implies r[k] == s[k] by {
        assert(r@[k] == s@[k]);
    }
    assert(r =~= s);
}

/// The picture scrolls with the waterfall: after a row scrolled in, the topmost pixels have the
/// colours of the row, and below them stand the pixels that were there before, moved down by one
/// row. The size of the picture stays.
pub proof fn law_the_picture_scrolls_with_the_waterfall<V: Number, B: Fn(V) -> u8>(
    cells: Seq<V>,
    line: Seq<V>,
    to_byte: B,
    before: Image,
    after: Image,
)
    requires
        repeatable::<V>(),
        converts_once::<V, B>(to_byte),
        cells.len() == total_len(),
        line.len() == row_len(),
        waterfall_image_of(cells, to_byte, Some(before)),
        waterfall_image_of(scrolled(cells, line), to_byte, Some(after)),
    ensures
        after.width == before.width,
        after.height == before.height,
        after.pixels@.len() == before.pixels@.len() == total_len(),
        forall|i: int|
            0 <= i < row_len() ==> shows(#[trigger] after.pixels@[i], line[i], to_byte),
        after.pixels@.skip(row_len()) == before.pixels@.take(total_len() - row_len()),
{
    let stops = choose|stops: Seq<Stop<V>>| #[trigger]
        gradient_of(stops) && image_of(cells, stops, to_byte, Some(before));
    let others = choose|stops: Seq<Stop<V>>| #[trigger]
        gradient_of(stops) && image_of(scrolled(cells, line), stops, to_byte, Some(after));
    lemma_gradient(stops, others);
    let now = scrolled(cells, line);
    assert forall|i: int| 0 <= i < row_len() implies shows(
        #[trigger] after.pixels@[i],
        line[i],
        to_byte,
    ) by {
        assert(now[i] == line[i]);
        assert(pixel_of(now[i], stops, to_byte, after.pixels@[i]));
        let color = choose|color: [u8; 3]| #[trigger]
            color_of(now[i], stops, to_byte, Some(color)) && after.pixels@[i]@ == seq![
                color[0],
                color[1],
                color[2],
                255u8,
            ];
        assert(waterfall_color_of(line[i], to_byte, Some(color)));
    }
    assert forall|k: int| 0 <= k < total_len() - row_len() implies after.pixels@[k + row_len()]
        == before.pixels@[k] by {
        assert(now[k + row_len()] == cells[k]);
        assert(pixel_of(cells[k], stops, to_byte, after.pixels@[k + row_len()]));
        assert(pixel_of(cells[k], stops, to_byte, before.pixels@[k]));
        lemma_pixel(cells[k], stops, to_byte, after.pixels@[k + row_len()], before.pixels@[k]);
    }
    assert(after.pixels@.skip(row_len()) =~= before.pixels@.take(total_len() - row_len()));
}

}
