//! What colours come out of a gradient, whichever it is.

use crate::color::{
    byte_of, color_of, gradient, gradient_color, gradient_table, level_of, mix, mix_of, stop_of,
    Stop,
};
use crate::exact::held;
use crate::number::{from_of, greater_of, lesser_of, mul_of, ratio_of, Number, Scale};
use crate::shading::{byte_at, lemma_linear, lies_at, ramp};
use crate::waterfall::{image_of, pixel_of, GUIState, Image};
use vstd::prelude::*;

verus! {

/// The stop has these thousandths of red, green and blue, at this many thousandths.
pub open spec fn stands_at<V: Number>(
    scale: Scale<V>,
    stop: Stop<V>,
    red: int,
    green: int,
    blue: int,
    position: int,
) -> bool {
    &&& (scale.place)(stop.color[0]) == Some(red as real / 1000 as real)
    &&& (scale.place)(stop.color[1]) == Some(green as real / 1000 as real)
    &&& (scale.place)(stop.color[2]) == Some(blue as real / 1000 as real)
    &&& (scale.place)(stop.position) == Some(position as real / 1000 as real)
}

/// The gradient of the waterfall begins with black, goes over blue, violet and orange, and is white
/// from 1 on.
pub proof fn law_the_gradient_goes_from_black_to_white<V: Number>(
    scale: Scale<V>,
    r: Vec<Stop<V>>,
)
    requires
        scale.exact(),
        call_ensures(gradient::<V>, (), r),
    ensures
        r@.len() == 8,
        stands_at(scale, r@[0], 0, 0, 0, 0),
        stands_at(scale, r@[1], 0, 200, 230, 210),
        stands_at(scale, r@[2], 0, 300, 600, 325),
        stands_at(scale, r@[3], 510, 360, 1000, 440),
        stands_at(scale, r@[4], 1000, 550, 0, 690),
        stands_at(scale, r@[5], 1000, 860, 690, 850),
        stands_at(scale, r@[6], 1000, 1000, 1000, 1000),
        stands_at(scale, r@[7], 1000, 1000, 1000, 10010),
{
    assert forall|i: int| 0 <= i < 8 implies ({
        let t = gradient_table()[i];
        stands_at(scale, #[trigger] r@[i], t[0] as int, t[1] as int, t[2] as int, t[3] as int)
    }) by {
        assert(stop_of(gradient_table()[i], r@[i]));
        lemma_thousandths(scale, gradient_table()[i], r@[i]);
    }
    assert(gradient_table()[0]@ =~= [0u16, 0, 0, 0]@);
    assert(gradient_table()[7][3] == 10010);
}

proof fn lemma_thousandths<V: Number>(scale: Scale<V>, t: [u16; 4], r: Stop<V>)
    requires
        scale.exact(),
        stop_of(t, r),
    ensures
        stands_at(scale, r, t[0] as int, t[1] as int, t[2] as int, t[3] as int),
{
    lemma_thousandth(scale, t[0], r.color[0]);
    lemma_thousandth(scale, t[1], r.color[1]);
    lemma_thousandth(scale, t[2], r.color[2]);
    lemma_thousandth(scale, t[3], r.position);
}

proof fn lemma_thousandth<V: Number>(scale: Scale<V>, n: u16, r: V)
    requires
        scale.exact(),
        ratio_of(n, 1000, r),
    ensures
        (scale.place)(r) == Some(n as real / 1000 as real),
{
    assert(scale.has(r) && scale.at(r) * 1000 as real == n as real);
}

/// Where `x` is looked up: at 0 where it is below or not a number, and at most at 10.
pub open spec fn level_at<V: Number>(scale: Scale<V>, x: V) -> real {
    if !scale.has(x) || scale.at(x) < 0 as real {
        0 as real
    } else if scale.at(x) > 10 as real {
        10 as real
    } else {
        scale.at(x)
    }
}

/// Stop `i` stands at or below `q`, and the next above.
pub open spec fn around<V: Number>(
    scale: Scale<V>,
    stops: Seq<Stop<V>>,
    q: real,
    i: int,
) -> bool {
    &&& 0 <= i < stops.len() - 1
    &&& scale.at(stops[i].position) <= q < scale.at(stops[i + 1].position)
}

/// 255 times channel `k` at `q` between stop `i` and the next, held between 0 and 255.
pub open spec fn tone<V: Number>(
    scale: Scale<V>,
    stops: Seq<Stop<V>>,
    q: real,
    i: int,
    k: int,
) -> real {
    255 as real * held(
        ramp(
            q,
            scale.at(stops[i].position),
            scale.at(stops[i + 1].position),
            scale.at(stops[i].color[k]),
            scale.at(stops[i + 1].color[k]),
        ),
    )
}

/// The bytes are what `to_byte` made of red, green and blue at `q`, between the first two
/// neighbouring stops around it.
pub open spec fn toned<V: Number, B: Fn(V) -> u8>(
    scale: Scale<V>,
    stops: Seq<Stop<V>>,
    to_byte: B,
    q: real,
    red: u8,
    green: u8,
    blue: u8,
) -> bool {
    exists|i: int|
        {
            &&& #[trigger] around(scale, stops, q, i)
            &&& forall|j: int| 0 <= j < i ==> !#[trigger] around(scale, stops, q, j)
            &&& byte_at(scale, to_byte, tone(scale, stops, q, i, 0), red)
            &&& byte_at(scale, to_byte, tone(scale, stops, q, i, 1), green)
            &&& byte_at(scale, to_byte, tone(scale, stops, q, i, 2), blue)
        }
}

/// All positions and colours of the stops are numbers.
pub open spec fn numbered<V: Number>(scale: Scale<V>, stops: Seq<Stop<V>>) -> bool {
    &&& forall|i: int| 0 <= i < stops.len() ==> scale.has((#[trigger] stops[i]).position)
    &&& forall|i: int, k: int|
        #![trigger stops[i].color[k]]
        0 <= i < stops.len() && 0 <= k < 3 ==> scale.has(stops[i].color[k])
}

/// A value has a colour exactly where two neighbouring stops are around its level. Red, green and
/// blue each run evenly from the one stop to the other, are held between 0 and 1, and are taken
/// 255 times.
pub proof fn law_colors_run_between_the_stops<V: Number, B: Fn(V) -> u8>(
    scale: Scale<V>,
    x: V,
    stops: &[Stop<V>],
    to_byte: &B,
    r: Option<[u8; 3]>,
)
    requires
        scale.exact(),
        numbered(scale, stops@),
        call_ensures(gradient_color::<V, B>, (x, stops, to_byte), r),
    ensures
        r is Some <==> exists|i: int| #[trigger] around(scale, stops@, level_at(scale, x), i),
        r matches Some(bytes) ==> toned(
            scale,
            stops@,
            *to_byte,
            level_at(scale, x),
            bytes[0],
            bytes[1],
            bytes[2],
        ),
{
    lemma_color_of(scale, x, stops@, *to_byte, r);
}

/// No two neighbouring stops are around the level of `x`.
pub open spec fn colorless<V: Number>(scale: Scale<V>, stops: Seq<Stop<V>>, x: V) -> bool {
    forall|i: int| !#[trigger] around(scale, stops, level_at(scale, x), i)
}

/// The picture is 512 pixels wide and 50 high, in any gradient. Each pixel is opaque and has the
/// colour of the cell at its place. There is no picture exactly where a cell has no colour.
pub proof fn law_pictures_show_every_cell_in_any_gradient<V: Number, B: Fn(V) -> u8>(
    scale: Scale<V>,
    state: &GUIState<V>,
    stops: &[Stop<V>],
    to_byte: &B,
    r: Option<Image>,
)
    requires
        scale.exact(),
        numbered(scale, stops@),
        call_ensures(GUIState::<V>::image_in::<B>, (state, stops, to_byte), r),
    ensures
        r is None <==> exists|c: int|
            0 <= c < state.cells().len() && #[trigger] colorless(scale, stops@, state.cells()[c]),
        r matches Some(image) ==> {
            &&& image.width == 512
            &&& image.height == 50
            &&& image.pixels@.len() == state.cells().len()
            &&& forall|c: int|
                0 <= c < state.cells().len() ==> #[trigger] shows(
                    scale,
                    stops@,
                    *to_byte,
                    state.cells()[c],
                    image.pixels@[c],
                )
        },
{
    let cells = state.cells();
    match r {
        Some(image) => {
            assert forall|c: int| 0 <= c < cells.len() implies #[trigger] shows(
                scale,
                stops@,
                *to_byte,
                cells[c],
                image.pixels@[c],
            ) by {
                assert(pixel_of(cells[c], stops@, *to_byte, image.pixels@[c]));
                lemma_pixel(scale, stops@, *to_byte, cells[c], image.pixels@[c]);
            }
            assert forall|c: int| 0 <= c < cells.len() implies !#[trigger] colorless(
                scale,
                stops@,
                cells[c],
            ) by {
                assert(pixel_of(cells[c], stops@, *to_byte, image.pixels@[c]));
                lemma_pixel(scale, stops@, *to_byte, cells[c], image.pixels@[c]);
            }
        },
        None => {
            let c = choose|c: int|
                0 <= c < cells.len() && color_of(#[trigger] cells[c], stops@, *to_byte, None);
            lemma_color_of(scale, cells[c], stops@, *to_byte, None);
            assert(colorless(scale, stops@, cells[c]));
        },
    }
}

/// The pixel is opaque and has the colour of `x`.
pub open spec fn shows<V: Number, B: Fn(V) -> u8>(
    scale: Scale<V>,
    stops: Seq<Stop<V>>,
    to_byte: B,
    x: V,
    pixel: [u8; 4],
) -> bool {
    &&& pixel[3] == 255
    &&& toned(scale, stops, to_byte, level_at(scale, x), pixel[0], pixel[1], pixel[2])
}

proof fn lemma_pixel<V: Number, B: Fn(V) -> u8>(
    scale: Scale<V>,
    stops: Seq<Stop<V>>,
    to_byte: B,
    x: V,
    pixel: [u8; 4],
)
    requires
        scale.exact(),
        numbered(scale, stops),
        pixel_of(x, stops, to_byte, pixel),
    ensures
        shows(scale, stops, to_byte, x, pixel),
        !colorless(scale, stops, x),
{
    let color = choose|color: [u8; 3]| #[trigger]
        color_of(x, stops, to_byte, Some(color)) && pixel@ == seq![
            color[0],
            color[1],
            color[2],
            255u8,
        ];
    lemma_bytes(pixel, color);
    lemma_color_of(scale, x, stops, to_byte, Some(color));
}

proof fn lemma_bytes(pixel: [u8; 4], color: [u8; 3])
    requires
        pixel@ == seq![color[0], color[1], color[2], 255u8],
    ensures
        pixel[0] == color[0],
        pixel[1] == color[1],
        pixel[2] == color[2],
        pixel[3] == 255,
{
    assert(pixel[0] == pixel@[0] && pixel[1] == pixel@[1] && pixel[2] == pixel@[2] && pixel[3]
        == pixel@[3]);
}

proof fn lemma_color_of<V: Number, B: Fn(V) -> u8>(
    scale: Scale<V>,
    x: V,
    stops: Seq<Stop<V>>,
    to_byte: B,
    r: Option<[u8; 3]>,
)
    requires
        scale.exact(),
        numbered(scale, stops),
        color_of(x, stops, to_byte, r),
    ensures
        r is Some <==> exists|i: int| #[trigger] around(scale, stops, level_at(scale, x), i),
        r matches Some(bytes) ==> toned(
            scale,
            stops,
            to_byte,
            level_at(scale, x),
            bytes[0],
            bytes[1],
            bytes[2],
        ),
{
    let q = level_at(scale, x);
    let (level, mixed) = choose|level: V, mixed: Option<[V; 3]>|
        #![trigger level_of(x, level), mix_of(level, stops, mixed)]
        level_of(x, level) && mix_of(level, stops, mixed) && match (mixed, r) {
            (Some(color), Some(bytes)) => forall|k: int|
                0 <= k < 3 ==> byte_of(color[k], to_byte, #[trigger] bytes[k]),
            (None, None) => true,
            _ => false,
        };
    lemma_level(scale, x, level);
    lemma_linear(scale, level, stops, mixed);
    assert forall|i: int| #[trigger] around(scale, stops, q, i) == lies_at(
        scale,
        level,
        stops,
        i,
    ) by {}
    match mixed {
        Some(color) => {
            let bytes = r->0;
            let i = choose|i: int|
                {
                    &&& #[trigger] lies_at(scale, level, stops, i)
                    &&& forall|j: int| 0 <= j < i ==> !#[trigger] lies_at(scale, level, stops, j)
                    &&& forall|k: int|
                        0 <= k < 3 ==> {
                            let (low, high) = (stops[i], stops[i + 1]);
                            &&& scale.has(#[trigger] color[k])
                            &&& (scale.at(color[k]) - scale.at(low.color[k])) * (scale.at(
                                high.position,
                            ) - scale.at(low.position)) == (scale.at(high.color[k]) - scale.at(
                                low.color[k],
                            )) * (scale.at(level) - scale.at(low.position))
                        }
                };
            assert(around(scale, stops, q, i));
            assert forall|j: int| 0 <= j < i implies !#[trigger] around(scale, stops, q, j) by {
                assert(!lies_at(scale, level, stops, j));
            }
            assert forall|k: int| 0 <= k < 3 implies byte_at(
                scale,
                to_byte,
                tone(scale, stops, q, i, k),
                #[trigger] bytes[k],
            ) by {
                assert(byte_of(color[k], to_byte, bytes[k]));
                let (low, high) = (stops[i], stops[i + 1]);
                let (lo, hi) = (scale.at(low.position), scale.at(high.position));
                let (c, d, e) = (
                    scale.at(low.color[k]),
                    scale.at(high.color[k]),
                    scale.at(color[k]),
                );
                assert(scale.has(color[k]) && (e - c) * (hi - lo) == (d - c) * (q - lo));
                assert(e == ramp(q, lo, hi, c, d)) by (nonlinear_arith)
                    requires
                        (e - c) * (hi - lo) == (d - c) * (q - lo),
                        lo < hi,
                        ramp(q, lo, hi, c, d) == c + (d - c) * ((q - lo) / (hi - lo)),
                ;
                lemma_byte_of(scale, color[k], to_byte, bytes[k]);
            }
            assert(byte_at(scale, to_byte, tone(scale, stops, q, i, 0), bytes[0]));
            assert(byte_at(scale, to_byte, tone(scale, stops, q, i, 1), bytes[1]));
            assert(byte_at(scale, to_byte, tone(scale, stops, q, i, 2), bytes[2]));
            assert(toned(scale, stops, to_byte, q, bytes[0], bytes[1], bytes[2]));
        },
        None => {
            assert forall|i: int| !#[trigger] around(scale, stops, q, i) by {
                assert(!lies_at(scale, level, stops, i));
            }
        },
    }
}

proof fn lemma_level<V: Number>(scale: Scale<V>, x: V, r: V)
    requires
        scale.exact(),
        level_of(x, r),
    ensures
        (scale.place)(r) == Some(level_at(scale, x)),
{
    let (zero, ten, raised) = choose|zero: V, ten: V, raised: V|
        #![trigger from_of(10, ten), greater_of(x, zero, raised)]
        from_of(0, zero) && from_of(10, ten) && greater_of(x, zero, raised) && lesser_of(
            raised,
            ten,
            r,
        );
    assert((scale.place)(zero) == Some(0 as real) && (scale.place)(ten) == Some(10 as real));
}

proof fn lemma_byte_of<V: Number, B: Fn(V) -> u8>(scale: Scale<V>, channel: V, to_byte: B, r: u8)
    requires
        scale.exact(),
        scale.has(channel),
        byte_of(channel, to_byte, r),
    ensures
        byte_at(scale, to_byte, 255 as real * held(scale.at(channel)), r),
{
    let (zero, one, most, raised, kept, scaled) = choose|
        zero: V,
        one: V,
        most: V,
        raised: V,
        kept: V,
        scaled: V,
    |
        #![trigger
            greater_of(channel, zero, raised),
            lesser_of(raised, one, kept),
            from_of(255, most),
            call_ensures(to_byte, (scaled,), r),
        ]
        from_of(0, zero) && from_of(1, one) && from_of(255, most) && greater_of(
            channel,
            zero,
            raised,
        ) && lesser_of(raised, one, kept) && mul_of(kept, most, scaled) && call_ensures(
            to_byte,
            (scaled,),
            r,
        );
    assert((scale.place)(zero) == Some(0 as real) && (scale.place)(one) == Some(1 as real));
    assert((scale.place)(most) == Some(255 as real));
    assert((scale.place)(kept) == Some(held(scale.at(channel))));
    assert((scale.place)(scaled) == Some(255 as real * held(scale.at(channel))));
}

/// What is not a number has no colour.
pub proof fn law_only_numbers_are_mixed<V: Number>(
    scale: Scale<V>,
    x: V,
    stops: &[Stop<V>],
    r: Option<[V; 3]>,
)
    requires
        scale.followed(),
        !scale.has(x),
        call_ensures(mix::<V>, (x, stops), r),
    ensures
        r is None,
{
}

}
