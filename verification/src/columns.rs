//! What the columns and rows of the waterfall show, written out in real numbers.

use crate::inbox::came_in;
use crate::number::{
    add_of, div_of, from_of, greater_of, mul_of, ratio_of, repeatable, sub_of, Number, Scale,
};
use crate::waterfall::{
    base_of, blended_of, column_share_of, drained_of, fed_of, law_each_spectrum_gives_a_row,
    law_waterfall_shows_the_latest_rows, lines_of, long_enough, point_of, points_of, position_of,
    read_row, row_len, row_of, rows_of, sample_points, scrolled, scrolled_all, spread_of,
    total_len, GUIState, Purpose, SamplePoint, ShortLine,
};
use crossbeam_channel::Receiver;
use vstd::prelude::*;

verus! {

proof fn lemma_blended<V: Number>(scale: Scale<V>, low: V, high: V, fraction: V, r: V)
    requires
        scale.exact(),
        scale.has(low),
        scale.has(high),
        scale.has(fraction),
        blended_of(low, high, fraction, r),
    ensures
        (scale.place)(r) == Some(
            scale.at(low) * (1 as real - scale.at(fraction)) + scale.at(high) * scale.at(fraction),
        ),
{
}

proof fn lemma_column<V: Number>(
    scale: Scale<V>,
    points: Seq<SamplePoint<V>>,
    line: Seq<V>,
    row: Seq<V>,
    i: int,
)
    requires
        scale.exact(),
        row_of(points, line, row),
        long_enough(points, line),
        0 <= i < points.len(),
        scale.has(points[i].fraction),
        forall|j: int| 0 <= j < line.len() ==> scale.has(#[trigger] line[j]),
    ensures
        ({
            let (k, t) = (points[i].index as int, scale.at(points[i].fraction));
            (scale.place)(row[i]) == if k == 0 {
                (scale.place)(line[0])
            } else {
                Some(scale.at(line[k - 1]) * (1 as real - t) + scale.at(line[k]) * t)
            }
        }),
{
    let (k, t) = (points[i].index as int, scale.at(points[i].fraction));
    assert(k < line.len());
    let before = if k == 0 {
        0
    } else {
        k - 1
    };
    assert(scale.has(line[before]) && scale.has(line[k]));
    assert(blended_of(line[before], line[k], points[i].fraction, row[i]));
    lemma_blended(scale, line[before], line[k], points[i].fraction, row[i]);
    if k == 0 {
        let a = scale.at(line[0]);
        assert(a * (1 as real - t) + a * t == a) by (nonlinear_arith);
    }
}

/// A column that is read at index `k` and fraction `t` shows `t` of bin `k` and the rest of bin
/// `k - 1`, the one just before. At index 0 it shows bin 0. A row can be read exactly where no
/// index is past the last bin.
pub proof fn law_columns_are_read_from_two_neighbouring_bins<V: Number>(
    scale: Scale<V>,
    points: &[SamplePoint<V>],
    line: &[V],
    r: Result<Vec<V>, ShortLine>,
    i: int,
)
    requires
        scale.exact(),
        call_ensures(read_row::<V>, (points, line), r),
        0 <= i < points@.len(),
        scale.has(points@[i].fraction),
        forall|j: int| 0 <= j < line@.len() ==> scale.has(#[trigger] line@[j]),
    ensures
        r is Ok <==> forall|j: int|
            0 <= j < points@.len() ==> (#[trigger] points@[j]).index < line@.len(),
        r matches Ok(row) ==> ({
            let (k, t) = (points@[i].index as int, scale.at(points@[i].fraction));
            &&& row@.len() == points@.len()
            &&& k == 0 ==> (scale.place)(row@[i]) == (scale.place)(line@[0])
            &&& k >= 1 ==> (scale.place)(row@[i]) == Some(
                scale.at(line@[k - 1]) * (1 as real - t) + scale.at(line@[k]) * t,
            )
        }),
{
    if let Ok(row) = r {
        lemma_column(scale, points@, line@, row@, i);
    }
}

/// Two spectra that agree on bins `k - 1` and `k` give the same column at index `k`, whatever they
/// hold elsewhere. At index 0 they have to agree on bin 0 only.
pub proof fn law_columns_depend_on_two_neighbouring_bins<V: Number>(
    points: &[SamplePoint<V>],
    line: &[V],
    other: &[V],
    row: Vec<V>,
    other_row: Vec<V>,
    i: int,
)
    requires
        repeatable::<V>(),
        call_ensures(read_row::<V>, (points, line), Ok(row)),
        call_ensures(read_row::<V>, (points, other), Ok(other_row)),
        0 <= i < points@.len(),
        ({
            let k = points@[i].index as int;
            &&& line@[k] == other@[k]
            &&& k >= 1 ==> line@[k - 1] == other@[k - 1]
        }),
    ensures
        row@[i] == other_row@[i],
{
    let k = points@[i].index as int;
    let before = if k == 0 {
        0
    } else {
        k - 1
    };
    let fraction = points@[i].fraction;
    assert(blended_of(line@[before], line@[k], fraction, row@[i]));
    assert(blended_of(other@[before], other@[k], fraction, other_row@[i]));
    lemma_blended_once(line@[before], line@[k], fraction, row@[i], other_row@[i]);
}

proof fn lemma_blended_once<V: Number>(low: V, high: V, fraction: V, r: V, s: V)
    requires
        repeatable::<V>(),
        blended_of(low, high, fraction, r),
        blended_of(low, high, fraction, s),
    ensures
        r == s,
{
}

/// `log2` computes the function `lg` of real numbers on positive numbers.
pub open spec fn computes<V: Number, L: Fn(V) -> V>(
    scale: Scale<V>,
    log2: L,
    lg: spec_fn(real) -> real,
) -> bool {
    forall|x: V, r: V| #[trigger]
        call_ensures(log2, (x,), r) && scale.has(x) && scale.at(x) > 0 as real ==> (scale.place)(r)
            == Some(lg(scale.at(x)))
}

proof fn lemma_ratio<V: Number>(scale: Scale<V>, n: u16, d: u16, r: V)
    requires
        scale.exact(),
        d > 0,
        ratio_of(n, d, r),
    ensures
        scale.has(r),
        scale.at(r) * d as real == n as real,
{
}

/// Column `i` of the 512 is read at the position `511 * lg((512 - i) / 513) / lg(1 / 512)`, and not
/// below a thousandth: its index is the whole part of that position and its fraction the rest, as
/// `floor` and `fract` tell them.
pub proof fn law_columns_stand_on_a_logarithmic_scale<
    V: Number,
    L: Fn(V) -> V,
    I: Fn(V) -> usize,
    R: Fn(V) -> V,
>(
    scale: Scale<V>,
    lg: spec_fn(real) -> real,
    log2: &L,
    floor: &I,
    fract: &R,
    r: Vec<SamplePoint<V>>,
    i: int,
)
    requires
        scale.exact(),
        computes(scale, *log2, lg),
        lg(1 as real / 512 as real) != 0 as real,
        call_ensures(sample_points::<V, L, I, R>, (log2, floor, fract), r),
        0 <= i < 512,
    ensures
        r@.len() == 512,
        ({
            let x = 511 as real * lg((512 - i) as real / 513 as real) / lg(
                1 as real / 512 as real,
            );
            let least = 1 as real / 1000 as real;
            exists|position: V|
                {
                    &&& (scale.place)(position) == Some(
                        if x < least {
                            least
                        } else {
                            x
                        },
                    )
                    &&& #[trigger] call_ensures(*floor, (position,), r@[i].index)
                    &&& call_ensures(*fract, (position,), r@[i].fraction)
                }
        }),
{
    assert(points_of(*log2, *floor, *fract, r@));
    assert(point_of(*log2, *floor, *fract, i, r@[i]));
    let position = choose|position: V| #[trigger]
        position_of(*log2, i, position) && call_ensures(*floor, (position,), r@[i].index)
            && call_ensures(*fract, (position,), r@[i].fraction);
    lemma_position(scale, lg, *log2, i, position);
}

proof fn lemma_position<V: Number, L: Fn(V) -> V>(
    scale: Scale<V>,
    lg: spec_fn(real) -> real,
    log2: L,
    i: int,
    r: V,
)
    requires
        scale.exact(),
        computes(scale, log2, lg),
        lg(1 as real / 512 as real) != 0 as real,
        0 <= i < 512,
        position_of(log2, i, r),
    ensures
        ({
            let x = 511 as real * lg((512 - i) as real / 513 as real) / lg(
                1 as real / 512 as real,
            );
            let least = 1 as real / 1000 as real;
            (scale.place)(r) == Some(
                if x < least {
                    least
                } else {
                    x
                },
            )
        }),
{
    let (share, logarithm, base, position) = choose|share: V, logarithm: V, base: V, position: V|
        #![trigger
            column_share_of(i, share),
            call_ensures(log2, (share,), logarithm),
            base_of(log2, base),
            spread_of(logarithm, base, position),
        ]
        column_share_of(i, share) && call_ensures(log2, (share,), logarithm) && base_of(log2, base)
            && spread_of(logarithm, base, position) && exists|least: V| #[trigger]
            ratio_of(1, 1000, least) && greater_of(position, least, r);
    let least = choose|least: V| #[trigger]
        ratio_of(1, 1000, least) && greater_of(position, least, r);
    lemma_ratio(scale, 1, 1000, least);
    lemma_share(scale, i, share);
    lemma_base(scale, lg, log2, base);
    let (l, b) = (scale.at(logarithm), scale.at(base));
    lemma_spread(scale, logarithm, base, position);
    let p = scale.at(position);
    assert(p == 511 as real * l / b);
    assert(scale.at(least) == 1 as real / 1000 as real);
}

proof fn lemma_share<V: Number>(scale: Scale<V>, i: int, share: V)
    requires
        scale.exact(),
        0 <= i < 512,
        column_share_of(i, share),
    ensures
        (scale.place)(share) == Some((512 - i) as real / 513 as real),
        scale.at(share) > 0 as real,
{
    let (one, left) = choose|one: V, left: V| #[trigger]
        from_of(1, one) && #[trigger] ratio_of((i + 1) as u16, 513u16, left) && sub_of(
            one,
            left,
            share,
        );
    lemma_ratio(scale, (i + 1) as u16, 513, left);
    let (a, s) = (scale.at(left), scale.at(share));
    assert(a * 513 as real == (i + 1) as real);
    assert(s == 1 as real - a);
    let j = (512 - i) as real;
    assert(j == 513 as real - (i + 1) as real);
    assert(s == j / 513 as real) by (nonlinear_arith)
        requires
            s == 1 as real - a,
            j == 513 as real - a * 513 as real,
    ;
    assert(j >= 1 as real);
}

proof fn lemma_base<V: Number, L: Fn(V) -> V>(
    scale: Scale<V>,
    lg: spec_fn(real) -> real,
    log2: L,
    base: V,
)
    requires
        scale.exact(),
        computes(scale, log2, lg),
        base_of(log2, base),
    ensures
        (scale.place)(base) == Some(lg(1 as real / 512 as real)),
{
    let column = choose|column: V| #[trigger]
        ratio_of(1, 512u16, column) && call_ensures(log2, (column,), base);
    lemma_ratio(scale, 1, 512, column);
    let c = scale.at(column);
    assert(c == 1 as real / 512 as real) by (nonlinear_arith)
        requires
            c * 512 as real == 1 as real,
    ;
}

proof fn lemma_spread<V: Number>(scale: Scale<V>, logarithm: V, base: V, r: V)
    requires
        scale.exact(),
        scale.has(logarithm),
        scale.has(base),
        scale.at(base) != 0 as real,
        spread_of(logarithm, base, r),
    ensures
        (scale.place)(r) == Some(511 as real * scale.at(logarithm) / scale.at(base)),
{
    let (unit, last) = choose|unit: V, last: V| #[trigger]
        div_of(logarithm, base, unit) && #[trigger] from_of(511u16, last) && mul_of(unit, last, r);
    let (l, b, u) = (scale.at(logarithm), scale.at(base), scale.at(unit));
    assert(scale.has(unit) && u * b == l && scale.at(last) == 511 as real);
    assert(u * 511 as real == 511 as real * l / b) by (nonlinear_arith)
        requires
            u * b == l,
            b != 0 as real,
    ;
}

/// Once `lines` came in, the cell in row `k` and column `c` of the waterfall, 50 rows of 512, shows
/// the spectrum before the last `k` of them at its point, blended from bins `index - 1` and
/// `index`. Below the rows of `lines`, it shows what stood as many rows higher.
pub proof fn law_cells_show_their_spectrum<V: Number>(
    scale: Scale<V>,
    points: Seq<SamplePoint<V>>,
    lines: Seq<Seq<V>>,
    cells: Seq<V>,
    after: Seq<V>,
    k: int,
    c: int,
)
    requires
        scale.exact(),
        points.len() == 512,
        cells.len() == 25600,
        fed_of(points, lines, cells, after),
        0 <= k < 50,
        0 <= c < 512,
        scale.has(points[c].fraction),
        forall|i: int, j: int|
            #![trigger lines[i][j]]
            0 <= i < lines.len() && 0 <= j < lines[i].len() ==> scale.has(lines[i][j]),
    ensures
        after.len() == 25600,
        ({
            let n = lines.len() as int;
            let cell = after[k * 512 + c];
            let (index, t) = (points[c].index as int, scale.at(points[c].fraction));
            &&& k >= n ==> cell == cells[(k - n) * 512 + c]
            &&& k < n ==> ({
                let line = lines[n - 1 - k];
                &&& index < line.len()
                &&& index == 0 ==> (scale.place)(cell) == (scale.place)(line[0])
                &&& index >= 1 ==> (scale.place)(cell) == Some(
                    scale.at(line[index - 1]) * (1 as real - t) + scale.at(line[index]) * t,
                )
            })
        }),
{
    let n = lines.len() as int;
    assert(row_len() == 512);
    law_each_spectrum_gives_a_row(points, lines, cells, after, k);
    let rows = choose|rows: Seq<Seq<V>>| #[trigger]
        rows_of(points, lines, rows) && after == scrolled_all(cells, rows);
    law_waterfall_shows_the_latest_rows(cells, rows, k);
    let row = after.subrange(k * row_len(), (k + 1) * row_len());
    assert(row[c] == after[k * 512 + c]);
    if k < n {
        let line = lines[n - 1 - k];
        assert(long_enough(points, line));
        assert forall|j: int| 0 <= j < line.len() implies scale.has(#[trigger] line[j]) by {
            assert(scale.has(lines[n - 1 - k][j]));
        }
        lemma_column(scale, points, line, row, c);
    } else {
        let old = cells.subrange((k - n) * row_len(), (k - n + 1) * row_len());
        assert(old[c] == cells[(k - n) * 512 + c]);
    }
}

/// How taking `messages` out of a channel ends: in an error exactly where one of them has too few
/// bins for a column, and that one is the last. Else it tells whether there were any.
pub proof fn law_taking_ends_at_a_short_spectrum<V: Number>(
    points: Seq<SamplePoint<V>>,
    channel: Receiver<Vec<V>>,
    messages: Seq<Vec<V>>,
    cells: Seq<V>,
    after: Seq<V>,
    r: Result<bool, ShortLine>,
)
    requires
        drained_of(points, channel, messages, cells, after, r),
    ensures
        r is Ok <==> forall|i: int, c: int|
            #![trigger messages[i], points[c]]
            0 <= i < messages.len() && 0 <= c < points.len() ==> points[c].index
                < messages[i]@.len(),
        r matches Ok(updated) ==> updated == (messages.len() != 0),
        r is Err ==> forall|i: int, c: int|
            #![trigger messages[i], points[c]]
            0 <= i < messages.len() - 1 && 0 <= c < points.len() ==> points[c].index
                < messages[i]@.len(),
        r is Ok ==> came_in(channel, None) || messages.len() == u64::MAX,
        forall|i: int|
            0 <= i < messages.len() ==> came_in(channel, Some(#[trigger] messages[i])),
{
    let lines = lines_of(messages);
    if r is Ok {
        let rows = choose|rows: Seq<Seq<V>>| #[trigger]
            rows_of(points, lines, rows) && after == scrolled_all(cells, rows);
        assert forall|i: int, c: int|
            #![trigger messages[i], points[c]]
            0 <= i < messages.len() && 0 <= c < points.len() implies points[c].index
            < messages[i]@.len() by {
            assert(long_enough(points, lines[i]));
        }
    } else {
        let n = messages.len() - 1;
        assert(lines.last() == messages[n]@);
        let c = choose|c: int|
            0 <= c < points.len() && !((#[trigger] points[c]).index < lines.last().len());
        assert(!(points[c].index < messages[n]@.len()));
        let rows = choose|rows: Seq<Seq<V>>| #[trigger]
            rows_of(points, lines.drop_last(), rows) && after == scrolled_all(
                cells,
                rows,
            );
        assert forall|i: int, c: int|
            #![trigger messages[i], points[c]]
            0 <= i < n && 0 <= c < points.len() implies points[c].index < messages[i]@.len() by {
            assert(long_enough(points, lines.drop_last()[i]));
        }
    }
}

/// A row that scrolls in stands on top, cell by cell, and everything else moves down by one row of
/// 512.
pub proof fn law_scrolling_moves_down_by_one_row<V>(cells: Seq<V>, line: Seq<V>, i: int)
    requires
        cells.len() == 25600,
        line.len() == 512,
        0 <= i < 25600,
    ensures
        scrolled(cells, line).len() == 25600,
        i < 512 ==> scrolled(cells, line)[i] == line[i],
        i >= 512 ==> scrolled(cells, line)[i] == cells[i - 512],
{
}

/// A new waterfall has 50 rows of 512 cells that all show seven hundredths. Nothing was received,
/// and no directory is remembered.
pub proof fn law_a_new_waterfall_shows_seven_hundredths<V: Number>(
    scale: Scale<V>,
    input: Receiver<Vec<V>>,
    r: GUIState<V>,
    i: int,
)
    requires
        scale.exact(),
        call_ensures(GUIState::<V>::new, (input,), r),
        0 <= i < 25600,
    ensures
        r.cells().len() == 25600,
        (scale.place)(r.cells()[i]) == Some(7 as real / 100 as real),
        r.channel() == input,
        r.received().len() == 0,
        r.directory_for(Purpose::SaveRecording) is None,
        r.directory_for(Purpose::SaveConfig) is None,
        r.directory_for(Purpose::LoadConfig) is None,
{
    let rest = choose|rest: V| #[trigger]
        ratio_of(7, 100, rest) && r.cells() == Seq::new(
            total_len() as nat,
            |i: int| rest,
        );
    lemma_ratio(scale, 7, 100, rest);
    let x = scale.at(rest);
    assert(x == 7 as real / 100 as real) by (nonlinear_arith)
        requires
            x * 100 as real == 7 as real,
    ;
}

}
