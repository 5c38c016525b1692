//! The waterfall: a picture of the latest spectra, newest on top, and the state of the panel that
//! goes with it.

use crate::color::{color_of, gradient, gradient_color, gradient_of, Stop};
use crate::inbox::{came_in, Inbox};
use crate::number::{
    add_of, defined_everywhere, div_of, from_of, greater, greater_of, mul_of, ratio, ratio_of,
    sub_of, Number,
};
use crossbeam_channel::Receiver;
use eframe::egui::Color32;
use std::path::PathBuf;
use vstd::prelude::*;

verus! {

/// Width of the waterfall in pixels.
pub const WATERFALL_WIDTH: u32 = 512;

/// Height of the waterfall in pixels.
pub const WATERFALL_HEIGHT: u32 = 50;

/// A path of the file system.
#[verifier::external_type_specification]
#[verifier::external_body]
pub struct ExPathBuf(std::path::PathBuf);

/// What the panel keeps between frames.
#[verifier::reject_recursive_types(V)]
pub struct GUIState<V> {
    waterfall: Vec<V>,
    inbox: Inbox<Vec<V>>,
    recording_save_path: Option<PathBuf>,
    config_save_path: Option<PathBuf>,
    config_load_path: Option<PathBuf>,
}

/// What a directory that was chosen in a dialog is remembered for.
#[derive(Clone, Copy, PartialEq, Eq, Structural, Debug)]
pub enum Purpose {
    /// Saving a recording.
    SaveRecording,
    /// Saving an engine configuration.
    SaveConfig,
    /// Loading an engine configuration.
    LoadConfig,
}

/// Where a column of the waterfall is read from a spectrum: `fraction` of the way from the bin
/// before `index` to the bin `index`.
pub struct SamplePoint<V> {
    pub index: usize,
    pub fraction: V,
}

/// A picture: rows of pixels from top to bottom, each pixel red, green, blue and opacity.
pub struct Image {
    pub width: usize,
    pub height: usize,
    pub pixels: Vec<[u8; 4]>,
}

/// A spectrum that has fewer bins than the columns of the waterfall are read from.
#[derive(Clone, Copy, PartialEq, Eq, Structural, Debug)]
pub struct ShortLine;

/// Number of pixels in a row.
pub open spec fn row_len() -> int {
    WATERFALL_WIDTH as int
}

/// Number of pixels in the waterfall.
pub open spec fn total_len() -> int {
    WATERFALL_WIDTH * WATERFALL_HEIGHT
}

/// `cells` with `line` as a new row on top and the lowest row gone.
pub open spec fn scrolled<V>(cells: Seq<V>, line: Seq<V>) -> Seq<V> {
    line + cells.take(cells.len() - line.len())
}

/// `r` is `fraction` of the way from `low` to `high`.
pub open spec fn blended_of<V: Number>(low: V, high: V, fraction: V, r: V) -> bool {
    exists|one: V, rest: V, left: V, right: V|
        #![trigger
            sub_of(one, fraction, rest),
            mul_of(low, rest, left),
            mul_of(high, fraction, right),
        ]
        from_of(1, one) && sub_of(one, fraction, rest) && mul_of(low, rest, left) && mul_of(
            high,
            fraction,
            right,
        ) && add_of(left, right, r)
}

/// `r` is the position in a spectrum that column `i` is read at: the columns run from the low bins
/// to the high ones on a logarithmic scale, and no position is below a thousandth.
pub open spec fn position_of<V: Number, L: Fn(V) -> V>(log2: L, i: int, r: V) -> bool {
    exists|share: V, logarithm: V, base: V, position: V|
        #![trigger
            column_share_of(i, share),
            call_ensures(log2, (share,), logarithm),
            base_of(log2, base),
            spread_of(logarithm, base, position),
        ]
        column_share_of(i, share) && call_ensures(log2, (share,), logarithm) && base_of(log2, base)
            && spread_of(logarithm, base, position) && exists|least: V| #[trigger]
            ratio_of(1, 1000, least) && greater_of(position, least, r)
}

/// `r` is the share of the columns that stand to the right of column `i`, counted with one column
/// more than there are.
pub open spec fn column_share_of<V: Number>(i: int, r: V) -> bool {
    exists|one: V, left: V| #[trigger]
        from_of(1, one) && #[trigger] ratio_of((i + 1) as u16, (WATERFALL_WIDTH + 1) as u16, left)
            && sub_of(one, left, r)
}

/// `r` is the logarithm of one column's share of the width.
pub open spec fn base_of<V: Number, L: Fn(V) -> V>(log2: L, r: V) -> bool {
    exists|column: V| #[trigger]
        ratio_of(1, WATERFALL_WIDTH as u16, column) && call_ensures(log2, (column,), r)
}

/// `r` is `logarithm` in units of `base`, spread over the bins up to the last column.
pub open spec fn spread_of<V: Number>(logarithm: V, base: V, r: V) -> bool {
    exists|unit: V, last: V| #[trigger]
        div_of(logarithm, base, unit) && #[trigger] from_of((WATERFALL_WIDTH - 1) as u16, last)
            && mul_of(unit, last, r)
}

/// `r` is where column `i` is read from a spectrum: its position, taken apart by `floor` and
/// `fract` into a whole number and the rest.
pub open spec fn point_of<V: Number, L: Fn(V) -> V, I: Fn(V) -> usize, R: Fn(V) -> V>(
    log2: L,
    floor: I,
    fract: R,
    i: int,
    r: SamplePoint<V>,
) -> bool {
    exists|position: V| #[trigger]
        position_of(log2, i, position) && call_ensures(floor, (position,), r.index)
            && call_ensures(fract, (position,), r.fraction)
}

/// `r` are where all columns are read from a spectrum.
pub open spec fn points_of<V: Number, L: Fn(V) -> V, I: Fn(V) -> usize, R: Fn(V) -> V>(
    log2: L,
    floor: I,
    fract: R,
    r: Seq<SamplePoint<V>>,
) -> bool {
    &&& r.len() == row_len()
    &&& forall|i: int| 0 <= i < r.len() ==> point_of(log2, floor, fract, i, #[trigger] r[i])
}

/// Every column can be read from `line`.
pub open spec fn long_enough<V>(points: Seq<SamplePoint<V>>, line: Seq<V>) -> bool {
    forall|i: int| 0 <= i < points.len() ==> (#[trigger] points[i]).index < line.len()
}

/// The bin before `index`, or the first one.
pub open spec fn bin_before(index: usize) -> int {
    if index == 0 {
        0
    } else {
        index - 1
    }
}

/// `r` is the row that is read from `line` at `points`.
pub open spec fn row_of<V: Number>(
    points: Seq<SamplePoint<V>>,
    line: Seq<V>,
    r: Seq<V>,
) -> bool {
    &&& r.len() == points.len()
    &&& forall|i: int|
        0 <= i < points.len() ==> blended_of(
            line[bin_before(points[i].index)],
            line[points[i].index as int],
            points[i].fraction,
            #[trigger] r[i],
        )
}

/// `cells` after `rows` scrolled in, one after the other.
pub open spec fn scrolled_all<V>(cells: Seq<V>, rows: Seq<Seq<V>>) -> Seq<V>
    decreases rows.len(),
{
    if rows.len() == 0 {
        cells
    } else {
        scrolled(scrolled_all(cells, rows.drop_last()), rows.last())
    }
}

/// `rows` are the rows that are read from `lines` at `points`.
pub open spec fn rows_of<V: Number>(
    points: Seq<SamplePoint<V>>,
    lines: Seq<Seq<V>>,
    rows: Seq<Seq<V>>,
) -> bool {
    &&& rows.len() == lines.len()
    &&& forall|i: int| 0 <= i < lines.len() ==> long_enough(points, #[trigger] lines[i])
    &&& forall|i: int|
        0 <= i < lines.len() ==> row_of(points, lines[i], #[trigger] rows[i])
}

/// `after` is `cells` after the rows that are read from `lines` scrolled in.
pub open spec fn fed_of<V: Number>(
    points: Seq<SamplePoint<V>>,
    lines: Seq<Seq<V>>,
    cells: Seq<V>,
    after: Seq<V>,
) -> bool {
    exists|rows: Seq<Seq<V>>| #[trigger]
        rows_of(points, lines, rows) && after == scrolled_all(cells, rows)
}

/// The values of each of `messages`.
pub open spec fn lines_of<V>(messages: Seq<Vec<V>>) -> Seq<Seq<V>> {
    messages.map_values(|message: Vec<V>| message@)
}

/// All of `messages` came out of `channel`.
pub open spec fn all_came_in<V>(channel: Receiver<Vec<V>>, messages: Seq<Vec<V>>) -> bool {
    forall|i: int| 0 <= i < messages.len() ==> came_in(channel, Some(#[trigger] messages[i]))
}

/// Taking `messages`, and nothing else, out of `channel` turned `cells` into `after` and ended in
/// `r`. Each message scrolled its row in, in order. It ended well once the channel had none left
/// (or, so that there is an end, after `u64::MAX` of them), with whether there were any. It ended
/// in an error where a message had too few bins: that is the last one, and it scrolled nothing in.
pub open spec fn drained_of<V: Number>(
    points: Seq<SamplePoint<V>>,
    channel: Receiver<Vec<V>>,
    messages: Seq<Vec<V>>,
    cells: Seq<V>,
    after: Seq<V>,
    r: Result<bool, ShortLine>,
) -> bool {
    let lines = lines_of(messages);
    &&& all_came_in(channel, messages)
    &&& match r {
        Ok(updated) => {
            &&& updated == (lines.len() > 0)
            &&& fed_of(points, lines, cells, after)
            &&& came_in(channel, None) || lines.len() == u64::MAX
        },
        Err(_) => {
            &&& lines.len() > 0
            &&& !long_enough(points, lines.last())
            &&& fed_of(points, lines.drop_last(), cells, after)
        },
    }
}

proof fn lemma_taken<T>(before: Seq<T>, messages: Seq<T>)
    ensures
        before.is_prefix_of(before + messages),
        (before + messages).skip(before.len() as int) == messages,
{
    assert((before + messages).skip(before.len() as int) =~= messages);
    assert((before + messages).subrange(0, before.len() as int) =~= before);
}

/// The opaque pixel of a colour, as egui makes it with `Color32::from_rgb` and lays it out with
/// `Color32::to_array`: the three channels, and full opacity.
#[verifier::external_body]
fn opaque_pixel(color: [u8; 3]) -> (r: [u8; 4])
    ensures
        r@ == seq![color[0], color[1], color[2], 255u8],
{
    Color32::from_rgb(color[0], color[1], color[2]).to_array()
}

fn sample_position<V: Number, L: Fn(V) -> V>(log2: &L, i: u16) -> (r: V)
    requires
        defined_everywhere::<V>(),
        forall|v: V| #[trigger] call_requires(*log2, (v,)),
        i < WATERFALL_WIDTH,
    ensures
        position_of(*log2, i as int, r),
{
    let one = V::from(1u16);
    let left: V = ratio(i + 1, WATERFALL_WIDTH as u16 + 1);
    let share = one - left;
    assert(column_share_of(i as int, share)) by {
        assert(from_of(1, one));
        assert(ratio_of((i + 1) as u16, (WATERFALL_WIDTH + 1) as u16, left));
    }
    let logarithm = log2(share);
    assert(call_ensures(*log2, (share,), logarithm));
    let column: V = ratio(1, WATERFALL_WIDTH as u16);
    let base = log2(column);
    assert(base_of(*log2, base)) by {
        assert(ratio_of(1, WATERFALL_WIDTH as u16, column));
    }
    let unit = logarithm / base;
    let last = V::from(WATERFALL_WIDTH as u16 - 1);
    let position = unit * last;
    assert(spread_of(logarithm, base, position)) by {
        assert(div_of(logarithm, base, unit));
        assert(from_of((WATERFALL_WIDTH - 1) as u16, last));
    }
    let least: V = ratio(1, 1000);
    assert(ratio_of(1, 1000, least));
    greater(position, least)
}

/// Where the columns of the waterfall are read from a spectrum. `log2`, `floor` and `fract` are
/// those of the number type.
pub fn sample_points<V: Number, L: Fn(V) -> V, I: Fn(V) -> usize, R: Fn(V) -> V>(
    log2: &L,
    floor: &I,
    fract: &R,
) -> (r: Vec<SamplePoint<V>>)
    requires
        defined_everywhere::<V>(),
        forall|v: V| #[trigger] call_requires(*log2, (v,)),
        forall|v: V| #[trigger] call_requires(*floor, (v,)),
        forall|v: V| #[trigger] call_requires(*fract, (v,)),
    ensures
        points_of(*log2, *floor, *fract, r@),
{
    let mut points: Vec<SamplePoint<V>> = Vec::new();
    let mut i: u16 = 0;
    while i < WATERFALL_WIDTH as u16
        invariant
            defined_everywhere::<V>(),
            forall|v: V| #[trigger] call_requires(*log2, (v,)),
            forall|v: V| #[trigger] call_requires(*floor, (v,)),
            forall|v: V| #[trigger] call_requires(*fract, (v,)),
            i <= WATERFALL_WIDTH,
            points@.len() == i,
            forall|j: int|
                0 <= j < i ==> point_of(*log2, *floor, *fract, j, #[trigger] points@[j]),
        decreases WATERFALL_WIDTH - i,
    {
        let position = sample_position(log2, i);
        assert(position_of(*log2, i as int, position));
        points.push(SamplePoint { index: floor(position), fraction: fract(position) });
        i += 1;
    }
    points
}

fn blend<V: Number>(low: V, high: V, fraction: V) -> (r: V)
    requires
        defined_everywhere::<V>(),
    ensures
        blended_of(low, high, fraction, r),
{
    let one = V::from(1u16);
    let rest = one - fraction;
    let left = low * rest;
    let right = high * fraction;
    let r = left + right;
    assert(from_of(1, one) && sub_of(one, fraction, rest) && mul_of(low, rest, left));
    assert(mul_of(high, fraction, right) && add_of(left, right, r));
    r
}

/// The row of the waterfall that is read from `line` at `points`. An error where `line` has too
/// few bins.
pub fn read_row<V: Number>(points: &[SamplePoint<V>], line: &[V]) -> (r: Result<
    Vec<V>,
    ShortLine,
>)
    requires
        defined_everywhere::<V>(),
    ensures
        match r {
            Ok(row) => long_enough(points@, line@) && row_of(points@, line@, row@),
            Err(_) => !long_enough(points@, line@),
        },
{
    let mut row: Vec<V> = Vec::new();
    let mut i: usize = 0;
    while i < points.len()
        invariant
            defined_everywhere::<V>(),
            i <= points@.len(),
            row@.len() == i,
            forall|j: int| 0 <= j < i ==> (#[trigger] points@[j]).index < line@.len(),
            forall|j: int|
                0 <= j < i ==> blended_of(
                    line@[bin_before(points@[j].index)],
                    line@[points@[j].index as int],
                    points@[j].fraction,
                    #[trigger] row@[j],
                ),
        decreases points.len() - i,
    {
        let point = &points[i];
        if point.index >= line.len() {
            assert(!(points@[i as int].index < line@.len()));
            return Err(ShortLine);
        }
        let before: usize = if point.index == 0 {
            0
        } else {
            point.index - 1
        };
        row.push(blend(line[before], line[point.index], point.fraction));
        i += 1;
    }
    Ok(row)
}

impl<V> GUIState<V> {
    /// The values of the waterfall, row by row from top to bottom.
    pub closed spec fn cells(self) -> Seq<V> {
        self.waterfall@
    }

    /// The channel that spectra come in through.
    pub closed spec fn channel(self) -> Receiver<Vec<V>> {
        self.inbox.channel()
    }

    /// All spectra that were taken out of the channel, in the order they were.
    pub closed spec fn received(self) -> Seq<Vec<V>> {
        self.inbox.taken()
    }

    /// The directory that is remembered for `purpose`.
    pub closed spec fn directory_for(self, purpose: Purpose) -> Option<PathBuf> {
        match purpose {
            Purpose::SaveRecording => self.recording_save_path,
            Purpose::SaveConfig => self.config_save_path,
            Purpose::LoadConfig => self.config_load_path,
        }
    }

    /// The waterfall has all its pixels.
    pub open spec fn well_formed(self) -> bool {
        self.cells().len() == total_len()
    }

    /// `self` and `other` may differ in the values of the waterfall only.
    pub open spec fn same_but_cells(self, other: Self) -> bool {
        self.same_settings(other) && self.received() == other.received()
    }

    /// `self` and `other` have one channel, and remember the same directories.
    pub open spec fn same_settings(self, other: Self) -> bool {
        &&& self.channel() == other.channel()
        &&& forall|purpose: Purpose| #[trigger]
            self.directory_for(purpose) == other.directory_for(purpose)
    }
}

impl<V: Number> GUIState<V> {
    /// A waterfall at rest that shows what comes in through `input`, with no directory remembered.
    pub fn new(input: Receiver<Vec<V>>) -> (r: Self)
        requires
            defined_everywhere::<V>(),
        ensures
            r.well_formed(),
            r.channel() == input,
            r.received() == Seq::<Vec<V>>::empty(),
            exists|rest: V| #[trigger]
                ratio_of(7, 100, rest) && r.cells() == Seq::new(
                    total_len() as nat,
                    |i: int| rest,
                ),
            forall|purpose: Purpose| #[trigger] r.directory_for(purpose) is None,
    {
        let rest: V = ratio(7, 100);
        let total: usize = (WATERFALL_WIDTH * WATERFALL_HEIGHT) as usize;
        let mut waterfall: Vec<V> = Vec::with_capacity(total);
        while waterfall.len() < total
            invariant
                waterfall@.len() <= total,
                forall|i: int| 0 <= i < waterfall@.len() ==> waterfall@[i] == rest,
            decreases total - waterfall.len(),
        {
            waterfall.push(rest);
        }
        assert(waterfall@ =~= Seq::new(total_len() as nat, |i: int| rest));
        GUIState {
            waterfall,
            inbox: Inbox::new(input),
            recording_save_path: None,
            config_save_path: None,
            config_load_path: None,
        }
    }

    /// Scrolls `line` in as the topmost row. The lowest row goes.
    pub fn add_line(&mut self, line: &[V])
        requires
            old(self).well_formed(),
            line@.len() == row_len(),
        ensures
            final(self).well_formed(),
            final(self).cells() == scrolled(old(self).cells(), line@),
            final(self).same_but_cells(*old(self)),
    {
        let row: usize = WATERFALL_WIDTH as usize;
        let total: usize = (WATERFALL_WIDTH * WATERFALL_HEIGHT) as usize;
        let ghost before = self.waterfall@;
        let mut i: usize = total;
        while i > row
            invariant
                row == row_len(),
                total == total_len(),
                row <= i <= total,
                self.waterfall@.len() == total,
                before.len() == total,
                forall|j: int| 0 <= j < i ==> self.waterfall@[j] == before[j],
                forall|j: int| i <= j < total ==> self.waterfall@[j] == before[j - row],
                self.inbox == old(self).inbox,
                self.recording_save_path == old(self).recording_save_path,
                self.config_save_path == old(self).config_save_path,
                self.config_load_path == old(self).config_load_path,
            decreases i,
        {
            i -= 1;
            let value = self.waterfall[i - row];
            self.waterfall[i] = value;
        }
        let mut k: usize = 0;
        while k < row
            invariant
                row == row_len(),
                total == total_len(),
                k <= row == line@.len(),
                self.waterfall@.len() == total,
                before.len() == total,
                forall|j: int| 0 <= j < k ==> self.waterfall@[j] == line@[j],
                forall|j: int| row <= j < total ==> self.waterfall@[j] == before[j - row],
                self.inbox == old(self).inbox,
                self.recording_save_path == old(self).recording_save_path,
                self.config_save_path == old(self).config_save_path,
                self.config_load_path == old(self).config_load_path,
            decreases row - k,
        {
            self.waterfall[k] = line[k];
            k += 1;
        }
        assert(self.waterfall@ =~= scrolled(before, line@));
    }

    /// Scrolls the row of a spectrum in, if one was received, and says whether it did. An error
    /// where the spectrum has too few bins.
    pub fn absorb(&mut self, points: &[SamplePoint<V>], received: Option<Vec<V>>) -> (r: Result<
        bool,
        ShortLine,
    >)
        requires
            defined_everywhere::<V>(),
            old(self).well_formed(),
            points@.len() == row_len(),
        ensures
            final(self).well_formed(),
            final(self).same_but_cells(*old(self)),
            match received {
                None => r == Ok::<bool, ShortLine>(false) && final(self).cells()
                    == old(self).cells(),
                Some(line) => if long_enough(points@, line@) {
                    &&& r == Ok::<bool, ShortLine>(true)
                    &&& exists|row: Seq<V>| #[trigger]
                        row_of(points@, line@, row) && final(self).cells() == scrolled(
                            old(self).cells(),
                            row,
                        )
                } else {
                    r == Err::<bool, ShortLine>(ShortLine) && final(self).cells()
                        == old(self).cells()
                },
            },
    {
        match received {
            None => Ok(false),
            Some(line) => match read_row(points, line.as_slice()) {
                Ok(row) => {
                    self.add_line(row.as_slice());
                    assert(row_of(points@, line@, row@));
                    Ok(true)
                },
                Err(short) => Err(short),
            },
        }
    }

    /// Takes spectra out of the channel as long as there is one, and scrolls in the row that is
    /// read at `points` from each, in order. Says whether there were any. It stops at the first
    /// spectrum that has too few bins, with an error. Which spectra come out, and whether the
    /// channel stays empty, rests with the other end.
    pub fn feed(&mut self, points: &[SamplePoint<V>]) -> (r: Result<bool, ShortLine>)
        requires
            defined_everywhere::<V>(),
            old(self).well_formed(),
            points@.len() == row_len(),
        ensures
            final(self).well_formed(),
            final(self).same_settings(*old(self)),
            old(self).received().is_prefix_of(final(self).received()),
            drained_of(
                points@,
                old(self).channel(),
                final(self).received().skip(old(self).received().len() as int),
                old(self).cells(),
                final(self).cells(),
                r,
            ),
    {
        let mut updated = false;
        let ghost mut messages: Seq<Vec<V>> = Seq::empty();
        let ghost mut rows: Seq<Seq<V>> = Seq::empty();
        // Bounds the loop even where the sender never pauses.
        let mut left: u64 = u64::MAX;
        assert(rows_of(points@, lines_of(messages), rows));
        assert(old(self).received() + messages =~= old(self).received());
        while left > 0
            invariant
                defined_everywhere::<V>(),
                self.well_formed(),
                self.same_settings(*old(self)),
                points@.len() == row_len(),
                self.received() == old(self).received() + messages,
                all_came_in(old(self).channel(), messages),
                rows_of(points@, lines_of(messages), rows),
                self.cells() == scrolled_all(old(self).cells(), rows),
                updated == (messages.len() > 0),
                messages.len() + left == u64::MAX,
            decreases left,
        {
            let ghost start = *self;
            let received = self.inbox.take();
            let ghost taken = received;
            let ghost before = self.cells();
            assert forall|purpose: Purpose| #[trigger]
                self.directory_for(purpose) == old(self).directory_for(purpose) by {
                assert(start.directory_for(purpose) == old(self).directory_for(purpose));
            }
            proof {
                if taken is Some {
                    assert(self.received() =~= old(self).received() + messages.push(taken->0));
                }
            }
            match self.absorb(points, received) {
                Ok(true) => {
                    proof {
                        let line = taken->0@;
                        let row = choose|row: Seq<V>| #[trigger]
                            row_of(points@, line, row) && self.cells() == scrolled(before, row);
                        assert(rows.push(row).drop_last() =~= rows);
                        assert(lines_of(messages.push(taken->0)) =~= lines_of(messages).push(line));
                        messages = messages.push(taken->0);
                        rows = rows.push(row);
                    }
                    updated = true;
                },
                Ok(false) => {
                    proof {
                        lemma_taken(old(self).received(), messages);
                        assert(fed_of(
                            points@,
                            lines_of(messages),
                            old(self).cells(),
                            self.cells(),
                        ));
                    }
                    return Ok(updated);
                },
                Err(short) => {
                    proof {
                        let all = messages.push(taken->0);
                        lemma_taken(old(self).received(), all);
                        assert(lines_of(all).drop_last() =~= lines_of(messages));
                        assert(fed_of(
                            points@,
                            lines_of(messages),
                            old(self).cells(),
                            self.cells(),
                        ));
                    }
                    return Err(short);
                },
            }
            left -= 1;
        }
        proof {
            lemma_taken(old(self).received(), messages);
            assert(fed_of(points@, lines_of(messages), old(self).cells(), self.cells()));
        }
        Ok(updated)
    }

    /// Takes spectra out of the channel as long as there is one, and scrolls in the row of each,
    /// in order, read on a logarithmic scale. Says whether there were any. It stops at the first
    /// spectrum that has too few bins, with an error. `log2`, `floor` and `fract` are those of the
    /// number type. Which spectra come out, and whether the channel stays empty, rests with the
    /// other end.
    pub fn update<L: Fn(V) -> V, I: Fn(V) -> usize, R: Fn(V) -> V>(
        &mut self,
        log2: &L,
        floor: &I,
        fract: &R,
    ) -> (r: Result<bool, ShortLine>)
        requires
            defined_everywhere::<V>(),
            old(self).well_formed(),
            forall|v: V| #[trigger] call_requires(*log2, (v,)),
            forall|v: V| #[trigger] call_requires(*floor, (v,)),
            forall|v: V| #[trigger] call_requires(*fract, (v,)),
        ensures
            final(self).well_formed(),
            final(self).same_settings(*old(self)),
            old(self).received().is_prefix_of(final(self).received()),
            exists|points: Seq<SamplePoint<V>>| #[trigger]
                points_of(*log2, *floor, *fract, points) && drained_of(
                    points,
                    old(self).channel(),
                    final(self).received().skip(old(self).received().len() as int),
                    old(self).cells(),
                    final(self).cells(),
                    r,
                ),
    {
        let points = sample_points(log2, floor, fract);
        assert(points_of(*log2, *floor, *fract, points@));
        self.feed(points.as_slice())
    }

    /// The picture of the waterfall in the colours of `stops`. Nothing where a value has no colour.
    pub fn image_in<B: Fn(V) -> u8>(&self, stops: &[Stop<V>], to_byte: &B) -> (r: Option<Image>)
        requires
            defined_everywhere::<V>(),
            forall|v: V| #[trigger] call_requires(*to_byte, (v,)),
        ensures
            image_of(self.cells(), stops@, *to_byte, r),
    {
        let mut pixels: Vec<[u8; 4]> = Vec::with_capacity(self.waterfall.len());
        let mut i: usize = 0;
        while i < self.waterfall.len()
            invariant
                defined_everywhere::<V>(),
                forall|v: V| #[trigger] call_requires(*to_byte, (v,)),
                i <= self.waterfall@.len(),
                pixels@.len() == i,
                forall|j: int|
                    0 <= j < i ==> pixel_of(
                        self.waterfall@[j],
                        stops@,
                        *to_byte,
                        #[trigger] pixels@[j],
                    ),
            decreases self.waterfall.len() - i,
        {
            match gradient_color(self.waterfall[i], stops, to_byte) {
                Some(color) => {
                    let pixel = opaque_pixel(color);
                    assert(pixel_of(self.waterfall@[i as int], stops@, *to_byte, pixel)) by {
                        assert(color_of(self.waterfall@[i as int], stops@, *to_byte, Some(color)));
                    }
                    pixels.push(pixel);
                },
                None => {
                    assert(color_of(self.cells()[i as int], stops@, *to_byte, None));
                    return None;
                },
            }
            i += 1;
        }
        Some(
            Image {
                width: WATERFALL_WIDTH as usize,
                height: WATERFALL_HEIGHT as usize,
                pixels,
            },
        )
    }

    /// The picture of the waterfall.
    pub fn waterfall_image<B: Fn(V) -> u8>(&self, to_byte: &B) -> (r: Option<Image>)
        requires
            defined_everywhere::<V>(),
            forall|v: V| #[trigger] call_requires(*to_byte, (v,)),
        ensures
            waterfall_image_of(self.cells(), *to_byte, r),
    {
        let stops = gradient();
        assert(gradient_of(stops@));
        self.image_in(stops.as_slice(), to_byte)
    }

    /// Remembers `directory` for `purpose`.
    pub fn set_directory(&mut self, purpose: Purpose, directory: Option<PathBuf>)
        ensures
            final(self).cells() == old(self).cells(),
            final(self).channel() == old(self).channel(),
            final(self).received() == old(self).received(),
            remembered_of(*old(self), purpose, directory, *final(self)),
            forall|other: Purpose| #[trigger]
                final(self).directory_for(other) == if other == purpose {
                    directory
                } else {
                    old(self).directory_for(other)
                },
    {
        match purpose {
            Purpose::SaveRecording => {
                self.recording_save_path = directory;
            },
            Purpose::SaveConfig => {
                self.config_save_path = directory;
            },
            Purpose::LoadConfig => {
                self.config_load_path = directory;
            },
        }
    }

    /// The directory that is remembered for `purpose`.
    pub fn directory(&self, purpose: Purpose) -> (r: &Option<PathBuf>)
        ensures
            *r == self.directory_for(purpose),
    {
        match purpose {
            Purpose::SaveRecording => &self.recording_save_path,
            Purpose::SaveConfig => &self.config_save_path,
            Purpose::LoadConfig => &self.config_load_path,
        }
    }
}

/// Remembering `directory` for `purpose` turned `before` into `after`.
pub open spec fn remembered_of<V>(
    before: GUIState<V>,
    purpose: Purpose,
    directory: Option<PathBuf>,
    after: GUIState<V>,
) -> bool {
    &&& after.cells() == before.cells()
    &&& after.channel() == before.channel()
    &&& after.received() == before.received()
    &&& forall|other: Purpose| #[trigger]
        after.directory_for(other) == if other == purpose {
            directory
        } else {
            before.directory_for(other)
        }
}

/// A directory that is remembered for a purpose is the one that is given back for it, and those for
/// other purposes stay, as does the waterfall.
pub proof fn law_directories_are_given_back<V: Number>(
    before: GUIState<V>,
    purpose: Purpose,
    directory: Option<PathBuf>,
    after: GUIState<V>,
    other: Purpose,
    was: &Option<PathBuf>,
    is: &Option<PathBuf>,
)
    requires
        remembered_of(before, purpose, directory, after),
        call_ensures(GUIState::<V>::directory, (&before, other), was),
        call_ensures(GUIState::<V>::directory, (&after, other), is),
    ensures
        other == purpose ==> *is == directory,
        other != purpose ==> *is == *was,
        after.cells() == before.cells(),
        after.channel() == before.channel(),
        after.received() == before.received(),
{
}

/// `r` is the pixel of `value`.
pub open spec fn pixel_of<V: Number, B: Fn(V) -> u8>(
    value: V,
    stops: Seq<Stop<V>>,
    to_byte: B,
    r: [u8; 4],
) -> bool {
    exists|color: [u8; 3]| #[trigger]
        color_of(value, stops, to_byte, Some(color)) && r@ == seq![
            color[0],
            color[1],
            color[2],
            255u8,
        ]
}

/// `r` is the picture of `cells` in the colours of `stops`, or nothing where a value has no colour.
pub open spec fn image_of<V: Number, B: Fn(V) -> u8>(
    cells: Seq<V>,
    stops: Seq<Stop<V>>,
    to_byte: B,
    r: Option<Image>,
) -> bool {
    match r {
        Some(image) => {
            &&& image.width == WATERFALL_WIDTH
            &&& image.height == WATERFALL_HEIGHT
            &&& image.pixels@.len() == cells.len()
            &&& forall|i: int|
                0 <= i < cells.len() ==> pixel_of(
                    cells[i],
                    stops,
                    to_byte,
                    #[trigger] image.pixels@[i],
                )
        },
        None => exists|i: int|
            0 <= i < cells.len() && color_of(#[trigger] cells[i], stops, to_byte, None),
    }
}

/// `r` is the picture of `cells` in the colours of the waterfall.
pub open spec fn waterfall_image_of<V: Number, B: Fn(V) -> u8>(
    cells: Seq<V>,
    to_byte: B,
    r: Option<Image>,
) -> bool {
    exists|stops: Seq<Stop<V>>| #[trigger] gradient_of(stops) && image_of(cells, stops, to_byte, r)
}

/// The waterfall shows the latest rows, newest on top: once `rows` scrolled in, row `k` from the
/// top is the row before the last `k` of them, and below them stand the rows that were there
/// before, moved down.
pub proof fn law_waterfall_shows_the_latest_rows<V>(cells: Seq<V>, rows: Seq<Seq<V>>, k: int)
    requires
        cells.len() == total_len(),
        forall|i: int| 0 <= i < rows.len() ==> (#[trigger] rows[i]).len() == row_len(),
        0 <= k < WATERFALL_HEIGHT,
    ensures
        scrolled_all(cells, rows).len() == total_len(),
        scrolled_all(cells, rows).subrange(k * row_len(), (k + 1) * row_len()) == if k
            < rows.len() {
            rows[rows.len() - 1 - k]
        } else {
            cells.subrange((k - rows.len()) * row_len(), (k - rows.len() + 1) * row_len())
        },
    decreases rows.len(),
{
    let w = row_len();
    if rows.len() > 0 {
        let before = scrolled_all(cells, rows.drop_last());
        let after = scrolled_all(cells, rows);
        assert forall|i: int| 0 <= i < rows.drop_last().len() implies (
        #[trigger] rows.drop_last()[i]).len() == w by {
            assert(rows.drop_last()[i] == rows[i]);
        }
        law_waterfall_shows_the_latest_rows(
            cells,
            rows.drop_last(),
            if k > 0 {
                k - 1
            } else {
                0
            },
        );
        if k == 0 {
            assert(after.subrange(0, w) =~= rows.last());
        } else {
            assert(after.subrange(k * w, (k + 1) * w) =~= before.subrange((k - 1) * w, k * w));
        }
    }
}

/// Spectra that come in together are shown newest on top: row `k` from the top is the one that is
/// read from the spectrum before the last `k` of them, and below them stand the rows that were
/// there before, moved down.
pub proof fn law_each_spectrum_gives_a_row<V: Number>(
    points: Seq<SamplePoint<V>>,
    lines: Seq<Seq<V>>,
    cells: Seq<V>,
    after: Seq<V>,
    k: int,
)
    requires
        points.len() == row_len(),
        cells.len() == total_len(),
        fed_of(points, lines, cells, after),
        0 <= k < WATERFALL_HEIGHT,
    ensures
        ({
            let row = after.subrange(k * row_len(), (k + 1) * row_len());
            let moved = k - lines.len();
            if k < lines.len() {
                row_of(points, lines[lines.len() - 1 - k], row)
            } else {
                row == cells.subrange(moved * row_len(), (moved + 1) * row_len())
            }
        }),
{
    let rows = choose|rows: Seq<Seq<V>>| #[trigger]
        rows_of(points, lines, rows) && after == scrolled_all(cells, rows);
    law_waterfall_shows_the_latest_rows(cells, rows, k);
}

proof fn lemma_scrolled_all<V>(cells: Seq<V>, first: Seq<Seq<V>>, second: Seq<Seq<V>>)
    ensures
        scrolled_all(cells, first + second) == scrolled_all(scrolled_all(cells, first), second),
    decreases second.len(),
{
    if second.len() == 0 {
        assert(first + second =~= first);
    } else {
        lemma_scrolled_all(cells, first, second.drop_last());
        assert((first + second).drop_last() =~= first + second.drop_last());
    }
}

/// Spectra that come in together show what they show when they come in one after the other.
pub proof fn law_spectra_may_come_one_by_one<V: Number>(
    points: Seq<SamplePoint<V>>,
    first: Seq<Seq<V>>,
    second: Seq<Seq<V>>,
    cells: Seq<V>,
    after: Seq<V>,
)
    ensures
        fed_of(points, first + second, cells, after) <==> exists|between: Seq<V>| #[trigger]
            fed_of(points, first, cells, between) && fed_of(points, second, between, after),
{
    let lines = first + second;
    if fed_of(points, lines, cells, after) {
        let rows = choose|rows: Seq<Seq<V>>| #[trigger]
            rows_of(points, lines, rows) && after == scrolled_all(cells, rows);
        let n = first.len() as int;
        let (upper, lower) = (rows.take(n), rows.skip(n));
        assert forall|i: int| 0 <= i < second.len() implies long_enough(
            points,
            #[trigger] second[i],
        ) && row_of(points, second[i], lower[i]) by {
            assert(lines[n + i] == second[i] && rows[n + i] == lower[i]);
        }
        assert forall|i: int| 0 <= i < first.len() implies long_enough(
            points,
            #[trigger] first[i],
        ) && row_of(points, first[i], upper[i]) by {
            assert(lines[i] == first[i] && rows[i] == upper[i]);
        }
        lemma_scrolled_all(cells, upper, lower);
        assert(upper + lower =~= rows);
        let between = scrolled_all(cells, upper);
        assert(rows_of(points, first, upper) && rows_of(points, second, lower));
        assert(fed_of(points, first, cells, between));
    }
    if exists|between: Seq<V>| #[trigger]
        fed_of(points, first, cells, between) && fed_of(points, second, between, after) {
        let between = choose|between: Seq<V>| #[trigger]
            fed_of(points, first, cells, between) && fed_of(points, second, between, after);
        let upper = choose|rows: Seq<Seq<V>>| #[trigger]
            rows_of(points, first, rows) && between == scrolled_all(cells, rows);
        let lower = choose|rows: Seq<Seq<V>>| #[trigger]
            rows_of(points, second, rows) && after == scrolled_all(between, rows);
        lemma_scrolled_all(cells, upper, lower);
        assert(rows_of(points, lines, upper + lower));
    }
}

/// After as many rows as the waterfall is high nothing is left of what it showed before.
pub proof fn law_waterfall_forgets_what_is_older<V>(
    cells: Seq<V>,
    other: Seq<V>,
    rows: Seq<Seq<V>>,
)
    requires
        cells.len() == total_len(),
        other.len() == total_len(),
        forall|i: int| 0 <= i < rows.len() ==> (#[trigger] rows[i]).len() == row_len(),
        rows.len() >= WATERFALL_HEIGHT,
    ensures
        scrolled_all(cells, rows) == scrolled_all(other, rows),
{
    let a = scrolled_all(cells, rows);
    let b = scrolled_all(other, rows);
    law_waterfall_shows_the_latest_rows(cells, rows, 0);
    law_waterfall_shows_the_latest_rows(other, rows, 0);
    assert(row_len() == 512);
    assert forall|i: int| 0 <= i < total_len() implies a[i] == b[i] by {
        let k = i / 512;
        law_waterfall_shows_the_latest_rows(cells, rows, k);
        law_waterfall_shows_the_latest_rows(other, rows, k);
        let from = k * 512;
        assert(a[i] == a.subrange(from, from + row_len())[i - from]);
        assert(b[i] == b.subrange(from, from + row_len())[i - from]);
    }
    assert(a =~= b);
}

}
