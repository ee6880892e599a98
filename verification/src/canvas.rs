//! The arrangement of button labels beside a picture.
//!
//! Positions are 32-bit floating-point numbers in their bit patterns. Which positions are usable,
//! in what order labels stand and on which side is decided here; the arithmetic that turns an
//! arrangement into pixels is the caller's.
use vstd::prelude::*;

use crate::metadata::{is_fraction, is_unit_fraction, Point};
use crate::order::{
    leading_count_is, ordered_items_are_the_same_in_order, ordering_is_stable, stably_ordered,
};

verus! {

/// Most labels on one picture.
pub const MAX_MARKERS: usize = 8;

/// The bit pattern of the smallest usable canvas dimension, three hundred.
pub const MIN_CANVAS: u32 = 0x4396_0000;

/// The bit pattern of infinity, above which only undefined values lie.
pub const INFINITE: u32 = 0x7f80_0000;

/// The bit pattern of one half.
pub const HALF: u32 = 0x3f00_0000;

/// The bit pattern of the negative zero, the smallest one with a sign.
pub const SIGNED: u32 = 0x8000_0000;

/// The place of a bit pattern in the total order of floating-point numbers: those with a sign
/// stand in reverse before the others.
pub open spec fn float_rank(bits: u32) -> int {
    if bits < SIGNED {
        bits as int
    } else {
        SIGNED - 1 - bits
    }
}

/// Whether a bit pattern is that of a finite number from three hundred on.
pub open spec fn is_wide(bits: u32) -> bool {
    MIN_CANVAS <= bits < INFINITE
}

/// Whether a position from zero to one lies in the left half.
pub open spec fn is_left_half(bits: u32) -> bool {
    bits < HALF || bits == SIGNED
}

/// Whether a picture can be shown with labels.
pub open spec fn can_arrange(
    width: u32,
    height: u32,
    png: (u32, u32),
    markers: Seq<(u8, Point)>,
) -> bool {
    &&& is_wide(width) && is_wide(height)
    &&& 0 < png.0 <= u16::MAX && 0 < png.1 <= u16::MAX
    &&& 0 < markers.len() <= MAX_MARKERS
    &&& forall|i: int|
        0 <= i < markers.len() ==> is_unit_fraction((#[trigger] markers[i]).1.x)
            && is_unit_fraction(markers[i].1.y)
}

/// The rank of a marker: its height on the picture.
pub open spec fn height_rank() -> spec_fn((u8, Point)) -> int {
    |marker: (u8, Point)| float_rank(marker.1.y)
}

/// One label: its button, where its marker is, and where the label stands.
#[derive(Debug, Clone, Copy, PartialEq, Eq, Structural)]
pub struct Placement {
    /// Button of the label.
    pub index: u8,
    /// Position of the marker on the picture.
    pub marker: Point,
    /// Whether the label stands to the left of the picture.
    pub left: bool,
    /// Number of labels above it on its side.
    pub row: u8,
}

/// The number of markers on one side among the first ones.
pub open spec fn side_count(markers: Seq<(u8, Point)>, left: bool, count: int) -> nat
    decreases count,
{
    if count <= 0 {
        0
    } else {
        side_count(markers, left, count - 1) + if is_left_half(markers[count - 1].1.x) == left {
            1nat
        } else {
            0
        }
    }
}

/// The labels of markers in order of their height: each stands on the side of its marker, below
/// the labels of that side before it.
pub open spec fn placements(markers: Seq<(u8, Point)>) -> Seq<Placement> {
    Seq::new(
        markers.len(),
        |i: int|
            Placement {
                index: markers[i].0,
                marker: markers[i].1,
                left: is_left_half(markers[i].1.x),
                row: side_count(markers, is_left_half(markers[i].1.x), i) as u8,
            },
    )
}

fn ranks_above(left: u32, right: u32) -> (above: bool)
    ensures
        above == (float_rank(left) > float_rank(right)),
{
    if left < SIGNED {
        right >= SIGNED || left > right
    } else {
        right >= SIGNED && left < right
    }
}

proof fn side_count_bound(markers: Seq<(u8, Point)>, left: bool, count: int)
    requires
        0 <= count,
    ensures
        side_count(markers, left, count) <= count,
    decreases count,
{
    if count > 0 {
        side_count_bound(markers, left, count - 1);
    }
}

fn order_by_height(markers: &Vec<(u8, Point)>) -> (sorted: Vec<(u8, Point)>)
    ensures
        sorted@ == stably_ordered(markers@, height_rank()),
{
    let mut sorted: Vec<(u8, Point)> = Vec::new();
    let mut position: usize = 0;
    proof {
        assert(markers@.take(0) =~= Seq::empty());
        assert(sorted@ =~= stably_ordered(markers@.take(0), height_rank()));
    }
    while position < markers.len()
        invariant
            position <= markers@.len(),
            sorted@ == stably_ordered(markers@.take(position as int), height_rank()),
        decreases markers@.len() - position,
    {
        let marker: (u8, Point) = markers[position];
        let mut place: usize = 0;
        while place < sorted.len() && !ranks_above(sorted[place].1.y, marker.1.y)
            invariant
                place <= sorted@.len(),
                forall|i: int|
                    0 <= i < place ==> height_rank()(#[trigger] sorted@[i]) <= height_rank()(
                        marker,
                    ),
            decreases sorted@.len() - place,
        {
            place = place + 1;
        }
        proof {
            leading_count_is(sorted@, height_rank(), height_rank()(marker), place as int);
            let longer = markers@.take(position + 1);
            assert(longer.drop_last() =~= markers@.take(position as int));
            assert(longer.last() == marker);
        }
        sorted.insert(place, marker);
        position = position + 1;
    }
    assert(markers@.take(markers@.len() as int) =~= markers@);
    sorted
}

/// The labels of a picture, from the highest to the lowest marker.
#[derive(Debug, PartialEq, Eq)]
pub struct CanvasLayout {
    /// One label for each marker.
    pub labels: Vec<Placement>,
}

impl CanvasLayout {
    /// Arranges the labels of a picture, or refuses a canvas, a picture or markers that cannot be
    /// shown. The canvas dimensions are bit patterns.
    pub fn new(width: u32, height: u32, png: (u32, u32), markers: &Vec<(u8, Point)>) -> (layout:
        Option<Self>)
        ensures
            match layout {
                Some(layout) => can_arrange(width, height, png, markers@) && layout.labels@
                    == placements(stably_ordered(markers@, height_rank())),
                None => !can_arrange(width, height, png, markers@),
            },
    {
        if png.0 == 0 || png.0 > u16::MAX as u32 || png.1 == 0 || png.1 > u16::MAX as u32 || width
            < MIN_CANVAS || width >= INFINITE || height < MIN_CANVAS || height >= INFINITE
            || markers.len() == 0 || markers.len() > MAX_MARKERS {
            return None;
        }
        let mut checked: usize = 0;
        while checked < markers.len()
            invariant
                checked <= markers@.len(),
                forall|i: int|
                    0 <= i < checked ==> is_unit_fraction((#[trigger] markers@[i]).1.x)
                        && is_unit_fraction(markers@[i].1.y),
            decreases markers@.len() - checked,
        {
            let marker: (u8, Point) = markers[checked];
            if !is_fraction(marker.1.x) || !is_fraction(marker.1.y) {
                assert(markers@[checked as int] == marker);
                return None;
            }
            checked = checked + 1;
        }
        let sorted: Vec<(u8, Point)> = order_by_height(markers);
        proof {
            ordered_items_are_the_same_in_order(markers@, height_rank());
        }
        let mut labels: Vec<Placement> = Vec::new();
        let mut left_rows: u8 = 0;
        let mut right_rows: u8 = 0;
        let mut position: usize = 0;
        while position < sorted.len()
            invariant
                position <= sorted@.len() <= MAX_MARKERS,
                left_rows == side_count(sorted@, true, position as int),
                right_rows == side_count(sorted@, false, position as int),
                left_rows <= position,
                right_rows <= position,
                labels@.len() == position,
                forall|i: int| 0 <= i < position ==> #[trigger] labels@[i] == placements(sorted@)[i],
            decreases sorted@.len() - position,
        {
            let (index, marker): (u8, Point) = sorted[position];
            let left: bool = marker.x < HALF || marker.x == SIGNED;
            let row: u8 = if left {
                left_rows
            } else {
                right_rows
            };
            labels.push(Placement { index, marker, left, row });
            proof {
                side_count_bound(sorted@, true, position + 1);
                side_count_bound(sorted@, false, position + 1);
            }
            if left {
                left_rows = left_rows + 1;
            } else {
                right_rows = right_rows + 1;
            }
            position = position + 1;
        }
        assert(labels@ =~= placements(sorted@));
        Some(CanvasLayout { labels })
    }
}

/// Labels on one side stand in the order of their markers' heights, one row below the other.
pub proof fn labels_keep_the_order_of_their_markers(
    markers: Seq<(u8, Point)>,
    above: int,
    below: int,
)
    requires
        markers.len() <= MAX_MARKERS,
        0 <= above < below < markers.len(),
    ensures
        ({
            let labels = placements(stably_ordered(markers, height_rank()));
            &&& labels.len() == markers.len()
            &&& float_rank(labels[above].marker.y) <= float_rank(labels[below].marker.y)
            &&& labels[above].left == labels[below].left ==> labels[above].row
                < labels[below].row
        }),
{
    let sorted = stably_ordered(markers, height_rank());
    ordered_items_are_the_same_in_order(markers, height_rank());
    let rank = height_rank();
    assert(rank(sorted[above]) <= rank(sorted[below]));
    let left = is_left_half(sorted[above].1.x);
    rows_grow(sorted, left, above + 1, below);
    side_count_bound(sorted, left, below);
    side_count_bound(sorted, left, above);
}

proof fn rows_grow(markers: Seq<(u8, Point)>, left: bool, from: int, to: int)
    requires
        0 <= from <= to,
    ensures
        side_count(markers, left, from) <= side_count(markers, left, to),
    decreases to - from,
{
    if from < to {
        rows_grow(markers, left, from, to - 1);
    }
}

/// Every marker gets exactly one label, and markers of the same height keep their order.
pub proof fn every_marker_is_labelled_once(markers: Seq<(u8, Point)>, rank: int)
    ensures
        stably_ordered(markers, height_rank()).to_multiset() == markers.to_multiset(),
        stably_ordered(markers, height_rank()).filter(
            |marker: (u8, Point)| height_rank()(marker) == rank,
        ) == markers.filter(|marker: (u8, Point)| height_rank()(marker) == rank),
{
    ordered_items_are_the_same_in_order(markers, height_rank());
    ordering_is_stable(markers, height_rank(), rank);
}

} // verus!
