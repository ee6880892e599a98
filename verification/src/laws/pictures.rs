//! Laws of the pictures of a device: which markers are usable, and where labels stand.
use vstd::prelude::*;
use vstd::string::*;

use super::agent::kept_by_a_filter;
use crate::canvas::{
    float_rank, height_rank, is_left_half, labels_keep_the_order_of_their_markers, placements,
    side_count, CanvasLayout,
};
use crate::metadata::{
    are_markers, find_only_slot, is_fraction, is_marked, is_only_image, is_only_slot, is_unmarked,
    is_unpictured, markers, shown_on, visual_markers, Assignment, ImageEntry, MarkerCoordinates,
    MarkerScale, Metadata, Origin, Point,
};
use crate::order::{ordered_items_are_the_same_in_order, ordering_is_stable, stably_ordered};
use crate::panel::workspace::{ButtonTrigger, CanvasLabel};
use crate::panel::OnboardPanel;
use crate::registry::OnboardButton;

verus! {

/// Whether a bit pattern is that of a position on a picture: from zero to one, or the negative
/// zero.
pub open spec fn is_position(bits: u32) -> bool {
    bits <= 0x3f80_0000 || bits == 0x8000_0000
}

/// A picture can be labelled exactly if the canvas is finite and at least three hundred in both
/// directions, the picture has between one and 65535 pixels in both, and there are one to eight
/// markers, all of them on the picture.
pub proof fn a_picture_is_labelled_if_everything_fits(
    width: u32,
    height: u32,
    png: (u32, u32),
    markers: Vec<(u8, Point)>,
    layout: Option<CanvasLayout>,
    inside: bool,
    bits: u32,
)
    requires
        call_ensures(CanvasLayout::new, (width, height, png, &markers), layout),
        call_ensures(is_fraction, (bits,), inside),
    ensures
        inside <==> is_position(bits),
        layout is Some <==> {
            &&& 0x4396_0000 <= width < 0x7f80_0000
            &&& 0x4396_0000 <= height < 0x7f80_0000
            &&& 1 <= png.0 <= 65535 && 1 <= png.1 <= 65535
            &&& 1 <= markers@.len() <= 8
            &&& forall|i: int|
                0 <= i < markers@.len() ==> is_position((#[trigger] markers@[i]).1.x)
                    && is_position(markers@[i].1.y)
        },
{
    let all_inside = forall|i: int|
        0 <= i < markers@.len() ==> is_position((#[trigger] markers@[i]).1.x) && is_position(
            markers@[i].1.y,
        );
    if layout is Some {
        assert forall|i: int| 0 <= i < markers@.len() implies is_position(
            (#[trigger] markers@[i]).1.x,
        ) && is_position(markers@[i].1.y) by {
            assert(crate::metadata::is_unit_fraction(markers@[i].1.x));
        }
    } else if all_inside {
        assert forall|i: int| 0 <= i < markers@.len() implies crate::metadata::is_unit_fraction(
            (#[trigger] markers@[i]).1.x,
        ) && crate::metadata::is_unit_fraction(markers@[i].1.y) by {
            assert(is_position(markers@[i].1.x));
        }
    }
}

/// Labels come from the top of the picture to its bottom, one for each marker. A label stands on
/// the left exactly if its marker lies left of the middle, and below exactly as many labels as
/// stand above it on its side.
pub proof fn labels_stand_beside_their_markers(
    width: u32,
    height: u32,
    png: (u32, u32),
    markers: Vec<(u8, Point)>,
    layout: CanvasLayout,
    label: int,
)
    requires
        call_ensures(CanvasLayout::new, (width, height, png, &markers), Some(layout)),
        0 <= label < markers@.len(),
    ensures
        layout.labels@.len() == markers@.len(),
        markers@.contains((layout.labels@[label].index, layout.labels@[label].marker)),
        layout.labels@[label].left <==> layout.labels@[label].marker.x < 0x3f00_0000
            || layout.labels@[label].marker.x == 0x8000_0000,
        forall|above: int|
            0 <= above < label && (#[trigger] layout.labels@[above]).left
                == layout.labels@[label].left ==> layout.labels@[above].row
                < layout.labels@[label].row,
        (forall|above: int|
            0 <= above < label ==> (#[trigger] layout.labels@[above]).left
                != layout.labels@[label].left) ==> layout.labels@[label].row == 0,
        layout.labels@[label].row <= label,
        forall|above: int|
            0 <= above < label && (#[trigger] layout.labels@[above]).marker.y <= 0x3f80_0000
                && layout.labels@[label].marker.y <= 0x3f80_0000 ==> layout.labels@[above].marker.y
                <= layout.labels@[label].marker.y,
{
    let sorted = stably_ordered(markers@, height_rank());
    ordered_items_are_the_same_in_order(markers@, height_rank());
    let labels = layout.labels@;
    assert(labels == placements(sorted));
    assert(labels[label].index == sorted[label].0 && labels[label].marker == sorted[label].1);
    assert(markers@.contains(sorted[label])) by {
        broadcast use vstd::seq_lib::group_to_multiset_ensures;

        assert(sorted.contains(sorted[label]));
        assert(sorted.to_multiset().count(sorted[label]) > 0);
        assert(markers@.to_multiset().count(sorted[label]) > 0);
    }
    assert((labels[label].index, labels[label].marker) == sorted[label]);
    let side = labels[label].left;
    sides_are_counted(sorted, side, label);
    assert forall|above: int|
        0 <= above < label && (#[trigger] labels[above]).left == side implies labels[above].row
        < labels[label].row by {
        labels_keep_the_order_of_their_markers(markers@, above, label);
    }
    if forall|above: int| 0 <= above < label ==> (#[trigger] labels[above]).left != side {
        assert forall|above: int| 0 <= above < label implies is_left_half(
            (#[trigger] sorted[above]).1.x,
        ) != side by {
            assert(labels[above].left != side);
        }
    }
    assert forall|above: int|
        0 <= above < label && (#[trigger] labels[above]).marker.y <= 0x3f80_0000
            && labels[label].marker.y <= 0x3f80_0000 implies labels[above].marker.y
        <= labels[label].marker.y by {
        labels_keep_the_order_of_their_markers(markers@, above, label);
    }
}

proof fn sides_are_counted(markers: Seq<(u8, Point)>, left: bool, count: int)
    requires
        0 <= count <= markers.len(),
    ensures
        side_count(markers, left, count) <= count,
        (forall|i: int|
            0 <= i < count ==> is_left_half((#[trigger] markers[i]).1.x) != left) ==> side_count(
            markers,
            left,
            count,
        ) == 0,
    decreases count,
{
    if count > 0 {
        sides_are_counted(markers, left, count - 1);
    }
}

/// The rows on one side follow each other without a gap: the next label on a side stands one row
/// below the one before it.
pub proof fn rows_follow_without_a_gap(
    width: u32,
    height: u32,
    png: (u32, u32),
    markers: Vec<(u8, Point)>,
    layout: CanvasLayout,
    above: int,
    below: int,
)
    requires
        call_ensures(CanvasLayout::new, (width, height, png, &markers), Some(layout)),
        0 <= above < below < markers@.len(),
        layout.labels@[above].left == layout.labels@[below].left,
        forall|between: int|
            above < between < below ==> (#[trigger] layout.labels@[between]).left
                != layout.labels@[above].left,
    ensures
        layout.labels@[below].row == layout.labels@[above].row + 1,
{
    let sorted = stably_ordered(markers@, height_rank());
    ordered_items_are_the_same_in_order(markers@, height_rank());
    let side = layout.labels@[above].left;
    assert forall|between: int| above < between < below implies is_left_half(
        (#[trigger] sorted[between]).1.x,
    ) != side by {
        assert(layout.labels@[between].left != side);
    }
    sides_are_counted(sorted, side, above);
    sides_are_counted(sorted, side, below);
    a_gap_counts_nothing(sorted, side, above + 1, below);
}

proof fn a_gap_counts_nothing(markers: Seq<(u8, Point)>, left: bool, from: int, to: int)
    requires
        0 <= from <= to <= markers.len(),
        forall|i: int| from <= i < to ==> is_left_half((#[trigger] markers[i]).1.x) != left,
    ensures
        side_count(markers, left, to) == side_count(markers, left, from),
    decreases to - from,
{
    if from < to {
        a_gap_counts_nothing(markers, left, from, to - 1);
    }
}

/// A label's line stands out exactly if the user points at its button, or else has it selected;
/// its control is that of its button.
pub proof fn the_pointed_label_stands_out(
    panel: OnboardPanel,
    width: u32,
    height: u32,
    png: (u32, u32),
    markers: Vec<(u8, Point)>,
    layout: Option<CanvasLayout>,
    labels: Option<Vec<CanvasLabel>>,
    label: int,
    trigger: ButtonTrigger,
)
    requires
        call_ensures(CanvasLayout::new, (width, height, png, &markers), layout),
        call_ensures(
            OnboardPanel::mouse_canvas,
            (&panel, width, height, png, &markers),
            labels,
        ),
        labels is Some ==> 0 <= label < (labels->0)@.len() && call_ensures(
            OnboardPanel::button_trigger,
            (&panel, (labels->0)@[label].placement.index),
            trigger,
        ),
    ensures
        labels is Some <==> layout is Some,
        labels matches Some(all) ==> {
            &&& all@.len() == (layout->0).labels@.len()
            &&& all@[label].placement == (layout->0).labels@[label]
            &&& all@[label].trigger == trigger
            &&& all@[label].highlighted <==> all@[label].placement.index == match panel@.hovered {
                Some(pointed) => pointed,
                None => panel@.selected,
            }
        },
{
}

/// A marker is scaled exactly if it has a position and its origin fits into the picture, which is
/// no larger than 16384 in either direction. Pixels are counted in the dimensions of the origin,
/// percentages in hundredths.
pub proof fn a_marker_is_scaled_by_what_it_counts(
    image: ImageEntry,
    slot: Assignment,
    png: Origin,
    scale: Option<MarkerScale>,
)
    requires
        call_ensures(ImageEntry::marker_scale, (&image, &slot, png), scale),
    ensures
        scale is Some <==> {
            &&& slot.marker is Some
            &&& 1 <= image.origin.width <= png.width <= 16384
            &&& 1 <= image.origin.height <= png.height <= 16384
        },
        scale matches Some(found) ==> {
            &&& Some(found.marker) == slot.marker
            &&& found.origin == image.origin
            &&& found.png == png
            &&& image.coordinates == MarkerCoordinates::Pixels ==> found.full_width
                == image.origin.width && found.full_height == image.origin.height
            &&& image.coordinates == MarkerCoordinates::Percentage ==> found.full_width == 100
                && found.full_height == 100
        },
{
}

/// The file named metadata.json counts in pixels, any other in hundredths; nothing else of the
/// images depends on the file.
pub proof fn a_file_name_says_what_markers_count(
    images: Vec<ImageEntry>,
    name: &str,
    metadata: Metadata,
    image: int,
)
    requires
        call_ensures(Metadata::from_file, (images, name), metadata),
        0 <= image < images@.len(),
    ensures
        metadata.images@.len() == images@.len(),
        metadata.images@[image].key == images@[image].key,
        metadata.images@[image].origin == images@[image].origin,
        metadata.images@[image].assignments == images@[image].assignments,
        metadata.images@[image].coordinates == MarkerCoordinates::Pixels <==> name@
            == "metadata.json"@,
{
}

proof fn the_first_image(metadata: Metadata, key: Seq<char>, start: int)
    requires
        0 <= start <= metadata.images@.len(),
    ensures
        match metadata.position_of(key, start) {
            Some(position) => start <= position < metadata.images@.len()
                && metadata.images@[position].key@ == key && forall|earlier: int|
                start <= earlier < position ==> (#[trigger] metadata.images@[earlier]).key@ != key,
            None => forall|i: int|
                start <= i < metadata.images@.len() ==> (#[trigger] metadata.images@[i]).key@
                    != key,
        },
    decreases metadata.images@.len() - start,
{
    if start < metadata.images@.len() && metadata.images@[start].key@ != key {
        the_first_image(metadata, key, start + 1);
    }
}

/// The dimensions of the device are those of the first image that shows it, or else of the first
/// image of all; the assignments are those of the first image that shows the buttons.
pub proof fn the_first_fitting_image_is_taken(
    metadata: Metadata,
    image: int,
    origin: Option<Origin>,
    assignments: Vec<&Assignment>,
)
    requires
        call_ensures(Metadata::origin, (&metadata,), origin),
        call_ensures(Metadata::assignments, (&metadata,), assignments),
        0 <= image < metadata.images@.len(),
    ensures
        metadata.images@[image].key@ == "device_image"@ && (forall|earlier: int|
            0 <= earlier < image ==> (#[trigger] metadata.images@[earlier]).key@
                != "device_image"@) ==> origin == Some(metadata.images@[image].origin),
        (forall|i: int|
            0 <= i < metadata.images@.len() ==> (#[trigger] metadata.images@[i]).key@
                != "device_image"@) ==> origin == Some(metadata.images@[0].origin),
        metadata.images@[image].key@ == "device_buttons_image"@ && (forall|earlier: int|
            0 <= earlier < image ==> (#[trigger] metadata.images@[earlier]).key@
                != "device_buttons_image"@) ==> {
            &&& assignments@.len() == metadata.images@[image].assignments@.len()
            &&& forall|i: int|
                0 <= i < assignments@.len() ==> *(#[trigger] assignments@[i])
                    == metadata.images@[image].assignments@[i]
        },
        (forall|i: int|
            0 <= i < metadata.images@.len() ==> (#[trigger] metadata.images@[i]).key@
                != "device_buttons_image"@) ==> assignments@.len() == 0,
{
    the_first_image(metadata, "device_image"@, 0);
    the_first_image(metadata, "device_buttons_image"@, 0);
    if let Some(position) = metadata.position_of("device_image"@, 0) {
        assert(metadata.images@[position].key@ == "device_image"@);
    }
    if let Some(position) = metadata.position_of("device_buttons_image"@, 0) {
        assert(metadata.images@[position].key@ == "device_buttons_image"@);
    }
}

/// A slot that is found alone has its identifier, and a slot that alone has an identifier is the
/// one to be found; an image alone has its key in the same way.
pub proof fn only_a_single_slot_is_found(
    assignments: Vec<Assignment>,
    slot_id: &str,
    found: Option<usize>,
    slot: int,
    images: Seq<ImageEntry>,
    key: Seq<char>,
    image: int,
)
    requires
        call_ensures(find_only_slot, (&assignments, slot_id), found),
    ensures
        found matches Some(position) ==> position < assignments@.len()
            && assignments@[position as int].slot_id@ == slot_id@ && forall|other: int|
            0 <= other < assignments@.len() && other != position ==> (
            #[trigger] assignments@[other]).slot_id@ != slot_id@,
        is_only_slot(assignments@, slot_id@, slot) <==> {
            &&& 0 <= slot < assignments@.len()
            &&& assignments@[slot].slot_id@ == slot_id@
            &&& forall|other: int|
                0 <= other < assignments@.len() && (#[trigger] assignments@[other]).slot_id@
                    == slot_id@ ==> other == slot
        },
        is_only_image(images, key, image) <==> {
            &&& 0 <= image < images.len()
            &&& images[image].key@ == key
            &&& forall|other: int|
                0 <= other < images.len() && (#[trigger] images[other]).key@ == key ==> other
                    == image
        },
{
    if let Some(position) = found {
        assert(is_only_slot(assignments@, slot_id@, position as int));
    }
}

/// Whether a button is on the image with a key.
pub open spec fn is_on_image(button: OnboardButton, key: Seq<char>) -> bool {
    button.image_key@ == key
}

/// The buttons of a list with a key, in their order.
pub open spec fn buttons_with(buttons: Seq<OnboardButton>, key: Seq<char>) -> Seq<OnboardButton> {
    buttons.filter(|button: OnboardButton| is_on_image(button, key))
}

/// The buttons that an image shows are exactly those with its key, in their order.
pub proof fn an_image_shows_the_buttons_with_its_key(
    buttons: Seq<OnboardButton>,
    key: Seq<char>,
    button: OnboardButton,
)
    ensures
        shown_on(buttons, key) == buttons_with(buttons, key),
        shown_on(buttons, key).contains(button) <==> buttons.contains(button)
            && button.image_key@ == key,
{
    let wanted = |button: OnboardButton| is_on_image(button, key);
    shown_is_filtered(buttons, key);
    kept_by_a_filter(buttons, wanted, button);
}

proof fn shown_is_filtered(buttons: Seq<OnboardButton>, key: Seq<char>)
    ensures
        shown_on(buttons, key) == buttons_with(buttons, key),
    decreases buttons.len(),
{
    reveal(Seq::filter);
    if buttons.len() > 0 {
        shown_is_filtered(buttons.drop_last(), key);
    } else {
        assert(buttons =~= Seq::empty());
    }
}

/// Whether every button of a list that is on an image has its own marker there, in the order of the
/// list: found by its only slot, and positioned by the given arithmetic.
pub open spec fn marks_every_button<F: Fn(&ImageEntry, &Assignment) -> Option<Point>>(
    image: ImageEntry,
    buttons: Seq<OnboardButton>,
    fraction: F,
    markers: Seq<(u8, Point)>,
) -> bool {
    let shown = buttons_with(buttons, image.key@);
    &&& markers.len() == shown.len()
    &&& markers.len() > 0
    &&& forall|i: int|
        #![trigger markers[i]]
        0 <= i < markers.len() ==> {
            &&& markers[i].0 == shown[i].index
            &&& exists|slot: int|
                0 <= slot < image.assignments@.len() && (
                #[trigger] image.assignments@[slot]).slot_id@ == shown[i].slot_id@
                    && fraction.ensures((&image, &image.assignments@[slot]), Some(markers[i].1))
        }
}

/// Markers are shown only if the profile has exactly the buttons of the model, of which there are
/// some; they are those of the first image with the wanted key, one for each of its buttons.
pub proof fn markers_are_shown_for_every_button<
    F: Fn(&ImageEntry, &Assignment) -> Option<Point>,
>(
    images: Vec<ImageEntry>,
    buttons: Vec<OnboardButton>,
    button_count: usize,
    image_key: &str,
    fraction: F,
    position: usize,
    markers: Vec<(u8, Point)>,
)
    requires
        call_ensures(
            visual_markers::<F>,
            (&images, &buttons, button_count, image_key, &fraction),
            Some((position, markers)),
        ),
    ensures
        buttons@.len() == button_count,
        button_count > 0,
        position < images@.len(),
        images@[position as int].key@ == image_key@,
        forall|i: int| 0 <= i < position ==> (#[trigger] images@[i]).key@ != image_key@,
        marks_every_button(images@[position as int], buttons@, fraction, markers@),
{
    let image = images@[position as int];
    shown_is_filtered(buttons@, image.key@);
    let shown = buttons_with(buttons@, image.key@);
    assert forall|i: int|
        #![trigger markers@[i]]
        0 <= i < markers@.len() implies {
        &&& markers@[i].0 == shown[i].index
        &&& exists|slot: int|
            0 <= slot < image.assignments@.len() && (
            #[trigger] image.assignments@[slot]).slot_id@ == shown[i].slot_id@
                && fraction.ensures((&image, &image.assignments@[slot]), Some(markers@[i].1))
    } by {
        assert(is_marked(image, shown[i], fraction, markers@[i]));
        let slot = choose|slot: int|
            #[trigger] is_only_slot(
                image.assignments@,
                shown[i].slot_id@,
                slot,
            ) && fraction.ensures((&image, &image.assignments@[slot]), Some(markers@[i].1));
        assert(image.assignments@[slot].slot_id@ == shown[i].slot_id@);
    }
}

/// A marker has a position exactly if it can be scaled and its quotient lies on the origin; the
/// position is then what the given arithmetic makes of that quotient.
pub proof fn a_marker_lies_on_its_origin<
    D: Fn(MarkerScale) -> Point,
    S: Fn(MarkerScale, Point) -> Point,
>(
    image: ImageEntry,
    slot: Assignment,
    png: Origin,
    divide: D,
    scale_up: S,
    scale: Option<MarkerScale>,
    fraction: Option<Point>,
)
    requires
        call_ensures(ImageEntry::marker_scale, (&image, &slot, png), scale),
        call_ensures(
            ImageEntry::marker_fraction::<D, S>,
            (&image, &slot, png, divide, scale_up),
            fraction,
        ),
    ensures
        scale is None ==> fraction is None,
        scale is Some && fraction is Some ==> exists|quotient: Point|
            #[trigger] divide.ensures((scale->0,), quotient) && is_position(quotient.x)
                && is_position(quotient.y) && scale_up.ensures((scale->0, quotient), fraction->0),
        scale is Some && fraction is None ==> exists|quotient: Point|
            #[trigger] divide.ensures((scale->0,), quotient) && !(is_position(quotient.x)
                && is_position(quotient.y)),
{
    if scale is Some && fraction is Some {
        let quotient = choose|quotient: Point|
            #[trigger] divide.ensures((scale->0,), quotient) && crate::metadata::is_unit_fraction(
                quotient.x,
            ) && crate::metadata::is_unit_fraction(quotient.y) && scale_up.ensures(
                (scale->0, quotient),
                fraction->0,
            );
        assert(divide.ensures((scale->0,), quotient) && is_position(quotient.x));
    }
    if scale is Some && fraction is None {
        let quotient = choose|quotient: Point|
            #[trigger] divide.ensures((scale->0,), quotient) && !(
            crate::metadata::is_unit_fraction(quotient.x) && crate::metadata::is_unit_fraction(
                quotient.y,
            ));
        assert(divide.ensures((scale->0,), quotient));
    }
}

/// Whether every button on an image has a slot of its own there, which is listed under the place
/// of the button, and which the given arithmetic never fails to position.
pub open spec fn can_mark<F: Fn(&ImageEntry, &Assignment) -> Option<Point>>(
    image: ImageEntry,
    buttons: Seq<OnboardButton>,
    fraction: F,
    slots: Seq<int>,
) -> bool {
    forall|i: int|
        0 <= i < buttons.len() && (#[trigger] buttons[i]).image_key@ == image.key@ ==> {
            &&& 0 <= slots[i] < image.assignments@.len()
            &&& image.assignments@[slots[i]].slot_id@ == buttons[i].slot_id@
            &&& forall|other: int|
                0 <= other < image.assignments@.len() && (
                #[trigger] image.assignments@[other]).slot_id@ == buttons[i].slot_id@ ==> other
                    == slots[i]
            &&& !fraction.ensures((&image, &image.assignments@[slots[i]]), None)
        }
}

proof fn nothing_is_unmarked<F: Fn(&ImageEntry, &Assignment) -> Option<Point>>(
    image: ImageEntry,
    buttons: Seq<OnboardButton>,
    fraction: F,
    slots: Seq<int>,
    button: int,
)
    requires
        can_mark(image, buttons, fraction, slots),
        0 <= button < buttons.len(),
        buttons[button].image_key@ == image.key@,
    ensures
        !are_markers(image, buttons, fraction, None),
{
    let shown = shown_on(buttons, image.key@);
    an_image_shows_the_buttons_with_its_key(buttons, image.key@, buttons[button]);
    assert(buttons.contains(buttons[button]));
    assert(shown.len() > 0);
    assert forall|i: int| 0 <= i < shown.len() implies !is_unmarked(
        image,
        #[trigger] shown[i],
        fraction,
    ) by {
        an_image_shows_the_buttons_with_its_key(buttons, image.key@, shown[i]);
        assert(shown.contains(shown[i]));
        let place = choose|place: int| 0 <= place < buttons.len() && buttons[place] == shown[i];
        assert(buttons[place].image_key@ == image.key@);
        assert(is_only_slot(image.assignments@, shown[i].slot_id@, slots[place]));
        if exists|slot: int|
            #[trigger] is_only_slot(image.assignments@, shown[i].slot_id@, slot)
                && fraction.ensures((&image, &image.assignments@[slot]), None) {
            let slot = choose|slot: int|
                #[trigger] is_only_slot(image.assignments@, shown[i].slot_id@, slot)
                    && fraction.ensures((&image, &image.assignments@[slot]), None);
            assert(image.assignments@[slot].slot_id@ == buttons[place].slot_id@);
        }
    }
}

/// An image that shows a button, and has a usable slot of its own for every button that it shows,
/// is marked.
pub proof fn an_image_with_usable_slots_is_marked<
    F: Fn(&ImageEntry, &Assignment) -> Option<Point>,
>(
    image: ImageEntry,
    buttons: Vec<OnboardButton>,
    fraction: F,
    slots: Seq<int>,
    button: int,
    found: Option<Vec<(u8, Point)>>,
)
    requires
        can_mark(image, buttons@, fraction, slots),
        0 <= button < buttons@.len(),
        buttons@[button].image_key@ == image.key@,
        call_ensures(markers::<F>, (&image, &buttons, &fraction), found),
    ensures
        found matches Some(markers) && marks_every_button(image, buttons@, fraction, markers@),
{
    nothing_is_unmarked(image, buttons@, fraction, slots, button);
    let markers = found->0;
    shown_is_filtered(buttons@, image.key@);
    let shown = buttons_with(buttons@, image.key@);
    assert(are_markers(image, buttons@, fraction, Some(markers@)));
    assert forall|i: int|
        #![trigger markers@[i]]
        0 <= i < markers@.len() implies {
        &&& markers@[i].0 == shown[i].index
        &&& exists|slot: int|
            0 <= slot < image.assignments@.len() && (
            #[trigger] image.assignments@[slot]).slot_id@ == shown[i].slot_id@
                && fraction.ensures((&image, &image.assignments@[slot]), Some(markers@[i].1))
    } by {
        assert(is_marked(image, shown[i], fraction, markers@[i]));
        let slot = choose|slot: int|
            #[trigger] is_only_slot(image.assignments@, shown[i].slot_id@, slot)
                && fraction.ensures((&image, &image.assignments@[slot]), Some(markers@[i].1));
        assert(image.assignments@[slot].slot_id@ == shown[i].slot_id@);
    }
}

/// If the profile has exactly the buttons of the model, every button has an image of its own with
/// usable slots, and the wanted key is that of a button, then its image is shown with markers.
pub proof fn usable_pictures_are_shown<F: Fn(&ImageEntry, &Assignment) -> Option<Point>>(
    images: Vec<ImageEntry>,
    buttons: Vec<OnboardButton>,
    button_count: usize,
    image_key: &str,
    fraction: F,
    pictures: Seq<int>,
    slots: Seq<int>,
    button: int,
    shown: Option<(usize, Vec<(u8, Point)>)>,
)
    requires
        buttons@.len() == button_count,
        0 <= button < buttons@.len(),
        buttons@[button].image_key@ == image_key@,
        forall|i: int|
            0 <= i < buttons@.len() ==> is_only_image(
                images@,
                (#[trigger] buttons@[i]).image_key@,
                pictures[i],
            ) && can_mark(images@[pictures[i]], buttons@, fraction, slots),
        call_ensures(
            visual_markers::<F>,
            (&images, &buttons, button_count, image_key, &fraction),
            shown,
        ),
    ensures
        shown matches Some((position, _)) && position == pictures[button],
{
    assert forall|i: int| 0 <= i < buttons@.len() implies !is_unpictured(
        images@,
        buttons@,
        #[trigger] buttons@[i],
        fraction,
    ) by {
        let key = buttons@[i].image_key@;
        assert(is_only_image(images@, key, pictures[i]));
        nothing_is_unmarked(images@[pictures[i]], buttons@, fraction, slots, i);
        if exists|position: int|
            #[trigger] is_only_image(images@, key, position) && are_markers(
                images@[position],
                buttons@,
                fraction,
                None,
            ) {
            let position = choose|position: int|
                #[trigger] is_only_image(images@, key, position) && are_markers(
                    images@[position],
                    buttons@,
                    fraction,
                    None,
                );
            assert(images@[position].key@ == images@[pictures[i]].key@);
        }
    }
    let own = pictures[button];
    assert(is_only_image(images@, buttons@[button].image_key@, own));
    nothing_is_unmarked(images@[own], buttons@, fraction, slots, button);
    assert(images@[own].key@ == image_key@);
    if let Some((position, _)) = shown {
        assert(images@[position as int].key@ == image_key@);
    }
}

/// The buttons and markers of labels, in the order of the labels.
pub open spec fn labelled(layout: CanvasLayout) -> Seq<(u8, Point)> {
    Seq::new(layout.labels@.len(), |i: int| (layout.labels@[i].index, layout.labels@[i].marker))
}

/// Whether a marker lies at a height.
pub open spec fn is_at_height(marker: (u8, Point), height: u32) -> bool {
    marker.1.y == height
}

/// Every marker gets exactly one label. Markers at the negative zero come before all others, and
/// markers at the same height keep their order.
pub proof fn every_marker_gets_one_label(
    width: u32,
    height: u32,
    png: (u32, u32),
    markers: Vec<(u8, Point)>,
    layout: CanvasLayout,
    above: int,
    label: int,
    level: u32,
)
    requires
        call_ensures(CanvasLayout::new, (width, height, png, &markers), Some(layout)),
        0 <= above < label < markers@.len(),
    ensures
        labelled(layout).to_multiset() == markers@.to_multiset(),
        layout.labels@[label].marker.y == 0x8000_0000 ==> layout.labels@[above].marker.y
            == 0x8000_0000,
        labelled(layout).filter(|marker: (u8, Point)| is_at_height(marker, level))
            == markers@.filter(|marker: (u8, Point)| is_at_height(marker, level)),
{
    let rank = height_rank();
    let sorted = stably_ordered(markers@, rank);
    ordered_items_are_the_same_in_order(markers@, rank);
    ordering_is_stable(markers@, rank, float_rank(level));
    assert(labelled(layout) =~= sorted);
    assert(rank(sorted[above]) <= rank(sorted[label]));
    assert(markers@.contains(sorted[above])) by {
        broadcast use vstd::seq_lib::group_to_multiset_ensures;

        assert(sorted.contains(sorted[above]));
        assert(markers@.to_multiset().count(sorted[above]) > 0);
    }
    let place = choose|place: int| 0 <= place < markers@.len() && markers@[place] == sorted[above];
    assert(is_position(markers@[place].1.y));
    let by_rank = |marker: (u8, Point)| rank(marker) == float_rank(level);
    let by_height = |marker: (u8, Point)| is_at_height(marker, level);
    assert(by_rank =~= by_height);
}

/// Without any image there are neither dimensions nor assignments.
pub proof fn no_image_shows_nothing(
    metadata: Metadata,
    origin: Option<Origin>,
    assignments: Vec<&Assignment>,
)
    requires
        call_ensures(Metadata::origin, (&metadata,), origin),
        call_ensures(Metadata::assignments, (&metadata,), assignments),
        metadata.images@.len() == 0,
    ensures
        origin is None,
        assignments@.len() == 0,
{
    the_first_image(metadata, "device_image"@, 0);
    the_first_image(metadata, "device_buttons_image"@, 0);
}

} // verus!
