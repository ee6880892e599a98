//! Image metadata: where on a picture of the device its buttons are.
//!
//! Markers are 32-bit floating-point numbers. They are kept and compared by their bit patterns;
//! the arithmetic on them is the caller's.
use vstd::prelude::*;
use vstd::string::*;

use crate::registry::OnboardButton;
use crate::text::same_text;

verus! {

/// Largest image dimension.
pub const MAX_DIMENSION: u32 = 16384;

/// What the coordinates of a marker count.
#[derive(Debug, Clone, Copy, PartialEq, Eq, Structural)]
pub enum MarkerCoordinates {
    /// Pixels of the origin.
    Pixels,
    /// Hundredths of the origin.
    Percentage,
}

impl Default for MarkerCoordinates {
    /// Hundredths of the origin.
    fn default() -> (coordinates: Self)
        ensures
            coordinates == MarkerCoordinates::Percentage,
    {
        MarkerCoordinates::Percentage
    }
}

/// The dimensions of an image.
#[derive(Debug, Clone, Copy, PartialEq, Eq, Structural)]
pub struct Origin {
    /// Width in pixels.
    pub width: u32,
    /// Height in pixels.
    pub height: u32,
}

/// The bit patterns of two 32-bit floating-point numbers.
#[derive(Debug, Clone, Copy, PartialEq, Eq, Structural)]
pub struct Point {
    /// Horizontal position.
    pub x: u32,
    /// Vertical position.
    pub y: u32,
}

/// A hint where an annotation sits relative to its marker.
#[derive(Debug, Clone, Copy, PartialEq, Eq, Structural)]
pub struct Direction {
    /// Horizontal direction.
    pub x: i32,
    /// Vertical direction.
    pub y: i32,
}

impl Default for Direction {
    /// No direction.
    fn default() -> (direction: Self)
        ensures
            direction == (Direction { x: 0, y: 0 }),
    {
        Direction { x: 0, y: 0 }
    }
}

/// One assignable slot on an image.
#[derive(Debug, PartialEq, Eq)]
pub struct Assignment {
    /// Identifier of the slot.
    pub slot_id: String,
    /// Name of the slot, empty where only the identifier is known.
    pub slot_name: String,
    /// Position of the slot, if it has one.
    pub marker: Option<Point>,
    /// Where the annotation sits.
    pub label: Direction,
}

/// Whether two slots say the same.
pub open spec fn is_same_slot(left: Assignment, right: Assignment) -> bool {
    &&& left.slot_id@ == right.slot_id@
    &&& left.slot_name@ == right.slot_name@
    &&& left.marker == right.marker
    &&& left.label == right.label
}

impl Clone for Assignment {
    fn clone(&self) -> (copy: Self)
        ensures
            is_same_slot(copy, *self),
    {
        Assignment {
            slot_id: self.slot_id.clone(),
            slot_name: self.slot_name.clone(),
            marker: self.marker,
            label: self.label,
        }
    }
}

/// One image with its slots.
#[derive(Debug, PartialEq, Eq)]
pub struct ImageEntry {
    /// Name of the image.
    pub key: String,
    /// What the coordinates of the markers count.
    pub coordinates: MarkerCoordinates,
    /// Dimensions that the markers refer to.
    pub origin: Origin,
    /// Slots on the image.
    pub assignments: Vec<Assignment>,
}

/// Whether two images say the same.
pub open spec fn is_same_image(left: ImageEntry, right: ImageEntry) -> bool {
    &&& left.key@ == right.key@
    &&& left.coordinates == right.coordinates
    &&& left.origin == right.origin
    &&& left.assignments@.len() == right.assignments@.len()
    &&& forall|i: int|
        0 <= i < left.assignments@.len() ==> is_same_slot(
            #[trigger] left.assignments@[i],
            right.assignments@[i],
        )
}

impl Clone for ImageEntry {
    fn clone(&self) -> (copy: Self)
        ensures
            is_same_image(copy, *self),
    {
        let mut assignments: Vec<Assignment> = Vec::new();
        let mut position: usize = 0;
        while position < self.assignments.len()
            invariant
                position <= self.assignments@.len(),
                assignments@.len() == position,
                forall|i: int|
                    0 <= i < position ==> is_same_slot(
                        #[trigger] assignments@[i],
                        self.assignments@[i],
                    ),
            decreases self.assignments@.len() - position,
        {
            assignments.push(self.assignments[position].clone());
            position = position + 1;
        }
        ImageEntry {
            key: self.key.clone(),
            coordinates: self.coordinates,
            origin: self.origin,
            assignments,
        }
    }
}

/// The images of a device.
#[derive(Debug, PartialEq, Eq)]
pub struct Metadata {
    /// Images in file order.
    pub images: Vec<ImageEntry>,
}

impl Default for Metadata {
    /// No images.
    fn default() -> (metadata: Self)
        ensures
            metadata.images@ == Seq::<ImageEntry>::empty(),
    {
        Metadata { images: Vec::new() }
    }
}

impl Clone for Metadata {
    fn clone(&self) -> (copy: Self)
        ensures
            copy.images@.len() == self.images@.len(),
            forall|i: int|
                0 <= i < self.images@.len() ==> is_same_image(
                    #[trigger] copy.images@[i],
                    self.images@[i],
                ),
    {
        let mut images: Vec<ImageEntry> = Vec::new();
        let mut position: usize = 0;
        while position < self.images.len()
            invariant
                position <= self.images@.len(),
                images@.len() == position,
                forall|i: int|
                    0 <= i < position ==> is_same_image(#[trigger] images@[i], self.images@[i]),
            decreases self.images@.len() - position,
        {
            images.push(self.images[position].clone());
            position = position + 1;
        }
        Metadata { images }
    }
}

/// Whether a bit pattern is that of a number from zero to one, the negative zero among them.
pub open spec fn is_unit_fraction(bits: u32) -> bool {
    bits <= 0x3f80_0000 || bits == 0x8000_0000
}

/// Whether a bit pattern is that of a number from zero to one.
pub fn is_fraction(bits: u32) -> (inside: bool)
    ensures
        inside == is_unit_fraction(bits),
{
    bits <= 0x3f80_0000 || bits == 0x8000_0000
}

/// A marker, what to divide it by, and the images between which it is scaled.
#[derive(Debug, Clone, Copy, PartialEq, Eq, Structural)]
pub struct MarkerScale {
    /// The marker in the coordinates of its metadata.
    pub marker: Point,
    /// What a full width counts.
    pub full_width: u32,
    /// What a full height counts.
    pub full_height: u32,
    /// Dimensions that the marker refers to.
    pub origin: Origin,
    /// Dimensions of the picture, in the middle of which the origin lies.
    pub png: Origin,
}

/// Whether a picture has room for an origin.
pub open spec fn has_room(origin: Origin, png: Origin) -> bool {
    &&& 0 < origin.width <= png.width <= MAX_DIMENSION
    &&& 0 < origin.height <= png.height <= MAX_DIMENSION
}

impl ImageEntry {
    /// How the marker of a slot is scaled to a picture.
    pub open spec fn scale_of(self, assignment: Assignment, png: Origin) -> Option<MarkerScale> {
        match assignment.marker {
            Some(marker) if has_room(self.origin, png) => Some(
                MarkerScale {
                    marker,
                    full_width: match self.coordinates {
                        MarkerCoordinates::Pixels => self.origin.width,
                        MarkerCoordinates::Percentage => 100,
                    },
                    full_height: match self.coordinates {
                        MarkerCoordinates::Pixels => self.origin.height,
                        MarkerCoordinates::Percentage => 100,
                    },
                    origin: self.origin,
                    png,
                },
            ),
            _ => None,
        }
    }

    /// Finds how the marker of a slot is scaled to a picture: a slot without a marker, or a picture
    /// without room, has none.
    pub fn marker_scale(&self, assignment: &Assignment, png: Origin) -> (scale: Option<MarkerScale>)
        ensures
            scale == self.scale_of(*assignment, png),
    {
        if self.origin.width == 0 || self.origin.height == 0 || png.width < self.origin.width
            || png.height < self.origin.height || png.width > MAX_DIMENSION || png.height
            > MAX_DIMENSION {
            return None;
        }
        match assignment.marker {
            None => None,
            Some(marker) => {
                let (full_width, full_height): (u32, u32) = match self.coordinates {
                    MarkerCoordinates::Pixels => (self.origin.width, self.origin.height),
                    MarkerCoordinates::Percentage => (100, 100),
                };
                Some(
                    MarkerScale { marker, full_width, full_height, origin: self.origin, png },
                )
            },
        }
    }

    /// The position of a marker on a picture. The given arithmetic first divides the marker by the
    /// full dimensions, and then scales a quotient that lies on the origin to the picture.
    pub fn marker_fraction<D: Fn(MarkerScale) -> Point, S: Fn(MarkerScale, Point) -> Point>(
        &self,
        assignment: &Assignment,
        png: Origin,
        divide: D,
        scale_up: S,
    ) -> (fraction: Option<Point>)
        requires
            forall|scale: MarkerScale| #[trigger] divide.requires((scale,)),
            forall|scale: MarkerScale, quotient: Point| #[trigger]
                scale_up.requires((scale, quotient)),
        ensures
            match (self.scale_of(*assignment, png), fraction) {
                (None, fraction) => fraction is None,
                (Some(scale), Some(fraction)) => exists|quotient: Point|
                    {
                        &&& #[trigger] divide.ensures((scale,), quotient)
                        &&& is_unit_fraction(quotient.x) && is_unit_fraction(quotient.y)
                        &&& scale_up.ensures((scale, quotient), fraction)
                    },
                (Some(scale), None) => exists|quotient: Point|
                    {
                        &&& #[trigger] divide.ensures((scale,), quotient)
                        &&& !(is_unit_fraction(quotient.x) && is_unit_fraction(quotient.y))
                    },
            },
    {
        match self.marker_scale(assignment, png) {
            None => None,
            Some(scale) => {
                let quotient: Point = divide(scale);
                if is_fraction(quotient.x) && is_fraction(quotient.y) {
                    let fraction: Point = scale_up(scale, quotient);
                    assert(scale_up.ensures((scale, quotient), fraction));
                    Some(fraction)
                } else {
                    None
                }
            },
        }
    }
}

/// What the markers of a metadata file count, by the name of the file.
pub open spec fn coordinates_of(file_name: Seq<char>) -> MarkerCoordinates {
    if file_name == "metadata.json"@ {
        MarkerCoordinates::Pixels
    } else {
        MarkerCoordinates::Percentage
    }
}

/// An image whose markers count something else.
pub open spec fn recounted(
    image: ImageEntry,
    before: ImageEntry,
    coordinates: MarkerCoordinates,
) -> bool {
    &&& image.key == before.key
    &&& image.coordinates == coordinates
    &&& image.origin == before.origin
    &&& image.assignments == before.assignments
}

impl Metadata {
    /// Takes parsed images from a file, whose name says what their markers count.
    pub fn from_file(images: Vec<ImageEntry>, file_name: &str) -> (metadata: Self)
        ensures
            metadata.images@.len() == images@.len(),
            forall|i: int|
                0 <= i < images@.len() ==> recounted(
                    #[trigger] metadata.images@[i],
                    images@[i],
                    coordinates_of(file_name@),
                ),
    {
        let coordinates = if same_text(file_name, "metadata.json") {
            MarkerCoordinates::Pixels
        } else {
            MarkerCoordinates::Percentage
        };
        let ghost parsed = images@;
        let mut rest: Vec<ImageEntry> = images;
        let mut counted: Vec<ImageEntry> = Vec::new();
        while rest.len() > 0
            invariant
                counted@.len() + rest@.len() == parsed.len(),
                rest@ == parsed.skip(counted@.len() as int),
                coordinates == coordinates_of(file_name@),
                forall|i: int|
                    0 <= i < counted@.len() ==> recounted(
                        #[trigger] counted@[i],
                        parsed[i],
                        coordinates,
                    ),
            decreases rest@.len(),
        {
            let mut image: ImageEntry = rest.remove(0);
            image.coordinates = coordinates;
            counted.push(image);
            assert(rest@ =~= parsed.skip(counted@.len() as int));
        }
        Metadata { images: counted }
    }

    /// The position of the first image with a key.
    pub open spec fn position_of(self, key: Seq<char>, start: int) -> Option<int>
        decreases self.images@.len() - start,
    {
        if start >= self.images@.len() {
            None
        } else if self.images@[start].key@ == key {
            Some(start)
        } else {
            self.position_of(key, start + 1)
        }
    }

    fn find_image(&self, key: &str) -> (position: Option<usize>)
        ensures
            match (position, self.position_of(key@, 0)) {
                (Some(position), Some(expected)) => position == expected && position
                    < self.images@.len(),
                (None, None) => true,
                _ => false,
            },
    {
        let mut position: usize = 0;
        while position < self.images.len()
            invariant
                position <= self.images@.len(),
                self.position_of(key@, 0) == self.position_of(key@, position as int),
            decreases self.images@.len() - position,
        {
            if same_text(self.images[position].key.as_str(), key) {
                return Some(position);
            }
            position = position + 1;
        }
        None
    }

    /// The dimensions of the image that shows the device. Where there is no such image, the first
    /// one stands in for it.
    #[must_use]
    pub fn origin(&self) -> (origin: Option<Origin>)
        ensures
            match self.position_of("device_image"@, 0) {
                Some(position) => {
                    &&& 0 <= position < self.images@.len()
                    &&& origin == Some(self.images@[position].origin)
                },
                None => origin == if self.images@.len() > 0 {
                    Some(self.images@[0].origin)
                } else {
                    None
                },
            },
    {
        match self.find_image("device_image") {
            Some(position) => Some(self.images[position].origin),
            None => if self.images.len() > 0 {
                Some(self.images[0].origin)
            } else {
                None
            },
        }
    }

    /// The slots of the image that shows the buttons.
    pub fn assignments(&self) -> (assignments: Vec<&Assignment>)
        ensures
            match self.position_of("device_buttons_image"@, 0) {
                Some(position) => {
                    &&& 0 <= position < self.images@.len()
                    &&& assignments@.len() == self.images@[position].assignments@.len()
                    &&& forall|i: int|
                        0 <= i < assignments@.len() ==> *(#[trigger] assignments@[i])
                            == self.images@[position].assignments@[i]
                },
                None => assignments@.len() == 0,
            },
    {
        let mut assignments: Vec<&Assignment> = Vec::new();
        if let Some(position) = self.find_image("device_buttons_image") {
            let image: &ImageEntry = &self.images[position];
            let mut slot: usize = 0;
            while slot < image.assignments.len()
                invariant
                    slot <= image.assignments@.len(),
                    assignments@.len() == slot,
                    forall|i: int|
                        0 <= i < slot ==> *(#[trigger] assignments@[i]) == image.assignments@[i],
                decreases image.assignments@.len() - slot,
            {
                assignments.push(&image.assignments[slot]);
                slot = slot + 1;
            }
        }
        assignments
    }
}

/// Whether a slot is the only one with an identifier.
pub open spec fn is_only_slot(
    assignments: Seq<Assignment>,
    slot_id: Seq<char>,
    position: int,
) -> bool {
    &&& 0 <= position < assignments.len()
    &&& assignments[position].slot_id@ == slot_id
    &&& forall|other: int|
        0 <= other < assignments.len() && other != position ==> (
        #[trigger] assignments[other]).slot_id@ != slot_id
}

/// Finds the only slot with an identifier.
pub fn find_only_slot(assignments: &Vec<Assignment>, slot_id: &str) -> (position: Option<usize>)
    ensures
        match position {
            Some(position) => is_only_slot(assignments@, slot_id@, position as int),
            None => forall|position: int| !is_only_slot(assignments@, slot_id@, position),
        },
{
    let mut found: Option<usize> = None;
    let mut position: usize = 0;
    while position < assignments.len()
        invariant
            position <= assignments@.len(),
            match found {
                Some(first) => first < position && assignments@[first as int].slot_id@ == slot_id@
                    && forall|other: int|
                    0 <= other < position && other != first ==> (
                    #[trigger] assignments@[other]).slot_id@ != slot_id@,
                None => forall|other: int|
                    0 <= other < position ==> (#[trigger] assignments@[other]).slot_id@
                        != slot_id@,
            },
        decreases assignments@.len() - position,
    {
        if same_text(assignments[position].slot_id.as_str(), slot_id) {
            match found {
                Some(first) => {
                    assert forall|only: int| !is_only_slot(assignments@, slot_id@, only) by {
                        assert(assignments@[first as int].slot_id@ == slot_id@);
                        assert(assignments@[position as int].slot_id@ == slot_id@);
                    }
                    return None;
                },
                None => {
                    found = Some(position);
                },
            }
        }
        position = position + 1;
    }
    found
}

/// The buttons that an image shows.
pub open spec fn shown_on(buttons: Seq<OnboardButton>, key: Seq<char>) -> Seq<OnboardButton>
    decreases buttons.len(),
{
    if buttons.len() == 0 {
        buttons
    } else {
        let earlier = shown_on(buttons.drop_last(), key);
        if buttons.last().image_key@ == key {
            earlier.push(buttons.last())
        } else {
            earlier
        }
    }
}

/// Whether a position was found for a button: by its only slot, whose marker lies on the picture.
pub open spec fn is_marked<F: Fn(&ImageEntry, &Assignment) -> Option<Point>>(
    image: ImageEntry,
    button: OnboardButton,
    fraction: F,
    marked: (u8, Point),
) -> bool {
    &&& marked.0 == button.index
    &&& exists|slot: int|
        #[trigger] is_only_slot(image.assignments@, button.slot_id@, slot) && fraction.ensures(
            (&image, &image.assignments@[slot]),
            Some(marked.1),
        )
}

/// Whether no position can be found for a button.
pub open spec fn is_unmarked<F: Fn(&ImageEntry, &Assignment) -> Option<Point>>(
    image: ImageEntry,
    button: OnboardButton,
    fraction: F,
) -> bool {
    ||| forall|slot: int| !is_only_slot(image.assignments@, button.slot_id@, slot)
    ||| exists|slot: int|
        #[trigger] is_only_slot(image.assignments@, button.slot_id@, slot) && fraction.ensures(
            (&image, &image.assignments@[slot]),
            None,
        )
}

/// Whether positions are those of every button that an image shows, in button order.
pub open spec fn are_markers<F: Fn(&ImageEntry, &Assignment) -> Option<Point>>(
    image: ImageEntry,
    buttons: Seq<OnboardButton>,
    fraction: F,
    markers: Option<Seq<(u8, Point)>>,
) -> bool {
    let shown = shown_on(buttons, image.key@);
    match markers {
        Some(markers) => {
            &&& shown.len() > 0
            &&& markers.len() == shown.len()
            &&& forall|i: int|
                0 <= i < shown.len() ==> is_marked(image, shown[i], fraction, #[trigger] markers[i])
        },
        None => shown.len() == 0 || exists|i: int|
            0 <= i < shown.len() && is_unmarked(image, #[trigger] shown[i], fraction),
    }
}

/// The contents of a list of positions.
pub open spec fn marker_list(markers: Option<Vec<(u8, Point)>>) -> Option<Seq<(u8, Point)>> {
    match markers {
        Some(markers) => Some(markers@),
        None => None,
    }
}

/// Finds the position of every button that an image shows: either all of them, or none.
pub fn markers<F: Fn(&ImageEntry, &Assignment) -> Option<Point>>(
    image: &ImageEntry,
    buttons: &Vec<OnboardButton>,
    fraction: &F,
) -> (markers: Option<Vec<(u8, Point)>>)
    requires
        forall|image: &ImageEntry, slot: &Assignment| #[trigger] fraction.requires((image, slot)),
    ensures
        are_markers(*image, buttons@, *fraction, marker_list(markers)),
{
    let ghost all = shown_on(buttons@, image.key@);
    let mut markers: Vec<(u8, Point)> = Vec::new();
    let mut position: usize = 0;
    let ghost mut shown: Seq<OnboardButton> = Seq::empty();
    assert(buttons@.take(0) =~= Seq::empty());
    while position < buttons.len()
        invariant
            position <= buttons@.len(),
            all == shown_on(buttons@, image.key@),
            shown == shown_on(buttons@.take(position as int), image.key@),
            markers@.len() == shown.len(),
            forall|image: &ImageEntry, slot: &Assignment| #[trigger]
                fraction.requires((image, slot)),
            forall|i: int|
                0 <= i < shown.len() ==> is_marked(
                    *image,
                    shown[i],
                    *fraction,
                    #[trigger] markers@[i],
                ),
        decreases buttons@.len() - position,
    {
        let button: OnboardButton = buttons[position];
        proof {
            let longer = buttons@.take(position + 1);
            assert(longer.drop_last() =~= buttons@.take(position as int));
            assert(longer.last() == button);
        }
        if same_text(button.image_key, image.key.as_str()) {
            proof {
                shown_prefix(buttons@, image.key@, position + 1);
                assert(shown.push(button) == shown_on(buttons@.take(position + 1), image.key@));
                assert(all[shown.len() as int] == button);
            }
            let slot: usize = match find_only_slot(&image.assignments, button.slot_id) {
                Some(slot) => slot,
                None => {
                    assert(is_unmarked(*image, all[shown.len() as int], *fraction));
                    return None;
                },
            };
            assert(is_only_slot(image.assignments@, button.slot_id@, slot as int));
            match fraction(image, &image.assignments[slot]) {
                Some(point) => {
                    markers.push((button.index, point));
                    assert(is_marked(*image, button, *fraction, (button.index, point)));
                },
                None => {
                    assert(is_unmarked(*image, all[shown.len() as int], *fraction));
                    return None;
                },
            }
            proof {
                shown = shown.push(button);
            }
        }
        position = position + 1;
    }
    assert(buttons@.take(buttons@.len() as int) =~= buttons@);
    if markers.len() == 0 {
        None
    } else {
        Some(markers)
    }
}

proof fn shown_prefix(buttons: Seq<OnboardButton>, key: Seq<char>, count: int)
    requires
        0 <= count <= buttons.len(),
    ensures
        shown_on(buttons.take(count), key).len() <= shown_on(buttons, key).len(),
        forall|i: int|
            0 <= i < shown_on(buttons.take(count), key).len() ==> #[trigger] shown_on(
                buttons,
                key,
            )[i] == shown_on(buttons.take(count), key)[i],
    decreases buttons.len() - count,
{
    if count < buttons.len() {
        shown_prefix(buttons, key, count + 1);
        let longer = buttons.take(count + 1);
        assert(longer.drop_last() =~= buttons.take(count));
    } else {
        assert(buttons.take(count) =~= buttons);
    }
}

/// Whether an image is the only one with a key.
pub open spec fn is_only_image(images: Seq<ImageEntry>, key: Seq<char>, position: int) -> bool {
    &&& 0 <= position < images.len()
    &&& images[position].key@ == key
    &&& forall|other: int|
        0 <= other < images.len() && other != position ==> (#[trigger] images[other]).key@ != key
}

fn find_only_image(images: &Vec<ImageEntry>, key: &str) -> (position: Option<usize>)
    ensures
        match position {
            Some(position) => is_only_image(images@, key@, position as int),
            None => forall|position: int| !is_only_image(images@, key@, position),
        },
{
    let mut found: Option<usize> = None;
    let mut position: usize = 0;
    while position < images.len()
        invariant
            position <= images@.len(),
            match found {
                Some(first) => first < position && images@[first as int].key@ == key@ && forall|
                    other: int,
                |
                    0 <= other < position && other != first ==> (#[trigger] images@[other]).key@
                        != key@,
                None => forall|other: int|
                    0 <= other < position ==> (#[trigger] images@[other]).key@ != key@,
            },
        decreases images@.len() - position,
    {
        if same_text(images[position].key.as_str(), key) {
            match found {
                Some(first) => {
                    assert forall|only: int| !is_only_image(images@, key@, only) by {
                        assert(images@[first as int].key@ == key@);
                        assert(images@[position as int].key@ == key@);
                    }
                    return None;
                },
                None => {
                    found = Some(position);
                },
            }
        }
        position = position + 1;
    }
    found
}

/// Whether the picture of a button is usable: only one image has its key, and every button on it
/// has a position.
pub open spec fn is_pictured<F: Fn(&ImageEntry, &Assignment) -> Option<Point>>(
    images: Seq<ImageEntry>,
    buttons: Seq<OnboardButton>,
    button: OnboardButton,
    fraction: F,
) -> bool {
    exists|position: int, markers: Seq<(u8, Point)>|
        #[trigger] is_only_image(images, button.image_key@, position) && #[trigger] are_markers(
            images[position],
            buttons,
            fraction,
            Some(markers),
        )
}

/// Finds the image to show and the positions of its buttons, where the pictures of all buttons of
/// the model are usable and the profile has exactly as many.
pub fn visual_markers<F: Fn(&ImageEntry, &Assignment) -> Option<Point>>(
    images: &Vec<ImageEntry>,
    buttons: &Vec<OnboardButton>,
    button_count: usize,
    image_key: &str,
    fraction: &F,
) -> (shown: Option<(usize, Vec<(u8, Point)>)>)
    requires
        forall|image: &ImageEntry, slot: &Assignment| #[trigger] fraction.requires((image, slot)),
    ensures
        shown matches Some((position, markers)) ==> {
            &&& buttons@.len() == button_count > 0
            &&& forall|i: int|
                0 <= i < buttons@.len() ==> is_pictured(
                    images@,
                    buttons@,
                    #[trigger] buttons@[i],
                    *fraction,
                )
            &&& position < images@.len()
            &&& images@[position as int].key@ == image_key@
            &&& forall|i: int|
                0 <= i < position ==> (#[trigger] images@[i]).key@ != image_key@
            &&& are_markers(images@[position as int], buttons@, *fraction, Some(markers@))
        },
        shown is None ==> {
            ||| buttons@.len() == 0
            ||| buttons@.len() != button_count
            ||| exists|i: int|
                0 <= i < buttons@.len() && is_unpictured(
                    images@,
                    buttons@,
                    #[trigger] buttons@[i],
                    *fraction,
                )
            ||| forall|i: int| 0 <= i < images@.len() ==> (#[trigger] images@[i]).key@ != image_key@
            ||| exists|i: int|
                0 <= i < images@.len() && (#[trigger] images@[i]).key@ == image_key@
                    && are_markers(images@[i], buttons@, *fraction, None)
        },
{
    if buttons.len() == 0 || buttons.len() != button_count {
        return None;
    }
    let mut position: usize = 0;
    while position < buttons.len()
        invariant
            position <= buttons@.len(),
            forall|image: &ImageEntry, slot: &Assignment| #[trigger]
                fraction.requires((image, slot)),
            forall|i: int|
                0 <= i < position ==> is_pictured(
                    images@,
                    buttons@,
                    #[trigger] buttons@[i],
                    *fraction,
                ),
        decreases buttons@.len() - position,
    {
        let button: OnboardButton = buttons[position];
        match find_only_image(images, button.image_key) {
            None => {
                assert(is_unpictured(images@, buttons@, buttons@[position as int], *fraction));
                return None;
            },
            Some(image) => match markers(&images[image], buttons, fraction) {
                None => {
                    assert(is_only_image(images@, button.image_key@, image as int));
                    assert(is_unpictured(images@, buttons@, buttons@[position as int], *fraction));
                    return None;
                },
                Some(found) => {
                    assert(is_only_image(images@, button.image_key@, image as int));
                    assert(are_markers(
                        images@[image as int],
                        buttons@,
                        *fraction,
                        Some(found@),
                    ));
                    assert(is_pictured(images@, buttons@, button, *fraction));
                },
            },
        }
        position = position + 1;
    }
    let mut image: usize = 0;
    while image < images.len()
        invariant
            image <= images@.len(),
            forall|i: int| 0 <= i < image ==> (#[trigger] images@[i]).key@ != image_key@,
            forall|image: &ImageEntry, slot: &Assignment| #[trigger]
                fraction.requires((image, slot)),
            buttons@.len() == button_count > 0,
            forall|i: int|
                0 <= i < buttons@.len() ==> is_pictured(
                    images@,
                    buttons@,
                    #[trigger] buttons@[i],
                    *fraction,
                ),
        decreases images@.len() - image,
    {
        if same_text(images[image].key.as_str(), image_key) {
            return match markers(&images[image], buttons, fraction) {
                Some(found) => Some((image, found)),
                None => None,
            };
        }
        image = image + 1;
    }
    None
}

/// Whether the picture of a button is not usable.
pub open spec fn is_unpictured<F: Fn(&ImageEntry, &Assignment) -> Option<Point>>(
    images: Seq<ImageEntry>,
    buttons: Seq<OnboardButton>,
    button: OnboardButton,
    fraction: F,
) -> bool {
    ||| forall|position: int| !is_only_image(images, button.image_key@, position)
    ||| exists|position: int|
        #[trigger] is_only_image(images, button.image_key@, position) && are_markers(
            images[position],
            buttons,
            fraction,
            None,
        )
}

} // verus!
