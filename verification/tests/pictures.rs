use openlogi_onboard::canvas::CanvasLayout;
use openlogi_onboard::metadata::{
    find_only_slot, is_fraction, markers, visual_markers, Assignment, Direction, ImageEntry,
    MarkerCoordinates, MarkerScale, Metadata, Origin, Point,
};
use openlogi_onboard::registry::{find_direct_hidpp, onboard_buttons, OnboardButton};
use serde_json::Value;

fn point(x: f32, y: f32) -> Point {
    Point {
        x: x.to_bits(),
        y: y.to_bits(),
    }
}

#[allow(clippy::cast_precision_loss)]
fn divide(scale: MarkerScale) -> Point {
    point(
        f32::from_bits(scale.marker.x) / scale.full_width as f32,
        f32::from_bits(scale.marker.y) / scale.full_height as f32,
    )
}

#[allow(clippy::cast_precision_loss)]
fn scale_up(scale: MarkerScale, quotient: Point) -> Point {
    let placed = |fraction: u32, origin: u32, png: u32| {
        let (origin, png) = (origin as f32, png as f32);
        ((png - origin) / 2.0 + f32::from_bits(fraction) * origin) / png
    };
    point(
        placed(quotient.x, scale.origin.width, scale.png.width),
        placed(quotient.y, scale.origin.height, scale.png.height),
    )
}

fn fraction(image: &ImageEntry, slot: &Assignment, png: Origin) -> Option<Point> {
    image.marker_fraction(slot, png, divide, scale_up)
}

fn text(value: &Value) -> String {
    value.as_str().unwrap_or_default().to_owned()
}

#[allow(clippy::cast_possible_truncation)]
fn images(json: &str) -> Vec<ImageEntry> {
    let root: Value = serde_json::from_str(json).unwrap();
    let dimension = |value: &Value| u32::try_from(value.as_u64().unwrap()).unwrap();
    root["images"]
        .as_array()
        .unwrap()
        .iter()
        .map(|image| ImageEntry {
            key: text(&image["key"]),
            coordinates: MarkerCoordinates::default(),
            origin: Origin {
                width: dimension(&image["origin"]["width"]),
                height: dimension(&image["origin"]["height"]),
            },
            assignments: image["assignments"]
                .as_array()
                .into_iter()
                .flatten()
                .map(|slot| Assignment {
                    slot_id: text(&slot["slotId"]),
                    slot_name: text(&slot["slotName"]),
                    marker: slot.get("marker").map(|marker| {
                        point(
                            marker["x"].as_f64().unwrap() as f32,
                            marker["y"].as_f64().unwrap() as f32,
                        )
                    }),
                    label: Direction::default(),
                })
                .collect(),
        })
        .collect()
}

#[test]
fn absent_markers_are_not_invented_at_the_image_origin() {
    let metadata = Metadata {
        images: images(
            r#"{"images":[{"key":"device_image","origin":{"width":800,"height":2000},"assignments":[{"slotId":"first"}]}]}"#,
        ),
    };
    let image = &metadata.images[0];
    assert!(fraction(image, &image.assignments[0], image.origin).is_none());
}

#[test]
fn source_format_preserves_pixel_slots_and_scales_against_the_selected_image() {
    let json = r#"{"images":[{"key":"device_side","origin":{"width":800,"height":2000},"assignments":[{"slotId":"example_g4_m1","marker":{"x":200,"y":1000}}]}]}"#;
    let metadata = Metadata::from_file(images(json), "metadata.json");
    let image = &metadata.images[0];
    assert_eq!(image.assignments[0].slot_id, "example_g4_m1");
    assert_eq!(image.coordinates, MarkerCoordinates::Pixels);
    assert_eq!(
        fraction(
            image,
            &image.assignments[0],
            Origin {
                width: 800,
                height: 2000
            }
        ),
        Some(point(0.25, 0.5))
    );
}

#[test]
fn percentage_markers_keep_padding_and_reject_invalid_geometry() {
    let json = r#"{"images":[{"key":"device_buttons_image","origin":{"width":800,"height":2000},"assignments":[{"slotName":"MIDDLE","marker":{"x":25,"y":50}}]}]}"#;
    let mut metadata = Metadata::from_file(images(json), "core_metadata.json");
    let image = &mut metadata.images[0];
    let png = Origin {
        width: 1000,
        height: 2000,
    };
    assert_eq!(image.coordinates, MarkerCoordinates::Percentage);
    assert_eq!(
        fraction(image, &image.assignments[0], png),
        Some(point(0.3, 0.5))
    );
    image.assignments[0].marker.as_mut().unwrap().x = 101.0_f32.to_bits();
    assert!(fraction(image, &image.assignments[0], png).is_none());
    image.assignments[0].marker.as_mut().unwrap().x = f32::NAN.to_bits();
    assert!(fraction(image, &image.assignments[0], png).is_none());
    image.assignments[0].marker.as_mut().unwrap().x = 20.0_f32.to_bits();
    image.origin.width = 0;
    assert!(fraction(image, &image.assignments[0], png).is_none());
}

#[test]
fn old_slot_id_only_metadata_parses() {
    let json = r#"{
      "images": [
        {
          "key": "device_image",
          "origin": { "width": 3598, "height": 1315 },
          "assignmentOffset": { "x": 800, "y": 0 },
          "assignments": [
            { "slotId": "g513_g1_m1",
              "marker": { "x": 370, "y": 300 },
              "label":  { "x": -1200, "y": 300 } }
          ]
        }
      ]
    }"#;
    let meta = Metadata {
        images: images(json),
    };
    let origin = meta.origin().expect("origin survives");
    assert_eq!((origin.width, origin.height), (3598, 1315));
    assert_eq!(meta.images[0].assignments[0].slot_name, "");
}

#[test]
fn camera_metadata_without_markers_parses() {
    let json = r#"{
      "images": [
        { "key": "device_image", "origin": { "width": 1280, "height": 800 } },
        {
          "key": "device_camera_image",
          "origin": { "width": 396, "height": 396 },
          "assignments": [
            { "slotId": "streamcam-0893_webcam_camera_settings",
              "slotName": "SLOT_NAME_WEBCAM_CAMERA_SETTINGS",
              "disableAssignmentClick": true }
          ]
        }
      ]
    }"#;
    let meta = Metadata {
        images: images(json),
    };
    let origin = meta.origin().expect("origin survives");
    assert_eq!((origin.width, origin.height), (1280, 800));
    assert_eq!(meta.assignments().len(), 0);
}

#[test]
fn the_origin_is_that_of_the_device_image() {
    let json = r#"{"images":[
        {"key":"device_buttons_image","origin":{"width":10,"height":20}},
        {"key":"device_image","origin":{"width":30,"height":40}},
        {"key":"device_image","origin":{"width":50,"height":60}}]}"#;
    let mut metadata = Metadata {
        images: images(json),
    };
    assert_eq!(
        metadata.origin(),
        Some(Origin {
            width: 30,
            height: 40
        })
    );
    metadata.images.truncate(1);
    assert_eq!(
        metadata.origin(),
        Some(Origin {
            width: 10,
            height: 20
        })
    );
    metadata.images.clear();
    assert_eq!(metadata.origin(), None);
}

#[test]
fn assignments_are_those_of_the_first_buttons_image() {
    let json = r#"{"images":[
        {"key":"device_image","origin":{"width":1,"height":1},"assignments":[{"slotId":"a"}]},
        {"key":"device_buttons_image","origin":{"width":1,"height":1},"assignments":[{"slotId":"b"},{"slotId":"c"}]},
        {"key":"device_buttons_image","origin":{"width":1,"height":1},"assignments":[{"slotId":"d"}]}]}"#;
    let metadata = Metadata {
        images: images(json),
    };
    let slots: Vec<&str> = metadata
        .assignments()
        .iter()
        .map(|slot| slot.slot_id.as_str())
        .collect();
    assert_eq!(slots, ["b", "c"]);
    assert_eq!(Metadata::default().origin(), None);
}

#[test]
fn a_picture_needs_room_for_the_origin() {
    let json = r#"{"images":[{"key":"k","origin":{"width":800,"height":800},"assignments":[{"slotId":"a","marker":{"x":1,"y":2}}]}]}"#;
    let metadata = Metadata::from_file(images(json), "metadata.json");
    let image = &metadata.images[0];
    let slot = &image.assignments[0];
    for (width, height, room) in [
        (800, 800, true),
        (799, 800, false),
        (800, 799, false),
        (16384, 16384, true),
        (16385, 800, false),
        (800, 16385, false),
    ] {
        let scale = image.marker_scale(slot, Origin { width, height });
        assert_eq!(scale.is_some(), room, "{width}x{height}");
    }
}

#[test]
fn fractions_lie_between_zero_and_one() {
    for (value, inside) in [
        (0.0, true),
        (-0.0, true),
        (f32::MIN_POSITIVE, true),
        (0.5, true),
        (1.0, true),
        (1.000_000_1, false),
        (-0.000_001, false),
        (f32::INFINITY, false),
        (f32::NEG_INFINITY, false),
        (f32::NAN, false),
    ] {
        assert_eq!(is_fraction(value.to_bits()), inside, "{value}");
        assert_eq!((0.0..=1.0).contains(&value), inside, "{value}");
    }
}

fn top() -> (ImageEntry, Vec<OnboardButton>) {
    let buttons = vec![
        OnboardButton {
            slot_id: "first",
            index: 0,
            image_key: "top",
        },
        OnboardButton {
            slot_id: "second",
            index: 1,
            image_key: "edge",
        },
    ];
    let image = ImageEntry {
        key: "top".to_owned(),
        coordinates: MarkerCoordinates::Pixels,
        origin: Origin {
            width: 800,
            height: 1600,
        },
        assignments: vec![Assignment {
            slot_id: "first".to_owned(),
            slot_name: String::new(),
            marker: Some(point(200., 400.)),
            label: Direction::default(),
        }],
    };
    (image, buttons)
}

#[test]
fn visual_markers_match_exact_slots_and_reject_duplicates_missing_slots_and_bounds() {
    let (mut image, buttons) = top();
    let place = |image: &ImageEntry, slot: &Assignment| {
        fraction(
            image,
            slot,
            Origin {
                width: 800,
                height: 1600,
            },
        )
    };
    assert_eq!(
        markers(&image, &buttons, &place),
        Some(vec![(0, point(0.25, 0.25))])
    );
    image.assignments.push(image.assignments[0].clone());
    assert!(markers(&image, &buttons, &place).is_none());
    image.assignments.pop();
    image.assignments[0].marker.as_mut().unwrap().x = 801.0_f32.to_bits();
    assert!(markers(&image, &buttons, &place).is_none());
    image.assignments[0].slot_id = "unknown".to_owned();
    assert!(markers(&image, &buttons, &place).is_none());
    image.key = "edge".to_owned();
    assert!(markers(&image, &buttons, &place).is_none());
    assert!(markers(&image, &Vec::new(), &place).is_none());
}

#[test]
fn the_pictures_of_all_buttons_are_needed() {
    let (image, buttons) = top();
    let place = |image: &ImageEntry, slot: &Assignment| fraction(image, slot, image.origin);
    let mut edge = image.clone();
    edge.key = "edge".to_owned();
    edge.assignments[0].slot_id = "second".to_owned();
    let both = vec![image.clone(), edge.clone()];
    assert_eq!(
        visual_markers(&both, &buttons, 2, "edge", &place),
        Some((1, vec![(1, point(0.25, 0.25))]))
    );
    assert!(visual_markers(&both, &buttons, 3, "edge", &place).is_none());
    assert!(visual_markers(&both, &Vec::new(), 0, "edge", &place).is_none());
    assert!(visual_markers(&both, &buttons, 2, "elsewhere", &place).is_none());
    assert!(visual_markers(&vec![image.clone()], &buttons, 2, "top", &place).is_none());
    let twice = vec![image.clone(), edge.clone(), edge];
    assert!(visual_markers(&twice, &buttons, 2, "top", &place).is_none());
    assert_eq!(find_only_slot(&image.assignments, "first"), Some(0));
    assert_eq!(find_only_slot(&image.assignments, "second"), None);
}

fn arranged(width: f32, height: f32, png: (u32, u32), markers: &[(u8, Point)]) -> bool {
    CanvasLayout::new(width.to_bits(), height.to_bits(), png, &markers.to_vec()).is_some()
}

#[test]
fn invalid_canvas_geometry_is_rejected() {
    let markers = vec![(0, point(0.5, 0.5))];
    for (width, height, png) in [
        (f32::NAN, 400., (800, 1600)),
        (320., 0., (800, 1600)),
        (320., 400., (0, 1600)),
        (320., 400., (800, 0)),
        (320., 400., (100_000, 1600)),
    ] {
        assert!(!arranged(width, height, png, &markers));
    }
    assert!(!arranged(
        320.,
        400.,
        (800, 1600),
        &[(0, point(f32::NAN, 0.5))]
    ));
}

#[test]
fn the_smallest_canvas_and_the_most_markers_are_accepted() {
    let full: Vec<(u8, Point)> = (0..8).map(|index| (index, point(0., 1.))).collect();
    assert!(arranged(300., 300., (1, 65535), &full));
    assert!(!arranged(299.9, 300., (1, 1), &full));
    assert!(!arranged(300., f32::INFINITY, (1, 1), &full));
    assert!(!arranged(300., 300., (1, 65536), &full));
    let more: Vec<(u8, Point)> = (0..9).map(|index| (index, point(0., 1.))).collect();
    assert!(!arranged(300., 300., (1, 1), &more));
    assert!(!arranged(300., 300., (1, 1), &[]));
    assert!(!arranged(-320., 300., (1, 1), &full));
}

#[test]
fn markers_track_image_scale_and_labels_keep_physical_order() {
    let markers = vec![
        (0, point(0.2, 0.5)),
        (1, point(0.2, 0.3)),
        (2, point(0.8, 0.4)),
    ];
    for width in [320.0_f32, 480., 640.] {
        let layout = CanvasLayout::new(
            width.to_bits(),
            400.0_f32.to_bits(),
            (800, 1600),
            &markers,
        )
        .unwrap();
        assert_eq!(
            layout
                .labels
                .iter()
                .map(|label| label.index)
                .collect::<Vec<_>>(),
            [1, 2, 0]
        );
        for label in &layout.labels {
            let source = markers
                .iter()
                .find(|(index, _)| *index == label.index)
                .unwrap()
                .1;
            assert_eq!(label.marker, source);
        }
        let left: Vec<(u8, u8)> = layout
            .labels
            .iter()
            .filter(|label| label.left)
            .map(|label| (label.index, label.row))
            .collect();
        assert_eq!(left, [(1, 0), (0, 1)]);
        assert!(!layout.labels[1].left);
        assert_eq!(layout.labels[1].row, 0);
    }
}

#[test]
fn labels_go_from_the_highest_marker_down_on_their_own_side() {
    let markers = vec![
        (0, point(0.2, 0.5)),
        (1, point(0.2, 0.3)),
        (2, point(0.8, 0.4)),
        (3, point(0.5, 0.3)),
        (4, point(-0.0, 0.9)),
    ];
    let layout = CanvasLayout::new(
        320.0_f32.to_bits(),
        400.0_f32.to_bits(),
        (800, 1600),
        &markers,
    )
    .unwrap();
    let placed: Vec<(u8, bool, u8)> = layout
        .labels
        .iter()
        .map(|label| (label.index, label.left, label.row))
        .collect();
    assert_eq!(
        placed,
        [
            (1, true, 0),
            (3, false, 0),
            (2, false, 1),
            (0, true, 1),
            (4, true, 2),
        ]
    );
    assert_eq!(layout.labels[0].marker, point(0.2, 0.3));
}

#[test]
fn onboard_slots_have_stable_indices_and_image_views() {
    let buttons = onboard_buttons("aab4");
    assert_eq!(buttons.len(), 8);
    for (index, button) in buttons.iter().enumerate() {
        assert_eq!(usize::from(button.index), index);
        assert_eq!(button.slot_id.as_bytes()[6], b'1' + button.index);
        assert_eq!(
            button.image_key,
            if (3..=5).contains(&index) {
                "device_side"
            } else {
                "device_image"
            }
        );
    }
    assert!(onboard_buttons("unknown").is_empty());
}

#[test]
fn g402_requires_an_exact_vendor_and_product_match() {
    let device = find_direct_hidpp(0x046d, 0xc07e).expect("G402");
    assert_eq!(device.registry_model_id, "aab4");
    assert!(device.wired_only);
    assert!(find_direct_hidpp(0x1234, 0xc07e).is_none());
    assert!(find_direct_hidpp(0x046d, 0xc07f).is_none());
}
