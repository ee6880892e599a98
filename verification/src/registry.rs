//! Static identities for directly attached HID++ products.
use vstd::prelude::*;
use vstd::string::*;

use crate::text::same_text;

verus! {

/// USB vendor of every product here.
pub const LOGITECH_VENDOR_ID: u16 = 0x046d;

/// Model metadata independent of the firmware's HID++ model identifiers.
#[derive(Debug, Clone, Copy, PartialEq, Eq)]
pub struct DirectHidppDescriptor {
    /// Exact model identifier in the asset registry.
    pub registry_model_id: &'static str,
    /// Whether this product has no wireless transport.
    pub wired_only: bool,
}

/// Finds metadata by the directly attached device's complete vendor/product identity.
#[must_use]
pub fn find_direct_hidpp(vendor_id: u16, product_id: u16) -> (descriptor: Option<
    DirectHidppDescriptor,
>)
    ensures
        match descriptor {
            Some(descriptor) => {
                &&& vendor_id == LOGITECH_VENDOR_ID
                &&& product_id == 0xc07e
                &&& descriptor.registry_model_id@ == "aab4"@
                &&& descriptor.wired_only
            },
            None => vendor_id != LOGITECH_VENDOR_ID || product_id != 0xc07e,
        },
{
    if vendor_id == LOGITECH_VENDOR_ID && product_id == 0xc07e {
        Some(DirectHidppDescriptor { registry_model_id: "aab4", wired_only: true })
    } else {
        None
    }
}

/// One model-specific physical button in the asset catalog.
#[derive(Debug, Clone, Copy, PartialEq, Eq)]
pub struct OnboardButton {
    /// Exact assignment identifier in the model asset metadata.
    pub slot_id: &'static str,
    /// Zero-based position in the stored assignment table.
    pub index: u8,
    /// Manifest image resource carrying the button marker.
    pub image_key: &'static str,
}

/// The contents of a button.
#[verifier::ext_equal]
pub struct Button {
    pub slot_id: Seq<char>,
    pub index: u8,
    pub image_key: Seq<char>,
}

impl View for OnboardButton {
    type V = Button;

    open spec fn view(&self) -> Button {
        Button { slot_id: self.slot_id@, index: self.index, image_key: self.image_key@ }
    }
}

/// The contents of a list of buttons.
pub open spec fn button_list(buttons: Seq<OnboardButton>) -> Seq<Button> {
    buttons.map_values(|button: OnboardButton| button@)
}

/// The buttons of a model: only one model is known, and its fourth to sixth button are on its side.
pub open spec fn buttons_of(registry_model_id: Seq<char>) -> Seq<Button> {
    if registry_model_id == "aab4"@ {
        seq![
            Button { slot_id: "g402_g1_m1"@, index: 0, image_key: "device_image"@ },
            Button { slot_id: "g402_g2_m1"@, index: 1, image_key: "device_image"@ },
            Button { slot_id: "g402_g3_m1"@, index: 2, image_key: "device_image"@ },
            Button { slot_id: "g402_g4_m1"@, index: 3, image_key: "device_side"@ },
            Button { slot_id: "g402_g5_m1"@, index: 4, image_key: "device_side"@ },
            Button { slot_id: "g402_g6_m1"@, index: 5, image_key: "device_side"@ },
            Button { slot_id: "g402_g7_m1"@, index: 6, image_key: "device_image"@ },
            Button { slot_id: "g402_g8_m1"@, index: 7, image_key: "device_image"@ },
        ]
    } else {
        Seq::empty()
    }
}

fn button(slot_id: &'static str, index: u8, image_key: &'static str) -> (button: OnboardButton)
    ensures
        button@ == (Button { slot_id: slot_id@, index, image_key: image_key@ }),
{
    OnboardButton { slot_id, index, image_key }
}

/// Physical button mappings for a supported registry model.
#[must_use]
pub fn onboard_buttons(registry_model_id: &str) -> (buttons: Vec<OnboardButton>)
    ensures
        button_list(buttons@) == buttons_of(registry_model_id@),
{
    let mut buttons: Vec<OnboardButton> = Vec::new();
    if same_text(registry_model_id, "aab4") {
        buttons.push(button("g402_g1_m1", 0, "device_image"));
        buttons.push(button("g402_g2_m1", 1, "device_image"));
        buttons.push(button("g402_g3_m1", 2, "device_image"));
        buttons.push(button("g402_g4_m1", 3, "device_side"));
        buttons.push(button("g402_g5_m1", 4, "device_side"));
        buttons.push(button("g402_g6_m1", 5, "device_side"));
        buttons.push(button("g402_g7_m1", 6, "device_image"));
        buttons.push(button("g402_g8_m1", 7, "device_image"));
    }
    assert(button_list(buttons@) =~= buttons_of(registry_model_id@));
    buttons
}

/// The buttons of every model stand in the order of their indices, without a gap.
pub proof fn button_indices_are_their_positions(registry_model_id: Seq<char>, position: int)
    requires
        0 <= position < buttons_of(registry_model_id).len(),
    ensures
        buttons_of(registry_model_id)[position].index == position,
{
}

} // verus!
