//! The data of a mouse event.
use vstd::prelude::*;
use crate::geometry::{ClientPoint, Coordinates, ElementPoint, PagePoint, ScreenPoint};
use crate::input_data::{MouseButton, MouseButtonSet, ModifierKey, decode_mouse_button_set,
    encode_mouse_button_set, button_set_code, button_set_of};
use crate::outside::{modifier_bits, modifiers_empty, alt_modifier, control_modifier,
    meta_modifier, shift_modifier, modifiers_contains, modifiers_insert};
use keyboard_types::Modifiers;

verus! {

/// Data associated with a mouse event, in the shape of the web's
/// `MouseEvent`.
#[derive(Clone, Copy, Debug, PartialEq, Eq)]
pub struct MouseEvent {
    /// True if the alt key was down when the event was fired.
    pub alt_key: bool,
    /// The number of the button that caused the event.
    pub button: i16,
    /// The buttons held when the event was fired, one bit each.
    pub buttons: u16,
    /// The position relative to the viewport.
    pub client_x: i32,
    pub client_y: i32,
    /// True if the control key was down when the event was fired.
    pub ctrl_key: bool,
    /// True if the meta key was down when the event was fired.
    pub meta_key: bool,
    /// The position relative to the padding edge of the target element.
    pub offset_x: i32,
    pub offset_y: i32,
    /// The position relative to the whole document.
    pub page_x: i32,
    pub page_y: i32,
    /// The position relative to the screen.
    pub screen_x: i32,
    pub screen_y: i32,
    /// True if the shift key was down when the event was fired.
    pub shift_key: bool,
}

/// True when the bit of `key` is set in `bits`.
pub open spec fn holds_key(bits: u32, key: ModifierKey) -> bool {
    bits & key.mask() == key.mask()
}

/// The bits of the four recorded keys that are marked as held.
pub open spec fn recorded_bits(alt: bool, ctrl: bool, meta: bool, shift: bool) -> u32 {
    (if alt {
        0x01u32
    } else {
        0u32
    }) | (if ctrl {
        0x08u32
    } else {
        0u32
    }) | (if meta {
        0x40u32
    } else {
        0u32
    }) | (if shift {
        0x200u32
    } else {
        0u32
    })
}

/// The four recorded keys can be read back from their bits, and no other
/// bit is set.
pub proof fn lemma_recorded_bits_round_trip(alt: bool, ctrl: bool, meta: bool, shift: bool)
    ensures
        holds_key(recorded_bits(alt, ctrl, meta, shift), ModifierKey::Alt) == alt,
        holds_key(recorded_bits(alt, ctrl, meta, shift), ModifierKey::Control) == ctrl,
        holds_key(recorded_bits(alt, ctrl, meta, shift), ModifierKey::Meta) == meta,
        holds_key(recorded_bits(alt, ctrl, meta, shift), ModifierKey::Shift) == shift,
        recorded_bits(alt, ctrl, meta, shift) & !0x249u32 == 0,
{
    let a: u32 = if alt { 0x01u32 } else { 0u32 };
    let c: u32 = if ctrl { 0x08u32 } else { 0u32 };
    let m: u32 = if meta { 0x40u32 } else { 0u32 };
    let s: u32 = if shift { 0x200u32 } else { 0u32 };
    assert((a == 0 || a == 0x01) && (c == 0 || c == 0x08) && (m == 0 || m == 0x40) && (s == 0 || s
        == 0x200) ==> {
        &&& ((a | c | m | s) & 0x01 == 0x01) == (a == 0x01)
        &&& ((a | c | m | s) & 0x08 == 0x08) == (c == 0x08)
        &&& ((a | c | m | s) & 0x40 == 0x40) == (m == 0x40)
        &&& ((a | c | m | s) & 0x200 == 0x200) == (s == 0x200)
        &&& (a | c | m | s) & !0x249u32 == 0
    }) by (bit_vector);
}

/// The set that holds the one key.
fn modifier_flag(key: ModifierKey) -> (flag: Modifiers)
    ensures
        modifier_bits(flag) == key.mask(),
{
    match key {
        ModifierKey::Alt => alt_modifier(),
        ModifierKey::Control => control_modifier(),
        ModifierKey::Meta => meta_modifier(),
        ModifierKey::Shift => shift_modifier(),
    }
}

impl MouseEvent {
    /// The event at `coordinates`, caused by `trigger_button` (the primary
    /// button when none is given), with `held_buttons` held and with those
    /// of alt, control, meta and shift down that `modifiers` holds.
    pub fn new(
        coordinates: Coordinates,
        trigger_button: Option<MouseButton>,
        held_buttons: MouseButtonSet,
        modifiers: Modifiers,
    ) -> (event: MouseEvent)
        ensures
            event.alt_key == holds_key(modifier_bits(modifiers), ModifierKey::Alt),
            event.ctrl_key == holds_key(modifier_bits(modifiers), ModifierKey::Control),
            event.meta_key == holds_key(modifier_bits(modifiers), ModifierKey::Meta),
            event.shift_key == holds_key(modifier_bits(modifiers), ModifierKey::Shift),
            event.client_x == coordinates.client.x,
            event.client_y == coordinates.client.y,
            event.offset_x == coordinates.element.x,
            event.offset_y == coordinates.element.y,
            event.page_x == coordinates.page.x,
            event.page_y == coordinates.page.y,
            event.screen_x == coordinates.screen.x,
            event.screen_y == coordinates.screen.y,
            event.button == (match trigger_button {
                Some(button) => button.web_code(),
                None => 0i16,
            }),
            event.buttons == button_set_code(held_buttons),
    {
        let client = coordinates.client();
        let element = coordinates.element();
        let page = coordinates.page();
        let screen = coordinates.screen();
        MouseEvent {
            alt_key: modifiers_contains(&modifiers, modifier_flag(ModifierKey::Alt)),
            ctrl_key: modifiers_contains(&modifiers, modifier_flag(ModifierKey::Control)),
            meta_key: modifiers_contains(&modifiers, modifier_flag(ModifierKey::Meta)),
            shift_key: modifiers_contains(&modifiers, modifier_flag(ModifierKey::Shift)),
            client_x: client.x,
            client_y: client.y,
            offset_x: element.x,
            offset_y: element.y,
            page_x: page.x,
            page_y: page.y,
            screen_x: screen.x,
            screen_y: screen.y,
            button: match trigger_button {
                Some(button) => button.into_web_code(),
                None => 0,
            },
            buttons: encode_mouse_button_set(held_buttons),
        }
    }

    /// The position relative to the viewport.
    pub fn client_coordinates(&self) -> (point: ClientPoint)
        ensures
            point == (ClientPoint { x: self.client_x, y: self.client_y }),
    {
        ClientPoint { x: self.client_x, y: self.client_y }
    }

    /// The position relative to the padding edge of the target element.
    pub fn element_coordinates(&self) -> (point: ElementPoint)
        ensures
            point == (ElementPoint { x: self.offset_x, y: self.offset_y }),
    {
        ElementPoint { x: self.offset_x, y: self.offset_y }
    }

    /// The position relative to the whole document.
    pub fn page_coordinates(&self) -> (point: PagePoint)
        ensures
            point == (PagePoint { x: self.page_x, y: self.page_y }),
    {
        PagePoint { x: self.page_x, y: self.page_y }
    }

    /// The position relative to the screen.
    pub fn screen_coordinates(&self) -> (point: ScreenPoint)
        ensures
            point == (ScreenPoint { x: self.screen_x, y: self.screen_y }),
    {
        ScreenPoint { x: self.screen_x, y: self.screen_y }
    }

    /// The position in all four spaces.
    pub fn coordinates(&self) -> (all: Coordinates)
        ensures
            all == (Coordinates {
                screen: ScreenPoint { x: self.screen_x, y: self.screen_y },
                client: ClientPoint { x: self.client_x, y: self.client_y },
                element: ElementPoint { x: self.offset_x, y: self.offset_y },
                page: PagePoint { x: self.page_x, y: self.page_y },
            }),
    {
        Coordinates::new(
            self.screen_coordinates(),
            self.client_coordinates(),
            self.element_coordinates(),
            self.page_coordinates(),
        )
    }

    /// The modifier keys that were down: exactly those of alt, control,
    /// meta and shift that the event records, and no other key.
    pub fn modifiers(&self) -> (modifiers: Modifiers)
        ensures
            modifier_bits(modifiers) == recorded_bits(
                self.alt_key,
                self.ctrl_key,
                self.meta_key,
                self.shift_key,
            ),
    {
        let mut modifiers = modifiers_empty();
        let ghost none = modifier_bits(modifiers);
        if self.alt_key {
            modifiers_insert(&mut modifiers, modifier_flag(ModifierKey::Alt));
        }
        let ghost alt = modifier_bits(modifiers);
        if self.ctrl_key {
            modifiers_insert(&mut modifiers, modifier_flag(ModifierKey::Control));
        }
        let ghost ctrl = modifier_bits(modifiers);
        if self.meta_key {
            modifiers_insert(&mut modifiers, modifier_flag(ModifierKey::Meta));
        }
        let ghost meta = modifier_bits(modifiers);
        if self.shift_key {
            modifiers_insert(&mut modifiers, modifier_flag(ModifierKey::Shift));
        }
        proof {
            let a: u32 = if self.alt_key { 0x01u32 } else { 0u32 };
            let c: u32 = if self.ctrl_key { 0x08u32 } else { 0u32 };
            let m: u32 = if self.meta_key { 0x40u32 } else { 0u32 };
            let s: u32 = if self.shift_key { 0x200u32 } else { 0u32 };
            assert(0u32 | a == a) by (bit_vector);
            assert(a | 0u32 == a) by (bit_vector);
            assert((a | c) | 0u32 == a | c) by (bit_vector);
            assert(((a | c) | m) | 0u32 == (a | c) | m) by (bit_vector);
            assert(alt == a);
            assert(ctrl == a | c);
            assert(meta == (a | c) | m);
        }
        modifiers
    }

    /// The buttons that were held when the event occurred.
    pub fn held_buttons(&self) -> (set: MouseButtonSet)
        ensures
            set == button_set_of(self.buttons),
    {
        decode_mouse_button_set(self.buttons)
    }

    /// The button that caused the event. For events that no button caused
    /// this is the primary button.
    pub fn trigger_button(&self) -> (button: Option<MouseButton>)
        ensures
            button == Some(MouseButton::of_web_code(self.button)),
    {
        Some(MouseButton::from_web_code(self.button))
    }
}

} // verus!
