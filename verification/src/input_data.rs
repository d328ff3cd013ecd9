//! Mouse buttons and modifier keys, and their web encodings.
use vstd::prelude::*;

verus! {

/// A button of a pointing device.
#[derive(Clone, Copy, Debug, PartialEq, Eq, Hash, Structural)]
pub enum MouseButton {
    /// Usually the left button.
    Primary,
    /// Usually the right button.
    Secondary,
    /// Usually the wheel or middle button.
    Auxiliary,
    /// Usually "browser back".
    Fourth,
    /// Usually "browser forward".
    Fifth,
    /// Any other button.
    Unknown,
}

impl MouseButton {
    /// The number that the web's `button` property has for this button.
    pub open spec fn web_code(self) -> i16 {
        match self {
            MouseButton::Primary => 0,
            MouseButton::Auxiliary => 1,
            MouseButton::Secondary => 2,
            MouseButton::Fourth => 3,
            MouseButton::Fifth => 4,
            MouseButton::Unknown => -1i16,
        }
    }

    /// The button that the web's `button` property names by `code`.
    pub open spec fn of_web_code(code: i16) -> MouseButton {
        if code == 0 {
            MouseButton::Primary
        } else if code == 1 {
            MouseButton::Auxiliary
        } else if code == 2 {
            MouseButton::Secondary
        } else if code == 3 {
            MouseButton::Fourth
        } else if code == 4 {
            MouseButton::Fifth
        } else {
            MouseButton::Unknown
        }
    }

    /// The number that the web's `button` property has for this button; -1
    /// for an unknown button.
    pub fn into_web_code(self) -> (code: i16)
        ensures
            code == self.web_code(),
    {
        match self {
            MouseButton::Primary => 0,
            MouseButton::Auxiliary => 1,
            MouseButton::Secondary => 2,
            MouseButton::Fourth => 3,
            MouseButton::Fifth => 4,
            MouseButton::Unknown => -1,
        }
    }

    /// The button that the web's `button` property names by `code`; any
    /// code outside 0 to 4 is an unknown button.
    pub fn from_web_code(code: i16) -> (button: MouseButton)
        ensures
            button == MouseButton::of_web_code(code),
    {
        match code {
            0 => MouseButton::Primary,
            1 => MouseButton::Auxiliary,
            2 => MouseButton::Secondary,
            3 => MouseButton::Fourth,
            4 => MouseButton::Fifth,
            _ => MouseButton::Unknown,
        }
    }
}

/// A button's code names that button again.
pub proof fn lemma_web_code_round_trip(button: MouseButton)
    ensures
        MouseButton::of_web_code(button.web_code()) == button,
{
}

/// A set of mouse buttons.
#[derive(Clone, Copy, Debug, PartialEq, Eq, Structural)]
pub struct MouseButtonSet {
    pub primary: bool,
    pub secondary: bool,
    pub auxiliary: bool,
    pub fourth: bool,
    pub fifth: bool,
    pub unknown: bool,
}

impl MouseButtonSet {
    /// True when the button is in the set.
    pub open spec fn has(self, button: MouseButton) -> bool {
        match button {
            MouseButton::Primary => self.primary,
            MouseButton::Secondary => self.secondary,
            MouseButton::Auxiliary => self.auxiliary,
            MouseButton::Fourth => self.fourth,
            MouseButton::Fifth => self.fifth,
            MouseButton::Unknown => self.unknown,
        }
    }

    /// The set with no button.
    pub fn empty() -> (set: MouseButtonSet)
        ensures
            forall|button: MouseButton| !set.has(button),
    {
        MouseButtonSet {
            primary: false,
            secondary: false,
            auxiliary: false,
            fourth: false,
            fifth: false,
            unknown: false,
        }
    }

    /// True when the button is in the set.
    pub fn contains(&self, button: MouseButton) -> (held: bool)
        ensures
            held == self.has(button),
    {
        match button {
            MouseButton::Primary => self.primary,
            MouseButton::Secondary => self.secondary,
            MouseButton::Auxiliary => self.auxiliary,
            MouseButton::Fourth => self.fourth,
            MouseButton::Fifth => self.fifth,
            MouseButton::Unknown => self.unknown,
        }
    }

    /// Puts the button into the set.
    pub fn insert(&mut self, button: MouseButton)
        ensures
            forall|other: MouseButton| final(self).has(other) == (old(self).has(other) || other == button),
    {
        match button {
            MouseButton::Primary => {
                self.primary = true;
            },
            MouseButton::Secondary => {
                self.secondary = true;
            },
            MouseButton::Auxiliary => {
                self.auxiliary = true;
            },
            MouseButton::Fourth => {
                self.fourth = true;
            },
            MouseButton::Fifth => {
                self.fifth = true;
            },
            MouseButton::Unknown => {
                self.unknown = true;
            },
        }
    }
}

/// The value of the web's `buttons` property for a set: 1 for the primary
/// button, 2 for the secondary, 4 for the auxiliary, 8 and 16 for the
/// fourth and fifth, 32 for any other, added up.
pub open spec fn button_set_code(set: MouseButtonSet) -> int {
    (if set.primary {
        1int
    } else {
        0
    }) + (if set.secondary {
        2int
    } else {
        0
    }) + (if set.auxiliary {
        4int
    } else {
        0
    }) + (if set.fourth {
        8int
    } else {
        0
    }) + (if set.fifth {
        16int
    } else {
        0
    }) + (if set.unknown {
        32int
    } else {
        0
    })
}

/// The set that a value of the web's `buttons` property stands for: one
/// bit each for the five known buttons, and an unknown button when any
/// higher bit is set.
pub open spec fn button_set_of(code: u16) -> MouseButtonSet {
    MouseButtonSet {
        primary: code & 1 != 0,
        secondary: code & 2 != 0,
        auxiliary: code & 4 != 0,
        fourth: code & 8 != 0,
        fifth: code & 16 != 0,
        unknown: code & 0xffe0 != 0,
    }
}

/// Reads a value of the web's `buttons` property.
pub fn decode_mouse_button_set(code: u16) -> (set: MouseButtonSet)
    ensures
        set == button_set_of(code),
{
    MouseButtonSet {
        primary: code & 1 != 0,
        secondary: code & 2 != 0,
        auxiliary: code & 4 != 0,
        fourth: code & 8 != 0,
        fifth: code & 16 != 0,
        unknown: code & 0xffe0 != 0,
    }
}

/// Writes a set as a value of the web's `buttons` property.
pub fn encode_mouse_button_set(set: MouseButtonSet) -> (code: u16)
    ensures
        code == button_set_code(set),
{
    let mut code: u16 = 0;
    if set.primary {
        code = code + 1;
    }
    if set.secondary {
        code = code + 2;
    }
    if set.auxiliary {
        code = code + 4;
    }
    if set.fourth {
        code = code + 8;
    }
    if set.fifth {
        code = code + 16;
    }
    if set.unknown {
        code = code + 32;
    }
    code
}

/// Reading what was written gives the set back.
pub proof fn lemma_button_set_round_trip(set: MouseButtonSet)
    ensures
        0 <= button_set_code(set) < 64,
        button_set_of(button_set_code(set) as u16) == set,
{
    let code = button_set_code(set) as u16;
    assert(code < 64);
    assert((code & 1 != 0) == (code % 2 == 1)) by (bit_vector);
    assert((code & 2 != 0) == ((code / 2) % 2 == 1)) by (bit_vector);
    assert((code & 4 != 0) == ((code / 4) % 2 == 1)) by (bit_vector);
    assert((code & 8 != 0) == ((code / 8) % 2 == 1)) by (bit_vector);
    assert((code & 16 != 0) == ((code / 16) % 2 == 1)) by (bit_vector);
    assert(code < 64 ==> ((code & 0xffe0 != 0) == (code >= 32))) by (bit_vector);
}

/// A modifier key that a mouse event records.
#[derive(Clone, Copy, Debug, PartialEq, Eq, Structural)]
pub enum ModifierKey {
    Alt,
    Control,
    Meta,
    Shift,
}

impl ModifierKey {
    /// The bit that stands for the key in a set of modifiers.
    pub open spec fn mask(self) -> u32 {
        match self {
            ModifierKey::Alt => 0x01,
            ModifierKey::Control => 0x08,
            ModifierKey::Meta => 0x40,
            ModifierKey::Shift => 0x200,
        }
    }
}

} // verus!
