//! Names for key codes and modifier flags, as shown in the hotkey label.

use vstd::prelude::*;

verus! {

/// The flag that Caps Lock sets.
pub const FLAG_CAPS_LOCK: u64 = 0x0001_0000;

/// The flag that either Shift key sets.
pub const FLAG_SHIFT: u64 = 0x0002_0000;

/// The flag that either Control key sets.
pub const FLAG_CONTROL: u64 = 0x0004_0000;

/// The flag that either Option (Alt) key sets.
pub const FLAG_OPTION: u64 = 0x0008_0000;

/// The flag that either Command (Meta) key sets.
pub const FLAG_COMMAND: u64 = 0x0010_0000;

/// A set of modifier flags, one bit per flag, as the keyboard hook reports
/// them with every event.
#[derive(Clone, Copy, Debug, PartialEq, Eq, Structural)]
pub struct ModifierFlags {
    pub bits: u64,
}

impl ModifierFlags {
    /// Whether no flag is set.
    pub open spec fn spec_is_empty(&self) -> bool {
        self.bits == 0
    }

    /// Whether every flag of `other` is set in `self`.
    pub open spec fn spec_contains(&self, other: ModifierFlags) -> bool {
        self.bits & other.bits == other.bits
    }

    /// The flags whose bits are `bits`.
    pub fn from_bits(bits: u64) -> (flags: ModifierFlags)
        ensures
            flags.bits == bits,
    {
        ModifierFlags { bits }
    }

    /// No flag at all.
    pub fn empty() -> (flags: ModifierFlags)
        ensures
            flags.bits == 0,
    {
        ModifierFlags { bits: 0 }
    }

    /// The bits of the flags that are set.
    pub fn bits(&self) -> (bits: u64)
        ensures
            bits == self.bits,
    {
        self.bits
    }

    /// Whether no flag is set.
    #[verifier::when_used_as_spec(spec_is_empty)]
    pub fn is_empty(&self) -> (empty: bool)
        ensures
            empty == self.spec_is_empty(),
    {
        self.bits == 0
    }

    /// Whether every flag of `other` is set in `self`.
    #[verifier::when_used_as_spec(spec_contains)]
    pub fn contains(&self, other: ModifierFlags) -> (all: bool)
        ensures
            all == self.spec_contains(other),
    {
        self.bits & other.bits == other.bits
    }
}

/// The names of the modifiers set in `flags`, in the fixed order Command,
/// Shift, Control, Option. Flags without a name are left out.
pub open spec fn flag_names(flags: ModifierFlags) -> Seq<Seq<char>> {
    let command = if flags.contains(ModifierFlags { bits: FLAG_COMMAND }) {
        seq!["Cmd"@]
    } else {
        Seq::empty()
    };
    let shift = if flags.contains(ModifierFlags { bits: FLAG_SHIFT }) {
        seq!["Shift"@]
    } else {
        Seq::empty()
    };
    let control = if flags.contains(ModifierFlags { bits: FLAG_CONTROL }) {
        seq!["Ctrl"@]
    } else {
        Seq::empty()
    };
    let option = if flags.contains(ModifierFlags { bits: FLAG_OPTION }) {
        seq!["Option"@]
    } else {
        Seq::empty()
    };
    command + shift + control + option
}

/// The names of the modifiers set in `flags`: "Cmd", "Shift", "Ctrl" and
/// "Option", each present exactly when its flag is set, always in that order.
pub fn flags_to_strings(flags: ModifierFlags) -> (parts: Vec<String>)
    ensures
        crate::text::texts(parts@) == flag_names(flags),
{
    let mut parts: Vec<String> = Vec::new();
    if flags.contains(ModifierFlags::from_bits(FLAG_COMMAND)) {
        parts.push("Cmd".to_owned());
    }
    if flags.contains(ModifierFlags::from_bits(FLAG_SHIFT)) {
        parts.push("Shift".to_owned());
    }
    if flags.contains(ModifierFlags::from_bits(FLAG_CONTROL)) {
        parts.push("Ctrl".to_owned());
    }
    if flags.contains(ModifierFlags::from_bits(FLAG_OPTION)) {
        parts.push("Option".to_owned());
    }
    parts
}

/// Whether `keycode` belongs to a modifier key (Command, Shift, Caps Lock,
/// Option, Control and their right-hand twins). Such keys are reported
/// through the modifier flags and are left out of the key part of a label.
pub open spec fn spec_is_modifier_keycode(keycode: u64) -> bool {
    55 <= keycode <= 63
}

/// Whether `keycode` belongs to a modifier key.
#[verifier::when_used_as_spec(spec_is_modifier_keycode)]
pub fn is_modifier_keycode(keycode: u64) -> (modifier: bool)
    ensures
        modifier == spec_is_modifier_keycode(keycode),
{
    55 <= keycode && keycode <= 63
}

/// The name of the key with the virtual key code `keycode` on an ANSI
/// keyboard layout; "Unknown" for a code without a name.
pub open spec fn keycode_name(keycode: u64) -> Seq<char> {
    match keycode {
        0 => "A"@,
        1 => "S"@,
        2 => "D"@,
        3 => "F"@,
        4 => "H"@,
        5 => "G"@,
        6 => "Z"@,
        7 => "X"@,
        8 => "C"@,
        9 => "V"@,
        11 => "B"@,
        12 => "Q"@,
        13 => "W"@,
        14 => "E"@,
        15 => "R"@,
        16 => "Y"@,
        17 => "T"@,
        18 => "1"@,
        19 => "2"@,
        20 => "3"@,
        21 => "4"@,
        22 => "6"@,
        23 => "5"@,
        24 => "="@,
        25 => "9"@,
        26 => "7"@,
        27 => "-"@,
        28 => "8"@,
        29 => "0"@,
        30 => "]"@,
        31 => "O"@,
        32 => "U"@,
        33 => "["@,
        34 => "I"@,
        35 => "P"@,
        36 => "Enter"@,
        37 => "L"@,
        38 => "J"@,
        39 => "'"@,
        40 => "K"@,
        41 => ";"@,
        42 => "\\"@,
        43 => ","@,
        44 => "/"@,
        45 => "N"@,
        46 => "M"@,
        47 => "."@,
        48 => "Tab"@,
        49 => "Space"@,
        50 => "`"@,
        51 => "Delete"@,
        53 => "Escape"@,
        55 => "Cmd"@,
        56 => "Shift"@,
        57 => "CapsLock"@,
        58 => "Option"@,
        59 => "Ctrl"@,
        60 => "Right Shift"@,
        61 => "Right Option"@,
        62 => "Right Ctrl"@,
        123 => "Left Arrow"@,
        124 => "Right Arrow"@,
        125 => "Down Arrow"@,
        126 => "Up Arrow"@,
        _ => "Unknown"@,
    }
}

/// The name of the key with the virtual key code `keycode`; "Unknown" for a
/// code that has none.
pub fn keycode_to_string(keycode: u64) -> (name: String)
    ensures
        name@ == keycode_name(keycode),
{
    let name: &str = match keycode {
        0 => "A",
        1 => "S",
        2 => "D",
        3 => "F",
        4 => "H",
        5 => "G",
        6 => "Z",
        7 => "X",
        8 => "C",
        9 => "V",
        11 => "B",
        12 => "Q",
        13 => "W",
        14 => "E",
        15 => "R",
        16 => "Y",
        17 => "T",
        18 => "1",
        19 => "2",
        20 => "3",
        21 => "4",
        22 => "6",
        23 => "5",
        24 => "=",
        25 => "9",
        26 => "7",
        27 => "-",
        28 => "8",
        29 => "0",
        30 => "]",
        31 => "O",
        32 => "U",
        33 => "[",
        34 => "I",
        35 => "P",
        36 => "Enter",
        37 => "L",
        38 => "J",
        39 => "'",
        40 => "K",
        41 => ";",
        42 => "\\",
        43 => ",",
        44 => "/",
        45 => "N",
        46 => "M",
        47 => ".",
        48 => "Tab",
        49 => "Space",
        50 => "`",
        51 => "Delete",
        53 => "Escape",
        55 => "Cmd",
        56 => "Shift",
        57 => "CapsLock",
        58 => "Option",
        59 => "Ctrl",
        60 => "Right Shift",
        61 => "Right Option",
        62 => "Right Ctrl",
        123 => "Left Arrow",
        124 => "Right Arrow",
        125 => "Down Arrow",
        126 => "Up Arrow",
        _ => "Unknown",
    };
    name.to_owned()
}

/// The label of a key whose name is written as one word of several
/// capitalised parts, such as `KeyA`, `ShiftLeft` or `ControlRight`: the
/// part `Key` is left out, `Left` becomes ` L` and `Right` becomes ` R`,
/// in this order.
pub open spec fn key_label(name: Seq<char>) -> Seq<char> {
    crate::text::replaced(
        crate::text::replaced(crate::text::replaced(name, "Key"@, ""@), "Left"@, " L"@),
        "Right"@,
        " R"@,
    )
}

/// The label of the key whose name, written as one word of capitalised
/// parts, is `name`: `KeyA` gives `A`, `ShiftLeft` gives `Shift L`,
/// `ControlRight` gives `Control R`.
pub fn key_to_string(name: &str) -> (label: String)
    ensures
        label@ == key_label(name@),
{
    let bare = crate::text::replace_all(name, "Key", "");
    let left = crate::text::replace_all(bare.as_str(), "Left", " L");
    crate::text::replace_all(left.as_str(), "Right", " R")
}

} // verus!
