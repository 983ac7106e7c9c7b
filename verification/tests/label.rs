use auto_morph::keys::{ModifierFlags, FLAG_COMMAND, FLAG_CONTROL, FLAG_OPTION, FLAG_SHIFT};
use auto_morph::label::{
    hotkey_label, insert_name, join, names_label, sorted_key_names, text_precedes,
};
use std::collections::HashSet;

fn strings(items: &[&str]) -> Vec<String> {
    items.iter().map(|s| s.to_string()).collect()
}

#[test]
fn dictionary_order_agrees_with_the_standard_library() {
    let samples = [
        "", "A", "B", "AB", "Aa", "a", "Z", "Enter", "Escape", "Space", "Tab", "Unknown", "-",
        "=", "é", "e", "zz", "z", "\u{10FFFF}", "\u{D7FF}", "\u{E000}",
    ];
    for a in samples {
        for b in samples {
            assert_eq!(text_precedes(a, b), a <= b, "for {a:?} and {b:?}");
        }
    }
}

#[test]
fn names_are_inserted_in_order_and_once() {
    let mut names: Vec<String> = Vec::new();
    for name in ["M", "A", "Z", "A", "Enter", "M", "B"] {
        insert_name(&mut names, name.to_string());
    }
    assert_eq!(names, strings(&["A", "B", "Enter", "M", "Z"]));
}

#[test]
fn parts_are_joined_with_the_separator_between_them() {
    assert_eq!(join(&strings(&[]), " + "), "");
    assert_eq!(join(&strings(&["A"]), " + "), "A");
    assert_eq!(join(&strings(&["A", "B"]), " + "), "A + B");
    assert_eq!(join(&strings(&["Cmd", "Shift", "K"]), " + "), "Cmd + Shift + K");
    assert_eq!(join(&strings(&["", ""]), ","), ",");
}

#[test]
fn key_names_come_sorted() {
    let keys: HashSet<u64> = [40u64, 0, 46, 36].into_iter().collect();
    assert_eq!(sorted_key_names(&keys), strings(&["A", "Enter", "K", "M"]));
}

#[test]
fn key_names_leave_out_modifier_keys() {
    let keys: HashSet<u64> = [55u64, 56, 57, 58, 59, 60, 61, 62, 63, 0].into_iter().collect();
    assert_eq!(sorted_key_names(&keys), strings(&["A"]));
}

#[test]
fn key_names_come_once_each() {
    let keys: HashSet<u64> = [10u64, 52, 54, 200, 0].into_iter().collect();
    assert_eq!(sorted_key_names(&keys), strings(&["A", "Unknown"]));
}

#[test]
fn label_puts_modifiers_first() {
    let keys: HashSet<u64> = [40u64, 0].into_iter().collect();
    let flags = ModifierFlags::from_bits(FLAG_SHIFT | FLAG_COMMAND);
    assert_eq!(hotkey_label(&keys, flags), "Cmd + Shift + A + K");
}

#[test]
fn label_of_a_modifier_alone() {
    let keys: HashSet<u64> = HashSet::new();
    assert_eq!(hotkey_label(&keys, ModifierFlags::from_bits(FLAG_SHIFT)), "Shift");
    assert_eq!(
        hotkey_label(&keys, ModifierFlags::from_bits(FLAG_CONTROL | FLAG_OPTION)),
        "Ctrl + Option"
    );
}

#[test]
fn label_of_nothing_is_empty() {
    let keys: HashSet<u64> = HashSet::new();
    assert_eq!(hotkey_label(&keys, ModifierFlags::empty()), "");
}

#[test]
fn label_of_keys_alone() {
    let keys: HashSet<u64> = [49u64].into_iter().collect();
    assert_eq!(hotkey_label(&keys, ModifierFlags::empty()), "Space");
}

#[test]
fn label_does_not_depend_on_the_order_of_insertion() {
    let codes = [0u64, 1, 2, 3, 36, 48, 49, 53, 123, 126, 10];
    let forward: HashSet<u64> = codes.iter().copied().collect();
    let backward: HashSet<u64> = codes.iter().rev().copied().collect();
    let flags = ModifierFlags::from_bits(FLAG_OPTION);
    assert_eq!(hotkey_label(&forward, flags), hotkey_label(&backward, flags));
    assert_eq!(
        hotkey_label(&forward, flags),
        "Option + A + D + Enter + Escape + F + Left Arrow + S + Space + Tab + Unknown + Up Arrow"
    );
}

#[test]
fn names_label_sorts_and_drops_repetitions() {
    assert_eq!(
        names_label(&strings(&["Shift R", "A", "Control L", "A"])),
        "A + Control L + Shift R"
    );
    assert_eq!(names_label(&strings(&[])), "");
    assert_eq!(names_label(&strings(&["Q"])), "Q");
}
