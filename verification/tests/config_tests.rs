use affnumber::config::{
    default_label_p1, default_label_p2, default_label_total, default_toggle_key, normalize_name,
    parse_vk, BadgeLabels,
};

#[test]
fn parse_vk_function_keys() {
    assert_eq!(parse_vk("F1"), Some(0x70));
    assert_eq!(parse_vk("f10"), Some(0x79));
    assert_eq!(parse_vk("F24"), Some(0x87));
    assert_eq!(parse_vk("F05"), Some(0x74));
    assert_eq!(parse_vk("F+5"), Some(0x74));
    assert_eq!(parse_vk("F25"), None);
    assert_eq!(parse_vk("F0"), None);
    assert_eq!(parse_vk("F-1"), None);
    assert_eq!(parse_vk("F+"), None);
    assert_eq!(parse_vk("F99999999999"), None);
}

#[test]
fn parse_vk_single_characters() {
    assert_eq!(parse_vk("P"), Some(0x50));
    assert_eq!(parse_vk("p"), Some(0x50));
    assert_eq!(parse_vk(" h "), Some(0x48));
    assert_eq!(parse_vk("7"), Some(0x37));
    assert_eq!(parse_vk("F"), Some(0x46));
    assert_eq!(parse_vk("!"), None);
    assert_eq!(parse_vk("\u{e9}"), None);
}

#[test]
fn parse_vk_named_keys() {
    assert_eq!(parse_vk("Insert"), Some(0x2D));
    assert_eq!(parse_vk("ins"), Some(0x2D));
    assert_eq!(parse_vk("DELETE"), Some(0x2E));
    assert_eq!(parse_vk("Del"), Some(0x2E));
    assert_eq!(parse_vk("home"), Some(0x24));
    assert_eq!(parse_vk("End"), Some(0x23));
    assert_eq!(parse_vk("PageUp"), Some(0x21));
    assert_eq!(parse_vk("pgup"), Some(0x21));
    assert_eq!(parse_vk("pagedown"), Some(0x22));
    assert_eq!(parse_vk("PgDn"), Some(0x22));
    assert_eq!(parse_vk("Escape"), None);
    assert_eq!(parse_vk("page up"), None);
}

#[test]
fn parse_vk_switched_off() {
    assert_eq!(parse_vk(""), None);
    assert_eq!(parse_vk("   "), None);
    assert_eq!(parse_vk("None"), None);
    assert_eq!(parse_vk("NONE"), None);
    assert_eq!(parse_vk(" off "), None);
    assert_eq!(parse_vk("\u{3000}Off\u{a0}"), None);
}

#[test]
fn normalize_name_canonical_spellings() {
    assert_eq!(normalize_name("ins"), "Insert");
    assert_eq!(normalize_name("DEL"), "Delete");
    assert_eq!(normalize_name("pgup"), "PageUp");
    assert_eq!(normalize_name("PgDn"), "PageDown");
    assert_eq!(normalize_name("f05"), "F5");
    assert_eq!(normalize_name("F+12"), "F12");
    assert_eq!(normalize_name("f24"), "F24");
    assert_eq!(normalize_name("h"), "H");
    assert_eq!(normalize_name(" 7 "), "7");
    assert_eq!(normalize_name("home"), "Home");
    assert_eq!(normalize_name("INSERT"), "Insert");
    assert_eq!(normalize_name("page up"), "Page up");
    assert_eq!(normalize_name("F0"), "F0");
    assert_eq!(normalize_name("!"), "!");
}

#[test]
fn normalize_name_switched_off() {
    assert_eq!(normalize_name(""), "None");
    assert_eq!(normalize_name("  off "), "None");
    assert_eq!(normalize_name("nOnE"), "None");
}

#[test]
fn normalize_name_unicode_case_mapping() {
    // first character through char::to_uppercase, the rest through char::to_lowercase
    assert_eq!(normalize_name("\u{e9}x"), "\u{c9}x");
    assert_eq!(normalize_name("\u{c9}\u{c9}"), "\u{c9}\u{e9}");
    assert_eq!(normalize_name("\u{df}x"), "SSx");
}

#[test]
fn normalize_is_stable_on_ascii_names() {
    for name in ["ins", "del", "f05", "h", "home", "Page up", "none", "", "F0", "xyz", "INSERT"] {
        let once = normalize_name(name);
        assert_eq!(normalize_name(&once), once, "name {:?}", name);
    }
}

#[test]
fn normalize_of_pgup_reads_back_lowercased() {
    let once = normalize_name("pgup");
    assert_eq!(once, "PageUp");
    assert_eq!(normalize_name(&once), "Pageup");
    assert_eq!(parse_vk(&normalize_name(&once)), parse_vk("pgup"));
}

#[test]
fn normalize_keeps_key_code() {
    for name in [
        "ins", "Insert", "del", "pgup", "pgdn", "f05", "F+7", "h", "home", "end", "none", "off", "",
        "page up", "F0", "9", "Escape",
    ] {
        assert_eq!(parse_vk(&normalize_name(name)), parse_vk(name), "name {:?}", name);
    }
}

#[test]
fn dotless_i_changes_key_code() {
    // U+0131 upper-cases to 'I', so the canonical spelling names a key the
    // name as written did not.
    assert_eq!(parse_vk("\u{131}nsert"), None);
    assert_eq!(normalize_name("\u{131}nsert"), "Insert");
    assert_eq!(parse_vk(&normalize_name("\u{131}nsert")), Some(0x2D));
}

#[test]
fn default_texts() {
    assert_eq!(default_label_total(), "Total");
    assert_eq!(default_label_p1(), "Parent 1");
    assert_eq!(default_label_p2(), "Parent 2");
    assert_eq!(default_toggle_key(), "P");
    let labels = BadgeLabels::default();
    assert_eq!(labels.total, "Total");
    assert_eq!(labels.parent_1, "Parent 1");
    assert_eq!(labels.parent_2, "Parent 2");
}
