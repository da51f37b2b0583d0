use glyphos::merge::{merge_glyphs, merge_glyphs_at, Glyph};

fn glyph(id: &str, content: &str, energy: i64, activation_count: u32, last_update_time: u64) -> Glyph {
    Glyph {
        id: id.to_string(),
        content: content.to_string(),
        energy,
        activation_count,
        last_update_time,
    }
}

#[test]
fn higher_energy_is_primary_in_both_orders() {
    let a = glyph("a", "alpha", 5, 1, 10);
    let b = glyph("b", "beta", 3, 2, 20);
    let ab = merge_glyphs(&a, &b);
    let ba = merge_glyphs(&b, &a);
    assert_eq!(ab.content, "alpha + beta");
    assert_eq!(ba.content, "alpha + beta");
}

#[test]
fn scenario_b_energy_sum_and_primary_first() {
    let a = glyph("a", "first", 5, 0, 0);
    let b = glyph("b", "second", 3, 0, 0);
    let merged = merge_glyphs(&a, &b);
    assert_eq!(merged.energy, 8);
    assert!(merged.content.starts_with("first"));
}

#[test]
fn scenario_c_tie_break_is_first_argument() {
    let a = glyph("a", "one", 4, 0, 0);
    let b = glyph("b", "two", 4, 0, 0);
    let ab = merge_glyphs(&a, &b);
    let ba = merge_glyphs(&b, &a);
    assert_eq!(ab.content, "one + two");
    assert_eq!(ba.content, "two + one");
    assert_ne!(ab.content, ba.content);
}

#[test]
fn counters_take_field_wise_maximum() {
    let a = glyph("a", "x", 1, 7, 100);
    let b = glyph("b", "y", 2, 2, 200);
    let merged = merge_glyphs(&a, &b);
    assert_eq!(merged.activation_count, 7);
    assert_eq!(merged.last_update_time, 200);
}

#[test]
fn energy_sum_is_exact_with_negative_values() {
    let a = glyph("a", "x", 5, 0, 0);
    let b = glyph("b", "y", -3, 0, 0);
    let merged = merge_glyphs(&a, &b);
    assert_eq!(merged.energy, 2);
    assert_eq!(merged.content, "x + y");
}

#[test]
fn empty_contents_still_join_with_the_separator() {
    let a = glyph("a", "", 1, 0, 0);
    let b = glyph("b", "", 0, 0, 0);
    let merged = merge_glyphs(&a, &b);
    assert_eq!(merged.content, " + ");
}

#[test]
fn energy_sum_is_exact_at_the_field_limit() {
    let a = glyph("a", "x", i64::MAX - 1, 0, 0);
    let b = glyph("b", "y", 1, 0, 0);
    let merged = merge_glyphs(&a, &b);
    assert_eq!(merged.energy, i64::MAX);
}

#[test]
fn merged_identifier_comes_from_timestamp_not_parents() {
    let a = glyph("a", "x", 1, 0, 0);
    let b = glyph("b", "y", 1, 0, 0);
    let merged = merge_glyphs_at(&a, &b, 0xff);
    let mut expected = "0".repeat(62);
    expected.push_str("ff");
    assert_eq!(merged.id, expected);
}

#[test]
fn merged_identifier_is_64_hex_digits() {
    let a = glyph("a", "x", 1, 0, 0);
    let b = glyph("b", "y", 1, 0, 0);
    let merged = merge_glyphs(&a, &b);
    assert_eq!(merged.id.len(), 64);
    assert!(merged.id.chars().all(|c| c.is_ascii_hexdigit() && !c.is_ascii_uppercase()));
}
