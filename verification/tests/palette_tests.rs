use theme_editor::color::{ColorPair, ColorValue};
use theme_editor::display::{color_text, display_text, push_decimal};
use theme_editor::palette::{overlay, ExtendedPalette, Role, Shades, Usage, Variant};
use theme_editor::parse::parse;

fn rgb(r: u8, g: u8, b: u8) -> ColorValue {
    ColorValue { r, g, b }
}

fn shades(seed: u8) -> Shades {
    Shades {
        base: ColorPair { background: rgb(seed, seed + 1, seed + 2), foreground: rgb(1, seed, 1) },
        weak: ColorPair { background: rgb(seed + 3, seed + 4, seed + 5), foreground: rgb(2, seed, 2) },
        strong: ColorPair {
            background: rgb(seed + 6, seed + 7, seed + 8),
            foreground: rgb(3, seed, 3),
        },
    }
}

fn sample() -> ExtendedPalette {
    ExtendedPalette {
        background: shades(10),
        primary: shades(50),
        secondary: shades(90),
        success: shades(130),
        danger: shades(170),
    }
}

#[test]
fn all_lists_fifteen_distinct_roles_in_order() {
    let roles = Role::all();
    assert_eq!(roles.len(), 15);
    assert_eq!(roles[0], Role { usage: Usage::Primary, variant: Variant::Base });
    assert_eq!(roles[1], Role { usage: Usage::Primary, variant: Variant::Weak });
    assert_eq!(roles[2], Role { usage: Usage::Primary, variant: Variant::Strong });
    assert_eq!(roles[3], Role { usage: Usage::Secondary, variant: Variant::Base });
    assert_eq!(roles[8], Role { usage: Usage::Background, variant: Variant::Strong });
    assert_eq!(roles[10], Role { usage: Usage::Success, variant: Variant::Weak });
    assert_eq!(roles[14], Role { usage: Usage::Danger, variant: Variant::Strong });
    for i in 0..15 {
        for j in 0..i {
            assert_ne!(roles[i], roles[j]);
        }
    }
}

#[test]
fn role_new_pairs_usage_and_variant() {
    assert_eq!(
        Role::new(Usage::Success, Variant::Weak),
        Role { usage: Usage::Success, variant: Variant::Weak }
    );
}

#[test]
fn get_pair_reads_each_slot() {
    let p = sample();
    assert_eq!(p.get_pair(Usage::Primary, Variant::Base), p.primary.base);
    assert_eq!(p.get_pair(Usage::Primary, Variant::Weak), p.primary.weak);
    assert_eq!(p.get_pair(Usage::Primary, Variant::Strong), p.primary.strong);
    assert_eq!(p.get_pair(Usage::Secondary, Variant::Base), p.secondary.base);
    assert_eq!(p.get_pair(Usage::Secondary, Variant::Weak), p.secondary.weak);
    assert_eq!(p.get_pair(Usage::Secondary, Variant::Strong), p.secondary.strong);
    assert_eq!(p.get_pair(Usage::Background, Variant::Base), p.background.base);
    assert_eq!(p.get_pair(Usage::Background, Variant::Weak), p.background.weak);
    assert_eq!(p.get_pair(Usage::Background, Variant::Strong), p.background.strong);
    assert_eq!(p.get_pair(Usage::Success, Variant::Base), p.success.base);
    assert_eq!(p.get_pair(Usage::Success, Variant::Weak), p.success.weak);
    assert_eq!(p.get_pair(Usage::Success, Variant::Strong), p.success.strong);
    assert_eq!(p.get_pair(Usage::Danger, Variant::Base), p.danger.base);
    assert_eq!(p.get_pair(Usage::Danger, Variant::Weak), p.danger.weak);
    assert_eq!(p.get_pair(Usage::Danger, Variant::Strong), p.danger.strong);
}

#[test]
fn display_color_is_the_background() {
    let p = sample();
    let role = Role { usage: Usage::Secondary, variant: Variant::Weak };
    assert_eq!(p.display_color(role), rgb(93, 94, 95));
}

#[test]
fn overlay_replaces_exactly_one_slot() {
    let base = sample();
    let pair = ColorPair::new(rgb(255, 0, 0));
    for role in Role::all() {
        let out = overlay(base, role, pair);
        for other in Role::all() {
            let got = out.get_pair(other.usage, other.variant);
            if other == role {
                assert_eq!(got, pair);
            } else {
                assert_eq!(got, base.get_pair(other.usage, other.variant));
            }
        }
    }
}

#[test]
fn overlay_leaves_its_argument_alone() {
    let base = sample();
    let copy = base;
    let _ = overlay(base, Role { usage: Usage::Danger, variant: Variant::Base }, ColorPair::new(rgb(1, 2, 3)));
    assert_eq!(base, copy);
    assert_eq!(base, sample());
}

#[test]
fn overlay_twice_is_overlay_once() {
    let base = sample();
    let pair = ColorPair::new(rgb(9, 99, 199));
    for role in Role::all() {
        let once = overlay(base, role, pair);
        let twice = overlay(once, role, pair);
        assert_eq!(twice, once);
    }
}

#[test]
fn overlay_of_the_primary_weak_slot() {
    let base = sample();
    let pair = ColorPair::new(rgb(0, 255, 0));
    let out = overlay(base, Role { usage: Usage::Primary, variant: Variant::Weak }, pair);
    let expected = ExtendedPalette {
        primary: Shades { weak: pair, ..base.primary },
        ..base
    };
    assert_eq!(out, expected);
}

#[test]
fn colour_is_written_as_rgb_triple() {
    assert_eq!(color_text(rgb(255, 0, 0)), "rgb(255, 0, 0)");
    assert_eq!(color_text(rgb(0, 10, 100)), "rgb(0, 10, 100)");
    assert_eq!(color_text(rgb(9, 99, 199)), "rgb(9, 99, 199)");
    assert_eq!(color_text(rgb(200, 210, 109)), "rgb(200, 210, 109)");
}

#[test]
fn push_decimal_appends_the_shortest_notation() {
    for n in 0..=255u8 {
        let mut out = String::from("x");
        push_decimal(&mut out, n);
        assert_eq!(out, format!("x{}", n));
    }
}

#[test]
fn display_text_writes_the_background_of_the_role() {
    let p = sample();
    assert_eq!(
        display_text(&p, Role { usage: Usage::Background, variant: Variant::Base }),
        "rgb(10, 11, 12)"
    );
    assert_eq!(
        display_text(&p, Role { usage: Usage::Danger, variant: Variant::Strong }),
        "rgb(176, 177, 178)"
    );
}

#[test]
fn shown_text_reads_back_as_the_same_colour() {
    let base = sample();
    for n in 0..=255u8 {
        let color = rgb(n, 255 - n, n ^ 0x5a);
        for role in Role::all() {
            let shown = overlay(base, role, ColorPair::new(color));
            let text = display_text(&shown, role);
            let read = parse(&text).unwrap();
            assert_eq!(read, color);
            let again = overlay(shown, role, ColorPair::new(read));
            assert_eq!(again.display_color(role), color);
            assert_eq!(again, shown);
        }
    }
}
