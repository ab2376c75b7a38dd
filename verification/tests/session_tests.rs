use theme_editor::color::{ColorPair, ColorValue};
use theme_editor::palette::{overlay, ExtendedPalette, Role, Shades, Usage, Variant};
use theme_editor::session::{
    effective_display_text, App, AppMessage, BaseTheme, Outcome, PendingEdit, DEBOUNCE_MS,
};

fn rgb(r: u8, g: u8, b: u8) -> ColorValue {
    ColorValue { r, g, b }
}

fn shades(seed: u8) -> Shades {
    Shades {
        base: ColorPair::new(rgb(seed, seed, seed)),
        weak: ColorPair::new(rgb(seed + 10, seed, seed)),
        strong: ColorPair::new(rgb(seed, seed + 10, seed)),
    }
}

fn palette(seed: u8) -> ExtendedPalette {
    ExtendedPalette {
        background: shades(seed),
        primary: shades(seed + 20),
        secondary: shades(seed + 40),
        success: shades(seed + 60),
        danger: shades(seed + 80),
    }
}

fn light() -> BaseTheme {
    BaseTheme { id: 0, palette: palette(150) }
}

fn dark() -> BaseTheme {
    BaseTheme { id: 1, palette: palette(5) }
}

const PRIMARY_BASE: Role = Role { usage: Usage::Primary, variant: Variant::Base };

const PRIMARY_WEAK: Role = Role { usage: Usage::Primary, variant: Variant::Weak };

fn typed(text: &str, role: Role) -> AppMessage {
    AppMessage::Action(text.to_owned(), role.usage, role.variant)
}

#[test]
fn new_editor_shows_the_base_theme() {
    let app = App::new(light());
    assert_eq!(app.effective_palette(), light().palette);
    assert!(!app.has_custom_palette());
    assert_eq!(app.selected_base_theme_id(), 0);
    assert_eq!(app.pending, None);
    assert_eq!(app.custom, None);
}

#[test]
fn debounce_lasts_750_milliseconds() {
    assert_eq!(DEBOUNCE_MS, 750);
}

#[test]
fn typing_starts_an_edit_without_validating() {
    let mut app = App::new(light());
    let outcome = app.update(typed("not a colour", PRIMARY_BASE), 40);
    assert_eq!(outcome, Outcome::AwaitInput);
    assert_eq!(
        app.pending,
        Some(PendingEdit {
            role: PRIMARY_BASE,
            raw_text: "not a colour".to_owned(),
            last_edited_at: 40
        })
    );
    assert_eq!(app.effective_palette(), light().palette);
    assert!(!app.has_custom_palette());
}

#[test]
fn first_tick_after_the_pause_commits() {
    let mut app = App::new(light());
    app.update(typed("ff0000", PRIMARY_BASE), 0);
    let outcome = app.update(AppMessage::Tick, 1000);
    let expected = overlay(light().palette, PRIMARY_BASE, ColorPair::new(rgb(255, 0, 0)));
    assert_eq!(outcome, Outcome::NewPalette(expected));
    assert_eq!(app.effective_palette(), expected);
    assert!(app.has_custom_palette());
    assert_eq!(app.pending, None);
    assert_eq!(app.update(AppMessage::Tick, 2000), Outcome::NoChange);
    assert_eq!(app.effective_palette(), expected);
}

#[test]
fn tick_before_the_pause_has_passed_waits() {
    let mut app = App::new(light());
    app.update(typed("ff0000", PRIMARY_BASE), 600);
    assert_eq!(app.update(AppMessage::Tick, 1000), Outcome::AwaitInput);
    assert_eq!(app.effective_palette(), light().palette);
    assert!(app.pending.is_some());
    assert_eq!(app.update(AppMessage::Tick, 1349), Outcome::AwaitInput);
    assert_eq!(app.effective_palette(), light().palette);
    let outcome = app.update(AppMessage::Tick, 2000);
    let expected = overlay(light().palette, PRIMARY_BASE, ColorPair::new(rgb(255, 0, 0)));
    assert_eq!(outcome, Outcome::NewPalette(expected));
    assert_eq!(app.effective_palette(), expected);
}

#[test]
fn pause_of_exactly_750_milliseconds_is_enough() {
    let mut app = App::new(light());
    app.update(typed("0,0,0", PRIMARY_BASE), 100);
    assert_eq!(app.update(AppMessage::Tick, 849), Outcome::AwaitInput);
    assert!(!app.has_custom_palette());
    assert!(matches!(app.update(AppMessage::Tick, 850), Outcome::NewPalette(_)));
    assert!(app.has_custom_palette());
}

#[test]
fn clock_that_reads_less_counts_as_no_time_passed() {
    let mut app = App::new(light());
    app.update(typed("0,0,0", PRIMARY_BASE), 5000);
    assert_eq!(app.update(AppMessage::Tick, 10), Outcome::AwaitInput);
    assert!(!app.has_custom_palette());
    assert!(app.pending.is_some());
}

#[test]
fn typing_again_restarts_the_pause() {
    let mut app = App::new(light());
    app.update(typed("ff", PRIMARY_BASE), 0);
    app.update(typed("ff00", PRIMARY_BASE), 700);
    assert_eq!(app.update(AppMessage::Tick, 1000), Outcome::AwaitInput);
    assert!(!app.has_custom_palette());
    assert!(matches!(app.update(AppMessage::Tick, 2000), Outcome::NewPalette(_)));
    assert_eq!(app.effective_palette().primary.base.background, rgb(0, 0xff, 0));
}

#[test]
fn submit_commits_at_once() {
    let mut app = App::new(dark());
    app.update(typed("#00ff00", PRIMARY_WEAK), 10);
    let outcome = app.update(AppMessage::ApplyCustom, 11);
    let expected = overlay(dark().palette, PRIMARY_WEAK, ColorPair::new(rgb(0, 255, 0)));
    assert_eq!(outcome, Outcome::NewPalette(expected));
    assert_eq!(app.effective_palette(), expected);
    assert_eq!(app.pending, None);
}

#[test]
fn later_edit_supersedes_the_earlier_one() {
    let mut app = App::new(light());
    app.update(typed("ff0000", PRIMARY_BASE), 0);
    app.update(typed("00ff00", PRIMARY_WEAK), 0);
    let outcome = app.update(AppMessage::ApplyCustom, 0);
    let expected = overlay(light().palette, PRIMARY_WEAK, ColorPair::new(rgb(0, 255, 0)));
    assert_eq!(outcome, Outcome::NewPalette(expected));
    let now = app.effective_palette();
    assert_eq!(now.primary.weak.background, rgb(0, 255, 0));
    assert_eq!(now.primary.base, light().palette.primary.base);
    assert_eq!(app.pending, None);
    assert_eq!(app.update(AppMessage::ApplyCustom, 5), Outcome::NoChange);
    assert_eq!(app.update(AppMessage::Tick, 5000), Outcome::NoChange);
    assert_eq!(app.effective_palette(), expected);
}

#[test]
fn committed_pair_gets_the_contrasting_foreground() {
    let mut app = App::new(dark());
    app.update(typed("255, 255, 255", PRIMARY_BASE), 0);
    app.update(AppMessage::ApplyCustom, 0);
    assert_eq!(
        app.effective_palette().primary.base,
        ColorPair { background: rgb(255, 255, 255), foreground: rgb(10, 10, 10) }
    );
    app.update(typed("0, 0, 0", PRIMARY_BASE), 1);
    app.update(AppMessage::ApplyCustom, 1);
    assert_eq!(
        app.effective_palette().primary.base,
        ColorPair { background: rgb(0, 0, 0), foreground: rgb(235, 235, 235) }
    );
}

#[test]
fn commits_accumulate_on_the_custom_palette() {
    let mut app = App::new(light());
    app.update(typed("1,2,3", PRIMARY_BASE), 0);
    app.update(AppMessage::ApplyCustom, 0);
    let danger = Role { usage: Usage::Danger, variant: Variant::Strong };
    app.update(typed("#040506", danger), 10);
    app.update(AppMessage::Tick, 760);
    let first = overlay(light().palette, PRIMARY_BASE, ColorPair::new(rgb(1, 2, 3)));
    let second = overlay(first, danger, ColorPair::new(rgb(4, 5, 6)));
    assert_eq!(app.effective_palette(), second);
    assert_eq!(app.selected_base_theme_id(), 0);
}

#[test]
fn text_that_is_no_colour_stays_pending() {
    for text in ["", "   ", "1,2", "zz", "#", "256,0,0"] {
        let mut app = App::new(light());
        app.update(typed(text, PRIMARY_BASE), 3);
        let before = app.clone();
        assert_eq!(app.update(AppMessage::ApplyCustom, 4), Outcome::AwaitInput);
        assert_eq!(app, before);
        assert_eq!(app.update(AppMessage::Tick, 5000), Outcome::AwaitInput);
        assert_eq!(app, before);
        assert_eq!(app.effective_display_text(PRIMARY_BASE), text);
        assert!(!app.has_custom_palette());
    }
}

#[test]
fn apply_custom_without_an_edit_does_nothing() {
    let mut app = App::new(light());
    assert_eq!(app.apply_custom(), Outcome::NoChange);
    assert_eq!(app, App::new(light()));
    assert_eq!(app.update(AppMessage::ApplyCustom, 9), Outcome::NoChange);
    assert_eq!(app.update(AppMessage::Tick, 9000), Outcome::NoChange);
    assert_eq!(app, App::new(light()));
}

#[test]
fn apply_custom_commits_the_pending_edit() {
    let mut app = App::new(light());
    app.update(typed("rgb(7, 8, 9)", PRIMARY_WEAK), 0);
    let expected = overlay(light().palette, PRIMARY_WEAK, ColorPair::new(rgb(7, 8, 9)));
    assert_eq!(app.apply_custom(), Outcome::NewPalette(expected));
    assert_eq!(app.custom, Some(expected));
    assert_eq!(app.pending, None);
    assert_eq!(app.theme, light());
}

#[test]
fn reset_restores_the_base_palette() {
    let mut app = App::new(light());
    app.update(typed("ff0000", PRIMARY_BASE), 0);
    app.update(AppMessage::ApplyCustom, 0);
    app.update(typed("0000ff", PRIMARY_WEAK), 1);
    app.update(AppMessage::Tick, 1000);
    app.update(typed("half typed", PRIMARY_WEAK), 1001);
    assert_ne!(app.effective_palette(), light().palette);
    let outcome = app.update(AppMessage::ResetCustom, 1002);
    assert_eq!(outcome, Outcome::NewPalette(light().palette));
    assert_eq!(app.effective_palette(), light().palette);
    assert!(!app.has_custom_palette());
    assert_eq!(app.pending, None);
    assert_eq!(app, App::new(light()));
}

#[test]
fn selecting_a_theme_drops_custom_palette_and_edit() {
    let mut app = App::new(light());
    app.update(typed("ff0000", PRIMARY_BASE), 0);
    app.update(AppMessage::ApplyCustom, 0);
    app.update(typed("00", PRIMARY_WEAK), 1);
    let outcome = app.update(AppMessage::Select(dark()), 2);
    assert_eq!(outcome, Outcome::NewPalette(dark().palette));
    assert_eq!(app.selected_base_theme_id(), 1);
    assert_eq!(app.effective_palette(), dark().palette);
    assert_eq!(app, App::new(dark()));
    assert_eq!(app.update(AppMessage::Tick, 5000), Outcome::NoChange);
    assert_eq!(app.effective_palette(), dark().palette);
}

#[test]
fn field_shows_pending_text_for_its_role_only() {
    let mut app = App::new(light());
    assert_eq!(app.effective_display_text(PRIMARY_BASE), "rgb(170, 170, 170)");
    app.update(typed("  #12 oops", PRIMARY_BASE), 0);
    assert_eq!(app.effective_display_text(PRIMARY_BASE), "  #12 oops");
    assert_eq!(app.effective_display_text(PRIMARY_WEAK), "rgb(180, 170, 170)");
    assert_eq!(
        app.effective_display_text(Role { usage: Usage::Secondary, variant: Variant::Base }),
        "rgb(190, 190, 190)"
    );
}

#[test]
fn field_shows_the_committed_colour_after_commit() {
    let mut app = App::new(light());
    app.update(typed("#0a141e", PRIMARY_BASE), 0);
    assert_eq!(app.effective_display_text(PRIMARY_BASE), "#0a141e");
    app.update(AppMessage::ApplyCustom, 0);
    assert_eq!(app.effective_display_text(PRIMARY_BASE), "rgb(10, 20, 30)");
}

#[test]
fn field_text_depends_on_edit_palette_and_role() {
    let edit = Some(PendingEdit {
        role: PRIMARY_WEAK,
        raw_text: "12,".to_owned(),
        last_edited_at: 7,
    });
    let p = palette(100);
    assert_eq!(effective_display_text(&edit, &p, PRIMARY_WEAK), "12,");
    assert_eq!(effective_display_text(&edit, &p, PRIMARY_BASE), "rgb(120, 120, 120)");
    assert_eq!(effective_display_text(&None, &p, PRIMARY_WEAK), "rgb(130, 120, 120)");
    assert_eq!(
        effective_display_text(&None, &p, Role { usage: Usage::Danger, variant: Variant::Strong }),
        "rgb(180, 190, 180)"
    );
}
