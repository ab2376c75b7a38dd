//! The editor's state and its transitions: which base theme is selected,
//! which custom palette overrides it, and the single edit that may be
//! waiting to be committed.
//!
//! The state never reads a clock. Every message comes with the caller's
//! reading of a monotonic clock in milliseconds, and an edit is committed by
//! the first tick that finds it at least `DEBOUNCE_MS` old.

use crate::color::{ColorPair, ColorValue};
use crate::display::{display_text, rgb_text};
use crate::palette::{
    lemma_overlay_touches_one_role, overlay, ExtendedPalette, Role, Usage, Variant,
};
use crate::parse::{parse, parsed, ParseError};
use vstd::prelude::*;

verus! {

/// How long an edit must have rested before a tick commits it, in
/// milliseconds.
pub const DEBOUNCE_MS: u64 = 750;

/// A predefined palette and the number under which the catalog lists it.
#[derive(Clone, Copy, Debug, PartialEq, Eq, Structural)]
pub struct BaseTheme {
    pub id: u32,
    pub palette: ExtendedPalette,
}

/// Text typed for a role and not committed yet.
#[derive(Clone, Debug, PartialEq, Eq)]
pub struct PendingEdit {
    pub role: Role,
    pub raw_text: String,
    pub last_edited_at: u64,
}

/// What can happen to the editor.
#[derive(Clone, Debug, PartialEq, Eq)]
pub enum AppMessage {
    /// A base theme was picked.
    Select(BaseTheme),
    /// The custom palette is to be dropped.
    ResetCustom,
    /// The pending edit was submitted.
    ApplyCustom,
    /// The periodic timer fired.
    Tick,
    /// Text was typed into the field of a role.
    Action(String, Usage, Variant),
}

/// What a message did to the palette in effect.
#[derive(Clone, Copy, Debug, PartialEq, Eq, Structural)]
pub enum Outcome {
    /// Nothing was waiting and nothing changed.
    NoChange,
    /// An edit is waiting: for more typing, for the pause to pass, or for
    /// its text to be corrected.
    AwaitInput,
    /// The palette in effect was replaced by this one.
    NewPalette(ExtendedPalette),
}

/// The editor's state.
#[derive(Clone, Debug, PartialEq, Eq)]
pub struct App {
    /// The selected base theme.
    pub theme: BaseTheme,
    /// The palette derived from the base theme by the edits committed since
    /// it was selected, if there were any.
    pub custom: Option<ExtendedPalette>,
    /// The edit that waits to be committed, if there is one.
    pub pending: Option<PendingEdit>,
}

/// The time from `since` to `now`; zero where the clock reads less than it
/// did at `since`.
pub open spec fn elapsed(now: u64, since: u64) -> int {
    if now >= since {
        now - since
    } else {
        0
    }
}

/// What the field of `role` shows under `palette`: the pending text, letter
/// for letter, where the pending edit is for that role, and the notation of
/// the role's colour otherwise.
pub open spec fn field_text(
    pending: Option<PendingEdit>,
    palette: ExtendedPalette,
    role: Role,
) -> Seq<char> {
    match pending {
        Some(edit) if edit.role == role => edit.raw_text@,
        _ => rgb_text(palette.pair(role).background),
    }
}

/// The text to show in the field of `role`. A pending edit for that role is
/// shown as it was typed, valid or not; any other field shows the colour
/// that `palette` holds for it.
pub fn effective_display_text(
    pending: &Option<PendingEdit>,
    palette: &ExtendedPalette,
    role: Role,
) -> (text: String)
    ensures
        text@ == field_text(*pending, *palette, role),
{
    match pending {
        Some(edit) if edit.role == role => edit.raw_text.clone(),
        _ => display_text(palette, role),
    }
}

impl App {
    /// The palette in effect: the custom one if there is one, else that of
    /// the selected base theme.
    pub open spec fn effective(self) -> ExtendedPalette {
        match self.custom {
            Some(palette) => palette,
            None => self.theme.palette,
        }
    }

    /// Whether an edit waits and has rested long enough at `now`.
    pub open spec fn due(self, now: u64) -> bool {
        self.pending matches Some(edit) && elapsed(now, edit.last_edited_at) >= DEBOUNCE_MS
    }

    /// Whether an edit waits whose text is a colour.
    pub open spec fn commits(self) -> bool {
        self.pending matches Some(edit) && parsed(edit.raw_text@) is Ok
    }

    /// The palette that committing the pending edit puts into effect.
    pub open spec fn commit_palette(self) -> ExtendedPalette
        recommends
            self.commits(),
    {
        let edit = self.pending->0;
        self.effective().overlaid(edit.role, ColorPair::of(parsed(edit.raw_text@)->Ok_0))
    }

    /// The state after an attempt to commit. Without a pending edit, and
    /// with one whose text is no colour, the state stays as it is.
    pub open spec fn committed(self) -> App {
        if self.commits() {
            App { theme: self.theme, custom: Some(self.commit_palette()), pending: None }
        } else {
            self
        }
    }

    /// What an attempt to commit reports.
    pub open spec fn commit_outcome(self) -> Outcome {
        if self.commits() {
            Outcome::NewPalette(self.commit_palette())
        } else if self.pending is Some {
            Outcome::AwaitInput
        } else {
            Outcome::NoChange
        }
    }

    /// The state after a message that arrives at `now`.
    pub open spec fn after(self, message: AppMessage, now: u64) -> App {
        match message {
            AppMessage::Select(theme) => App { theme, custom: None, pending: None },
            AppMessage::ResetCustom => App { theme: self.theme, custom: None, pending: None },
            AppMessage::Tick => if self.due(now) {
                self.committed()
            } else {
                self
            },
            AppMessage::ApplyCustom => self.committed(),
            AppMessage::Action(text, usage, variant) => App {
                theme: self.theme,
                custom: self.custom,
                pending: Some(
                    PendingEdit {
                        role: Role { usage, variant },
                        raw_text: text,
                        last_edited_at: now,
                    },
                ),
            },
        }
    }

    /// What a message that arrives at `now` reports.
    pub open spec fn outcome(self, message: AppMessage, now: u64) -> Outcome {
        match message {
            AppMessage::Select(theme) => Outcome::NewPalette(theme.palette),
            AppMessage::ResetCustom => Outcome::NewPalette(self.theme.palette),
            AppMessage::Tick => if self.due(now) {
                self.commit_outcome()
            } else if self.pending is Some {
                Outcome::AwaitInput
            } else {
                Outcome::NoChange
            },
            AppMessage::ApplyCustom => self.commit_outcome(),
            AppMessage::Action(_, _, _) => Outcome::AwaitInput,
        }
    }

    /// What the field of `role` shows: the pending text while that role is
    /// being edited, and the notation of the colour in effect otherwise.
    pub open spec fn shown_text(self, role: Role) -> Seq<char> {
        field_text(self.pending, self.effective(), role)
    }

    /// The state after a series of messages, each with its time of arrival.
    pub open spec fn after_all(self, events: Seq<(AppMessage, u64)>) -> App
        decreases events.len(),
    {
        if events.len() == 0 {
            self
        } else {
            self.after_all(events.drop_last()).after(events.last().0, events.last().1)
        }
    }

    /// A fresh editor on a base theme: no custom palette, no pending edit.
    pub fn new(theme: BaseTheme) -> (app: App)
        ensures
            app == (App { theme, custom: None, pending: None }),
            app.effective() == theme.palette,
    {
        App { theme, custom: None, pending: None }
    }

    /// The palette in effect.
    pub fn effective_palette(&self) -> (palette: ExtendedPalette)
        ensures
            palette == self.effective(),
    {
        match self.custom {
            Some(palette) => palette,
            None => self.theme.palette,
        }
    }

    /// Whether a custom palette overrides the base theme.
    pub fn has_custom_palette(&self) -> (yes: bool)
        ensures
            yes == self.custom is Some,
    {
        self.custom.is_some()
    }

    /// The catalog number of the selected base theme.
    pub fn selected_base_theme_id(&self) -> (id: u32)
        ensures
            id == self.theme.id,
    {
        self.theme.id
    }

    /// The text to show in the field of `role`.
    pub fn effective_display_text(&self, role: Role) -> (text: String)
        ensures
            text@ == self.shown_text(role),
    {
        let palette = self.effective_palette();
        effective_display_text(&self.pending, &palette, role)
    }

    /// Tries to commit the pending edit.
    ///
    /// Where the pending text is a colour, the palette in effect, with the
    /// edited role overlaid by that colour and its contrasting foreground,
    /// becomes the custom palette and the edit is gone. Where it is not,
    /// the edit stays as it is, text included. Without an edit nothing
    /// happens.
    pub fn apply_custom(&mut self) -> (outcome: Outcome)
        ensures
            *final(self) == old(self).committed(),
            outcome == old(self).commit_outcome(),
            outcome is NewPalette <==> old(self).commits(),
            outcome matches Outcome::NewPalette(palette) ==> final(self).effective() == palette,
    {
        let (role, reading): (Role, Result<ColorValue, ParseError>) =
            match &self.pending {
            None => {
                return Outcome::NoChange;
            },
            Some(edit) => (edit.role, parse(edit.raw_text.as_str())),
        };
        match reading {
            Err(_) => Outcome::AwaitInput,
            Ok(color) => {
                let palette = overlay(self.effective_palette(), role, ColorPair::new(color));
                self.custom = Some(palette);
                self.pending = None;
                Outcome::NewPalette(palette)
            },
        }
    }

    /// Handles one message that arrives at `now`, a reading of a monotonic
    /// clock in milliseconds.
    ///
    /// Typing replaces whatever edit was pending and restarts its pause. A
    /// tick tries to commit once the pending edit has rested for
    /// `DEBOUNCE_MS`; submitting tries at once. Selecting a base theme and
    /// resetting both drop the custom palette and the pending edit.
    pub fn update(&mut self, message: AppMessage, now: u64) -> (outcome: Outcome)
        ensures
            *final(self) == old(self).after(message, now),
            outcome == old(self).outcome(message, now),
            outcome matches Outcome::NewPalette(palette) ==> final(self).effective() == palette,
            !(message is Select) ==> final(self).theme == old(self).theme,
    {
        match message {
            AppMessage::Select(theme) => {
                self.pending = None;
                self.custom = None;
                self.theme = theme;
                Outcome::NewPalette(theme.palette)
            },
            AppMessage::ResetCustom => {
                self.pending = None;
                self.custom = None;
                Outcome::NewPalette(self.theme.palette)
            },
            AppMessage::Tick => {
                let (waiting, due): (bool, bool) = match &self.pending {
                    Some(edit) => (
                        true,
                        now >= edit.last_edited_at && now - edit.last_edited_at >= DEBOUNCE_MS,
                    ),
                    None => (false, false),
                };
                if due {
                    self.apply_custom()
                } else if waiting {
                    Outcome::AwaitInput
                } else {
                    Outcome::NoChange
                }
            },
            AppMessage::ApplyCustom => self.apply_custom(),
            AppMessage::Action(input, usage, variant) => {
                self.pending = Some(
                    PendingEdit { role: Role { usage, variant }, raw_text: input, last_edited_at: now },
                );
                Outcome::AwaitInput
            },
        }
    }
}

/// Only selecting a theme changes the selected theme.
pub proof fn lemma_theme_is_kept(app: App, events: Seq<(AppMessage, u64)>)
    requires
        forall|i: int| 0 <= i < events.len() ==> !((#[trigger] events[i]).0 is Select),
    ensures
        app.after_all(events).theme == app.theme,
    decreases events.len(),
{
    if events.len() > 0 {
        let earlier = events.drop_last();
        assert forall|i: int| 0 <= i < earlier.len() implies !((#[trigger] earlier[i]).0
            is Select) by {
            assert(earlier[i] == events[i]);
        }
        lemma_theme_is_kept(app, earlier);
        assert(!(events.last().0 is Select));
    }
}

/// A reset puts exactly the palette of the selected base theme into effect,
/// whatever was typed, committed or dropped before, and leaves no custom
/// palette and no pending edit. Where no theme was selected on the way,
/// that theme is the one the editor started from.
pub proof fn lemma_reset_restores_base(app: App, events: Seq<(AppMessage, u64)>, now: u64)
    ensures
        ({
            let before = app.after_all(events);
            let reset = before.after(AppMessage::ResetCustom, now);
            &&& reset == (App { theme: before.theme, custom: None, pending: None })
            &&& reset.effective() == before.theme.palette
            &&& (forall|i: int| 0 <= i < events.len() ==> !((#[trigger] events[i]).0 is Select))
                ==> reset.effective() == app.theme.palette
        }),
{
    if forall|i: int| 0 <= i < events.len() ==> !((#[trigger] events[i]).0 is Select) {
        lemma_theme_is_kept(app, events);
    }
}

/// A tick leaves an edit alone until it has rested for `DEBOUNCE_MS`, and
/// the first tick from then on settles it: a text that is a colour is
/// committed over the palette that was in effect, any other text stays
/// pending as it is.
pub proof fn lemma_tick_debounces(
    app: App,
    text: String,
    usage: Usage,
    variant: Variant,
    typed_at: u64,
    now: u64,
)
    ensures
        ({
            let editing = app.after(AppMessage::Action(text, usage, variant), typed_at);
            let ticked = editing.after(AppMessage::Tick, now);
            &&& elapsed(now, typed_at) < DEBOUNCE_MS ==> ticked == editing
            &&& elapsed(now, typed_at) >= DEBOUNCE_MS && parsed(text@) is Err ==> ticked == editing
            &&& elapsed(now, typed_at) >= DEBOUNCE_MS && parsed(text@) is Ok ==> ticked == (App {
                theme: app.theme,
                custom: Some(
                    app.effective().overlaid(
                        Role { usage, variant },
                        ColorPair::of(parsed(text@)->Ok_0),
                    ),
                ),
                pending: None,
            })
        }),
{
}

/// Typing again abandons the edit that was pending: a submit then commits
/// the later text at the later role, and the earlier role, if it is another
/// one, keeps the pair it had.
pub proof fn lemma_later_edit_supersedes(
    app: App,
    first: (String, Role, u64),
    second: (String, Role, u64),
    now: u64,
)
    requires
        parsed(second.0@) is Ok,
    ensures
        ({
            let submitted = app.after(
                AppMessage::Action(first.0, first.1.usage, first.1.variant),
                first.2,
            ).after(AppMessage::Action(second.0, second.1.usage, second.1.variant), second.2).after(
                AppMessage::ApplyCustom,
                now,
            );
            &&& submitted.pending is None
            &&& submitted.effective() == app.effective().overlaid(
                second.1,
                ColorPair::of(parsed(second.0@)->Ok_0),
            )
            &&& first.1 != second.1 ==> submitted.effective().pair(first.1)
                == app.effective().pair(first.1)
        }),
{
    lemma_overlay_touches_one_role(
        app.effective(),
        second.1,
        ColorPair::of(parsed(second.0@)->Ok_0),
    );
}

} // verus!
