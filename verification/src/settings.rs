//! The choices of colour and style as they are saved between runs.

use vstd::prelude::*;
use vstd::string::*;
use crate::theme::{AccentColor, BorderColor, StatusColor, TextColor, TextStyle};

verus! {

/// The saved choices, each by its name.
pub struct SavedSettings {
    pub accent: String,
    pub text_color: String,
    pub text_style: String,
    pub border_color: String,
    pub status_color: String,
}

/// The choices that the viewer starts with when none were saved.
pub fn default_settings() -> (theme: (AccentColor, TextColor, TextStyle, BorderColor, StatusColor))
    ensures
        theme == (
            AccentColor::Cyan,
            TextColor::White,
            TextStyle::Normal,
            BorderColor::Gray,
            StatusColor::Gray,
        ),
{
    (
        AccentColor::default(),
        TextColor::default(),
        TextStyle::default(),
        BorderColor::default(),
        StatusColor::default(),
    )
}

/// The choices to start with, given what was read from the settings file:
/// the defaults where nothing could be read, else each choice by its saved
/// name, the default for a name that stands for none.
pub fn load_settings(saved: Option<SavedSettings>) -> (theme: (
    AccentColor,
    TextColor,
    TextStyle,
    BorderColor,
    StatusColor,
))
    ensures
        saved is None ==> theme == (
            AccentColor::Cyan,
            TextColor::White,
            TextStyle::Normal,
            BorderColor::Gray,
            StatusColor::Gray,
        ),
        saved matches Some(s) ==> theme == (
            AccentColor::named(s.accent@),
            TextColor::named(s.text_color@),
            TextStyle::named(s.text_style@),
            BorderColor::named(s.border_color@),
            StatusColor::named(s.status_color@),
        ),
{
    match saved {
        None => default_settings(),
        Some(s) => (
            AccentColor::from_name(s.accent.as_str()),
            TextColor::from_name(s.text_color.as_str()),
            TextStyle::from_name(s.text_style.as_str()),
            BorderColor::from_name(s.border_color.as_str()),
            StatusColor::from_name(s.status_color.as_str()),
        ),
    }
}

/// What is written to the settings file for the given choices: the name of
/// each.
pub fn save_settings(
    accent: AccentColor,
    text_color: TextColor,
    text_style: TextStyle,
    border_color: BorderColor,
    status_color: StatusColor,
) -> (saved: SavedSettings)
    ensures
        saved.accent@ == accent.name_text(),
        saved.text_color@ == text_color.name_text(),
        saved.text_style@ == text_style.name_text(),
        saved.border_color@ == border_color.name_text(),
        saved.status_color@ == status_color.name_text(),
{
    SavedSettings {
        accent: String::from_str(accent.name()),
        text_color: String::from_str(text_color.name()),
        text_style: String::from_str(text_style.name()),
        border_color: String::from_str(border_color.name()),
        status_color: String::from_str(status_color.name()),
    }
}

/// Saved choices are read back as they were.
pub proof fn lemma_settings_round_trip(
    theme: (AccentColor, TextColor, TextStyle, BorderColor, StatusColor),
)
    ensures
        theme == (
            AccentColor::named(theme.0.name_text()),
            TextColor::named(theme.1.name_text()),
            TextStyle::named(theme.2.name_text()),
            BorderColor::named(theme.3.name_text()),
            StatusColor::named(theme.4.name_text()),
        ),
{
    theme.0.lemma_named_by_own_name();
    theme.1.lemma_named_by_own_name();
    theme.2.lemma_named_by_own_name();
    theme.3.lemma_named_by_own_name();
    theme.4.lemma_named_by_own_name();
}

} // verus!
