use ratlog::settings::{default_settings, load_settings, save_settings, SavedSettings};
use ratlog::theme::{AccentColor, BorderColor, StatusColor, TextColor, TextStyle};

fn saved(a: &str, t: &str, s: &str, b: &str, st: &str) -> SavedSettings {
    SavedSettings {
        accent: a.to_string(),
        text_color: t.to_string(),
        text_style: s.to_string(),
        border_color: b.to_string(),
        status_color: st.to_string(),
    }
}

#[test]
fn settings_default_where_nothing_was_saved() {
    let expected = (
        AccentColor::Cyan,
        TextColor::White,
        TextStyle::Normal,
        BorderColor::Gray,
        StatusColor::Gray,
    );
    assert_eq!(default_settings(), expected);
    assert_eq!(load_settings(None), expected);
}

#[test]
fn settings_are_read_by_name() {
    let theme = load_settings(Some(saved("green", "Yellow", "DIM", "Dark", "white")));
    assert_eq!(
        theme,
        (
            AccentColor::Green,
            TextColor::Yellow,
            TextStyle::Dim,
            BorderColor::DarkGray,
            StatusColor::White
        )
    );
}

#[test]
fn unknown_names_give_the_defaults() {
    let theme = load_settings(Some(saved("Pink", "", "Heavy", "Grey", "none")));
    assert_eq!(theme, default_settings());
    let theme = load_settings(Some(saved("Blue", "?", "Bold", "?", "Dark")));
    assert_eq!(
        theme,
        (
            AccentColor::Blue,
            TextColor::White,
            TextStyle::Bold,
            BorderColor::Gray,
            StatusColor::DarkGray
        )
    );
}

#[test]
fn settings_are_saved_by_name() {
    let s = save_settings(
        AccentColor::Magenta,
        TextColor::Gray,
        TextStyle::Bold,
        BorderColor::DarkGray,
        StatusColor::White,
    );
    assert_eq!(s.accent, "Magenta");
    assert_eq!(s.text_color, "Gray");
    assert_eq!(s.text_style, "Bold");
    assert_eq!(s.border_color, "Dark");
    assert_eq!(s.status_color, "White");
}

#[test]
fn saved_settings_are_read_back() {
    for a in AccentColor::all() {
        for t in TextColor::all() {
            for s in TextStyle::all() {
                for b in BorderColor::all() {
                    for st in StatusColor::all() {
                        let written = save_settings(*a, *t, *s, *b, *st);
                        assert_eq!(load_settings(Some(written)), (*a, *t, *s, *b, *st));
                    }
                }
            }
        }
    }
}

#[test]
fn test_saved_settings_roundtrip() {
    let saved = SavedSettings {
        accent: "Cyan".to_string(),
        text_color: "White".to_string(),
        text_style: "Normal".to_string(),
        border_color: "Gray".to_string(),
        status_color: "Gray".to_string(),
    };
    let mut fields = serde_json::Map::new();
    fields.insert("accent".to_string(), serde_json::Value::String(saved.accent.clone()));
    fields.insert("text_color".to_string(), serde_json::Value::String(saved.text_color.clone()));
    fields.insert("text_style".to_string(), serde_json::Value::String(saved.text_style.clone()));
    fields.insert(
        "border_color".to_string(),
        serde_json::Value::String(saved.border_color.clone()),
    );
    fields.insert(
        "status_color".to_string(),
        serde_json::Value::String(saved.status_color.clone()),
    );
    let s = serde_json::to_string_pretty(&serde_json::Value::Object(fields)).unwrap();
    let parsed: serde_json::Value = serde_json::from_str(&s).unwrap();
    let field = |name: &str| parsed[name].as_str().unwrap().to_string();
    let loaded = SavedSettings {
        accent: field("accent"),
        text_color: field("text_color"),
        text_style: field("text_style"),
        border_color: field("border_color"),
        status_color: field("status_color"),
    };
    assert_eq!(loaded.accent, saved.accent);
    assert_eq!(loaded.text_color, saved.text_color);
    assert_eq!(loaded.text_style, saved.text_style);
    assert_eq!(loaded.border_color, saved.border_color);
    assert_eq!(loaded.status_color, saved.status_color);
}
