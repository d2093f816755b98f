//! The look of the viewer: which pane has the focus, and the colours and
//! text style that a user can choose.

use vstd::prelude::*;
use crate::text::{ascii_lower, eq_ignore_ascii_case, same_ignoring_ascii_case};

verus! {

/// The pane that takes the keys.
#[derive(Debug, Clone, Copy, PartialEq, Eq, Structural)]
pub enum Focus {
    Filter,
    LogList,
}

/// The colour of the focused pane and of the highlighted line.
#[derive(Debug, Clone, Copy, PartialEq, Eq, Structural)]
pub enum AccentColor {
    Cyan,
    Green,
    Yellow,
    Magenta,
    Blue,
}

impl Default for AccentColor {
    fn default() -> (d: Self)
        ensures
            d == AccentColor::Cyan,
    {
        AccentColor::Cyan
    }
}

impl AccentColor {
    /// The choice after this one, the first after the last.
    pub open spec fn next_choice(self) -> AccentColor {
        Self::choices()[(self.position() + 1) % 5]
    }

    /// The choice before this one, the last before the first.
    pub open spec fn previous_choice(self) -> AccentColor {
        Self::choices()[(self.position() + 5 - 1) % 5]
    }

    /// The name shown to the user and written to the settings file.
    pub open spec fn name_text(self) -> Seq<char> {
        match self {
            AccentColor::Cyan => "Cyan"@,
            AccentColor::Green => "Green"@,
            AccentColor::Yellow => "Yellow"@,
            AccentColor::Magenta => "Magenta"@,
            AccentColor::Blue => "Blue"@,
        }
    }

    /// All the choices, in the order in which they are cycled through.
    pub open spec fn choices() -> Seq<AccentColor> {
        seq![
            AccentColor::Cyan,
            AccentColor::Green,
            AccentColor::Yellow,
            AccentColor::Magenta,
            AccentColor::Blue,
        ]
    }

    /// The place of this choice in `choices`.
    pub open spec fn position(self) -> int {
        match self {
            AccentColor::Cyan => 0,
            AccentColor::Green => 1,
            AccentColor::Yellow => 2,
            AccentColor::Magenta => 3,
            AccentColor::Blue => 4,
        }
    }

    /// The choice that `name` stands for: the first one whose name equals
    /// it but for the case of ASCII letters, the default where there is
    /// none.
    pub open spec fn named(name: Seq<char>) -> AccentColor {
        Self::named_from(name, 0)
    }

    /// `named`, looking only at the choices from place `from` on.
    pub open spec fn named_from(name: Seq<char>, from: int) -> AccentColor
        decreases 5 - from,
    {
        if from < 0 || from >= 5 {
            AccentColor::Cyan
        } else if same_ignoring_ascii_case(Self::choices()[from].name_text(), name) {
            Self::choices()[from]
        } else {
            Self::named_from(name, from + 1)
        }
    }

    /// The name shown to the user and written to the settings file.
    pub fn name(self) -> (name: &'static str)
        ensures
            name@ == self.name_text(),
    {
        match self {
            AccentColor::Cyan => "Cyan",
            AccentColor::Green => "Green",
            AccentColor::Yellow => "Yellow",
            AccentColor::Magenta => "Magenta",
            AccentColor::Blue => "Blue",
        }
    }

    /// All the choices, in the order in which they are cycled through.
    pub fn all() -> (all: &'static [AccentColor])
        ensures
            all@ == Self::choices(),
    {
        let all: &'static [AccentColor] = &[
            AccentColor::Cyan,
            AccentColor::Green,
            AccentColor::Yellow,
            AccentColor::Magenta,
            AccentColor::Blue,
        ];
        all
    }

    /// The choice after this one, the first after the last.
    pub fn next(self) -> (next: AccentColor)
        ensures
            next == self.next_choice(),
    {
        match self {
            AccentColor::Cyan => AccentColor::Green,
            AccentColor::Green => AccentColor::Yellow,
            AccentColor::Yellow => AccentColor::Magenta,
            AccentColor::Magenta => AccentColor::Blue,
            AccentColor::Blue => AccentColor::Cyan,
        }
    }

    /// The choice before this one, the last before the first.
    pub fn previous(self) -> (previous: AccentColor)
        ensures
            previous == self.previous_choice(),
    {
        match self {
            AccentColor::Cyan => AccentColor::Blue,
            AccentColor::Green => AccentColor::Cyan,
            AccentColor::Yellow => AccentColor::Green,
            AccentColor::Magenta => AccentColor::Yellow,
            AccentColor::Blue => AccentColor::Magenta,
        }
    }

    /// The choice that `name` stands for, the default where it stands for
    /// none.
    pub fn from_name(name: &str) -> (choice: AccentColor)
        ensures
            choice == Self::named(name@),
    {
        let all = Self::all();
        let mut i: usize = 0;
        while i < all.len()
            invariant
                i <= all@.len() == 5,
                all@ == Self::choices(),
                Self::named(name@) == Self::named_from(name@, i as int),
            decreases all@.len() - i,
        {
            if eq_ignore_ascii_case(all[i].name(), name) {
                return all[i];
            }
            i = i + 1;
        }
        AccentColor::default()
    }
}

/// The colour of log lines.
#[derive(Debug, Clone, Copy, PartialEq, Eq, Structural)]
pub enum TextColor {
    White,
    Gray,
    Cyan,
    Green,
    Yellow,
}

impl Default for TextColor {
    fn default() -> (d: Self)
        ensures
            d == TextColor::White,
    {
        TextColor::White
    }
}

impl TextColor {
    /// The choice after this one, the first after the last.
    pub open spec fn next_choice(self) -> TextColor {
        Self::choices()[(self.position() + 1) % 5]
    }

    /// The choice before this one, the last before the first.
    pub open spec fn previous_choice(self) -> TextColor {
        Self::choices()[(self.position() + 5 - 1) % 5]
    }

    /// The name shown to the user and written to the settings file.
    pub open spec fn name_text(self) -> Seq<char> {
        match self {
            TextColor::White => "White"@,
            TextColor::Gray => "Gray"@,
            TextColor::Cyan => "Cyan"@,
            TextColor::Green => "Green"@,
            TextColor::Yellow => "Yellow"@,
        }
    }

    /// All the choices, in the order in which they are cycled through.
    pub open spec fn choices() -> Seq<TextColor> {
        seq![
            TextColor::White,
            TextColor::Gray,
            TextColor::Cyan,
            TextColor::Green,
            TextColor::Yellow,
        ]
    }

    /// The place of this choice in `choices`.
    pub open spec fn position(self) -> int {
        match self {
            TextColor::White => 0,
            TextColor::Gray => 1,
            TextColor::Cyan => 2,
            TextColor::Green => 3,
            TextColor::Yellow => 4,
        }
    }

    /// The choice that `name` stands for: the first one whose name equals
    /// it but for the case of ASCII letters, the default where there is
    /// none.
    pub open spec fn named(name: Seq<char>) -> TextColor {
        Self::named_from(name, 0)
    }

    /// `named`, looking only at the choices from place `from` on.
    pub open spec fn named_from(name: Seq<char>, from: int) -> TextColor
        decreases 5 - from,
    {
        if from < 0 || from >= 5 {
            TextColor::White
        } else if same_ignoring_ascii_case(Self::choices()[from].name_text(), name) {
            Self::choices()[from]
        } else {
            Self::named_from(name, from + 1)
        }
    }

    /// The name shown to the user and written to the settings file.
    pub fn name(self) -> (name: &'static str)
        ensures
            name@ == self.name_text(),
    {
        match self {
            TextColor::White => "White",
            TextColor::Gray => "Gray",
            TextColor::Cyan => "Cyan",
            TextColor::Green => "Green",
            TextColor::Yellow => "Yellow",
        }
    }

    /// All the choices, in the order in which they are cycled through.
    pub fn all() -> (all: &'static [TextColor])
        ensures
            all@ == Self::choices(),
    {
        let all: &'static [TextColor] = &[
            TextColor::White,
            TextColor::Gray,
            TextColor::Cyan,
            TextColor::Green,
            TextColor::Yellow,
        ];
        all
    }

    /// The choice after this one, the first after the last.
    pub fn next(self) -> (next: TextColor)
        ensures
            next == self.next_choice(),
    {
        match self {
            TextColor::White => TextColor::Gray,
            TextColor::Gray => TextColor::Cyan,
            TextColor::Cyan => TextColor::Green,
            TextColor::Green => TextColor::Yellow,
            TextColor::Yellow => TextColor::White,
        }
    }

    /// The choice before this one, the last before the first.
    pub fn previous(self) -> (previous: TextColor)
        ensures
            previous == self.previous_choice(),
    {
        match self {
            TextColor::White => TextColor::Yellow,
            TextColor::Gray => TextColor::White,
            TextColor::Cyan => TextColor::Gray,
            TextColor::Green => TextColor::Cyan,
            TextColor::Yellow => TextColor::Green,
        }
    }

    /// The choice that `name` stands for, the default where it stands for
    /// none.
    pub fn from_name(name: &str) -> (choice: TextColor)
        ensures
            choice == Self::named(name@),
    {
        let all = Self::all();
        let mut i: usize = 0;
        while i < all.len()
            invariant
                i <= all@.len() == 5,
                all@ == Self::choices(),
                Self::named(name@) == Self::named_from(name@, i as int),
            decreases all@.len() - i,
        {
            if eq_ignore_ascii_case(all[i].name(), name) {
                return all[i];
            }
            i = i + 1;
        }
        TextColor::default()
    }
}

/// The weight of log lines.
#[derive(Debug, Clone, Copy, PartialEq, Eq, Structural)]
pub enum TextStyle {
    Normal,
    Bold,
    Dim,
}

impl Default for TextStyle {
    fn default() -> (d: Self)
        ensures
            d == TextStyle::Normal,
    {
        TextStyle::Normal
    }
}

impl TextStyle {
    /// The choice after this one, the first after the last.
    pub open spec fn next_choice(self) -> TextStyle {
        Self::choices()[(self.position() + 1) % 3]
    }

    /// The choice before this one, the last before the first.
    pub open spec fn previous_choice(self) -> TextStyle {
        Self::choices()[(self.position() + 3 - 1) % 3]
    }

    /// The name shown to the user and written to the settings file.
    pub open spec fn name_text(self) -> Seq<char> {
        match self {
            TextStyle::Normal => "Normal"@,
            TextStyle::Bold => "Bold"@,
            TextStyle::Dim => "Dim"@,
        }
    }

    /// All the choices, in the order in which they are cycled through.
    pub open spec fn choices() -> Seq<TextStyle> {
        seq![TextStyle::Normal, TextStyle::Bold, TextStyle::Dim]
    }

    /// The place of this choice in `choices`.
    pub open spec fn position(self) -> int {
        match self {
            TextStyle::Normal => 0,
            TextStyle::Bold => 1,
            TextStyle::Dim => 2,
        }
    }

    /// The choice that `name` stands for: the first one whose name equals
    /// it but for the case of ASCII letters, the default where there is
    /// none.
    pub open spec fn named(name: Seq<char>) -> TextStyle {
        Self::named_from(name, 0)
    }

    /// `named`, looking only at the choices from place `from` on.
    pub open spec fn named_from(name: Seq<char>, from: int) -> TextStyle
        decreases 3 - from,
    {
        if from < 0 || from >= 3 {
            TextStyle::Normal
        } else if same_ignoring_ascii_case(Self::choices()[from].name_text(), name) {
            Self::choices()[from]
        } else {
            Self::named_from(name, from + 1)
        }
    }

    /// The name shown to the user and written to the settings file.
    pub fn name(self) -> (name: &'static str)
        ensures
            name@ == self.name_text(),
    {
        match self {
            TextStyle::Normal => "Normal",
            TextStyle::Bold => "Bold",
            TextStyle::Dim => "Dim",
        }
    }

    /// All the choices, in the order in which they are cycled through.
    pub fn all() -> (all: &'static [TextStyle])
        ensures
            all@ == Self::choices(),
    {
        let all: &'static [TextStyle] = &[TextStyle::Normal, TextStyle::Bold, TextStyle::Dim];
        all
    }

    /// The choice after this one, the first after the last.
    pub fn next(self) -> (next: TextStyle)
        ensures
            next == self.next_choice(),
    {
        match self {
            TextStyle::Normal => TextStyle::Bold,
            TextStyle::Bold => TextStyle::Dim,
            TextStyle::Dim => TextStyle::Normal,
        }
    }

    /// The choice before this one, the last before the first.
    pub fn previous(self) -> (previous: TextStyle)
        ensures
            previous == self.previous_choice(),
    {
        match self {
            TextStyle::Normal => TextStyle::Dim,
            TextStyle::Bold => TextStyle::Normal,
            TextStyle::Dim => TextStyle::Bold,
        }
    }

    /// The choice that `name` stands for, the default where it stands for
    /// none.
    pub fn from_name(name: &str) -> (choice: TextStyle)
        ensures
            choice == Self::named(name@),
    {
        let all = Self::all();
        let mut i: usize = 0;
        while i < all.len()
            invariant
                i <= all@.len() == 3,
                all@ == Self::choices(),
                Self::named(name@) == Self::named_from(name@, i as int),
            decreases all@.len() - i,
        {
            if eq_ignore_ascii_case(all[i].name(), name) {
                return all[i];
            }
            i = i + 1;
        }
        TextStyle::default()
    }
}

/// The colour of pane borders.
#[derive(Debug, Clone, Copy, PartialEq, Eq, Structural)]
pub enum BorderColor {
    White,
    Gray,
    DarkGray,
}

impl Default for BorderColor {
    fn default() -> (d: Self)
        ensures
            d == BorderColor::Gray,
    {
        BorderColor::Gray
    }
}

impl BorderColor {
    /// The choice after this one, the first after the last.
    pub open spec fn next_choice(self) -> BorderColor {
        Self::choices()[(self.position() + 1) % 3]
    }

    /// The choice before this one, the last before the first.
    pub open spec fn previous_choice(self) -> BorderColor {
        Self::choices()[(self.position() + 3 - 1) % 3]
    }

    /// The name shown to the user and written to the settings file.
    pub open spec fn name_text(self) -> Seq<char> {
        match self {
            BorderColor::White => "White"@,
            BorderColor::Gray => "Gray"@,
            BorderColor::DarkGray => "Dark"@,
        }
    }

    /// All the choices, in the order in which they are cycled through.
    pub open spec fn choices() -> Seq<BorderColor> {
        seq![BorderColor::White, BorderColor::Gray, BorderColor::DarkGray]
    }

    /// The place of this choice in `choices`.
    pub open spec fn position(self) -> int {
        match self {
            BorderColor::White => 0,
            BorderColor::Gray => 1,
            BorderColor::DarkGray => 2,
        }
    }

    /// The choice that `name` stands for: the first one whose name equals
    /// it but for the case of ASCII letters, the default where there is
    /// none.
    pub open spec fn named(name: Seq<char>) -> BorderColor {
        Self::named_from(name, 0)
    }

    /// `named`, looking only at the choices from place `from` on.
    pub open spec fn named_from(name: Seq<char>, from: int) -> BorderColor
        decreases 3 - from,
    {
        if from < 0 || from >= 3 {
            BorderColor::Gray
        } else if same_ignoring_ascii_case(Self::choices()[from].name_text(), name) {
            Self::choices()[from]
        } else {
            Self::named_from(name, from + 1)
        }
    }

    /// The name shown to the user and written to the settings file.
    pub fn name(self) -> (name: &'static str)
        ensures
            name@ == self.name_text(),
    {
        match self {
            BorderColor::White => "White",
            BorderColor::Gray => "Gray",
            BorderColor::DarkGray => "Dark",
        }
    }

    /// All the choices, in the order in which they are cycled through.
    pub fn all() -> (all: &'static [BorderColor])
        ensures
            all@ == Self::choices(),
    {
        let all: &'static [BorderColor] = &[
            BorderColor::White,
            BorderColor::Gray,
            BorderColor::DarkGray,
        ];
        all
    }

    /// The choice after this one, the first after the last.
    pub fn next(self) -> (next: BorderColor)
        ensures
            next == self.next_choice(),
    {
        match self {
            BorderColor::White => BorderColor::Gray,
            BorderColor::Gray => BorderColor::DarkGray,
            BorderColor::DarkGray => BorderColor::White,
        }
    }

    /// The choice before this one, the last before the first.
    pub fn previous(self) -> (previous: BorderColor)
        ensures
            previous == self.previous_choice(),
    {
        match self {
            BorderColor::White => BorderColor::DarkGray,
            BorderColor::Gray => BorderColor::White,
            BorderColor::DarkGray => BorderColor::Gray,
        }
    }

    /// The choice that `name` stands for, the default where it stands for
    /// none.
    pub fn from_name(name: &str) -> (choice: BorderColor)
        ensures
            choice == Self::named(name@),
    {
        let all = Self::all();
        let mut i: usize = 0;
        while i < all.len()
            invariant
                i <= all@.len() == 3,
                all@ == Self::choices(),
                Self::named(name@) == Self::named_from(name@, i as int),
            decreases all@.len() - i,
        {
            if eq_ignore_ascii_case(all[i].name(), name) {
                return all[i];
            }
            i = i + 1;
        }
        BorderColor::default()
    }
}

/// The colour of the status bar.
#[derive(Debug, Clone, Copy, PartialEq, Eq, Structural)]
pub enum StatusColor {
    Gray,
    DarkGray,
    White,
}

impl Default for StatusColor {
    fn default() -> (d: Self)
        ensures
            d == StatusColor::Gray,
    {
        StatusColor::Gray
    }
}

impl StatusColor {
    /// The choice after this one, the first after the last.
    pub open spec fn next_choice(self) -> StatusColor {
        Self::choices()[(self.position() + 1) % 3]
    }

    /// The choice before this one, the last before the first.
    pub open spec fn previous_choice(self) -> StatusColor {
        Self::choices()[(self.position() + 3 - 1) % 3]
    }

    /// The name shown to the user and written to the settings file.
    pub open spec fn name_text(self) -> Seq<char> {
        match self {
            StatusColor::Gray => "Gray"@,
            StatusColor::DarkGray => "Dark"@,
            StatusColor::White => "White"@,
        }
    }

    /// All the choices, in the order in which they are cycled through.
    pub open spec fn choices() -> Seq<StatusColor> {
        seq![StatusColor::Gray, StatusColor::DarkGray, StatusColor::White]
    }

    /// The place of this choice in `choices`.
    pub open spec fn position(self) -> int {
        match self {
            StatusColor::Gray => 0,
            StatusColor::DarkGray => 1,
            StatusColor::White => 2,
        }
    }

    /// The choice that `name` stands for: the first one whose name equals
    /// it but for the case of ASCII letters, the default where there is
    /// none.
    pub open spec fn named(name: Seq<char>) -> StatusColor {
        Self::named_from(name, 0)
    }

    /// `named`, looking only at the choices from place `from` on.
    pub open spec fn named_from(name: Seq<char>, from: int) -> StatusColor
        decreases 3 - from,
    {
        if from < 0 || from >= 3 {
            StatusColor::Gray
        } else if same_ignoring_ascii_case(Self::choices()[from].name_text(), name) {
            Self::choices()[from]
        } else {
            Self::named_from(name, from + 1)
        }
    }

    /// The name shown to the user and written to the settings file.
    pub fn name(self) -> (name: &'static str)
        ensures
            name@ == self.name_text(),
    {
        match self {
            StatusColor::Gray => "Gray",
            StatusColor::DarkGray => "Dark",
            StatusColor::White => "White",
        }
    }

    /// All the choices, in the order in which they are cycled through.
    pub fn all() -> (all: &'static [StatusColor])
        ensures
            all@ == Self::choices(),
    {
        let all: &'static [StatusColor] = &[
            StatusColor::Gray,
            StatusColor::DarkGray,
            StatusColor::White,
        ];
        all
    }

    /// The choice after this one, the first after the last.
    pub fn next(self) -> (next: StatusColor)
        ensures
            next == self.next_choice(),
    {
        match self {
            StatusColor::Gray => StatusColor::DarkGray,
            StatusColor::DarkGray => StatusColor::White,
            StatusColor::White => StatusColor::Gray,
        }
    }

    /// The choice before this one, the last before the first.
    pub fn previous(self) -> (previous: StatusColor)
        ensures
            previous == self.previous_choice(),
    {
        match self {
            StatusColor::Gray => StatusColor::White,
            StatusColor::DarkGray => StatusColor::Gray,
            StatusColor::White => StatusColor::DarkGray,
        }
    }

    /// The choice that `name` stands for, the default where it stands for
    /// none.
    pub fn from_name(name: &str) -> (choice: StatusColor)
        ensures
            choice == Self::named(name@),
    {
        let all = Self::all();
        let mut i: usize = 0;
        while i < all.len()
            invariant
                i <= all@.len() == 3,
                all@ == Self::choices(),
                Self::named(name@) == Self::named_from(name@, i as int),
            decreases all@.len() - i,
        {
            if eq_ignore_ascii_case(all[i].name(), name) {
                return all[i];
            }
            i = i + 1;
        }
        StatusColor::default()
    }
}

impl AccentColor {
    /// A choice is read back from its own name.
    pub proof fn lemma_named_by_own_name(self)
        ensures
            Self::named(self.name_text()) == self,
    {
        reveal_strlit("Cyan");
        reveal_strlit("Green");
        reveal_strlit("Yellow");
        reveal_strlit("Magenta");
        reveal_strlit("Blue");
        assert(ascii_lower("Cyan"@[0]) != ascii_lower("Blue"@[0]));
        reveal_with_fuel(AccentColor::named_from, 6);
    }
}

impl TextColor {
    /// A choice is read back from its own name.
    pub proof fn lemma_named_by_own_name(self)
        ensures
            Self::named(self.name_text()) == self,
    {
        reveal_strlit("White");
        reveal_strlit("Gray");
        reveal_strlit("Cyan");
        reveal_strlit("Green");
        reveal_strlit("Yellow");
        assert(ascii_lower("Gray"@[0]) != ascii_lower("Cyan"@[0]));
        assert(ascii_lower("White"@[0]) != ascii_lower("Green"@[0]));
        reveal_with_fuel(TextColor::named_from, 6);
    }
}

impl TextStyle {
    /// A choice is read back from its own name.
    pub proof fn lemma_named_by_own_name(self)
        ensures
            Self::named(self.name_text()) == self,
    {
        reveal_strlit("Normal");
        reveal_strlit("Bold");
        reveal_strlit("Dim");
        reveal_with_fuel(TextStyle::named_from, 4);
    }
}

impl BorderColor {
    /// A choice is read back from its own name.
    pub proof fn lemma_named_by_own_name(self)
        ensures
            Self::named(self.name_text()) == self,
    {
        reveal_strlit("White");
        reveal_strlit("Gray");
        reveal_strlit("Dark");
        assert(ascii_lower("Gray"@[0]) != ascii_lower("Dark"@[0]));
        reveal_with_fuel(BorderColor::named_from, 4);
    }
}

impl StatusColor {
    /// A choice is read back from its own name.
    pub proof fn lemma_named_by_own_name(self)
        ensures
            Self::named(self.name_text()) == self,
    {
        reveal_strlit("Gray");
        reveal_strlit("Dark");
        reveal_strlit("White");
        assert(ascii_lower("Gray"@[0]) != ascii_lower("Dark"@[0]));
        reveal_with_fuel(StatusColor::named_from, 4);
    }
}

} // verus!
