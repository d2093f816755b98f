//! The viewer's state and what each key does to it.

use vstd::prelude::*;
use vstd::string::*;
use vstd::utf8::{encode_utf8, valid_utf8};
use crate::buffer::{appended, numbers_kept, BufferModel, RetainedBuffer};
use crate::constants::MAX_LINES;
use crate::filter::{apply_filter, entries, filter_view};
use crate::keys::{is_control, is_control_char, Effect, KeyCode, KeyPress};
use crate::lines::{has_no_newline, texts};
use crate::live::{absorbed, poll_if_room, room_for, taken_lines, LiveModel, TailCursor};
use crate::selection::{in_bounds, Selection};
use crate::text::push_char;
use crate::theme::{AccentColor, BorderColor, Focus, StatusColor, TextColor, TextStyle};

verus! {

/// The number of rows in the settings panel: five choices and the way back.
pub const SETTINGS_LEN: usize = 6;

/// The number of lines that PageUp and PageDown move by.
pub const PAGE_STEP: u16 = 10;

/// The viewer's state, as mathematics.
pub struct AppState {
    pub running: bool,
    pub buffer: BufferModel,
    pub filter: Seq<char>,
    pub filter_cursor: int,
    pub focus: Focus,
    pub list: Selection,
    pub live: bool,
    pub path: Option<Seq<char>>,
    pub offset: int,
    pub partial: Seq<char>,
    pub show_settings: bool,
    pub settings: Selection,
    pub accent_color: AccentColor,
    pub text_color: TextColor,
    pub text_style: TextStyle,
    pub border_color: BorderColor,
    pub status_color: StatusColor,
}

impl AppState {
    /// The part of the state that live tailing works on.
    pub open spec fn live(self) -> LiveModel {
        LiveModel { buffer: self.buffer, offset: self.offset, partial: self.partial }
    }
}

/// The row of the settings panel that a key acts on: the selected one, or
/// the first where none is selected.
pub open spec fn settings_row(s: AppState) -> usize {
    match s.settings.selected {
        Some(i) => i,
        None => 0,
    }
}

/// The state after the choice in row `row` of the settings panel moved on
/// to the next choice, or back to the one before.
pub open spec fn cycled(s: AppState, row: usize, forward: bool) -> AppState {
    if row == 0 {
        AppState {
            accent_color: if forward {
                s.accent_color.next_choice()
            } else {
                s.accent_color.previous_choice()
            },
            ..s
        }
    } else if row == 1 {
        AppState {
            text_color: if forward {
                s.text_color.next_choice()
            } else {
                s.text_color.previous_choice()
            },
            ..s
        }
    } else if row == 2 {
        AppState {
            text_style: if forward {
                s.text_style.next_choice()
            } else {
                s.text_style.previous_choice()
            },
            ..s
        }
    } else if row == 3 {
        AppState {
            border_color: if forward {
                s.border_color.next_choice()
            } else {
                s.border_color.previous_choice()
            },
            ..s
        }
    } else if row == 4 {
        AppState {
            status_color: if forward {
                s.status_color.next_choice()
            } else {
                s.status_color.previous_choice()
            },
            ..s
        }
    } else {
        s
    }
}

/// What is to be done after the choice in row `row` changed: the five
/// choices are saved, the row that leads back is not.
pub open spec fn cycle_effect(row: usize) -> Effect {
    if row <= 4 {
        Effect::SaveSettings
    } else {
        Effect::Nothing
    }
}

/// What a key does while the settings panel is open.
///
/// Esc closes the panel. Enter closes it on the last row and moves the
/// choice of any other row on. Left and Right move the choice back and on.
/// Up and `k` go one row up and stop at the first; Down and `j` go one row
/// down and from the last to the first.
pub open spec fn key_settings(s: AppState, key: KeyPress) -> (AppState, Effect) {
    let row = settings_row(s);
    if key.code == KeyCode::Esc {
        (AppState { show_settings: false, ..s }, Effect::Nothing)
    } else if key.code == KeyCode::Enter {
        if row == 5 {
            (AppState { show_settings: false, ..s }, Effect::Nothing)
        } else {
            (cycled(s, row, true), cycle_effect(row))
        }
    } else if key.code == KeyCode::Up || key.is_char('k') {
        (AppState { settings: s.settings.previous(), ..s }, Effect::Nothing)
    } else if key.code == KeyCode::Down || key.is_char('j') {
        let moved = s.settings.next();
        (
            AppState {
                settings: if moved.selected->0 >= SETTINGS_LEN {
                    moved.at(Some(0usize))
                } else {
                    moved
                },
                ..s
            },
            Effect::Nothing,
        )
    } else if key.code == KeyCode::Left {
        (cycled(s, row, false), cycle_effect(row))
    } else if key.code == KeyCode::Right {
        (cycled(s, row, true), cycle_effect(row))
    } else {
        (s, Effect::Nothing)
    }
}

/// What a key does while the filter has the focus.
///
/// Esc empties the filter, and leaves the viewer where the filter is empty
/// already. Enter and Tab give the focus to the log. Backspace takes out the
/// character before the cursor. A character that is no control character is
/// put in at the cursor. Left and Right move the cursor within the filter.
pub open spec fn key_filter(s: AppState, key: KeyPress) -> AppState {
    match key.code {
        KeyCode::Esc => if s.filter.len() == 0 {
            AppState { running: false, ..s }
        } else {
            AppState { filter: Seq::empty(), filter_cursor: 0, ..s }
        },
        KeyCode::Enter | KeyCode::Tab => AppState { focus: Focus::LogList, ..s },
        KeyCode::Backspace => if s.filter_cursor > 0 {
            AppState {
                filter: s.filter.remove(s.filter_cursor - 1),
                filter_cursor: s.filter_cursor - 1,
                ..s
            }
        } else {
            s
        },
        KeyCode::Char(c) => if !is_control_char(c) {
            AppState {
                filter: s.filter.insert(s.filter_cursor, c),
                filter_cursor: s.filter_cursor + 1,
                ..s
            }
        } else {
            s
        },
        KeyCode::Left => AppState {
            filter_cursor: if s.filter_cursor > 0 {
                s.filter_cursor - 1
            } else {
                0
            },
            ..s
        },
        KeyCode::Right => AppState {
            filter_cursor: if s.filter_cursor + 1 <= s.filter.len() {
                s.filter_cursor + 1
            } else {
                s.filter.len() as int
            },
            ..s
        },
        _ => s,
    }
}

/// What a key does while the log has the focus.
///
/// `s` opens the settings panel on its first row. `/`, Control with `f`,
/// and Tab give the focus to the filter. `l` and `f` switch live mode on
/// and off where a file is shown. The arrows, `k` and `j`, PageUp and
/// PageDown, Home and `g`, End and `G` move the selection.
pub open spec fn key_log_list(s: AppState, key: KeyPress) -> AppState {
    if key.is_char('s') || key.is_char('S') {
        AppState { show_settings: true, settings: s.settings.at(Some(0usize)), ..s }
    } else if key.is_char('/') || (key.control && key.is_char('f')) || key.code == KeyCode::Tab {
        AppState { focus: Focus::Filter, ..s }
    } else if key.is_char('l') || key.is_char('L') || key.is_char('f') || key.is_char('F') {
        if s.path is Some {
            AppState { live: !s.live, ..s }
        } else {
            s
        }
    } else if key.code == KeyCode::Up || key.is_char('k') {
        AppState { list: s.list.previous(), ..s }
    } else if key.code == KeyCode::Down || key.is_char('j') {
        AppState { list: s.list.next(), ..s }
    } else if key.code == KeyCode::PageUp {
        AppState { list: s.list.up_by(PAGE_STEP), ..s }
    } else if key.code == KeyCode::PageDown {
        AppState { list: s.list.down_by(PAGE_STEP), ..s }
    } else if key.code == KeyCode::Home || key.is_char('g') {
        AppState { list: s.list.at(Some(0usize)), ..s }
    } else if key.code == KeyCode::End || key.is_char('G') {
        AppState { list: s.list.at(Some(usize::MAX)), ..s }
    } else {
        s
    }
}

/// The key leaves the viewer wherever the focus is, outside the settings
/// panel: `q`, Control with `c`, and Esc unless the filter has the focus.
pub open spec fn is_quit_key(s: AppState, key: KeyPress) -> bool {
    ||| key.is_char('q')
    ||| (key.control && (key.is_char('c') || key.is_char('C')))
    ||| (key.code == KeyCode::Esc && s.focus != Focus::Filter)
}

/// What a key does: the state after it, and what is to be done besides.
pub open spec fn key_event(s: AppState, key: KeyPress) -> (AppState, Effect) {
    if s.show_settings {
        key_settings(s, key)
    } else if is_quit_key(s, key) {
        (AppState { running: false, ..s }, Effect::Nothing)
    } else if s.focus == Focus::Filter {
        (key_filter(s, key), Effect::Nothing)
    } else {
        (key_log_list(s, key), Effect::Nothing)
    }
}

/// The text of an optional string.
pub open spec fn optional_text(s: Option<String>) -> Option<Seq<char>> {
    match s {
        Some(t) => Some(t@),
        None => None,
    }
}

/// The viewer: the kept lines, the filter, where live tailing stands, and
/// the choices of colour and style.
pub struct App {
    running: bool,
    buffer: RetainedBuffer,
    filter: Vec<char>,
    filter_cursor: usize,
    focus: Focus,
    list: Selection,
    live: bool,
    live_file_path: Option<String>,
    cursor: TailCursor,
    show_settings: bool,
    settings: Selection,
    accent_color: AccentColor,
    text_color: TextColor,
    text_style: TextStyle,
    border_color: BorderColor,
    status_color: StatusColor,
}

impl View for App {
    type V = AppState;

    closed spec fn view(&self) -> AppState {
        AppState {
            running: self.running,
            buffer: self.buffer@,
            filter: self.filter@,
            filter_cursor: self.filter_cursor as int,
            focus: self.focus,
            list: self.list,
            live: self.live,
            path: optional_text(self.live_file_path),
            offset: self.cursor.offset(),
            partial: self.cursor.partial(),
            show_settings: self.show_settings,
            settings: self.settings,
            accent_color: self.accent_color,
            text_color: self.text_color,
            text_style: self.text_style,
            border_color: self.border_color,
            status_color: self.status_color,
        }
    }
}

impl App {
    /// The viewer's invariant: the buffer holds at most `MAX_LINES` lines
    /// and its line numbers fit the machine's integers, the carried line
    /// holds no newline, and the filter's cursor lies within the filter.
    pub open spec fn wf(&self) -> bool {
        &&& self@.buffer.lines.len() <= MAX_LINES
        &&& 0 <= self@.buffer.base
        &&& self@.buffer.base + self@.buffer.lines.len() <= usize::MAX
        &&& 0 <= self@.offset <= u64::MAX
        &&& has_no_newline(encode_utf8(self@.partial))
        &&& 0 <= self@.filter_cursor <= self@.filter.len()
    }

    /// A viewer that shows `all_lines`, of which the first has the line
    /// number `file_line_start`, with the given file to follow from
    /// `live_file_offset` and the given choices of colour and style.
    ///
    /// Only the last `MAX_LINES` lines are kept. The first line is selected
    /// where there is one, the log has the focus, and live mode is off.
    pub fn new(
        all_lines: Vec<String>,
        live_file_path: Option<String>,
        live_file_offset: u64,
        file_line_start: usize,
        theme: (AccentColor, TextColor, TextStyle, BorderColor, StatusColor),
    ) -> (app: App)
        requires
            file_line_start + all_lines@.len() <= usize::MAX,
        ensures
            app.wf(),
            numbers_kept(
                BufferModel { lines: Seq::empty(), base: file_line_start as int },
                texts(all_lines@),
                app@.buffer,
            ),
            app@ == (AppState {
                running: true,
                buffer: appended(
                    BufferModel { lines: Seq::empty(), base: file_line_start as int },
                    texts(all_lines@),
                ),
                filter: Seq::empty(),
                filter_cursor: 0,
                focus: Focus::LogList,
                list: Selection {
                    selected: if all_lines@.len() == 0 {
                        None
                    } else {
                        Some(0usize)
                    },
                    offset: 0,
                },
                live: false,
                path: optional_text(live_file_path),
                offset: live_file_offset as int,
                partial: Seq::empty(),
                show_settings: false,
                settings: Selection { selected: Some(0usize), offset: 0 },
                accent_color: theme.0,
                text_color: theme.1,
                text_style: theme.2,
                border_color: theme.3,
                status_color: theme.4,
            }),
    {
        let buffer = RetainedBuffer::new(all_lines, file_line_start);
        let mut list = Selection::new();
        if !buffer.is_empty() {
            list.select(Some(0));
        }
        App {
            running: true,
            buffer,
            filter: Vec::new(),
            filter_cursor: 0,
            focus: Focus::LogList,
            list,
            live: false,
            live_file_path,
            cursor: TailCursor::new(live_file_offset),
            show_settings: false,
            settings: Selection::with_selected(Some(0)),
            accent_color: theme.0,
            text_color: theme.1,
            text_style: theme.2,
            border_color: theme.3,
            status_color: theme.4,
        }
    }

    /// Whether the viewer has not been left yet.
    pub fn is_running(&self) -> (running: bool)
        ensures
            running == self@.running,
    {
        self.running
    }

    /// Whether live mode is on.
    pub fn is_live(&self) -> (live: bool)
        ensures
            live == self@.live,
    {
        self.live
    }

    /// Whether the settings panel is open.
    pub fn shows_settings(&self) -> (open: bool)
        ensures
            open == self@.show_settings,
    {
        self.show_settings
    }

    /// The pane that has the focus.
    pub fn focus(&self) -> (focus: Focus)
        ensures
            focus == self@.focus,
    {
        self.focus
    }

    /// The kept lines and the line number of the first of them.
    pub fn buffer(&self) -> (buffer: &RetainedBuffer)
        ensures
            buffer@ == self@.buffer,
            self.wf() ==> buffer.wf(),
    {
        &self.buffer
    }

    /// Where live tailing stands in the file.
    pub fn cursor(&self) -> (cursor: &TailCursor)
        ensures
            cursor.offset() == self@.offset,
            cursor.partial() == self@.partial,
            self.wf() ==> cursor.wf(),
    {
        &self.cursor
    }

    /// The path of the file shown, if a file is shown.
    pub fn live_file_path(&self) -> (path: &Option<String>)
        ensures
            optional_text(*path) == self@.path,
    {
        &self.live_file_path
    }

    /// The position of the cursor in the filter, counted in characters.
    pub fn filter_cursor(&self) -> (at: usize)
        ensures
            at == self@.filter_cursor,
    {
        self.filter_cursor
    }

    /// The selection in the log.
    pub fn list(&self) -> (list: Selection)
        ensures
            list == self@.list,
    {
        self.list
    }

    /// Sets the selection in the log, as drawing the list left it.
    pub fn set_list(&mut self, list: Selection)
        ensures
            final(self)@ == (AppState { list: list, ..old(self)@ }),
            final(self).wf() == old(self).wf(),
    {
        self.list = list;
    }

    /// The selection in the settings panel.
    pub fn settings(&self) -> (settings: Selection)
        ensures
            settings == self@.settings,
    {
        self.settings
    }

    /// Sets the selection in the settings panel, as drawing the panel left
    /// it.
    pub fn set_settings(&mut self, settings: Selection)
        ensures
            final(self)@ == (AppState { settings: settings, ..old(self)@ }),
            final(self).wf() == old(self).wf(),
    {
        self.settings = settings;
    }

    /// The chosen colours and style.
    pub fn theme(&self) -> (theme: (AccentColor, TextColor, TextStyle, BorderColor, StatusColor))
        ensures
            theme == (
                self@.accent_color,
                self@.text_color,
                self@.text_style,
                self@.border_color,
                self@.status_color,
            ),
    {
        (self.accent_color, self.text_color, self.text_style, self.border_color, self.status_color)
    }

    /// The filter as text.
    pub fn filter_text(&self) -> (text: String)
        ensures
            text@ == self@.filter,
    {
        let mut text = String::new();
        let mut i: usize = 0;
        while i < self.filter.len()
            invariant
                i <= self.filter@.len(),
                text@ == self.filter@.take(i as int),
            decreases self.filter@.len() - i,
        {
            push_char(&mut text, self.filter[i]);
            i = i + 1;
        }
        text
    }

    /// The lines to show: the kept lines that pass the filter, at most
    /// `MAX_LINES` of them, each with its index among the kept lines.
    pub fn filtered_lines_with_indices(&self) -> (out: Vec<(usize, String)>)
        ensures
            entries(out@) == filter_view(self@.buffer.lines, self@.filter, MAX_LINES as int),
            out@.len() <= MAX_LINES,
    {
        let text = self.filter_text();
        apply_filter(self.buffer.lines().as_slice(), text.as_str(), MAX_LINES)
    }

    /// Brings the selection in the log into a list of `len` items.
    pub fn ensure_list_selection_in_bounds(&mut self, len: usize)
        ensures
            final(self)@ == (AppState {
                list: in_bounds(old(self)@.list, len),
                ..old(self)@
            }),
            final(self).wf() == old(self).wf(),
    {
        self.list.ensure_in_bounds(len);
    }

    /// Takes in the bytes that a poll read from the file at the cursor's
    /// offset, and selects the last line where anything was taken in.
    ///
    /// Returns whether anything was taken in; where not, nothing changed.
    /// Nothing is taken in of no bytes, of bytes that are not well-formed
    /// UTF-8, and where there is no room for the bytes.
    pub fn poll_live_file(&mut self, new_bytes: Vec<u8>) -> (taken: bool)
        requires
            old(self).wf(),
        ensures
            final(self).wf(),
            taken == (new_bytes@.len() > 0 && valid_utf8(new_bytes@) && room_for(
                old(self)@.live(),
                new_bytes@.len() as int,
            )),
            numbers_kept(
                old(self)@.buffer,
                if taken {
                    taken_lines(old(self)@.live(), new_bytes@)
                } else {
                    Seq::empty()
                },
                final(self)@.buffer,
            ),
            !taken ==> final(self)@ == old(self)@,
            taken ==> ({
                let now = absorbed(old(self)@.live(), new_bytes@);
                final(self)@ == (AppState {
                    buffer: now.buffer,
                    offset: now.offset,
                    partial: now.partial,
                    list: old(self)@.list.at(Some(usize::MAX)),
                    ..old(self)@
                })
            }),
    {
        let taken = poll_if_room(&mut self.buffer, &mut self.cursor, new_bytes);
        if taken {
            self.list.select_last();
        }
        taken
    }

    /// Moves the choice in row `row` of the settings panel on, or back.
    fn cycle(&mut self, row: usize, forward: bool)
        ensures
            final(self)@ == cycled(old(self)@, row, forward),
            final(self).wf() == old(self).wf(),
    {
        if row == 0 {
            self.accent_color = if forward {
                self.accent_color.next()
            } else {
                self.accent_color.previous()
            };
        } else if row == 1 {
            self.text_color = if forward {
                self.text_color.next()
            } else {
                self.text_color.previous()
            };
        } else if row == 2 {
            self.text_style = if forward {
                self.text_style.next()
            } else {
                self.text_style.previous()
            };
        } else if row == 3 {
            self.border_color = if forward {
                self.border_color.next()
            } else {
                self.border_color.previous()
            };
        } else if row == 4 {
            self.status_color = if forward {
                self.status_color.next()
            } else {
                self.status_color.previous()
            };
        }
    }

    /// Handles a key while the settings panel is open.
    fn on_key_settings(&mut self, key: KeyPress) -> (effect: Effect)
        ensures
            (final(self)@, effect) == key_settings(old(self)@, key),
            final(self).wf() == old(self).wf(),
    {
        let row: usize = match self.settings.selected {
            Some(i) => i,
            None => 0,
        };
        let changed = if row <= 4 {
            Effect::SaveSettings
        } else {
            Effect::Nothing
        };
        match key.code {
            KeyCode::Esc => {
                self.show_settings = false;
                Effect::Nothing
            },
            KeyCode::Enter => {
                if row == 5 {
                    self.show_settings = false;
                    Effect::Nothing
                } else {
                    self.cycle(row, true);
                    changed
                }
            },
            KeyCode::Left => {
                self.cycle(row, false);
                changed
            },
            KeyCode::Right => {
                self.cycle(row, true);
                changed
            },
            _ => {
                if matches!(key.code, KeyCode::Up) || key.has_char('k') {
                    self.settings.select_previous();
                } else if matches!(key.code, KeyCode::Down) || key.has_char('j') {
                    self.settings.select_next();
                    let at: usize = match self.settings.selected {
                        Some(i) => i,
                        None => 0,
                    };
                    if at >= SETTINGS_LEN {
                        self.settings.select(Some(0));
                    }
                }
                Effect::Nothing
            },
        }
    }

    /// Handles a key while the filter has the focus.
    fn on_key_filter(&mut self, key: KeyPress)
        requires
            old(self).wf(),
        ensures
            final(self)@ == key_filter(old(self)@, key),
            final(self).wf(),
    {
        match key.code {
            KeyCode::Esc => {
                if self.filter.len() == 0 {
                    self.running = false;
                } else {
                    self.filter.clear();
                    self.filter_cursor = 0;
                }
            },
            KeyCode::Enter | KeyCode::Tab => {
                self.focus = Focus::LogList;
            },
            KeyCode::Backspace => {
                if self.filter_cursor > 0 {
                    self.filter_cursor = self.filter_cursor - 1;
                    self.filter.remove(self.filter_cursor);
                }
            },
            KeyCode::Char(c) => {
                if !is_control(c) {
                    self.filter.insert(self.filter_cursor, c);
                    assert(self.filter_cursor < self.filter.len());
                    self.filter_cursor = self.filter_cursor + 1;
                }
            },
            KeyCode::Left => {
                self.filter_cursor = self.filter_cursor.saturating_sub(1);
            },
            KeyCode::Right => {
                if self.filter_cursor < self.filter.len() {
                    self.filter_cursor = self.filter_cursor + 1;
                } else {
                    self.filter_cursor = self.filter.len();
                }
            },
            _ => {},
        }
    }

    /// Handles a key while the log has the focus.
    fn on_key_log_list(&mut self, key: KeyPress)
        ensures
            final(self)@ == key_log_list(old(self)@, key),
            final(self).wf() == old(self).wf(),
    {
        if key.has_char('s') || key.has_char('S') {
            self.show_settings = true;
            self.settings.select(Some(0));
        } else if key.has_char('/') || (key.control && key.has_char('f')) || matches!(
            key.code,
            KeyCode::Tab
        ) {
            self.focus = Focus::Filter;
        } else if key.has_char('l') || key.has_char('L') || key.has_char('f') || key.has_char('F') {
            if self.live_file_path.is_some() {
                self.live = !self.live;
            }
        } else if matches!(key.code, KeyCode::Up) || key.has_char('k') {
            self.list.select_previous();
        } else if matches!(key.code, KeyCode::Down) || key.has_char('j') {
            self.list.select_next();
        } else if matches!(key.code, KeyCode::PageUp) {
            self.list.scroll_up_by(PAGE_STEP);
        } else if matches!(key.code, KeyCode::PageDown) {
            self.list.scroll_down_by(PAGE_STEP);
        } else if matches!(key.code, KeyCode::Home) || key.has_char('g') {
            self.list.select_first();
        } else if matches!(key.code, KeyCode::End) || key.has_char('G') {
            self.list.select_last();
        }
    }

    /// Handles a key: changes the state as `key_event` says and returns what
    /// is to be done besides.
    pub fn on_key_event(&mut self, key: KeyPress) -> (effect: Effect)
        requires
            old(self).wf(),
        ensures
            final(self).wf(),
            (final(self)@, effect) == key_event(old(self)@, key),
    {
        if self.show_settings {
            return self.on_key_settings(key);
        }
        let quit = key.has_char('q') || (key.control && (key.has_char('c') || key.has_char('C')))
            || (matches!(key.code, KeyCode::Esc) && !matches!(self.focus, Focus::Filter));
        if quit {
            self.running = false;
        } else if matches!(self.focus, Focus::Filter) {
            self.on_key_filter(key);
        } else {
            self.on_key_log_list(key);
        }
        Effect::Nothing
    }
}

} // verus!
