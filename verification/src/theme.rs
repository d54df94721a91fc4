//! Built-in color themes: static style tables the rendering layer reads.
//! Colors are plain values here; the rendering side maps them onto the
//! terminal's own color type.
//!
//! Sixteen theme names are registered, but this crate defines only two
//! of the tables: `telemetry`, which `load` serves by name, and
//! `fluorite`, which is not registered and is reached only by calling
//! its function directly. The remaining fourteen tables — the
//! registry's tokyo-night default among them — are not defined here, so
//! `load` reports their names unknown and `Default` falls back to the
//! telemetry table.

use vstd::prelude::*;
use vstd::string::StrSliceExecFns;

verus! {

/// A terminal color: a true-color value, or the terminal's default.
#[derive(Debug, Clone, Copy, PartialEq, Eq, Structural)]
pub enum Color {
    Reset,
    Rgb(u8, u8, u8),
}

/// Why a theme could not be produced.
#[derive(Debug, Clone, Copy, PartialEq, Eq, Structural)]
pub enum ThemeError {
    UnknownTheme,
}

/// The style table of one theme.
#[derive(Debug, Clone, Copy, PartialEq, Eq, Structural)]
pub struct Theme {
    // Background colors
    pub background_left: Color,
    pub background_right: Color,
    // Editor colors
    pub editor_line_number: Color,
    pub editor_line_number_cursor: Color,
    pub editor_separator: Color,
    pub editor_cursor_char_bg: Color,
    pub editor_cursor_char_fg: Color,
    pub editor_cursor_line_bg: Color,
    // File tree colors
    pub file_tree_added: Color,
    pub file_tree_deleted: Color,
    pub file_tree_modified: Color,
    pub file_tree_renamed: Color,
    pub file_tree_directory: Color,
    pub file_tree_current_file_bg: Color,
    pub file_tree_current_file_fg: Color,
    pub file_tree_default: Color,
    pub file_tree_stats_added: Color,
    pub file_tree_stats_deleted: Color,
    // Terminal colors
    pub terminal_command: Color,
    pub terminal_output: Color,
    pub terminal_cursor_bg: Color,
    pub terminal_cursor_fg: Color,
    // Status bar colors
    pub status_hash: Color,
    pub status_author: Color,
    pub status_date: Color,
    pub status_message: Color,
    pub status_no_commit: Color,
    // Separator colors
    pub separator: Color,
    // Syntax highlighting colors
    pub syntax_keyword: Color,
    pub syntax_type: Color,
    pub syntax_function: Color,
    pub syntax_variable: Color,
    pub syntax_string: Color,
    pub syntax_number: Color,
    pub syntax_comment: Color,
    pub syntax_operator: Color,
    pub syntax_punctuation: Color,
    pub syntax_constant: Color,
    pub syntax_parameter: Color,
    pub syntax_property: Color,
    pub syntax_label: Color,
}

/// The soft dark purple-and-pink table, as a value specifications
/// speak of.
pub open spec fn spec_fluorite() -> Theme {
    Theme {
        background_left: Color::Rgb(18, 12, 23),
        background_right: Color::Rgb(22, 17, 27),
        editor_line_number: Color::Rgb(42, 28, 54),
        editor_line_number_cursor: Color::Rgb(65, 43, 84),
        editor_separator: Color::Rgb(42, 28, 54),
        editor_cursor_char_bg: Color::Rgb(163, 109, 207),
        editor_cursor_char_fg: Color::Rgb(22, 17, 27),
        editor_cursor_line_bg: Color::Rgb(25, 17, 31),
        file_tree_added: Color::Rgb(129, 184, 139),
        file_tree_deleted: Color::Rgb(91, 60, 117),
        file_tree_modified: Color::Rgb(136, 92, 173),
        file_tree_renamed: Color::Rgb(139, 203, 255),
        file_tree_directory: Color::Rgb(136, 92, 173),
        file_tree_current_file_bg: Color::Rgb(25, 17, 31),
        file_tree_current_file_fg: Color::Rgb(136, 92, 173),
        file_tree_default: Color::Rgb(91, 60, 117),
        file_tree_stats_added: Color::Rgb(129, 184, 139),
        file_tree_stats_deleted: Color::Rgb(91, 60, 117),
        terminal_command: Color::Rgb(136, 92, 173),
        terminal_output: Color::Rgb(110, 155, 188),
        terminal_cursor_bg: Color::Rgb(163, 109, 207),
        terminal_cursor_fg: Color::Rgb(22, 17, 27),
        status_hash: Color::Rgb(173, 133, 245),
        status_author: Color::Rgb(139, 203, 255),
        status_date: Color::Rgb(209, 123, 159),
        status_message: Color::Rgb(110, 155, 188),
        status_no_commit: Color::Rgb(65, 43, 84),
        separator: Color::Rgb(42, 28, 54),
        syntax_keyword: Color::Rgb(222, 127, 236),
        syntax_type: Color::Rgb(173, 133, 245),
        syntax_function: Color::Rgb(139, 203, 255),
        syntax_variable: Color::Rgb(215, 215, 215),
        syntax_string: Color::Rgb(139, 215, 137),
        syntax_number: Color::Rgb(209, 123, 159),
        syntax_comment: Color::Rgb(91, 60, 117),
        syntax_operator: Color::Rgb(110, 155, 188),
        syntax_punctuation: Color::Rgb(110, 155, 188),
        syntax_constant: Color::Rgb(209, 123, 159),
        syntax_parameter: Color::Rgb(173, 133, 245),
        syntax_property: Color::Rgb(139, 215, 137),
        syntax_label: Color::Rgb(222, 127, 236),
    }
}

/// The dark teal-and-amber table, as a value specifications speak
/// of.
pub open spec fn spec_telemetry() -> Theme {
    Theme {
        background_left: Color::Rgb(15, 27, 29),
        background_right: Color::Rgb(22, 34, 36),
        editor_line_number: Color::Rgb(107, 141, 148),
        editor_line_number_cursor: Color::Rgb(244, 174, 89),
        editor_separator: Color::Rgb(107, 141, 148),
        editor_cursor_char_bg: Color::Rgb(244, 174, 89),
        editor_cursor_char_fg: Color::Rgb(15, 27, 29),
        editor_cursor_line_bg: Color::Rgb(29, 46, 49),
        file_tree_added: Color::Rgb(141, 172, 139),
        file_tree_deleted: Color::Rgb(194, 113, 102),
        file_tree_modified: Color::Rgb(244, 174, 89),
        file_tree_renamed: Color::Rgb(147, 191, 194),
        file_tree_directory: Color::Rgb(194, 113, 102),
        file_tree_current_file_bg: Color::Rgb(29, 46, 49),
        file_tree_current_file_fg: Color::Rgb(154, 191, 190),
        file_tree_default: Color::Rgb(154, 191, 190),
        file_tree_stats_added: Color::Rgb(141, 172, 139),
        file_tree_stats_deleted: Color::Rgb(194, 113, 102),
        terminal_command: Color::Rgb(154, 191, 190),
        terminal_output: Color::Rgb(107, 141, 148),
        terminal_cursor_bg: Color::Rgb(244, 174, 89),
        terminal_cursor_fg: Color::Rgb(15, 27, 29),
        status_hash: Color::Rgb(244, 174, 89),
        status_author: Color::Rgb(141, 172, 139),
        status_date: Color::Rgb(147, 191, 194),
        status_message: Color::Rgb(154, 191, 190),
        status_no_commit: Color::Rgb(107, 141, 148),
        separator: Color::Rgb(107, 141, 148),
        syntax_keyword: Color::Rgb(194, 113, 102),
        syntax_type: Color::Rgb(212, 154, 79),
        syntax_function: Color::Rgb(212, 154, 79),
        syntax_variable: Color::Rgb(154, 191, 190),
        syntax_string: Color::Rgb(141, 172, 139),
        syntax_number: Color::Rgb(196, 132, 122),
        syntax_comment: Color::Rgb(107, 141, 148),
        syntax_operator: Color::Rgb(143, 181, 179),
        syntax_punctuation: Color::Rgb(122, 154, 153),
        syntax_constant: Color::Rgb(196, 132, 122),
        syntax_parameter: Color::Rgb(122, 154, 153),
        syntax_property: Color::Rgb(154, 191, 190),
        syntax_label: Color::Rgb(194, 113, 102),
    }
}

/// Elegant dark theme with purple and pink tones, inspired by the
/// mineral fluorite.
pub fn fluorite() -> (t: Theme)
    ensures
        t == spec_fluorite(),
{
    Theme {
        background_left: Color::Rgb(18, 12, 23),
        background_right: Color::Rgb(22, 17, 27),
        editor_line_number: Color::Rgb(42, 28, 54),
        editor_line_number_cursor: Color::Rgb(65, 43, 84),
        editor_separator: Color::Rgb(42, 28, 54),
        editor_cursor_char_bg: Color::Rgb(163, 109, 207),
        editor_cursor_char_fg: Color::Rgb(22, 17, 27),
        editor_cursor_line_bg: Color::Rgb(25, 17, 31),
        file_tree_added: Color::Rgb(129, 184, 139),
        file_tree_deleted: Color::Rgb(91, 60, 117),
        file_tree_modified: Color::Rgb(136, 92, 173),
        file_tree_renamed: Color::Rgb(139, 203, 255),
        file_tree_directory: Color::Rgb(136, 92, 173),
        file_tree_current_file_bg: Color::Rgb(25, 17, 31),
        file_tree_current_file_fg: Color::Rgb(136, 92, 173),
        file_tree_default: Color::Rgb(91, 60, 117),
        file_tree_stats_added: Color::Rgb(129, 184, 139),
        file_tree_stats_deleted: Color::Rgb(91, 60, 117),
        terminal_command: Color::Rgb(136, 92, 173),
        terminal_output: Color::Rgb(110, 155, 188),
        terminal_cursor_bg: Color::Rgb(163, 109, 207),
        terminal_cursor_fg: Color::Rgb(22, 17, 27),
        status_hash: Color::Rgb(173, 133, 245),
        status_author: Color::Rgb(139, 203, 255),
        status_date: Color::Rgb(209, 123, 159),
        status_message: Color::Rgb(110, 155, 188),
        status_no_commit: Color::Rgb(65, 43, 84),
        separator: Color::Rgb(42, 28, 54),
        syntax_keyword: Color::Rgb(222, 127, 236),
        syntax_type: Color::Rgb(173, 133, 245),
        syntax_function: Color::Rgb(139, 203, 255),
        syntax_variable: Color::Rgb(215, 215, 215),
        syntax_string: Color::Rgb(139, 215, 137),
        syntax_number: Color::Rgb(209, 123, 159),
        syntax_comment: Color::Rgb(91, 60, 117),
        syntax_operator: Color::Rgb(110, 155, 188),
        syntax_punctuation: Color::Rgb(110, 155, 188),
        syntax_constant: Color::Rgb(209, 123, 159),
        syntax_parameter: Color::Rgb(173, 133, 245),
        syntax_property: Color::Rgb(139, 215, 137),
        syntax_label: Color::Rgb(222, 127, 236),
    }
}

/// Dark theme on a cold signals palette.
pub fn telemetry() -> (t: Theme)
    ensures
        t == spec_telemetry(),
{
    Theme {
        background_left: Color::Rgb(15, 27, 29),
        background_right: Color::Rgb(22, 34, 36),
        editor_line_number: Color::Rgb(107, 141, 148),
        editor_line_number_cursor: Color::Rgb(244, 174, 89),
        editor_separator: Color::Rgb(107, 141, 148),
        editor_cursor_char_bg: Color::Rgb(244, 174, 89),
        editor_cursor_char_fg: Color::Rgb(15, 27, 29),
        editor_cursor_line_bg: Color::Rgb(29, 46, 49),
        file_tree_added: Color::Rgb(141, 172, 139),
        file_tree_deleted: Color::Rgb(194, 113, 102),
        file_tree_modified: Color::Rgb(244, 174, 89),
        file_tree_renamed: Color::Rgb(147, 191, 194),
        file_tree_directory: Color::Rgb(194, 113, 102),
        file_tree_current_file_bg: Color::Rgb(29, 46, 49),
        file_tree_current_file_fg: Color::Rgb(154, 191, 190),
        file_tree_default: Color::Rgb(154, 191, 190),
        file_tree_stats_added: Color::Rgb(141, 172, 139),
        file_tree_stats_deleted: Color::Rgb(194, 113, 102),
        terminal_command: Color::Rgb(154, 191, 190),
        terminal_output: Color::Rgb(107, 141, 148),
        terminal_cursor_bg: Color::Rgb(244, 174, 89),
        terminal_cursor_fg: Color::Rgb(15, 27, 29),
        status_hash: Color::Rgb(244, 174, 89),
        status_author: Color::Rgb(141, 172, 139),
        status_date: Color::Rgb(147, 191, 194),
        status_message: Color::Rgb(154, 191, 190),
        status_no_commit: Color::Rgb(107, 141, 148),
        separator: Color::Rgb(107, 141, 148),
        syntax_keyword: Color::Rgb(194, 113, 102),
        syntax_type: Color::Rgb(212, 154, 79),
        syntax_function: Color::Rgb(212, 154, 79),
        syntax_variable: Color::Rgb(154, 191, 190),
        syntax_string: Color::Rgb(141, 172, 139),
        syntax_number: Color::Rgb(196, 132, 122),
        syntax_comment: Color::Rgb(107, 141, 148),
        syntax_operator: Color::Rgb(143, 181, 179),
        syntax_punctuation: Color::Rgb(122, 154, 153),
        syntax_constant: Color::Rgb(196, 132, 122),
        syntax_parameter: Color::Rgb(122, 154, 153),
        syntax_property: Color::Rgb(154, 191, 190),
        syntax_label: Color::Rgb(194, 113, 102),
    }
}

/// Whether two pieces of text hold the same characters.
fn str_eq(a: &str, b: &str) -> (r: bool)
    ensures
        r == (a@ == b@),
{
    let al = a.unicode_len();
    let bl = b.unicode_len();
    if al != bl {
        return false;
    }
    let mut k: usize = 0;
    while k < al
        invariant
            0 <= k <= al,
            al == a@.len(),
            al == b@.len(),
            forall|kk: int| 0 <= kk < k ==> a@[kk] == b@[kk],
        decreases al - k,
    {
        if a.get_char(k) != b.get_char(k) {
            return false;
        }
        k = k + 1;
    }
    proof {
        assert(a@ =~= b@);
    }
    true
}

impl Theme {
    /// Looks a built-in theme up by its registered name.
    ///
    /// Sixteen names are registered (see `available_themes`), but of
    /// their tables only `telemetry`'s is defined in this crate, so
    /// every other name is reported unknown. The `fluorite` table is
    /// defined too, yet deliberately not registered: asking for it by
    /// name fails like any unknown name, and callers reach it only
    /// through the `fluorite` function itself.
    pub fn load(name: &str) -> (r: Result<Theme, ThemeError>)
        ensures
            name@ == "telemetry"@ ==> r == Ok::<Theme, ThemeError>(spec_telemetry()),
            name@ != "telemetry"@ ==> r == Err::<Theme, ThemeError>(ThemeError::UnknownTheme),
    {
        if str_eq(name, "telemetry") {
            Ok(telemetry())
        } else {
            Err(ThemeError::UnknownTheme)
        }
    }

    /// Drops the two background colors so the terminal's own background
    /// shows through; every other color is kept.
    pub fn with_transparent_background(self) -> (r: Theme)
        ensures
            r == (Theme {
                background_left: Color::Reset,
                background_right: Color::Reset,
                ..self
            }),
    {
        Theme { background_left: Color::Reset, background_right: Color::Reset, ..self }
    }

    /// The sixteen registered theme names, in the order shown to the
    /// user. The list is the registry; whether a name can actually be
    /// served depends on its table being defined in this crate, which
    /// holds only `telemetry`'s — `load` reports the others unknown.
    pub fn available_themes() -> (r: Vec<&'static str>)
        ensures
            r@.len() == 16,
            r@[0]@ == "ayu-dark"@,
            r@[1]@ == "catppuccin"@,
            r@[2]@ == "dracula"@,
            r@[3]@ == "everforest"@,
            r@[4]@ == "github-dark"@,
            r@[5]@ == "gruvbox"@,
            r@[6]@ == "material"@,
            r@[7]@ == "monokai"@,
            r@[8]@ == "night-owl"@,
            r@[9]@ == "nord"@,
            r@[10]@ == "one-dark"@,
            r@[11]@ == "rose-pine"@,
            r@[12]@ == "solarized-dark"@,
            r@[13]@ == "solarized-light"@,
            r@[14]@ == "telemetry"@,
            r@[15]@ == "tokyo-night"@,
    {
        let mut v: Vec<&'static str> = Vec::new();
        v.push("ayu-dark");
        v.push("catppuccin");
        v.push("dracula");
        v.push("everforest");
        v.push("github-dark");
        v.push("gruvbox");
        v.push("material");
        v.push("monokai");
        v.push("night-owl");
        v.push("nord");
        v.push("one-dark");
        v.push("rose-pine");
        v.push("solarized-dark");
        v.push("solarized-light");
        v.push("telemetry");
        v.push("tokyo-night");
        v
    }
}

impl Default for Theme {
    /// The theme shown when none was asked for. The registry's own
    /// default is the tokyo-night table, which is not defined in this
    /// crate; the one registered table that is, telemetry's, stands in
    /// for it.
    fn default() -> (t: Theme)
        ensures
            t == spec_telemetry(),
    {
        telemetry()
    }
}

} // verus!
