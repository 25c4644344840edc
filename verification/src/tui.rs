//! The navigation state machine: the current color, the active panel, the
//! edit buffer, the cursors and the status line, with one transition per
//! keystroke. The terminal itself — raw mode, painting, the event loop —
//! lives outside; this module only says what each key does to the state.

use vstd::prelude::*;
use vstd::string::StrSliceExecFns;
use vstd::string::StringExecFns;

use crate::clipboard::ClipboardError;
use crate::clipboard::clip_err_text;
use crate::clipboard::copy_to_clipboard;
use crate::color::CasColor;
use crate::color::ColorFormat;
use crate::color::format_label;
use crate::color::format_value;
use crate::color::format_value_spec;
use crate::color::hsl_color;
use crate::color::hue_fp;
use crate::config::Config;
use crate::config::ThemeMode;
use crate::parse::parse_color_input;
use crate::parse::spec_parse_color;
use crate::parse::trim_spec;
use crate::text::dec_str;
use crate::text::frac2_str;
use crate::text::push_char;
use crate::text::push_frac2;
use crate::text::push_u32;

verus! {

/// Whether keystrokes drive navigation or fill the edit buffer.
#[derive(Debug, Clone, Copy, PartialEq, Eq, Structural)]
pub enum InputMode {
    Normal,
    Editing,
}

/// The three panels the interface is made of; exactly one is active.
#[derive(Debug, Clone, Copy, PartialEq, Eq, Structural)]
pub enum ActivePanel {
    Palette,
    Gradient,
    FormatList,
}

/// A keystroke, reduced to what the state machine reads: the key itself and
/// whether Control was held.
#[derive(Debug, Clone, Copy, PartialEq, Eq, Structural)]
pub enum Key {
    Char(char),
    Enter,
    Esc,
    Backspace,
    Tab,
    Left,
    Right,
    Up,
    Down,
    Other,
}

/// What can go wrong around the terminal session.
#[derive(Debug, Clone)]
pub enum TuiError {
    IoError(String),
    TerminalError(String),
    AppError(String),
}

/// The panel after one press of the cycle key: Palette, Gradient,
/// FormatList, and around again.
pub open spec fn next_panel(p: ActivePanel) -> ActivePanel {
    match p {
        ActivePanel::Palette => ActivePanel::Gradient,
        ActivePanel::Gradient => ActivePanel::FormatList,
        ActivePanel::FormatList => ActivePanel::Palette,
    }
}

/// The theme after one toggle: Dark and Light swap; anything else collapses
/// to Dark.
pub open spec fn toggled_theme(t: ThemeMode) -> ThemeMode {
    match t {
        ThemeMode::Dark => ThemeMode::Light,
        ThemeMode::Light => ThemeMode::Dark,
        _ => ThemeMode::Dark,
    }
}

/// The displayable format at each list position, in display order.
pub open spec fn format_at(i: int) -> ColorFormat {
    if i == 0 {
        ColorFormat::Hex
    } else if i == 1 {
        ColorFormat::Rgb
    } else if i == 2 {
        ColorFormat::Hsl
    } else if i == 3 {
        ColorFormat::Hsv
    } else {
        ColorFormat::Cmyk
    }
}

/// Each panel's display name.
pub open spec fn panel_name(p: ActivePanel) -> Seq<char> {
    match p {
        ActivePanel::Palette => "Palette"@,
        ActivePanel::Gradient => "Gradient"@,
        ActivePanel::FormatList => "FormatList"@,
    }
}

/// Each theme's display name.
pub open spec fn theme_name(t: ThemeMode) -> Seq<char> {
    match t {
        ThemeMode::Dark => "Dark"@,
        ThemeMode::Light => "Light"@,
        ThemeMode::System => "System"@,
        ThemeMode::Auto => "Auto"@,
    }
}

/// The color a palette cell shows: hue walks the rows (12 degrees each),
/// lightness walks the columns from 0.2 to 0.74, saturation is fixed at
/// 0.8.
pub open spec fn palette_color(col: int, row: int) -> CasColor {
    hsl_color(row * 12000, 8160, 2040 + col * 612)
}

/// The color the gradient cursor picks: the current color's hue with the
/// cursor's saturation and inverted lightness.
pub open spec fn gradient_color(base: CasColor, gx: int, gy: int) -> CasColor {
    hsl_color(hue_fp(base.r as int, base.g as int, base.b as int), gx, 10200 - gy)
}

/// The interactive picker state: the one mutable aggregate of the library.
pub struct TuiApp {
    pub config: Config,
    pub current_color: CasColor,
    pub input_mode: InputMode,
    pub input_text: String,
    pub status_message: String,
    pub should_quit: bool,
    pub active_panel: ActivePanel,
    pub palette_col: usize,
    pub palette_row: usize,
    pub gradient_x: u32,
    pub gradient_y: u32,
    pub format_index: usize,
}

impl TuiApp {
    /// Well-formedness: every cursor stays on its surface and the status
    /// line is never empty.
    pub open spec fn wf(self) -> bool {
        &&& self.palette_col <= 9
        &&& self.palette_row <= 29
        &&& self.gradient_x <= 10200
        &&& self.gradient_y <= 10200
        &&& self.format_index <= 4
        &&& self.status_message@.len() > 0
    }
}

/// All fields equal but the status line.
pub open spec fn same_but_status(pre: TuiApp, post: TuiApp) -> bool {
    &&& post.config == pre.config
    &&& post.current_color == pre.current_color
    &&& post.input_mode == pre.input_mode
    &&& post.input_text@ == pre.input_text@
    &&& post.should_quit == pre.should_quit
    &&& post.active_panel == pre.active_panel
    &&& post.palette_col == pre.palette_col
    &&& post.palette_row == pre.palette_row
    &&& post.gradient_x == pre.gradient_x
    &&& post.gradient_y == pre.gradient_y
    &&& post.format_index == pre.format_index
}

/// All fields equal but the status line, the current color and the two
/// cursors of the panel being navigated.
pub open spec fn same_but_cursor(pre: TuiApp, post: TuiApp) -> bool {
    &&& post.config == pre.config
    &&& post.input_mode == pre.input_mode
    &&& post.input_text@ == pre.input_text@
    &&& post.should_quit == pre.should_quit
    &&& post.active_panel == pre.active_panel
    &&& post.format_index == pre.format_index
}

/// Quit: only the quit flag rises; even the status line stays.
pub open spec fn quit_step(pre: TuiApp, post: TuiApp) -> bool {
    &&& post.config == pre.config
    &&& post.current_color == pre.current_color
    &&& post.input_mode == pre.input_mode
    &&& post.input_text@ == pre.input_text@
    &&& post.should_quit
    &&& post.active_panel == pre.active_panel
    &&& post.palette_col == pre.palette_col
    &&& post.palette_row == pre.palette_row
    &&& post.gradient_x == pre.gradient_x
    &&& post.gradient_y == pre.gradient_y
    &&& post.format_index == pre.format_index
    &&& post.status_message@ == pre.status_message@
}

/// Panel cycle: the next panel becomes active and the status names it.
pub open spec fn tab_step(pre: TuiApp, post: TuiApp) -> bool {
    &&& post.config == pre.config
    &&& post.current_color == pre.current_color
    &&& post.input_mode == pre.input_mode
    &&& post.input_text@ == pre.input_text@
    &&& post.should_quit == pre.should_quit
    &&& post.active_panel == next_panel(pre.active_panel)
    &&& post.palette_col == pre.palette_col
    &&& post.palette_row == pre.palette_row
    &&& post.gradient_x == pre.gradient_x
    &&& post.gradient_y == pre.gradient_y
    &&& post.format_index == pre.format_index
    &&& post.status_message@ == "Switched to: "@ + panel_name(next_panel(pre.active_panel))
        + " panel"@
}

/// Entering edit mode: the buffer is cleared and the status shows the help
/// text.
pub open spec fn enter_edit_step(pre: TuiApp, post: TuiApp) -> bool {
    &&& post.config == pre.config
    &&& post.current_color == pre.current_color
    &&& post.input_mode == InputMode::Editing
    &&& post.input_text@ == Seq::<char>::empty()
    &&& post.should_quit == pre.should_quit
    &&& post.active_panel == pre.active_panel
    &&& post.palette_col == pre.palette_col
    &&& post.palette_row == pre.palette_row
    &&& post.gradient_x == pre.gradient_x
    &&& post.gradient_y == pre.gradient_y
    &&& post.format_index == pre.format_index
    &&& post.status_message@ == "Enter color (HEX, RGB, HSL, etc.) | Enter: apply | Esc: cancel"@
}

/// Theme toggle: only the theme field of the configuration and the status
/// line move.
pub open spec fn theme_step(pre: TuiApp, post: TuiApp) -> bool {
    &&& post.config.general.theme == toggled_theme(pre.config.general.theme)
    &&& post.config.general.history_size == pre.config.general.history_size
    &&& post.config.updates == pre.config.updates
    &&& post.config.ui == pre.config.ui
    &&& post.config.color_history == pre.config.color_history
    &&& post.current_color == pre.current_color
    &&& post.input_mode == pre.input_mode
    &&& post.input_text@ == pre.input_text@
    &&& post.should_quit == pre.should_quit
    &&& post.active_panel == pre.active_panel
    &&& post.palette_col == pre.palette_col
    &&& post.palette_row == pre.palette_row
    &&& post.gradient_x == pre.gradient_x
    &&& post.gradient_y == pre.gradient_y
    &&& post.format_index == pre.format_index
    &&& post.status_message@ == "Theme: "@ + theme_name(toggled_theme(pre.config.general.theme))
}

/// A copy request: the state is untouched but for the status line, which
/// either quotes the copied text or reports the clipboard failure.
pub open spec fn copy_step(pre: TuiApp, f: ColorFormat, post: TuiApp) -> bool {
    &&& same_but_status(pre, post)
    &&& {
        ||| post.status_message@ == "Copied "@ + format_label(f) + " to clipboard: "@
            + format_value_spec(f, pre.current_color)
        ||| exists|e: ClipboardError|
            (e is InitFailed || e is CopyFailed) && post.status_message@ == "Copy failed: "@
                + clip_err_text(e)
    }
}

/// A landed palette move: the cursor, the derived color and the status.
pub open spec fn palette_moved(pre: TuiApp, col: int, row: int, post: TuiApp) -> bool {
    &&& same_but_cursor(pre, post)
    &&& post.gradient_x == pre.gradient_x
    &&& post.gradient_y == pre.gradient_y
    &&& post.palette_col == col
    &&& post.palette_row == row
    &&& post.current_color == palette_color(col, row)
    &&& post.status_message@ == "Palette: col="@ + dec_str(col as nat) + " row="@ + dec_str(
        row as nat,
    )
}

/// A gradient move: the cursor, the derived color (hue preserved) and the
/// status.
pub open spec fn gradient_moved(pre: TuiApp, gx: int, gy: int, post: TuiApp) -> bool {
    &&& same_but_cursor(pre, post)
    &&& post.palette_col == pre.palette_col
    &&& post.palette_row == pre.palette_row
    &&& post.gradient_x == gx
    &&& post.gradient_y == gy
    &&& post.current_color == gradient_color(pre.current_color, gx, gy)
    &&& post.status_message@ == "Gradient: sat="@ + frac2_str(gx) + " light="@ + frac2_str(
        10200 - gy,
    )
}

/// A format-list move: only the selection index changes.
pub open spec fn format_moved(pre: TuiApp, i: int, post: TuiApp) -> bool {
    &&& post.config == pre.config
    &&& post.current_color == pre.current_color
    &&& post.input_mode == pre.input_mode
    &&& post.input_text@ == pre.input_text@
    &&& post.should_quit == pre.should_quit
    &&& post.active_panel == pre.active_panel
    &&& post.palette_col == pre.palette_col
    &&& post.palette_row == pre.palette_row
    &&& post.gradient_x == pre.gradient_x
    &&& post.gradient_y == pre.gradient_y
    &&& post.format_index == i
    &&& post.status_message@ == pre.status_message@
}

/// The left key, by panel.
pub open spec fn left_step(pre: TuiApp, post: TuiApp) -> bool {
    match pre.active_panel {
        ActivePanel::Palette => if pre.palette_col > 0 {
            palette_moved(pre, pre.palette_col - 1, pre.palette_row as int, post)
        } else {
            post == pre
        },
        ActivePanel::Gradient => gradient_moved(
            pre,
            if pre.gradient_x >= 510 {
                pre.gradient_x - 510
            } else {
                0
            },
            pre.gradient_y as int,
            post,
        ),
        ActivePanel::FormatList => post == pre,
    }
}

/// The right key, by panel.
pub open spec fn right_step(pre: TuiApp, post: TuiApp) -> bool {
    match pre.active_panel {
        ActivePanel::Palette => if pre.palette_col < 9 {
            palette_moved(pre, pre.palette_col + 1, pre.palette_row as int, post)
        } else {
            post == pre
        },
        ActivePanel::Gradient => gradient_moved(
            pre,
            if pre.gradient_x + 510 <= 10200 {
                pre.gradient_x + 510
            } else {
                10200
            },
            pre.gradient_y as int,
            post,
        ),
        ActivePanel::FormatList => post == pre,
    }
}

/// The up key, by panel.
pub open spec fn up_step(pre: TuiApp, post: TuiApp) -> bool {
    match pre.active_panel {
        ActivePanel::Palette => if pre.palette_row > 0 {
            palette_moved(pre, pre.palette_col as int, pre.palette_row - 1, post)
        } else {
            post == pre
        },
        ActivePanel::Gradient => gradient_moved(
            pre,
            pre.gradient_x as int,
            if pre.gradient_y >= 510 {
                pre.gradient_y - 510
            } else {
                0
            },
            post,
        ),
        ActivePanel::FormatList => if pre.format_index > 0 {
            format_moved(pre, pre.format_index - 1, post)
        } else {
            post == pre
        },
    }
}

/// The down key, by panel.
pub open spec fn down_step(pre: TuiApp, post: TuiApp) -> bool {
    match pre.active_panel {
        ActivePanel::Palette => if pre.palette_row < 29 {
            palette_moved(pre, pre.palette_col as int, pre.palette_row + 1, post)
        } else {
            post == pre
        },
        ActivePanel::Gradient => gradient_moved(
            pre,
            pre.gradient_x as int,
            if pre.gradient_y + 510 <= 10200 {
                pre.gradient_y + 510
            } else {
                10200
            },
            post,
        ),
        ActivePanel::FormatList => if pre.format_index < 4 {
            format_moved(pre, pre.format_index + 1, post)
        } else {
            post == pre
        },
    }
}

/// Submitting the edit buffer: a parsable text replaces the color, any
/// other is reported invalid; either way the buffer empties and the mode
/// returns to normal.
pub open spec fn edit_submit_step(pre: TuiApp, post: TuiApp) -> bool {
    &&& post.config == pre.config
    &&& post.current_color == match spec_parse_color(trim_spec(pre.input_text@)) {
        Some(c) => c,
        None => pre.current_color,
    }
    &&& post.status_message@ == match spec_parse_color(trim_spec(pre.input_text@)) {
        Some(_) => "Color set to: "@ + pre.input_text@,
        None => "Invalid color format: "@ + pre.input_text@,
    }
    &&& post.input_mode == InputMode::Normal
    &&& post.input_text@ == Seq::<char>::empty()
    &&& post.should_quit == pre.should_quit
    &&& post.active_panel == pre.active_panel
    &&& post.palette_col == pre.palette_col
    &&& post.palette_row == pre.palette_row
    &&& post.gradient_x == pre.gradient_x
    &&& post.gradient_y == pre.gradient_y
    &&& post.format_index == pre.format_index
}

/// Cancelling the edit: buffer cleared, mode back to normal, color kept.
pub open spec fn edit_cancel_step(pre: TuiApp, post: TuiApp) -> bool {
    &&& post.config == pre.config
    &&& post.current_color == pre.current_color
    &&& post.input_mode == InputMode::Normal
    &&& post.input_text@ == Seq::<char>::empty()
    &&& post.should_quit == pre.should_quit
    &&& post.active_panel == pre.active_panel
    &&& post.palette_col == pre.palette_col
    &&& post.palette_row == pre.palette_row
    &&& post.gradient_x == pre.gradient_x
    &&& post.gradient_y == pre.gradient_y
    &&& post.format_index == pre.format_index
    &&& post.status_message@ == "Input cancelled"@
}

/// One backspace: the last buffered character goes; an empty buffer stays
/// empty.
pub open spec fn edit_backspace_step(pre: TuiApp, post: TuiApp) -> bool {
    &&& post.config == pre.config
    &&& post.current_color == pre.current_color
    &&& post.input_mode == pre.input_mode
    &&& post.input_text@ == if pre.input_text@.len() > 0 {
        pre.input_text@.take(pre.input_text@.len() - 1)
    } else {
        pre.input_text@
    }
    &&& post.should_quit == pre.should_quit
    &&& post.active_panel == pre.active_panel
    &&& post.palette_col == pre.palette_col
    &&& post.palette_row == pre.palette_row
    &&& post.gradient_x == pre.gradient_x
    &&& post.gradient_y == pre.gradient_y
    &&& post.format_index == pre.format_index
    &&& post.status_message@ == pre.status_message@
}

/// One typed character lands at the end of the buffer.
pub open spec fn edit_char_step(pre: TuiApp, ch: char, post: TuiApp) -> bool {
    &&& post.config == pre.config
    &&& post.current_color == pre.current_color
    &&& post.input_mode == pre.input_mode
    &&& post.input_text@ == pre.input_text@.push(ch)
    &&& post.should_quit == pre.should_quit
    &&& post.active_panel == pre.active_panel
    &&& post.palette_col == pre.palette_col
    &&& post.palette_row == pre.palette_row
    &&& post.gradient_x == pre.gradient_x
    &&& post.gradient_y == pre.gradient_y
    &&& post.format_index == pre.format_index
    &&& post.status_message@ == pre.status_message@
}

/// The whole transition relation of the state machine, one keystroke at a
/// time. In editing mode keys go to the buffer; in normal mode they drive
/// navigation, copying, the theme and quitting; unrecognized keys do
/// nothing.
pub open spec fn step_ok(pre: TuiApp, key: Key, ctrl: bool, post: TuiApp) -> bool {
    if pre.input_mode == InputMode::Editing {
        match key {
            Key::Enter => edit_submit_step(pre, post),
            Key::Esc => edit_cancel_step(pre, post),
            Key::Backspace => edit_backspace_step(pre, post),
            Key::Char(ch) => edit_char_step(pre, ch, post),
            _ => post == pre,
        }
    } else {
        match key {
            Key::Char(ch) => if ch == 'c' && ctrl {
                quit_step(pre, post)
            } else if ch == 'q' {
                quit_step(pre, post)
            } else if ch == 'i' {
                enter_edit_step(pre, post)
            } else if ch == 't' {
                theme_step(pre, post)
            } else if ch == 'c' {
                copy_step(pre, format_at(pre.format_index as int), post)
            } else if ch == 'h' {
                left_step(pre, post)
            } else if ch == 'j' {
                down_step(pre, post)
            } else if ch == 'k' {
                up_step(pre, post)
            } else if ch == 'l' {
                right_step(pre, post)
            } else if ch == '1' {
                copy_step(pre, ColorFormat::Hex, post)
            } else if ch == '2' {
                copy_step(pre, ColorFormat::Rgb, post)
            } else if ch == '3' {
                copy_step(pre, ColorFormat::Hsl, post)
            } else if ch == '4' {
                copy_step(pre, ColorFormat::Hsv, post)
            } else if ch == '5' {
                copy_step(pre, ColorFormat::Cmyk, post)
            } else {
                post == pre
            },
            Key::Esc => quit_step(pre, post),
            Key::Tab => tab_step(pre, post),
            Key::Left => left_step(pre, post),
            Key::Down => down_step(pre, post),
            Key::Up => up_step(pre, post),
            Key::Right => right_step(pre, post),
            _ => post == pre,
        }
    }
}

impl TuiApp {
    /// The state a session starts in: a muted blue, the gradient panel
    /// active, every cursor centered, the banner in the status line.
    pub fn new(config: Config) -> (app: TuiApp)
        ensures
            app.wf(),
            app.config == config,
            app.current_color == (CasColor { r: 128, g: 128, b: 200 }),
            app.input_mode == InputMode::Normal,
            app.input_text@ == Seq::<char>::empty(),
            app.status_message@
                == "cascolor v0.1.0 | Tab: switch panel | h/j/k/l: navigate | c: copy | i: input | t: theme | q: quit"@,
            !app.should_quit,
            app.active_panel == ActivePanel::Gradient,
            app.palette_col == 5,
            app.palette_row == 15,
            app.gradient_x == 5100,
            app.gradient_y == 5100,
            app.format_index == 0,
    {
        proof {
            reveal_strlit(
                "cascolor v0.1.0 | Tab: switch panel | h/j/k/l: navigate | c: copy | i: input | t: theme | q: quit",
            );
        }
        TuiApp {
            config,
            current_color: CasColor::from_rgb(128, 128, 200),
            input_mode: InputMode::Normal,
            input_text: String::new(),
            status_message: String::from_str(
                "cascolor v0.1.0 | Tab: switch panel | h/j/k/l: navigate | c: copy | i: input | t: theme | q: quit",
            ),
            should_quit: false,
            active_panel: ActivePanel::Gradient,
            palette_col: 5,
            palette_row: 15,
            gradient_x: 5100,
            gradient_y: 5100,
            format_index: 0,
        }
    }

    /// Recomputes the current color from the palette cursor and says where
    /// the cursor stands.
    fn update_color_from_palette(&mut self)
        requires
            old(self).wf(),
        ensures
            final(self).wf(),
            palette_moved(
                *old(self),
                old(self).palette_col as int,
                old(self).palette_row as int,
                *final(self),
            ),
    {
        let hue: i64 = (self.palette_row as i64) * 12000;
        let lightness: u32 = 2040 + (self.palette_col as u32) * 612;
        self.current_color = CasColor::from_hsl(hue, 8160, lightness);
        let mut st = String::from_str("Palette: col=");
        push_u32(&mut st, self.palette_col as u32);
        st.append(" row=");
        push_u32(&mut st, self.palette_row as u32);
        proof {
            reveal_strlit("Palette: col=");
            reveal_strlit(" row=");
            assert(st@ =~= "Palette: col="@ + dec_str(self.palette_col as nat) + " row="@
                + dec_str(self.palette_row as nat));
            assert(self.current_color == palette_color(
                self.palette_col as int,
                self.palette_row as int,
            ));
        }
        self.status_message = st;
    }

    /// Recomputes the current color from the gradient cursor, keeping the
    /// current hue, and says where the cursor stands.
    fn update_color_from_gradient(&mut self)
        requires
            old(self).wf(),
        ensures
            final(self).wf(),
            gradient_moved(
                *old(self),
                old(self).gradient_x as int,
                old(self).gradient_y as int,
                *final(self),
            ),
    {
        let (h, _s, _l) = self.current_color.to_hsl();
        let saturation = self.gradient_x;
        let lightness = 10200 - self.gradient_y;
        self.current_color = CasColor::from_hsl(h as i64, saturation, lightness);
        let mut st = String::from_str("Gradient: sat=");
        push_frac2(&mut st, saturation);
        st.append(" light=");
        push_frac2(&mut st, lightness);
        proof {
            reveal_strlit("Gradient: sat=");
            reveal_strlit(" light=");
            assert(st@ =~= "Gradient: sat="@ + frac2_str(saturation as int) + " light="@
                + frac2_str(10200 - self.gradient_y));
            assert(self.current_color == gradient_color(
                old(self).current_color,
                saturation as int,
                self.gradient_y as int,
            ));
        }
        self.status_message = st;
    }

    /// The left key.
    fn move_left(&mut self)
        requires
            old(self).wf(),
        ensures
            final(self).wf(),
            left_step(*old(self), *final(self)),
    {
        match self.active_panel {
            ActivePanel::Palette => {
                if self.palette_col > 0 {
                    self.palette_col = self.palette_col - 1;
                    self.update_color_from_palette();
                }
            },
            ActivePanel::Gradient => {
                self.gradient_x = if self.gradient_x >= 510 {
                    self.gradient_x - 510
                } else {
                    0
                };
                self.update_color_from_gradient();
            },
            ActivePanel::FormatList => {},
        }
    }

    /// The right key.
    fn move_right(&mut self)
        requires
            old(self).wf(),
        ensures
            final(self).wf(),
            right_step(*old(self), *final(self)),
    {
        match self.active_panel {
            ActivePanel::Palette => {
                if self.palette_col < 9 {
                    self.palette_col = self.palette_col + 1;
                    self.update_color_from_palette();
                }
            },
            ActivePanel::Gradient => {
                self.gradient_x = if self.gradient_x + 510 <= 10200 {
                    self.gradient_x + 510
                } else {
                    10200
                };
                self.update_color_from_gradient();
            },
            ActivePanel::FormatList => {},
        }
    }

    /// The up key.
    fn move_up(&mut self)
        requires
            old(self).wf(),
        ensures
            final(self).wf(),
            up_step(*old(self), *final(self)),
    {
        match self.active_panel {
            ActivePanel::Palette => {
                if self.palette_row > 0 {
                    self.palette_row = self.palette_row - 1;
                    self.update_color_from_palette();
                }
            },
            ActivePanel::Gradient => {
                self.gradient_y = if self.gradient_y >= 510 {
                    self.gradient_y - 510
                } else {
                    0
                };
                self.update_color_from_gradient();
            },
            ActivePanel::FormatList => {
                if self.format_index > 0 {
                    self.format_index = self.format_index - 1;
                }
            },
        }
    }

    /// The down key.
    fn move_down(&mut self)
        requires
            old(self).wf(),
        ensures
            final(self).wf(),
            down_step(*old(self), *final(self)),
    {
        match self.active_panel {
            ActivePanel::Palette => {
                if self.palette_row < 29 {
                    self.palette_row = self.palette_row + 1;
                    self.update_color_from_palette();
                }
            },
            ActivePanel::Gradient => {
                self.gradient_y = if self.gradient_y + 510 <= 10200 {
                    self.gradient_y + 510
                } else {
                    10200
                };
                self.update_color_from_gradient();
            },
            ActivePanel::FormatList => {
                if self.format_index < 4 {
                    self.format_index = self.format_index + 1;
                }
            },
        }
    }

    /// Flips the theme between Dark and Light; any other mode falls back to
    /// Dark.
    fn toggle_theme(&mut self)
        requires
            old(self).wf(),
        ensures
            final(self).wf(),
            theme_step(*old(self), *final(self)),
    {
        let new_theme = match self.config.general.theme {
            ThemeMode::Dark => ThemeMode::Light,
            ThemeMode::Light => ThemeMode::Dark,
            _ => ThemeMode::Dark,
        };
        self.config.general.theme = new_theme;
        let name: &str = match new_theme {
            ThemeMode::Dark => "Dark",
            ThemeMode::Light => "Light",
            ThemeMode::System => "System",
            ThemeMode::Auto => "Auto",
        };
        let mut st = String::from_str("Theme: ");
        st.append(name);
        proof {
            reveal_strlit("Theme: ");
            reveal_strlit("Dark");
            reveal_strlit("Light");
            assert(st@ =~= "Theme: "@ + theme_name(new_theme));
        }
        self.status_message = st;
    }

    /// Requests one clipboard copy of the given representation of the
    /// current color and reports the outcome in the status line.
    fn copy_format(&mut self, f: ColorFormat)
        requires
            old(self).wf(),
        ensures
            final(self).wf(),
            copy_step(*old(self), f, *final(self)),
    {
        let text = format_value(f, &self.current_color);
        match copy_to_clipboard(text.as_str()) {
            Ok(_) => {
                let mut st = String::from_str("Copied ");
                st.append(f.label());
                st.append(" to clipboard: ");
                st.append(text.as_str());
                proof {
                    reveal_strlit("Copied ");
                    reveal_strlit(" to clipboard: ");
                    assert(st@ =~= "Copied "@ + format_label(f) + " to clipboard: "@
                        + format_value_spec(f, self.current_color));
                }
                self.status_message = st;
            },
            Err(e) => {
                let mut st = String::from_str("Copy failed: ");
                let msg = e.message();
                st.append(msg.as_str());
                proof {
                    reveal_strlit("Copy failed: ");
                    assert(st@ =~= "Copy failed: "@ + clip_err_text(e));
                }
                self.status_message = st;
            },
        }
    }

    /// Copies the representation the format list currently selects.
    fn copy_current_format(&mut self)
        requires
            old(self).wf(),
        ensures
            final(self).wf(),
            copy_step(*old(self), format_at(old(self).format_index as int), *final(self)),
    {
        let f = match self.format_index {
            0 => ColorFormat::Hex,
            1 => ColorFormat::Rgb,
            2 => ColorFormat::Hsl,
            3 => ColorFormat::Hsv,
            _ => ColorFormat::Cmyk,
        };
        self.copy_format(f);
    }

    /// One keystroke of the state machine; see `step_ok` for what each key
    /// does.
    pub fn handle_key_event(&mut self, key: Key, ctrl: bool)
        requires
            old(self).wf(),
        ensures
            final(self).wf(),
            step_ok(*old(self), key, ctrl, *final(self)),
    {
        if self.input_mode == InputMode::Editing {
            match key {
                Key::Enter => {
                    match parse_color_input(self.input_text.as_str()) {
                        Some(c) => {
                            self.current_color = c;
                            let mut st = String::from_str("Color set to: ");
                            st.append(self.input_text.as_str());
                            proof {
                                reveal_strlit("Color set to: ");
                                assert(st@ =~= "Color set to: "@ + self.input_text@);
                            }
                            self.status_message = st;
                        },
                        None => {
                            let mut st = String::from_str("Invalid color format: ");
                            st.append(self.input_text.as_str());
                            proof {
                                reveal_strlit("Invalid color format: ");
                                assert(st@ =~= "Invalid color format: "@ + self.input_text@);
                            }
                            self.status_message = st;
                        },
                    }
                    self.input_text = String::new();
                    self.input_mode = InputMode::Normal;
                },
                Key::Esc => {
                    self.input_text = String::new();
                    self.input_mode = InputMode::Normal;
                    proof {
                        reveal_strlit("Input cancelled");
                    }
                    self.status_message = String::from_str("Input cancelled");
                },
                Key::Backspace => {
                    let n = self.input_text.unicode_len();
                    if n > 0 {
                        let shorter = self.input_text.as_str().substring_char(0, n - 1).to_owned();
                        proof {
                            assert(shorter@ =~= self.input_text@.take(self.input_text@.len() - 1));
                        }
                        self.input_text = shorter;
                    }
                },
                Key::Char(c) => {
                    push_char(&mut self.input_text, c);
                },
                _ => {},
            }
        } else {
            match key {
                Key::Char(c) => {
                    if c == 'c' && ctrl {
                        self.should_quit = true;
                    } else if c == 'q' {
                        self.should_quit = true;
                    } else if c == 'i' {
                        self.input_mode = InputMode::Editing;
                        self.input_text = String::new();
                        proof {
                            reveal_strlit(
                                "Enter color (HEX, RGB, HSL, etc.) | Enter: apply | Esc: cancel",
                            );
                        }
                        self.status_message = String::from_str(
                            "Enter color (HEX, RGB, HSL, etc.) | Enter: apply | Esc: cancel",
                        );
                    } else if c == 't' {
                        self.toggle_theme();
                    } else if c == 'c' {
                        self.copy_current_format();
                    } else if c == 'h' {
                        self.move_left();
                    } else if c == 'j' {
                        self.move_down();
                    } else if c == 'k' {
                        self.move_up();
                    } else if c == 'l' {
                        self.move_right();
                    } else if c == '1' {
                        self.copy_format(ColorFormat::Hex);
                    } else if c == '2' {
                        self.copy_format(ColorFormat::Rgb);
                    } else if c == '3' {
                        self.copy_format(ColorFormat::Hsl);
                    } else if c == '4' {
                        self.copy_format(ColorFormat::Hsv);
                    } else if c == '5' {
                        self.copy_format(ColorFormat::Cmyk);
                    }
                },
                Key::Esc => {
                    self.should_quit = true;
                },
                Key::Tab => {
                    let p = match self.active_panel {
                        ActivePanel::Palette => ActivePanel::Gradient,
                        ActivePanel::Gradient => ActivePanel::FormatList,
                        ActivePanel::FormatList => ActivePanel::Palette,
                    };
                    self.active_panel = p;
                    let name: &str = match p {
                        ActivePanel::Palette => "Palette",
                        ActivePanel::Gradient => "Gradient",
                        ActivePanel::FormatList => "FormatList",
                    };
                    let mut st = String::from_str("Switched to: ");
                    st.append(name);
                    st.append(" panel");
                    proof {
                        reveal_strlit("Switched to: ");
                        reveal_strlit(" panel");
                        reveal_strlit("Palette");
                        reveal_strlit("Gradient");
                        reveal_strlit("FormatList");
                        assert(st@ =~= "Switched to: "@ + panel_name(p) + " panel"@);
                    }
                    self.status_message = st;
                },
                Key::Left => self.move_left(),
                Key::Down => self.move_down(),
                Key::Up => self.move_up(),
                Key::Right => self.move_right(),
                _ => {},
            }
        }
    }
}

/// Law: cycling the panel three times returns to the start, from every
/// panel.
pub proof fn lemma_panel_cycle(p: ActivePanel)
    ensures
        next_panel(next_panel(next_panel(p))) == p,
{
}

} // verus!
