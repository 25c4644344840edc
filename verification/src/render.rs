//! The render-state projector: pure derivations from the navigation state
//! to what a rendering backend must paint — palette cells, gradient cells,
//! cursor highlights and the formatted representation list. Nothing here
//! draws; a backend consumes this data unchanged.

use vstd::prelude::*;
use vstd::string::StringExecFns;

use crate::color::CasColor;
use crate::color::ColorFormat;
use crate::color::format_label;
use crate::color::format_value;
use crate::color::format_value_spec;
use crate::color::hsl_color;
use crate::color::hue_fp;
use crate::tui::ActivePanel;
use crate::tui::InputMode;
use crate::tui::TuiApp;
use crate::tui::format_at;
use crate::tui::palette_color;

verus! {

/// One line of the format list: its quick-copy key, its label and the
/// formatted value.
pub struct FormatEntry {
    pub key: char,
    pub label: String,
    pub value: String,
}

/// Everything a backend needs to paint one frame, derived and never stored.
pub struct RenderState {
    pub palette: Vec<Vec<CasColor>>,
    pub palette_cursor: Option<(usize, usize)>,
    pub formats: Vec<FormatEntry>,
    pub selected_format: Option<usize>,
    pub status: String,
    pub edit_buffer: Option<String>,
}

/// The quick-copy key printed beside each format line.
pub open spec fn format_key(i: int) -> char {
    if i == 0 {
        '1'
    } else if i == 1 {
        '2'
    } else if i == 2 {
        '3'
    } else if i == 3 {
        '4'
    } else {
        '5'
    }
}

/// The color of one gradient pixel on a `w` by `h` surface: saturation
/// grows to the right, lightness grows upward, hue is the current color's.
pub open spec fn gradient_cell(base: CasColor, x: int, y: int, w: int, h: int) -> CasColor {
    hsl_color(
        hue_fp(base.r as int, base.g as int, base.b as int),
        x * 10200 / w,
        10200 - y * 10200 / h,
    )
}

/// What `project` promises about its output, as one relation between the
/// state and the frame data.
pub open spec fn project_post(app: TuiApp, r: RenderState) -> bool {
    &&& r.palette@.len() == 30
    &&& forall|i: int| 0 <= i < 30 ==> (#[trigger] r.palette@[i])@.len() == 10
    &&& forall|i: int, j: int|
        #![trigger r.palette@[i]@[j]]
        0 <= i < 30 && 0 <= j < 10 ==> r.palette@[i]@[j] == palette_color(j, i)
    &&& r.palette_cursor == if app.active_panel == ActivePanel::Palette {
        Some((app.palette_col, app.palette_row))
    } else {
        Option::<(usize, usize)>::None
    }
    &&& r.formats@.len() == 5
    &&& forall|i: int|
        0 <= i < 5 ==> {
            &&& (#[trigger] r.formats@[i]).key == format_key(i)
            &&& r.formats@[i].label@ == format_label(format_at(i))
            &&& r.formats@[i].value@ == format_value_spec(format_at(i), app.current_color)
        }
    &&& r.selected_format == if app.active_panel == ActivePanel::FormatList {
        Some(app.format_index)
    } else {
        Option::<usize>::None
    }
    &&& r.status@ == app.status_message@
    &&& match r.edit_buffer {
        Some(b) => app.input_mode == InputMode::Editing && b@ == app.input_text@,
        None => app.input_mode != InputMode::Editing,
    }
}

/// Whether two frames carry the same observable data.
pub open spec fn render_eq(r1: RenderState, r2: RenderState) -> bool {
    &&& r1.palette@.len() == r2.palette@.len()
    &&& forall|i: int|
        0 <= i < r1.palette@.len() ==> (#[trigger] r1.palette@[i])@ == (#[trigger] r2.palette@[i])@
    &&& r1.palette_cursor == r2.palette_cursor
    &&& r1.formats@.len() == r2.formats@.len()
    &&& forall|i: int|
        0 <= i < r1.formats@.len() ==> {
            &&& (#[trigger] r1.formats@[i]).key == (#[trigger] r2.formats@[i]).key
            &&& r1.formats@[i].label@ == r2.formats@[i].label@
            &&& r1.formats@[i].value@ == r2.formats@[i].value@
        }
    &&& r1.selected_format == r2.selected_format
    &&& r1.status@ == r2.status@
    &&& match (r1.edit_buffer, r2.edit_buffer) {
        (Some(b1), Some(b2)) => b1@ == b2@,
        (None, None) => true,
        _ => false,
    }
}

/// Law: the projector is a pure function of the state. Any two frames
/// derived from the same state carry the same observable data, so redrawing
/// without a state change repaints the same picture.
pub proof fn lemma_projector_deterministic(app: TuiApp, r1: RenderState, r2: RenderState)
    requires
        project_post(app, r1),
        project_post(app, r2),
    ensures
        render_eq(r1, r2),
{
    assert forall|i: int| 0 <= i < r1.palette@.len() implies (#[trigger] r1.palette@[i])@ == (
    #[trigger] r2.palette@[i])@ by {
        assert((r1.palette@[i])@.len() == 10);
        assert((r2.palette@[i])@.len() == 10);
        assert forall|j: int| 0 <= j < 10 implies (#[trigger] (r1.palette@[i])@[j]) == (
        r2.palette@[i])@[j] by {
            assert((r1.palette@[i])@[j] == palette_color(j, i));
            assert((r2.palette@[i])@[j] == palette_color(j, i));
        }
        assert((r1.palette@[i])@ =~= (r2.palette@[i])@);
    }
}

/// The 10 by 30 palette: row-major, `palette[row][col]`.
fn palette_grid() -> (grid: Vec<Vec<CasColor>>)
    ensures
        grid@.len() == 30,
        forall|i: int| 0 <= i < 30 ==> (#[trigger] grid@[i])@.len() == 10,
        forall|i: int, j: int|
            #![trigger grid@[i]@[j]]
            0 <= i < 30 && 0 <= j < 10 ==> grid@[i]@[j] == palette_color(j, i),
{
    let mut grid: Vec<Vec<CasColor>> = Vec::new();
    let mut row: usize = 0;
    while row < 30
        invariant
            0 <= row <= 30,
            grid@.len() == row,
            forall|i: int| 0 <= i < row ==> (#[trigger] grid@[i])@.len() == 10,
            forall|i: int, j: int|
                #![trigger grid@[i]@[j]]
                0 <= i < row && 0 <= j < 10 ==> grid@[i]@[j] == palette_color(j, i),
        decreases 30 - row,
    {
        let mut line: Vec<CasColor> = Vec::new();
        let mut col: usize = 0;
        while col < 10
            invariant
                0 <= col <= 10,
                0 <= row < 30,
                line@.len() == col,
                forall|j: int| 0 <= j < col ==> #[trigger] line@[j] == palette_color(j, row as int),
            decreases 10 - col,
        {
            let hue: i64 = (row as i64) * 12000;
            let lightness: u32 = 2040 + (col as u32) * 612;
            line.push(CasColor::from_hsl(hue, 8160, lightness));
            col += 1;
        }
        grid.push(line);
        row += 1;
    }
    grid
}

/// The five format lines for a color, in display order.
fn format_entries(c: &CasColor) -> (entries: Vec<FormatEntry>)
    ensures
        entries@.len() == 5,
        forall|i: int|
            0 <= i < 5 ==> {
                &&& (#[trigger] entries@[i]).key == format_key(i)
                &&& entries@[i].label@ == format_label(format_at(i))
                &&& entries@[i].value@ == format_value_spec(format_at(i), *c)
            },
{
    let mut entries: Vec<FormatEntry> = Vec::new();
    entries.push(
        FormatEntry {
            key: '1',
            label: String::from_str(ColorFormat::Hex.label()),
            value: format_value(ColorFormat::Hex, c),
        },
    );
    entries.push(
        FormatEntry {
            key: '2',
            label: String::from_str(ColorFormat::Rgb.label()),
            value: format_value(ColorFormat::Rgb, c),
        },
    );
    entries.push(
        FormatEntry {
            key: '3',
            label: String::from_str(ColorFormat::Hsl.label()),
            value: format_value(ColorFormat::Hsl, c),
        },
    );
    entries.push(
        FormatEntry {
            key: '4',
            label: String::from_str(ColorFormat::Hsv.label()),
            value: format_value(ColorFormat::Hsv, c),
        },
    );
    entries.push(
        FormatEntry {
            key: '5',
            label: String::from_str(ColorFormat::Cmyk.label()),
            value: format_value(ColorFormat::Cmyk, c),
        },
    );
    entries
}

/// Derives one frame of display data from the state. Pure: see
/// `lemma_projector_deterministic`.
pub fn project(app: &TuiApp) -> (r: RenderState)
    requires
        app.wf(),
    ensures
        project_post(*app, r),
{
    let palette_cursor: Option<(usize, usize)> = if matches!(app.active_panel, ActivePanel::Palette) {
        Some((app.palette_col, app.palette_row))
    } else {
        None
    };
    let selected_format: Option<usize> = if matches!(app.active_panel, ActivePanel::FormatList) {
        Some(app.format_index)
    } else {
        None
    };
    let edit_buffer: Option<String> = if matches!(app.input_mode, InputMode::Editing) {
        Some(app.input_text.as_str().to_owned())
    } else {
        None
    };
    RenderState {
        palette: palette_grid(),
        palette_cursor,
        formats: format_entries(&app.current_color),
        selected_format,
        status: app.status_message.as_str().to_owned(),
        edit_buffer,
    }
}

/// The gradient surface, `h` rows of `w` cells, derived from the current
/// color alone.
pub fn gradient_field(app: &TuiApp, w: usize, h: usize) -> (field: Vec<Vec<CasColor>>)
    requires
        app.wf(),
        0 < w <= 65535,
        0 < h <= 65535,
    ensures
        field@.len() == h,
        forall|y: int| 0 <= y < h ==> (#[trigger] field@[y])@.len() == w,
        forall|y: int, x: int|
            #![trigger field@[y]@[x]]
            0 <= y < h && 0 <= x < w ==> field@[y]@[x] == gradient_cell(
                app.current_color,
                x,
                y,
                w as int,
                h as int,
            ),
{
    let base = app.current_color;
    let (hue, _s, _l) = base.to_hsl();
    let mut field: Vec<Vec<CasColor>> = Vec::new();
    let mut y: usize = 0;
    while y < h
        invariant
            0 <= y <= h,
            0 < w <= 65535,
            0 < h <= 65535,
            field@.len() == y,
            hue == hue_fp(base.r as int, base.g as int, base.b as int),
            hue < 360000,
            forall|i: int| 0 <= i < y ==> (#[trigger] field@[i])@.len() == w,
            forall|i: int, x: int|
                #![trigger field@[i]@[x]]
                0 <= i < y && 0 <= x < w ==> field@[i]@[x] == gradient_cell(
                    base,
                    x,
                    i,
                    w as int,
                    h as int,
                ),
        decreases h - y,
    {
        let mut line: Vec<CasColor> = Vec::new();
        let mut x: usize = 0;
        while x < w
            invariant
                0 <= x <= w,
                0 < w <= 65535,
                0 < h <= 65535,
                0 <= y < h,
                line@.len() == x,
                hue == hue_fp(base.r as int, base.g as int, base.b as int),
                hue < 360000,
                forall|j: int|
                    0 <= j < x ==> #[trigger] line@[j] == gradient_cell(
                        base,
                        j,
                        y as int,
                        w as int,
                        h as int,
                    ),
            decreases w - x,
        {
            proof {
                assert((x as u64) * 10200 <= (w as u64) * 10200) by (nonlinear_arith)
                    requires
                        x <= w,
                ;
                assert((x as u64) * 10200 / (w as int) <= 10200) by (nonlinear_arith)
                    requires
                        0 < w,
                        (x as u64) * 10200 <= (w as u64) * 10200,
                ;
                assert((y as u64) * 10200 <= (h as u64) * 10200) by (nonlinear_arith)
                    requires
                        y <= h,
                ;
                assert((y as u64) * 10200 / (h as int) <= 10200) by (nonlinear_arith)
                    requires
                        0 < h,
                        (y as u64) * 10200 <= (h as u64) * 10200,
                ;
            }
            let sat: u64 = (x as u64) * 10200 / (w as u64);
            let light: u64 = 10200 - (y as u64) * 10200 / (h as u64);
            line.push(CasColor::from_hsl(hue as i64, sat as u32, light as u32));
            x += 1;
        }
        field.push(line);
        y += 1;
    }
    field
}

/// Where the gradient cursor stands on a `w` by `h` surface: the cell whose
/// color the cursor has picked, clamped onto the surface.
pub fn gradient_cursor(app: &TuiApp, w: usize, h: usize) -> (pos: (usize, usize))
    requires
        app.wf(),
        0 < w <= 65535,
        0 < h <= 65535,
    ensures
        pos.0 == if app.gradient_x as int * w / 10200 < w {
            app.gradient_x as int * w / 10200
        } else {
            w - 1
        },
        pos.1 == if app.gradient_y as int * h / 10200 < h {
            app.gradient_y as int * h / 10200
        } else {
            h - 1
        },
        pos.0 < w,
        pos.1 < h,
{
    proof {
        assert((app.gradient_x as u64) * (w as u64) <= 10200 * 65535) by (nonlinear_arith)
            requires
                app.gradient_x <= 10200,
                0 < w <= 65535,
        ;
        assert((app.gradient_y as u64) * (h as u64) <= 10200 * 65535) by (nonlinear_arith)
            requires
                app.gradient_y <= 10200,
                0 < h <= 65535,
        ;
        assert((app.gradient_x as u64) * (w as u64) / 10200 <= w) by (nonlinear_arith)
            requires
                app.gradient_x <= 10200,
                0 < w,
        ;
        assert((app.gradient_y as u64) * (h as u64) / 10200 <= h) by (nonlinear_arith)
            requires
                app.gradient_y <= 10200,
                0 < h,
        ;
    }
    let x: u64 = (app.gradient_x as u64) * (w as u64) / 10200;
    let y: u64 = (app.gradient_y as u64) * (h as u64) / 10200;
    let px: usize = if (x as usize) < w {
        x as usize
    } else {
        w - 1
    };
    let py: usize = if (y as usize) < h {
        y as usize
    } else {
        h - 1
    };
    (px, py)
}

} // verus!
