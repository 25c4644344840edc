use cascolor::color::CasColor;
use cascolor::color::ColorFormat;
use cascolor::color::format_value;
use cascolor::config::Config;
use cascolor::config::ThemeMode;
use cascolor::parse::parse_color_input;
use cascolor::render::project;
use cascolor::tui::ActivePanel;
use cascolor::tui::InputMode;
use cascolor::tui::Key;
use cascolor::tui::TuiApp;

#[test]
fn test_color_workflow() {
    // Simulate a typical user workflow
    let color = CasColor::from_hex("#FF5733").unwrap();

    // User can convert to different formats
    let hex = color.to_hex();
    let rgb = format_value(ColorFormat::Rgb, &color);
    let hsl = format_value(ColorFormat::Hsl, &color);

    assert_eq!(hex, "#FF5733");
    assert!(rgb.contains("255"));
    assert!(hsl.contains("hsl"));
}

#[test]
fn test_parser_dispatch() {
    // The same color through three grammars, and the bare hex form.
    let hex = parse_color_input("#FF5733").unwrap();
    let bare = CasColor::from_hex("FF5733").unwrap();
    let rgb = parse_color_input("rgb(255, 87, 51)").unwrap();
    let hsl = parse_color_input("hsl(9, 100%, 60%)").unwrap();

    assert_eq!(hex.to_rgb(), (255, 87, 51));
    assert_eq!(bare.to_rgb(), (255, 87, 51));
    assert_eq!(rgb.to_rgb(), (255, 87, 51));

    // The HSL grammar lands within rounding tolerance of the same color.
    let (r, g, b) = hsl.to_rgb();
    assert!((r as i32 - 255).abs() <= 7);
    assert!((g as i32 - 87).abs() <= 7);
    assert!((b as i32 - 51).abs() <= 7);

    assert!(parse_color_input("notacolor").is_none());
    // An out-of-range component must fail, never silently clamp.
    assert!(parse_color_input("rgb(300,0,0)").is_none());
}

#[test]
fn test_parser_trims_and_strict_hex() {
    assert_eq!(parse_color_input("  #F53  ").unwrap().to_hex(), "#FF5533");
    // A failed hex parse is final: it does not cascade to other grammars.
    assert!(parse_color_input("#GG0011").is_none());
    assert!(parse_color_input("").is_none());
    assert!(parse_color_input("rgb(1,2)").is_none());
    assert!(parse_color_input("rgb(1,2,3,4)").is_none());
    assert!(parse_color_input("hsl(0, 100%)").is_none());
}

#[test]
fn test_panel_cycle_returns() {
    // Starting in the palette panel, three presses of the cycle key come
    // back around.
    let mut app = TuiApp::new(Config::default());
    app.active_panel = ActivePanel::Palette;
    app.handle_key_event(Key::Tab, false);
    assert_eq!(app.active_panel, ActivePanel::Gradient);
    app.handle_key_event(Key::Tab, false);
    assert_eq!(app.active_panel, ActivePanel::FormatList);
    app.handle_key_event(Key::Tab, false);
    assert_eq!(app.active_panel, ActivePanel::Palette);
}

#[test]
fn test_edit_apply_sets_color() {
    let mut app = TuiApp::new(Config::default());
    app.handle_key_event(Key::Char('i'), false);
    assert_eq!(app.input_mode, InputMode::Editing);
    for c in "#112233".chars() {
        app.handle_key_event(Key::Char(c), false);
    }
    app.handle_key_event(Key::Enter, false);
    assert_eq!(app.input_mode, InputMode::Normal);
    assert_eq!(app.current_color.to_rgb(), (0x11, 0x22, 0x33));
    assert!(app.input_text.is_empty());
    assert_eq!(app.status_message, "Color set to: #112233");
}

#[test]
fn test_edit_escape_keeps_color() {
    let mut app = TuiApp::new(Config::default());
    let before = app.current_color;
    app.handle_key_event(Key::Char('i'), false);
    app.handle_key_event(Key::Char('x'), false);
    app.handle_key_event(Key::Esc, false);
    assert_eq!(app.current_color.to_rgb(), before.to_rgb());
    assert!(app.input_text.is_empty());
    assert_eq!(app.input_mode, InputMode::Normal);
    assert_eq!(app.status_message, "Input cancelled");
}

#[test]
fn test_edit_backspace_and_invalid() {
    let mut app = TuiApp::new(Config::default());
    app.handle_key_event(Key::Char('i'), false);
    app.handle_key_event(Key::Char('a'), false);
    app.handle_key_event(Key::Char('b'), false);
    app.handle_key_event(Key::Backspace, false);
    assert_eq!(app.input_text, "a");
    app.handle_key_event(Key::Enter, false);
    assert_eq!(app.status_message, "Invalid color format: a");
    assert!(app.input_text.is_empty());
}

#[test]
fn test_quit_keys() {
    let mut app = TuiApp::new(Config::default());
    assert!(!app.should_quit);
    app.handle_key_event(Key::Char('q'), false);
    assert!(app.should_quit);

    let mut app2 = TuiApp::new(Config::default());
    app2.handle_key_event(Key::Char('c'), true);
    assert!(app2.should_quit);

    let mut app3 = TuiApp::new(Config::default());
    app3.handle_key_event(Key::Esc, false);
    assert!(app3.should_quit);
}

#[test]
fn test_theme_toggle_key() {
    let mut app = TuiApp::new(Config::default());
    assert_eq!(app.config.general.theme, ThemeMode::Dark);
    app.handle_key_event(Key::Char('t'), false);
    assert_eq!(app.config.general.theme, ThemeMode::Light);
    assert_eq!(app.status_message, "Theme: Light");
    app.handle_key_event(Key::Char('t'), false);
    assert_eq!(app.config.general.theme, ThemeMode::Dark);
    // Any other mode collapses to Dark.
    app.config.general.theme = ThemeMode::System;
    app.handle_key_event(Key::Char('t'), false);
    assert_eq!(app.config.general.theme, ThemeMode::Dark);
}

#[test]
fn test_palette_navigation_color() {
    let mut app = TuiApp::new(Config::default());
    app.active_panel = ActivePanel::Palette;
    app.palette_col = 1;
    app.palette_row = 0;
    app.handle_key_event(Key::Left, false);
    assert_eq!(app.palette_col, 0);
    assert_eq!(app.palette_row, 0);
    // Cell (0, 0): hue 0, saturation 0.8, lightness 0.2.
    assert_eq!(app.current_color.to_rgb(), CasColor::from_hsl(0, 8160, 2040).to_rgb());
    assert_eq!(app.status_message, "Palette: col=0 row=0");
    // At the edge a further move is a no-op.
    app.handle_key_event(Key::Left, false);
    assert_eq!(app.palette_col, 0);
}

#[test]
fn test_gradient_navigation_clamps() {
    let mut app = TuiApp::new(Config::default());
    assert_eq!(app.active_panel, ActivePanel::Gradient);
    // 21 presses from the center reach the edge and stay there.
    for _ in 0..21 {
        app.handle_key_event(Key::Right, false);
    }
    assert_eq!(app.gradient_x, 10200);
    assert_eq!(app.status_message, "Gradient: sat=1.00 light=0.50");
    for _ in 0..25 {
        app.handle_key_event(Key::Left, false);
    }
    assert_eq!(app.gradient_x, 0);
    assert_eq!(app.status_message, "Gradient: sat=0.00 light=0.50");
}

#[test]
fn test_format_list_navigation() {
    let mut app = TuiApp::new(Config::default());
    app.active_panel = ActivePanel::FormatList;
    assert_eq!(app.format_index, 0);
    app.handle_key_event(Key::Up, false);
    assert_eq!(app.format_index, 0);
    for _ in 0..6 {
        app.handle_key_event(Key::Down, false);
    }
    assert_eq!(app.format_index, 4);
    app.handle_key_event(Key::Up, false);
    assert_eq!(app.format_index, 3);
}

#[test]
fn test_unrecognized_key_is_noop() {
    let mut app = TuiApp::new(Config::default());
    let color = app.current_color;
    let status = app.status_message.clone();
    app.handle_key_event(Key::Char('z'), false);
    app.handle_key_event(Key::Other, false);
    assert_eq!(app.current_color.to_rgb(), color.to_rgb());
    assert_eq!(app.status_message, status);
    assert!(!app.should_quit);
}

#[test]
fn test_projector_idempotent() {
    // Two projections of the same state carry the same frame data.
    let mut app = TuiApp::new(Config::default());
    app.handle_key_event(Key::Tab, false);
    let r1 = project(&app);
    let r2 = project(&app);
    assert_eq!(r1.palette, r2.palette);
    assert_eq!(r1.palette_cursor, r2.palette_cursor);
    assert_eq!(r1.formats.len(), r2.formats.len());
    for i in 0..r1.formats.len() {
        assert_eq!(r1.formats[i].key, r2.formats[i].key);
        assert_eq!(r1.formats[i].label, r2.formats[i].label);
        assert_eq!(r1.formats[i].value, r2.formats[i].value);
    }
    assert_eq!(r1.selected_format, r2.selected_format);
    assert_eq!(r1.status, r2.status);
    assert_eq!(r1.edit_buffer, r2.edit_buffer);
}

#[test]
fn test_grid_mapping_corners() {
    // Palette cell (col 0, row 0): hue 0, lightness 0.2, saturation 0.8;
    // cell (col 9, row 29): hue 348 degrees, lightness 0.74.
    let app = TuiApp::new(Config::default());
    let frame = project(&app);
    assert_eq!(frame.palette.len(), 30);
    assert_eq!(frame.palette[0].len(), 10);
    assert_eq!(frame.palette[0][0], CasColor::from_hsl(0, 8160, 2040));
    assert_eq!(frame.palette[29][9], CasColor::from_hsl(348000, 8160, 7548));
}

#[test]
fn test_projector_reflects_state() {
    let mut app = TuiApp::new(Config::default());
    app.active_panel = ActivePanel::Palette;
    app.palette_col = 3;
    app.palette_row = 7;
    let frame = project(&app);
    assert_eq!(frame.palette_cursor, Some((3, 7)));
    assert_eq!(frame.selected_format, None);
    assert_eq!(frame.status, app.status_message);
    assert_eq!(frame.edit_buffer, None);
    assert_eq!(frame.formats[0].key, '1');
    assert_eq!(frame.formats[0].label, "HEX");
    assert_eq!(frame.formats[0].value, app.current_color.to_hex());
}
