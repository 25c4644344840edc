use cascolor::cli::CliCommand;
use cascolor::cli::parse_cli;
use cascolor::cli::should_use_tui;
use cascolor::clipboard::ClipboardError;
use cascolor::color::CasColor;
use cascolor::config::Config;
use cascolor::render::gradient_cursor;
use cascolor::render::gradient_field;
use cascolor::tui::TuiApp;

#[test]
fn test_cli_no_args_runs() {
    let args = vec!["cascolor".to_string()];
    assert!(matches!(parse_cli(&args), CliCommand::Run));
}

#[test]
fn test_cli_flags() {
    let args = vec!["cascolor".to_string(), "--help".to_string()];
    assert!(matches!(parse_cli(&args), CliCommand::Help));

    let args = vec!["cascolor".to_string(), "--version".to_string()];
    assert!(matches!(parse_cli(&args), CliCommand::Version));

    let args = vec!["cascolor".to_string(), "--update".to_string()];
    match parse_cli(&args) {
        CliCommand::Update(ch) => assert_eq!(ch, "stable"),
        _ => panic!("--update without a channel defaults to stable"),
    }

    let args = vec!["cascolor".to_string(), "--update".to_string(), "beta".to_string()];
    match parse_cli(&args) {
        CliCommand::Update(ch) => assert_eq!(ch, "beta"),
        _ => panic!("--update takes its channel argument"),
    }

    let args = vec!["cascolor".to_string(), "--bogus".to_string()];
    match parse_cli(&args) {
        CliCommand::Invalid(a) => assert_eq!(a, "--bogus"),
        _ => panic!("an unknown flag is rejected"),
    }
}

#[test]
fn test_should_use_tui() {
    assert!(should_use_tui(true, true));
    assert!(should_use_tui(true, false));
    assert!(!should_use_tui(false, true));
    assert!(should_use_tui(false, false));
}

#[test]
fn test_clipboard_error_messages() {
    let e = ClipboardError::InitFailed("no backend".to_string());
    assert_eq!(e.message(), "Failed to initialize clipboard: no backend");
    let e = ClipboardError::CopyFailed("rejected".to_string());
    assert_eq!(e.message(), "Failed to copy to clipboard: rejected");
    let e = ClipboardError::NotAvailable;
    assert_eq!(e.message(), "Clipboard is not available in this environment");
}

#[test]
fn test_gradient_field_corners() {
    let mut app = TuiApp::new(Config::default());
    app.current_color = CasColor::from_rgb(255, 0, 0);
    let field = gradient_field(&app, 4, 4);
    assert_eq!(field.len(), 4);
    assert_eq!(field[0].len(), 4);
    // Leftmost top cell: saturation 0, lightness 1 — white.
    assert_eq!(field[0][0].to_rgb(), (255, 255, 255));
    // Saturation grows to the right, lightness falls downward, hue stays.
    assert_eq!(field[1][3], CasColor::from_hsl(0, 3 * 10200 / 4, 10200 - 10200 / 4));
}

#[test]
fn test_gradient_cursor_position() {
    let mut app = TuiApp::new(Config::default());
    app.gradient_x = 5100;
    app.gradient_y = 0;
    let (x, y) = gradient_cursor(&app, 10, 8);
    assert_eq!(x, 5);
    assert_eq!(y, 0);
    app.gradient_x = 10200;
    app.gradient_y = 10200;
    let (x, y) = gradient_cursor(&app, 10, 8);
    assert_eq!(x, 9);
    assert_eq!(y, 7);
}
