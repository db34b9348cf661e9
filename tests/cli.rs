use tg_bot::cli::{parse_cli_line, CliAction, PROMPT};

#[test]
fn console_lines() {
    assert_eq!(parse_cli_line("\n"), CliAction::Skip);
    assert_eq!(parse_cli_line(""), CliAction::Skip);
    assert_eq!(parse_cli_line("hello\n"), CliAction::Hello);
    assert_eq!(parse_cli_line("reload\n"), CliAction::Reload);
    assert_eq!(parse_cli_line("exit\n"), CliAction::Exit);
    assert_eq!(parse_cli_line("exits"), CliAction::Exit);
    assert_eq!(parse_cli_line(" exit"), CliAction::Unknown);
    assert_eq!(parse_cli_line("status\n"), CliAction::Unknown);
    assert_eq!(PROMPT, "tg-bot CLI# ");
}
