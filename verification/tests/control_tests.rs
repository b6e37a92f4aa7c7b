use peillute::control::{parse_command, trim, Command};

fn line(s: &str) -> Result<Option<String>, String> {
    Ok(Some(s.to_string()))
}

#[test]
fn parses_every_command() {
    assert_eq!(parse_command(line("/create_user")), Command::CreateUser);
    assert_eq!(parse_command(line("/user_accounts")), Command::UserAccounts);
    assert_eq!(parse_command(line("/print_user_tsx")), Command::PrintUserTransactions);
    assert_eq!(parse_command(line("/print_tsx")), Command::PrintTransactions);
    assert_eq!(parse_command(line("/deposit")), Command::Deposit);
    assert_eq!(parse_command(line("/withdraw")), Command::Withdraw);
    assert_eq!(parse_command(line("/transfer")), Command::Transfer);
    assert_eq!(parse_command(line("/pay")), Command::Pay);
    assert_eq!(parse_command(line("/refund")), Command::Refund);
    assert_eq!(parse_command(line("/help")), Command::Help);
    assert_eq!(parse_command(line("/info")), Command::Info);
    assert_eq!(parse_command(line("/start_snapshot")), Command::Snapshot);
}

#[test]
fn trims_before_parsing() {
    assert_eq!(parse_command(line("  /help\n")), Command::Help);
    assert_eq!(parse_command(line("\t/pay \u{3000}")), Command::Pay);
    assert_eq!(parse_command(line(" /quit ")), Command::Unknown("/quit".to_string()));
}

#[test]
fn end_of_input_and_errors() {
    assert_eq!(parse_command(Ok(None)), Command::Unknown("Aucun input".to_string()));
    assert_eq!(
        parse_command(Err("broken pipe".to_string())),
        Command::Error("Erreur de lecture stdin".to_string())
    );
}

#[test]
fn trim_matches_std() {
    for s in ["", "   ", " a b ", "\u{2028}x\u{85}", "é  ", "\u{a0}\u{a0}", "abc"] {
        assert_eq!(trim(s), s.trim());
    }
}
