use options_trader::platform::account::Account;
use options_trader::positions::{InstrumentType, OptionType};
use options_trader::tt_api::sessions::Payload;
use options_trader::utils::mock_db::MockDb;
use options_trader::{get_log_level, log_level_of_lowercase, LogLevel};

#[test]
fn log_levels_ignore_case() {
    assert_eq!(get_log_level("debug"), LogLevel::Debug);
    assert_eq!(get_log_level("DEBUG"), LogLevel::Debug);
    assert_eq!(get_log_level("Info"), LogLevel::Info);
    assert_eq!(get_log_level("warn"), LogLevel::Warn);
    assert_eq!(get_log_level("trace"), LogLevel::Warn);
    assert_eq!(get_log_level(""), LogLevel::Warn);
}

#[test]
fn log_level_of_lowercase_names() {
    assert_eq!(log_level_of_lowercase("debug"), LogLevel::Debug);
    assert_eq!(log_level_of_lowercase("info"), LogLevel::Info);
    assert_eq!(log_level_of_lowercase("INFO"), LogLevel::Warn);
}

#[test]
fn option_letters_parse() {
    assert_eq!(OptionType::parse('C'), OptionType::Call);
    assert_eq!(OptionType::parse('P'), OptionType::Put);
    assert_eq!(OptionType::Call.to_string(), "Call");
    assert_eq!(OptionType::Put.to_string(), "Put");
}

#[test]
fn option_instruments_by_underlying_kind() {
    assert_eq!(InstrumentType::get_symbol_type("Equity Option"), InstrumentType::Equity);
    assert_eq!(InstrumentType::get_symbol_type("Future Option"), InstrumentType::Future);
}

#[test]
fn balance_notifications_are_recognised() {
    let p = Payload { msg_type: "AccountBalance".to_string(), data: "{}".to_string(), timestamp: 1 };
    assert!(Account::handle_msg(&p));
    let p = Payload { msg_type: "Order".to_string(), data: "{}".to_string(), timestamp: 1 };
    assert!(!Account::handle_msg(&p));
    let _ = Account::new();
}

#[test]
fn mock_db_starts_empty() {
    let db = MockDb::new();
    assert!(db.pool.is_empty());
}

#[test]
fn log_level_is_the_same_for_every_case_of_a_name() {
    for name in ["debug", "info", "warn", "Trace"] {
        let level = get_log_level(name);
        assert_eq!(get_log_level(&name.to_ascii_uppercase()), level);
        assert_eq!(get_log_level(&name.to_ascii_lowercase()), level);
    }
    assert_eq!(get_log_level("Debug"), LogLevel::Debug);
    assert_eq!(get_log_level("dEbUg"), LogLevel::Debug);
    assert_eq!(get_log_level("iNfO"), LogLevel::Info);
}

#[test]
fn ascii_byte_offsets_are_character_indices() {
    let s: Vec<char> = "SPY   231215C00450000".chars().collect();
    assert_eq!(options_trader::text::boundary_at(&s, 6), Some(6));
    assert_eq!(options_trader::text::boundary_at(&s, 12), Some(12));
    assert_eq!(options_trader::text::boundary_at(&s, 21), Some(21));
    let wide: Vec<char> = "é1".chars().collect();
    assert_eq!(options_trader::text::boundary_at(&wide, 1), None);
    assert_eq!(options_trader::text::boundary_at(&wide, 2), Some(1));
}
