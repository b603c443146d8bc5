use patchbay_server::logging::{
    build_fmt_filter, default_fmt_filter, parse_level_filter, FmtLayerMode, LogLevel,
    TracingConfig,
};
use tracing::Level;

#[test]
fn default_filter_hides_sqlx_info() {
    let filter = default_fmt_filter(LogLevel::Info);

    assert!(filter.would_enable("patchbay_server", &Level::INFO));
    assert!(!filter.would_enable("sqlx::query", &Level::INFO));
    assert!(filter.would_enable("sqlx::query", &Level::WARN));
}

#[test]
fn patchbay_log_filter_can_enable_sqlx_info() {
    let filter = build_fmt_filter(LogLevel::Info, Some("info,sqlx=info"), None).unwrap();

    assert!(filter.would_enable("sqlx::query", &Level::INFO));
}

#[test]
fn sqlx_log_level_can_override_default_target() {
    let filter = build_fmt_filter(LogLevel::Info, None, Some(LogLevel::Debug)).unwrap();

    assert!(filter.would_enable("sqlx::query", &Level::DEBUG));
    assert!(!filter.would_enable("sqlx::query", &Level::TRACE));
}

#[test]
fn configured_filter_replaces_default_filter() {
    let filter = build_fmt_filter(LogLevel::Info, Some("off"), None).unwrap();

    assert!(!filter.would_enable("patchbay_server", &Level::ERROR));
    assert!(!filter.would_enable("sqlx::query", &Level::WARN));
}

#[test]
fn unreadable_filter_is_refused_and_blank_one_ignored() {
    let err = build_fmt_filter(LogLevel::Info, Some("  sqlx=loud  "), None).unwrap_err();
    assert_eq!(err.text, "sqlx=loud");
    let filter = build_fmt_filter(LogLevel::Warn, Some("   "), None).unwrap();
    assert!(!filter.would_enable("patchbay_server", &Level::INFO));
    assert!(filter.would_enable("patchbay_server", &Level::WARN));
}

#[test]
fn levels_read_like_the_log_filter() {
    assert_eq!(parse_level_filter("debug"), Some(LogLevel::Debug));
    assert_eq!(parse_level_filter("WARN"), Some(LogLevel::Warn));
    assert_eq!(parse_level_filter("3"), Some(LogLevel::Info));
    assert_eq!(parse_level_filter("+0"), Some(LogLevel::Off));
    assert_eq!(parse_level_filter(""), Some(LogLevel::Error));
    assert_eq!(parse_level_filter("6"), None);
    assert_eq!(parse_level_filter("loud"), None);
    assert_eq!(parse_level_filter("  Trace\n"), Some(LogLevel::Trace));
    assert_eq!(parse_level_filter("0005"), Some(LogLevel::Trace));
    assert_eq!(parse_level_filter(" oFF "), Some(LogLevel::Off));
    assert_eq!(FmtLayerMode::default(), FmtLayerMode::Pretty);
    let config = TracingConfig::default();
    assert!(config.with_target && config.with_file && config.with_line_number && config.with_ansi_coloring);
    assert!(!config.with_thread_name && !config.with_thread_id);
}
