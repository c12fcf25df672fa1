use hlds_exporter::settings::LogFormat;
use hlds_exporter::settings::LogLevel;

#[test]
fn default_log_settings() {
    assert_eq!(LogFormat::default(), LogFormat::Console);
    assert_eq!(LogLevel::default(), LogLevel::Debug);
}
