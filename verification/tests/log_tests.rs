use pipo::pipolog::{LogLevel, Logger};

#[test]
fn log_records_message_at_info() {
    let line = Logger::log("matrix -- connecting");
    assert_eq!(line.level, LogLevel::Info);
    assert_eq!(line.message, "matrix -- connecting");
}
