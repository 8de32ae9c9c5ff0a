use scout_wrapper::logger::{LogFilter, LogLevel};

#[test]
fn debug_lines_follow_the_switch() {
    let mut f = LogFilter::new();
    assert_eq!(f.format_line(LogLevel::Debug, "x"), None);
    f.set_debug_enabled(true);
    assert_eq!(f.format_line(LogLevel::Debug, "x"), Some("[-] x".to_string()));
    assert_eq!(f.format_line(LogLevel::Error, "bad"), Some("[ERROR] bad".to_string()));
    assert_eq!(f.format_line(LogLevel::Warn, "w"), Some("[!] w".to_string()));
    assert_eq!(f.format_line(LogLevel::Info, "i"), Some("[*] i".to_string()));
}
