use patchops::logging::{report_result, LogCategory, LogEntry};
use patchops::text::{parse_i32, split_lines, to_ascii_lowercase};

#[test]
fn lines_split_like_std() {
    for t in ["", "a", "a\n", "a\r\nb", "a\r\r\nb\r", "\n\nx", "x\ry\n"] {
        let mine = split_lines(t);
        let std: Vec<String> = t.lines().map(|s| s.to_string()).collect();
        assert_eq!(mine, std, "text {:?}", t);
    }
}

#[test]
fn integers_parse_like_std() {
    for t in ["0", "+5", "-0", "42", "-2147483648", "2147483647", "2147483648", "-2147483649", "", "+", "-", "12a", " 1", "99999999999999999999"] {
        assert_eq!(parse_i32(t), t.parse::<i32>().ok(), "text {:?}", t);
    }
}

#[test]
fn ascii_lowercase_keeps_other_characters() {
    assert_eq!(to_ascii_lowercase("A.TAR.GZ-Äé"), "a.tar.gz-Äé");
}

#[test]
fn category_names() {
    assert_eq!(LogCategory::Info.as_str(), "Info");
    assert_eq!(LogCategory::Warning.as_str(), "Warning");
    assert_eq!(LogCategory::Success.as_str(), "Success");
    assert_eq!(LogCategory::Error.as_str(), "Error");
}

#[test]
fn log_line_format() {
    let e = LogEntry {
        timestamp: "2024-01-02 03:04:05".to_string(),
        category: LogCategory::Success,
        message: "Saved".to_string(),
    };
    assert_eq!(e.line(), "2024-01-02 03:04:05 - Success: Saved\n");
}

#[test]
fn results_become_notes() {
    let ok = report_result(Ok(()), "Installed");
    assert_eq!((ok.category, ok.message.as_str()), (LogCategory::Success, "Installed"));
    let err = report_result(Err("boom".to_string()), "Installed");
    assert_eq!((err.category, err.message.as_str()), (LogCategory::Error, "boom"));
}
