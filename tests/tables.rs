use droid_devkit::devices::{describe_device, first_word, parse_device_serials, property_value};
use droid_devkit::process_table::{parse_process_table, ProcessTable};
use droid_devkit::resolver::{PackageResolver, Resolution};
use droid_devkit::text::{split_lines, split_tokens, trim_text};

#[test]
fn device_list_example() {
    let out = "List of devices attached\nemulator-5554\tdevice\n\n";
    let serials = parse_device_serials(out);
    assert_eq!(serials, vec!["emulator-5554".to_string()]);
}

#[test]
fn device_list_keeps_order_and_skips_other_states() {
    let out = "List of devices attached\r\nABC123\tdevice\r\nXYZ\toffline\r\nemulator-5556 device\r\nQQ\tunauthorized\r\n";
    assert_eq!(
        parse_device_serials(out),
        vec!["ABC123".to_string(), "emulator-5556".to_string()]
    );
    assert!(parse_device_serials("").is_empty());
    assert!(parse_device_serials("List of devices attached\n").is_empty());
}

#[test]
fn property_answers_are_trimmed_or_unknown() {
    assert_eq!(property_value(Some("  Pixel 7\r\n")), "Pixel 7");
    assert_eq!(property_value(Some("\n")), "");
    assert_eq!(property_value(None), "Unknown");
    let d = describe_device("emulator-5554".to_string(), Some("sdk_gphone\n"), None, Some("34\n"));
    assert_eq!(d.serial, "emulator-5554");
    assert_eq!(d.model, "sdk_gphone");
    assert_eq!(d.android_version, "Unknown");
    assert_eq!(d.sdk_version, "34");
}

#[test]
fn snapshot_row_example() {
    let out = "USER PID PPID VSZ RSS WCHAN ADDR S NAME\nu0_a123   9999  1   123456 7890 futex_wait 0 S com.example.demo\n";
    let t = parse_process_table(out);
    assert_eq!(t.get("9999"), Some("com.example.demo".to_string()));
    assert_eq!(t.len(), 1);
}

#[test]
fn snapshot_skips_header_and_short_rows() {
    let out = "u0_a1 1 0 0 0 x 0 S header.like.row\nshort row\nroot 2 0 0 0 x 0 S init\nroot 3 0 0 0 x 0 S a\nroot 3 0 0 0 x 0 S b\n";
    let t = parse_process_table(out);
    assert_eq!(t.get("1"), None);
    assert_eq!(t.get("2"), Some("init".to_string()));
    assert_eq!(t.get("3"), Some("b".to_string()));
    assert_eq!(t.len(), 2);
    assert!(!t.contains("short"));
    assert_eq!(parse_process_table("").len(), 0);
}

#[test]
fn table_insert_replaces() {
    let mut t = ProcessTable::new();
    t.insert("1".to_string(), "a".to_string());
    t.insert("2".to_string(), "b".to_string());
    t.insert("1".to_string(), "c".to_string());
    assert_eq!(t.len(), 2);
    assert_eq!(t.get("1"), Some("c".to_string()));
    assert!(t.contains("2"));
}

#[test]
fn resolver_hit_needs_no_snapshot() {
    let mut r = PackageResolver::new();
    assert!(matches!(r.resolve("42"), Resolution::NeedsSnapshot));
    let name = r.refresh("H\nu 42 1 0 0 w 0 S com.example.app\n", "42");
    assert_eq!(name, "com.example.app");
    for _ in 0..2 {
        match r.resolve("42") {
            Resolution::Known(n) => assert_eq!(n, "com.example.app"),
            Resolution::NeedsSnapshot => panic!("a known process asked for a snapshot"),
        }
    }
}

#[test]
fn resolver_miss_replaces_table() {
    let mut r = PackageResolver::new();
    r.refresh("H\nu 1 1 0 0 w 0 S old.app\n", "1");
    let name = r.refresh("H\nu 2 1 0 0 w 0 S new.app\n", "7");
    assert_eq!(name, "");
    assert!(matches!(r.resolve("1"), Resolution::NeedsSnapshot));
    assert!(matches!(r.resolve("2"), Resolution::Known(_)));
}

#[test]
fn text_helpers_follow_std() {
    let samples = ["", "a", "a\n", "a\r\nb", "\n\n", "x\r", "a\rb\n", " lead  and\ttrail \u{A0}"];
    for s in samples {
        let ours: Vec<String> = split_lines(s);
        let std_lines: Vec<String> = s.lines().map(|l| l.to_string()).collect();
        assert_eq!(ours, std_lines, "lines of {:?}", s);
        let words: Vec<String> = s.split_whitespace().map(|w| w.to_string()).collect();
        assert_eq!(split_tokens(s), words, "words of {:?}", s);
        assert_eq!(trim_text(s), s.trim(), "trim of {:?}", s);
        assert_eq!(first_word(s), s.split_whitespace().next().unwrap_or_default());
    }
}
