use droid_devkit::logline::{parse, LogLevel};
use regex::Regex;

fn reference_pattern() -> Regex {
    Regex::new(
        r"^(\d{2}-\d{2}\s+\d{2}:\d{2}:\d{2}\.\d{3})\s+(\d+)\s+(\d+)\s+([VDIWEF])\s+(\S+):\s+(.*)$",
    )
    .unwrap()
}

#[test]
fn parses_threadtime_example() {
    let e = parse("06-01 12:00:01.123  1234  5678 I MyTag: hello world").unwrap();
    assert_eq!(e.timestamp, "06-01 12:00:01.123");
    assert_eq!(e.pid, "1234");
    assert_eq!(e.tid, "5678");
    assert_eq!(e.level, LogLevel::Info);
    assert_eq!(e.level.letter(), 'I');
    assert_eq!(e.tag, "MyTag");
    assert_eq!(e.message, "hello world");
}

#[test]
fn whitespace_width_does_not_matter() {
    let a = parse("06-01 12:00:01.123 1 2 W T: m").unwrap();
    let b = parse("06-01   12:00:01.123\t\t1     2  W   T:    m").unwrap();
    assert_eq!(a.pid, b.pid);
    assert_eq!(a.tid, b.tid);
    assert_eq!(a.tag, b.tag);
    assert_eq!(a.message, b.message);
    assert_eq!(a.level, b.level);
    assert_eq!(b.timestamp, "06-01   12:00:01.123");
}

#[test]
fn every_level_letter_is_read() {
    let cases = [
        ('V', LogLevel::Verbose),
        ('D', LogLevel::Debug),
        ('I', LogLevel::Info),
        ('W', LogLevel::Warn),
        ('E', LogLevel::Error),
        ('F', LogLevel::Fatal),
    ];
    for (c, lv) in cases {
        let line = format!("01-02 03:04:05.678 10 11 {} tag: x", c);
        assert_eq!(parse(&line).unwrap().level, lv);
        assert_eq!(LogLevel::from_letter(c), Some(lv));
    }
    assert_eq!(LogLevel::from_letter('X'), None);
}

#[test]
fn tag_may_hold_colons_and_message_may_be_empty() {
    let e = parse("01-02 03:04:05.678 10 11 D a:b:c: ").unwrap();
    assert_eq!(e.tag, "a:b:c");
    assert_eq!(e.message, "");
    let e = parse("01-02 03:04:05.678 10 11 D net: x: y  ").unwrap();
    assert_eq!(e.tag, "net");
    assert_eq!(e.message, "x: y  ");
}

#[test]
fn malformed_lines_are_rejected() {
    let bad = [
        "",
        "--------- beginning of main",
        "06-01 12:00:01.123  1234  5678 MyTag: no level",
        "06-01 12:00:01.123  12a4  5678 I MyTag: non-digit pid",
        "06-01 12:00:01.123  1234  5678 X MyTag: bad level",
        "06-01 12:00:01.123  1234  5678 I MyTag:no space after colon",
        "06-01 12:00:01.123  1234  5678 I MyTag no colon",
        "06-01 12:00:01.12  1234  5678 I MyTag: short millis",
        "6-01 12:00:01.123  1234  5678 I MyTag: short month",
        " 06-01 12:00:01.123  1234  5678 I MyTag: leading space",
        "06-0112:00:01.123  1234  5678 I MyTag: no gap",
        "06-01 12:00:01.123  1234  5678 II MyTag: double level",
        "06-01 12:00:01.123  1234  5678 I : empty tag",
        "06-01 12:00:01.123  1234  5678 I MyTag: two\nlines",
    ];
    for line in bad {
        assert!(parse(line).is_none(), "accepted: {:?}", line);
    }
}

#[test]
fn agrees_with_the_layout_pattern() {
    let re = reference_pattern();
    let lines = [
        "06-01 12:00:01.123  1234  5678 I MyTag: hello world",
        "12-31 23:59:59.999 1 1 F A: B",
        "06-01 12:00:01.123  1234  5678 I MyTag:no space",
        "06-01 12:00:01.123  1234  5678 I a:b: c: d",
        "06-01 12:00:01.123\u{3000}1234\u{A0}5678 E Tag:\u{2003}msg",
        "06-01 12:00:01.123  1234  5678 I Tag:   ",
        "x6-01 12:00:01.123  1234  5678 I Tag: m",
        "06-01 12:00:01.123  1234  5678 I Tag: m\r",
    ];
    for line in lines {
        let ours = parse(line);
        match re.captures(line) {
            None => assert!(ours.is_none(), "accepted: {:?}", line),
            Some(c) => {
                let e = ours.expect("rejected a line the pattern takes");
                assert_eq!(e.timestamp, &c[1]);
                assert_eq!(e.pid, &c[2]);
                assert_eq!(e.tid, &c[3]);
                assert_eq!(e.level.letter().to_string(), &c[4]);
                assert_eq!(e.tag, &c[5]);
                assert_eq!(e.message, &c[6]);
            }
        }
    }
}
