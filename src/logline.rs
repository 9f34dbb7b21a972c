use vstd::prelude::*;

use crate::text::{
    chars_of, digit_char, digit_end, is_digit, lemma_digit_end_at, lemma_space_end_at,
    lemma_token_end_at, skip_digits, skip_spaces, skip_token, space_char, space_end, substring,
    token_end,
};

verus! {

/// The severity of a log entry.
#[derive(Clone, Copy, Debug, PartialEq, Eq, Structural)]
pub enum LogLevel {
    Verbose,
    Debug,
    Info,
    Warn,
    Error,
    Fatal,
}

/// The level that a letter of `V D I W E F` names.
pub open spec fn level_of(c: char) -> Option<LogLevel> {
    if c == 'V' {
        Some(LogLevel::Verbose)
    } else if c == 'D' {
        Some(LogLevel::Debug)
    } else if c == 'I' {
        Some(LogLevel::Info)
    } else if c == 'W' {
        Some(LogLevel::Warn)
    } else if c == 'E' {
        Some(LogLevel::Error)
    } else if c == 'F' {
        Some(LogLevel::Fatal)
    } else {
        None
    }
}

impl LogLevel {
    /// The letter that stands for this level in a log line.
    pub fn letter(&self) -> (r: char)
        ensures
            level_of(r) == Some(*self),
    {
        match self {
            LogLevel::Verbose => 'V',
            LogLevel::Debug => 'D',
            LogLevel::Info => 'I',
            LogLevel::Warn => 'W',
            LogLevel::Error => 'E',
            LogLevel::Fatal => 'F',
        }
    }

    /// The level that the letter `c` names, if any.
    pub fn from_letter(c: char) -> (r: Option<LogLevel>)
        ensures
            r == level_of(c),
    {
        if c == 'V' {
            Some(LogLevel::Verbose)
        } else if c == 'D' {
            Some(LogLevel::Debug)
        } else if c == 'I' {
            Some(LogLevel::Info)
        } else if c == 'W' {
            Some(LogLevel::Warn)
        } else if c == 'E' {
            Some(LogLevel::Error)
        } else if c == 'F' {
            Some(LogLevel::Fatal)
        } else {
            None
        }
    }
}

/// One line of the device log, taken apart into its six fields.
pub struct ParsedLogEntry {
    pub timestamp: String,
    pub pid: String,
    pub tid: String,
    pub level: LogLevel,
    pub tag: String,
    pub message: String,
}

/// The fields of a log entry as character sequences.
pub struct EntryView {
    pub timestamp: Seq<char>,
    pub pid: Seq<char>,
    pub tid: Seq<char>,
    pub level: LogLevel,
    pub tag: Seq<char>,
    pub message: Seq<char>,
}

impl View for ParsedLogEntry {
    type V = EntryView;

    open spec fn view(&self) -> EntryView {
        EntryView {
            timestamp: self.timestamp@,
            pid: self.pid@,
            tid: self.tid@,
            level: self.level,
            tag: self.tag@,
            message: self.message@,
        }
    }
}

impl Clone for ParsedLogEntry {
    fn clone(&self) -> (r: ParsedLogEntry)
        ensures
            r@ == self@,
    {
        ParsedLogEntry {
            timestamp: self.timestamp.clone(),
            pid: self.pid.clone(),
            tid: self.tid.clone(),
            level: self.level,
            tag: self.tag.clone(),
            message: self.message.clone(),
        }
    }
}

/// `MM-DD` at the start of `l`.
pub open spec fn date_at_start(l: Seq<char>) -> bool {
    &&& l.len() >= 5
    &&& digit_char(l[0])
    &&& digit_char(l[1])
    &&& l[2] == '-'
    &&& digit_char(l[3])
    &&& digit_char(l[4])
}

/// `HH:MM:SS.mmm` at position `i` of `l`.
pub open spec fn clock_at(l: Seq<char>, i: int) -> bool {
    &&& 0 <= i
    &&& i + 12 <= l.len()
    &&& digit_char(l[i])
    &&& digit_char(l[i + 1])
    &&& l[i + 2] == ':'
    &&& digit_char(l[i + 3])
    &&& digit_char(l[i + 4])
    &&& l[i + 5] == ':'
    &&& digit_char(l[i + 6])
    &&& digit_char(l[i + 7])
    &&& l[i + 8] == '.'
    &&& digit_char(l[i + 9])
    &&& digit_char(l[i + 10])
    &&& digit_char(l[i + 11])
}

/// What a log line holds, where it follows the `threadtime` layout
/// `MM-DD HH:MM:SS.mmm PID TID LEVEL TAG: MESSAGE`, with runs of whitespace
/// of any width between the fields; `None` where it does not.
///
/// The tag is the word before the level's following whitespace run ends,
/// less its final colon; the message is the rest of the line after the
/// whitespace that follows that colon, and holds no line feed.
pub open spec fn parse_line(l: Seq<char>) -> Option<EntryView> {
    let a = space_end(l, 5);
    let t = a + 12;
    let b = space_end(l, t);
    let c = digit_end(l, b);
    let d = space_end(l, c);
    let e = digit_end(l, d);
    let f = space_end(l, e);
    let g = space_end(l, f + 1);
    let h = token_end(l, g);
    let m = space_end(l, h);
    if date_at_start(l) && a > 5 && clock_at(l, a) && b > t && c > b && d > c && e > d && f > e
        && f < l.len() && level_of(l[f]) is Some && g > f + 1 && h < l.len() && h >= g + 2 && l[h
        - 1] == ':' && (forall|k: int| m <= k < l.len() ==> l[k] != '\n') {
        Some(
            EntryView {
                timestamp: l.subrange(0, t),
                pid: l.subrange(b, c),
                tid: l.subrange(d, e),
                level: level_of(l[f])->Some_0,
                tag: l.subrange(g, h - 1),
                message: l.subrange(m, l.len() as int),
            },
        )
    } else {
        None
    }
}

/// The letter that stands for level `v` in a log line.
pub open spec fn level_letter(v: LogLevel) -> char {
    match v {
        LogLevel::Verbose => 'V',
        LogLevel::Debug => 'D',
        LogLevel::Info => 'I',
        LogLevel::Warn => 'W',
        LogLevel::Error => 'E',
        LogLevel::Fatal => 'F',
    }
}

/// A non-empty run of whitespace.
pub open spec fn blank_run(w: Seq<char>) -> bool {
    w.len() > 0 && forall|k: int| 0 <= k < w.len() ==> space_char(#[trigger] w[k])
}

/// A non-empty run of digits.
pub open spec fn digit_run(w: Seq<char>) -> bool {
    w.len() > 0 && forall|k: int| 0 <= k < w.len() ==> digit_char(#[trigger] w[k])
}

/// A non-empty word without whitespace.
pub open spec fn word(w: Seq<char>) -> bool {
    w.len() > 0 && forall|k: int| 0 <= k < w.len() ==> !space_char(#[trigger] w[k])
}

/// A message that can end a log line: it does not start with whitespace and
/// holds no line feed.
pub open spec fn message_text(w: Seq<char>) -> bool {
    &&& (w.len() == 0 || !space_char(w[0]))
    &&& forall|k: int| 0 <= k < w.len() ==> #[trigger] w[k] != '\n'
}

/// The log line with these fields, and the six whitespace runs `gaps`
/// between them: after the date, after the clock, after the process id,
/// after the thread id, after the level, and after the tag's colon.
pub open spec fn compose_line(
    date: Seq<char>,
    clock: Seq<char>,
    pid: Seq<char>,
    tid: Seq<char>,
    level: LogLevel,
    tag: Seq<char>,
    message: Seq<char>,
    gaps: Seq<Seq<char>>,
) -> Seq<char> {
    date + gaps[0] + clock + gaps[1] + pid + gaps[2] + tid + gaps[3] + seq![level_letter(level)]
        + gaps[4] + tag + seq![':'] + gaps[5] + message
}

/// A line written in the log layout parses back to exactly its fields,
/// whatever the width of the whitespace between them.
#[verifier::rlimit(100)]
#[verifier::spinoff_prover]
pub proof fn lemma_parse_recovers_fields(
    date: Seq<char>,
    clock: Seq<char>,
    pid: Seq<char>,
    tid: Seq<char>,
    level: LogLevel,
    tag: Seq<char>,
    message: Seq<char>,
    gaps: Seq<Seq<char>>,
)
    requires
        date.len() == 5,
        date_at_start(date),
        clock.len() == 12,
        clock_at(clock, 0),
        digit_run(pid),
        digit_run(tid),
        word(tag),
        message_text(message),
        gaps.len() == 6,
        forall|i: int| 0 <= i < 6 ==> blank_run(#[trigger] gaps[i]),
    ensures
        parse_line(compose_line(date, clock, pid, tid, level, tag, message, gaps)) == Some(
            EntryView {
                timestamp: date + gaps[0] + clock,
                pid,
                tid,
                level,
                tag,
                message,
            },
        ),
{
    let l = compose_line(date, clock, pid, tid, level, tag, message, gaps);
    let g0 = gaps[0];
    let g1 = gaps[1];
    let g2 = gaps[2];
    let g3 = gaps[3];
    let g4 = gaps[4];
    let g5 = gaps[5];
    assert(blank_run(g0) && blank_run(g1) && blank_run(g2) && blank_run(g3) && blank_run(g4)
        && blank_run(g5));
    let p0 = date;
    let p1 = p0 + g0;
    let p2 = p1 + clock;
    let p3 = p2 + g1;
    let p4 = p3 + pid;
    let p5 = p4 + g2;
    let p6 = p5 + tid;
    let p7 = p6 + g3;
    let p8 = p7 + seq![level_letter(level)];
    let p9 = p8 + g4;
    let p10 = p9 + tag;
    let p11 = p10 + seq![':'];
    let p12 = p11 + g5;
    assert(l == p12 + message);
    let a = p1.len() as int;
    let t = p2.len() as int;
    let b = p3.len() as int;
    let c = p4.len() as int;
    let d = p5.len() as int;
    let e = p6.len() as int;
    let f = p7.len() as int;
    let g = p9.len() as int;
    let h = p11.len() as int;
    let m = p12.len() as int;
    // Each part stands at its offset in the line.
    assert(l.subrange(0, 5) =~= date);
    assert(l.subrange(5, a) =~= g0);
    assert(l.subrange(a, t) =~= clock);
    assert(l.subrange(t, b) =~= g1);
    assert(l.subrange(b, c) =~= pid);
    assert(l.subrange(c, d) =~= g2);
    assert(l.subrange(d, e) =~= tid);
    assert(l.subrange(e, f) =~= g3);
    assert(l[f] == level_letter(level));
    assert(l.subrange(f + 1, g) =~= g4);
    assert(l.subrange(g, h - 1) =~= tag);
    assert(l[h - 1] == ':');
    assert(l.subrange(h, m) =~= g5);
    assert(l.subrange(m, l.len() as int) =~= message);
    assert(l.subrange(0, t) =~= date + g0 + clock);
    assert forall|k: int| 5 <= k < a implies space_char(#[trigger] l[k]) by {
        assert(l[k] == l.subrange(5, a)[k - 5]);
    }
    assert(!space_char(l[a])) by {
        assert(l[a] == l.subrange(a, t)[0]);
    }
    lemma_space_end_at(l, 5, a);
    assert(date_at_start(l)) by {
        assert forall|k: int| 0 <= k < 5 implies l[k] == date[k] by {
            assert(l[k] == l.subrange(0, 5)[k]);
        }
    }
    assert(clock_at(l, a)) by {
        assert forall|k: int| 0 <= k < 12 implies l[a + k] == clock[k] by {
            assert(l[a + k] == l.subrange(a, t)[k]);
        }
    }
    assert forall|k: int| t <= k < b implies space_char(#[trigger] l[k]) by {
        assert(l[k] == l.subrange(t, b)[k - t]);
    }
    assert(digit_char(l[b])) by {
        assert(l[b] == l.subrange(b, c)[0]);
    }
    lemma_space_end_at(l, t, b);
    assert forall|k: int| b <= k < c implies digit_char(#[trigger] l[k]) by {
        assert(l[k] == l.subrange(b, c)[k - b]);
    }
    assert(space_char(l[c])) by {
        assert(l[c] == l.subrange(c, d)[0]);
    }
    lemma_digit_end_at(l, b, c);
    assert forall|k: int| c <= k < d implies space_char(#[trigger] l[k]) by {
        assert(l[k] == l.subrange(c, d)[k - c]);
    }
    assert(digit_char(l[d])) by {
        assert(l[d] == l.subrange(d, e)[0]);
    }
    lemma_space_end_at(l, c, d);
    assert forall|k: int| d <= k < e implies digit_char(#[trigger] l[k]) by {
        assert(l[k] == l.subrange(d, e)[k - d]);
    }
    assert(space_char(l[e])) by {
        assert(l[e] == l.subrange(e, f)[0]);
    }
    lemma_digit_end_at(l, d, e);
    assert forall|k: int| e <= k < f implies space_char(#[trigger] l[k]) by {
        assert(l[k] == l.subrange(e, f)[k - e]);
    }
    lemma_space_end_at(l, e, f);
    assert forall|k: int| f + 1 <= k < g implies space_char(#[trigger] l[k]) by {
        assert(l[k] == l.subrange(f + 1, g)[k - f - 1]);
    }
    assert(!space_char(l[g])) by {
        assert(l[g] == l.subrange(g, h - 1)[0]);
    }
    lemma_space_end_at(l, f + 1, g);
    assert forall|k: int| g <= k < h implies !space_char(#[trigger] l[k]) by {
        if k < h - 1 {
            assert(l[k] == l.subrange(g, h - 1)[k - g]);
        }
    }
    assert(space_char(l[h])) by {
        assert(l[h] == l.subrange(h, m)[0]);
    }
    lemma_token_end_at(l, g, h);
    assert forall|k: int| h <= k < m implies space_char(#[trigger] l[k]) by {
        assert(l[k] == l.subrange(h, m)[k - h]);
    }
    assert(m == l.len() || !space_char(l[m])) by {
        if m < l.len() {
            assert(l[m] == l.subrange(m, l.len() as int)[0]);
        }
    }
    lemma_space_end_at(l, h, m);
    assert forall|k: int| m <= k < l.len() implies l[k] != '\n' by {
        assert(l[k] == l.subrange(m, l.len() as int)[k - m]);
    }
    assert(level_of(l[f]) == Some(level));
}

fn date_ok(l: &Vec<char>) -> (r: bool)
    ensures
        r == date_at_start(l@),
{
    l.len() >= 5 && is_digit(l[0]) && is_digit(l[1]) && l[2] == '-' && is_digit(l[3])
        && is_digit(l[4])
}

fn clock_ok(l: &Vec<char>, i: usize) -> (r: bool)
    requires
        i + 12 <= l@.len(),
    ensures
        r == clock_at(l@, i as int),
{
    let n = l.len();
    assert(i + 12 <= n);
    is_digit(l[i]) && is_digit(l[i + 1]) && l[i + 2] == ':' && is_digit(l[i + 3]) && is_digit(
        l[i + 4],
    ) && l[i + 5] == ':' && is_digit(l[i + 6]) && is_digit(l[i + 7]) && l[i + 8] == '.'
        && is_digit(l[i + 9]) && is_digit(l[i + 10]) && is_digit(l[i + 11])
}

fn no_line_feed_from(l: &Vec<char>, m: usize) -> (r: bool)
    requires
        m <= l@.len(),
    ensures
        r == (forall|j: int| m <= j < l@.len() ==> l@[j] != '\n'),
{
    let n = l.len();
    let mut k = m;
    while k < n
        invariant
            n == l@.len(),
            m <= k <= n,
            forall|j: int| m <= j < k ==> l@[j] != '\n',
        decreases n - k,
    {
        if l[k] == '\n' {
            return false;
        }
        k = k + 1;
    }
    true
}

/// Takes a log line apart; `None` where it does not follow the layout.
pub fn parse(line: &str) -> (r: Option<ParsedLogEntry>)
    ensures
        match r {
            Some(e) => parse_line(line@) == Some(e@),
            None => parse_line(line@) is None,
        },
{
    let l = chars_of(line);
    let n = l.len();
    if !date_ok(&l) {
        return None;
    }
    let a = skip_spaces(&l, 5);
    if a == 5 || n - a < 12 {
        return None;
    }
    if !clock_ok(&l, a) {
        return None;
    }
    let t = a + 12;
    let b = skip_spaces(&l, t);
    if b == t {
        return None;
    }
    let c = skip_digits(&l, b);
    if c == b {
        return None;
    }
    let d = skip_spaces(&l, c);
    if d == c {
        return None;
    }
    let e = skip_digits(&l, d);
    if e == d {
        return None;
    }
    let f = skip_spaces(&l, e);
    if f == e || f >= n {
        return None;
    }
    let level = match LogLevel::from_letter(l[f]) {
        Some(v) => v,
        None => {
            return None;
        },
    };
    let g = skip_spaces(&l, f + 1);
    if g == f + 1 {
        return None;
    }
    let h = skip_token(&l, g);
    if h >= n || h - g < 2 {
        return None;
    }
    if l[h - 1] != ':' {
        assert(l@[h - 1] != ':');
        return None;
    }
    let m = skip_spaces(&l, h);
    if !no_line_feed_from(&l, m) {
        return None;
    }
    let entry = ParsedLogEntry {
        timestamp: substring(line, 0, t),
        pid: substring(line, b, c),
        tid: substring(line, d, e),
        level,
        tag: substring(line, g, h - 1),
        message: substring(line, m, n),
    };
    assert(parse_line(line@) == Some(entry@));
    Some(entry)
}

} // verus!
