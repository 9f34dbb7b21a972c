use vstd::prelude::*;
use vstd::std_specs::iter::IteratorSpec;

verus! {

/// Unicode `White_Space`: what `char::is_whitespace` and the `\s` class accept.
pub open spec fn space_char(c: char) -> bool {
    c == ' ' || ('\t' <= c && c <= '\r') || c == '\u{85}' || c == '\u{A0}' || c == '\u{1680}'
        || ('\u{2000}' <= c && c <= '\u{200A}') || c == '\u{2028}' || c == '\u{2029}'
        || c == '\u{202F}' || c == '\u{205F}' || c == '\u{3000}'
}

/// An ASCII decimal digit.
pub open spec fn digit_char(c: char) -> bool {
    '0' <= c && c <= '9'
}

/// The end of the run of whitespace that starts at `i`.
pub open spec fn space_end(s: Seq<char>, i: int) -> int
    decreases s.len() - i,
{
    if 0 <= i < s.len() && space_char(s[i]) {
        space_end(s, i + 1)
    } else {
        i
    }
}

/// The end of the run of digits that starts at `i`.
pub open spec fn digit_end(s: Seq<char>, i: int) -> int
    decreases s.len() - i,
{
    if 0 <= i < s.len() && digit_char(s[i]) {
        digit_end(s, i + 1)
    } else {
        i
    }
}

/// The end of the run of non-whitespace characters that starts at `i`.
pub open spec fn token_end(s: Seq<char>, i: int) -> int
    decreases s.len() - i,
{
    if 0 <= i < s.len() && !space_char(s[i]) {
        token_end(s, i + 1)
    } else {
        i
    }
}

/// Where the `sep`-separated piece of `s` that starts at `i` ends: at the
/// first `sep` at or after `i`, or at the end of `s`.
pub open spec fn piece_end(s: Seq<char>, i: int, sep: char) -> int
    decreases s.len() - i,
{
    if 0 <= i < s.len() && s[i] != sep {
        piece_end(s, i + 1, sep)
    } else {
        i
    }
}

/// Where the text of `s[..j]` ends once its trailing whitespace is cut.
pub open spec fn trimmed_end(s: Seq<char>, j: int) -> int
    decreases j,
{
    if 0 < j <= s.len() && space_char(s[j - 1]) {
        trimmed_end(s, j - 1)
    } else {
        j
    }
}

/// `s` without leading and trailing whitespace.
pub open spec fn trim(s: Seq<char>) -> Seq<char> {
    let a = space_end(s, 0);
    if a >= s.len() {
        Seq::empty()
    } else {
        s.subrange(a, trimmed_end(s, s.len() as int))
    }
}

/// `s` starts with `p`.
pub open spec fn has_prefix(s: Seq<char>, p: Seq<char>) -> bool {
    p.len() <= s.len() && s.subrange(0, p.len() as int) == p
}

/// `s` ends with `p`.
pub open spec fn has_suffix(s: Seq<char>, p: Seq<char>) -> bool {
    p.len() <= s.len() && s.subrange(s.len() - p.len(), s.len() as int) == p
}

/// The pieces of `s[i..]` between line feeds; an empty piece after a final
/// line feed is not one.
pub open spec fn raw_lines(s: Seq<char>, i: int) -> Seq<Seq<char>>
    decreases s.len() - i,
{
    if i < 0 || i >= s.len() {
        Seq::empty()
    } else if s[i] == '\n' {
        seq![Seq::empty()] + raw_lines(s, i + 1)
    } else {
        let rest = raw_lines(s, i + 1);
        if rest.len() == 0 {
            seq![seq![s[i]]]
        } else {
            rest.update(0, seq![s[i]] + rest[0])
        }
    }
}

/// `l` without one final carriage return.
pub open spec fn strip_cr(l: Seq<char>) -> Seq<char> {
    if l.len() > 0 && l.last() == '\r' {
        l.drop_last()
    } else {
        l
    }
}

/// The lines of `s`, as `str::lines` gives them: split at each line feed,
/// with a carriage return before the line feed removed, and no empty line
/// after a final line feed.
pub open spec fn lines(s: Seq<char>) -> Seq<Seq<char>> {
    let raw = raw_lines(s, 0);
    Seq::new(
        raw.len(),
        |k: int|
            if k + 1 < raw.len() || s.last() == '\n' {
                strip_cr(raw[k])
            } else {
                raw[k]
            },
    )
}

/// The whitespace-separated words of `s[i..]`.
pub open spec fn tokens_from(s: Seq<char>, i: int) -> Seq<Seq<char>>
    decreases s.len() - i,
{
    if i < 0 || i >= s.len() {
        Seq::empty()
    } else if space_char(s[i]) {
        tokens_from(s, i + 1)
    } else {
        let rest = tokens_from(s, i + 1);
        if i + 1 < s.len() && !space_char(s[i + 1]) {
            rest.update(0, seq![s[i]] + rest[0])
        } else {
            seq![seq![s[i]]] + rest
        }
    }
}

/// The whitespace-separated words of `s`, as `str::split_whitespace` gives them.
pub open spec fn tokens(s: Seq<char>) -> Seq<Seq<char>> {
    tokens_from(s, 0)
}

/// The first word of `s`, or nothing where it has none.
pub open spec fn first_token(s: Seq<char>) -> Seq<char> {
    let t = tokens(s);
    if t.len() > 0 {
        t[0]
    } else {
        Seq::empty()
    }
}

proof fn lemma_space_end_bounds(s: Seq<char>, i: int)
    requires
        0 <= i <= s.len(),
    ensures
        i <= space_end(s, i) <= s.len(),
        forall|k: int| i <= k < space_end(s, i) ==> space_char(#[trigger] s[k]),
        space_end(s, i) < s.len() ==> !space_char(s[space_end(s, i)]),
    decreases s.len() - i,
{
    if i < s.len() && space_char(s[i]) {
        lemma_space_end_bounds(s, i + 1);
    }
}

proof fn lemma_token_end_bounds(s: Seq<char>, i: int)
    requires
        0 <= i <= s.len(),
    ensures
        i <= token_end(s, i) <= s.len(),
        forall|k: int| i <= k < token_end(s, i) ==> !space_char(#[trigger] s[k]),
        token_end(s, i) < s.len() ==> space_char(s[token_end(s, i)]),
    decreases s.len() - i,
{
    if i < s.len() && !space_char(s[i]) {
        lemma_token_end_bounds(s, i + 1);
    }
}

/// A run of whitespace from `i` to `j` that nothing but a non-space (or the
/// end) follows ends at `j`.
pub proof fn lemma_space_end_at(s: Seq<char>, i: int, j: int)
    requires
        0 <= i <= j <= s.len(),
        forall|k: int| i <= k < j ==> space_char(#[trigger] s[k]),
        j == s.len() || !space_char(s[j]),
    ensures
        space_end(s, i) == j,
    decreases j - i,
{
    if i < j {
        lemma_space_end_at(s, i + 1, j);
    }
}

/// A run of digits from `i` to `j` that nothing but a non-digit (or the end)
/// follows ends at `j`.
pub proof fn lemma_digit_end_at(s: Seq<char>, i: int, j: int)
    requires
        0 <= i <= j <= s.len(),
        forall|k: int| i <= k < j ==> digit_char(#[trigger] s[k]),
        j == s.len() || !digit_char(s[j]),
    ensures
        digit_end(s, i) == j,
    decreases j - i,
{
    if i < j {
        lemma_digit_end_at(s, i + 1, j);
    }
}

/// A word from `i` to `j` that whitespace (or the end) follows ends at `j`.
pub proof fn lemma_token_end_at(s: Seq<char>, i: int, j: int)
    requires
        0 <= i <= j <= s.len(),
        forall|k: int| i <= k < j ==> !space_char(#[trigger] s[k]),
        j == s.len() || space_char(s[j]),
    ensures
        token_end(s, i) == j,
    decreases j - i,
{
    if i < j {
        lemma_token_end_at(s, i + 1, j);
    }
}

/// A whitespace character.
pub fn is_space(c: char) -> (r: bool)
    ensures
        r == space_char(c),
{
    c == ' ' || ('\t' <= c && c <= '\r') || c == '\u{85}' || c == '\u{A0}' || c == '\u{1680}'
        || ('\u{2000}' <= c && c <= '\u{200A}') || c == '\u{2028}' || c == '\u{2029}'
        || c == '\u{202F}' || c == '\u{205F}' || c == '\u{3000}'
}

/// An ASCII decimal digit.
pub fn is_digit(c: char) -> (r: bool)
    ensures
        r == digit_char(c),
{
    '0' <= c && c <= '9'
}

/// The characters of `s`, in order, for constant-time indexing.
pub fn chars_of(s: &str) -> (r: Vec<char>)
    ensures
        r@ == s@,
{
    broadcast use vstd::string::group_string_axioms, vstd::string::next_postcondition;

    let mut it = s.chars();
    let mut out: Vec<char> = Vec::new();
    loop
        invariant
            s@ == out@ + it.remaining(),
        ensures
            s@ == out@,
        decreases s@.len() - out@.len(),
    {
        match it.next() {
            Some(c) => {
                out.push(c);
            },
            None => {
                break ;
            },
        }
    }
    out
}

/// The end of the whitespace run of `cs` that starts at `i`.
pub fn skip_spaces(cs: &Vec<char>, i: usize) -> (r: usize)
    requires
        i <= cs@.len(),
    ensures
        r == space_end(cs@, i as int),
        i <= r <= cs@.len(),
{
    let mut j = i;
    while j < cs.len() && is_space(cs[j])
        invariant
            i <= j <= cs@.len(),
            space_end(cs@, i as int) == space_end(cs@, j as int),
        decreases cs@.len() - j,
    {
        j = j + 1;
    }
    j
}

/// The end of the digit run of `cs` that starts at `i`.
pub fn skip_digits(cs: &Vec<char>, i: usize) -> (r: usize)
    requires
        i <= cs@.len(),
    ensures
        r == digit_end(cs@, i as int),
        i <= r <= cs@.len(),
{
    let mut j = i;
    while j < cs.len() && is_digit(cs[j])
        invariant
            i <= j <= cs@.len(),
            digit_end(cs@, i as int) == digit_end(cs@, j as int),
        decreases cs@.len() - j,
    {
        j = j + 1;
    }
    j
}

/// The end of the run of non-whitespace characters of `cs` that starts at `i`.
pub fn skip_token(cs: &Vec<char>, i: usize) -> (r: usize)
    requires
        i <= cs@.len(),
    ensures
        r == token_end(cs@, i as int),
        i <= r <= cs@.len(),
{
    let mut j = i;
    while j < cs.len() && !is_space(cs[j])
        invariant
            i <= j <= cs@.len(),
            token_end(cs@, i as int) == token_end(cs@, j as int),
        decreases cs@.len() - j,
    {
        j = j + 1;
    }
    j
}

/// The index of the first `sep` in `cs` at or after `i`, or the length of `cs`.
pub fn find_char(cs: &Vec<char>, i: usize, sep: char) -> (r: usize)
    requires
        i <= cs@.len(),
    ensures
        r == piece_end(cs@, i as int, sep),
        i <= r <= cs@.len(),
{
    let mut j = i;
    while j < cs.len() && cs[j] != sep
        invariant
            i <= j <= cs@.len(),
            piece_end(cs@, i as int, sep) == piece_end(cs@, j as int, sep),
        decreases cs@.len() - j,
    {
        j = j + 1;
    }
    j
}

/// The characters `s[from..to]` as a new string.
pub fn substring(s: &str, from: usize, to: usize) -> (r: String)
    requires
        from <= to <= s@.len(),
    ensures
        r@ == s@.subrange(from as int, to as int),
{
    String::from_str(s.substring_char(from, to))
}

proof fn lemma_raw_lines_nonempty(s: Seq<char>, i: int)
    requires
        0 <= i < s.len(),
    ensures
        raw_lines(s, i).len() > 0,
{
}

/// The piece of `s[i..]` up to the first line feed at or after `i`, at `j`
/// (or the end of `s`), comes first among `raw_lines(s, i)`.
proof fn lemma_raw_lines_split(s: Seq<char>, i: int, j: int)
    requires
        0 <= i <= j <= s.len(),
        i < s.len(),
        forall|k: int| i <= k < j ==> s[k] != '\n',
        j == s.len() || s[j] == '\n',
    ensures
        raw_lines(s, i) == seq![s.subrange(i, j)] + (if j < s.len() {
            raw_lines(s, j + 1)
        } else {
            Seq::empty()
        }),
    decreases j - i,
{
    if i == j {
        assert(s.subrange(i, j) =~= Seq::empty());
        assert(raw_lines(s, i) == seq![s.subrange(i, j)] + raw_lines(s, j + 1));
    } else if i + 1 == s.len() {
        assert(s.subrange(i, j) =~= seq![s[i]]);
        assert(raw_lines(s, i + 1) =~= Seq::empty());
        assert(raw_lines(s, i) =~= seq![s.subrange(i, j)] + Seq::<Seq<char>>::empty());
    } else {
        lemma_raw_lines_split(s, i + 1, j);
        let rest = raw_lines(s, i + 1);
        assert(seq![s[i]] + s.subrange(i + 1, j) =~= s.subrange(i, j));
        assert(rest.update(0, seq![s[i]] + rest[0]) =~= seq![s.subrange(i, j)] + (if j < s.len() {
            raw_lines(s, j + 1)
        } else {
            Seq::empty()
        }));
    }
}

/// The word that starts at `i` and ends at `j` comes first among the words of `s[i..]`.
proof fn lemma_tokens_split(s: Seq<char>, i: int, j: int)
    requires
        0 <= i < j <= s.len(),
        forall|k: int| i <= k < j ==> !space_char(#[trigger] s[k]),
        j == s.len() || space_char(s[j]),
    ensures
        tokens_from(s, i) == seq![s.subrange(i, j)] + tokens_from(s, j),
    decreases j - i,
{
    if i + 1 == j {
        assert(s.subrange(i, j) =~= seq![s[i]]);
    } else {
        lemma_tokens_split(s, i + 1, j);
        let rest = tokens_from(s, i + 1);
        assert(seq![s[i]] + s.subrange(i + 1, j) =~= s.subrange(i, j));
        assert(rest.update(0, seq![s[i]] + rest[0]) =~= seq![s.subrange(i, j)] + tokens_from(
            s,
            j,
        ));
    }
}

/// Leading whitespace does not change the words.
proof fn lemma_tokens_skip_space(s: Seq<char>, i: int)
    requires
        0 <= i <= s.len(),
    ensures
        tokens_from(s, i) == tokens_from(s, space_end(s, i)),
    decreases s.len() - i,
{
    if i < s.len() && space_char(s[i]) {
        lemma_tokens_skip_space(s, i + 1);
    }
}

/// The lines of `s`, as `str::lines` gives them.
pub fn split_lines(s: &str) -> (r: Vec<String>)
    ensures
        r@.len() == lines(s@).len(),
        forall|k: int| 0 <= k < r@.len() ==> #[trigger] r@[k]@ == lines(s@)[k],
{
    let cs = chars_of(s);
    let n = cs.len();
    let mut out: Vec<String> = Vec::new();
    let mut p: usize = 0;
    let ghost raw = raw_lines(s@, 0);
    let ghost mut done: Seq<Seq<char>> = Seq::empty();
    while p < n
        invariant
            cs@ == s@,
            n == s@.len(),
            p <= n,
            raw == raw_lines(s@, 0),
            raw == done + raw_lines(s@, p as int),
            out@.len() == done.len(),
            forall|k: int| 0 <= k < out@.len() ==> #[trigger] out@[k]@ == lines(s@)[k],
        decreases n - p,
    {
        let mut j = p;
        while j < n && cs[j] != '\n'
            invariant
                cs@ == s@,
                n == s@.len(),
                p <= j <= n,
                forall|k: int| p <= k < j ==> s@[k] != '\n',
            decreases n - j,
        {
            j = j + 1;
        }
        proof {
            lemma_raw_lines_split(s@, p as int, j as int);
            if j + 1 < n {
                lemma_raw_lines_nonempty(s@, j + 1);
            }
        }
        let k = out.len();
        let line = if j < n {
            let end = if j > p && cs[j - 1] == '\r' {
                j - 1
            } else {
                j
            };
            assert(s@.subrange(p as int, end as int) == strip_cr(s@.subrange(p as int, j as int)))
                by {
                if j > p && s@[j - 1] == '\r' {
                    assert(s@.subrange(p as int, end as int) =~= s@.subrange(
                        p as int,
                        j as int,
                    ).drop_last());
                }
            };
            substring(s, p, end)
        } else {
            substring(s, p, n)
        };
        proof {
            let d2 = done.push(s@.subrange(p as int, j as int));
            if j < n {
                assert(raw =~= d2 + raw_lines(s@, j + 1));
            } else {
                assert(raw =~= d2);
            }
            assert(raw[k as int] == s@.subrange(p as int, j as int));
            done = d2;
        }
        out.push(line);
        p = if j < n {
            j + 1
        } else {
            n
        };
    }
    proof {
        assert(raw =~= done);
    }
    out
}

/// The whitespace-separated words of `s`, as `str::split_whitespace` gives them.
pub fn split_tokens(s: &str) -> (r: Vec<String>)
    ensures
        r@.len() == tokens(s@).len(),
        forall|k: int| 0 <= k < r@.len() ==> #[trigger] r@[k]@ == tokens(s@)[k],
{
    let cs = chars_of(s);
    let n = cs.len();
    let mut out: Vec<String> = Vec::new();
    let mut p: usize = 0;
    let ghost mut done: Seq<Seq<char>> = Seq::empty();
    while p < n
        invariant
            cs@ == s@,
            n == s@.len(),
            p <= n,
            tokens(s@) == done + tokens_from(s@, p as int),
            out@.len() == done.len(),
            forall|k: int| 0 <= k < out@.len() ==> #[trigger] out@[k]@ == done[k],
        decreases n - p,
    {
        let a = skip_spaces(&cs, p);
        proof {
            lemma_tokens_skip_space(s@, p as int);
            lemma_space_end_bounds(s@, p as int);
        }
        if a < n {
            let b = skip_token(&cs, a);
            proof {
                lemma_token_end_bounds(s@, a as int);
                lemma_tokens_split(s@, a as int, b as int);
                let d2 = done.push(s@.subrange(a as int, b as int));
                assert(tokens(s@) =~= d2 + tokens_from(s@, b as int));
                done = d2;
            }
            out.push(substring(s, a, b));
            p = b;
        } else {
            p = n;
        }
    }
    proof {
        assert(done =~= tokens(s@));
    }
    out
}

/// `s` without leading and trailing whitespace, as `str::trim` gives it.
pub fn trim_text(s: &str) -> (r: String)
    ensures
        r@ == trim(s@),
{
    let cs = chars_of(s);
    let n = cs.len();
    let a = skip_spaces(&cs, 0);
    proof {
        lemma_space_end_bounds(s@, 0);
    }
    if a >= n {
        return String::new();
    }
    let mut e = n;
    while e > a && is_space(cs[e - 1])
        invariant
            cs@ == s@,
            n == s@.len(),
            a < n,
            a < e <= n,
            !space_char(s@[a as int]),
            trimmed_end(s@, n as int) == trimmed_end(s@, e as int),
        decreases e,
    {
        e = e - 1;
    }
    substring(s, a, e)
}

/// `cs` starts with `p`.
pub fn starts_with_chars(cs: &Vec<char>, p: &Vec<char>) -> (r: bool)
    ensures
        r == has_prefix(cs@, p@),
{
    if p.len() > cs.len() {
        return false;
    }
    let mut i: usize = 0;
    while i < p.len()
        invariant
            p@.len() <= cs@.len(),
            i <= p@.len(),
            forall|k: int| 0 <= k < i ==> cs@[k] == p@[k],
        decreases p@.len() - i,
    {
        if cs[i] != p[i] {
            assert(cs@.subrange(0, p@.len() as int)[i as int] != p@[i as int]);
            return false;
        }
        i = i + 1;
    }
    assert(cs@.subrange(0, p@.len() as int) =~= p@);
    true
}

/// `cs` ends with `p`.
pub fn ends_with_chars(cs: &Vec<char>, p: &Vec<char>) -> (r: bool)
    ensures
        r == has_suffix(cs@, p@),
{
    if p.len() > cs.len() {
        return false;
    }
    let total = cs.len();
    let off = total - p.len();
    let mut i: usize = 0;
    while i < p.len()
        invariant
            total == cs@.len(),
            p@.len() <= cs@.len(),
            off == cs@.len() - p@.len(),
            off + p@.len() == cs@.len(),
            i <= p@.len(),
            forall|k: int| 0 <= k < i ==> cs@[off + k] == p@[k],
        decreases p@.len() - i,
    {
        if cs[off + i] != p[i] {
            assert(cs@.subrange(off as int, cs@.len() as int)[i as int] != p@[i as int]);
            return false;
        }
        i = i + 1;
    }
    assert(cs@.subrange(off as int, cs@.len() as int) =~= p@);
    true
}

} // verus!
