//! The line parser: turns one raw text line of the shape
//! `[<RFC 3339 timestamp>] [<level>] [<location>] <message...>` into a typed
//! record, and splits whole file contents into lines.
//!
//! Malformed input is handled fail-fast: the first line that does not match
//! the expected shape (fewer than three bracket-delimited tokens, or an
//! unparseable timestamp) fails the whole scan with a `Format` error that
//! carries the offending line. Empty lines are skipped and produce no row.
use vstd::prelude::*;
use vstd::string::*;

use crate::DataFusionLogError;

verus! {

/// A separator for tokenization: lines are split on brackets and spaces,
/// and empty tokens are discarded.
pub open spec fn is_sep(c: char) -> bool {
    c == '[' || c == ']' || c == ' '
}

/// The tokens of `s` that remain to be produced, given that the
/// characters of `cur` have already been read as the start of a token.
pub open spec fn tokens_acc(s: Seq<char>, cur: Seq<char>) -> Seq<Seq<char>>
    decreases s.len(),
{
    if s.len() == 0 {
        if cur.len() == 0 {
            Seq::empty()
        } else {
            seq![cur]
        }
    } else if is_sep(s[0]) {
        if cur.len() == 0 {
            tokens_acc(s.drop_first(), Seq::empty())
        } else {
            seq![cur] + tokens_acc(s.drop_first(), Seq::empty())
        }
    } else {
        tokens_acc(s.drop_first(), cur.push(s[0]))
    }
}

/// The ordered list of maximal runs of non-separator characters of `s`.
pub open spec fn tokens_of(s: Seq<char>) -> Seq<Seq<char>> {
    tokens_acc(s, Seq::empty())
}

/// The views of a sequence of owned strings.
pub open spec fn views_of(ts: Seq<String>) -> Seq<Seq<char>> {
    ts.map_values(|t: String| t@)
}

proof fn lemma_views_of_push(ts: Seq<String>, t: String)
    ensures
        views_of(ts.push(t)) == views_of(ts).push(t@),
{
    assert(views_of(ts.push(t)) =~= views_of(ts).push(t@));
}

/// Executable check for a separator character.
fn is_sep_char(c: char) -> (r: bool)
    ensures
        r == is_sep(c),
{
    c == '[' || c == ']' || c == ' '
}

/// Splits `line` on `[`, `]` and space, discarding empty tokens.
pub fn tokenize(line: &str) -> (toks: Vec<String>)
    ensures
        views_of(toks@) == tokens_of(line@),
{
    let n = line.unicode_len();
    let mut toks: Vec<String> = Vec::new();
    let mut start: Option<usize> = None;
    let mut i: usize = 0;
    proof {
        assert(line@.skip(0) =~= line@);
        assert(views_of(Seq::<String>::empty()) + tokens_acc(line@, Seq::empty()) =~= tokens_acc(
            line@,
            Seq::empty(),
        ));
    }
    while i < n
        invariant
            n == line@.len(),
            i <= n,
            match start {
                Option::None => tokens_of(line@) == views_of(toks@) + tokens_acc(
                    line@.skip(i as int),
                    Seq::empty(),
                ),
                Option::Some(st) => st < i && tokens_of(line@) == views_of(toks@) + tokens_acc(
                    line@.skip(i as int),
                    line@.subrange(st as int, i as int),
                ),
            },
        decreases n - i,
    {
        let c = line.get_char(i);
        proof {
            assert(line@.skip(i as int)[0] == line@[i as int]);
            assert(line@.skip(i as int).drop_first() =~= line@.skip(i + 1));
        }
        if is_sep_char(c) {
            match start {
                Option::None => {
                    proof {
                        assert(tokens_acc(line@.skip(i as int), Seq::empty()) == tokens_acc(
                            line@.skip(i + 1),
                            Seq::empty(),
                        ));
                    }
                },
                Option::Some(st) => {
                    let ghost cur = line@.subrange(st as int, i as int);
                    let tok = line.substring_char(st, i).to_owned();
                    proof {
                        assert(cur.len() > 0);
                        assert(tokens_acc(line@.skip(i as int), cur) == seq![cur] + tokens_acc(
                            line@.skip(i + 1),
                            Seq::empty(),
                        ));
                        lemma_views_of_push(toks@, tok);
                        assert(views_of(toks@).push(tok@) + tokens_acc(line@.skip(i + 1), Seq::empty())
                            =~= views_of(toks@) + (seq![cur] + tokens_acc(
                            line@.skip(i + 1),
                            Seq::empty(),
                        )));
                    }
                    toks.push(tok);
                    start = None;
                },
            }
        } else {
            match start {
                Option::None => {
                    proof {
                        assert(Seq::<char>::empty().push(line@[i as int]) =~= line@.subrange(
                            i as int,
                            i + 1,
                        ));
                    }
                    start = Some(i);
                },
                Option::Some(st) => {
                    proof {
                        assert(line@.subrange(st as int, i as int).push(line@[i as int])
                            =~= line@.subrange(st as int, i + 1));
                    }
                },
            }
        }
        i = i + 1;
    }
    proof {
        assert(line@.skip(n as int) =~= Seq::<char>::empty());
    }
    match start {
        Option::None => {
            proof {
                assert(views_of(toks@) + tokens_acc(Seq::empty(), Seq::<char>::empty())
                    =~= views_of(toks@));
            }
        },
        Option::Some(st) => {
            let ghost cur = line@.subrange(st as int, n as int);
            let tok = line.substring_char(st, n).to_owned();
            proof {
                assert(tokens_acc(Seq::empty(), cur) == seq![cur]);
                lemma_views_of_push(toks@, tok);
                assert(views_of(toks@).push(tok@) =~= views_of(toks@) + seq![cur]);
            }
            toks.push(tok);
        },
    }
    toks
}

/// One trailing carriage return is stripped from a newline-terminated
/// line, so that files with CRLF line endings parse as LF files do. A
/// final line that no newline terminates keeps a bare trailing `\r`.
pub open spec fn strip_cr(l: Seq<char>) -> Seq<char> {
    if l.len() > 0 && l[l.len() - 1] == '\r' {
        l.drop_last()
    } else {
        l
    }
}

/// The lines of `s` that remain to be produced, given that the characters
/// of `cur` have already been read as the start of the current line.
pub open spec fn lines_acc(s: Seq<char>, cur: Seq<char>) -> Seq<Seq<char>>
    decreases s.len(),
{
    if s.len() == 0 {
        if cur.len() == 0 {
            Seq::empty()
        } else {
            seq![cur]
        }
    } else if s[0] == '\n' {
        seq![strip_cr(cur)] + lines_acc(s.drop_first(), Seq::empty())
    } else {
        lines_acc(s.drop_first(), cur.push(s[0]))
    }
}

/// The newline-delimited lines of `s`. A final line ending is optional and
/// produces no empty last line.
pub open spec fn lines_of(s: Seq<char>) -> Seq<Seq<char>> {
    lines_acc(s, Seq::empty())
}

/// Splits file contents into lines at `\n`, stripping one trailing `\r`
/// from each newline-terminated line.
pub fn split_lines(contents: &str) -> (lines: Vec<String>)
    ensures
        views_of(lines@) == lines_of(contents@),
{
    let n = contents.unicode_len();
    let mut lines: Vec<String> = Vec::new();
    let mut start: usize = 0;
    let mut i: usize = 0;
    proof {
        assert(contents@.skip(0) =~= contents@);
        assert(contents@.subrange(0, 0) =~= Seq::<char>::empty());
        assert(views_of(Seq::<String>::empty()) + lines_acc(contents@, Seq::empty())
            =~= lines_acc(contents@, Seq::empty()));
    }
    while i < n
        invariant
            n == contents@.len(),
            start <= i <= n,
            lines_of(contents@) == views_of(lines@) + lines_acc(
                contents@.skip(i as int),
                contents@.subrange(start as int, i as int),
            ),
        decreases n - i,
    {
        let c = contents.get_char(i);
        proof {
            assert(contents@.skip(i as int)[0] == contents@[i as int]);
            assert(contents@.skip(i as int).drop_first() =~= contents@.skip(i + 1));
        }
        if c == '\n' {
            let ghost cur = contents@.subrange(start as int, i as int);
            let seg_end: usize = if i > start && contents.get_char(i - 1) == '\r' {
                i - 1
            } else {
                i
            };
            let l = contents.substring_char(start, seg_end).to_owned();
            proof {
                assert(contents@.subrange(start as int, seg_end as int) =~= strip_cr(cur));
                assert(lines_acc(contents@.skip(i as int), cur) == seq![strip_cr(cur)] + lines_acc(
                    contents@.skip(i + 1),
                    Seq::empty(),
                ));
                lemma_views_of_push(lines@, l);
                assert(views_of(lines@).push(l@) + lines_acc(contents@.skip(i + 1), Seq::empty())
                    =~= views_of(lines@) + (seq![strip_cr(cur)] + lines_acc(
                    contents@.skip(i + 1),
                    Seq::empty(),
                )));
                assert(contents@.subrange(i + 1, i + 1) =~= Seq::<char>::empty());
            }
            lines.push(l);
            start = i + 1;
        } else {
            proof {
                assert(contents@.subrange(start as int, i as int).push(contents@[i as int])
                    =~= contents@.subrange(start as int, i + 1));
            }
        }
        i = i + 1;
    }
    proof {
        assert(contents@.skip(n as int) =~= Seq::<char>::empty());
    }
    if start < n {
        let ghost cur = contents@.subrange(start as int, n as int);
        let l = contents.substring_char(start, n).to_owned();
        proof {
            assert(lines_acc(Seq::empty(), cur) == seq![cur]);
            lemma_views_of_push(lines@, l);
            assert(views_of(lines@).push(l@) =~= views_of(lines@) + seq![cur]);
        }
        lines.push(l);
    } else {
        proof {
            assert(views_of(lines@) + lines_acc(Seq::empty(), Seq::<char>::empty())
                =~= views_of(lines@));
        }
    }
    lines
}

/// The index of the first occurrence of `t` as a contiguous run of
/// characters inside `s`, if there is one.
pub open spec fn spec_find(s: Seq<char>, t: Seq<char>) -> Option<int>
    decreases s.len(),
{
    if t.len() > s.len() {
        None
    } else if s.len() == 0 {
        Some(0)
    } else if s.subrange(0, t.len() as int) == t {
        Some(0)
    } else {
        match spec_find(s.drop_first(), t) {
            Some(p) => Some(p + 1),
            None => None,
        }
    }
}

/// `o` with its payload shifted by `k`.
spec fn shift_opt(o: Option<int>, k: int) -> Option<int> {
    match o {
        Some(q) => Some(q + k),
        None => None,
    }
}

/// Finds the first occurrence of `needle` in `hay`, by characters.
pub fn find_first(hay: &str, needle: &str) -> (r: Option<usize>)
    ensures
        match r {
            Some(p) => p + needle@.len() <= hay@.len() && spec_find(hay@, needle@) == Some(
                p as int,
            ),
            None => spec_find(hay@, needle@) is None,
        },
{
    let n = hay.unicode_len();
    let m = needle.unicode_len();
    if m > n {
        return None;
    }
    if m == 0 {
        proof {
            assert(hay@.subrange(0, 0) =~= needle@);
        }
        return Some(0);
    }
    let mut p: usize = 0;
    proof {
        assert(hay@.skip(0) =~= hay@);
        assert(shift_opt(spec_find(hay@, needle@), 0) == spec_find(hay@, needle@));
    }
    loop
        invariant
            n == hay@.len(),
            m == needle@.len(),
            1 <= m <= n,
            p <= n - m + 1,
            spec_find(hay@, needle@) == shift_opt(
                spec_find(hay@.skip(p as int), needle@),
                p as int,
            ),
        decreases n - p,
    {
        if p > n - m {
            proof {
                assert(hay@.skip(p as int).len() < m);
            }
            return None;
        }
        let mut j: usize = 0;
        let mut matched = true;
        while j < m && matched
            invariant
                n == hay@.len(),
                m == needle@.len(),
                p + m <= n,
                j <= m,
                matched ==> forall|k: int| 0 <= k < j ==> hay@[p + k] == needle@[k],
                !matched ==> j < m && hay@[p + j] != needle@[j as int],
            decreases m - j, (if matched { 1int } else { 0int }),
        {
            if hay.get_char(p + j) != needle.get_char(j) {
                matched = false;
            } else {
                j = j + 1;
            }
        }
        proof {
            assert(hay@.skip(p as int).subrange(0, m as int) =~= hay@.subrange(
                p as int,
                p + m,
            ));
        }
        if matched {
            proof {
                assert(hay@.subrange(p as int, p + m) =~= needle@);
                assert(spec_find(hay@.skip(p as int), needle@) == Some(0int));
            }
            return Some(p);
        }
        proof {
            assert(hay@.subrange(p as int, p + m)[j as int] != needle@[j as int]);
            assert(hay@.skip(p as int).subrange(0, m as int) != needle@);
            assert(m > 0);
            assert(hay@.skip(p as int).drop_first() =~= hay@.skip(p + 1));
            assert(spec_find(hay@.skip(p as int), needle@) == shift_opt(
                spec_find(hay@.skip(p + 1), needle@),
                1,
            ));
        }
        p = p + 1;
    }
}

/// The result of chrono's relaxed RFC 3339 parse on the characters of a
/// string, converted to microseconds since the Unix epoch in UTC; nothing
/// when the string is not a valid timestamp. The result depends on the
/// characters alone.
pub uninterp spec fn rfc3339_micros(s: Seq<char>) -> Option<i64>;

/// Relies on chrono's `str::parse::<DateTime<Utc>>` (a relaxed RFC 3339
/// parse whose result depends on the characters alone) and on
/// `DateTime::timestamp_micros` to convert the parsed instant to
/// microseconds since the Unix epoch.
#[verifier::external_body]
fn parse_rfc3339_micros(s: &str) -> (r: Option<i64>)
    ensures
        r == rfc3339_micros(s@),
{
    match s.parse::<chrono::DateTime<chrono::Utc>>() {
        Ok(dt) => Some(dt.timestamp_micros()),
        Err(_) => None,
    }
}

/// The mathematical model of one parsed record.
pub struct RecordModel {
    pub time_micros: i64,
    pub level: Seq<char>,
    pub location: Seq<char>,
    pub message: Seq<char>,
}

/// The typed decomposition of one raw line: a timestamp in microseconds
/// since the Unix epoch, a level, a location and the free-text message.
#[derive(Debug, PartialEq, Eq)]
pub struct LogRecord {
    pub time_micros: i64,
    pub level: String,
    pub location: String,
    pub message: String,
}

impl View for LogRecord {
    type V = RecordModel;

    open spec fn view(&self) -> RecordModel {
        RecordModel {
            time_micros: self.time_micros,
            level: self.level@,
            location: self.location@,
            message: self.message@,
        }
    }
}

/// The message of `line`: everything after the first occurrence of the
/// location token, its closing bracket and the following space. When the
/// location text recurs earlier in the line (inside the timestamp or the
/// level), the split lands at that earlier occurrence: a documented
/// limitation of the format, kept rather than silently corrected.
pub open spec fn spec_message_of(line: Seq<char>) -> Seq<char> {
    let loc = tokens_of(line)[2];
    match spec_find(line, loc) {
        Some(p) => if p + loc.len() + 2 <= line.len() {
            line.skip(p + loc.len() + 2)
        } else {
            Seq::empty()
        },
        None => Seq::empty(),
    }
}

/// The parse of one line; `None` stands for a format failure: fewer than
/// three bracket-delimited tokens, or a timestamp chrono rejects.
pub open spec fn spec_parse_line(line: Seq<char>) -> Option<RecordModel> {
    let toks = tokens_of(line);
    if toks.len() < 3 {
        None
    } else {
        match rfc3339_micros(toks[0]) {
            Some(t) => Some(
                RecordModel {
                    time_micros: t,
                    level: toks[1],
                    location: toks[2],
                    message: spec_message_of(line),
                },
            ),
            None => None,
        }
    }
}

/// Parses one line of the shape
/// `[<timestamp>] [<level>] [<location>] <message...>`.
pub fn parse_line(line: &str) -> (r: Result<LogRecord, DataFusionLogError>)
    ensures
        r matches Ok(rec) ==> spec_parse_line(line@) == Some(rec@),
        r matches Err(e) ==> spec_parse_line(line@) is None && (e matches
            DataFusionLogError::Format { line: l } && l@ == line@),
        r is Ok <==> spec_parse_line(line@) is Some,
{
    let toks = tokenize(line);
    proof {
        assert(toks@.len() == tokens_of(line@).len());
        assert(forall|k: int| 0 <= k < toks@.len() ==> toks@[k]@ == tokens_of(line@)[k]);
    }
    if toks.len() < 3 {
        return Err(DataFusionLogError::Format { line: line.to_owned() });
    }
    let ts = parse_rfc3339_micros(toks[0].as_str());
    match ts {
        None => Err(DataFusionLogError::Format { line: line.to_owned() }),
        Some(t) => {
            let n = line.unicode_len();
            let loc = toks[2].as_str();
            let loc_len = loc.unicode_len();
            let message: String = match find_first(line, loc) {
                Some(p) => {
                    if n - (p + loc_len) >= 2 {
                        proof {
                            assert(line@.skip(p + loc_len + 2) =~= line@.subrange(
                                p + loc_len + 2,
                                n as int,
                            ));
                        }
                        line.substring_char(p + loc_len + 2, n).to_owned()
                    } else {
                        String::new()
                    }
                },
                None => String::new(),
            };
            proof {
                assert(message@ =~= spec_message_of(line@));
            }
            Ok(
                LogRecord {
                    time_micros: t,
                    level: toks[1].clone(),
                    location: toks[2].clone(),
                    message,
                },
            )
        },
    }
}

/// The models of a sequence of records.
pub open spec fn record_views(rs: Seq<LogRecord>) -> Seq<RecordModel> {
    rs.map_values(|r: LogRecord| r@)
}

/// The records of the first `n` lines of `ls`, or the index of the first
/// line among them that fails to parse. Empty lines are skipped and
/// produce no record; the first malformed non-empty line fails the whole
/// parse (the fail-fast policy).
pub open spec fn spec_parse_lines(ls: Seq<Seq<char>>, n: int) -> Result<Seq<RecordModel>, int>
    decreases n,
{
    if n <= 0 {
        Ok(Seq::empty())
    } else {
        match spec_parse_lines(ls, n - 1) {
            Err(i) => Err(i),
            Ok(rs) => {
                if ls[n - 1].len() == 0 {
                    Ok(rs)
                } else {
                    match spec_parse_line(ls[n - 1]) {
                        Some(r) => Ok(rs.push(r)),
                        None => Err(n - 1),
                    }
                }
            },
        }
    }
}

/// The parse of whole file contents: the records of every non-empty line
/// in order, or the index of the first malformed line.
pub open spec fn spec_parse_text(s: Seq<char>) -> Result<Seq<RecordModel>, int> {
    spec_parse_lines(lines_of(s), lines_of(s).len() as int)
}

proof fn lemma_parse_lines_err_persists(ls: Seq<Seq<char>>, m: int, n: int)
    requires
        0 <= m <= n,
        spec_parse_lines(ls, m) is Err,
    ensures
        spec_parse_lines(ls, n) == spec_parse_lines(ls, m),
    decreases n - m,
{
    if n > m {
        lemma_parse_lines_err_persists(ls, m, n - 1);
    }
}

/// Parses every line of `contents`, skipping empty lines and failing fast
/// on the first malformed one.
pub fn parse_text(contents: &str) -> (r: Result<Vec<LogRecord>, DataFusionLogError>)
    ensures
        r matches Ok(recs) ==> spec_parse_text(contents@) == Ok::<_, int>(record_views(recs@)),
        r matches Err(e) ==> (spec_parse_text(contents@) matches Err(i) && (e matches
            DataFusionLogError::Format { line: l } && l@ == lines_of(contents@)[i])),
        r is Ok <==> spec_parse_text(contents@) is Ok,
{
    let lines = split_lines(contents);
    let ghost ls = lines_of(contents@);
    let mut recs: Vec<LogRecord> = Vec::new();
    let mut i: usize = 0;
    proof {
        assert(record_views(Seq::<LogRecord>::empty()) =~= Seq::<RecordModel>::empty());
    }
    while i < lines.len()
        invariant
            i <= lines@.len(),
            views_of(lines@) == ls,
            ls == lines_of(contents@),
            spec_parse_lines(ls, i as int) == Ok::<_, int>(record_views(recs@)),
        decreases lines@.len() - i,
    {
        proof {
            assert(lines@[i as int]@ == ls[i as int]);
        }
        let line = &lines[i];
        if !line.as_str().is_empty() {
            match parse_line(line.as_str()) {
                Ok(rec) => {
                    proof {
                        assert(record_views(recs@.push(rec)) =~= record_views(recs@).push(rec@));
                    }
                    recs.push(rec);
                },
                Err(e) => {
                    proof {
                        assert(spec_parse_lines(ls, i + 1) == Err::<Seq<RecordModel>, int>(i as int));
                        lemma_parse_lines_err_persists(ls, i + 1, ls.len() as int);
                    }
                    return Err(e);
                },
            }
        }
        i = i + 1;
    }
    Ok(recs)
}

/// How many of the first `n` lines are non-empty.
pub open spec fn count_nonempty_prefix(ls: Seq<Seq<char>>, n: int) -> nat
    decreases n,
{
    if n <= 0 {
        0
    } else {
        count_nonempty_prefix(ls, n - 1) + (if ls[n - 1].len() == 0 {
            0nat
        } else {
            1nat
        })
    }
}

/// How many lines are non-empty.
pub open spec fn count_nonempty(ls: Seq<Seq<char>>) -> nat {
    count_nonempty_prefix(ls, ls.len() as int)
}

proof fn lemma_rows_prefix(ls: Seq<Seq<char>>, n: int)
    requires
        0 <= n,
    ensures
        spec_parse_lines(ls, n) matches Ok(rs) ==> rs.len() == count_nonempty_prefix(ls, n),
    decreases n,
{
    if n > 0 {
        lemma_rows_prefix(ls, n - 1);
    }
}

/// Law: on well-formed contents, the row count of the parse equals the
/// number of non-empty lines of the text.
pub proof fn lemma_rows_are_nonempty_lines(text: Seq<char>)
    ensures
        spec_parse_text(text) matches Ok(rs) ==> rs.len() == count_nonempty(lines_of(text)),
{
    lemma_rows_prefix(lines_of(text), lines_of(text).len() as int);
}

/// Law: a line with fewer than three bracket-delimited tokens is rejected
/// as a format failure.
pub proof fn lemma_short_line_rejected(line: Seq<char>)
    requires
        tokens_of(line).len() < 3,
    ensures
        spec_parse_line(line) is None,
{
}

} // verus!
