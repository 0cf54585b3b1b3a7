//! The log of the backup synchronisation: how its text splits into lines,
//! what each line says, and what the lines add up to.

use crate::models::SyncLog;
use crate::text::{
    contains_text, find_char, find_text, first_index, lemma_first_index, lemma_text_stop,
    occurs_at, string_of, text_stop, to_chars, trim_bounds, trimmed,
};
use vstd::prelude::*;

verus! {

/// A line of the log as mathematical values.
pub struct SyncLogView {
    pub timestamp: Seq<char>,
    pub message: Seq<char>,
    pub level: Seq<char>,
}

impl View for SyncLog {
    type V = SyncLogView;

    open spec fn view(&self) -> SyncLogView {
        SyncLogView { timestamp: self.timestamp@, message: self.message@, level: self.level@ }
    }
}

/// What a list of log lines holds, as mathematical values.
pub open spec fn log_views(logs: Seq<SyncLog>) -> Seq<SyncLogView> {
    Seq::new(logs.len(), |i: int| logs[i]@)
}

/// The pieces into which the line feeds cut the text `s`: the text between
/// one line feed and the next, the last piece being what follows the last
/// line feed.
pub open spec fn pieces(s: Seq<char>) -> Seq<Seq<char>>
    decreases s.len(),
{
    if s.len() == 0 {
        seq![Seq::empty()]
    } else if s.last() == '\n' {
        pieces(s.drop_last()).push(Seq::empty())
    } else {
        let before = pieces(s.drop_last());
        before.drop_last().push(before.last().push(s.last()))
    }
}

/// The piece `piece` as a line: without the carriage return at its end, if
/// it has one.
pub open spec fn chomp(piece: Seq<char>) -> Seq<char> {
    if piece.len() > 0 && piece.last() == '\r' {
        piece.drop_last()
    } else {
        piece
    }
}

/// The lines of the text `s`. A line ends with a line feed, or with a
/// carriage return and a line feed, which do not belong to it; what follows
/// the last line feed is a line too, unless it is empty.
pub open spec fn lines_of(s: Seq<char>) -> Seq<Seq<char>> {
    let cut = pieces(s);
    let ended = Seq::new((cut.len() - 1) as nat, |i: int| chomp(cut[i]));
    if cut.last().len() == 0 {
        ended
    } else {
        ended.push(cut.last())
    }
}

/// The text between the first occurrence of `mark` in `line` and the next,
/// or the end of the line.
pub open spec fn piece_after(line: Seq<char>, mark: Seq<char>) -> Seq<char> {
    let rest = line.skip(text_stop(line, mark) + mark.len());
    rest.take(text_stop(rest, mark))
}

/// What the line `line` of the log says.
///
/// A line of the form `[time] [level] message` gives its three parts; where
/// the level is not closed, the level is `INFO` and the message the whole
/// line. A line that does not begin with `[` is searched for the marks
/// `INFO :`, `ERROR :` and `NOTICE:`, in this order: the first that occurs
/// gives the level, and the message is what follows it up to its next
/// occurrence. Any other line is a message of level `INFO`. The message is
/// always taken without the white space around it.
pub open spec fn parsed_line(line: Seq<char>) -> SyncLogView {
    if line.len() > 0 && line[0] == '[' {
        let time_end = text_stop(line, "] ["@);
        if time_end < line.len() {
            let rest = line.skip(time_end + "] ["@.len());
            let level_end = first_index(rest, ']');
            if level_end < rest.len() {
                SyncLogView {
                    timestamp: line.subrange(1, time_end),
                    message: trimmed(
                        rest.skip(
                            if level_end + 2 <= rest.len() {
                                level_end + 2
                            } else {
                                rest.len() as int
                            },
                        ),
                    ),
                    level: rest.take(level_end),
                }
            } else {
                SyncLogView {
                    timestamp: line.subrange(1, time_end),
                    message: trimmed(line),
                    level: "INFO"@,
                }
            }
        } else {
            SyncLogView { timestamp: Seq::empty(), message: trimmed(line), level: "INFO"@ }
        }
    } else if text_stop(line, "INFO :"@) < line.len() {
        SyncLogView {
            timestamp: Seq::empty(),
            message: trimmed(piece_after(line, "INFO :"@)),
            level: "INFO"@,
        }
    } else if text_stop(line, "ERROR :"@) < line.len() {
        SyncLogView {
            timestamp: Seq::empty(),
            message: trimmed(piece_after(line, "ERROR :"@)),
            level: "ERROR"@,
        }
    } else if text_stop(line, "NOTICE:"@) < line.len() {
        SyncLogView {
            timestamp: Seq::empty(),
            message: trimmed(piece_after(line, "NOTICE:"@)),
            level: "NOTICE"@,
        }
    } else {
        SyncLogView { timestamp: Seq::empty(), message: trimmed(line), level: "INFO"@ }
    }
}

/// The string of `v[from..to]` without the white space around it.
fn trimmed_string(v: &Vec<char>, from: usize, to: usize) -> (s: String)
    requires
        from <= to <= v.len(),
    ensures
        s@ == trimmed(v@.subrange(from as int, to as int)),
{
    let (a, b) = trim_bounds(v, from, to);
    string_of(v, a, b)
}

/// The message of a line that holds `mark` at `at`, its first occurrence.
fn message_after(line: &Vec<char>, mark: &Vec<char>, at: usize) -> (message: String)
    requires
        at < line.len(),
        occurs_at(line@, mark@, at as int),
        text_stop(line@, mark@) == at,
    ensures
        message@ == trimmed(piece_after(line@, mark@)),
{
    let start: usize = at + mark.len();
    let end: usize = find_text(line, start, mark);
    proof {
        let rest = line@.skip(start as int);
        let stop = end - start;
        assert forall|j: int| 0 <= j < stop implies !occurs_at(rest, mark@, j) by {
            assert(!occurs_at(line@, mark@, start + j));
            if occurs_at(rest, mark@, j) {
                assert(rest.subrange(j, j + mark@.len()) =~= line@.subrange(
                    start + j,
                    start + j + mark@.len(),
                ));
            }
        }
        if stop < rest.len() {
            assert(rest.subrange(stop, stop + mark@.len()) =~= line@.subrange(
                end as int,
                end + mark@.len(),
            ));
        }
        lemma_text_stop(rest, mark@, stop);
        assert(rest.take(stop) =~= line@.subrange(start as int, end as int));
    }
    trimmed_string(line, start, end)
}

/// Reads what a line of the log says.
pub fn parse_sync_line(text: &str) -> (log: SyncLog)
    ensures
        log@ == parsed_line(text@),
{
    let line = to_chars(text);
    let n: usize = line.len();
    proof {
        assert(line@.subrange(0, n as int) =~= line@);
    }
    if n > 0 && line[0] == '[' {
        let mark = to_chars("] [");
        let time_end = find_text(&line, 0, &mark);
        proof {
            lemma_text_stop(line@, mark@, time_end as int);
        }
        if time_end < n {
            proof {
                reveal_strlit("] [");
                if time_end == 0 {
                    assert(line@.subrange(0, 3)[0] == mark@[0]);
                }
            }
            let start: usize = time_end + mark.len();
            let level_end = find_char(&line, start, ']');
            let ghost rest = line@.skip(start as int);
            proof {
                assert forall|j: int| 0 <= j < level_end - start implies rest[j] != ']' by {
                    assert(rest[j] == line@[start + j]);
                }
                lemma_first_index(rest, ']', level_end - start);
            }
            if level_end < n {
                let message_start: usize = if n - level_end >= 2 {
                    level_end + 2
                } else {
                    n
                };
                proof {
                    assert(rest.take(level_end - start) =~= line@.subrange(
                        start as int,
                        level_end as int,
                    ));
                    assert(rest.skip(message_start - start) =~= line@.subrange(
                        message_start as int,
                        n as int,
                    ));
                }
                return SyncLog {
                    timestamp: string_of(&line, 1, time_end),
                    message: trimmed_string(&line, message_start, n),
                    level: string_of(&line, start, level_end),
                };
            }
            return SyncLog {
                timestamp: string_of(&line, 1, time_end),
                message: trimmed_string(&line, 0, n),
                level: String::from_str("INFO"),
            };
        }
        return SyncLog {
            timestamp: String::new(),
            message: trimmed_string(&line, 0, n),
            level: String::from_str("INFO"),
        };
    }
    let info = to_chars("INFO :");
    let at = find_text(&line, 0, &info);
    proof {
        lemma_text_stop(line@, info@, at as int);
    }
    if at < n {
        return SyncLog {
            timestamp: String::new(),
            message: message_after(&line, &info, at),
            level: String::from_str("INFO"),
        };
    }
    let error = to_chars("ERROR :");
    let at = find_text(&line, 0, &error);
    proof {
        lemma_text_stop(line@, error@, at as int);
    }
    if at < n {
        return SyncLog {
            timestamp: String::new(),
            message: message_after(&line, &error, at),
            level: String::from_str("ERROR"),
        };
    }
    let notice = to_chars("NOTICE:");
    let at = find_text(&line, 0, &notice);
    proof {
        lemma_text_stop(line@, notice@, at as int);
    }
    if at < n {
        return SyncLog {
            timestamp: String::new(),
            message: message_after(&line, &notice, at),
            level: String::from_str("NOTICE"),
        };
    }
    SyncLog {
        timestamp: String::new(),
        message: trimmed_string(&line, 0, n),
        level: String::from_str("INFO"),
    }
}

/// The texts of a list of lines held as characters.
pub open spec fn line_texts(lines: Seq<Vec<char>>) -> Seq<Seq<char>> {
    Seq::new(lines.len(), |i: int| lines[i]@)
}

/// Splits the text `content` into its lines.
pub fn split_lines(content: &str) -> (lines: Vec<Vec<char>>)
    ensures
        line_texts(lines@) == lines_of(content@),
{
    let v = to_chars(content);
    let mut lines: Vec<Vec<char>> = Vec::new();
    let mut current: Vec<char> = Vec::new();
    let mut i: usize = 0;
    proof {
        assert(v@.take(0) =~= Seq::<char>::empty());
        assert(pieces(v@.take(0)) =~= seq![Seq::<char>::empty()]);
        assert(line_texts(lines@) =~= Seq::new(0nat, |k: int| chomp(pieces(v@.take(0))[k])));
    }
    while i < v.len()
        invariant
            i <= v.len(),
            v@ == content@,
            pieces(v@.take(i as int)).len() == lines@.len() + 1,
            pieces(v@.take(i as int)).last() == current@,
            line_texts(lines@) == Seq::new(
                lines@.len() as nat,
                |k: int| chomp(pieces(v@.take(i as int))[k]),
            ),
        decreases v.len() - i,
    {
        let ghost before = pieces(v@.take(i as int));
        let ghost next = v@.take(i + 1);
        proof {
            assert(next.drop_last() =~= v@.take(i as int));
            assert(next.last() == v@[i as int]);
        }
        let c: char = v[i];
        if c == '\n' {
            let ghost ended = line_texts(lines@);
            let n: usize = current.len();
            if n > 0 && current[n - 1] == '\r' {
                current.pop();
                assert(current@ =~= chomp(before.last()));
            }
            let ghost finished = current@;
            assert(finished == chomp(before.last()));
            lines.push(current);
            current = Vec::new();
            proof {
                let after = pieces(next);
                assert(after == before.push(Seq::<char>::empty()));
                assert forall|k: int| 0 <= k < lines@.len() implies line_texts(lines@)[k]
                    == chomp(after[k]) by {
                    if k < lines@.len() - 1 {
                        assert(ended[k] == chomp(before[k]));
                        assert(after[k] == before[k]);
                    } else {
                        assert(after[k] == before.last());
                    }
                }
                assert(line_texts(lines@) =~= Seq::new(
                    lines@.len() as nat,
                    |k: int| chomp(after[k]),
                ));
            }
        } else {
            let ghost ended = line_texts(lines@);
            current.push(c);
            proof {
                let after = pieces(next);
                assert(after == before.drop_last().push(before.last().push(c)));
                assert forall|k: int| 0 <= k < lines@.len() implies line_texts(lines@)[k]
                    == chomp(after[k]) by {
                    assert(ended[k] == chomp(before[k]));
                    assert(after[k] == before[k]);
                }
                assert(line_texts(lines@) =~= Seq::new(
                    lines@.len() as nat,
                    |k: int| chomp(after[k]),
                ));
            }
        }
        i += 1;
    }
    proof {
        assert(v@.take(v@.len() as int) =~= v@);
    }
    let ghost ended = line_texts(lines@);
    if current.len() > 0 {
        lines.push(current);
        assert(line_texts(lines@) =~= ended.push(pieces(content@).last()));
    }
    lines
}

/// What the last `limit` lines of the log `content` say, the last line
/// first.
pub open spec fn latest_logs(content: Seq<char>, limit: nat) -> Seq<SyncLogView> {
    let lines = lines_of(content);
    let count = if limit < lines.len() {
        limit
    } else {
        lines.len()
    };
    Seq::new(count, |k: int| parsed_line(lines[lines.len() - 1 - k]))
}

/// Reads the last `limit` lines of the log `content`, the last line first.
pub fn read_sync_logs(content: &str, limit: usize) -> (logs: Vec<SyncLog>)
    ensures
        log_views(logs@) == latest_logs(content@, limit as nat),
{
    let lines = split_lines(content);
    let n: usize = lines.len();
    let count: usize = if limit < n {
        limit
    } else {
        n
    };
    let mut logs: Vec<SyncLog> = Vec::new();
    let mut k: usize = 0;
    while k < count
        invariant
            k <= count <= n,
            n == lines@.len(),
            line_texts(lines@) == lines_of(content@),
            logs@.len() == k,
            forall|m: int|
                0 <= m < k ==> (#[trigger] logs@[m])@ == parsed_line(
                    lines_of(content@)[n - 1 - m],
                ),
        decreases count - k,
    {
        let text = string_of(&lines[n - 1 - k], 0, lines[n - 1 - k].len());
        proof {
            let line = lines@[n - 1 - k];
            assert(line@.subrange(0, line@.len() as int) =~= line@);
            assert(line_texts(lines@)[n - 1 - k] == line@);
        }
        logs.push(parse_sync_line(text.as_str()));
        k += 1;
    }
    assert(log_views(logs@) =~= latest_logs(content@, limit as nat));
    logs
}

/// The number of lines among `lines` that hold one of the marks of a copied
/// file, `Copied (new)` and `Copied (replaced`.
pub open spec fn copied_lines(lines: Seq<Seq<char>>) -> nat
    decreases lines.len(),
{
    if lines.len() == 0 {
        0
    } else {
        copied_lines(lines.drop_last()) + if contains_text(lines.last(), "Copied (new)"@)
            || contains_text(lines.last(), "Copied (replaced"@) {
            1nat
        } else {
            0nat
        }
    }
}

/// The number of lines among `lines` that hold the mark `ERROR`.
pub open spec fn error_lines(lines: Seq<Seq<char>>) -> nat
    decreases lines.len(),
{
    if lines.len() == 0 {
        0
    } else {
        error_lines(lines.drop_last()) + if contains_text(lines.last(), "ERROR"@) {
            1nat
        } else {
            0nat
        }
    }
}

/// Whether the mark `mark` occurs in the line `line`.
fn line_has(line: &Vec<char>, mark: &str) -> (found: bool)
    ensures
        found == contains_text(line@, mark@),
{
    let m = to_chars(mark);
    let at = find_text(line, 0, &m);
    if at < line.len() {
        true
    } else {
        let last = crate::text::matches_at(line, at, &m);
        proof {
            if contains_text(line@, mark@) && !last {
                let k = choose|k: int| occurs_at(line@, mark@, k);
                assert(k < line.len() || k == line.len());
            }
        }
        last
    }
}

/// Counts, in the log `content`, the lines that tell of a copied file and
/// the lines that tell of an error.
pub fn sync_counts(content: &str) -> (counts: (usize, usize))
    ensures
        counts.0 == copied_lines(lines_of(content@)),
        counts.1 == error_lines(lines_of(content@)),
{
    let lines = split_lines(content);
    let ghost texts = lines_of(content@);
    let mut copied: usize = 0;
    let mut errors: usize = 0;
    let mut i: usize = 0;
    assert(texts.take(0) =~= Seq::<Seq<char>>::empty());
    while i < lines.len()
        invariant
            i <= lines.len(),
            texts == line_texts(lines@),
            copied == copied_lines(texts.take(i as int)),
            errors == error_lines(texts.take(i as int)),
            copied <= i,
            errors <= i,
        decreases lines.len() - i,
    {
        proof {
            let next = texts.take(i + 1);
            assert(next.drop_last() =~= texts.take(i as int));
            assert(next.last() == lines@[i as int]@);
        }
        if line_has(&lines[i], "Copied (new)") || line_has(&lines[i], "Copied (replaced") {
            copied += 1;
        }
        if line_has(&lines[i], "ERROR") {
            errors += 1;
        }
        i += 1;
    }
    assert(texts.take(texts.len() as int) =~= texts);
    (copied, errors)
}

} // verus!
