use vstd::prelude::*;
use crate::lexer::{byte_len, chars_of, lines, split_lines, string_from_chars};
use crate::span::SpanInfo;

verus! {

/// `n` copies of `c` (none when `n` is negative).
pub open spec fn repeat(c: char, n: int) -> Seq<char> {
    Seq::new(if n > 0 { n as nat } else { 0 }, |_i: int| c)
}

/// The line with the given index, or an empty line past the end.
pub open spec fn line_or_empty(ls: Seq<Seq<char>>, i: int) -> Seq<char> {
    if 0 <= i < ls.len() {
        ls[i]
    } else {
        seq![]
    }
}

/// The lines after the first of a span over several lines, each shown with
/// carets under it; the span's last line gets `last_carets` carets, written
/// right after it.
pub open spec fn later_lines(rest: Seq<Seq<char>>, n: int, last_carets: int) -> Seq<char>
    decreases rest.len(),
{
    if rest.len() == 0 {
        seq![]
    } else {
        let line = rest.last();
        let idx = rest.len() - 1;
        later_lines(rest.drop_last(), n, last_carets) + if idx + 1 == n {
            line + repeat('^', last_carets) + seq!['\n']
        } else {
            line + seq!['\n'] + repeat('^', byte_len(line) as int) + seq!['\n']
        }
    }
}

/// What an error report shows of the source file.
///
/// For a span on one line: that line, then carets under the span (from the
/// start column up to, not including, the end column minus one). For a span
/// over several lines: the first line with carets from the start column to
/// its end, then each later line of the span with a line of carets under it,
/// and the span's last line with carets up to the end column minus one,
/// written right after it. Lines the file does not have are left out (the
/// first one shows as an empty line).
pub open spec fn source_excerpt(ls: Seq<Seq<char>>, span: SpanInfo) -> Seq<char> {
    let start = span.char_start;
    let end = span.char_end;
    if end.line == start.line {
        let l = line_or_empty(ls, start.line - 1);
        l + seq!['\n'] + repeat(' ', start.column as int) + repeat('^', end.column - 1 - start.column)
            + seq!['\n']
    } else {
        let n = end.line - start.line;
        let rel = ls.skip(start.line - 1).take(
            if n + 1 <= ls.len() - (start.line - 1) {
                n + 1
            } else if ls.len() - (start.line - 1) > 0 {
                ls.len() - (start.line - 1)
            } else {
                0
            },
        );
        let first = line_or_empty(rel, 0);
        first + seq!['\n'] + repeat(' ', start.column as int) + repeat(
            '^',
            byte_len(first) - start.column,
        ) + seq!['\n'] + if rel.len() > 1 {
            later_lines(rel.drop_first(), n, end.column - 1)
        } else {
            seq![]
        }
    }
}

/// The report of an error located in a source file: the error's message, a
/// line feed, then what `source_excerpt` shows of the file, or a note that the
/// file could not be read (`content` is `None`).
pub open spec fn error_report(message: Seq<char>, content: Option<Seq<char>>, span: SpanInfo) -> Seq<char> {
    message + seq!['\n'] + match content {
        Some(c) => source_excerpt(lines(c), span),
        None => seq![
            'F',
            'a',
            'i',
            'l',
            'e',
            'd',
            ' ',
            't',
            'o',
            ' ',
            'a',
            'c',
            'c',
            'e',
            's',
            's',
            ' ',
            'f',
            'i',
            'l',
            'e',
            '.',
        ],
    }
}

/// Whether the span can be shown against the file: its first line is 1 or
/// more; on one line it ends at column 1 or more; over several lines it
/// ends on a later line, and at column 1 or more unless the file stops
/// before its last line.
pub open spec fn span_showable(content: Seq<char>, span: SpanInfo) -> bool {
    span_showable_in(lines(content), span)
}

/// `span_showable`, given the file's lines.
pub open spec fn span_showable_in(ls: Seq<Seq<char>>, span: SpanInfo) -> bool {
    let start = span.char_start;
    let end = span.char_end;
    &&& start.line >= 1
    &&& start.line == end.line ==> end.column >= 1
    &&& start.line != end.line ==> end.line > start.line && (end.column == 0 ==> ls.len() < end.line)
}

/// The contents of each line.
pub open spec fn views(ls: Seq<Vec<char>>) -> Seq<Seq<char>> {
    ls.map_values(|l: Vec<char>| l@)
}

fn push_repeat(out: &mut Vec<char>, c: char, n: usize)
    ensures
        final(out)@ == old(out)@ + repeat(c, n as int),
{
    let mut i: usize = 0;
    while i < n
        invariant
            0 <= i <= n,
            out@ == old(out)@ + repeat(c, i as int),
        decreases n - i,
    {
        out.push(c);
        i = i + 1;
        proof {
            assert(old(out)@ + repeat(c, i as int) =~= old(out)@ + repeat(c, (i - 1) as int) + seq![c]);
        }
    }
}

fn push_chars(out: &mut Vec<char>, s: &Vec<char>)
    ensures
        final(out)@ == old(out)@ + s@,
{
    let mut i: usize = 0;
    while i < s.len()
        invariant
            0 <= i <= s@.len(),
            out@ == old(out)@ + s@.take(i as int),
        decreases s@.len() - i,
    {
        out.push(s[i]);
        proof {
            assert(s@.take(i + 1) =~= s@.take(i as int).push(s@[i as int]));
        }
        i = i + 1;
    }
    proof {
        assert(s@.take(s@.len() as int) =~= s@);
    }
}

fn push_str_chars(out: &mut Vec<char>, s: &str)
    ensures
        final(out)@ == old(out)@ + s@,
{
    let v = chars_of(s);
    push_chars(out, &v);
}

/// The number of UTF-8 bytes of the characters.
fn utf8_count(s: &Vec<char>) -> (r: usize)
    requires
        byte_len(s@) <= usize::MAX,
    ensures
        r == byte_len(s@),
{
    assert(s@.subrange(0, s@.len() as int) =~= s@);
    crate::lexer::byte_len_of(s.as_slice(), 0, s.len())
}

/// Writes what `source_excerpt` shows of a span on one line.
fn write_single_line(out: &mut Vec<char>, ls: &Vec<Vec<char>>, span: SpanInfo)
    requires
        span_showable_in(views(ls@), span),
        span.char_start.line == span.char_end.line,
    ensures
        final(out)@ == old(out)@ + source_excerpt(views(ls@), span),
{
    let start = span.char_start;
    let end = span.char_end;
    let idx = start.line - 1;
    let empty: Vec<char> = Vec::new();
    let l: &Vec<char> = if idx < ls.len() {
        &ls[idx]
    } else {
        &empty
    };
    assert(l@ == line_or_empty(views(ls@), start.line - 1));
    push_chars(out, l);
    out.push('\n');
    push_repeat(out, ' ', start.column);
    let carets = if end.column - 1 > start.column {
        end.column - 1 - start.column
    } else {
        0
    };
    push_repeat(out, '^', carets);
    out.push('\n');
    assert(out@ =~= old(out)@ + source_excerpt(views(ls@), span));
}

/// Writes what `source_excerpt` shows of a span over several lines.
fn write_several_lines(out: &mut Vec<char>, ls: &Vec<Vec<char>>, span: SpanInfo)
    requires
        span_showable_in(views(ls@), span),
        span.char_start.line != span.char_end.line,
        forall|i: int| 0 <= i < ls@.len() ==> byte_len((#[trigger] ls@[i])@) <= usize::MAX,
    ensures
        final(out)@ == old(out)@ + source_excerpt(views(ls@), span),
{
    let ghost lsv = views(ls@);
    let start = span.char_start;
    let end = span.char_end;
    let n = end.line - start.line;
    let first_idx = start.line - 1;
    let ls_len = ls.len();
    let avail = if ls_len > first_idx {
        ls_len - first_idx
    } else {
        0
    };
    let count = if n < avail {
        n + 1
    } else {
        avail
    };
    let ghost rel = lsv.skip(start.line - 1).take(count as int);
    let empty: Vec<char> = Vec::new();
    let first: &Vec<char> = if count > 0 {
        &ls[first_idx]
    } else {
        &empty
    };
    assert(first@ == line_or_empty(rel, 0));
    let first_bytes = utf8_count(first);
    push_chars(out, first);
    out.push('\n');
    push_repeat(out, ' ', start.column);
    let carets = if first_bytes > start.column {
        first_bytes - start.column
    } else {
        0
    };
    push_repeat(out, '^', carets);
    out.push('\n');
    let ghost mid = out@;
    proof {
        assert(rel.len() == count);
        assert(mid =~= old(out)@ + first@ + seq!['\n'] + repeat(' ', start.column as int) + repeat(
            '^',
            byte_len(first@) - start.column,
        ) + seq!['\n']);
    }
    if count > 1 {
        let mut k: usize = 1;
        proof {
            assert(rel.subrange(1, 1) =~= Seq::<Seq<char>>::empty());
        }
        while k < count
            invariant
                1 <= k <= count,
                count <= avail,
                first_idx == start.line - 1,
                avail == (if ls@.len() > first_idx {
                    ls@.len() - first_idx
                } else {
                    0
                }),
                ls@.len() <= usize::MAX,
                lsv == views(ls@),
                forall|i: int| 0 <= i < ls@.len() ==> byte_len((#[trigger] ls@[i])@) <= usize::MAX,
                rel == lsv.skip(start.line - 1).take(count as int),
                rel.len() == count,
                n == end.line - start.line,
                start == span.char_start,
                end == span.char_end,
                span_showable_in(lsv, span),
                out@ == mid + later_lines(rel.subrange(1, k as int), n as int, end.column - 1),
            decreases count - k,
        {
            let line = &ls[first_idx + k];
            let idx = k - 1;
            let ghost t = rel.subrange(1, k + 1);
            proof {
                assert(t.drop_last() =~= rel.subrange(1, k as int));
                assert(t.last() == line@);
            }
            if idx + 1 == n {
                push_chars(out, line);
                push_repeat(out, '^', end.column - 1);
                out.push('\n');
            } else {
                push_chars(out, line);
                out.push('\n');
                let lb = utf8_count(line);
                push_repeat(out, '^', lb);
                out.push('\n');
            }
            proof {
                assert(out@ =~= mid + later_lines(t, n as int, end.column - 1));
            }
            k = k + 1;
        }
        proof {
            assert(rel.subrange(1, count as int) =~= rel.drop_first());
        }
    }
    proof {
        assert(out@ =~= old(out)@ + source_excerpt(lsv, span));
    }
}

/// Writes an error located in a source file; see `error_report`.
pub fn render_spanned_error(message: &str, content: Option<&str>, span: SpanInfo) -> (r: String)
    requires
        content matches Some(c) ==> span_showable(c@, span),
    ensures
        r@ == error_report(
            message@,
            match content {
                Some(c) => Some(c@),
                None => None,
            },
            span,
        ),
{
    let mut out: Vec<char> = Vec::new();
    push_str_chars(&mut out, message);
    out.push('\n');
    match content {
        None => {
            let note = "Failed to access file.";
            proof {
                reveal_strlit("Failed to access file.");
            }
            push_str_chars(&mut out, note);
        },
        Some(c) => {
            let chars = chars_of(c);
            // The file's UTF-8 bytes are in memory, so their count fits in a usize.
            let _byte_count = c.as_bytes().len();
            proof {
                crate::lexer::lemma_encode_utf8_len(c@);
            }
            let ls = split_lines(chars.as_slice());
            proof {
                assert(views(ls@) =~= lines(c@));
            }
            if span.char_end.line == span.char_start.line {
                write_single_line(&mut out, &ls, span);
            } else {
                write_several_lines(&mut out, &ls, span);
            }
        },
    }
    string_from_chars(out.as_slice())
}

} // verus!
