//! Rendering of a span against its source text as a numbered excerpt with a
//! `~` underline.
use crate::position::Position;
use vstd::prelude::*;

verus! {

broadcast use vstd::string::group_string_axioms;

/// The pieces of `s` between line feeds: `n` line feeds give `n + 1`
/// pieces, none of which holds a line feed.
pub open spec fn newline_pieces(s: Seq<char>) -> Seq<Seq<char>>
    decreases s.len(),
{
    if s.len() == 0 {
        seq![Seq::empty()]
    } else {
        let p = newline_pieces(s.drop_last());
        if s.last() == '\n' {
            p.push(Seq::empty())
        } else {
            p.update(p.len() - 1, p.last().push(s.last()))
        }
    }
}

/// A piece without the carriage return that ends it, if one does.
pub open spec fn strip_cr(l: Seq<char>) -> Seq<char> {
    if l.len() > 0 && l.last() == '\r' {
        l.drop_last()
    } else {
        l
    }
}

/// The lines of a text: split at `\n` or `\r\n`, without the terminators;
/// a final empty piece (after a last terminator, or of an empty text) is no
/// line, and a carriage return with no line feed after it stays.
pub open spec fn lines_of(s: Seq<char>) -> Seq<Seq<char>> {
    let p = newline_pieces(s);
    let body = p.drop_last().map_values(|l: Seq<char>| strip_cr(l));
    if p.last().len() == 0 {
        body
    } else {
        body.push(p.last())
    }
}

proof fn lemma_pieces_nonempty(s: Seq<char>)
    ensures
        newline_pieces(s).len() >= 1,
    decreases s.len(),
{
    if s.len() > 0 {
        lemma_pieces_nonempty(s.drop_last());
    }
}

/// The lines of `content`, as `lines_of` gives them.
pub(crate) fn split_lines(content: &str) -> (r: Vec<Vec<char>>)
    ensures
        r.len() == lines_of(content@).len(),
        forall|i: int| 0 <= i < r.len() ==> (#[trigger] r[i])@ == lines_of(content@)[i],
{
    let mut done: Vec<Vec<char>> = Vec::new();
    let mut cur: Vec<char> = Vec::new();
    for c in it: content.chars()
        invariant
            it.seq() == content@,
            newline_pieces(content@.take(it.index() as int)).len() == done.len() + 1,
            forall|i: int|
                0 <= i < done.len() ==> (#[trigger] done[i])@ == strip_cr(
                    newline_pieces(content@.take(it.index() as int))[i],
                ),
            cur@ == newline_pieces(content@.take(it.index() as int)).last(),
    {
        let ghost before = content@.take(it.index() as int);
        let ghost after = content@.take(it.index() + 1);
        proof {
            assert(after.drop_last() == before);
            lemma_pieces_nonempty(before);
        }
        if c == '\n' {
            if cur.len() > 0 && cur[cur.len() - 1] == '\r' {
                cur.pop();
            }
            done.push(cur);
            cur = Vec::new();
        } else {
            cur.push(c);
        }
    }
    proof {
        assert(content@.take(content@.len() as int) == content@);
    }
    if cur.len() > 0 {
        done.push(cur);
    }
    done
}

/// The decimal digit for `d < 10`.
pub open spec fn digit_char(d: nat) -> char {
    ((d + 48) as u8) as char
}

/// The decimal numeral of `n`, without leading zeros.
pub open spec fn decimal(n: nat) -> Seq<char>
    decreases n,
{
    if n < 10 {
        seq![digit_char(n)]
    } else {
        decimal(n / 10).push(digit_char(n % 10))
    }
}

/// `s` right-aligned in a field of `width` characters: padded on the left
/// with spaces, or as it is when it is already that wide.
pub open spec fn right_aligned(s: Seq<char>, width: nat) -> Seq<char> {
    if s.len() < width {
        Seq::new((width - s.len()) as nat, |_i: int| ' ') + s
    } else {
        s
    }
}

/// `n` copies of `c`.
pub open spec fn repeated(c: char, n: nat) -> Seq<char> {
    Seq::new(n, |_i: int| c)
}

/// How many bytes UTF-8 takes for `c`.
pub open spec fn utf8_width(c: char) -> nat {
    let v = c as u32;
    if v < 0x80 {
        1
    } else if v < 0x800 {
        2
    } else if v < 0x10000 {
        3
    } else {
        4
    }
}

/// How many bytes UTF-8 takes for `s`.
pub open spec fn utf8_len(s: Seq<char>) -> nat
    decreases s.len(),
{
    if s.len() == 0 {
        0
    } else {
        utf8_len(s.drop_last()) + utf8_width(s.last())
    }
}

/// A source line under its number: the number right-aligned in four
/// columns, then `| `, the line and a line feed.
pub open spec fn numbered_line(n: nat, line: Seq<char>) -> Seq<char> {
    right_aligned(decimal(n), 4) + seq!['|', ' '] + line + seq!['\n']
}

/// An underline row: six spaces, which put `marks` under the text of the
/// numbered line above it, then the marks and a line feed.
pub open spec fn marker_row(marks: Seq<char>) -> Seq<char> {
    repeated(' ', 6) + marks + seq!['\n']
}

/// One mark per character of `line`: `~` for each index in
/// `[start, end)`, a space for the others.
pub open spec fn marks_between(line: Seq<char>, start: int, end: int) -> Seq<char> {
    Seq::new(line.len(), |i: int| if start <= i < end { '~' } else { ' ' })
}

/// The text written when a span's lines are not in the source.
pub open spec fn unavailable() -> Seq<char> {
    "... code snippet unavailable ...\n"@
}

proof fn lemma_rows_prefix(p: Position, sel: Seq<Seq<char>>, j: nat, m: nat)
    requires
        j <= m,
    ensures
        p.spec_span_rows(sel, j).len() <= p.spec_span_rows(sel, m).len(),
        p.spec_span_rows(sel, m).subrange(0, p.spec_span_rows(sel, j).len() as int)
            == p.spec_span_rows(sel, j),
    decreases m - j,
{
    if j < m {
        lemma_rows_prefix(p, sel, j, (m - 1) as nat);
        let a = p.spec_span_rows(sel, (m - 1) as nat);
        let b = p.spec_span_block(sel, m - 1);
        assert((a + b).subrange(0, a.len() as int) == a);
        assert(a.subrange(0, p.spec_span_rows(sel, j).len() as int) == (a + b).subrange(
            0,
            p.spec_span_rows(sel, j).len() as int,
        ));
    }
}

/// For a span over two or more lines that the source has, the excerpt holds,
/// after the rows of the span's lines before line `k`, line `k` under the
/// number `k + 1` and then its underline row. On the first line the marks
/// are `~` exactly from `col.start` on; on the last line exactly before
/// `col.end`; on a line between them, `~` for each of its UTF-8 bytes.
pub proof fn lemma_span_rows(p: Position, content: Seq<char>, k: int)
    requires
        p.spec_lines_in(lines_of(content)),
        p.ln.start < p.ln.end,
        0 <= k <= p.ln.end - p.ln.start,
    ensures
        ({
            let sel = lines_of(content).subrange(p.ln.start as int, p.ln.end + 1);
            let line = sel[k];
            let marks = p.spec_underline(sel, k);
            let from = p.spec_span_rows(sel, k as nat).len() as int;
            let to = p.spec_span_rows(sel, (k + 1) as nat).len() as int;
            &&& p.spec_rendered(content) == p.spec_span_rows(sel, sel.len())
            &&& 0 <= from <= to <= p.spec_rendered(content).len()
            &&& p.spec_rendered(content).subrange(from, to) == numbered_line((k + 1) as nat, line)
                + marker_row(marks)
            &&& k == 0 ==> marks.len() == line.len() && forall|i: int|
                0 <= i < line.len() ==> (marks[i] == '~' <==> p.col.start <= i)
            &&& k == sel.len() - 1 ==> marks.len() == line.len() && forall|i: int|
                0 <= i < line.len() ==> (marks[i] == '~' <==> i < p.col.end)
            &&& 0 < k < sel.len() - 1 ==> marks == repeated('~', utf8_len(line))
        }),
{
    let sel = lines_of(content).subrange(p.ln.start as int, p.ln.end + 1);
    let n = sel.len();
    lemma_rows_prefix(p, sel, (k + 1) as nat, n);
    lemma_rows_prefix(p, sel, k as nat, (k + 1) as nat);
    let a = p.spec_span_rows(sel, k as nat);
    let b = p.spec_span_block(sel, k);
    let all = p.spec_span_rows(sel, n);
    assert(p.spec_span_rows(sel, (k + 1) as nat) == a + b);
    assert(all.subrange(a.len() as int, (a + b).len() as int) =~= (a + b).subrange(
        a.len() as int,
        (a + b).len() as int,
    ));
    assert((a + b).subrange(a.len() as int, (a + b).len() as int) =~= b);
}

/// Relies on `String::push`: it appends the one character.
#[verifier::external_body]
fn push_char(f: &mut String, c: char)
    ensures
        final(f)@ == old(f)@.push(c),
{
    f.push(c);
}

fn push_chars(f: &mut String, s: &Vec<char>)
    ensures
        final(f)@ == old(f)@ + s@,
{
    let mut i: usize = 0;
    while i < s.len()
        invariant
            i <= s.len(),
            f@ == old(f)@ + s@.take(i as int),
        decreases s.len() - i,
    {
        push_char(f, s[i]);
        proof {
            assert(s@.take(i + 1) == s@.take(i as int).push(s@[i as int]));
        }
        i += 1;
    }
    proof {
        assert(s@.take(s.len() as int) == s@);
    }
}

fn push_repeated(f: &mut String, c: char, n: usize)
    ensures
        final(f)@ == old(f)@ + repeated(c, n as nat),
{
    let mut i: usize = 0;
    while i < n
        invariant
            i <= n,
            f@ == old(f)@ + repeated(c, i as nat),
        decreases n - i,
    {
        push_char(f, c);
        proof {
            assert(repeated(c, (i + 1) as nat) == repeated(c, i as nat).push(c));
        }
        i += 1;
    }
}

fn digit(d: usize) -> (r: char)
    requires
        d < 10,
    ensures
        r == digit_char(d as nat),
{
    ((d as u8) + 48) as char
}

fn decimal_chars(n: usize) -> (r: Vec<char>)
    ensures
        r@ == decimal(n as nat),
    decreases n,
{
    if n < 10 {
        let mut r: Vec<char> = Vec::new();
        r.push(digit(n));
        r
    } else {
        let mut r = decimal_chars(n / 10);
        r.push(digit(n % 10));
        r
    }
}

fn push_numbered_line(f: &mut String, n: usize, line: &Vec<char>)
    ensures
        final(f)@ == old(f)@ + numbered_line(n as nat, line@),
{
    let digits = decimal_chars(n);
    if digits.len() < 4 {
        push_repeated(f, ' ', 4 - digits.len());
    }
    push_chars(f, &digits);
    push_char(f, '|');
    push_char(f, ' ');
    push_chars(f, line);
    push_char(f, '\n');
    proof {
        assert(f@ =~= old(f)@ + numbered_line(n as nat, line@));
    }
}

fn push_marks_between(f: &mut String, line: &Vec<char>, start: usize, end: usize)
    ensures
        final(f)@ == old(f)@ + marker_row(marks_between(line@, start as int, end as int)),
{
    let ghost marks = marks_between(line@, start as int, end as int);
    push_repeated(f, ' ', 6);
    let ghost base = f@;
    let mut i: usize = 0;
    while i < line.len()
        invariant
            i <= line.len(),
            marks == marks_between(line@, start as int, end as int),
            f@ == base + marks.take(i as int),
        decreases line.len() - i,
    {
        if start <= i && i < end {
            push_char(f, '~');
        } else {
            push_char(f, ' ');
        }
        proof {
            assert(marks.take(i + 1) == marks.take(i as int).push(marks[i as int]));
        }
        i += 1;
    }
    push_char(f, '\n');
    proof {
        assert(marks.take(line.len() as int) == marks);
        assert(f@ =~= old(f)@ + marker_row(marks));
    }
}

fn utf8_width_of(c: char) -> (r: usize)
    ensures
        r == utf8_width(c),
{
    let v = c as u32;
    if v < 0x80 {
        1
    } else if v < 0x800 {
        2
    } else if v < 0x10000 {
        3
    } else {
        4
    }
}

fn push_full_underline(f: &mut String, line: &Vec<char>)
    ensures
        final(f)@ == old(f)@ + marker_row(repeated('~', utf8_len(line@))),
{
    push_repeated(f, ' ', 6);
    let ghost base = f@;
    let mut i: usize = 0;
    while i < line.len()
        invariant
            i <= line.len(),
            f@ == base + repeated('~', utf8_len(line@.take(i as int))),
        decreases line.len() - i,
    {
        let w = utf8_width_of(line[i]);
        push_repeated(f, '~', w);
        proof {
            assert(line@.take(i + 1).drop_last() == line@.take(i as int));
            assert(repeated('~', utf8_len(line@.take(i + 1))) =~= repeated(
                '~',
                utf8_len(line@.take(i as int)),
            ) + repeated('~', w as nat));
        }
        i += 1;
    }
    push_char(f, '\n');
    proof {
        assert(line@.take(line.len() as int) == line@);
        assert(f@ =~= old(f)@ + marker_row(repeated('~', utf8_len(line@))));
    }
}

/// The error type of `std::fmt`; opaque here, and never produced by the
/// rendering below.
#[verifier::external_type_specification]
#[verifier::external_body]
pub struct ExFmtError(std::fmt::Error);

impl Position {
    /// Whether the lines `ln.start ..= ln.end` all exist among `lines`.
    pub open spec fn spec_lines_in(self, lines: Seq<Seq<char>>) -> bool {
        self.ln.start <= self.ln.end && self.ln.end < lines.len()
    }

    /// The underline for line `k` of `sel`, the lines of a span that covers
    /// two or more lines. The first line is underlined from `col.start` to
    /// its end, the last from its start up to `col.end`, and each line
    /// between them for as many `~` as it has UTF-8 bytes.
    pub open spec fn spec_underline(self, sel: Seq<Seq<char>>, k: int) -> Seq<char> {
        let line = sel[k];
        if k == 0 {
            marks_between(line, self.col.start as int, line.len() as int)
        } else if k == sel.len() - 1 {
            marks_between(line, 0, self.col.end as int)
        } else {
            repeated('~', utf8_len(line))
        }
    }

    /// The rows for line `k` of `sel`: the line under the number `k + 1`,
    /// counted from the span's first line, then its underline.
    pub open spec fn spec_span_block(self, sel: Seq<Seq<char>>, k: int) -> Seq<char> {
        numbered_line((k + 1) as nat, sel[k]) + marker_row(self.spec_underline(sel, k))
    }

    /// The rows for the first `k` lines of `sel`.
    pub open spec fn spec_span_rows(self, sel: Seq<Seq<char>>, k: nat) -> Seq<char>
        decreases k,
    {
        if k == 0 {
            Seq::empty()
        } else {
            self.spec_span_rows(sel, (k - 1) as nat) + self.spec_span_block(sel, k - 1)
        }
    }

    /// The excerpt for this span in `content`. Where the lines
    /// `ln.start ..= ln.end` exist: for one line, that line under its
    /// number `ln.start + 1` with `~` under the columns `col.start ..
    /// col.end`; for more, the rows of `spec_span_rows`. Otherwise the
    /// placeholder text `unavailable()`.
    pub open spec fn spec_rendered(self, content: Seq<char>) -> Seq<char> {
        let lines = lines_of(content);
        if self.spec_lines_in(lines) {
            let sel = lines.subrange(self.ln.start as int, self.ln.end + 1);
            if sel.len() == 1 {
                numbered_line((self.ln.start + 1) as nat, sel[0]) + marker_row(
                    marks_between(sel[0], self.col.start as int, self.col.end as int),
                )
            } else {
                self.spec_span_rows(sel, sel.len())
            }
        } else {
            unavailable()
        }
    }

    /// Appends to `f` the excerpt of `content` that this span marks, as
    /// `spec_rendered` gives it. Writing into a `String` cannot fail.
    pub fn display(&self, f: &mut String, content: &str) -> (r: std::fmt::Result)
        ensures
            r is Ok,
            final(f)@ == old(f)@ + self.spec_rendered(content@),
    {
        let lines = split_lines(content);
        let ghost ls = lines_of(content@);
        if !(self.ln.start <= self.ln.end && self.ln.end < lines.len()) {
            f.append("... code snippet unavailable ...\n");
            return Ok(());
        }
        let ghost sel = ls.subrange(self.ln.start as int, self.ln.end + 1);
        if self.ln.start == self.ln.end {
            let line = &lines[self.ln.start];
            push_numbered_line(f, self.ln.start + 1, line);
            push_marks_between(f, line, self.col.start, self.col.end);
            proof {
                assert(sel[0] == ls[self.ln.start as int]);
                assert(f@ =~= old(f)@ + self.spec_rendered(content@));
            }
        } else {
            let count = self.ln.end - self.ln.start + 1;
            let mut k: usize = 0;
            while k < count
                invariant
                    self.ln.start < self.ln.end < lines.len(),
                    count == self.ln.end - self.ln.start + 1,
                    lines.len() == ls.len(),
                    forall|i: int| 0 <= i < lines.len() ==> (#[trigger] lines[i])@ == ls[i],
                    sel == ls.subrange(self.ln.start as int, self.ln.end + 1),
                    k <= count,
                    f@ == old(f)@ + self.spec_span_rows(sel, k as nat),
                decreases count - k,
            {
                let line = &lines[self.ln.start + k];
                let ghost before = f@;
                push_numbered_line(f, k + 1, line);
                if k == 0 {
                    push_marks_between(f, line, self.col.start, line.len());
                } else if k == count - 1 {
                    push_marks_between(f, line, 0, self.col.end);
                } else {
                    push_full_underline(f, line);
                }
                proof {
                    assert(sel[k as int] == ls[self.ln.start + k]);
                    assert(f@ =~= before + self.spec_span_block(sel, k as int));
                }
                k += 1;
            }
        }
        Ok(())
    }
}

} // verus!
