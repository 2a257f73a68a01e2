use vstd::prelude::*;
use vstd::string::*;
use crate::errors::Error;
use crate::text::{string_of, chars_of, trimmed, usize_text, decimal};

verus! {

/// The views of a sequence of strings.
pub open spec fn texts(v: Seq<String>) -> Seq<Seq<char>> {
    v.map_values(|s: String| s@)
}

/// One instruction line: the opcode, then its operands.
#[derive(Debug, Clone)]
pub struct Line(pub Vec<String>);

impl View for Line {
    type V = Seq<Seq<char>>;

    open spec fn view(&self) -> Seq<Seq<char>> {
        texts(self.0@)
    }
}

/// The views of a sequence of lines.
pub open spec fn lines_view(v: Seq<Line>) -> Seq<Seq<Seq<char>>> {
    v.map_values(|l: Line| l@)
}

/// What the tokenizer carries from one character to the next, and from one
/// line to the next (all but the tokens of the line).
pub struct Scanner {
    pub in_string: bool,
    pub plain: Seq<char>,
    pub quoted: Seq<char>,
    pub tokens: Seq<Seq<char>>,
}

/// The state before the first character of a document.
pub open spec fn scanner_start() -> Scanner {
    Scanner { in_string: false, plain: Seq::empty(), quoted: Seq::empty(), tokens: Seq::empty() }
}

/// `tokens` with `t` added where `t` is not empty.
pub open spec fn push_token(tokens: Seq<Seq<char>>, t: Seq<char>) -> Seq<Seq<char>> {
    if t.len() == 0 {
        tokens
    } else {
        tokens.push(t)
    }
}

/// One character `c` of a line; `last` says whether it ends the line. The
/// flag is set where a string literal is still open at the end of the line.
pub open spec fn scan_char(st: Scanner, c: char, last: bool) -> (Scanner, bool) {
    let in_string = if c == '"' { !st.in_string } else { st.in_string };
    let quoted = if c == '"' && st.in_string { st.quoted.push(c) } else { st.quoted };
    if in_string && last {
        (Scanner { in_string, quoted, ..st }, true)
    } else if in_string {
        (Scanner { in_string, quoted: quoted.push(c), ..st }, false)
    } else {
        let tokens = push_token(st.tokens, quoted);
        if c == ' ' {
            (Scanner { in_string, plain: Seq::empty(), quoted: Seq::empty(), tokens: push_token(tokens, st.plain) }, false)
        } else if last && c != '"' {
            (Scanner { in_string, plain: Seq::empty(), quoted: Seq::empty(), tokens: push_token(tokens, st.plain.push(c)) }, false)
        } else if c != '"' {
            (Scanner { in_string, plain: st.plain.push(c), quoted: Seq::empty(), tokens }, false)
        } else {
            (Scanner { in_string, plain: st.plain, quoted: Seq::empty(), tokens }, false)
        }
    }
}

/// The first `n` characters of `line`, from `start`; scanning stops at an
/// unterminated string literal.
pub open spec fn scan_prefix(line: Seq<char>, n: nat, start: Scanner) -> (Scanner, bool)
    decreases n,
{
    if n == 0 {
        (start, false)
    } else {
        let (st, failed) = scan_prefix(line, (n - 1) as nat, start);
        if failed {
            (st, true)
        } else {
            scan_char(st, line[n - 1], n == line.len())
        }
    }
}

/// A whole line, from what the previous lines left.
pub open spec fn scan_line(line: Seq<char>, carried: Scanner) -> (Scanner, bool) {
    scan_prefix(line, line.len(), Scanner { tokens: Seq::empty(), ..carried })
}

/// `s` with its line breaks made uniform: `\r\n` becomes `\n`, and so does
/// every other `\r`.
pub open spec fn normalized_breaks(s: Seq<char>) -> Seq<char>
    decreases s.len(),
{
    if s.len() == 0 {
        s
    } else if s[0] == '\r' && s.len() >= 2 && s[1] == '\n' {
        normalized_breaks(s.drop_first())
    } else if s[0] == '\r' {
        seq!['\n'] + normalized_breaks(s.drop_first())
    } else {
        seq![s[0]] + normalized_breaks(s.drop_first())
    }
}

/// The pieces of the first `n` characters of `s`, split at each `sep`; the
/// last one is still open.
pub open spec fn split_prefix(s: Seq<char>, n: nat, sep: char) -> Seq<Seq<char>>
    decreases n,
{
    if n == 0 {
        seq![Seq::empty()]
    } else {
        let prev = split_prefix(s, (n - 1) as nat, sep);
        if s[n - 1] == sep {
            prev.push(Seq::empty())
        } else {
            prev.update(prev.len() - 1, prev.last().push(s[n - 1]))
        }
    }
}

/// The pieces of `s` between the separators `sep`; empty pieces are kept.
pub open spec fn split_on(s: Seq<char>, sep: char) -> Seq<Seq<char>> {
    split_prefix(s, s.len(), sep)
}

/// The lines of `s`, split at each `\n`.
pub open spec fn split_lines(s: Seq<char>) -> Seq<Seq<char>> {
    split_on(s, '\n')
}

/// The source text as lines: line breaks made uniform, white space trimmed
/// from both ends, split at line breaks.
pub open spec fn source_lines(code: Seq<char>) -> Seq<Seq<char>> {
    split_lines(trimmed(normalized_breaks(code)))
}

/// The tokenizer after the first `k` lines: what it carries, the token lines,
/// and the last line that left a string literal open.
pub open spec fn lex_prefix(lines: Seq<Seq<char>>, k: nat) -> (Scanner, Seq<Seq<Seq<char>>>, Option<nat>)
    decreases k,
{
    if k == 0 {
        (scanner_start(), Seq::empty(), None)
    } else {
        let (st, out, failed) = lex_prefix(lines, (k - 1) as nat);
        let (next, open) = scan_line(lines[k - 1], st);
        (next, out.push(next.tokens), if open { Some((k - 1) as nat) } else { failed })
    }
}

/// The message for a string literal left open on the line with index `k`
/// (counted from 0), whose text is `line`; the message names the line by its
/// number, counted from 1.
pub open spec fn unterminated_message(k: nat, line: Seq<char>) -> Seq<char> {
    "\nCode:\n"@ + decimal(k + 1) + " | "@ + line + "\nProblem: String was never ended"@
}

/// The message for a source text with nothing in it.
pub open spec fn no_code_message() -> Seq<char> {
    "No code found"@
}


/// The views of a sequence of character vectors.
pub open spec fn rows(v: Seq<Vec<char>>) -> Seq<Seq<char>> {
    v.map_values(|r: Vec<char>| r@)
}

fn normalize_breaks(code: &str) -> (r: String)
    ensures
        r@ == normalized_breaks(code@),
{
    let chars = chars_of(code);
    let n = chars.len();
    let mut r = String::new();
    let mut i: usize = 0;
    assert(chars@.subrange(0, n as int) =~= chars@);
    assert(r@ + normalized_breaks(chars@) =~= normalized_breaks(chars@));
    while i < n
        invariant
            chars@ == code@,
            n == chars@.len(),
            i <= n,
            r@ + normalized_breaks(chars@.subrange(i as int, n as int)) == normalized_breaks(code@),
        decreases n - i,
    {
        let ghost rest = chars@.subrange(i as int, n as int);
        assert(rest.drop_first() =~= chars@.subrange(i + 1, n as int));
        if chars[i] == '\r' && i + 1 < n && chars[i + 1] == '\n' {
        } else if chars[i] == '\r' {
            r.push('\n');
        } else {
            r.push(chars[i]);
        }
        i = i + 1;
    }
    assert(chars@.subrange(n as int, n as int) =~= Seq::<char>::empty());
    r
}

pub proof fn lemma_split_prefix_len(s: Seq<char>, n: nat, sep: char)
    ensures
        split_prefix(s, n, sep).len() >= 1,
    decreases n,
{
    if n > 0 {
        lemma_split_prefix_len(s, (n - 1) as nat, sep);
    }
}

/// The pieces of `s` between the separators `sep`.
pub fn split_at(s: &Vec<char>, sep: char) -> (r: Vec<Vec<char>>)
    ensures
        rows(r@) == split_on(s@, sep),
        r@.len() >= 1,
{
    let mut done: Vec<Vec<char>> = Vec::new();
    let mut cur: Vec<char> = Vec::new();
    let mut i: usize = 0;
    while i < s.len()
        invariant
            i <= s.len(),
            rows(done@).push(cur@) == split_prefix(s@, i as nat, sep),
        decreases s.len() - i,
    {
        proof {
            lemma_split_prefix_len(s@, i as nat, sep);
        }
        let ghost prev = split_prefix(s@, i as nat, sep);
        if s[i] == sep {
            let finished = cur;
            done.push(finished);
            cur = Vec::new();
            assert(rows(done@).push(cur@) =~= prev.push(Seq::empty()));
        } else {
            cur.push(s[i]);
            assert(rows(done@).push(cur@) =~= prev.update(prev.len() - 1, prev.last().push(s@[i as int])));
        }
        i = i + 1;
    }
    done.push(cur);
    assert(rows(done@) =~= split_prefix(s@, s@.len(), sep));
    done
}

/// The tokenizer's state in executable form.
struct ScanState {
    in_string: bool,
    plain: String,
    quoted: String,
    tokens: Vec<String>,
}

impl View for ScanState {
    type V = Scanner;

    closed spec fn view(&self) -> Scanner {
        Scanner {
            in_string: self.in_string,
            plain: self.plain@,
            quoted: self.quoted@,
            tokens: texts(self.tokens@),
        }
    }
}

fn push_nonempty(tokens: &mut Vec<String>, t: String)
    ensures
        texts(final(tokens)@) == push_token(texts(old(tokens)@), t@),
{
    if t.unicode_len() > 0 {
        tokens.push(t);
        assert(texts(tokens@) =~= texts(old(tokens)@).push(t@));
    }
}

fn scan_one(st: &mut ScanState, c: char, last: bool) -> (open: bool)
    ensures
        (final(st)@, open) == scan_char(old(st)@, c, last),
{
    let was_in_string = st.in_string;
    if c == '"' {
        if !st.in_string {
            st.in_string = true;
        } else {
            st.in_string = false;
            st.quoted.push(c);
        }
    }
    if st.in_string && last {
        return true;
    } else if st.in_string {
        st.quoted.push(c);
    } else {
        let q = st.quoted.clone();
        st.quoted = String::new();
        push_nonempty(&mut st.tokens, q);
        if c == ' ' {
            let p = st.plain.clone();
            st.plain = String::new();
            push_nonempty(&mut st.tokens, p);
        } else if last && c != '"' {
            let mut p = st.plain.clone();
            st.plain = String::new();
            p.push(c);
            push_nonempty(&mut st.tokens, p);
        } else if c != '"' {
            st.plain.push(c);
        }
    }
    false
}

fn scan_whole_line(line: &Vec<char>, st: &mut ScanState) -> (open: bool)
    ensures
        (final(st)@, open) == scan_line(line@, old(st)@),
{
    st.tokens = Vec::new();
    assert(texts(st.tokens@) =~= Seq::<Seq<char>>::empty());
    let ghost start = st@;
    assert(start == Scanner { tokens: Seq::empty(), ..old(st)@ });
    let mut i: usize = 0;
    while i < line.len()
        invariant
            i <= line.len(),
            scan_prefix(line@, i as nat, start) == (st@, false),
            start == (Scanner { tokens: Seq::empty(), ..old(st)@ }),
        decreases line.len() - i,
    {
        let open = scan_one(st, line[i], i + 1 == line.len());
        i = i + 1;
        if open {
            assert(scan_prefix(line@, i as nat, start) == (st@, true));
            proof {
                lemma_scan_stays_open(line@, i as nat, start);
            }
            return true;
        }
    }
    false
}

proof fn lemma_scan_stays_open(line: Seq<char>, n: nat, start: Scanner)
    requires
        n <= line.len(),
        scan_prefix(line, n, start).1,
    ensures
        scan_prefix(line, line.len(), start) == scan_prefix(line, n, start),
    decreases line.len() - n,
{
    if n < line.len() {
        lemma_scan_stays_open(line, n + 1, start);
    }
}


/// What tokenizing `code` gives: the token lines, and the message of the
/// lexing error, if there is one.
pub open spec fn lex_spec(code: Seq<char>) -> (Seq<Seq<Seq<char>>>, Option<Seq<char>>) {
    let doc = trimmed(normalized_breaks(code));
    if doc.len() == 0 {
        (Seq::empty(), Some(no_code_message()))
    } else {
        let lines = split_lines(doc);
        let (_, out, failed) = lex_prefix(lines, lines.len());
        (
            out,
            match failed {
                None => None,
                Some(k) => Some(unterminated_message(k, lines[k as int])),
            },
        )
    }
}

/// Splits source text into instruction lines of tokens; `\n`, `\r\n` and a
/// lone `\r` each end a line. A double-quoted string literal is one token,
/// spaces included; empty tokens are dropped.
/// The error is `LexingError` where a string literal is left open at the end
/// of a line (the last such line is named) or where the text holds nothing
/// but white space.
pub fn lex(code: String) -> (r: (Vec<Line>, Error))
    ensures
        lines_view(r.0@) == lex_spec(code@).0,
        match r.1 {
            Error::NoError => lex_spec(code@).1 is None,
            Error::LexingError(m) => lex_spec(code@).1 == Some(m@),
            Error::RuntimeError(_) => false,
        },
{
    let no_cr = normalize_breaks(code.as_str());
    let doc = no_cr.as_str().trim();
    let chars = chars_of(doc);
    if chars.len() == 0 {
        return (Vec::new(), Error::LexingError(String::from_str("No code found")));
    }
    let lines = split_at(&chars, '\n');
    let ghost ls = rows(lines@);
    let mut st = ScanState {
        in_string: false,
        plain: String::new(),
        quoted: String::new(),
        tokens: Vec::new(),
    };
    let mut out: Vec<Line> = Vec::new();
    let mut failed: Option<usize> = None;
    let mut k: usize = 0;
    while k < lines.len()
        invariant
            ls == rows(lines@),
            ls == split_lines(chars@),
            k <= lines.len(),
            lex_prefix(ls, k as nat).0 == (Scanner { tokens: lex_prefix(ls, k as nat).0.tokens, ..st@ }),
            lines_view(out@) == lex_prefix(ls, k as nat).1,
            lex_prefix(ls, k as nat).2 == match failed {
                None => None::<nat>,
                Some(j) => Some(j as nat),
            },
            failed matches Some(j) ==> j < k,
        decreases lines.len() - k,
    {
        let ghost before = st@;
        let open = scan_whole_line(&lines[k], &mut st);
        let toks = st.tokens;
        st.tokens = Vec::new();
        let ghost next = scan_line(ls[k as int], lex_prefix(ls, k as nat).0);
        assert(next == scan_line(ls[k as int], before));
        assert(texts(toks@) == next.0.tokens);
        out.push(Line(toks));
        assert(lines_view(out@) =~= lex_prefix(ls, k as nat).1.push(next.0.tokens));
        if open {
            failed = Some(k);
        }
        k = k + 1;
    }
    match failed {
        None => (out, Error::NoError),
        Some(j) => {
            let mut m = String::from_str("\nCode:\n");
            m.append(usize_text(j + 1).as_str());
            m.append(" | ");
            m.append(string_of(&lines[j]).as_str());
            m.append("\nProblem: String was never ended");
            (out, Error::LexingError(m))
        },
    }
}

} // verus!
