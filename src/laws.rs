use vstd::prelude::*;
use crate::ast::{Types, classify, is_identifier, is_number_literal, is_string_literal};
use crate::machine::{ActionView, MachineView, Operator, Outcome, WaitView, instruction, operand, step_spec, temp, ReplyView};
use crate::program::{TableView, has_label, label_index, load_prefix, load_spec};
use crate::text::{content, quoted, is_white_space, trimmed, trim_start, trim_end};
use crate::errors::joined;
use crate::lexer::{Scanner, scan_char, scan_prefix, scan_line, scanner_start, lex_spec, lex_prefix, normalized_breaks, split_lines, split_prefix, source_lines};

verus! {

/// An identifier is classified as one.
proof fn lemma_identifier_class(x: Seq<char>)
    requires
        is_identifier(x),
    ensures
        classify(x) == Types::Identifier,
{
    assert(x[0] != '"');
    assert(!('0' <= x[0] <= '9'));
}

/// After `var x n` for a number `n`, `exists x Number` passes and
/// `exists x String` fails.
pub proof fn law_var_then_exists(
    table: Seq<(Seq<char>, Seq<(nat, Seq<Seq<char>>)>)>,
    vars: Map<Seq<char>, Seq<char>>,
    x: Seq<char>,
    n: Seq<char>,
)
    requires
        is_number_literal(n),
    ensures
        instruction(table, vars, seq!["var"@, x, n]) == Outcome::Assign(x, n),
        instruction(table, vars.insert(x, n), seq!["exists"@, x, "Number"@]) == Outcome::Next,
        instruction(table, vars.insert(x, n), seq!["exists"@, x, "String"@]) is Fail,
{
    reveal_strlit("exists");
    reveal_strlit("var");
    reveal_strlit("Number");
    reveal_strlit("String");
    assert(n[0] != '"');
    assert("var"@.len() != "exists"@.len());
    assert("String"@[0] != "Number"@[0]);
}


/// `var a n`, then `var b a`, then `print b` prints `n`: `b` receives what
/// `a` resolves to.
pub proof fn law_alias_print(table: TableView, vars: Map<Seq<char>, Seq<char>>, a: Seq<char>, b: Seq<char>, n: Seq<char>)
    requires
        is_identifier(a),
        is_identifier(b),
        is_number_literal(n),
    ensures
        instruction(table, vars, seq!["var"@, a, n]) == Outcome::Assign(a, n),
        instruction(table, vars.insert(a, n), seq!["var"@, b, a]) == Outcome::Assign(b, n),
        instruction(table, vars.insert(a, n).insert(b, n), seq!["print"@, b]) == Outcome::Emit(n),
{
    reveal_strlit("exists");
    reveal_strlit("var");
    reveal_strlit("print");
    assert("var"@.len() != "exists"@.len());
    assert("print"@.len() != "exists"@.len());
    assert("print"@.len() != "var"@.len());
    assert(n[0] != '"');
    lemma_identifier_class(a);
    lemma_identifier_class(b);
}

/// `add` on literals: a number and a string are joined as text in either
/// order, two strings are joined, two numbers are summed by the host; the
/// joined results are quoted.
pub proof fn law_add_coercion(
    table: TableView,
    vars: Map<Seq<char>, Seq<char>>,
    n1: Seq<char>,
    n2: Seq<char>,
    s1: Seq<char>,
    s2: Seq<char>,
)
    requires
        is_number_literal(n1),
        is_number_literal(n2),
        is_string_literal(s1),
        is_string_literal(s2),
    ensures
        instruction(table, vars, seq!["add"@, n1, s1]) == Outcome::Assign(temp(), quoted(n1 + content(s1))),
        instruction(table, vars, seq!["add"@, s1, n1]) == Outcome::Assign(temp(), quoted(content(s1) + n1)),
        instruction(table, vars, seq!["add"@, s1, s2]) == Outcome::Assign(temp(), quoted(content(s1) + content(s2))),
        instruction(table, vars, seq!["add"@, n1, n2]) == Outcome::Ask(
            ActionView::Arithmetic(Operator::Add, n1, n2),
            WaitView::Store,
        ),
{
    reveal_strlit("exists");
    reveal_strlit("var");
    reveal_strlit("print");
    reveal_strlit("print_newline");
    reveal_strlit("add");
    assert("add"@.len() != "exists"@.len());
    assert("add"@[0] != "var"@[0]);
    assert("add"@.len() != "print"@.len());
    assert("add"@.len() != "print_newline"@.len());
    assert(n1[0] != '"');
    assert(n2[0] != '"');
}

/// `jmp_eq` and `jmp_not_eq` stop with an error where the two operands are
/// of different classes, whatever their texts.
pub proof fn law_equal_needs_one_class(
    table: TableView,
    vars: Map<Seq<char>, Seq<char>>,
    x: Seq<char>,
    y: Seq<char>,
    label: Seq<char>,
    v1: Seq<char>,
    v2: Seq<char>,
)
    requires
        operand(vars, x) == Ok::<Seq<char>, Seq<char>>(v1),
        operand(vars, y) == Ok::<Seq<char>, Seq<char>>(v2),
        classify(v1) != classify(v2),
    ensures
        instruction(table, vars, seq!["jmp_eq"@, x, y, label]) is Fail,
        instruction(table, vars, seq!["jmp_not_eq"@, x, y, label]) is Fail,
{
    reveal_strlit("exists");
    reveal_strlit("var");
    reveal_strlit("print");
    reveal_strlit("print_newline");
    reveal_strlit("add");
    reveal_strlit("sub");
    reveal_strlit("mul");
    reveal_strlit("div");
    reveal_strlit("mod");
    reveal_strlit("jmp");
    reveal_strlit("jmp_gt");
    reveal_strlit("jmp_lt");
    reveal_strlit("jmp_eq");
    reveal_strlit("jmp_not_eq");
    let e = "jmp_eq"@;
    let ne = "jmp_not_eq"@;
    assert(e[0] != "exists"@[0]);
    assert(e.len() != "var"@.len() && e.len() != "print"@.len() && e.len() != "print_newline"@.len());
    assert(e.len() != "add"@.len() && e.len() != "sub"@.len() && e.len() != "mul"@.len());
    assert(e.len() != "div"@.len() && e.len() != "mod"@.len() && e.len() != "jmp"@.len());
    assert(e[4] != "jmp_gt"@[4] && e[4] != "jmp_lt"@[4]);
    assert(ne[0] != "exists"@[0] && ne[0] != "print_newline"@[0]);
    assert(ne.len() != "var"@.len() && ne.len() != "print"@.len() && ne.len() != "print_newline"@.len());
    assert(ne.len() != "add"@.len() && ne.len() != "sub"@.len() && ne.len() != "mul"@.len());
    assert(ne.len() != "div"@.len() && ne.len() != "mod"@.len() && ne.len() != "jmp"@.len());
    assert(ne.len() != "jmp_gt"@.len() && ne.len() != "jmp_lt"@.len() && ne.len() != e.len());
}

/// `jmp` calls its target: the calling frame moves past the jump and the
/// target block is pushed, to run from its first line.
pub proof fn law_jump_is_call(table: TableView, m: MachineView, r: ReplyView, name: Seq<char>, i: nat)
    requires
        m.waiting is Nothing,
        m.frames.len() > 0,
        m.frames.last().1 < table[m.frames.last().0 as int].1.len(),
        table[m.frames.last().0 as int].1[m.frames.last().1 as int].1 == seq!["jmp"@, name],
        label_index(table, name) == Some(i),
    ensures
        step_spec(table, m, r).0.frames == m.frames.update(
            m.frames.len() - 1,
            (m.frames.last().0, m.frames.last().1 + 1),
        ).push((i, 0nat)),
        step_spec(table, m, r).0.vars == m.vars,
        step_spec(table, m, r).1 == ActionView::Continue,
{
    reveal_strlit("exists");
    reveal_strlit("var");
    reveal_strlit("print");
    reveal_strlit("print_newline");
    reveal_strlit("add");
    reveal_strlit("sub");
    reveal_strlit("mul");
    reveal_strlit("div");
    reveal_strlit("mod");
    reveal_strlit("jmp");
    let j = "jmp"@;
    assert(j.len() != "exists"@.len() && j.len() != "print"@.len() && j.len() != "print_newline"@.len());
    assert(j[0] != "var"@[0] && j[0] != "add"@[0] && j[0] != "sub"@[0]);
    assert(j[0] != "mul"@[0] && j[0] != "div"@[0] && j[0] != "mod"@[0]);
}

/// A block that has run its last line returns: its frame is dropped, and the
/// caller goes on from the line after its jump.
pub proof fn law_block_end_returns(table: TableView, m: MachineView, r: ReplyView)
    requires
        m.waiting is Nothing,
        m.frames.len() > 0,
        m.frames.last().1 >= table[m.frames.last().0 as int].1.len(),
    ensures
        step_spec(table, m, r).0.frames == m.frames.drop_last(),
        step_spec(table, m, r).0.vars == m.vars,
        step_spec(table, m, r).1 == ActionView::Continue,
{
}

/// A loaded program always has an `.ENTRY` block; loading fails before
/// anything runs where there is none.
pub proof fn law_entry_required(lines: Seq<Seq<Seq<char>>>)
    ensures
        load_spec(lines) matches Ok(t) ==> has_label(t, ".ENTRY"@),
{
}

proof fn lemma_declared_stays(lines: Seq<Seq<Seq<char>>>, i: nat, k: nat, x: Seq<char>)
    requires
        i < k <= lines.len(),
        lines[i as int] == seq!["label"@, x],
        load_prefix(lines, k) is Ok,
    ensures
        has_label(load_prefix(lines, k)->Ok_0.table, x) || load_prefix(lines, k)->Ok_0.current == x,
    decreases k,
{
    reveal_strlit("label");
    if k == i + 1 {
    } else {
        lemma_declared_stays(lines, i, (k - 1) as nat, x);
        let st = load_prefix(lines, (k - 1) as nat)->Ok_0;
        let next = load_prefix(lines, k)->Ok_0;
        if has_label(st.table, x) {
            let w = choose|w: int| 0 <= w < st.table.len() && st.table[w].0 == x;
            if lines[k - 1].len() > 0 && lines[k - 1][0] == "label"@ {
                assert(next.table[w].0 == x);
            }
        } else if lines[k - 1].len() > 0 && lines[k - 1][0] == "label"@ {
            assert(next.table[st.table.len() as int].0 == x);
        }
    }
}

proof fn lemma_error_stays(lines: Seq<Seq<Seq<char>>>, n: nat)
    requires
        n <= lines.len(),
        load_prefix(lines, n) is Err,
    ensures
        load_prefix(lines, lines.len()) is Err,
    decreases lines.len() - n,
{
    if n < lines.len() {
        lemma_error_stays(lines, n + 1);
    }
}

/// A label declared twice stops loading, so neither block ever runs.
pub proof fn law_duplicate_label_rejected(lines: Seq<Seq<Seq<char>>>, i: nat, j: nat, x: Seq<char>)
    requires
        i < j < lines.len(),
        lines[i as int] == seq!["label"@, x],
        lines[j as int] == seq!["label"@, x],
    ensures
        load_spec(lines) is Err,
{
    reveal_strlit("label");
    if load_prefix(lines, j) is Err {
        lemma_error_stays(lines, j);
    } else {
        lemma_declared_stays(lines, i, j, x);
        let st = load_prefix(lines, j)->Ok_0;
        let table = st.table.push((st.current, st.buffer));
        if has_label(st.table, x) {
            let w = choose|w: int| 0 <= w < st.table.len() && st.table[w].0 == x;
            assert(table[w].0 == x);
        } else {
            assert(table[st.table.len() as int].0 == x);
        }
        assert(load_prefix(lines, j + 1) is Err);
        lemma_error_stays(lines, j + 1);
    }
}


/// A word outside string literals: no space, no quote, no line break.
pub open spec fn is_plain_word(w: Seq<char>) -> bool {
    &&& w.len() > 0
    &&& forall|j: int| 0 <= j < w.len() ==> {
        let c = #[trigger] w[j];
        c != ' ' && c != '"' && c != '\n' && c != '\r'
    }
}

/// What may stand between the quotes of a literal on one line.
pub open spec fn is_literal_body(c: Seq<char>) -> bool {
    forall|j: int| 0 <= j < c.len() ==> {
        let x = #[trigger] c[j];
        x != '"' && x != '\n' && x != '\r'
    }
}

proof fn lemma_scan_plain_run(line: Seq<char>, s: nat, k: nat, w: Seq<char>, start: Scanner, p: Seq<char>, toks: Seq<Seq<char>>)
    requires
        k <= w.len(),
        s + k < line.len(),
        forall|j: int| 0 <= j < w.len() ==> line[s + j] == w[j],
        is_plain_word(w),
        scan_prefix(line, s, start) == (Scanner { in_string: false, plain: p, quoted: Seq::empty(), tokens: toks }, false),
    ensures
        scan_prefix(line, s + k, start) == (
            Scanner { in_string: false, plain: p + w.take(k as int), quoted: Seq::empty(), tokens: toks },
            false,
        ),
    decreases k,
{
    if k == 0 {
        assert(p + w.take(0) =~= p);
    } else {
        lemma_scan_plain_run(line, s, (k - 1) as nat, w, start, p, toks);
        assert(line[s + k - 1] == w[k - 1]);
        assert(p + w.take(k as int) =~= (p + w.take(k - 1)).push(w[k - 1]));
    }
}

proof fn lemma_scan_literal_run(line: Seq<char>, s: nat, k: nat, c: Seq<char>, start: Scanner, p: Seq<char>, toks: Seq<Seq<char>>)
    requires
        k <= c.len(),
        s + c.len() < line.len(),
        forall|j: int| 0 <= j < c.len() ==> line[s + j] == c[j],
        is_literal_body(c),
        scan_prefix(line, s, start) == (Scanner { in_string: true, plain: p, quoted: seq!['"'], tokens: toks }, false),
    ensures
        scan_prefix(line, s + k, start) == (
            Scanner { in_string: true, plain: p, quoted: seq!['"'] + c.take(k as int), tokens: toks },
            false,
        ),
    decreases k,
{
    if k == 0 {
        assert(seq!['"'] + c.take(0) =~= seq!['"']);
    } else {
        lemma_scan_literal_run(line, s, (k - 1) as nat, c, start, p, toks);
        assert(line[s + k - 1] == c[k - 1]);
        assert(seq!['"'] + c.take(k as int) =~= (seq!['"'] + c.take(k - 1)).push(c[k - 1]));
    }
}

proof fn lemma_no_cr(s: Seq<char>)
    requires
        forall|j: int| 0 <= j < s.len() ==> s[j] != '\r',
    ensures
        normalized_breaks(s) == s,
    decreases s.len(),
{
    if s.len() > 0 {
        lemma_no_cr(s.drop_first());
        assert(seq![s[0]] + s.drop_first() =~= s);
    }
}

proof fn lemma_no_newline(s: Seq<char>, n: nat)
    requires
        n <= s.len(),
        forall|j: int| 0 <= j < s.len() ==> s[j] != '\n',
    ensures
        split_prefix(s, n, '\n') == seq![s.take(n as int)],
    decreases n,
{
    if n == 0 {
        assert(s.take(0) =~= Seq::<char>::empty());
    } else {
        lemma_no_newline(s, (n - 1) as nat);
        assert(s.take(n as int) =~= s.take(n - 1).push(s[n - 1]));
        assert(seq![s.take(n - 1)].update(0, s.take(n - 1).push(s[n - 1])) =~= seq![s.take(n as int)]);
    }
}

/// A line of two plain words and a string literal, such as
/// `var x "a b c"`, tokenizes to the two words and the whole literal, quotes
/// kept and the spaces inside it too.
pub proof fn law_literal_is_one_token(a: Seq<char>, b: Seq<char>, c: Seq<char>)
    requires
        is_plain_word(a),
        is_plain_word(b),
        is_literal_body(c),
        !is_white_space(a[0]),
    ensures
        lex_spec(a + seq![' '] + b + seq![' '] + quoted(c)) == (
            seq![seq![a, b, quoted(c)]],
            None::<Seq<char>>,
        ),
{
    let line = a + seq![' '] + b + seq![' '] + quoted(c);
    let st0 = Scanner { tokens: Seq::empty(), ..scanner_start() };
    let la = a.len();
    let lb = b.len();
    assert(line.len() == la + lb + c.len() + 4);
    assert forall|j: int| 0 <= j < la implies line[j] == a[j] by {}
    assert(line[la as int] == ' ');
    assert forall|j: int| 0 <= j < lb implies line[la + 1 + j] == b[j] by {}
    assert(line[(la + 1 + lb) as int] == ' ');
    assert(line[(la + lb + 2) as int] == '"');
    assert forall|j: int| 0 <= j < c.len() implies line[la + lb + 3 + j] == c[j] by {}
    assert(line[(la + lb + 3 + c.len()) as int] == '"');
    assert(scan_prefix(line, 0, st0) == (st0, false));
    assert(st0 == Scanner { in_string: false, plain: Seq::<char>::empty(), quoted: Seq::<char>::empty(), tokens: Seq::<Seq<char>>::empty() });
    lemma_scan_plain_run(line, 0, la, a, st0, Seq::empty(), Seq::empty());
    assert(Seq::<char>::empty() + a.take(la as int) =~= a);
    let t1 = seq![a];
    assert(scan_prefix(line, la + 1, st0) == (
        Scanner { in_string: false, plain: Seq::<char>::empty(), quoted: Seq::<char>::empty(), tokens: t1 },
        false,
    )) by {
        assert(Seq::<Seq<char>>::empty().push(a) =~= t1);
    }
    lemma_scan_plain_run(line, la + 1, lb, b, st0, Seq::empty(), t1);
    assert(Seq::<char>::empty() + b.take(lb as int) =~= b);
    let t2 = seq![a, b];
    assert(scan_prefix(line, la + lb + 2, st0) == (
        Scanner { in_string: false, plain: Seq::<char>::empty(), quoted: Seq::<char>::empty(), tokens: t2 },
        false,
    )) by {
        assert(t1.push(b) =~= t2);
    }
    assert(scan_prefix(line, la + lb + 3, st0) == (
        Scanner { in_string: true, plain: Seq::<char>::empty(), quoted: seq!['"'], tokens: t2 },
        false,
    )) by {
        assert(Seq::<char>::empty().push('"') =~= seq!['"']);
    }
    lemma_scan_literal_run(line, la + lb + 3, c.len(), c, st0, Seq::empty(), t2);
    assert(seq!['"'] + c.take(c.len() as int) =~= seq!['"'] + c);
    assert((seq!['"'] + c).push('"') =~= quoted(c));
    let t3 = seq![a, b, quoted(c)];
    assert(t2.push(quoted(c)) =~= t3);
    assert(scan_prefix(line, line.len(), st0) == (
        Scanner { in_string: false, plain: Seq::<char>::empty(), quoted: Seq::<char>::empty(), tokens: t3 },
        false,
    ));
    assert forall|j: int| 0 <= j < line.len() implies line[j] != '\r' && line[j] != '\n' by {
        if j < la {
        } else if j == la {
        } else if j < la + 1 + lb {
            assert(line[j] == b[j - la - 1]);
        } else if j == la + 1 + lb || j == la + lb + 2 {
        } else if j < la + lb + 3 + c.len() {
            assert(line[j] == c[j - la - lb - 3]);
        } else {
        }
    }
    lemma_no_cr(line);
    assert(trim_start(line) == line);
    assert(trim_end(line) == line);
    lemma_no_newline(line, line.len());
    assert(line.take(line.len() as int) =~= line);
    assert(split_lines(line) == seq![line]);
    assert(scan_line(line, scanner_start()) == scan_prefix(line, line.len(), st0));
    assert(lex_prefix(seq![line], 0).0 == scanner_start());
    assert(lex_prefix(seq![line], 1).1 =~= seq![t3]);
}


/// A field of a line: a plain word, or a whole string literal.
pub open spec fn is_field(f: Seq<char>) -> bool {
    ||| is_plain_word(f)
    ||| (f.len() >= 2 && f[0] == '"' && f.last() == '"' && is_literal_body(f.subrange(1, f.len() - 1)))
}

/// Nothing is pending between lines: no open literal, no partial token.
pub open spec fn is_clean(st: Scanner) -> bool {
    &&& !st.in_string
    &&& st.plain == Seq::<char>::empty()
    &&& st.quoted == Seq::<char>::empty()
}

/// Where field `k` starts in the line of `fields` joined by single spaces.
pub open spec fn field_start(fields: Seq<Seq<char>>, k: nat) -> nat {
    if k == 0 {
        0
    } else {
        joined(fields.take(k as int)).len() + 1
    }
}

proof fn lemma_joined_prefix(fields: Seq<Seq<char>>, m: nat)
    requires
        1 <= m <= fields.len(),
    ensures
        joined(fields.take(m as int)).len() <= joined(fields).len(),
        forall|i: int|
            0 <= i < joined(fields.take(m as int)).len() ==> joined(fields)[i] == #[trigger] joined(
                fields.take(m as int),
            )[i],
    decreases fields.len() - m,
{
    if m == fields.len() {
        assert(fields.take(m as int) =~= fields);
    } else {
        lemma_joined_prefix(fields, m + 1);
        let t = fields.take(m as int + 1);
        assert(t.drop_last() =~= fields.take(m as int));
        assert(joined(t) == joined(fields.take(m as int)) + " "@ + fields[m as int]);
        assert forall|i: int| 0 <= i < joined(fields.take(m as int)).len() implies joined(fields)[i]
            == #[trigger] joined(fields.take(m as int))[i] by {
            assert(joined(t)[i] == joined(fields.take(m as int))[i]);
        }
    }
}

proof fn lemma_field_layout(fields: Seq<Seq<char>>, k: nat)
    requires
        k < fields.len(),
    ensures
        forall|j: int|
            0 <= j < fields[k as int].len() ==> joined(fields)[field_start(fields, k) + j] == #[trigger] fields[k as int][j],
        k + 1 < fields.len() ==> joined(fields)[(field_start(fields, k) + fields[k as int].len()) as int] == ' ',
        k + 1 < fields.len() ==> field_start(fields, k + 1) == field_start(fields, k) + fields[k as int].len() + 1,
        k + 1 == fields.len() ==> joined(fields).len() == field_start(fields, k) + fields[k as int].len(),
        k + 1 < fields.len() ==> field_start(fields, k) + fields[k as int].len() < joined(fields).len(),
        field_start(fields, k) + fields[k as int].len() <= joined(fields).len(),
{
    reveal_strlit(" ");
    let q = joined(fields.take(k as int + 1));
    lemma_joined_prefix(fields, k + 1);
    let f = fields[k as int];
    if k == 0 {
        assert(fields.take(1) =~= seq![f]);
        assert(q == f);
    } else {
        assert(fields.take(k as int + 1).drop_last() =~= fields.take(k as int));
        assert(q == joined(fields.take(k as int)) + " "@ + f);
    }
    assert(q.len() == field_start(fields, k) + f.len());
    assert forall|j: int| 0 <= j < f.len() implies joined(fields)[field_start(fields, k) + j] == #[trigger] f[j] by {
        assert(q[field_start(fields, k) + j] == f[j]);
    }
    if k + 1 < fields.len() {
        lemma_joined_prefix(fields, k + 2);
        let r = joined(fields.take(k as int + 2));
        assert(fields.take(k as int + 2).drop_last() =~= fields.take(k as int + 1));
        assert(r == q + " "@ + fields[k as int + 1]);
        assert(r[q.len() as int] == ' ');
    }
    if k + 1 == fields.len() {
        assert(fields.take(k as int + 1) =~= fields);
    }
}

proof fn lemma_scan_field(line: Seq<char>, fields: Seq<Seq<char>>, k: nat, start: Scanner, toks: Seq<Seq<char>>)
    requires
        line == joined(fields),
        k < fields.len(),
        is_field(fields[k as int]),
        scan_prefix(line, field_start(fields, k), start) == (
            Scanner { in_string: false, plain: Seq::empty(), quoted: Seq::empty(), tokens: toks },
            false,
        ),
    ensures
        k + 1 < fields.len() ==> scan_prefix(line, field_start(fields, k + 1), start) == (
            Scanner { in_string: false, plain: Seq::empty(), quoted: Seq::empty(), tokens: toks.push(fields[k as int]) },
            false,
        ),
        k + 1 == fields.len() ==> scan_prefix(line, line.len(), start) == (
            Scanner { in_string: false, plain: Seq::empty(), quoted: Seq::empty(), tokens: toks.push(fields[k as int]) },
            false,
        ),
{
    lemma_field_layout(fields, k);
    let f = fields[k as int];
    let s = field_start(fields, k);
    let e = s + f.len();
    assert forall|j: int| 0 <= j < f.len() implies line[s + j] == f[j] by {
        assert(line[s + j] == f[j]);
    }
    if is_plain_word(f) {
        if k + 1 < fields.len() {
            lemma_scan_plain_run(line, s, f.len(), f, start, Seq::empty(), toks);
            assert(Seq::<char>::empty() + f.take(f.len() as int) =~= f);
            assert(line[e as int] == ' ');
            assert(scan_prefix(line, e + 1, start) == scan_char(
                Scanner { in_string: false, plain: f, quoted: Seq::<char>::empty(), tokens: toks },
                ' ',
                e + 1 == line.len(),
            ));
            assert(field_start(fields, k + 1) == e + 1);
        } else {
            lemma_scan_plain_run(line, s, (f.len() - 1) as nat, f, start, Seq::empty(), toks);
            assert(line[e - 1] == f[f.len() - 1]);
            assert((Seq::<char>::empty() + f.take(f.len() - 1)).push(f[f.len() - 1]) =~= f);
        }
    } else {
        let c = f.subrange(1, f.len() - 1);
        assert(line[s as int] == f[0]);
        assert(s + 1 < line.len());
        assert(scan_prefix(line, s + 1, start) == scan_char(
            Scanner { in_string: false, plain: Seq::<char>::empty(), quoted: Seq::<char>::empty(), tokens: toks },
            '"',
            false,
        ));
        assert(scan_prefix(line, s + 1, start) == (
            Scanner { in_string: true, plain: Seq::<char>::empty(), quoted: seq!['"'], tokens: toks },
            false,
        )) by {
            assert(Seq::<char>::empty().push('"') =~= seq!['"']);
        }
        assert forall|j: int| 0 <= j < c.len() implies line[s + 1 + j] == c[j] by {
            assert(line[s + (1 + j)] == f[1 + j]);
        }
        lemma_scan_literal_run(line, s + 1, c.len(), c, start, Seq::empty(), toks);
        assert(seq!['"'] + c.take(c.len() as int) =~= seq!['"'] + c);
        assert(line[e - 1] == f[f.len() - 1]);
        assert((seq!['"'] + c).push('"') =~= f);
        let st_e = Scanner { in_string: false, plain: Seq::<char>::empty(), quoted: Seq::<char>::empty(), tokens: toks.push(f) };
        assert(scan_prefix(line, e, start) == (st_e, false));
        if k + 1 < fields.len() {
            assert(line[e as int] == ' ');
            assert(scan_prefix(line, e + 1, start) == scan_char(st_e, ' ', e + 1 == line.len()));
            assert(field_start(fields, k + 1) == e + 1);
        }
    }
}

proof fn lemma_scan_fields(line: Seq<char>, fields: Seq<Seq<char>>, k: nat, start: Scanner)
    requires
        line == joined(fields),
        k < fields.len(),
        forall|i: int| 0 <= i < fields.len() ==> is_field(#[trigger] fields[i]),
        is_clean(start),
        start.tokens == Seq::<Seq<char>>::empty(),
    ensures
        scan_prefix(line, field_start(fields, k), start) == (
            Scanner { in_string: false, plain: Seq::empty(), quoted: Seq::empty(), tokens: fields.take(k as int) },
            false,
        ),
    decreases k,
{
    if k == 0 {
        assert(fields.take(0) =~= Seq::<Seq<char>>::empty());
    } else {
        lemma_scan_fields(line, fields, (k - 1) as nat, start);
        lemma_scan_field(line, fields, (k - 1) as nat, start, fields.take(k - 1));
        assert(fields.take(k - 1).push(fields[k - 1]) =~= fields.take(k as int));
    }
}

/// A line of plain words and whole string literals, one space between each
/// two, tokenizes to exactly those fields: a literal is one token with its
/// quotes and inner spaces, and nothing outside literals is dropped. Nothing
/// is left pending for the next line.
pub proof fn law_fields_are_tokens(fields: Seq<Seq<char>>, carried: Scanner)
    requires
        forall|i: int| 0 <= i < fields.len() ==> is_field(#[trigger] fields[i]),
        is_clean(carried),
    ensures
        scan_line(joined(fields), carried) == (
            Scanner { in_string: false, plain: Seq::empty(), quoted: Seq::empty(), tokens: fields },
            false,
        ),
{
    let line = joined(fields);
    let start = Scanner { tokens: Seq::empty(), ..carried };
    if fields.len() == 0 {
        assert(line.len() == 0);
        assert(fields =~= Seq::<Seq<char>>::empty());
        assert(scan_line(line, carried) == (start, false));
    } else {
        let n = fields.len();
        lemma_scan_fields(line, fields, (n - 1) as nat, start);
        lemma_scan_field(line, fields, (n - 1) as nat, start, fields.take(n - 1));
        assert(fields.take(n - 1).push(fields[n - 1]) =~= fields);
    }
}


proof fn lemma_lex_fields(lines: Seq<Seq<char>>, fields: Seq<Seq<Seq<char>>>, k: nat)
    requires
        k <= lines.len(),
        lines.len() == fields.len(),
        forall|i: int| 0 <= i < lines.len() ==> lines[i] == joined(#[trigger] fields[i]),
        forall|i: int, j: int| 0 <= i < fields.len() && 0 <= j < fields[i].len() ==> is_field(#[trigger] fields[i][j]),
    ensures
        is_clean(lex_prefix(lines, k).0),
        lex_prefix(lines, k).1 == fields.take(k as int),
        lex_prefix(lines, k).2 is None,
    decreases k,
{
    if k == 0 {
        assert(fields.take(0) =~= Seq::<Seq<Seq<char>>>::empty());
    } else {
        lemma_lex_fields(lines, fields, (k - 1) as nat);
        let f = fields[k - 1];
        assert forall|j: int| 0 <= j < f.len() implies is_field(#[trigger] f[j]) by {
            assert(is_field(fields[k - 1][j]));
        }
        law_fields_are_tokens(f, lex_prefix(lines, (k - 1) as nat).0);
        assert(fields.take(k - 1).push(f) =~= fields.take(k as int));
    }
}

/// A source text whose every line (after line breaks are made uniform and
/// the text is trimmed) is plain words and whole string literals, one space
/// between each two, lexes without error to exactly those fields, line by
/// line.
pub proof fn law_lines_of_fields(code: Seq<char>, fields: Seq<Seq<Seq<char>>>)
    requires
        trimmed(normalized_breaks(code)).len() > 0,
        source_lines(code).len() == fields.len(),
        forall|i: int| 0 <= i < fields.len() ==> source_lines(code)[i] == joined(#[trigger] fields[i]),
        forall|i: int, j: int| 0 <= i < fields.len() && 0 <= j < fields[i].len() ==> is_field(#[trigger] fields[i][j]),
    ensures
        lex_spec(code) == (fields, None::<Seq<char>>),
{
    let lines = source_lines(code);
    lemma_lex_fields(lines, fields, lines.len());
    assert(fields.take(fields.len() as int) =~= fields);
}

} // verus!
