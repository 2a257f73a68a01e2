use vstd::prelude::*;
use vstd::string::*;
use crate::errors::{Error, located, located_error};
use crate::lexer::{Line, lines_view, texts};
use crate::text::{decimal, same_text, usize_text};

verus! {

/// A block: its instruction lines, each with its source line number.
pub type BlockView = Seq<(nat, Seq<Seq<char>>)>;

/// The label table: each label with its block, in the order of declaration.
pub type TableView = Seq<(Seq<char>, BlockView)>;

/// Whether `table` has a block named `name`.
pub open spec fn has_label(table: TableView, name: Seq<char>) -> bool {
    exists|i: int| 0 <= i < table.len() && table[i].0 == name
}

/// No label is declared twice.
pub open spec fn labels_unique(table: TableView) -> bool {
    forall|i: int, j: int| 0 <= i < j < table.len() ==> table[i].0 != table[j].0
}

/// The loader's state between lines: the closed blocks, the label in force
/// and the lines gathered under it.
pub struct LoadState {
    pub table: TableView,
    pub current: Seq<char>,
    pub buffer: BlockView,
}

/// The message for a `label` line with other than one operand.
pub open spec fn arity_problem(expected: nat, got: nat) -> Seq<char> {
    "Expected "@ + decimal(expected) + (if expected == 1 { " argument, got "@ } else {
        " arguments, got "@
    }) + decimal(got) + "."@
}

/// The message for a label declared a second time.
pub open spec fn duplicate_label_problem(name: Seq<char>) -> Seq<char> {
    "Label `"@ + name + "` already exists."@
}

/// The message for a program without an entry block.
pub open spec fn no_entry_message() -> Seq<char> {
    "\nError: Could not execute\nProblem: No `.ENTRY` label."@
}

/// The loader on the line with tokens `toks` and source line number `no`.
pub open spec fn load_line(st: LoadState, toks: Seq<Seq<char>>, no: nat) -> Result<LoadState, Seq<char>> {
    if toks.len() == 0 {
        Ok(st)
    } else if toks[0] == "label"@ {
        if toks.len() != 2 {
            Err(located(no, toks, arity_problem(1, (toks.len() - 1) as nat)))
        } else {
            let table = st.table.push((st.current, st.buffer));
            if has_label(table, toks[1]) {
                Err(located(no, toks, duplicate_label_problem(toks[1])))
            } else {
                Ok(LoadState { table, current: toks[1], buffer: Seq::empty() })
            }
        }
    } else {
        Ok(LoadState { buffer: st.buffer.push((no, toks)), ..st })
    }
}

/// The loader after the first `n` lines; line numbers count from 1.
pub open spec fn load_prefix(lines: Seq<Seq<Seq<char>>>, n: nat) -> Result<LoadState, Seq<char>>
    decreases n,
{
    if n == 0 {
        Ok(LoadState { table: Seq::empty(), current: Seq::empty(), buffer: Seq::empty() })
    } else {
        match load_prefix(lines, (n - 1) as nat) {
            Err(m) => Err(m),
            Ok(st) => load_line(st, lines[n - 1], n),
        }
    }
}

/// The label table of a program, or the message of the error that stops
/// loading it. Lines before the first label form a block with the empty name,
/// which no jump can reach.
pub open spec fn load_spec(lines: Seq<Seq<Seq<char>>>) -> Result<TableView, Seq<char>> {
    match load_prefix(lines, lines.len()) {
        Err(m) => Err(m),
        Ok(st) => {
            let table = st.table.push((st.current, st.buffer));
            if has_label(table, ".ENTRY"@) {
                Ok(table)
            } else {
                Err(no_entry_message())
            }
        },
    }
}

/// The index of the first block named `name` at index `i` or later.
pub open spec fn label_from(table: TableView, name: Seq<char>, i: nat) -> Option<nat>
    decreases table.len() - i,
{
    if i >= table.len() {
        None
    } else if table[i as int].0 == name {
        Some(i)
    } else {
        label_from(table, name, i + 1)
    }
}

/// The index of the block named `name`.
pub open spec fn label_index(table: TableView, name: Seq<char>) -> Option<nat> {
    label_from(table, name, 0)
}

pub proof fn lemma_label_from(table: TableView, name: Seq<char>, i: nat)
    ensures
        label_from(table, name, i) is Some <==> exists|j: int| i <= j < table.len() && table[j].0 == name,
        label_from(table, name, i) matches Some(j) ==> i <= j < table.len() && table[j as int].0 == name,
    decreases table.len() - i,
{
    if i < table.len() {
        lemma_label_from(table, name, i + 1);
    }
}

/// The view of an executable block.
pub open spec fn block_view(b: Seq<(usize, Line)>) -> BlockView {
    b.map_values(|e: (usize, Line)| (e.0 as nat, e.1@))
}

/// A loaded program: its label table.
pub struct Program {
    labels: Vec<(String, Vec<(usize, Line)>)>,
}

impl View for Program {
    type V = TableView;

    closed spec fn view(&self) -> TableView {
        self.labels@.map_values(|e: (String, Vec<(usize, Line)>)| (e.0@, block_view(e.1@)))
    }
}

/// A copy of `line`.
pub fn copy_line(line: &Line) -> (r: Line)
    ensures
        r@ == line@,
{
    let mut toks: Vec<String> = Vec::new();
    let mut i: usize = 0;
    while i < line.0.len()
        invariant
            i <= line.0.len(),
            texts(toks@) == texts(line.0@).take(i as int),
        decreases line.0.len() - i,
    {
        let t = line.0[i].clone();
        assert(t@ == texts(line.0@)[i as int]);
        let ghost before = toks@;
        toks.push(t);
        assert(toks@ == before.push(t));
        assert(texts(toks@) =~= texts(before).push(t@));
        assert(texts(toks@) =~= texts(line.0@).take(i + 1));
        i = i + 1;
    }
    assert(texts(line.0@).take(line.0.len() as int) =~= texts(line.0@));
    Line(toks)
}

pub fn arity_text(expected: usize, got: usize) -> (r: String)
    ensures
        r@ == arity_problem(expected as nat, got as nat),
{
    let mut m = String::from_str("Expected ");
    m.append(usize_text(expected).as_str());
    if expected == 1 {
        m.append(" argument, got ");
    } else {
        m.append(" arguments, got ");
    }
    m.append(usize_text(got).as_str());
    m.append(".");
    m
}

impl Program {
    /// Whether the table has a block named `name`, and where.
    pub fn find_label(&self, name: &str) -> (r: Option<usize>)
        ensures
            r is Some <==> has_label(self@, name@),
            r matches Some(i) ==> i < self@.len() && self@[i as int].0 == name@,
            r matches Some(i) ==> label_index(self@, name@) == Some(i as nat),
            r is None ==> label_index(self@, name@) is None,
    {
        proof {
            lemma_label_from(self@, name@, 0);
        }
        let mut i: usize = 0;
        while i < self.labels.len()
            invariant
                i <= self.labels.len(),
                forall|j: int| 0 <= j < i ==> self@[j].0 != name@,
                label_index(self@, name@) == label_from(self@, name@, i as nat),
            decreases self.labels.len() - i,
        {
            if same_text(self.labels[i].0.as_str(), name) {
                assert(self@[i as int].0 == name@);
                return Some(i);
            }
            i = i + 1;
        }
        None
    }

    /// The number of blocks.
    pub fn block_count(&self) -> (r: usize)
        ensures
            r == self@.len(),
    {
        self.labels.len()
    }

    /// The number of lines in the block with index `b`.
    pub fn block_len(&self, b: usize) -> (r: usize)
        requires
            b < self@.len(),
        ensures
            r == self@[b as int].1.len(),
    {
        self.labels[b].1.len()
    }

    /// The line with index `i` of the block with index `b`, and its source
    /// line number.
    pub fn line_at(&self, b: usize, i: usize) -> (r: (usize, &Line))
        requires
            b < self@.len(),
            i < self@[b as int].1.len(),
        ensures
            (r.0 as nat, r.1@) == self@[b as int].1[i as int],
    {
        let e = &self.labels[b].1[i];
        (e.0, &e.1)
    }

    /// Splits instruction lines into labelled blocks. `label <name>` opens a
    /// block; every other non-empty line joins the block opened last. The
    /// error is a `RuntimeError` for a `label` line without exactly one
    /// operand, for a label declared twice, and for a program without
    /// `.ENTRY`.
    pub fn load(lines: &Vec<Line>) -> (r: Result<Program, Error>)
        ensures
            match load_spec(lines_view(lines@)) {
                Ok(t) => r matches Ok(p) && p@ == t,
                Err(m) => r matches Err(Error::RuntimeError(e)) && e@ == m,
            },
    {
        let ghost ls = lines_view(lines@);
        let mut table: Vec<(String, Vec<(usize, Line)>)> = Vec::new();
        let mut current = String::new();
        let mut buffer: Vec<(usize, Line)> = Vec::new();
        let mut n: usize = 0;
        assert((Program { labels: table })@ =~= Seq::empty());
        assert(block_view(buffer@) =~= Seq::empty());
        while n < lines.len()
            invariant
                ls == lines_view(lines@),
                n <= lines.len(),
                load_prefix(ls, n as nat) == Ok::<LoadState, Seq<char>>(
                    LoadState {
                        table: (Program { labels: table })@,
                        current: current@,
                        buffer: block_view(buffer@),
                    },
                ),
            decreases lines.len() - n,
        {
            let line = &lines[n];
            let no = n + 1;
            let ghost st = load_prefix(ls, n as nat)->Ok_0;
            assert(ls[n as int] == line@);
            if line.0.len() == 0 {
            } else if same_text(line.0[0].as_str(), "label") {
                if line.0.len() != 2 {
                    let problem = arity_text(1, line.0.len() - 1);
                    let e = located_error(no, line, problem.as_str());
                    proof {
                        lemma_load_error_stays(ls, no as nat);
                    }
                    return Err(e);
                }
                let finished = buffer;
                buffer = Vec::new();
                let name = line.0[1].clone();
                table.push((current, finished));
                assert((Program { labels: table })@ =~= st.table.push((st.current, st.buffer)));
                if self_has(&table, name.as_str()) {
                    let mut problem = String::from_str("Label `");
                    problem.append(name.as_str());
                    problem.append("` already exists.");
                    let e = located_error(no, line, problem.as_str());
                    proof {
                        lemma_load_error_stays(ls, no as nat);
                    }
                    return Err(e);
                }
                current = name;
                assert(block_view(buffer@) =~= Seq::empty());
            } else {
                buffer.push((no, copy_line(line)));
                assert(block_view(buffer@) =~= st.buffer.push((no as nat, line@)));
            }
            n = n + 1;
        }
        let ghost st = load_prefix(ls, n as nat)->Ok_0;
        table.push((current, buffer));
        let p = Program { labels: table };
        assert(p@ =~= st.table.push((st.current, st.buffer)));
        assert(ls.len() == n);
        if p.find_label(".ENTRY").is_none() {
            return Err(Error::RuntimeError(
                String::from_str("\nError: Could not execute\nProblem: No `.ENTRY` label."),
            ));
        }
        Ok(p)
    }
}

proof fn lemma_load_error_stays(lines: Seq<Seq<Seq<char>>>, n: nat)
    requires
        n <= lines.len(),
        load_prefix(lines, n) is Err,
    ensures
        load_prefix(lines, lines.len()) == load_prefix(lines, n),
    decreases lines.len() - n,
{
    if n < lines.len() {
        lemma_load_error_stays(lines, n + 1);
    }
}

fn self_has(table: &Vec<(String, Vec<(usize, Line)>)>, name: &str) -> (r: bool)
    ensures
        r == has_label(table@.map_values(|e: (String, Vec<(usize, Line)>)| (e.0@, block_view(e.1@))), name@),
{
    let ghost t = table@.map_values(|e: (String, Vec<(usize, Line)>)| (e.0@, block_view(e.1@)));
    let mut i: usize = 0;
    while i < table.len()
        invariant
            t == table@.map_values(|e: (String, Vec<(usize, Line)>)| (e.0@, block_view(e.1@))),
            i <= table.len(),
            forall|j: int| 0 <= j < i ==> t[j].0 != name@,
        decreases table.len() - i,
    {
        if same_text(table[i].0.as_str(), name) {
            assert(t[i as int].0 == name@);
            return true;
        }
        i = i + 1;
    }
    false
}

} // verus!
