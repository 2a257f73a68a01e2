use vstd::prelude::*;
use vstd::string::*;
use crate::lexer::{Line, texts};
use crate::text::{decimal, usize_text};

verus! {

/// The outcome of lexing, loading or running a program.
#[derive(PartialEq, Debug, Clone)]
pub enum Error {
    NoError,
    LexingError(String),
    RuntimeError(String),
}

/// The tokens of a line, one space between each two.
pub open spec fn joined(toks: Seq<Seq<char>>) -> Seq<char>
    decreases toks.len(),
{
    if toks.len() == 0 {
        Seq::empty()
    } else if toks.len() == 1 {
        toks[0]
    } else {
        joined(toks.drop_last()) + " "@ + toks.last()
    }
}

/// A problem on the instruction with source line `no` and tokens `toks`.
pub open spec fn located(no: nat, toks: Seq<Seq<char>>, problem: Seq<char>) -> Seq<char> {
    "\nCode:\n"@ + decimal(no) + " | "@ + joined(toks) + "\nProblem: "@ + problem
}

/// The text of `line`, its tokens joined by single spaces.
pub fn join_line(line: &Line) -> (r: String)
    ensures
        r@ == joined(line@),
{
    let toks = &line.0;
    let mut r = String::new();
    let mut i: usize = 0;
    while i < toks.len()
        invariant
            toks == &line.0,
            i <= toks.len(),
            r@ == joined(texts(toks@).take(i as int)),
        decreases toks.len() - i,
    {
        let ghost pre = texts(toks@).take(i as int);
        let ghost next = texts(toks@).take(i + 1);
        assert(next.drop_last() =~= pre);
        if i > 0 {
            r.append(" ");
        } else {
            assert(r@ + toks@[0]@ =~= toks@[0]@);
        }
        r.append(toks[i].as_str());
        i = i + 1;
    }
    assert(texts(toks@).take(toks.len() as int) =~= texts(toks@));
    r
}

/// A runtime error naming the instruction on source line `no`.
pub fn located_error(no: usize, line: &Line, problem: &str) -> (r: Error)
    ensures
        r matches Error::RuntimeError(m) && m@ == located(no as nat, line@, problem@),
{
    let mut m = String::from_str("\nCode:\n");
    m.append(usize_text(no).as_str());
    m.append(" | ");
    m.append(join_line(line).as_str());
    m.append("\nProblem: ");
    m.append(problem);
    Error::RuntimeError(m)
}

} // verus!
