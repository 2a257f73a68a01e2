use vstd::prelude::*;
use vstd::string::*;
use crate::ast::{Types, classify, class_name};
use crate::errors::{Error, located, located_error};
use crate::lexer::{Line, split_on, texts};
use crate::pattern::{regex_compiles, regex_finds, regex_match_count, regex_replaced};
use crate::program::{Program, TableView, arity_problem, copy_line, label_index, lemma_label_from};
use crate::text::{content, quoted, quote, decimal, trimmed, digits_value};
use crate::variables::{Variables, resolve_variable};
use crate::instructions::{Step, Waiting, cat3, execute, jump_step, step_is, temp_name};

verus! {

/// An arithmetic operation, which the host computes in floating point.
#[derive(PartialEq, Eq, Structural, Clone, Copy, Debug)]
pub enum Operator {
    Add,
    Sub,
    Mul,
    Div,
    Rem,
}

/// A numeric comparison, which the host makes in floating point.
#[derive(PartialEq, Eq, Structural, Clone, Copy, Debug)]
pub enum Order {
    Greater,
    Less,
}

/// What the machine asks its host to do after a step.
#[derive(Debug)]
pub enum Action {
    /// Nothing: step again.
    Continue,
    /// Write the text to standard output, as it is.
    Print(String),
    /// Parse both numbers as `f64`, apply the operator and answer the
    /// result, formatted with `{}`, as `Reply::Text`.
    Arithmetic(Operator, String, String),
    /// Parse both numbers as `f64`, compare them and answer `Reply::Truth`.
    Compare(Order, String, String),
    /// Answer `Reply::Truth`: whether the text parses as an `f64`.
    CheckNumber(String),
    /// Answer the host's operating-system name as `Reply::Text`.
    GetOs,
    /// Launch the program with the arguments and wait for it; answer
    /// `Reply::Done`, or `Reply::Failed` where it cannot be launched.
    Run(String, Vec<String>),
    /// Flush standard output, read one line of standard input and answer it
    /// as `Reply::Text`.
    ReadLine,
    /// Read the whole file at the path; answer its text as `Reply::Text`, or
    /// `Reply::Failed` with the reason.
    ReadFile(String),
    /// The entry block has run to its end.
    Finished,
    /// The program stopped on an error.
    Failed(Error),
}

/// What the host answers to the action of the previous step.
#[derive(Debug)]
pub enum Reply {
    Done,
    Text(String),
    Truth(bool),
    Failed(String),
}

/// The model of an action.
pub enum ActionView {
    Continue,
    Print(Seq<char>),
    Arithmetic(Operator, Seq<char>, Seq<char>),
    Compare(Order, Seq<char>, Seq<char>),
    CheckNumber(Seq<char>),
    GetOs,
    Run(Seq<char>, Seq<Seq<char>>),
    ReadLine,
    ReadFile(Seq<char>),
    Finished,
    Failed(Seq<char>),
}

/// The model of a reply.
pub enum ReplyView {
    Done,
    Text(Seq<char>),
    Truth(bool),
    Failed(Seq<char>),
}

impl View for Reply {
    type V = ReplyView;

    open spec fn view(&self) -> ReplyView {
        match self {
            Reply::Done => ReplyView::Done,
            Reply::Text(s) => ReplyView::Text(s@),
            Reply::Truth(b) => ReplyView::Truth(*b),
            Reply::Failed(s) => ReplyView::Failed(s@),
        }
    }
}

/// Whether `a` is the action that `v` describes; a failure is a
/// `RuntimeError` with the message.
pub open spec fn action_is(a: Action, v: ActionView) -> bool {
    match v {
        ActionView::Continue => a is Continue,
        ActionView::Print(s) => a matches Action::Print(x) && x@ == s,
        ActionView::Arithmetic(o, x, y) => a matches Action::Arithmetic(p, l, r) && p == o && l@ == x
            && r@ == y,
        ActionView::Compare(o, x, y) => a matches Action::Compare(p, l, r) && p == o && l@ == x && r@
            == y,
        ActionView::CheckNumber(s) => a matches Action::CheckNumber(x) && x@ == s,
        ActionView::GetOs => a is GetOs,
        ActionView::Run(c, args) => a matches Action::Run(x, v) && x@ == c && texts(v@) == args,
        ActionView::ReadLine => a is ReadLine,
        ActionView::ReadFile(s) => a matches Action::ReadFile(x) && x@ == s,
        ActionView::Finished => a is Finished,
        ActionView::Failed(m) => a matches Action::Failed(Error::RuntimeError(x)) && x@ == m,
    }
}

/// What an instruction that asked for outside work waits for.
pub enum WaitView {
    Nothing,
    /// A text to store in `TEMP` as it is.
    Store,
    /// A line of input, stored trimmed and quoted.
    Input,
    /// Whether to jump to the label.
    Branch(Seq<char>),
    /// Whether the text is a number.
    Number(Seq<char>),
    /// Whether the command (its text given) could be launched.
    Launch(Seq<char>),
    /// The text of the file that the string literal names.
    File(Seq<char>),
}

/// Whether `r` is a reply that `w` can take.
pub open spec fn expects(w: WaitView, r: ReplyView) -> bool {
    match w {
        WaitView::Nothing => true,
        WaitView::Store | WaitView::Input => r is Text,
        WaitView::Branch(_) | WaitView::Number(_) => r is Truth,
        WaitView::Launch(_) => r is Done || r is Failed,
        WaitView::File(_) => r is Text || r is Failed,
    }
}

/// What one instruction does.
pub enum Outcome {
    /// Nothing more: go on with the next line.
    Next,
    /// Store the value under the name.
    Assign(Seq<char>, Seq<char>),
    /// Print the text.
    Emit(Seq<char>),
    /// Run the block with this index, then come back.
    Call(nat),
    /// Ask the host for outside work, and wait.
    Ask(ActionView, WaitView),
    /// Stop with this problem.
    Fail(Seq<char>),
}

/// The result slot.
pub open spec fn temp() -> Seq<char> {
    "TEMP"@
}

/// A token as an operand: an identifier is resolved through the variables,
/// anything else stands for itself.
pub open spec fn operand(vars: Map<Seq<char>, Seq<char>>, tok: Seq<char>) -> Result<Seq<char>, Seq<char>> {
    if classify(tok) == Types::Identifier {
        resolve_variable(vars, tok)
    } else {
        Ok(tok)
    }
}

/// An operand that must be a number.
pub open spec fn number_operand(vars: Map<Seq<char>, Seq<char>>, tok: Seq<char>) -> Result<Seq<char>, Seq<char>> {
    if classify(tok) == Types::Identifier {
        match resolve_variable(vars, tok) {
            Err(m) => Err(m),
            Ok(v) => if classify(v) == Types::Number {
                Ok(v)
            } else {
                Err("Variable `"@ + tok + "` is of type `"@ + class_name(classify(v))
                    + "`, but `Number` is required."@)
            },
        }
    } else if classify(tok) == Types::Number {
        Ok(tok)
    } else {
        Err("`"@ + tok + "` is not a numeric type."@)
    }
}

/// A jump to the block named `name`.
pub open spec fn jump_to(table: TableView, name: Seq<char>) -> Outcome {
    match label_index(table, name) {
        Some(i) => Outcome::Call(i),
        None => Outcome::Fail("Label `"@ + name + "` does not exist."@),
    }
}

/// The type that `exists` names: `Number` or `String`.
pub open spec fn named_type(s: Seq<char>) -> Option<Types> {
    if s == "Number"@ {
        Some(Types::Number)
    } else if s == "String"@ {
        Some(Types::String)
    } else {
        None
    }
}

/// `exists`: the variable must exist and its stored value be of the named type.
pub open spec fn exists_spec(vars: Map<Seq<char>, Seq<char>>, name: Seq<char>, ty: Seq<char>) -> Outcome {
    if !vars.contains_key(name) {
        Outcome::Fail("Variable `"@ + name + "` does not exist."@)
    } else {
        match named_type(ty) {
            None => Outcome::Fail("Invalid type"@),
            Some(t) => if classify(vars[name]) == t {
                Outcome::Next
            } else {
                Outcome::Fail("Variable `"@ + name + "` is of type `"@ + class_name(classify(vars[name]))
                    + "`, but `"@ + class_name(t) + "` is required."@)
            },
        }
    }
}

/// `print`: a number as it is, a string literal's content, a variable's
/// resolved value (its content where it is a string).
pub open spec fn print_spec(vars: Map<Seq<char>, Seq<char>>, x: Seq<char>) -> Outcome {
    match classify(x) {
        Types::Number => Outcome::Emit(x),
        Types::String => Outcome::Emit(content(x)),
        Types::Identifier => match resolve_variable(vars, x) {
            Err(m) => Outcome::Fail(m),
            Ok(v) => if classify(v) == Types::String {
                Outcome::Emit(content(v))
            } else {
                Outcome::Emit(v)
            },
        },
        Types::Unknown => Outcome::Fail("Invalid type."@),
    }
}

/// `add`: strings are joined, a number beside a string is joined as text,
/// and two numbers are summed by the host.
pub open spec fn add_values(x: Seq<char>, y: Seq<char>, v1: Seq<char>, v2: Seq<char>) -> Outcome {
    let c1 = classify(v1);
    let c2 = classify(v2);
    if c1 == Types::String && c2 == Types::String {
        Outcome::Assign(temp(), quoted(content(v1) + content(v2)))
    } else if c1 == Types::Number && c2 == Types::String {
        Outcome::Assign(temp(), quoted(v1 + content(v2)))
    } else if c1 == Types::String && c2 == Types::Number {
        Outcome::Assign(temp(), quoted(content(v1) + v2))
    } else if c1 == Types::Number && c2 == Types::Number {
        Outcome::Ask(ActionView::Arithmetic(Operator::Add, v1, v2), WaitView::Store)
    } else {
        let bad = if c1 != Types::Number && c1 != Types::String { x } else { y };
        Outcome::Fail("Cannot add as `"@ + bad + "` is neither a string nor a number."@)
    }
}

/// `add` on the operands `x` and `y`.
pub open spec fn add_spec(vars: Map<Seq<char>, Seq<char>>, x: Seq<char>, y: Seq<char>) -> Outcome {
    match operand(vars, x) {
        Err(m) => Outcome::Fail(m),
        Ok(v1) => match operand(vars, y) {
            Err(m) => Outcome::Fail(m),
            Ok(v2) => add_values(x, y, v1, v2),
        },
    }
}

/// `sub`, `mul`, `div` and `mod`: two numbers, computed by the host.
pub open spec fn arith_spec(vars: Map<Seq<char>, Seq<char>>, op: Operator, x: Seq<char>, y: Seq<char>) -> Outcome {
    match number_operand(vars, x) {
        Err(m) => Outcome::Fail(m),
        Ok(v1) => match number_operand(vars, y) {
            Err(m) => Outcome::Fail(m),
            Ok(v2) => Outcome::Ask(ActionView::Arithmetic(op, v1, v2), WaitView::Store),
        },
    }
}

/// `jmp_gt` and `jmp_lt`: two numbers, compared by the host, which decides
/// the jump.
pub open spec fn compare_spec(vars: Map<Seq<char>, Seq<char>>, order: Order, x: Seq<char>, y: Seq<char>, label: Seq<char>) -> Outcome {
    match number_operand(vars, x) {
        Err(m) => Outcome::Fail(m),
        Ok(v1) => match number_operand(vars, y) {
            Err(m) => Outcome::Fail(m),
            Ok(v2) => Outcome::Ask(ActionView::Compare(order, v1, v2), WaitView::Branch(label)),
        },
    }
}

/// `jmp_eq` (`equal`) and `jmp_not_eq`: both operands must be of one class;
/// their texts are compared.
pub open spec fn equal_spec(
    table: TableView,
    vars: Map<Seq<char>, Seq<char>>,
    equal: bool,
    x: Seq<char>,
    y: Seq<char>,
    label: Seq<char>,
) -> Outcome {
    match operand(vars, x) {
        Err(m) => Outcome::Fail(m),
        Ok(v1) => match operand(vars, y) {
            Err(m) => Outcome::Fail(m),
            Ok(v2) => if classify(v1) != classify(v2) {
                Outcome::Fail("Cannot compare `"@ + x + "` and `"@ + y + "` as they are not the same type."@)
            } else if (v1 == v2) == equal {
                jump_to(table, label)
            } else {
                Outcome::Next
            },
        },
    }
}

/// `return`: the resolved operand goes to `TEMP`.
pub open spec fn return_spec(vars: Map<Seq<char>, Seq<char>>, x: Seq<char>) -> Outcome {
    match operand(vars, x) {
        Err(m) => Outcome::Fail(m),
        Ok(v) => Outcome::Assign(temp(), v),
    }
}

/// `cmd`: a string whose content, split at each space, is a program and its
/// arguments.
pub open spec fn cmd_spec(vars: Map<Seq<char>, Seq<char>>, x: Seq<char>) -> Outcome {
    match operand(vars, x) {
        Err(m) => Outcome::Fail(m),
        Ok(v) => if classify(v) != Types::String {
            Outcome::Fail("Cannot execute `"@ + v + "` as it is not a string."@)
        } else {
            let parts = split_on(content(v), ' ');
            Outcome::Ask(ActionView::Run(parts[0], parts.drop_first()), WaitView::Launch(content(v)))
        },
    }
}

/// `to_number`: the host checks that the text (a string's content) is a
/// number; the text then goes to `TEMP`.
pub open spec fn to_number_spec(vars: Map<Seq<char>, Seq<char>>, x: Seq<char>) -> Outcome {
    match operand(vars, x) {
        Err(m) => Outcome::Fail(m),
        Ok(v) => {
            let t = if classify(v) == Types::String { content(v) } else { v };
            Outcome::Ask(ActionView::CheckNumber(t), WaitView::Number(t))
        },
    }
}

/// `to_string`: a string stays, a number is quoted, anything else fails.
pub open spec fn to_string_spec(vars: Map<Seq<char>, Seq<char>>, x: Seq<char>) -> Outcome {
    match operand(vars, x) {
        Err(m) => Outcome::Fail(m),
        Ok(v) => if classify(v) == Types::String {
            Outcome::Assign(temp(), v)
        } else if classify(v) == Types::Number {
            Outcome::Assign(temp(), quoted(v))
        } else {
            Outcome::Fail("Cannot convert `"@ + v + "` to a string."@)
        },
    }
}

/// `read_file`: a string whose content is the path; the host reads the file.
pub open spec fn read_file_spec(vars: Map<Seq<char>, Seq<char>>, x: Seq<char>) -> Outcome {
    match operand(vars, x) {
        Err(m) => Outcome::Fail(m),
        Ok(v) => if classify(v) != Types::String {
            Outcome::Fail("Cannot read file `"@ + v + "` as it is not a string."@)
        } else {
            Outcome::Ask(ActionView::ReadFile(content(v)), WaitView::File(v))
        },
    }
}

/// The subject and the pattern of a regular-expression instruction: the
/// subject as it is stored (quotes kept), the pattern's content.
pub open spec fn regex_operands(vars: Map<Seq<char>, Seq<char>>, x: Seq<char>, p: Seq<char>) -> Result<(Seq<char>, Seq<char>), Seq<char>> {
    match operand(vars, x) {
        Err(m) => Err(m),
        Ok(item) => if classify(item) != Types::String {
            Err("Cannot check if `"@ + item + "` is a match for `"@ + p + "` as it is not a string."@)
        } else {
            match operand(vars, p) {
                Err(m) => Err(m),
                Ok(pat) => if classify(pat) != Types::String {
                    Err("Pattern `"@ + p + "` is not of type String."@)
                } else {
                    Ok((item, content(pat)))
                },
            }
        },
    }
}

/// The message for a pattern that does not compile.
pub open spec fn invalid_pattern(p: Seq<char>) -> Seq<char> {
    "Pattern `"@ + p + "` is not a valid regular expression."@
}

/// `is_match`: `"1"` or `"0"` in `TEMP`.
pub open spec fn is_match_spec(vars: Map<Seq<char>, Seq<char>>, x: Seq<char>, p: Seq<char>) -> Outcome {
    match regex_operands(vars, x, p) {
        Err(m) => Outcome::Fail(m),
        Ok((item, pat)) => if !regex_compiles(pat) {
            Outcome::Fail(invalid_pattern(p))
        } else if regex_finds(pat, item) {
            Outcome::Assign(temp(), "1"@)
        } else {
            Outcome::Assign(temp(), "0"@)
        },
    }
}

/// `count_matches`: the number of matches, in decimal, in `TEMP`.
pub open spec fn count_matches_spec(vars: Map<Seq<char>, Seq<char>>, x: Seq<char>, p: Seq<char>) -> Outcome {
    match regex_operands(vars, x, p) {
        Err(m) => Outcome::Fail(m),
        Ok((item, pat)) => if !regex_compiles(pat) {
            Outcome::Fail(invalid_pattern(p))
        } else {
            Outcome::Assign(temp(), decimal(regex_match_count(pat, item)))
        },
    }
}

/// The replacement of a replacing instruction, its content.
pub open spec fn replacement_operand(vars: Map<Seq<char>, Seq<char>>, r: Seq<char>) -> Result<Seq<char>, Seq<char>> {
    match operand(vars, r) {
        Err(m) => Err(m),
        Ok(v) => if classify(v) != Types::String {
            Err("Replacement `"@ + r + "` is not of type String."@)
        } else {
            Ok(content(v))
        },
    }
}

/// `replace_n` (with a count: the first that many matches are replaced, so a
/// count of 0 leaves the subject as it is) and `replace_all` (count `None`).
pub open spec fn replace_spec(
    vars: Map<Seq<char>, Seq<char>>,
    x: Seq<char>,
    p: Seq<char>,
    r: Seq<char>,
    count: Option<Seq<char>>,
) -> Outcome {
    match regex_operands(vars, x, p) {
        Err(m) => Outcome::Fail(m),
        Ok((item, pat)) => match replacement_operand(vars, r) {
            Err(m) => Outcome::Fail(m),
            Ok(rep) => match count {
                None => if !regex_compiles(pat) {
                    Outcome::Fail(invalid_pattern(p))
                } else {
                    Outcome::Assign(temp(), regex_replaced(pat, item, 0, rep))
                },
                Some(c) => match operand(vars, c) {
                    Err(m) => Outcome::Fail(m),
                    Ok(n) => if classify(n) != Types::Number {
                        Outcome::Fail("Count `"@ + c + "` is not of type Number."@)
                    } else if digits_value(n) > usize::MAX {
                        Outcome::Fail("Count `"@ + c + "` is too large."@)
                    } else if !regex_compiles(pat) {
                        Outcome::Fail(invalid_pattern(p))
                    } else if digits_value(n) == 0 {
                        Outcome::Assign(temp(), item)
                    } else {
                        Outcome::Assign(temp(), regex_replaced(pat, item, digits_value(n), rep))
                    },
                },
            },
        },
    }
}

/// `o`, once the instruction has exactly `k` operands.
pub open spec fn with_arity(toks: Seq<Seq<char>>, k: nat, o: Outcome) -> Outcome {
    if toks.len() != k + 1 {
        Outcome::Fail(arity_problem(k, (toks.len() - 1) as nat))
    } else {
        o
    }
}

/// What the instruction with tokens `toks` does, given the label table and
/// the variables.
pub open spec fn instruction(table: TableView, vars: Map<Seq<char>, Seq<char>>, toks: Seq<Seq<char>>) -> Outcome {
    if toks.len() == 0 {
        Outcome::Next
    } else {
        let op = toks[0];
        if op == "exists"@ {
            with_arity(toks, 2, exists_spec(vars, toks[1], toks[2]))
        } else if op == "var"@ {
            with_arity(toks, 2, match operand(vars, toks[2]) {
                Err(m) => Outcome::Fail(m),
                Ok(v) => Outcome::Assign(toks[1], v),
            })
        } else if op == "print"@ {
            with_arity(toks, 1, print_spec(vars, toks[1]))
        } else if op == "print_newline"@ {
            with_arity(toks, 0, Outcome::Emit("\n"@))
        } else if op == "add"@ {
            with_arity(toks, 2, add_spec(vars, toks[1], toks[2]))
        } else if op == "sub"@ {
            with_arity(toks, 2, arith_spec(vars, Operator::Sub, toks[1], toks[2]))
        } else if op == "mul"@ {
            with_arity(toks, 2, arith_spec(vars, Operator::Mul, toks[1], toks[2]))
        } else if op == "div"@ {
            with_arity(toks, 2, arith_spec(vars, Operator::Div, toks[1], toks[2]))
        } else if op == "mod"@ {
            with_arity(toks, 2, arith_spec(vars, Operator::Rem, toks[1], toks[2]))
        } else if op == "jmp"@ {
            with_arity(toks, 1, jump_to(table, toks[1]))
        } else if op == "jmp_gt"@ {
            with_arity(toks, 3, compare_spec(vars, Order::Greater, toks[1], toks[2], toks[3]))
        } else if op == "jmp_lt"@ {
            with_arity(toks, 3, compare_spec(vars, Order::Less, toks[1], toks[2], toks[3]))
        } else if op == "jmp_eq"@ {
            with_arity(toks, 3, equal_spec(table, vars, true, toks[1], toks[2], toks[3]))
        } else if op == "jmp_not_eq"@ {
            with_arity(toks, 3, equal_spec(table, vars, false, toks[1], toks[2], toks[3]))
        } else if op == "return"@ {
            with_arity(toks, 1, return_spec(vars, toks[1]))
        } else if op == "get_os"@ {
            with_arity(toks, 0, Outcome::Ask(ActionView::GetOs, WaitView::Store))
        } else if op == "cmd"@ {
            with_arity(toks, 1, cmd_spec(vars, toks[1]))
        } else if op == "input"@ {
            with_arity(toks, 0, Outcome::Ask(ActionView::ReadLine, WaitView::Input))
        } else if op == "to_number"@ {
            with_arity(toks, 1, to_number_spec(vars, toks[1]))
        } else if op == "to_string"@ {
            with_arity(toks, 1, to_string_spec(vars, toks[1]))
        } else if op == "read_file"@ {
            with_arity(toks, 1, read_file_spec(vars, toks[1]))
        } else if op == "is_match"@ {
            with_arity(toks, 2, is_match_spec(vars, toks[1], toks[2]))
        } else if op == "count_matches"@ {
            with_arity(toks, 2, count_matches_spec(vars, toks[1], toks[2]))
        } else if op == "replace_n"@ {
            with_arity(toks, 4, replace_spec(vars, toks[1], toks[2], toks[3], Some(toks[4])))
        } else if op == "replace_all"@ {
            with_arity(toks, 3, replace_spec(vars, toks[1], toks[2], toks[3], None))
        } else if op == "comment"@ {
            Outcome::Next
        } else {
            Outcome::Fail("Unknown command `"@ + op + "`."@)
        }
    }
}


/// The model of a running machine.
pub struct MachineView {
    /// The variable environment.
    pub vars: Map<Seq<char>, Seq<char>>,
    /// The blocks being run, innermost last: each a block index and the
    /// index of its next line.
    pub frames: Seq<(nat, nat)>,
    /// What the instruction begun last waits for.
    pub waiting: WaitView,
    /// The source line number and tokens of the instruction begun last.
    pub at: (nat, Seq<Seq<char>>),
}

/// Stops the machine with the problem, naming the instruction begun last.
pub open spec fn halt(m: MachineView, problem: Seq<char>) -> (MachineView, ActionView) {
    (
        MachineView { frames: Seq::empty(), waiting: WaitView::Nothing, ..m },
        ActionView::Failed(located(m.at.0, m.at.1, problem)),
    )
}

/// Carries out what an instruction does.
pub open spec fn apply(m: MachineView, o: Outcome) -> (MachineView, ActionView) {
    match o {
        Outcome::Next => (m, ActionView::Continue),
        Outcome::Assign(k, v) => (MachineView { vars: m.vars.insert(k, v), ..m }, ActionView::Continue),
        Outcome::Emit(s) => (m, ActionView::Print(s)),
        Outcome::Call(b) => (MachineView { frames: m.frames.push((b, 0)), ..m }, ActionView::Continue),
        Outcome::Ask(a, w) => (MachineView { waiting: w, ..m }, a),
        Outcome::Fail(p) => halt(m, p),
    }
}

/// Takes the host's reply to the instruction that waits for it.
pub open spec fn answer(table: TableView, m: MachineView, r: ReplyView) -> (MachineView, ActionView) {
    let m0 = MachineView { waiting: WaitView::Nothing, ..m };
    match (m.waiting, r) {
        (WaitView::Store, ReplyView::Text(v)) => apply(m0, Outcome::Assign(temp(), v)),
        (WaitView::Input, ReplyView::Text(l)) => apply(m0, Outcome::Assign(temp(), quoted(trimmed(l)))),
        (WaitView::Branch(name), ReplyView::Truth(b)) => if b {
            apply(m0, jump_to(table, name))
        } else {
            (m0, ActionView::Continue)
        },
        (WaitView::Number(t), ReplyView::Truth(b)) => if b {
            apply(m0, Outcome::Assign(temp(), t))
        } else {
            halt(m0, "Cannot convert `"@ + t + "` to a number."@)
        },
        (WaitView::Launch(c), ReplyView::Failed(e)) => halt(m0, "Failed to execute command `"@ + c + "`: "@ + e),
        (WaitView::File(v), ReplyView::Text(c)) => apply(m0, Outcome::Assign(temp(), quoted(c))),
        (WaitView::File(v), ReplyView::Failed(e)) => halt(m0, "Failed to read file `"@ + v + "`: "@ + e),
        _ => (m0, ActionView::Continue),
    }
}

/// One step of the machine: a pending reply is taken; else the innermost
/// block runs its next line, or, at its end, returns to the line after the
/// jump that called it.
pub open spec fn step_spec(table: TableView, m: MachineView, r: ReplyView) -> (MachineView, ActionView) {
    if !(m.waiting is Nothing) {
        answer(table, m, r)
    } else if m.frames.len() == 0 {
        (m, ActionView::Finished)
    } else {
        let (b, pc) = m.frames.last();
        if pc >= table[b as int].1.len() {
            (MachineView { frames: m.frames.drop_last(), ..m }, ActionView::Continue)
        } else {
            let (no, toks) = table[b as int].1[pc as int];
            let m1 = MachineView {
                frames: m.frames.update(m.frames.len() - 1, (b, pc + 1)),
                at: (no, toks),
                ..m
            };
            apply(m1, instruction(table, m.vars, toks))
        }
    }
}


proof fn lemma_jump_in_range(table: TableView, name: Seq<char>)
    ensures
        jump_to(table, name) matches Outcome::Call(b) ==> b < table.len(),
{
    lemma_label_from(table, name, 0);
}

/// A program being run: the label table, the variables, and the stack of
/// blocks being run. Each jump runs its target block as a call and comes
/// back to the line after it; the stack lives on the heap, so a deep chain
/// of jumps grows memory rather than the host's call stack.
pub struct Machine {
    program: Program,
    vars: Variables,
    frames: Vec<(usize, usize)>,
    waiting: Waiting,
    at_no: usize,
    at_line: Line,
}

impl View for Machine {
    type V = MachineView;

    closed spec fn view(&self) -> MachineView {
        MachineView {
            vars: self.vars@,
            frames: self.frames@.map_values(|f: (usize, usize)| (f.0 as nat, f.1 as nat)),
            waiting: self.waiting@,
            at: (self.at_no as nat, self.at_line@),
        }
    }
}

impl Machine {
    /// The label table of the program.
    pub closed spec fn table(&self) -> TableView {
        self.program@
    }

    /// The variables are well formed and every frame points into its block.
    pub closed spec fn wf(&self) -> bool {
        &&& self.vars.wf()
        &&& forall|i: int|
            0 <= i < self.frames@.len() ==> {
                let (b, pc) = #[trigger] self.frames@[i];
                &&& b < self.program@.len()
                &&& pc <= self.program@[b as int].1.len()
            }
    }

    /// A machine about to run the `.ENTRY` block of `program`, with no
    /// variables.
    pub fn new(program: Program) -> (r: Machine)
        ensures
            r.wf(),
            r.table() == program@,
            r@.vars == Map::<Seq<char>, Seq<char>>::empty(),
            r@.waiting is Nothing,
            r@.frames == match label_index(program@, ".ENTRY"@) {
                Some(i) => seq![(i, 0nat)],
                None => Seq::<(nat, nat)>::empty(),
            },
    {
        let mut frames: Vec<(usize, usize)> = Vec::new();
        match program.find_label(".ENTRY") {
            Some(i) => frames.push((i, 0)),
            None => {},
        }
        let r = Machine {
            program,
            vars: Variables::new(),
            frames,
            waiting: Waiting::Nothing,
            at_no: 0,
            at_line: Line(Vec::new()),
        };
        assert(r@.frames =~= match label_index(r.program@, ".ENTRY"@) {
            Some(i) => seq![(i, 0nat)],
            None => Seq::<(nat, nat)>::empty(),
        });
        r
    }

    /// The value stored under `name`, if there is one.
    pub fn variable(&self, name: &str) -> (r: Option<String>)
        requires
            self.wf(),
        ensures
            r is Some <==> self@.vars.contains_key(name@),
            r matches Some(v) ==> v@ == self@.vars[name@],
    {
        self.vars.get(name)
    }

    /// Whether the machine can take `reply` at its next step.
    pub fn expects_reply(&self, reply: &Reply) -> (r: bool)
        ensures
            r == expects(self@.waiting, reply@),
    {
        match (&self.waiting, reply) {
            (Waiting::Nothing, _) => true,
            (Waiting::Store, Reply::Text(_)) => true,
            (Waiting::Input, Reply::Text(_)) => true,
            (Waiting::Branch(_), Reply::Truth(_)) => true,
            (Waiting::Number(_), Reply::Truth(_)) => true,
            (Waiting::Launch(_), Reply::Done) => true,
            (Waiting::Launch(_), Reply::Failed(_)) => true,
            (Waiting::File(_), Reply::Text(_)) => true,
            (Waiting::File(_), Reply::Failed(_)) => true,
            _ => false,
        }
    }

    fn halt(&mut self, problem: &str) -> (r: Action)
        requires
            old(self).wf(),
        ensures
            final(self).wf(),
            final(self).table() == old(self).table(),
            final(self)@ == halt(old(self)@, problem@).0,
            action_is(r, halt(old(self)@, problem@).1),
    {
        self.frames = Vec::new();
        self.waiting = Waiting::Nothing;
        assert(self@.frames =~= Seq::<(nat, nat)>::empty());
        Action::Failed(located_error(self.at_no, &self.at_line, problem))
    }

    fn apply(&mut self, s: Step, Ghost(o): Ghost<Outcome>) -> (r: Action)
        requires
            old(self).wf(),
            old(self)@.waiting is Nothing,
            step_is(s, o),
            o matches Outcome::Call(b) ==> b < old(self).table().len(),
        ensures
            final(self).wf(),
            final(self).table() == old(self).table(),
            final(self)@ == apply(old(self)@, o).0,
            action_is(r, apply(old(self)@, o).1),
    {
        match s {
            Step::Next => Action::Continue,
            Step::Assign(k, v) => {
                self.vars.insert(k, v);
                Action::Continue
            },
            Step::Emit(t) => Action::Print(t),
            Step::Call(b) => {
                proof {
                    assert(b < self.program@.len());
                }
                self.frames.push((b, 0));
                assert(self@.frames =~= old(self)@.frames.push((b as nat, 0nat)));
                Action::Continue
            },
            Step::Ask(a, w) => {
                self.waiting = w;
                a
            },
            Step::Fail(p) => self.halt(p.as_str()),
        }
    }

    fn take_reply(&mut self, reply: Reply) -> (r: Action)
        requires
            old(self).wf(),
            !(old(self)@.waiting is Nothing),
        ensures
            final(self).wf(),
            final(self).table() == old(self).table(),
            final(self)@ == answer(old(self).table(), old(self)@, reply@).0,
            action_is(r, answer(old(self).table(), old(self)@, reply@).1),
    {
        let w = match &self.waiting {
            Waiting::Nothing => Waiting::Nothing,
            Waiting::Store => Waiting::Store,
            Waiting::Input => Waiting::Input,
            Waiting::Branch(s) => Waiting::Branch(s.clone()),
            Waiting::Number(s) => Waiting::Number(s.clone()),
            Waiting::Launch(s) => Waiting::Launch(s.clone()),
            Waiting::File(s) => Waiting::File(s.clone()),
        };
        assert(w@ == old(self)@.waiting);
        self.waiting = Waiting::Nothing;
        match (w, reply) {
            (Waiting::Store, Reply::Text(v)) => {
                self.apply(Step::Assign(temp_name(), v), Ghost(Outcome::Assign(temp(), v@)))
            },
            (Waiting::Input, Reply::Text(l)) => {
                let q = quote(l.as_str().trim());
                self.apply(Step::Assign(temp_name(), q), Ghost(Outcome::Assign(temp(), q@)))
            },
            (Waiting::Branch(name), Reply::Truth(b)) => {
                if b {
                    let s = jump_step(&self.program, &name);
                    proof {
                        lemma_jump_in_range(self.program@, name@);
                    }
                    self.apply(s, Ghost(jump_to(self.program@, name@)))
                } else {
                    Action::Continue
                }
            },
            (Waiting::Number(t), Reply::Truth(b)) => {
                if b {
                    self.apply(Step::Assign(temp_name(), t), Ghost(Outcome::Assign(temp(), t@)))
                } else {
                    let m = cat3("Cannot convert `", t.as_str(), "` to a number.");
                    self.halt(m.as_str())
                }
            },
            (Waiting::Launch(c), Reply::Failed(e)) => {
                let mut m = cat3("Failed to execute command `", c.as_str(), "`: ");
                m.append(e.as_str());
                self.halt(m.as_str())
            },
            (Waiting::File(v), Reply::Text(c)) => {
                let q = quote(c.as_str());
                self.apply(Step::Assign(temp_name(), q), Ghost(Outcome::Assign(temp(), q@)))
            },
            (Waiting::File(v), Reply::Failed(e)) => {
                let mut m = cat3("Failed to read file `", v.as_str(), "`: ");
                m.append(e.as_str());
                self.halt(m.as_str())
            },
            _ => Action::Continue,
        }
    }

    /// Runs one step. A machine waiting for outside work takes `reply` as
    /// its result; otherwise `reply` is not looked at, and the innermost
    /// block runs its next line, or, at its end, returns to the line after
    /// the jump that called it. Errors stop the machine: its stack is
    /// emptied and every later step is `Finished`.
    pub fn step(&mut self, reply: Reply) -> (r: Action)
        requires
            old(self).wf(),
            expects(old(self)@.waiting, reply@),
        ensures
            final(self).wf(),
            final(self).table() == old(self).table(),
            final(self)@ == step_spec(old(self).table(), old(self)@, reply@).0,
            action_is(r, step_spec(old(self).table(), old(self)@, reply@).1),
    {
        if !(match &self.waiting {
            Waiting::Nothing => true,
            _ => false,
        }) {
            return self.take_reply(reply);
        }
        let nf = self.frames.len();
        if nf == 0 {
            return Action::Finished;
        }
        let (b, pc) = self.frames[nf - 1];
        assert(self.frames@[nf - 1] == (b, pc));
        if pc >= self.program.block_len(b) {
            self.frames.pop();
            assert(self@.frames =~= old(self)@.frames.drop_last());
            return Action::Continue;
        }
        let (no, line) = self.program.line_at(b, pc);
        let line = copy_line(line);
        let s = execute(&self.program, &self.vars, &line);
        let ghost o = instruction(self.program@, self.vars@, line@);
        proof {
            if line@.len() > 3 {
                lemma_jump_in_range(self.program@, line@[3]);
            }
            if line@.len() > 1 {
                lemma_jump_in_range(self.program@, line@[1]);
            }
        }
        self.at_no = no;
        self.at_line = line;
        self.frames.set(nf - 1, (b, pc + 1));
        assert(self@.frames =~= old(self)@.frames.update(nf - 1, (b as nat, (pc + 1) as nat)));
        self.apply(s, Ghost(o))
    }
}

} // verus!
