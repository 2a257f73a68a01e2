use script_ll::errors::Error;
use script_ll::lexer::lex;
use script_ll::machine::{Action, Machine, Operator, Order, Reply};
use script_ll::program::Program;
use script_ll::variables::{get_variable, Variables};
use script_ll::ast::Types;

/// What a run leaves: the printed text, the error that stopped it, if any,
/// and the machine.
struct Run {
    out: String,
    error: Option<Error>,
    machine: Option<Machine>,
}

fn arithmetic(op: Operator, a: &str, b: &str) -> String {
    let x: f64 = a.parse().unwrap();
    let y: f64 = b.parse().unwrap();
    let r = match op {
        Operator::Add => x + y,
        Operator::Sub => x - y,
        Operator::Mul => x * y,
        Operator::Div => x / y,
        Operator::Rem => x % y,
    };
    format!("{}", r)
}

fn run_with(src: &str, input: &[&str]) -> Run {
    let (lines, err) = lex(src.to_string());
    if err != Error::NoError {
        return Run { out: String::new(), error: Some(err), machine: None };
    }
    let program = match Program::load(&lines) {
        Ok(p) => p,
        Err(e) => return Run { out: String::new(), error: Some(e), machine: None },
    };
    let mut m = Machine::new(program);
    let mut out = String::new();
    let mut pending_input = input.iter();
    let mut reply = Reply::Done;
    for _ in 0..100_000 {
        assert!(m.expects_reply(&reply));
        let action = m.step(reply);
        reply = match action {
            Action::Continue => Reply::Done,
            Action::Print(s) => {
                out.push_str(&s);
                Reply::Done
            }
            Action::Arithmetic(op, a, b) => Reply::Text(arithmetic(op, &a, &b)),
            Action::Compare(order, a, b) => {
                let x: f64 = a.parse().unwrap();
                let y: f64 = b.parse().unwrap();
                Reply::Truth(match order {
                    Order::Greater => x > y,
                    Order::Less => x < y,
                })
            }
            Action::CheckNumber(s) => Reply::Truth(s.parse::<f64>().is_ok()),
            Action::GetOs => Reply::Text("testos".to_string()),
            Action::Run(program, _) => Reply::Failed(format!("cannot launch {}", program)),
            Action::ReadLine => Reply::Text(pending_input.next().unwrap().to_string()),
            Action::ReadFile(path) => Reply::Failed(format!("no file {}", path)),
            Action::Finished => return Run { out, error: None, machine: Some(m) },
            Action::Failed(e) => return Run { out, error: Some(e), machine: Some(m) },
        };
    }
    panic!("the program did not finish");
}

fn run(src: &str) -> Run {
    run_with(src, &[])
}

fn temp(r: &Run) -> String {
    r.machine.as_ref().unwrap().variable("TEMP").unwrap()
}

fn problem(r: &Run) -> String {
    match r.error.as_ref().unwrap() {
        Error::RuntimeError(m) => m.clone(),
        other => panic!("not a runtime error: {:?}", other),
    }
}

#[test]
fn exists_after_var() {
    let ok = run("label .ENTRY\nvar x 5\nexists x Number");
    assert!(ok.error.is_none());
    let bad = run("label .ENTRY\nvar x 5\nexists x String");
    assert_eq!(
        problem(&bad),
        "\nCode:\n3 | exists x String\nProblem: Variable `x` is of type `Number`, but `String` is required."
    );
    let invalid = run("label .ENTRY\nvar x 5\nexists x Text");
    assert_eq!(problem(&invalid), "\nCode:\n3 | exists x Text\nProblem: Invalid type");
    let missing = run("label .ENTRY\nexists y Number");
    assert_eq!(problem(&missing), "\nCode:\n2 | exists y Number\nProblem: Variable `y` does not exist.");
}

#[test]
fn print_through_an_alias() {
    let r = run("label .ENTRY\nvar a 5\nvar b a\nprint b");
    assert!(r.error.is_none());
    assert_eq!(r.out, "5");
}

#[test]
fn print_strings_and_newlines() {
    let r = run("label .ENTRY\nvar s \"x\\ny\"\nprint s\nprint_newline\nprint \"z\"");
    assert_eq!(r.out, "x\ny\nz");
    let bad = run("label .ENTRY\nprint -1");
    assert_eq!(problem(&bad), "\nCode:\n2 | print -1\nProblem: Invalid type.");
}

#[test]
fn add_coercion_table() {
    assert_eq!(temp(&run("label .ENTRY\nadd 1 \"x\"")), "\"1x\"");
    assert_eq!(temp(&run("label .ENTRY\nadd \"x\" 1")), "\"x1\"");
    assert_eq!(temp(&run("label .ENTRY\nadd 1 2")), "3");
    assert_eq!(temp(&run("label .ENTRY\nadd \"x\" \"y\"")), "\"xy\"");
    let bad = run("label .ENTRY\nadd 1 -2");
    assert_eq!(
        problem(&bad),
        "\nCode:\n2 | add 1 -2\nProblem: Cannot add as `-2` is neither a string nor a number."
    );
}

#[test]
fn arithmetic_through_the_host() {
    assert_eq!(temp(&run("label .ENTRY\nsub 2 5")), "-3");
    assert_eq!(temp(&run("label .ENTRY\nmul 6 7")), "42");
    assert_eq!(temp(&run("label .ENTRY\ndiv 1 2")), "0.5");
    assert_eq!(temp(&run("label .ENTRY\nmod 7 4")), "3");
    let bad = run("label .ENTRY\nvar s \"a\"\nsub s 1");
    assert_eq!(
        problem(&bad),
        "\nCode:\n3 | sub s 1\nProblem: Variable `s` is of type `String`, but `Number` is required."
    );
    let lit = run("label .ENTRY\nmul 2 \"3\"");
    assert_eq!(problem(&lit), "\nCode:\n2 | mul 2 \"3\"\nProblem: `\"3\"` is not a numeric type.");
}

#[test]
fn jump_returns_to_the_caller() {
    let r = run("label .ENTRY\njmp L\nprint \"after\"\nlabel L\nprint \"in L\"");
    assert!(r.error.is_none());
    assert_eq!(r.out, "in Lafter");
}

#[test]
fn conditional_jumps() {
    let gt = run("label .ENTRY\njmp_gt 10 9 A\nprint \"end\"\nlabel A\nprint \"A\"");
    assert_eq!(gt.out, "Aend");
    let lt = run("label .ENTRY\njmp_lt 10 9 A\nprint \"end\"\nlabel A\nprint \"A\"");
    assert_eq!(lt.out, "end");
    let eq = run("label .ENTRY\nvar a \"q\"\njmp_eq a \"q\" A\njmp_not_eq a \"q\" A\nlabel A\nprint a");
    assert_eq!(eq.out, "q");
    let missing = run("label .ENTRY\njmp_gt 2 1 Nowhere");
    assert_eq!(problem(&missing), "\nCode:\n2 | jmp_gt 2 1 Nowhere\nProblem: Label `Nowhere` does not exist.");
}

#[test]
fn counted_loop_by_recursion() {
    let src = "label .ENTRY\nvar i 0\njmp Loop\nprint \"done\"\nlabel Loop\nprint i\nadd i 1\nvar i TEMP\njmp_lt i 3 Loop";
    let r = run(src);
    assert!(r.error.is_none());
    assert_eq!(r.out, "012done");
}

#[test]
fn jmp_eq_on_different_classes_fails() {
    let r = run("label .ENTRY\njmp_eq 5 \"5\" L\nlabel L");
    assert_eq!(
        problem(&r),
        "\nCode:\n2 | jmp_eq 5 \"5\" L\nProblem: Cannot compare `5` and `\"5\"` as they are not the same type."
    );
}

#[test]
fn missing_entry_is_rejected() {
    let r = run("label Main\nprint \"x\"");
    assert_eq!(problem(&r), "\nError: Could not execute\nProblem: No `.ENTRY` label.");
    assert_eq!(r.out, "");
    let bare = run("print \"x\"");
    assert_eq!(problem(&bare), "\nError: Could not execute\nProblem: No `.ENTRY` label.");
}

#[test]
fn duplicate_label_is_rejected() {
    let r = run("label .ENTRY\nprint \"x\"\nlabel X\nlabel X");
    assert_eq!(problem(&r), "\nCode:\n4 | label X\nProblem: Label `X` already exists.");
    assert_eq!(r.out, "");
    let arity = run("label .ENTRY extra");
    assert_eq!(problem(&arity), "\nCode:\n1 | label .ENTRY extra\nProblem: Expected 1 argument, got 2.");
}

#[test]
fn arity_and_unknown_commands() {
    let r = run("label .ENTRY\nvar x");
    assert_eq!(problem(&r), "\nCode:\n2 | var x\nProblem: Expected 2 arguments, got 1.");
    let z = run("label .ENTRY\nget_os 1");
    assert_eq!(problem(&z), "\nCode:\n2 | get_os 1\nProblem: Expected 0 arguments, got 1.");
    let u = run("label .ENTRY\ncomment anything at all\nfly 1");
    assert_eq!(problem(&u), "\nCode:\n3 | fly 1\nProblem: Unknown command `fly`.");
}

#[test]
fn return_and_conversions() {
    assert_eq!(temp(&run("label .ENTRY\nvar v \"r\"\nreturn v")), "\"r\"");
    assert_eq!(temp(&run("label .ENTRY\nto_string 12")), "\"12\"");
    assert_eq!(temp(&run("label .ENTRY\nto_string \"s\"")), "\"s\"");
    assert_eq!(temp(&run("label .ENTRY\nto_number \"2.5\"")), "2.5");
    assert_eq!(temp(&run("label .ENTRY\nto_number 7")), "7");
    let bad = run("label .ENTRY\nto_number \"seven\"");
    assert_eq!(problem(&bad), "\nCode:\n2 | to_number \"seven\"\nProblem: Cannot convert `seven` to a number.");
    let unknown = run("label .ENTRY\nsub 1 2\nto_string TEMP");
    assert_eq!(problem(&unknown), "\nCode:\n3 | to_string TEMP\nProblem: Cannot convert `-1` to a string.");
}

#[test]
fn host_values() {
    assert_eq!(temp(&run("label .ENTRY\nget_os")), "testos");
    assert_eq!(temp(&run_with("label .ENTRY\ninput", &["  hello there \n"])), "\"hello there\"");
}

#[test]
fn outside_failures_are_reported() {
    let c = run("label .ENTRY\ncmd \"prog -a b\"");
    assert_eq!(
        problem(&c),
        "\nCode:\n2 | cmd \"prog -a b\"\nProblem: Failed to execute command `prog -a b`: cannot launch prog"
    );
    let f = run("label .ENTRY\nread_file \"x.txt\"");
    assert_eq!(
        problem(&f),
        "\nCode:\n2 | read_file \"x.txt\"\nProblem: Failed to read file `\"x.txt\"`: no file x.txt"
    );
    let n = run("label .ENTRY\ncmd 5");
    assert_eq!(problem(&n), "\nCode:\n2 | cmd 5\nProblem: Cannot execute `5` as it is not a string.");
}

#[test]
fn regular_expressions() {
    assert_eq!(temp(&run("label .ENTRY\nis_match \"abc\" \"b+\"")), "1");
    assert_eq!(temp(&run("label .ENTRY\nis_match \"abc\" \"z\"")), "0");
    assert_eq!(temp(&run("label .ENTRY\nvar s \"a1b22c333\"\ncount_matches s \"[0-9]+\"")), "3");
    assert_eq!(temp(&run("label .ENTRY\nreplace_n \"aaaa\" \"a\" \"b\" 2")), "\"bbaa\"");
    assert_eq!(temp(&run("label .ENTRY\nreplace_all \"aaaa\" \"a\" \"b\"")), "\"bbbb\"");
    assert_eq!(temp(&run("label .ENTRY\nreplace_n \"abab\" \"(a)(b)\" \"$2$1\" 1")), "\"baab\"");
    assert_eq!(temp(&run("label .ENTRY\nreplace_n \"abab\" \"a\" \"b\" 0")), "\"abab\"");
    let bad = run("label .ENTRY\nis_match \"abc\" \"(\"");
    assert_eq!(
        problem(&bad),
        "\nCode:\n2 | is_match \"abc\" \"(\"\nProblem: Pattern `\"(\"` is not a valid regular expression."
    );
    let subject = run("label .ENTRY\ncount_matches 5 \"5\"");
    assert_eq!(
        problem(&subject),
        "\nCode:\n2 | count_matches 5 \"5\"\nProblem: Cannot check if `5` is a match for `\"5\"` as it is not a string."
    );
    let count = run("label .ENTRY\nreplace_n \"a\" \"a\" \"b\" 99999999999999999999999");
    assert_eq!(
        problem(&count),
        "\nCode:\n2 | replace_n \"a\" \"a\" \"b\" 99999999999999999999999\nProblem: Count `99999999999999999999999` is too large."
    );
}

#[test]
fn variables_resolve_through_chains() {
    let mut vars = Variables::new();
    vars.insert("a".to_string(), "b".to_string());
    vars.insert("b".to_string(), "\"end\"".to_string());
    assert_eq!(get_variable("a", &vars), Ok(("\"end\"".to_string(), Types::String)));
    vars.insert("b".to_string(), "7".to_string());
    assert_eq!(vars.len(), 2);
    assert_eq!(get_variable("a", &vars), Ok(("7".to_string(), Types::Number)));
    assert_eq!(
        get_variable("zz", &vars),
        Err(Error::RuntimeError("Variable `zz` does not exist.".to_string()))
    );
    vars.insert("b".to_string(), "a".to_string());
    assert_eq!(
        get_variable("a", &vars),
        Err(Error::RuntimeError("Variable `a` refers back to itself.".to_string()))
    );
}

#[test]
fn stopped_machine_stays_finished() {
    let r = run("label .ENTRY\nfly");
    let mut m = r.machine.unwrap();
    assert!(matches!(m.step(Reply::Done), Action::Finished));
}
