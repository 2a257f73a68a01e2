use vstd::prelude::*;
use vstd::string::*;
use crate::ast::{Types, get_type, string_to_type};
use crate::lexer::{Line, split_at, rows, texts};
use crate::machine::{Action, instruction, Operator, Order, Outcome, WaitView, action_is, add_spec, arith_spec, cmd_spec, compare_spec, count_matches_spec, equal_spec, exists_spec, invalid_pattern, is_match_spec, jump_to, number_operand, operand, print_spec, read_file_spec, regex_operands, replace_spec, return_spec, temp, to_number_spec, to_string_spec};
use crate::pattern::Pattern;
use crate::program::{Program, arity_text};
use crate::text::{chars_of, quote, same_text, string_of, usize_text, get_string_content, parse_count};
use crate::variables::{Variables, resolve_text};

verus! {

/// What an instruction that asked for outside work waits for.
pub enum Waiting {
    Nothing,
    Store,
    Input,
    Branch(String),
    Number(String),
    Launch(String),
    File(String),
}

impl View for Waiting {
    type V = WaitView;

    open spec fn view(&self) -> WaitView {
        match self {
            Waiting::Nothing => WaitView::Nothing,
            Waiting::Store => WaitView::Store,
            Waiting::Input => WaitView::Input,
            Waiting::Branch(s) => WaitView::Branch(s@),
            Waiting::Number(s) => WaitView::Number(s@),
            Waiting::Launch(s) => WaitView::Launch(s@),
            Waiting::File(s) => WaitView::File(s@),
        }
    }
}

/// What one instruction does, in executable form.
pub enum Step {
    Next,
    Assign(String, String),
    Emit(String),
    Call(usize),
    Ask(Action, Waiting),
    Fail(String),
}

/// Whether `s` is what `o` describes.
pub open spec fn step_is(s: Step, o: Outcome) -> bool {
    match o {
        Outcome::Next => s is Next,
        Outcome::Assign(k, v) => s matches Step::Assign(x, y) && x@ == k && y@ == v,
        Outcome::Emit(t) => s matches Step::Emit(x) && x@ == t,
        Outcome::Call(b) => s matches Step::Call(x) && x as nat == b,
        Outcome::Ask(a, w) => s matches Step::Ask(x, y) && action_is(x, a) && y@ == w,
        Outcome::Fail(m) => s matches Step::Fail(x) && x@ == m,
    }
}

/// Whether `r` is the result that `s` describes.
pub open spec fn result_is(r: Result<String, String>, s: Result<Seq<char>, Seq<char>>) -> bool {
    match s {
        Ok(v) => r matches Ok(x) && x@ == v,
        Err(m) => r matches Err(x) && x@ == m,
    }
}

/// `a`, `x` and `b`, one after the other.
pub fn cat3(a: &str, x: &str, b: &str) -> (r: String)
    ensures
        r@ == a@ + x@ + b@,
{
    let mut r = String::from_str(a);
    r.append(x);
    r.append(b);
    r
}

/// `a`, `x`, `b`, `y` and `c`, one after the other.
pub fn cat5(a: &str, x: &str, b: &str, y: &str, c: &str) -> (r: String)
    ensures
        r@ == a@ + x@ + b@ + y@ + c@,
{
    let mut r = cat3(a, x, b);
    r.append(y);
    r.append(c);
    r
}

/// A token as an operand.
pub fn operand_of(vars: &Variables, tok: &String) -> (r: Result<String, String>)
    requires
        vars.wf(),
    ensures
        result_is(r, operand(vars@, tok@)),
{
    if get_type(tok.as_str()) == Types::Identifier {
        resolve_text(tok.as_str(), vars)
    } else {
        Ok(tok.clone())
    }
}

/// A token as an operand that must be a number.
pub fn number_operand_of(vars: &Variables, tok: &String) -> (r: Result<String, String>)
    requires
        vars.wf(),
    ensures
        result_is(r, number_operand(vars@, tok@)),
{
    let t = get_type(tok.as_str());
    if t == Types::Identifier {
        match resolve_text(tok.as_str(), vars) {
            Err(m) => Err(m),
            Ok(v) => {
                let vt = get_type(v.as_str());
                if vt == Types::Number {
                    Ok(v)
                } else {
                    Err(cat5("Variable `", tok.as_str(), "` is of type `", vt.name().as_str(), "`, but `Number` is required."))
                }
            },
        }
    } else if t == Types::Number {
        Ok(tok.clone())
    } else {
        Err(cat3("`", tok.as_str(), "` is not a numeric type."))
    }
}

/// A jump to the block named `name`.
pub fn jump_step(program: &Program, name: &String) -> (r: Step)
    ensures
        step_is(r, jump_to(program@, name@)),
{
    match program.find_label(name.as_str()) {
        Some(i) => Step::Call(i),
        None => Step::Fail(cat3("Label `", name.as_str(), "` does not exist.")),
    }
}

fn exists_step(vars: &Variables, name: &String, ty: &String) -> (r: Step)
    requires
        vars.wf(),
    ensures
        step_is(r, exists_spec(vars@, name@, ty@)),
{
    match vars.get(name.as_str()) {
        None => Step::Fail(cat3("Variable `", name.as_str(), "` does not exist.")),
        Some(v) => {
            let required = match string_to_type(ty.clone()) {
                Ok(t) => t,
                Err(_) => return Step::Fail(String::from_str("Invalid type")),
            };
            let actual = get_type(v.as_str());
            if actual == required {
                Step::Next
            } else {
                let mut m = cat5("Variable `", name.as_str(), "` is of type `", actual.name().as_str(), "`, but `");
                m.append(required.name().as_str());
                m.append("` is required.");
                Step::Fail(m)
            }
        },
    }
}

fn print_step(vars: &Variables, x: &String) -> (r: Step)
    requires
        vars.wf(),
    ensures
        step_is(r, print_spec(vars@, x@)),
{
    match get_type(x.as_str()) {
        Types::Number => Step::Emit(x.clone()),
        Types::String => Step::Emit(get_string_content(x.clone())),
        Types::Identifier => match resolve_text(x.as_str(), vars) {
            Err(m) => Step::Fail(m),
            Ok(v) => if get_type(v.as_str()) == Types::String {
                Step::Emit(get_string_content(v))
            } else {
                Step::Emit(v)
            },
        },
        Types::Unknown => Step::Fail(String::from_str("Invalid type.")),
    }
}

pub fn temp_name() -> (r: String)
    ensures
        r@ == temp(),
{
    String::from_str("TEMP")
}

fn add_step(vars: &Variables, x: &String, y: &String) -> (r: Step)
    requires
        vars.wf(),
    ensures
        step_is(r, add_spec(vars@, x@, y@)),
{
    let v1 = match operand_of(vars, x) {
        Err(m) => return Step::Fail(m),
        Ok(v) => v,
    };
    let v2 = match operand_of(vars, y) {
        Err(m) => return Step::Fail(m),
        Ok(v) => v,
    };
    let c1 = get_type(v1.as_str());
    let c2 = get_type(v2.as_str());
    if c1 == Types::String && c2 == Types::String {
        let mut t = get_string_content(v1);
        t.append(get_string_content(v2).as_str());
        Step::Assign(temp_name(), quote(t.as_str()))
    } else if c1 == Types::Number && c2 == Types::String {
        let mut t = v1;
        t.append(get_string_content(v2).as_str());
        Step::Assign(temp_name(), quote(t.as_str()))
    } else if c1 == Types::String && c2 == Types::Number {
        let mut t = get_string_content(v1);
        t.append(v2.as_str());
        Step::Assign(temp_name(), quote(t.as_str()))
    } else if c1 == Types::Number && c2 == Types::Number {
        Step::Ask(Action::Arithmetic(Operator::Add, v1, v2), Waiting::Store)
    } else {
        let bad = if c1 != Types::Number && c1 != Types::String {
            x
        } else {
            y
        };
        Step::Fail(cat3("Cannot add as `", bad.as_str(), "` is neither a string nor a number."))
    }
}

fn arith_step(vars: &Variables, op: Operator, x: &String, y: &String) -> (r: Step)
    requires
        vars.wf(),
    ensures
        step_is(r, arith_spec(vars@, op, x@, y@)),
{
    let v1 = match number_operand_of(vars, x) {
        Err(m) => return Step::Fail(m),
        Ok(v) => v,
    };
    let v2 = match number_operand_of(vars, y) {
        Err(m) => return Step::Fail(m),
        Ok(v) => v,
    };
    Step::Ask(Action::Arithmetic(op, v1, v2), Waiting::Store)
}

fn compare_step(vars: &Variables, order: Order, x: &String, y: &String, label: &String) -> (r: Step)
    requires
        vars.wf(),
    ensures
        step_is(r, compare_spec(vars@, order, x@, y@, label@)),
{
    let v1 = match number_operand_of(vars, x) {
        Err(m) => return Step::Fail(m),
        Ok(v) => v,
    };
    let v2 = match number_operand_of(vars, y) {
        Err(m) => return Step::Fail(m),
        Ok(v) => v,
    };
    Step::Ask(Action::Compare(order, v1, v2), Waiting::Branch(label.clone()))
}

fn equal_step(program: &Program, vars: &Variables, equal: bool, x: &String, y: &String, label: &String) -> (r: Step)
    requires
        vars.wf(),
    ensures
        step_is(r, equal_spec(program@, vars@, equal, x@, y@, label@)),
{
    let v1 = match operand_of(vars, x) {
        Err(m) => return Step::Fail(m),
        Ok(v) => v,
    };
    let v2 = match operand_of(vars, y) {
        Err(m) => return Step::Fail(m),
        Ok(v) => v,
    };
    if get_type(v1.as_str()) != get_type(v2.as_str()) {
        Step::Fail(cat5("Cannot compare `", x.as_str(), "` and `", y.as_str(), "` as they are not the same type."))
    } else if (v1 == v2) == equal {
        jump_step(program, label)
    } else {
        Step::Next
    }
}

fn return_step(vars: &Variables, x: &String) -> (r: Step)
    requires
        vars.wf(),
    ensures
        step_is(r, return_spec(vars@, x@)),
{
    match operand_of(vars, x) {
        Err(m) => Step::Fail(m),
        Ok(v) => Step::Assign(temp_name(), v),
    }
}

fn strings_of(rs: &Vec<Vec<char>>, from: usize) -> (r: Vec<String>)
    requires
        from <= rs.len(),
    ensures
        texts(r@) == rows(rs@).subrange(from as int, rs@.len() as int),
{
    let mut r: Vec<String> = Vec::new();
    let mut i: usize = from;
    while i < rs.len()
        invariant
            from <= i <= rs.len(),
            texts(r@) == rows(rs@).subrange(from as int, i as int),
        decreases rs.len() - i,
    {
        let s = string_of(&rs[i]);
        let ghost before = r@;
        r.push(s);
        assert(texts(r@) =~= texts(before).push(s@));
        assert(texts(r@) =~= rows(rs@).subrange(from as int, i + 1));
        i = i + 1;
    }
    r
}

fn cmd_step(vars: &Variables, x: &String) -> (r: Step)
    requires
        vars.wf(),
    ensures
        step_is(r, cmd_spec(vars@, x@)),
{
    let v = match operand_of(vars, x) {
        Err(m) => return Step::Fail(m),
        Ok(v) => v,
    };
    if get_type(v.as_str()) != Types::String {
        return Step::Fail(cat3("Cannot execute `", v.as_str(), "` as it is not a string."));
    }
    let c = get_string_content(v);
    let parts = split_at(&chars_of(c.as_str()), ' ');
    let program = string_of(&parts[0]);
    let args = strings_of(&parts, 1);
    assert(rows(parts@).subrange(1, parts@.len() as int) =~= rows(parts@).drop_first());
    Step::Ask(Action::Run(program, args), Waiting::Launch(c))
}

fn to_number_step(vars: &Variables, x: &String) -> (r: Step)
    requires
        vars.wf(),
    ensures
        step_is(r, to_number_spec(vars@, x@)),
{
    let v = match operand_of(vars, x) {
        Err(m) => return Step::Fail(m),
        Ok(v) => v,
    };
    let t = if get_type(v.as_str()) == Types::String {
        get_string_content(v)
    } else {
        v
    };
    let t2 = t.clone();
    Step::Ask(Action::CheckNumber(t), Waiting::Number(t2))
}

fn to_string_step(vars: &Variables, x: &String) -> (r: Step)
    requires
        vars.wf(),
    ensures
        step_is(r, to_string_spec(vars@, x@)),
{
    let v = match operand_of(vars, x) {
        Err(m) => return Step::Fail(m),
        Ok(v) => v,
    };
    let t = get_type(v.as_str());
    if t == Types::String {
        Step::Assign(temp_name(), v)
    } else if t == Types::Number {
        Step::Assign(temp_name(), quote(v.as_str()))
    } else {
        Step::Fail(cat3("Cannot convert `", v.as_str(), "` to a string."))
    }
}

fn read_file_step(vars: &Variables, x: &String) -> (r: Step)
    requires
        vars.wf(),
    ensures
        step_is(r, read_file_spec(vars@, x@)),
{
    let v = match operand_of(vars, x) {
        Err(m) => return Step::Fail(m),
        Ok(v) => v,
    };
    if get_type(v.as_str()) != Types::String {
        return Step::Fail(cat3("Cannot read file `", v.as_str(), "` as it is not a string."));
    }
    let path = get_string_content(v.clone());
    Step::Ask(Action::ReadFile(path), Waiting::File(v))
}

fn regex_operands_of(vars: &Variables, x: &String, p: &String) -> (r: Result<(String, String), String>)
    requires
        vars.wf(),
    ensures
        match regex_operands(vars@, x@, p@) {
            Ok((i, q)) => r matches Ok((a, b)) && a@ == i && b@ == q,
            Err(m) => r matches Err(e) && e@ == m,
        },
{
    let item = match operand_of(vars, x) {
        Err(m) => return Err(m),
        Ok(v) => v,
    };
    if get_type(item.as_str()) != Types::String {
        return Err(cat5("Cannot check if `", item.as_str(), "` is a match for `", p.as_str(), "` as it is not a string."));
    }
    let pat = match operand_of(vars, p) {
        Err(m) => return Err(m),
        Ok(v) => v,
    };
    if get_type(pat.as_str()) != Types::String {
        return Err(cat3("Pattern `", p.as_str(), "` is not of type String."));
    }
    Ok((item, get_string_content(pat)))
}

fn invalid_pattern_text(p: &String) -> (r: String)
    ensures
        r@ == invalid_pattern(p@),
{
    cat3("Pattern `", p.as_str(), "` is not a valid regular expression.")
}

fn is_match_step(vars: &Variables, x: &String, p: &String) -> (r: Step)
    requires
        vars.wf(),
    ensures
        step_is(r, is_match_spec(vars@, x@, p@)),
{
    let (item, pat) = match regex_operands_of(vars, x, p) {
        Err(m) => return Step::Fail(m),
        Ok(v) => v,
    };
    match Pattern::new(pat.as_str()) {
        None => Step::Fail(invalid_pattern_text(p)),
        Some(re) => if re.is_match(item.as_str()) {
            Step::Assign(temp_name(), String::from_str("1"))
        } else {
            Step::Assign(temp_name(), String::from_str("0"))
        },
    }
}

fn count_matches_step(vars: &Variables, x: &String, p: &String) -> (r: Step)
    requires
        vars.wf(),
    ensures
        step_is(r, count_matches_spec(vars@, x@, p@)),
{
    let (item, pat) = match regex_operands_of(vars, x, p) {
        Err(m) => return Step::Fail(m),
        Ok(v) => v,
    };
    match Pattern::new(pat.as_str()) {
        None => Step::Fail(invalid_pattern_text(p)),
        Some(re) => {
            let n = re.count_matches(item.as_str());
            Step::Assign(temp_name(), usize_text(n))
        },
    }
}

fn replace_step(vars: &Variables, x: &String, p: &String, rp: &String, count: Option<&String>) -> (r: Step)
    requires
        vars.wf(),
    ensures
        step_is(r, replace_spec(vars@, x@, p@, rp@, match count {
            None => None,
            Some(c) => Some(c@),
        })),
{
    let (item, pat) = match regex_operands_of(vars, x, p) {
        Err(m) => return Step::Fail(m),
        Ok(v) => v,
    };
    let rv = match operand_of(vars, rp) {
        Err(m) => return Step::Fail(m),
        Ok(v) => v,
    };
    if get_type(rv.as_str()) != Types::String {
        return Step::Fail(cat3("Replacement `", rp.as_str(), "` is not of type String."));
    }
    let rep = get_string_content(rv);
    let limit: usize = match count {
        None => 0,
        Some(c) => {
            let n = match operand_of(vars, c) {
                Err(m) => return Step::Fail(m),
                Ok(v) => v,
            };
            if get_type(n.as_str()) != Types::Number {
                return Step::Fail(cat3("Count `", c.as_str(), "` is not of type Number."));
            }
            match parse_count(n.as_str()) {
                None => return Step::Fail(cat3("Count `", c.as_str(), "` is too large.")),
                Some(k) => k,
            }
        },
    };
    match Pattern::new(pat.as_str()) {
        None => Step::Fail(invalid_pattern_text(p)),
        Some(re) => if count.is_some() && limit == 0 {
            Step::Assign(temp_name(), item)
        } else {
            Step::Assign(temp_name(), re.replacen(item.as_str(), limit, rep.as_str()))
        },
    }
}


/// Carries out the instruction `line` against the variables, as far as the
/// library can: outside work is handed back as an `Ask`.
pub fn execute(program: &Program, vars: &Variables, line: &Line) -> (r: Step)
    requires
        vars.wf(),
    ensures
        step_is(r, instruction(program@, vars@, line@)),
{
    let toks = &line.0;
    let n = toks.len();
    if n == 0 {
        return Step::Next;
    }
    let op = toks[0].as_str();
    if same_text(op, "exists") {
        if n != 3 {
            return Step::Fail(arity_text(2, n - 1));
        }
        exists_step(vars, &toks[1], &toks[2])
    } else if same_text(op, "var") {
        if n != 3 {
            return Step::Fail(arity_text(2, n - 1));
        }
        match operand_of(vars, &toks[2]) {
            Err(m) => Step::Fail(m),
            Ok(v) => Step::Assign(toks[1].clone(), v),
        }
    } else if same_text(op, "print") {
        if n != 2 {
            return Step::Fail(arity_text(1, n - 1));
        }
        print_step(vars, &toks[1])
    } else if same_text(op, "print_newline") {
        if n != 1 {
            return Step::Fail(arity_text(0, n - 1));
        }
        Step::Emit(String::from_str("\n"))
    } else if same_text(op, "add") {
        if n != 3 {
            return Step::Fail(arity_text(2, n - 1));
        }
        add_step(vars, &toks[1], &toks[2])
    } else if same_text(op, "sub") {
        if n != 3 {
            return Step::Fail(arity_text(2, n - 1));
        }
        arith_step(vars, Operator::Sub, &toks[1], &toks[2])
    } else if same_text(op, "mul") {
        if n != 3 {
            return Step::Fail(arity_text(2, n - 1));
        }
        arith_step(vars, Operator::Mul, &toks[1], &toks[2])
    } else if same_text(op, "div") {
        if n != 3 {
            return Step::Fail(arity_text(2, n - 1));
        }
        arith_step(vars, Operator::Div, &toks[1], &toks[2])
    } else if same_text(op, "mod") {
        if n != 3 {
            return Step::Fail(arity_text(2, n - 1));
        }
        arith_step(vars, Operator::Rem, &toks[1], &toks[2])
    } else if same_text(op, "jmp") {
        if n != 2 {
            return Step::Fail(arity_text(1, n - 1));
        }
        jump_step(program, &toks[1])
    } else if same_text(op, "jmp_gt") {
        if n != 4 {
            return Step::Fail(arity_text(3, n - 1));
        }
        compare_step(vars, Order::Greater, &toks[1], &toks[2], &toks[3])
    } else if same_text(op, "jmp_lt") {
        if n != 4 {
            return Step::Fail(arity_text(3, n - 1));
        }
        compare_step(vars, Order::Less, &toks[1], &toks[2], &toks[3])
    } else if same_text(op, "jmp_eq") {
        if n != 4 {
            return Step::Fail(arity_text(3, n - 1));
        }
        equal_step(program, vars, true, &toks[1], &toks[2], &toks[3])
    } else if same_text(op, "jmp_not_eq") {
        if n != 4 {
            return Step::Fail(arity_text(3, n - 1));
        }
        equal_step(program, vars, false, &toks[1], &toks[2], &toks[3])
    } else if same_text(op, "return") {
        if n != 2 {
            return Step::Fail(arity_text(1, n - 1));
        }
        return_step(vars, &toks[1])
    } else if same_text(op, "get_os") {
        if n != 1 {
            return Step::Fail(arity_text(0, n - 1));
        }
        Step::Ask(Action::GetOs, Waiting::Store)
    } else if same_text(op, "cmd") {
        if n != 2 {
            return Step::Fail(arity_text(1, n - 1));
        }
        cmd_step(vars, &toks[1])
    } else if same_text(op, "input") {
        if n != 1 {
            return Step::Fail(arity_text(0, n - 1));
        }
        Step::Ask(Action::ReadLine, Waiting::Input)
    } else if same_text(op, "to_number") {
        if n != 2 {
            return Step::Fail(arity_text(1, n - 1));
        }
        to_number_step(vars, &toks[1])
    } else if same_text(op, "to_string") {
        if n != 2 {
            return Step::Fail(arity_text(1, n - 1));
        }
        to_string_step(vars, &toks[1])
    } else if same_text(op, "read_file") {
        if n != 2 {
            return Step::Fail(arity_text(1, n - 1));
        }
        read_file_step(vars, &toks[1])
    } else if same_text(op, "is_match") {
        if n != 3 {
            return Step::Fail(arity_text(2, n - 1));
        }
        is_match_step(vars, &toks[1], &toks[2])
    } else if same_text(op, "count_matches") {
        if n != 3 {
            return Step::Fail(arity_text(2, n - 1));
        }
        count_matches_step(vars, &toks[1], &toks[2])
    } else if same_text(op, "replace_n") {
        if n != 5 {
            return Step::Fail(arity_text(4, n - 1));
        }
        replace_step(vars, &toks[1], &toks[2], &toks[3], Some(&toks[4]))
    } else if same_text(op, "replace_all") {
        if n != 4 {
            return Step::Fail(arity_text(3, n - 1));
        }
        replace_step(vars, &toks[1], &toks[2], &toks[3], None)
    } else if same_text(op, "comment") {
        Step::Next
    } else {
        Step::Fail(cat3("Unknown command `", op, "`."))
    }
}

} // verus!
