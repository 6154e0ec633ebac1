use rapid_lang::ast::{Branch, Node, Place};
use rapid_lang::lexer::parse;
use rapid_lang::machine::{frame, Action, EvalError, Kind, Machine, Task, Waiting};
use rapid_lang::parser::parse_tokens;
use rapid_lang::program::{Module, Program, Routine, Scope, Stack};
use rapid_lang::token::TokenType;
use rapid_lang::value::{render, Op, Variable};

fn num(x: f64) -> Variable {
    Variable::Num(x.to_bits())
}

fn text(s: &str) -> Variable {
    Variable::Str(String::from(s))
}

fn numbers(tokens: &[TokenType]) -> Vec<Option<u64>> {
    tokens
        .iter()
        .map(|t| match t {
            TokenType::NumValue(s) => s.parse::<f64>().ok().map(f64::to_bits),
            _ => None,
        })
        .collect()
}

fn program(source: &str) -> Program {
    let tokens = parse(source).unwrap();
    let numbers = numbers(&tokens);
    parse_tokens(tokens, numbers).unwrap()
}

fn show(v: &Variable) -> String {
    let digits = match v {
        Variable::Num(n) => format!("{}", f64::from_bits(*n)),
        _ => String::new(),
    };
    render(v, &digits)
}

struct Outcome {
    lines: Vec<String>,
    result: Result<Variable, EvalError>,
    shared: Vec<Variable>,
    stack: Stack,
}

fn drive(mut machine: Machine) -> Outcome {
    let mut lines = Vec::new();
    let mut reply = None;
    let mut steps = 0;
    loop {
        steps += 1;
        assert!(steps < 1_000_000, "the routine does not end");
        let result = match machine.step(reply.take()) {
            Action::Continue => continue,
            Action::Write(v) => {
                lines.push(show(&v));
                continue;
            }
            Action::Compute { op, lhs, rhs } => {
                let (a, b) = (f64::from_bits(lhs), f64::from_bits(rhs));
                let r = match op {
                    Op::Add => a + b,
                    Op::Sub => a - b,
                    Op::Mul => a * b,
                    Op::Div => a / b,
                };
                reply = Some(Variable::Num(r.to_bits()));
                continue;
            }
            Action::Test { lhs, rhs } => {
                reply = Some(Variable::Bool(f64::from_bits(lhs) <= f64::from_bits(rhs)));
                continue;
            }
            Action::Done(v) => Ok(v),
            Action::Failed(e) => Err(e),
            Action::Idle => panic!("the machine is idle before it is done"),
        };
        return Outcome { lines, result, shared: machine.shared, stack: machine.stack };
    }
}

fn run_in(module: &Module, name: &str, args: Vec<Variable>) -> Outcome {
    let index = module.routine(&String::from(name)).unwrap();
    let stack = frame(&module.routines[index], &args).unwrap();
    drive(Machine::new(module, index, stack).unwrap())
}

fn run(source: &str, name: &str, args: Vec<Variable>) -> Outcome {
    let program = program(source);
    run_in(&program.modules[0], name, args)
}

fn body(statements: &str) -> String {
    format!("MOD M\nPROC main()\n{}\nENDPROC\nENDMOD", statements)
}

#[test]
fn precedence_of_multiplication() {
    let out = run(
        "MOD Testmodule \n    PROC rTest() \n        VAR num nTest1:=0; \n        nTest1:= 2 + 2 * 3 *4 + 1;\n        TpWrite nTest1;\n    ENDPROC \nENDMOD",
        "rTest",
        vec![],
    );
    assert_eq!(out.lines, vec![String::from("27")]);
    assert_eq!(out.result, Ok(Variable::Void));
    assert_eq!(out.stack.variables, vec![num(27.0)]);
}

#[test]
fn additive_operators_group_to_the_right() {
    let out = run(
        &body("VAR num a := 10; VAR num b := 3; VAR num c := 2; VAR num r; r := a - b + c; RETURN r;"),
        "main",
        vec![],
    );
    assert_eq!(out.result, Ok(num(5.0)));
}

#[test]
fn multiplicative_operators_group_to_the_left() {
    let out = run(&body("VAR num r; r := 8 / 4 / 2; RETURN r;"), "main", vec![]);
    assert_eq!(out.result, Ok(num(1.0)));
    let out = run(&body("VAR num r; r := 8 / 4 * 2; RETURN r;"), "main", vec![]);
    assert_eq!(out.result, Ok(num(4.0)));
}

#[test]
fn division_is_that_of_doubles() {
    let out = run(&body("VAR num r; r := 1 / 3; TPWRITE r; r := 1 / 0; TPWRITE r;"), "main", vec![]);
    assert_eq!(out.lines, vec![format!("{}", 1.0f64 / 3.0), String::from("inf")]);
}

#[test]
fn fall_through_yields_void() {
    let out = run(&body("VAR num x; x := 1;"), "main", vec![]);
    assert_eq!(out.result, Ok(Variable::Void));
    let out = run(&body(""), "main", vec![]);
    assert_eq!(out.result, Ok(Variable::Void));
    assert!(out.lines.is_empty());
}

#[test]
fn return_yields_its_value_and_skips_the_rest() {
    let out = run(
        &body("VAR num x := 1; TPWRITE x; RETURN 42; x := 2; TPWRITE x;"),
        "main",
        vec![],
    );
    assert_eq!(out.result, Ok(num(42.0)));
    assert_eq!(out.lines, vec![String::from("1")]);
    assert_eq!(out.stack.variables, vec![num(1.0)]);
}

#[test]
fn return_without_value_yields_void() {
    let out = run(&body("VAR num x := 1; RETURN; x := 2;"), "main", vec![]);
    assert_eq!(out.result, Ok(Variable::Void));
    assert_eq!(out.stack.variables, vec![num(1.0)]);
}

#[test]
fn return_leaves_nested_blocks() {
    let out = run(
        &body("VAR bool go := TRUE; VAR num i; WHILE go DO IF go THEN FOR i FROM 1 TO 5 DO RETURN i; ENDFOR ENDIF ENDWHILE RETURN 0;"),
        "main",
        vec![],
    );
    assert_eq!(out.result, Ok(num(1.0)));
}

const CALLS: &str = "MOD M
PROC bump(INOUT num a, num b)
  a := a + 1;
  b := b + 1;
ENDPROC
PROC main()
  VAR num x := 10;
  VAR num y := 20;
  bump(x, y);
  TPWRITE x;
  TPWRITE y;
ENDPROC
ENDMOD";

#[test]
fn inout_parameter_is_seen_by_the_caller() {
    let out = run(CALLS, "main", vec![]);
    assert_eq!(out.result, Ok(Variable::Void));
    assert_eq!(out.lines, vec![String::from("11"), String::from("20")]);
    assert_eq!(out.stack.offset, 0);
    assert_eq!(out.stack.variables, vec![num(11.0), num(20.0)]);
}

#[test]
fn by_value_argument_may_be_an_expression() {
    let out = run(
        "MOD M PROC show(num a) TPWRITE a; ENDPROC PROC main() VAR num x := 2; show(x * 3 + 1); show(5); ENDPROC ENDMOD",
        "main",
        vec![],
    );
    assert_eq!(out.lines, vec![String::from("7"), String::from("5")]);
}

#[test]
fn early_return_of_a_callee_still_hands_inout_back() {
    let out = run(
        "MOD M PROC set(INOUT num a) a := 7; RETURN; a := 8; ENDPROC PROC main() VAR num x; set(x); RETURN x; ENDPROC ENDMOD",
        "main",
        vec![],
    );
    assert_eq!(out.result, Ok(num(7.0)));
}

#[test]
fn recursion_uses_a_fresh_frame_per_call() {
    let out = run(
        "MOD M
VAR num depth := 0;
PROC down(num n, INOUT num total)
  VAR bool more;
  VAR num left;
  depth := depth + 1;
  total := total + n;
  left := n - 1;
  more := ask(left);
  IF more THEN down(left, total); ENDIF
  TPWRITE n;
ENDPROC
PROC main()
  VAR num sum := 0;
  down(3, sum);
  RETURN sum;
ENDPROC
ENDMOD"
            .replace("more := ask(left);", "more := TRUE; FOR left FROM left TO 0 DO more := FALSE; ENDFOR left := n - 1;")
            .as_str(),
        "main",
        vec![],
    );
    assert_eq!(out.result, Ok(num(6.0)));
    assert_eq!(out.lines, vec![String::from("1"), String::from("2"), String::from("3")]);
    assert_eq!(out.shared, vec![num(3.0)]);
    assert_eq!(out.stack.variables, vec![num(6.0)]);
}

#[test]
fn writes_come_in_program_order() {
    let out = run(
        &body("VAR num i; VAR string s := \"go\"; TPWRITE s; FOR i FROM 1 TO 3 DO TPWRITE i; TPWRITE s; ENDFOR TPWRITE i;"),
        "main",
        vec![],
    );
    assert_eq!(out.lines, vec!["go", "1", "go", "2", "go", "3", "go", "4"]);
}

#[test]
fn counted_loop_with_empty_range_runs_never() {
    let out = run(&body("VAR num i; FOR i FROM 3 TO 1 DO TPWRITE i; ENDFOR RETURN i;"), "main", vec![]);
    assert!(out.lines.is_empty());
    assert_eq!(out.result, Ok(num(3.0)));
}

#[test]
fn counted_loop_takes_its_limit_once() {
    let out = run(
        &body("VAR num i; VAR num n := 2; FOR i FROM 1 TO n DO n := n + 1; TPWRITE i; ENDFOR RETURN n;"),
        "main",
        vec![],
    );
    assert_eq!(out.lines, vec!["1", "2"]);
    assert_eq!(out.result, Ok(num(4.0)));
}

#[test]
fn while_loop_runs_until_its_condition_fails() {
    let out = run(
        &body("VAR bool go := TRUE; VAR num n := 0; WHILE go DO n := n + 1; TPWRITE n; IF go THEN go := FALSE; ENDIF ENDWHILE RETURN n;"),
        "main",
        vec![],
    );
    assert_eq!(out.lines, vec!["1"]);
    assert_eq!(out.result, Ok(num(1.0)));
}

#[test]
fn conditional_takes_the_first_true_branch() {
    let source = |a: &str, b: &str| {
        body(&format!(
            "VAR bool a := {}; VAR bool b := {}; VAR string r := \"none\"; IF a THEN r := \"first\"; ELSEIF b THEN r := \"second\"; ELSE r := \"third\"; ENDIF RETURN r;",
            a, b
        ))
    };
    assert_eq!(run(&source("TRUE", "TRUE"), "main", vec![]).result, Ok(text("first")));
    assert_eq!(run(&source("FALSE", "TRUE"), "main", vec![]).result, Ok(text("second")));
    assert_eq!(run(&source("FALSE", "FALSE"), "main", vec![]).result, Ok(text("third")));
}

#[test]
fn conditional_without_else_may_do_nothing() {
    let out = run(&body("VAR bool a; VAR num r := 1; IF a THEN r := 2; ENDIF RETURN r;"), "main", vec![]);
    assert_eq!(out.result, Ok(num(1.0)));
}

#[test]
fn addition_of_booleans_is_or() {
    let out = run(
        &body("VAR bool t := TRUE; VAR bool f; VAR bool r; r := f + f; TPWRITE r; r := f + t; TPWRITE r; r := t + t; TPWRITE r;"),
        "main",
        vec![],
    );
    assert_eq!(out.lines, vec!["false", "true", "true"]);
}

#[test]
fn addition_of_strings_concatenates() {
    let out = run(
        &body("VAR string a := \"test\"; VAR string r; r := a + \"the banana\"; RETURN r;"),
        "main",
        vec![],
    );
    assert_eq!(out.result, Ok(text("testthe banana")));
}

#[test]
fn mismatched_operands_are_a_type_error() {
    for statement in [
        "n := n + b;",
        "n := s + n;",
        "b := b - b;",
        "s := s * s;",
        "b := b / b;",
        "s := s - s;",
    ] {
        let out = run(
            &body(&format!("VAR num n; VAR bool b; VAR string s; {} TPWRITE n;", statement)),
            "main",
            vec![],
        );
        assert_eq!(out.result, Err(EvalError::TypeMismatch), "{}", statement);
        assert!(out.lines.is_empty());
    }
}

#[test]
fn assignment_keeps_the_kind_of_the_variable() {
    let out = run(&body("VAR num n; VAR bool b := TRUE; n := b; TPWRITE n;"), "main", vec![]);
    assert_eq!(out.result, Err(EvalError::TypeMismatch));
    assert_eq!(out.stack.variables, vec![num(0.0), Variable::Bool(true)]);
}

#[test]
fn condition_must_be_boolean() {
    let out = run(&body("VAR num n; IF n THEN n := 1; ENDIF"), "main", vec![]);
    assert_eq!(out.result, Err(EvalError::TypeMismatch));
    let out = run(&body("VAR num n; WHILE n DO n := 1; ENDWHILE"), "main", vec![]);
    assert_eq!(out.result, Err(EvalError::TypeMismatch));
    let out = run(&body("VAR bool b; FOR b FROM 1 TO 2 DO ENDFOR"), "main", vec![]);
    assert_eq!(out.result, Err(EvalError::TypeMismatch));
    let out = run(&body("VAR num i; VAR bool b; FOR i FROM 1 TO b DO ENDFOR"), "main", vec![]);
    assert_eq!(out.result, Err(EvalError::TypeMismatch));
}

#[test]
fn argument_must_be_of_the_kind_of_its_parameter() {
    let out = run(
        "MOD M PROC show(num a) TPWRITE a; ENDPROC PROC main() VAR bool b; show(b); ENDPROC ENDMOD",
        "main",
        vec![],
    );
    assert_eq!(out.result, Err(EvalError::TypeMismatch));
    assert!(out.lines.is_empty());
}

fn module_of(routine: Routine) -> Module {
    Module { name: String::from("M"), routines: vec![routine], variables: Scope::new() }
}

fn routine_of(nodes: Vec<Node>) -> Routine {
    let mut variables = Scope::new();
    variables.declare(String::from("x"), num(0.0));
    Routine { name: String::from("main"), inout: vec![], variables, nodes }
}

fn lit(x: f64) -> Box<Node> {
    Box::new(Node::Value(num(x)))
}

#[test]
fn assignment_to_a_non_variable_is_a_type_error() {
    let module = module_of(routine_of(vec![Node::Assign { lhs: lit(1.0), rhs: lit(2.0) }]));
    assert_eq!(run_in(&module, "main", vec![]).result, Err(EvalError::NotAVariable));
}

#[test]
fn slot_outside_the_frame_is_a_bounds_error() {
    for node in [
        Node::Var(Place::Local(1)),
        Node::Print(Place::Local(1)),
        Node::Assign { lhs: Box::new(Node::Var(Place::Local(7))), rhs: lit(2.0) },
        Node::Var(Place::Shared(0)),
        Node::Var(Place::Local(usize::MAX)),
    ] {
        let module = module_of(routine_of(vec![node]));
        assert_eq!(run_in(&module, "main", vec![]).result, Err(EvalError::OutOfFrame));
    }
}

#[test]
fn call_of_a_missing_routine_fails() {
    let module = module_of(routine_of(vec![Node::ProcCall { routine: 1, args: vec![] }]));
    assert_eq!(run_in(&module, "main", vec![]).result, Err(EvalError::UnknownRoutine));
    let module = module_of(routine_of(vec![Node::ProcCall { routine: 0, args: vec![*lit(1.0)] }]));
    assert_eq!(run_in(&module, "main", vec![]).result, Err(EvalError::BadCall));
}

#[test]
fn expression_nodes_evaluate_bottom_up() {
    let sum = Node::OpAdd {
        lhs: Box::new(Node::OpMul { lhs: lit(2.0), rhs: lit(3.0) }),
        rhs: Box::new(Node::OpSub { lhs: lit(10.0), rhs: Box::new(Node::OpDiv { lhs: lit(8.0), rhs: lit(2.0) }) }),
    };
    let module = module_of(routine_of(vec![Node::Return(Some(Box::new(sum)))]));
    assert_eq!(run_in(&module, "main", vec![]).result, Ok(num(12.0)));
}

#[test]
fn host_must_keep_to_the_protocol() {
    let module = module_of(routine_of(vec![Node::Return(Some(Box::new(Node::OpAdd { lhs: lit(1.0), rhs: lit(2.0) })))]));
    let start = || Machine::new(&module, 0, frame(&module.routines[0], &vec![]).unwrap()).unwrap();

    let mut machine = start();
    assert_eq!(machine.step(Some(num(1.0))), Action::Failed(EvalError::BadReply));
    assert_eq!(machine.step(None), Action::Idle);

    let mut machine = start();
    let mut asked = machine.step(None);
    while asked == Action::Continue {
        asked = machine.step(None);
    }
    assert_eq!(asked, Action::Compute { op: Op::Add, lhs: 1.0f64.to_bits(), rhs: 2.0f64.to_bits() });
    assert_eq!(machine.step(None), Action::Failed(EvalError::BadReply));

    let mut machine = start();
    while machine.step(None) == Action::Continue {}
    assert_eq!(machine.step(Some(Variable::Bool(true))), Action::Failed(EvalError::BadReply));

    let mut machine = start();
    while machine.step(None) == Action::Continue {}
    assert_eq!(machine.step(Some(num(3.0))), Action::Continue);
    let mut last = machine.step(None);
    while last == Action::Continue {
        last = machine.step(None);
    }
    assert_eq!(last, Action::Done(num(3.0)));
    assert_eq!(machine.step(None), Action::Idle);
}

#[test]
fn frame_binds_arguments_to_parameters() {
    let program = program("MOD M PROC f(num a, string s) VAR bool b := TRUE; VAR num n; ENDPROC ENDMOD");
    let routine = &program.modules[0].routines[0];
    let stack = frame(routine, &vec![num(4.0), text("hi")]).unwrap();
    assert_eq!(stack.offset, 0);
    assert_eq!(stack.variables, vec![num(4.0), text("hi"), Variable::Bool(true), num(0.0)]);
    assert_eq!(frame(routine, &vec![num(4.0)]), None);
    assert_eq!(frame(routine, &vec![text("hi"), num(4.0)]), None);
    assert_eq!(frame(routine, &vec![num(4.0), text("hi"), num(1.0)]), None);
    assert!(Machine::new(&program.modules[0], 1, stack).is_none());
}

#[test]
fn entry_routine_takes_its_arguments() {
    let out = run(
        "MOD M FUNC num twice(num a) RETURN a * 2; ENDFUNC ENDMOD",
        "twice",
        vec![num(21.0)],
    );
    assert_eq!(out.result, Ok(num(42.0)));
}

#[test]
fn shared_variables_outlive_a_call() {
    let out = run(
        "MOD M PERS num count := 5; LOCAL string tag := \"t\"; PROC inc() count := count + 1; ENDPROC PROC main() VAR num count2; inc(); inc(); TPWRITE count; TPWRITE tag; ENDPROC ENDMOD",
        "main",
        vec![],
    );
    assert_eq!(out.lines, vec!["7", "t"]);
    assert_eq!(out.shared, vec![num(7.0), text("t")]);
}

fn bare<'a>(module: &'a Module, tasks: Vec<Task<'a>>, values: Vec<Variable>) -> Machine<'a> {
    Machine {
        module,
        stack: Stack { offset: 0, variables: vec![num(0.0)] },
        shared: vec![],
        values,
        tasks,
        waiting: Waiting::Nothing,
    }
}

#[test]
fn stacks_that_do_not_fit_the_tasks_are_corrupt() {
    let module = module_of(routine_of(vec![]));
    assert_eq!(bare(&module, vec![Task::Drop], vec![]).step(None), Action::Failed(EvalError::Corrupt));
    assert_eq!(
        bare(&module, vec![Task::Apply(Op::Add)], vec![num(1.0)]).step(None),
        Action::Failed(EvalError::Corrupt)
    );
    assert_eq!(bare(&module, vec![Task::Exit], vec![num(1.0)]).step(None), Action::Failed(EvalError::Corrupt));
    assert_eq!(bare(&module, vec![Task::Halt, Task::Exit], vec![]).step(None), Action::Failed(EvalError::Corrupt));
    assert_eq!(bare(&module, vec![Task::Halt], vec![]).step(None), Action::Failed(EvalError::Corrupt));
    let mut machine = bare(&module, vec![Task::Halt, Task::Drop, Task::Exit], vec![Variable::Bool(true)]);
    assert_eq!(machine.step(None), Action::Continue);
    assert_eq!(machine.step(None), Action::Done(Variable::Bool(true)));
    assert_eq!(machine.step(None), Action::Idle);
}

#[test]
fn single_steps_do_what_their_task_says() {
    let module = module_of(routine_of(vec![]));
    let mut machine = bare(&module, vec![Task::Halt, Task::Void], vec![]);
    assert_eq!(machine.step(None), Action::Continue);
    assert_eq!(machine.values, vec![Variable::Void]);
    assert_eq!(machine.tasks.len(), 1);

    let print = Node::Print(Place::Local(0));
    let mut machine = bare(&module, vec![Task::Halt, Task::Eval(&print)], vec![]);
    assert_eq!(machine.step(None), Action::Write(num(0.0)));
    assert_eq!(machine.values, vec![Variable::Void]);
    assert_eq!(machine.stack.variables, vec![num(0.0)]);

    let mut machine = bare(&module, vec![Task::Halt, Task::Apply(Op::Div)], vec![num(1.0), num(4.0)]);
    assert_eq!(
        machine.step(None),
        Action::Compute { op: Op::Div, lhs: 1.0f64.to_bits(), rhs: 4.0f64.to_bits() }
    );
    assert_eq!(machine.waiting, Waiting::Number);
    assert!(machine.values.is_empty());
    assert_eq!(machine.step(Some(num(0.25))), Action::Continue);
    assert_eq!(machine.waiting, Waiting::Nothing);
    assert_eq!(machine.values, vec![num(0.25)]);
}

#[test]
fn failure_keeps_what_was_done_before() {
    let out = run(
        &body("VAR num n; VAR bool b; n := 5; TPWRITE n; n := n + b; n := 6;"),
        "main",
        vec![],
    );
    assert_eq!(out.result, Err(EvalError::TypeMismatch));
    assert_eq!(out.lines, vec!["5"]);
    assert_eq!(out.stack.variables, vec![num(5.0), Variable::Bool(false)]);
}

#[test]
fn errors_have_kinds_and_words() {
    assert_eq!(EvalError::TypeMismatch.kind(), Kind::Type);
    assert_eq!(EvalError::NotAVariable.kind(), Kind::Type);
    assert_eq!(EvalError::OutOfFrame.kind(), Kind::Bounds);
    assert_eq!(EvalError::UnknownRoutine.kind(), Kind::Bounds);
    assert_eq!(EvalError::BadCall.kind(), Kind::Bounds);
    assert_eq!(EvalError::BadReply.kind(), Kind::Host);
    assert_eq!(EvalError::Corrupt.kind(), Kind::Host);
    assert_eq!(EvalError::NotAVariable.message(), "Can only assign to variable");
    assert_eq!(EvalError::TypeMismatch.message(), "Type mismatch");
}

#[test]
fn parsed_programs_never_leave_their_frames() {
    let source = "MOD M
VAR num total := 0;
PROC add(num n, INOUT num sum)
  VAR num i;
  FOR i FROM 1 TO n DO
    sum := sum + i;
    IF sum THEN RETURN; ENDIF
  ENDFOR
ENDPROC
PROC main()
  VAR num s;
  add(3, s);
  add(2, total);
  TPWRITE s;
ENDPROC
ENDMOD";
    let out = run(source, "main", vec![]);
    assert_eq!(out.result, Err(EvalError::TypeMismatch));
    assert_eq!(out.stack.variables.len(), 1 + 3);
    let out = run(&source.replace("IF sum THEN RETURN; ENDIF", ""), "main", vec![]);
    assert_eq!(out.result, Ok(Variable::Void));
    assert_eq!(out.lines, vec!["6"]);
    assert_eq!(out.shared, vec![num(3.0)]);
    assert_eq!(out.stack.variables, vec![num(6.0)]);
}

#[test]
fn conditional_without_alternatives_runs_its_else() {
    let assign = |x: f64| Node::Assign { lhs: Box::new(Node::Var(Place::Local(0))), rhs: lit(x) };
    let module = module_of(routine_of(vec![
        Node::If { branches: vec![], otherwise: Some(vec![assign(4.0)]) },
        Node::If { branches: vec![], otherwise: None },
        Node::If {
            branches: vec![
                Branch { cond: Node::Value(Variable::Bool(false)), body: vec![assign(5.0)] },
                Branch { cond: Node::Value(Variable::Bool(true)), body: vec![] },
                Branch { cond: Node::Value(num(1.0)), body: vec![assign(6.0)] },
            ],
            otherwise: Some(vec![assign(7.0)]),
        },
        Node::Return(Some(Box::new(Node::Var(Place::Local(0))))),
    ]));
    assert_eq!(run_in(&module, "main", vec![]).result, Ok(num(4.0)));
}

#[test]
fn advance_takes_steps_until_the_host_is_needed() {
    let program = program(&body("VAR num n := 1; VAR bool b; b := b + b; TPWRITE n; n := n + 1; RETURN n;"));
    let module = &program.modules[0];
    let start = || Machine::new(module, 0, frame(&module.routines[0], &vec![]).unwrap()).unwrap();

    let mut machine = start();
    assert_eq!(machine.advance(None, usize::MAX), Action::Write(num(1.0)));
    assert_eq!(
        machine.advance(None, usize::MAX),
        Action::Compute { op: Op::Add, lhs: 1.0f64.to_bits(), rhs: 1.0f64.to_bits() }
    );
    assert_eq!(machine.advance(Some(num(2.0)), usize::MAX), Action::Done(num(2.0)));
    assert_eq!(machine.advance(None, usize::MAX), Action::Idle);
    assert_eq!(machine.stack.variables, vec![num(2.0), Variable::Bool(false)]);

    let mut stepped = start();
    let mut steps = 0;
    while stepped.step(None) == Action::Continue {
        steps += 1;
    }
    assert!(steps >= 4);
    let mut machine = start();
    assert_eq!(machine.advance(None, 0), Action::Continue);
    assert_eq!(machine.advance(None, 1), Action::Continue);
    assert_eq!(machine.advance(None, steps - 4), Action::Continue);
    assert_eq!(machine.advance(None, 5), Action::Write(num(1.0)));
    assert_eq!(machine.tasks.len(), stepped.tasks.len());
    assert_eq!(machine.stack, stepped.stack);
    assert_eq!(machine.values, stepped.values);
}
