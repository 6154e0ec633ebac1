use rapid_lang::ast::{Branch, Node, Place};
use rapid_lang::lexer::parse;
use rapid_lang::parser::{parse_tokens, Category, ParseError, Reason};
use rapid_lang::program::{Module, Program, Routine, Scope, Slot};
use rapid_lang::token::TokenType;
use rapid_lang::value::Variable;

fn num(x: f64) -> Variable {
    Variable::Num(x.to_bits())
}

fn numbers(tokens: &[TokenType]) -> Vec<Option<u64>> {
    tokens
        .iter()
        .map(|t| match t {
            TokenType::NumValue(s) => s.parse::<f64>().ok().map(f64::to_bits),
            _ => None,
        })
        .collect()
}

fn parse_text(source: &str) -> Result<Program, ParseError> {
    let tokens = parse(source).unwrap();
    let numbers = numbers(&tokens);
    parse_tokens(tokens, numbers)
}

fn routine(source: &str) -> Routine {
    let mut program = parse_text(source).unwrap();
    let mut module = program.modules.pop().unwrap();
    module.routines.pop().unwrap()
}

fn body(statements: &str) -> String {
    format!("MOD M\nPROC main()\n{}\nENDPROC\nENDMOD", statements)
}

fn nodes(statements: &str) -> Vec<Node> {
    routine(&body(&format!(
        "VAR num a; VAR num b; VAR num c; VAR bool p; VAR string s; {}",
        statements
    )))
    .nodes
}

fn failure(source: &str) -> (Reason, usize, Option<TokenType>) {
    let e = parse_text(source).unwrap_err();
    (e.reason, e.at, e.token)
}

fn var(slot: usize) -> Box<Node> {
    Box::new(Node::Var(Place::Local(slot)))
}

fn lit(x: f64) -> Box<Node> {
    Box::new(Node::Value(num(x)))
}

fn slot(name: &str, value: Variable) -> Slot {
    Slot { name: String::from(name), value }
}

#[test]
fn empty_token_sequence_is_an_empty_program() {
    assert_eq!(parse_tokens(vec![], vec![]), Ok(Program { modules: vec![] }));
}

#[test]
fn sample_program_parses() {
    let program = parse_text(
        "MOD Testmodule \n    PROC rTest() \n        VAR num nTest1:=0; \n        nTest1:= 2 + 2 * 3 *4 + 1;\n        TpWrite nTest1;\n    ENDPROC \nENDMOD",
    )
    .unwrap();
    let product = Node::OpMul {
        lhs: Box::new(Node::OpMul { lhs: lit(2.0), rhs: lit(3.0) }),
        rhs: lit(4.0),
    };
    let sum = Node::OpAdd {
        lhs: lit(2.0),
        rhs: Box::new(Node::OpAdd { lhs: Box::new(product), rhs: lit(1.0) }),
    };
    assert_eq!(
        program,
        Program {
            modules: vec![Module {
                name: String::from("Testmodule"),
                routines: vec![Routine {
                    name: String::from("rTest"),
                    inout: vec![],
                    variables: Scope { slots: vec![slot("nTest1", num(0.0))] },
                    nodes: vec![
                        Node::Assign { lhs: var(0), rhs: Box::new(sum) },
                        Node::Print(Place::Local(0)),
                    ],
                }],
                variables: Scope { slots: vec![] },
            }],
        }
    );
}

#[test]
fn additive_chain_groups_to_the_right() {
    assert_eq!(
        nodes("a := a - b + c;"),
        vec![Node::Assign {
            lhs: var(0),
            rhs: Box::new(Node::OpSub {
                lhs: var(0),
                rhs: Box::new(Node::OpAdd { lhs: var(1), rhs: var(2) }),
            }),
        }]
    );
}

#[test]
fn multiplicative_chain_groups_to_the_left() {
    assert_eq!(
        nodes("a := a / b * c;"),
        vec![Node::Assign {
            lhs: var(0),
            rhs: Box::new(Node::OpMul {
                lhs: Box::new(Node::OpDiv { lhs: var(0), rhs: var(1) }),
                rhs: var(2),
            }),
        }]
    );
}

#[test]
fn sum_after_product_takes_the_product_as_left_operand() {
    assert_eq!(
        nodes("a := a * b - c;"),
        vec![Node::Assign {
            lhs: var(0),
            rhs: Box::new(Node::OpSub {
                lhs: Box::new(Node::OpMul { lhs: var(0), rhs: var(1) }),
                rhs: var(2),
            }),
        }]
    );
}

#[test]
fn literals_become_values() {
    assert_eq!(
        nodes("s := \"x\"; p := TRUE; p := FALSE; a := 1.5;"),
        vec![
            Node::Assign { lhs: var(4), rhs: Box::new(Node::Value(Variable::Str(String::from("x")))) },
            Node::Assign { lhs: var(3), rhs: Box::new(Node::Value(Variable::Bool(true))) },
            Node::Assign { lhs: var(3), rhs: Box::new(Node::Value(Variable::Bool(false))) },
            Node::Assign { lhs: var(0), rhs: lit(1.5) },
        ]
    );
}

#[test]
fn slots_count_parameters_and_declarations() {
    let r = routine(
        "MOD M PROC f(num a, INOUT string b, bool c) VAR num d := 4; VAR bool e; IF c THEN VAR string g := \"in\"; ENDIF d := a; ENDPROC ENDMOD",
    );
    assert_eq!(r.inout, vec![false, true, false]);
    assert_eq!(
        r.variables.slots,
        vec![
            slot("a", num(0.0)),
            slot("b", Variable::Str(String::new())),
            slot("c", Variable::Bool(false)),
            slot("d", num(4.0)),
            slot("e", Variable::Bool(false)),
            slot("g", Variable::Str(String::from("in"))),
        ]
    );
    assert_eq!(r.variables.len(), 3 + 3);
}

#[test]
fn reference_resolves_to_the_latest_declaration() {
    let r = routine(&body(
        "VAR num x := 1; x := 5; VAR bool x := TRUE; x := FALSE; VAR num y; TPWRITE x;",
    ));
    assert_eq!(r.variables.len(), 3);
    assert_eq!(
        r.nodes,
        vec![
            Node::Assign { lhs: var(0), rhs: lit(5.0) },
            Node::Assign { lhs: var(1), rhs: Box::new(Node::Value(Variable::Bool(false))) },
            Node::Print(Place::Local(1)),
        ]
    );
    assert_eq!(r.variables.lookup(&String::from("x")), Some(1));
    assert_eq!(r.variables.lookup(&String::from("y")), Some(2));
    assert_eq!(r.variables.lookup(&String::from("z")), None);
}

#[test]
fn parameter_hidden_by_a_local_of_its_name() {
    let r = routine("MOD M PROC f(num a) VAR string a; a := \"t\"; ENDPROC ENDMOD");
    assert_eq!(
        r.nodes,
        vec![Node::Assign { lhs: var(1), rhs: Box::new(Node::Value(Variable::Str(String::from("t")))) }]
    );
}

#[test]
fn reference_before_declaration_is_an_error() {
    assert_eq!(
        failure(&body("x := 1; VAR num x;")),
        (Reason::UnknownId, 6, Some(TokenType::Id(String::from("x"))))
    );
    assert_eq!(failure(&body("VAR num x; x := y;")).0, Reason::UnknownId);
    assert_eq!(failure(&body("TPWRITE y;")), (Reason::UnknownId, 7, Some(TokenType::Id(String::from("y")))));
    assert_eq!(Reason::UnknownId.category(), Category::NameResolution);
}

#[test]
fn module_variables_are_shared_and_hidden_by_locals() {
    let program = parse_text(
        "MOD M VAR num g := 3; PERS bool flag; LOCAL string tag := \"t\"; PROC f() g := 1; VAR num g; g := 2; TPWRITE tag; ENDPROC ENDMOD",
    )
    .unwrap();
    let module = &program.modules[0];
    assert_eq!(
        module.variables.slots,
        vec![slot("g", num(3.0)), slot("flag", Variable::Bool(false)), slot("tag", Variable::Str(String::from("t")))]
    );
    assert_eq!(
        module.routines[0].nodes,
        vec![
            Node::Assign { lhs: Box::new(Node::Var(Place::Shared(0))), rhs: lit(1.0) },
            Node::Assign { lhs: var(0), rhs: lit(2.0) },
            Node::Print(Place::Shared(2)),
        ]
    );
}

#[test]
fn module_variable_declared_later_is_unknown() {
    assert_eq!(failure("MOD M PROC f() g := 1; ENDPROC VAR num g; ENDMOD").0, Reason::UnknownId);
}

#[test]
fn conditional_holds_its_alternatives_in_order() {
    assert_eq!(
        nodes("IF p THEN a := 1; ELSEIF p + p THEN a := 2; ELSEIF p THEN ELSE a := 3; ENDIF"),
        vec![Node::If {
            branches: vec![
                Branch { cond: *var(3), body: vec![Node::Assign { lhs: var(0), rhs: lit(1.0) }] },
                Branch {
                    cond: Node::OpAdd { lhs: var(3), rhs: var(3) },
                    body: vec![Node::Assign { lhs: var(0), rhs: lit(2.0) }],
                },
                Branch { cond: *var(3), body: vec![] },
            ],
            otherwise: Some(vec![Node::Assign { lhs: var(0), rhs: lit(3.0) }]),
        }]
    );
    assert_eq!(
        nodes("if p then endif"),
        vec![Node::If { branches: vec![Branch { cond: *var(3), body: vec![] }], otherwise: None }]
    );
    assert_eq!(
        nodes("IF p THEN else a := 3; ENDIF"),
        vec![Node::If {
            branches: vec![Branch { cond: *var(3), body: vec![] }],
            otherwise: Some(vec![Node::Assign { lhs: var(0), rhs: lit(3.0) }]),
        }]
    );
    assert_eq!(
        nodes("IF p THEN ELSE ENDIF"),
        vec![Node::If { branches: vec![Branch { cond: *var(3), body: vec![] }], otherwise: Some(vec![]) }]
    );
}

#[test]
fn declarations_in_alternatives_take_slots_in_order() {
    let r = routine(&body(
        "VAR bool p; IF p THEN VAR num a; ELSEIF p THEN VAR num b; a := 1; ELSE VAR num c; b := 2; ENDIF c := 3;",
    ));
    assert_eq!(r.variables.len(), 4);
    assert_eq!(r.variables.lookup(&String::from("c")), Some(3));
}

#[test]
fn loops_parse() {
    assert_eq!(
        nodes("WHILE p DO a := 1; ENDWHILE FOR a FROM 1 TO b * 2 do TPWRITE a; ENDFOR"),
        vec![
            Node::While { cond: var(3), body: vec![Node::Assign { lhs: var(0), rhs: lit(1.0) }] },
            Node::For {
                counter: Place::Local(0),
                from: lit(1.0),
                to: Box::new(Node::OpMul { lhs: var(1), rhs: lit(2.0) }),
                body: vec![Node::Print(Place::Local(0))],
            },
        ]
    );
}

#[test]
fn return_parses_with_and_without_value() {
    assert_eq!(
        nodes("RETURN; RETURN 42; RETURN a + 1;"),
        vec![
            Node::Return(None),
            Node::Return(Some(lit(42.0))),
            Node::Return(Some(Box::new(Node::OpAdd { lhs: var(0), rhs: lit(1.0) }))),
        ]
    );
}

#[test]
fn calls_resolve_to_routines_declared_before() {
    let program = parse_text(
        "MOD M PROC f(num a, INOUT num b) f(a, b); ENDPROC PROC g() ENDPROC PROC f() VAR num x; g(); f(); ENDPROC PROC h() VAR num y; f(); ENDPROC ENDMOD",
    )
    .unwrap();
    let routines = &program.modules[0].routines;
    assert_eq!(routines[0].nodes, vec![Node::ProcCall { routine: 0, args: vec![*var(0), *var(1)] }]);
    assert_eq!(
        routines[2].nodes,
        vec![Node::ProcCall { routine: 1, args: vec![] }, Node::ProcCall { routine: 2, args: vec![] }]
    );
    assert_eq!(routines[3].nodes, vec![Node::ProcCall { routine: 2, args: vec![] }]);
    assert_eq!(program.modules[0].routine(&String::from("f")), Some(2));
    assert_eq!(program.modules[0].routine(&String::from("g")), Some(1));
    assert_eq!(program.modules[0].routine(&String::from("none")), None);
}

#[test]
fn call_of_a_routine_declared_later_is_unknown() {
    assert_eq!(failure("MOD M PROC f() g(); ENDPROC PROC g() ENDPROC ENDMOD").0, Reason::UnknownId);
}

#[test]
fn call_checks_its_arguments() {
    let head = "MOD M PROC f(num a, INOUT num b) ENDPROC PROC g() VAR num x; ";
    assert_eq!(failure(&format!("{}f(x); ENDPROC ENDMOD", head)).0, Reason::WrongArgumentCount);
    assert_eq!(failure(&format!("{}f(); ENDPROC ENDMOD", head)).0, Reason::WrongArgumentCount);
    assert_eq!(failure(&format!("{}f(x, x, x); ENDPROC ENDMOD", head)).0, Reason::WrongArgumentCount);
    assert_eq!(failure(&format!("{}f(x, x + 1); ENDPROC ENDMOD", head)).0, Reason::ExpectedVariable);
    assert_eq!(failure(&format!("{}f(x, 1); ENDPROC ENDMOD", head)).0, Reason::ExpectedVariable);
    assert_eq!(failure(&format!("{}f(x, x) ENDPROC ENDMOD", head)).0, Reason::ExpectedSemicolon);
    assert_eq!(failure(&format!("{}f x; ENDPROC ENDMOD", head)).0, Reason::ExpectedLeftPar);
    assert_eq!(failure(&format!("{}f(x, ); ENDPROC ENDMOD", head)).0, Reason::InvalidStatementToken);
    assert_eq!(failure(&format!("{}f(x; ENDPROC ENDMOD", head)).0, Reason::InvalidStatementToken);
    assert!(parse_text(&format!("{}f(x + 1, x); ENDPROC ENDMOD", head)).is_ok());
    assert_eq!(Reason::ExpectedVariable.category(), Category::Type);
}

#[test]
fn functions_close_with_their_own_keyword() {
    let program = parse_text("MOD M FUNC num f(num a) RETURN a; ENDFUNC PROC g() ENDPROC ENDMOD").unwrap();
    assert_eq!(program.modules[0].routines.len(), 2);
    assert_eq!(program.modules[0].routines[0].nodes, vec![Node::Return(Some(var(0)))]);
    assert_eq!(
        failure("MOD M FUNC num f() ENDPROC ENDMOD"),
        (Reason::InvalidRoutineToken, 7, Some(TokenType::EndProc))
    );
    assert_eq!(failure("MOD M PROC f() ENDFUNC ENDMOD").0, Reason::InvalidRoutineToken);
    assert_eq!(failure("MOD M FUNC f() ENDFUNC ENDMOD"), (Reason::ExpectedDataType, 3, Some(TokenType::Id(String::from("f")))));
    assert_eq!(failure("MOD M FUNC").0, Reason::ExpectedDataType);
}

#[test]
fn modules_keep_their_order_and_the_last_of_a_name_is_found() {
    let program = parse_text("MOD A ENDMOD MOD B ENDMOD MOD A PROC f() ENDPROC ENDMOD").unwrap();
    assert_eq!(program.modules.len(), 3);
    assert_eq!(program.modules[1].name, "B");
    assert_eq!(program.module(&String::from("A")), Some(2));
    assert_eq!(program.module(&String::from("B")), Some(1));
    assert_eq!(program.module(&String::from("C")), None);
}

#[test]
fn missing_module_end_is_an_unexpected_end() {
    assert_eq!(failure("MOD M PROC f() ENDPROC"), (Reason::UnexpectedEndOfModule, 7, None));
    assert_eq!(failure("MOD M "), (Reason::UnexpectedEndOfModule, 2, None));
    assert_eq!(Reason::UnexpectedEndOfModule.category(), Category::Syntax);
}

#[test]
fn missing_block_ends_are_unexpected_ends() {
    assert_eq!(failure("MOD M PROC f()"), (Reason::UnexpectedEndOfRoutine, 6, None));
    assert_eq!(failure("MOD M FUNC num f() RETURN;").0, Reason::UnexpectedEndOfRoutine);
    assert_eq!(failure("MOD M PROC f() VAR bool p; IF p THEN").0, Reason::UnexpectedEndOfBlock);
    assert_eq!(failure("MOD M PROC f() VAR bool p; IF p THEN ELSE ").0, Reason::UnexpectedEndOfBlock);
    assert_eq!(failure("MOD M PROC f() VAR bool p; WHILE p DO ").0, Reason::UnexpectedEndOfBlock);
    assert_eq!(failure("MOD M PROC f() VAR num i; FOR i FROM 1 TO 2 DO ").0, Reason::UnexpectedEndOfBlock);
    assert_eq!(
        failure(&body("VAR bool p; IF p THEN ENDWHILE")),
        (Reason::InvalidRoutineToken, 13, Some(TokenType::EndWhile))
    );
    assert_eq!(failure(&body("VAR bool p; IF p THEN ELSE ELSEIF p THEN ENDIF")).0, Reason::InvalidRoutineToken);
    assert_eq!(failure(&body("VAR bool p; WHILE p DO ENDFOR")).0, Reason::InvalidRoutineToken);
}

#[test]
fn program_level_errors() {
    assert_eq!(failure("PROC f() ENDPROC"), (Reason::InvalidProgramToken, 0, Some(TokenType::Proc)));
    assert_eq!(failure("MOD A ENDMOD ;").0, Reason::InvalidProgramToken);
    assert_eq!(failure("MOD ;"), (Reason::ExpectedModuleName, 1, Some(TokenType::Semicolon)));
    assert_eq!(failure("MOD"), (Reason::ExpectedModuleName, 1, None));
    assert_eq!(failure("MOD M ; ENDMOD"), (Reason::InvalidModuleToken, 2, Some(TokenType::Semicolon)));
    assert_eq!(failure("MOD M num x; ENDMOD").0, Reason::InvalidModuleToken);
}

#[test]
fn routine_head_errors() {
    assert_eq!(failure("MOD M PROC () ENDPROC ENDMOD"), (Reason::ExpectedRoutineName, 3, Some(TokenType::LeftPar)));
    assert_eq!(failure("MOD M PROC f ENDPROC ENDMOD"), (Reason::ExpectedLeftPar, 4, Some(TokenType::EndProc)));
    assert_eq!(failure("MOD M PROC f(x) ENDPROC ENDMOD").0, Reason::ExpectedRightPar);
    assert_eq!(failure("MOD M PROC f(num a num b) ENDPROC ENDMOD"), (Reason::ExpectedRightPar, 7, Some(TokenType::NumType)));
    assert_eq!(failure("MOD M PROC f(num a,) ENDPROC ENDMOD").0, Reason::ExpectedRightPar);
    assert_eq!(failure("MOD M PROC f(num) ENDPROC ENDMOD").0, Reason::ExpectedVarName);
    assert_eq!(failure("MOD M PROC f(INOUT a) ENDPROC ENDMOD").0, Reason::ExpectedVarName);
    assert_eq!(failure("MOD M PROC f(INOUT INOUT a) ENDPROC ENDMOD").0, Reason::UnknownDataType);
    assert_eq!(failure("MOD M PROC f(INOUT").0, Reason::ExpectedDataType);
    assert_eq!(failure("MOD M PROC f(num a ").0, Reason::UnexpectedEndOfRoutine);
    assert_eq!(failure("MOD M PROC f(num a,").0, Reason::UnexpectedEndOfRoutine);
    assert_eq!(failure("MOD M PROC f(").0, Reason::UnexpectedEndOfRoutine);
}

#[test]
fn declaration_errors() {
    assert_eq!(failure("MOD M PROC f() VAR").0, Reason::ExpectedDataType);
    assert_eq!(failure(&body("VAR num ;")).0, Reason::ExpectedVarName);
    assert_eq!(failure(&body("VAR num x + 1;")).0, Reason::ExpectedAssignOrSemicolon);
    assert_eq!(failure(&body("VAR num x")).0, Reason::ExpectedAssignOrSemicolon);
    assert_eq!(failure("MOD M PROC f() VAR num x :=").0, Reason::ExpectedValue);
    assert_eq!(failure(&body("VAR num x := 1 + 2;")).0, Reason::ExpectedValue);
    assert_eq!(failure(&body("VAR x y;")), (Reason::UnknownDataType, 7, Some(TokenType::Id(String::from("x")))));
    assert_eq!(failure(&body("VAR num x := TRUE;")).0, Reason::UnknownDataType);
    assert_eq!(failure(&body("VAR bool x := 1;")).0, Reason::UnknownDataType);
    assert_eq!(failure(&body("VAR string x := x;")).0, Reason::UnknownDataType);
    assert_eq!(failure(&body("num x;")), (Reason::InvalidRoutineToken, 6, Some(TokenType::NumType)));
}

#[test]
fn malformed_number_is_an_error() {
    assert_eq!(
        failure(&body("VAR num x := 1.2.3;")),
        (Reason::MalformedNumber, 10, Some(TokenType::NumValue(String::from("1.2.3"))))
    );
    assert_eq!(failure(&body("VAR num x; x := 1 + 1..2;")).0, Reason::MalformedNumber);
    assert_eq!(Reason::MalformedNumber.category(), Category::Lexical);
    let tokens = parse(&body("VAR num x := 1;")).unwrap();
    assert_eq!(parse_tokens(tokens, vec![]).unwrap_err().reason, Reason::MalformedNumber);
}

#[test]
fn statement_errors() {
    assert_eq!(failure(&body("VAR num x; x + 1;")), (Reason::ExpectedAssignment, 11, Some(TokenType::Add)));
    assert_eq!(failure("MOD M PROC f() VAR num x; x ").0, Reason::ExpectedAssignment);
    assert_eq!(failure("MOD M PROC f() VAR num x; x :=").0, Reason::UnexpectedToken);
    assert_eq!(failure("MOD M PROC f() VAR num x; x := 1 ").0, Reason::ExpectedOperator);
    assert_eq!(failure("MOD M PROC f() VAR num x; x := 1 +").0, Reason::UnexpectedToken);
    assert_eq!(failure(&body("VAR num x; x := ;")).0, Reason::InvalidStatementToken);
    assert_eq!(failure(&body("VAR num x; x := 1 < 2;")), (Reason::InvalidStatementToken, 13, Some(TokenType::Less)));
    assert_eq!(failure(&body("VAR num x; x := 1 x;")).0, Reason::InvalidStatementToken);
    assert_eq!(failure(&body("VAR num x; x := (1);")).0, Reason::InvalidStatementToken);
    assert_eq!(failure(&body("VAR num x; x := 1 + ;")), (Reason::InvalidStatementToken, 14, Some(TokenType::Semicolon)));
    assert_eq!(failure(&body("VAR num x; x := 1 < ;")), (Reason::InvalidStatementToken, 14, Some(TokenType::Semicolon)));
    assert_eq!(failure(&body("; ")).0, Reason::InvalidRoutineToken);
    assert_eq!(failure(&body("TPWRITE 1;")).0, Reason::ExpectedVarName);
    assert_eq!(failure(&body("VAR num x; TPWRITE x x;")).0, Reason::ExpectedSemicolon);
    assert_eq!(failure(&body("VAR num x; RETURN x")).0, Reason::InvalidStatementToken);
    assert_eq!(failure(&body("VAR bool p; IF p DO ENDIF")).0, Reason::InvalidStatementToken);
    assert_eq!(failure(&body("VAR bool p; WHILE p THEN ENDWHILE")).0, Reason::InvalidStatementToken);
    assert_eq!(failure(&body("FOR 1 FROM 1 TO 2 DO ENDFOR")).0, Reason::ExpectedVarName);
    assert_eq!(failure(&body("FOR i FROM 1 TO 2 DO ENDFOR")).0, Reason::UnknownId);
    assert_eq!(failure(&body("VAR num i; FOR i := 1 TO 2 DO ENDFOR")).0, Reason::ExpectedFrom);
    assert_eq!(failure("MOD M PROC f() VAR num i; FOR i ").0, Reason::ExpectedFrom);
    assert_eq!(failure(&body("VAR num i; FOR i FROM 1 DO ENDFOR")).0, Reason::InvalidStatementToken);
}

#[test]
fn first_error_ends_the_parse() {
    assert_eq!(failure(&body("y := 1; VAR num x")).0, Reason::UnknownId);
}

#[test]
fn assignment_to_a_non_variable_is_an_error() {
    assert_eq!(
        failure(&body("1 := 2;")),
        (Reason::NotAssignable, 6, Some(TokenType::NumValue(String::from("1"))))
    );
    assert_eq!(failure(&body("\"s\" := 2;")).0, Reason::NotAssignable);
    assert_eq!(failure(&body("TRUE := FALSE;")).0, Reason::NotAssignable);
    assert_eq!(failure(&body("main := 2;")), (Reason::NotAssignable, 6, Some(TokenType::Id(String::from("main")))));
    assert_eq!(failure("MOD M PROC f() ENDPROC PROC g() f := 1; ENDPROC ENDMOD").0, Reason::NotAssignable);
    assert_eq!(failure(&body("1 + 2;")).0, Reason::InvalidRoutineToken);
    assert_eq!(Reason::NotAssignable.category(), Category::Type);
    assert_eq!(Reason::NotAssignable.message(), "Can only assign to variable");
}
