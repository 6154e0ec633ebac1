//! The parser: tokens to a program.
//!
//! The parser reads the tokens once, from left to right, and never goes back. Names
//! are resolved while it reads: a variable gets its slot where it is declared, and
//! a reference is replaced by the slot of the most recent declaration of its name.
//!
//! ```text
//! program   := { MOD module }
//! module    := name { PROC routine ENDPROC | FUNC type routine ENDFUNC
//!                   | (VAR | PERS | LOCAL) variable } ENDMOD
//! routine   := name "(" [ parameter { "," parameter } ] ")" { statement }
//! parameter := [ INOUT ] type name
//! variable  := type name [ ":=" literal ] ";"
//! statement := VAR variable
//!            | name ":=" expression ";"
//!            | name "(" [ expression { "," expression } ] ")" ";"
//!            | TPWRITE name ";"
//!            | RETURN [ expression ] ";"
//!            | IF expression THEN { statement }
//!              { ELSEIF expression THEN { statement } } [ ELSE { statement } ] ENDIF
//!            | WHILE expression DO { statement } ENDWHILE
//!            | FOR name FROM expression TO expression DO { statement } ENDFOR
//! expression := operand { ("+" | "-" | "*" | "/") operand }
//! operand   := number | string | TRUE | FALSE | name
//! ```
//!
//! `DO`, `TO`, `FROM` and `ELSE` are no tokens of their own: they are identifiers
//! that the parser reads as keywords where the grammar expects them, whatever the
//! case of their letters.
//!
//! In an expression `*` and `/` bind tighter than `+` and `-` and group to the
//! left. `+` and `-` group to the RIGHT: `a - b + c` is `a - (b + c)`. This is how
//! the language is defined here, and differs from common arithmetic.
use crate::ast::{
    branch_views, lemma_branch_views_push, lemma_node_views_push, lemma_view_branch,
    lemma_view_call, lemma_view_for, lemma_view_if, lemma_view_while, node_views, Branch,
    BranchView, Node, NodeView, Place,
};
use crate::lexer::{chars_of, matches_at, token_views, word_at};
use crate::program::{
    find_routine, module_views, resolve, routine_views, Module, ModuleView, Program, Routine,
    RoutineView, Scope, SlotView,
};
use crate::token::{TokenType, TokenView};
use crate::value::{initial_value, literal_value, Value, Variable};
use vstd::prelude::*;
use vstd::string::StrSliceExecFns;

verus! {

/// Why a sequence of tokens is no program.
#[derive(Debug, Clone, Copy, PartialEq, Eq, Structural)]
pub enum Reason {
    /// Outside a module stands a token other than `MOD`.
    InvalidProgramToken,
    /// `MOD` is not followed by a name.
    ExpectedModuleName,
    /// In a module stands a token that starts no declaration.
    InvalidModuleToken,
    /// The tokens end inside a module: its `ENDMOD` is missing.
    UnexpectedEndOfModule,
    /// `PROC`, or the type of a `FUNC`, is not followed by a name.
    ExpectedRoutineName,
    /// An opening parenthesis is missing.
    ExpectedLeftPar,
    /// The list of parameters is not closed, or two parameters are not separated
    /// by a comma.
    ExpectedRightPar,
    /// In a routine stands a token that starts no statement.
    InvalidRoutineToken,
    /// The tokens end inside a routine: its closing keyword is missing.
    UnexpectedEndOfRoutine,
    /// The tokens end inside a conditional or a loop: its closing keyword is
    /// missing.
    UnexpectedEndOfBlock,
    /// A statement starts with a variable that is not followed by `:=`.
    ExpectedAssignment,
    /// A name is used that is not declared before.
    UnknownId,
    /// In an expression stands a token that is neither an operand nor an operator.
    InvalidStatementToken,
    /// The tokens end where an operand is expected.
    UnexpectedToken,
    /// The tokens end where an operator, or the end of the expression, is expected.
    ExpectedOperator,
    /// The name of a variable is missing.
    ExpectedVarName,
    /// The type of a variable or function is missing.
    ExpectedDataType,
    /// The name in a declaration is followed by neither `:=` nor a semicolon.
    ExpectedAssignOrSemicolon,
    /// The initial value of a declaration is missing, or not followed by a
    /// semicolon.
    ExpectedValue,
    /// A declaration names no type, or its initial value is not of its type.
    UnknownDataType,
    /// A numeric literal denotes no number.
    MalformedNumber,
    /// A semicolon is missing behind a statement.
    ExpectedSemicolon,
    /// The counter of a counted loop is not followed by `FROM`.
    ExpectedFrom,
    /// A call gives more or fewer arguments than the routine has parameters.
    WrongArgumentCount,
    /// The argument for an `INOUT` parameter is not a variable.
    ExpectedVariable,
    /// The target of an assignment is a literal or a routine, not a variable.
    NotAssignable,
}

/// The kinds of parse error.
#[derive(Debug, Clone, Copy, PartialEq, Eq, Structural)]
pub enum Category {
    /// The text of a numeric literal denotes no number.
    Lexical,
    /// A token is missing or stands where it cannot.
    Syntax,
    /// A name is used that is not declared.
    NameResolution,
    /// An argument or the target of an assignment, which have to be variables, is
    /// none.
    Type,
}

impl Reason {
    /// The words that describe this reason.
    pub open spec fn text(self) -> Seq<char> {
        match self {
            Reason::InvalidProgramToken => "Invalid token for program"@,
            Reason::ExpectedModuleName => "Expected module name"@,
            Reason::InvalidModuleToken => "Invalid token for module"@,
            Reason::UnexpectedEndOfModule => "Unexpected end of module"@,
            Reason::ExpectedRoutineName => "Expected routine name"@,
            Reason::ExpectedLeftPar => "Expected '('"@,
            Reason::ExpectedRightPar => "Expected ')'"@,
            Reason::InvalidRoutineToken => "Invalid token for routine"@,
            Reason::UnexpectedEndOfRoutine => "Unexpected end of routine"@,
            Reason::UnexpectedEndOfBlock => "Unexpected end of block"@,
            Reason::ExpectedAssignment => "Expected variable assignment"@,
            Reason::UnknownId => "Unknown id"@,
            Reason::InvalidStatementToken => "Invalid token for statement"@,
            Reason::UnexpectedToken => "Unexpected token"@,
            Reason::ExpectedOperator => "Expected operator"@,
            Reason::ExpectedVarName => "Expected var name"@,
            Reason::ExpectedDataType => "Expected data type"@,
            Reason::ExpectedAssignOrSemicolon => "Expected assign or semicolon"@,
            Reason::ExpectedValue => "Expected value"@,
            Reason::UnknownDataType => "Unknown data type"@,
            Reason::MalformedNumber => "Malformed number"@,
            Reason::ExpectedSemicolon => "Expected ';'"@,
            Reason::ExpectedFrom => "Expected FROM"@,
            Reason::WrongArgumentCount => "Wrong number of arguments"@,
            Reason::ExpectedVariable => "Expected a variable for an INOUT parameter"@,
            Reason::NotAssignable => "Can only assign to variable"@,
        }
    }

    /// The words that describe this reason.
    pub fn message(self) -> (r: &'static str)
        ensures
            r@ == self.text(),
    {
        match self {
            Reason::InvalidProgramToken => "Invalid token for program",
            Reason::ExpectedModuleName => "Expected module name",
            Reason::InvalidModuleToken => "Invalid token for module",
            Reason::UnexpectedEndOfModule => "Unexpected end of module",
            Reason::ExpectedRoutineName => "Expected routine name",
            Reason::ExpectedLeftPar => "Expected '('",
            Reason::ExpectedRightPar => "Expected ')'",
            Reason::InvalidRoutineToken => "Invalid token for routine",
            Reason::UnexpectedEndOfRoutine => "Unexpected end of routine",
            Reason::UnexpectedEndOfBlock => "Unexpected end of block",
            Reason::ExpectedAssignment => "Expected variable assignment",
            Reason::UnknownId => "Unknown id",
            Reason::InvalidStatementToken => "Invalid token for statement",
            Reason::UnexpectedToken => "Unexpected token",
            Reason::ExpectedOperator => "Expected operator",
            Reason::ExpectedVarName => "Expected var name",
            Reason::ExpectedDataType => "Expected data type",
            Reason::ExpectedAssignOrSemicolon => "Expected assign or semicolon",
            Reason::ExpectedValue => "Expected value",
            Reason::UnknownDataType => "Unknown data type",
            Reason::MalformedNumber => "Malformed number",
            Reason::ExpectedSemicolon => "Expected ';'",
            Reason::ExpectedFrom => "Expected FROM",
            Reason::WrongArgumentCount => "Wrong number of arguments",
            Reason::ExpectedVariable => "Expected a variable for an INOUT parameter",
            Reason::NotAssignable => "Can only assign to variable",
        }
    }

    /// The kind of error that this reason belongs to.
    pub open spec fn spec_category(self) -> Category {
        match self {
            Reason::MalformedNumber => Category::Lexical,
            Reason::UnknownId => Category::NameResolution,
            Reason::ExpectedVariable => Category::Type,
            Reason::NotAssignable => Category::Type,
            _ => Category::Syntax,
        }
    }

    /// The kind of error that this reason belongs to.
    #[verifier::when_used_as_spec(spec_category)]
    pub fn category(self) -> (r: Category)
        ensures
            r == self.spec_category(),
    {
        match self {
            Reason::MalformedNumber => Category::Lexical,
            Reason::UnknownId => Category::NameResolution,
            Reason::ExpectedVariable => Category::Type,
            Reason::NotAssignable => Category::Type,
            _ => Category::Syntax,
        }
    }
}

/// A parse error in brief: the reason and the index of the offending token, which
/// is the number of tokens where the tokens end too early.
#[derive(Debug, Clone, Copy, PartialEq, Eq, Structural)]
pub struct Fault {
    pub reason: Reason,
    pub at: usize,
}

/// A parse error: the reason, the index of the offending token, and that token
/// itself, where the tokens did not end before it.
#[derive(Debug, PartialEq, Eq)]
pub struct ParseError {
    pub reason: Reason,
    pub at: usize,
    pub token: Option<TokenType>,
}

/// What ends an expression.
#[derive(Debug, Clone, Copy, PartialEq, Eq, Structural)]
pub enum Stop {
    /// A semicolon, behind a statement.
    Semicolon,
    /// `THEN`, behind the condition of a conditional.
    Then,
    /// `DO`, behind the condition of a loop or the upper limit of a counted loop.
    Do,
    /// `TO`, behind the lower limit of a counted loop.
    To,
    /// A comma or a closing parenthesis, behind an argument of a call.
    Argument,
}

/// The blocks of statements, told apart by what closes them.
#[derive(Debug, Clone, Copy, PartialEq, Eq, Structural)]
pub enum Block {
    /// The body of a procedure: closed by `ENDPROC`.
    Proc,
    /// The body of a function: closed by `ENDFUNC`.
    Func,
    /// A branch of a conditional behind `THEN`: closed by `ELSEIF`, `ELSE` or
    /// `ENDIF`.
    Then,
    /// The branch of a conditional behind `ELSE`: closed by `ENDIF`.
    Else,
    /// The body of a conditional loop: closed by `ENDWHILE`.
    While,
    /// The body of a counted loop: closed by `ENDFOR`.
    For,
}

/// What the parser knows while it reads the body of a routine.
pub struct Context {
    /// The tokens of the program.
    pub tokens: Seq<TokenView>,
    /// For each token that is a numeric literal, the bit pattern of its number,
    /// if it denotes one.
    pub numbers: Seq<Option<u64>>,
    /// The routines of the module that are declared before this one.
    pub routines: Seq<RoutineView>,
    /// The variables of the module that are declared before this routine.
    pub shared: Seq<SlotView>,
    /// The name of this routine.
    pub name: Seq<char>,
    /// The parameters of this routine: for each, whether it is `INOUT`.
    pub inout: Seq<bool>,
}

/// The executable form of a [`Context`].
pub struct Parser<'a> {
    pub tokens: &'a Vec<TokenType>,
    pub numbers: &'a Vec<Option<u64>>,
    pub routines: &'a Vec<Routine>,
    pub shared: &'a Scope,
    pub name: &'a String,
    pub inout: &'a Vec<bool>,
}

impl<'a> View for Parser<'a> {
    type V = Context;

    open spec fn view(&self) -> Context {
        Context {
            tokens: token_views(self.tokens@),
            numbers: self.numbers@,
            routines: routine_views(self.routines@),
            shared: self.shared@,
            name: self.name@,
            inout: self.inout@,
        }
    }
}

/// The token at index `pos`, if there is one.
pub open spec fn tok(tokens: Seq<TokenView>, pos: int) -> Option<TokenView> {
    if 0 <= pos < tokens.len() {
        Some(tokens[pos])
    } else {
        None
    }
}

/// The number that the host found for the token at index `pos`, if any.
pub open spec fn number_at(numbers: Seq<Option<u64>>, pos: int) -> Option<u64> {
    if 0 <= pos < numbers.len() {
        numbers[pos]
    } else {
        None
    }
}

/// The fault with this reason at index `pos`.
pub open spec fn fault(reason: Reason, pos: int) -> Fault {
    Fault { reason, at: pos as usize }
}

/// `next`, where it lies behind `pos` and within the tokens; the number of tokens
/// otherwise. The parser only ever moves forward, so this is `next` wherever it is
/// applied; it makes that plain to the definitions below.
pub open spec fn forward(tokens: Seq<TokenView>, pos: int, next: int) -> int {
    if pos < next <= tokens.len() {
        next
    } else {
        tokens.len() as int
    }
}

/// Whether `token` is an identifier that reads as `word`, ASCII case ignored.
pub open spec fn spelled(token: TokenView, word: Seq<char>) -> bool {
    token matches TokenView::Id(name) && name.len() == word.len() && matches_at(name, 0, word)
}

/// Whether `token` ends an expression that `stop` is to end.
pub open spec fn ends(stop: Stop, token: TokenView) -> bool {
    match stop {
        Stop::Semicolon => token is Semicolon,
        Stop::Then => token is Then,
        Stop::Do => spelled(token, "DO"@),
        Stop::To => spelled(token, "TO"@),
        Stop::Argument => token is Comma || token is RightPar,
    }
}

/// Whether `token` closes a block of kind `block`.
pub open spec fn closes(block: Block, token: TokenView) -> bool {
    match block {
        Block::Proc => token is EndProc,
        Block::Func => token is EndFunc,
        Block::Then => token is EndIf || token is ElseIf || spelled(token, "ELSE"@),
        Block::Else => token is EndIf,
        Block::While => token is EndWhile,
        Block::For => token is EndFor,
    }
}

/// The reason given where the tokens end inside a block of kind `block`.
pub open spec fn unclosed(block: Block) -> Reason {
    match block {
        Block::Proc => Reason::UnexpectedEndOfRoutine,
        Block::Func => Reason::UnexpectedEndOfRoutine,
        _ => Reason::UnexpectedEndOfBlock,
    }
}

/// Whether `token` is a literal.
pub open spec fn literal(token: TokenView) -> bool {
    token is NumValue || token is StringValue || token is True || token is False
}

/// Where the variable `name` lives: in the routine, if it is declared there, else
/// in the module.
pub open spec fn place_of(ctx: Context, scope: Seq<SlotView>, name: Seq<char>) -> Option<Place> {
    match resolve(scope, name) {
        Some(slot) => Some(Place::Local(slot)),
        None => match resolve(ctx.shared, name) {
            Some(slot) => Some(Place::Shared(slot)),
            None => None,
        },
    }
}

/// The operand at index `pos`: a literal or a variable.
pub open spec fn spec_operand(ctx: Context, scope: Seq<SlotView>, pos: int) -> Result<
    NodeView,
    Fault,
> {
    match tok(ctx.tokens, pos) {
        None => Err(fault(Reason::UnexpectedToken, pos)),
        Some(TokenView::NumValue(_)) => match number_at(ctx.numbers, pos) {
            Some(bits) => Ok(NodeView::Value(Value::Num(bits))),
            None => Err(fault(Reason::MalformedNumber, pos)),
        },
        Some(TokenView::StringValue(s)) => Ok(NodeView::Value(Value::Str(s))),
        Some(TokenView::True) => Ok(NodeView::Value(Value::Bool(true))),
        Some(TokenView::False) => Ok(NodeView::Value(Value::Bool(false))),
        Some(TokenView::Id(name)) => match place_of(ctx, scope, name) {
            Some(place) => Ok(NodeView::Var(place)),
            None => Err(fault(Reason::UnknownId, pos)),
        },
        Some(_) => Err(fault(Reason::InvalidStatementToken, pos)),
    }
}

/// The rest of an expression whose left operand `lhs` is read, from index `pos`
/// on: the expression and the index behind the token that ends it.
///
/// `*` and `/` join `lhs` with the next operand at once and go on with the result.
/// `+` and `-` read all the rest of the expression first and take it as their
/// right operand. So products bind tighter than sums and group to the left, and a
/// chain of `+` and `-` groups to the RIGHT: `a - b + c` is `a - (b + c)`. Whether
/// the language means the latter so is an open question.
pub open spec fn spec_sub(
    ctx: Context,
    scope: Seq<SlotView>,
    pos: int,
    lhs: NodeView,
    stop: Stop,
) -> Result<(NodeView, int), Fault>
    decreases ctx.tokens.len() - pos,
{
    match tok(ctx.tokens, pos) {
        None => Err(fault(Reason::ExpectedOperator, pos)),
        Some(operator) => if ends(stop, operator) {
            Ok((lhs, pos + 1))
        } else {
            match spec_operand(ctx, scope, pos + 1) {
                Err(e) => Err(e),
                Ok(rhs) => match operator {
                    TokenView::Add => match spec_sub(ctx, scope, pos + 2, rhs, stop) {
                        Err(e) => Err(e),
                        Ok((rest, next)) => Ok(
                            (NodeView::OpAdd { lhs: Box::new(lhs), rhs: Box::new(rest) }, next),
                        ),
                    },
                    TokenView::Minus => match spec_sub(ctx, scope, pos + 2, rhs, stop) {
                        Err(e) => Err(e),
                        Ok((rest, next)) => Ok(
                            (NodeView::OpSub { lhs: Box::new(lhs), rhs: Box::new(rest) }, next),
                        ),
                    },
                    TokenView::Multiply => spec_sub(
                        ctx,
                        scope,
                        pos + 2,
                        NodeView::OpMul { lhs: Box::new(lhs), rhs: Box::new(rhs) },
                        stop,
                    ),
                    TokenView::Divide => spec_sub(
                        ctx,
                        scope,
                        pos + 2,
                        NodeView::OpDiv { lhs: Box::new(lhs), rhs: Box::new(rhs) },
                        stop,
                    ),
                    _ => Err(fault(Reason::InvalidStatementToken, pos)),
                },
            }
        },
    }
}

/// The expression that starts at index `pos` and is ended by `stop`, with the
/// index behind the token that ends it.
pub open spec fn spec_expression(ctx: Context, scope: Seq<SlotView>, pos: int, stop: Stop) -> Result<
    (NodeView, int),
    Fault,
> {
    match spec_operand(ctx, scope, pos) {
        Err(e) => Err(e),
        Ok(first) => spec_sub(ctx, scope, pos + 1, first, stop),
    }
}

/// The declaration of a variable whose type stands at index `pos`: the variable
/// and the index behind the semicolon.
pub open spec fn spec_var(tokens: Seq<TokenView>, numbers: Seq<Option<u64>>, pos: int) -> Result<
    (SlotView, int),
    Fault,
> {
    match tok(tokens, pos) {
        None => Err(fault(Reason::ExpectedDataType, pos)),
        Some(data_type) => match tok(tokens, pos + 1) {
            Some(TokenView::Id(name)) => match tok(tokens, pos + 2) {
                Some(TokenView::Semicolon) => match initial_value(data_type) {
                    Some(value) => Ok((SlotView { name, value }, pos + 3)),
                    None => Err(fault(Reason::UnknownDataType, pos)),
                },
                Some(TokenView::Assign) => match tok(tokens, pos + 3) {
                    None => Err(fault(Reason::ExpectedValue, pos + 3)),
                    Some(literal) => match tok(tokens, pos + 4) {
                        Some(TokenView::Semicolon) => match literal_value(
                            data_type,
                            literal,
                            number_at(numbers, pos + 3),
                        ) {
                            Some(value) => Ok((SlotView { name, value }, pos + 5)),
                            None => if data_type is NumType && literal is NumValue {
                                Err(fault(Reason::MalformedNumber, pos + 3))
                            } else {
                                Err(fault(Reason::UnknownDataType, pos))
                            },
                        },
                        _ => Err(fault(Reason::ExpectedValue, pos + 4)),
                    },
                },
                _ => Err(fault(Reason::ExpectedAssignOrSemicolon, pos + 2)),
            },
            _ => Err(fault(Reason::ExpectedVarName, pos + 1)),
        },
    }
}

/// The parameter whose type stands at index `pos`: its name and first value.
pub open spec fn spec_arg(tokens: Seq<TokenView>, pos: int) -> Result<SlotView, Fault> {
    match tok(tokens, pos) {
        None => Err(fault(Reason::ExpectedDataType, pos)),
        Some(data_type) => match tok(tokens, pos + 1) {
            Some(TokenView::Id(name)) => match initial_value(data_type) {
                Some(value) => Ok(SlotView { name, value }),
                None => Err(fault(Reason::UnknownDataType, pos)),
            },
            _ => Err(fault(Reason::ExpectedVarName, pos + 1)),
        },
    }
}

/// The parameters from index `pos` on, up to the closing parenthesis, added to
/// those read before: the slots, the `INOUT` flags and the index behind the
/// parenthesis. At `pos` a parameter is expected.
pub open spec fn spec_params(
    tokens: Seq<TokenView>,
    pos: int,
    scope: Seq<SlotView>,
    flags: Seq<bool>,
) -> Result<(Seq<SlotView>, Seq<bool>, int), Fault>
    decreases tokens.len() - pos,
{
    match tok(tokens, pos) {
        None => Err(fault(Reason::UnexpectedEndOfRoutine, pos)),
        Some(first) => {
            let flag = first is Inout;
            let at = if flag {
                pos + 1
            } else {
                pos
            };
            if !flag && initial_value(first) is None {
                Err(fault(Reason::ExpectedRightPar, pos))
            } else {
                match spec_arg(tokens, at) {
                    Err(e) => Err(e),
                    Ok(slot) => match tok(tokens, at + 2) {
                        Some(TokenView::Comma) => spec_params(
                            tokens,
                            at + 3,
                            scope.push(slot),
                            flags.push(flag),
                        ),
                        Some(TokenView::RightPar) => Ok(
                            (scope.push(slot), flags.push(flag), at + 3),
                        ),
                        None => Err(fault(Reason::UnexpectedEndOfRoutine, at + 2)),
                        Some(_) => Err(fault(Reason::ExpectedRightPar, at + 2)),
                    },
                }
            }
        },
    }
}

/// The head of a routine whose name stands at index `pos`: the name, the slots of
/// the parameters, their `INOUT` flags, and the index behind the closing
/// parenthesis.
pub open spec fn spec_header(tokens: Seq<TokenView>, pos: int) -> Result<
    (Seq<char>, Seq<SlotView>, Seq<bool>, int),
    Fault,
> {
    match tok(tokens, pos) {
        Some(TokenView::Id(name)) => match tok(tokens, pos + 1) {
            Some(TokenView::LeftPar) => match tok(tokens, pos + 2) {
                Some(TokenView::RightPar) => Ok((name, Seq::empty(), Seq::empty(), pos + 3)),
                _ => match spec_params(tokens, pos + 2, Seq::empty(), Seq::empty()) {
                    Err(e) => Err(e),
                    Ok((scope, flags, next)) => Ok((name, scope, flags, next)),
                },
            },
            _ => Err(fault(Reason::ExpectedLeftPar, pos + 1)),
        },
        _ => Err(fault(Reason::ExpectedRoutineName, pos)),
    }
}

/// The routine that a call of `name` goes to: the routine that is being read, if
/// it has that name, else the last routine of that name declared before.
pub open spec fn callee(ctx: Context, name: Seq<char>) -> Option<usize> {
    if name == ctx.name {
        Some(ctx.routines.len() as usize)
    } else {
        find_routine(ctx.routines, name)
    }
}

/// The `INOUT` flags of the parameters of routine `index`.
pub open spec fn callee_flags(ctx: Context, index: usize) -> Seq<bool> {
    if index < ctx.routines.len() {
        ctx.routines[index as int].inout
    } else {
        ctx.inout
    }
}

/// Whether every argument for an `INOUT` parameter is a variable.
pub open spec fn args_fit(flags: Seq<bool>, args: Seq<NodeView>) -> bool {
    forall|k: int| 0 <= k < flags.len() && k < args.len() && flags[k] ==> (#[trigger] args[k]) is Var
}

/// The arguments of a call from index `pos` on, added to those read before, with
/// the index behind the closing parenthesis. At `pos` an argument is expected.
pub open spec fn spec_args(ctx: Context, scope: Seq<SlotView>, pos: int, done: Seq<NodeView>) -> Result<
    (Seq<NodeView>, int),
    Fault,
>
    decreases ctx.tokens.len() - pos,
{
    match spec_expression(ctx, scope, pos, Stop::Argument) {
        Err(e) => Err(e),
        Ok((arg, next)) => if tok(ctx.tokens, next - 1) == Some(TokenView::Comma) {
            spec_args(ctx, scope, forward(ctx.tokens, pos, next), done.push(arg))
        } else {
            Ok((done.push(arg), next))
        },
    }
}

/// The call of routine `index` whose opening parenthesis is expected at index
/// `pos`, with the index behind its semicolon.
pub open spec fn spec_call(ctx: Context, scope: Seq<SlotView>, pos: int, index: usize) -> Result<
    (NodeView, int),
    Fault,
> {
    match tok(ctx.tokens, pos) {
        Some(TokenView::LeftPar) => {
            let read = match tok(ctx.tokens, pos + 1) {
                Some(TokenView::RightPar) => Ok((Seq::empty(), pos + 2)),
                _ => spec_args(ctx, scope, pos + 1, Seq::empty()),
            };
            match read {
                Err(e) => Err(e),
                Ok((args, next)) => match tok(ctx.tokens, next) {
                    Some(TokenView::Semicolon) => {
                        let flags = callee_flags(ctx, index);
                        if args.len() != flags.len() {
                            Err(fault(Reason::WrongArgumentCount, pos))
                        } else if !args_fit(flags, args) {
                            Err(fault(Reason::ExpectedVariable, pos))
                        } else {
                            Ok((NodeView::ProcCall { routine: index, args }, next + 1))
                        }
                    },
                    _ => Err(fault(Reason::ExpectedSemicolon, next)),
                },
            }
        },
        _ => Err(fault(Reason::ExpectedLeftPar, pos)),
    }
}

/// The assignment to `lhs` whose `:=` is expected at index `pos`, with the index
/// behind its semicolon.
pub open spec fn spec_assignment(ctx: Context, scope: Seq<SlotView>, pos: int, lhs: NodeView) -> Result<
    (NodeView, int),
    Fault,
> {
    match tok(ctx.tokens, pos) {
        Some(TokenView::Assign) => match spec_expression(ctx, scope, pos + 1, Stop::Semicolon) {
            Err(e) => Err(e),
            Ok((rhs, next)) => Ok(
                (NodeView::Assign { lhs: Box::new(lhs), rhs: Box::new(rhs) }, next),
            ),
        },
        _ => Err(fault(Reason::ExpectedAssignment, pos)),
    }
}

/// The statements from index `pos` on, up to the token that closes the block,
/// added to those read before: the statements, the slots declared so far, and the
/// index OF the closing token.
pub open spec fn spec_block(
    ctx: Context,
    scope: Seq<SlotView>,
    pos: int,
    block: Block,
    done: Seq<NodeView>,
) -> Result<(Seq<NodeView>, Seq<SlotView>, int), Fault>
    decreases ctx.tokens.len() - pos, 2int,
{
    match tok(ctx.tokens, pos) {
        None => Err(fault(unclosed(block), pos)),
        Some(token) => if closes(block, token) {
            Ok((done, scope, pos))
        } else {
            match spec_statement(ctx, scope, pos) {
                Err(e) => Err(e),
                Ok((node, declared, next)) => spec_block(
                    ctx,
                    declared,
                    forward(ctx.tokens, pos, next),
                    block,
                    match node {
                        Some(n) => done.push(n),
                        None => done,
                    },
                ),
            }
        },
    }
}

/// The statement that starts at index `pos`: its node, if it has one (a
/// declaration has none), the slots declared so far, and the index behind it.
pub open spec fn spec_statement(ctx: Context, scope: Seq<SlotView>, pos: int) -> Result<
    (Option<NodeView>, Seq<SlotView>, int),
    Fault,
>
    decreases ctx.tokens.len() - pos, 1int,
{
    match tok(ctx.tokens, pos) {
        None => Err(fault(Reason::UnexpectedEndOfRoutine, pos)),
        Some(TokenView::Var) => match spec_var(ctx.tokens, ctx.numbers, pos + 1) {
            Err(e) => Err(e),
            Ok((slot, next)) => Ok((None, scope.push(slot), next)),
        },
        Some(TokenView::Id(name)) => match spec_named(ctx, scope, pos, name) {
            Err(e) => Err(e),
            Ok((node, next)) => Ok((Some(node), scope, next)),
        },
        Some(TokenView::TpWrite) => match spec_write(ctx, scope, pos) {
            Err(e) => Err(e),
            Ok((node, next)) => Ok((Some(node), scope, next)),
        },
        Some(TokenView::Return) => match spec_return(ctx, scope, pos) {
            Err(e) => Err(e),
            Ok((node, next)) => Ok((Some(node), scope, next)),
        },
        Some(TokenView::If) => match spec_if(ctx, scope, pos + 1, Seq::empty()) {
            Err(e) => Err(e),
            Ok((node, declared, next)) => Ok((Some(node), declared, next)),
        },
        Some(TokenView::While) => match spec_while(ctx, scope, pos) {
            Err(e) => Err(e),
            Ok((node, declared, next)) => Ok((Some(node), declared, next)),
        },
        Some(TokenView::For) => match spec_for(ctx, scope, pos) {
            Err(e) => Err(e),
            Ok((node, declared, next)) => Ok((Some(node), declared, next)),
        },
        Some(token) => if literal(token) && tok(ctx.tokens, pos + 1) == Some(TokenView::Assign) {
            Err(fault(Reason::NotAssignable, pos))
        } else {
            Err(fault(Reason::InvalidRoutineToken, pos))
        },
    }
}

/// The statement that starts with the name at index `pos`: an assignment where
/// the name is a variable, else a call where it is a routine.
pub open spec fn spec_named(ctx: Context, scope: Seq<SlotView>, pos: int, name: Seq<char>) -> Result<
    (NodeView, int),
    Fault,
> {
    match place_of(ctx, scope, name) {
        Some(place) => spec_assignment(ctx, scope, pos + 1, NodeView::Var(place)),
        None => match callee(ctx, name) {
            Some(index) => if tok(ctx.tokens, pos + 1) == Some(TokenView::Assign) {
                Err(fault(Reason::NotAssignable, pos))
            } else {
                spec_call(ctx, scope, pos + 1, index)
            },
            None => Err(fault(Reason::UnknownId, pos)),
        },
    }
}

/// The diagnostic write whose keyword stands at index `pos`.
pub open spec fn spec_write(ctx: Context, scope: Seq<SlotView>, pos: int) -> Result<
    (NodeView, int),
    Fault,
> {
    match tok(ctx.tokens, pos + 1) {
        Some(TokenView::Id(name)) => match place_of(ctx, scope, name) {
            Some(place) => match tok(ctx.tokens, pos + 2) {
                Some(TokenView::Semicolon) => Ok((NodeView::Print(place), pos + 3)),
                _ => Err(fault(Reason::ExpectedSemicolon, pos + 2)),
            },
            None => Err(fault(Reason::UnknownId, pos + 1)),
        },
        _ => Err(fault(Reason::ExpectedVarName, pos + 1)),
    }
}

/// The return statement whose keyword stands at index `pos`.
pub open spec fn spec_return(ctx: Context, scope: Seq<SlotView>, pos: int) -> Result<
    (NodeView, int),
    Fault,
> {
    match tok(ctx.tokens, pos + 1) {
        Some(TokenView::Semicolon) => Ok((NodeView::Return(None), pos + 2)),
        _ => match spec_expression(ctx, scope, pos + 1, Stop::Semicolon) {
            Err(e) => Err(e),
            Ok((value, next)) => Ok((NodeView::Return(Some(Box::new(value))), next)),
        },
    }
}

/// The conditional loop whose keyword stands at index `pos`: its node, the slots
/// declared so far, and the index behind its `ENDWHILE`.
pub open spec fn spec_while(ctx: Context, scope: Seq<SlotView>, pos: int) -> Result<
    (NodeView, Seq<SlotView>, int),
    Fault,
>
    decreases ctx.tokens.len() - pos, 0int,
{
    match spec_expression(ctx, scope, pos + 1, Stop::Do) {
        Err(e) => Err(e),
        Ok((cond, body_at)) => match spec_block(
            ctx,
            scope,
            forward(ctx.tokens, pos, body_at),
            Block::While,
            Seq::empty(),
        ) {
            Err(e) => Err(e),
            Ok((body, declared, end)) => Ok(
                (NodeView::While { cond: Box::new(cond), body }, declared, end + 1),
            ),
        },
    }
}

/// The head of the counted loop whose keyword stands at index `pos`: the counter,
/// the two limits, and the index behind `DO`.
pub open spec fn spec_for_head(ctx: Context, scope: Seq<SlotView>, pos: int) -> Result<
    (Place, NodeView, NodeView, int),
    Fault,
> {
    match tok(ctx.tokens, pos + 1) {
        Some(TokenView::Id(name)) => match place_of(ctx, scope, name) {
            None => Err(fault(Reason::UnknownId, pos + 1)),
            Some(counter) => if !(tok(ctx.tokens, pos + 2) matches Some(word) && spelled(
                word,
                "FROM"@,
            )) {
                Err(fault(Reason::ExpectedFrom, pos + 2))
            } else {
                match spec_expression(ctx, scope, pos + 3, Stop::To) {
                    Err(e) => Err(e),
                    Ok((from, to_at)) => match spec_expression(ctx, scope, to_at, Stop::Do) {
                        Err(e) => Err(e),
                        Ok((to, body_at)) => Ok((counter, from, to, body_at)),
                    },
                }
            },
        },
        _ => Err(fault(Reason::ExpectedVarName, pos + 1)),
    }
}

/// The counted loop whose keyword stands at index `pos`: its node, the slots
/// declared so far, and the index behind its `ENDFOR`.
pub open spec fn spec_for(ctx: Context, scope: Seq<SlotView>, pos: int) -> Result<
    (NodeView, Seq<SlotView>, int),
    Fault,
>
    decreases ctx.tokens.len() - pos, 0int,
{
    match spec_for_head(ctx, scope, pos) {
        Err(e) => Err(e),
        Ok((counter, from, to, body_at)) => match spec_block(
            ctx,
            scope,
            forward(ctx.tokens, pos, body_at),
            Block::For,
            Seq::empty(),
        ) {
            Err(e) => Err(e),
            Ok((body, declared, end)) => Ok(
                (
                    NodeView::For { counter, from: Box::new(from), to: Box::new(to), body },
                    declared,
                    end + 1,
                ),
            ),
        },
    }
}

/// The conditional whose next condition starts at index `pos`, behind `IF` or
/// `ELSEIF`, with the alternatives read before: its node, the slots declared so
/// far, and the index behind its `ENDIF`.
pub open spec fn spec_if(
    ctx: Context,
    scope: Seq<SlotView>,
    pos: int,
    done: Seq<BranchView>,
) -> Result<(NodeView, Seq<SlotView>, int), Fault>
    decreases ctx.tokens.len() - pos, 0int,
{
    match spec_expression(ctx, scope, pos, Stop::Then) {
        Err(e) => Err(e),
        Ok((cond, body_at)) => match spec_block(
            ctx,
            scope,
            forward(ctx.tokens, pos, body_at),
            Block::Then,
            Seq::empty(),
        ) {
            Err(e) => Err(e),
            Ok((body, declared, end)) => {
                let branches = done.push(BranchView { cond, body });
                match tok(ctx.tokens, end) {
                    Some(TokenView::EndIf) => Ok(
                        (NodeView::If { branches, otherwise: None }, declared, end + 1),
                    ),
                    Some(TokenView::ElseIf) => spec_if(
                        ctx,
                        declared,
                        forward(ctx.tokens, pos, end + 1),
                        branches,
                    ),
                    _ => match spec_block(
                        ctx,
                        declared,
                        forward(ctx.tokens, pos, end + 1),
                        Block::Else,
                        Seq::empty(),
                    ) {
                        Err(e) => Err(e),
                        Ok((else_body, all, last)) => Ok(
                            (
                                NodeView::If { branches, otherwise: Some(else_body) },
                                all,
                                last + 1,
                            ),
                        ),
                    },
                }
            },
        },
    }
}

/// The routine whose name stands at index `pos`, in a module that holds `module`
/// so far; `block` says what closes its body. With the index behind the closing
/// keyword.
pub open spec fn spec_routine(
    tokens: Seq<TokenView>,
    numbers: Seq<Option<u64>>,
    module: ModuleView,
    pos: int,
    block: Block,
) -> Result<(RoutineView, int), Fault> {
    match spec_header(tokens, pos) {
        Err(e) => Err(e),
        Ok((name, params, inout, body_at)) => {
            let ctx = Context {
                tokens,
                numbers,
                routines: module.routines,
                shared: module.variables,
                name,
                inout,
            };
            match spec_block(ctx, params, body_at, block, Seq::empty()) {
                Err(e) => Err(e),
                Ok((nodes, variables, end)) => Ok(
                    (RoutineView { name, inout, variables, nodes }, end + 1),
                ),
            }
        },
    }
}

/// The declaration in a module that starts at index `pos`, added to `module`: a
/// procedure, a function or a variable. With the index behind it.
pub open spec fn spec_member(
    tokens: Seq<TokenView>,
    numbers: Seq<Option<u64>>,
    pos: int,
    module: ModuleView,
) -> Result<(ModuleView, int), Fault> {
    match tok(tokens, pos) {
        Some(TokenView::Proc) => match spec_routine(tokens, numbers, module, pos + 1, Block::Proc) {
            Err(e) => Err(e),
            Ok((routine, next)) => Ok(
                (ModuleView { routines: module.routines.push(routine), ..module }, next),
            ),
        },
        Some(TokenView::Func) => match tok(tokens, pos + 1) {
            Some(data_type) => if initial_value(data_type) is None {
                Err(fault(Reason::ExpectedDataType, pos + 1))
            } else {
                match spec_routine(tokens, numbers, module, pos + 2, Block::Func) {
                    Err(e) => Err(e),
                    Ok((routine, next)) => Ok(
                        (ModuleView { routines: module.routines.push(routine), ..module }, next),
                    ),
                }
            },
            None => Err(fault(Reason::ExpectedDataType, pos + 1)),
        },
        Some(TokenView::Var) | Some(TokenView::Pers) | Some(TokenView::Local) => match spec_var(
            tokens,
            numbers,
            pos + 1,
        ) {
            Err(e) => Err(e),
            Ok((slot, next)) => Ok(
                (ModuleView { variables: module.variables.push(slot), ..module }, next),
            ),
        },
        _ => Err(fault(Reason::InvalidModuleToken, pos)),
    }
}

/// The declarations of a module from index `pos` on, added to `module`, up to
/// `ENDMOD`: the module and the index behind `ENDMOD`.
pub open spec fn spec_module(
    tokens: Seq<TokenView>,
    numbers: Seq<Option<u64>>,
    pos: int,
    module: ModuleView,
) -> Result<(ModuleView, int), Fault>
    decreases tokens.len() - pos,
{
    match tok(tokens, pos) {
        None => Err(fault(Reason::UnexpectedEndOfModule, pos)),
        Some(TokenView::EndMod) => Ok((module, pos + 1)),
        Some(_) => match spec_member(tokens, numbers, pos, module) {
            Err(e) => Err(e),
            Ok((extended, next)) => spec_module(
                tokens,
                numbers,
                forward(tokens, pos, next),
                extended,
            ),
        },
    }
}

/// The module whose name stands at index `pos`, behind `MOD`, with the index
/// behind its `ENDMOD`.
pub open spec fn spec_mod(tokens: Seq<TokenView>, numbers: Seq<Option<u64>>, pos: int) -> Result<
    (ModuleView, int),
    Fault,
> {
    match tok(tokens, pos) {
        Some(TokenView::Id(name)) => spec_module(
            tokens,
            numbers,
            pos + 1,
            ModuleView { name, routines: Seq::empty(), variables: Seq::empty() },
        ),
        _ => Err(fault(Reason::ExpectedModuleName, pos)),
    }
}

/// The modules from index `pos` on, added to those read before.
pub open spec fn spec_program(
    tokens: Seq<TokenView>,
    numbers: Seq<Option<u64>>,
    pos: int,
    modules: Seq<ModuleView>,
) -> Result<Seq<ModuleView>, Fault>
    decreases tokens.len() - pos,
{
    match tok(tokens, pos) {
        None => Ok(modules),
        Some(TokenView::Mod) => match spec_mod(tokens, numbers, pos + 1) {
            Err(e) => Err(e),
            Ok((module, next)) => spec_program(
                tokens,
                numbers,
                forward(tokens, pos, next),
                modules.push(module),
            ),
        },
        Some(_) => Err(fault(Reason::InvalidProgramToken, pos)),
    }
}

/// The program that `tokens` spell, or the first error. `numbers` runs beside
/// `tokens` and gives, for each numeric literal, the bit pattern of the number it
/// denotes, or nothing where it denotes none.
pub open spec fn parsed(tokens: Seq<TokenView>, numbers: Seq<Option<u64>>) -> Result<
    Seq<ModuleView>,
    Fault,
> {
    spec_program(tokens, numbers, 0, Seq::empty())
}

/// The token at index `pos`, if there is one.
pub fn peek(tokens: &Vec<TokenType>, pos: usize) -> (r: Option<&TokenType>)
    ensures
        match r {
            Some(t) => pos < tokens.len() && *t == tokens[pos as int] && tok(
                token_views(tokens@),
                pos as int,
            ) == Some(t@),
            None => pos >= tokens.len() && tok(token_views(tokens@), pos as int) is None,
        },
{
    if pos < tokens.len() {
        Some(&tokens[pos])
    } else {
        None
    }
}

/// The number that the host found for the token at index `pos`, if any.
pub fn number(numbers: &Vec<Option<u64>>, pos: usize) -> (r: Option<u64>)
    ensures
        r == number_at(numbers@, pos as int),
{
    if pos < numbers.len() {
        numbers[pos]
    } else {
        None
    }
}

/// Whether `token` is an identifier that reads as `word`, ASCII case ignored.
pub fn is_word(token: &TokenType, word: &str) -> (r: bool)
    ensures
        r == spelled(token@, word@),
{
    match token {
        TokenType::Id(name) => {
            let chars = chars_of(name.as_str());
            chars.len() == word.unicode_len() && word_at(&chars, 0, word)
        },
        _ => false,
    }
}

/// Whether `token` is a literal.
pub fn is_literal(token: &TokenType) -> (r: bool)
    ensures
        r == literal(token@),
{
    match token {
        TokenType::NumValue(_) => true,
        TokenType::StringValue(_) => true,
        TokenType::True => true,
        TokenType::False => true,
        _ => false,
    }
}

/// Whether the token at index `pos` is `:=`.
pub fn is_assign_at(tokens: &Vec<TokenType>, pos: usize) -> (r: bool)
    ensures
        r == (tok(token_views(tokens@), pos as int) == Some(TokenView::Assign)),
{
    match peek(tokens, pos) {
        Some(TokenType::Assign) => true,
        _ => false,
    }
}

/// Whether `token` ends an expression that `stop` is to end.
pub fn is_end(stop: Stop, token: &TokenType) -> (r: bool)
    ensures
        r == ends(stop, token@),
{
    match stop {
        Stop::Semicolon => matches!(token, TokenType::Semicolon),
        Stop::Then => matches!(token, TokenType::Then),
        Stop::Do => is_word(token, "DO"),
        Stop::To => is_word(token, "TO"),
        Stop::Argument => matches!(token, TokenType::Comma) || matches!(token, TokenType::RightPar),
    }
}

/// Whether `token` closes a block of kind `block`.
pub fn is_close(block: Block, token: &TokenType) -> (r: bool)
    ensures
        r == closes(block, token@),
{
    match block {
        Block::Proc => matches!(token, TokenType::EndProc),
        Block::Func => matches!(token, TokenType::EndFunc),
        Block::Then => matches!(token, TokenType::EndIf) || matches!(token, TokenType::ElseIf)
            || is_word(token, "ELSE"),
        Block::Else => matches!(token, TokenType::EndIf),
        Block::While => matches!(token, TokenType::EndWhile),
        Block::For => matches!(token, TokenType::EndFor),
    }
}

/// The reason given where the tokens end inside a block of kind `block`.
pub fn why_unclosed(block: Block) -> (r: Reason)
    ensures
        r == unclosed(block),
{
    match block {
        Block::Proc => Reason::UnexpectedEndOfRoutine,
        Block::Func => Reason::UnexpectedEndOfRoutine,
        _ => Reason::UnexpectedEndOfBlock,
    }
}

impl<'a> Parser<'a> {
    /// Where the variable `name` lives: in the routine, if it is declared there,
    /// else in the module.
    pub fn place(&self, scope: &Scope, name: &String) -> (r: Option<Place>)
        ensures
            r == place_of(self@, scope@, name@),
    {
        match scope.lookup(name) {
            Some(slot) => Some(Place::Local(slot)),
            None => match self.shared.lookup(name) {
                Some(slot) => Some(Place::Shared(slot)),
                None => None,
            },
        }
    }

    /// Reads the operand at index `pos`: a literal or a variable.
    pub fn parse_operand(&self, scope: &Scope, pos: usize) -> (r: Result<Node, Fault>)
        ensures
            match r {
                Ok(node) => spec_operand(self@, scope@, pos as int) == Ok::<_, Fault>(node@)
                    && pos < self.tokens.len(),
                Err(e) => spec_operand(self@, scope@, pos as int) == Err::<NodeView, _>(e),
            },
    {
        match peek(self.tokens, pos) {
            None => Err(Fault { reason: Reason::UnexpectedToken, at: pos }),
            Some(TokenType::NumValue(_)) => match number(self.numbers, pos) {
                Some(bits) => Ok(Node::Value(Variable::Num(bits))),
                None => Err(Fault { reason: Reason::MalformedNumber, at: pos }),
            },
            Some(TokenType::StringValue(s)) => Ok(Node::Value(Variable::Str(s.clone()))),
            Some(TokenType::True) => Ok(Node::Value(Variable::Bool(true))),
            Some(TokenType::False) => Ok(Node::Value(Variable::Bool(false))),
            Some(TokenType::Id(name)) => match self.place(scope, name) {
                Some(place) => Ok(Node::Var(place)),
                None => Err(Fault { reason: Reason::UnknownId, at: pos }),
            },
            Some(_) => Err(Fault { reason: Reason::InvalidStatementToken, at: pos }),
        }
    }

    /// Reads the rest of an expression whose left operand `lhs` is read, from index
    /// `pos` on. Answers with the expression and the index behind the token that
    /// ends it.
    pub fn parse_sub(&self, scope: &Scope, pos: usize, lhs: Node, stop: Stop) -> (r: Result<
        (Node, usize),
        Fault,
    >)
        ensures
            match r {
                Ok((node, next)) => spec_sub(self@, scope@, pos as int, lhs@, stop) == Ok::<
                    _,
                    Fault,
                >((node@, next as int)) && pos < next <= self.tokens.len(),
                Err(e) => spec_sub(self@, scope@, pos as int, lhs@, stop) == Err::<
                    (NodeView, int),
                    _,
                >(e),
            },
        decreases self.tokens.len() - pos,
    {
        let operator = match peek(self.tokens, pos) {
            None => {
                return Err(Fault { reason: Reason::ExpectedOperator, at: pos });
            },
            Some(t) => t,
        };
        if is_end(stop, operator) {
            return Ok((lhs, pos + 1));
        }
        let rhs = match self.parse_operand(scope, pos + 1) {
            Err(e) => {
                return Err(e);
            },
            Ok(node) => node,
        };
        match operator {
            TokenType::Add => match self.parse_sub(scope, pos + 2, rhs, stop) {
                Err(e) => Err(e),
                Ok((rest, next)) => Ok(
                    (Node::OpAdd { lhs: Box::new(lhs), rhs: Box::new(rest) }, next),
                ),
            },
            TokenType::Minus => match self.parse_sub(scope, pos + 2, rhs, stop) {
                Err(e) => Err(e),
                Ok((rest, next)) => Ok(
                    (Node::OpSub { lhs: Box::new(lhs), rhs: Box::new(rest) }, next),
                ),
            },
            TokenType::Multiply => self.parse_sub(
                scope,
                pos + 2,
                Node::OpMul { lhs: Box::new(lhs), rhs: Box::new(rhs) },
                stop,
            ),
            TokenType::Divide => self.parse_sub(
                scope,
                pos + 2,
                Node::OpDiv { lhs: Box::new(lhs), rhs: Box::new(rhs) },
                stop,
            ),
            _ => Err(Fault { reason: Reason::InvalidStatementToken, at: pos }),
        }
    }

    /// Reads the expression that starts at index `pos` and is ended by `stop`.
    /// Answers with the expression and the index behind the token that ends it.
    pub fn parse_expression(&self, scope: &Scope, pos: usize, stop: Stop) -> (r: Result<
        (Node, usize),
        Fault,
    >)
        ensures
            match r {
                Ok((node, next)) => spec_expression(self@, scope@, pos as int, stop) == Ok::<
                    _,
                    Fault,
                >((node@, next as int)) && pos + 1 < next <= self.tokens.len(),
                Err(e) => spec_expression(self@, scope@, pos as int, stop) == Err::<
                    (NodeView, int),
                    _,
                >(e),
            },
    {
        match self.parse_operand(scope, pos) {
            Err(e) => Err(e),
            Ok(first) => self.parse_sub(scope, pos + 1, first, stop),
        }
    }
}

/// Reads the declaration of a variable whose type stands at index `pos`. Answers
/// with the name, the first value and the index behind the semicolon.
pub fn parse_var(tokens: &Vec<TokenType>, numbers: &Vec<Option<u64>>, pos: usize) -> (r: Result<
    (String, Variable, usize),
    Fault,
>)
    ensures
        match r {
            Ok((name, value, next)) => spec_var(token_views(tokens@), numbers@, pos as int) == Ok::<
                _,
                Fault,
            >((SlotView { name: name@, value: value@ }, next as int)) && pos < next
                <= tokens.len(),
            Err(e) => spec_var(token_views(tokens@), numbers@, pos as int) == Err::<
                (SlotView, int),
                _,
            >(e),
        },
{
    let data_type = match peek(tokens, pos) {
        None => {
            return Err(Fault { reason: Reason::ExpectedDataType, at: pos });
        },
        Some(t) => t,
    };
    let name = match peek(tokens, pos + 1) {
        Some(TokenType::Id(name)) => name,
        _ => {
            return Err(Fault { reason: Reason::ExpectedVarName, at: pos + 1 });
        },
    };
    match peek(tokens, pos + 2) {
        Some(TokenType::Semicolon) => {
            return match Variable::initial(data_type) {
                Some(value) => Ok((name.clone(), value, pos + 3)),
                None => Err(Fault { reason: Reason::UnknownDataType, at: pos }),
            };
        },
        Some(TokenType::Assign) => {},
        _ => {
            return Err(Fault { reason: Reason::ExpectedAssignOrSemicolon, at: pos + 2 });
        },
    }
    let literal = match peek(tokens, pos + 3) {
        None => {
            return Err(Fault { reason: Reason::ExpectedValue, at: pos + 3 });
        },
        Some(t) => t,
    };
    match peek(tokens, pos + 4) {
        Some(TokenType::Semicolon) => {},
        _ => {
            return Err(Fault { reason: Reason::ExpectedValue, at: pos + 4 });
        },
    }
    match Variable::from_value(data_type, literal, number(numbers, pos + 3)) {
        Some(value) => Ok((name.clone(), value, pos + 5)),
        None => {
            if matches!(data_type, TokenType::NumType) && matches!(literal, TokenType::NumValue(_)) {
                Err(Fault { reason: Reason::MalformedNumber, at: pos + 3 })
            } else {
                Err(Fault { reason: Reason::UnknownDataType, at: pos })
            }
        },
    }
}

/// Reads the parameter whose type stands at index `pos`. Answers with its name and
/// first value.
pub fn parse_arg(tokens: &Vec<TokenType>, pos: usize) -> (r: Result<(String, Variable), Fault>)
    ensures
        match r {
            Ok((name, value)) => spec_arg(token_views(tokens@), pos as int) == Ok::<_, Fault>(
                SlotView { name: name@, value: value@ },
            ) && pos + 1 < tokens.len(),
            Err(e) => spec_arg(token_views(tokens@), pos as int) == Err::<SlotView, _>(e),
        },
{
    let data_type = match peek(tokens, pos) {
        None => {
            return Err(Fault { reason: Reason::ExpectedDataType, at: pos });
        },
        Some(t) => t,
    };
    let name = match peek(tokens, pos + 1) {
        Some(TokenType::Id(name)) => name,
        _ => {
            return Err(Fault { reason: Reason::ExpectedVarName, at: pos + 1 });
        },
    };
    match Variable::initial(data_type) {
        Some(value) => Ok((name.clone(), value)),
        None => Err(Fault { reason: Reason::UnknownDataType, at: pos }),
    }
}

/// Reads the parameters from index `pos` on, up to the closing parenthesis, and
/// declares them in `scope` and `flags`. Answers with the index behind the
/// parenthesis.
#[verifier::loop_isolation(false)]
pub fn parse_params(
    tokens: &Vec<TokenType>,
    pos: usize,
    scope: &mut Scope,
    flags: &mut Vec<bool>,
) -> (r: Result<usize, Fault>)
    ensures
        match r {
            Ok(next) => spec_params(token_views(tokens@), pos as int, old(scope)@, old(flags)@)
                == Ok::<_, Fault>((final(scope)@, final(flags)@, next as int)) && pos < next
                <= tokens.len(),
            Err(e) => spec_params(token_views(tokens@), pos as int, old(scope)@, old(flags)@)
                == Err::<(Seq<SlotView>, Seq<bool>, int), _>(e),
        },
{
    let ghost scope0 = scope@;
    let ghost flags0 = flags@;
    let mut at = pos;
    loop
        invariant
            pos <= at,
            spec_params(token_views(tokens@), pos as int, scope0, flags0) == spec_params(
                token_views(tokens@),
                at as int,
                scope@,
                flags@,
            ),
        decreases tokens.len() - at,
    {
        let first = match peek(tokens, at) {
            None => {
                return Err(Fault { reason: Reason::UnexpectedEndOfRoutine, at });
            },
            Some(t) => t,
        };
        let flag = matches!(first, TokenType::Inout);
        let start = if flag {
            at + 1
        } else {
            at
        };
        if !flag && Variable::initial(first).is_none() {
            return Err(Fault { reason: Reason::ExpectedRightPar, at });
        }
        let (name, value) = match parse_arg(tokens, start) {
            Err(e) => {
                return Err(e);
            },
            Ok(pair) => pair,
        };
        scope.declare(name, value);
        flags.push(flag);
        match peek(tokens, start + 2) {
            Some(TokenType::Comma) => {
                at = start + 3;
            },
            Some(TokenType::RightPar) => {
                return Ok(start + 3);
            },
            None => {
                return Err(Fault { reason: Reason::UnexpectedEndOfRoutine, at: start + 2 });
            },
            Some(_) => {
                return Err(Fault { reason: Reason::ExpectedRightPar, at: start + 2 });
            },
        }
    }
}

/// Reads the head of a routine whose name stands at index `pos`. Answers with the
/// name, the slots of the parameters, their `INOUT` flags and the index behind the
/// closing parenthesis.
pub fn parse_header(tokens: &Vec<TokenType>, pos: usize) -> (r: Result<
    (String, Scope, Vec<bool>, usize),
    Fault,
>)
    ensures
        match r {
            Ok((name, scope, flags, next)) => spec_header(token_views(tokens@), pos as int)
                == Ok::<_, Fault>((name@, scope@, flags@, next as int)) && pos < next
                <= tokens.len(),
            Err(e) => spec_header(token_views(tokens@), pos as int) == Err::<
                (Seq<char>, Seq<SlotView>, Seq<bool>, int),
                _,
            >(e),
        },
{
    let name = match peek(tokens, pos) {
        Some(TokenType::Id(name)) => name,
        _ => {
            return Err(Fault { reason: Reason::ExpectedRoutineName, at: pos });
        },
    };
    match peek(tokens, pos + 1) {
        Some(TokenType::LeftPar) => {},
        _ => {
            return Err(Fault { reason: Reason::ExpectedLeftPar, at: pos + 1 });
        },
    }
    let mut scope = Scope::new();
    let mut flags: Vec<bool> = Vec::new();
    match peek(tokens, pos + 2) {
        Some(TokenType::RightPar) => Ok((name.clone(), scope, flags, pos + 3)),
        _ => match parse_params(tokens, pos + 2, &mut scope, &mut flags) {
            Err(e) => Err(e),
            Ok(next) => Ok((name.clone(), scope, flags, next)),
        },
    }
}

/// Whether every argument for an `INOUT` parameter is a variable.
#[verifier::loop_isolation(false)]
pub fn check_args(flags: &Vec<bool>, args: &Vec<Node>) -> (r: bool)
    ensures
        r == args_fit(flags@, node_views(args@)),
{
    let mut k: usize = 0;
    while k < flags.len() && k < args.len()
        invariant
            forall|j: int| 0 <= j < k && j < flags.len() && j < args.len() && flags[j] ==> (
            #[trigger] node_views(args@)[j]) is Var,
        decreases flags.len() - k,
    {
        if flags[k] && !matches!(args[k], Node::Var(_)) {
            assert(!(node_views(args@)[k as int] is Var));
            return false;
        }
        k += 1;
    }
    true
}

impl<'a> Parser<'a> {
    /// The routine that a call of `name` goes to.
    #[verifier::loop_isolation(false)]
    pub fn find_callee(&self, name: &String) -> (r: Option<usize>)
        ensures
            r == callee(self@, name@),
    {
        if *name == *self.name {
            Some(self.routines.len())
        } else {
            let module_routines = self.routines;
            let mut i: usize = module_routines.len();
            proof {
                assert(self@.routines.subrange(0, i as int) =~= self@.routines);
            }
            while i > 0
                invariant
                    i <= module_routines.len(),
                    module_routines == self.routines,
                    find_routine(self@.routines, name@) == find_routine(
                        self@.routines.subrange(0, i as int),
                        name@,
                    ),
                decreases i,
            {
                proof {
                    let head = self@.routines.subrange(0, i as int);
                    assert(head.last() == module_routines@[i - 1]@);
                    assert(head.drop_last() =~= self@.routines.subrange(0, i - 1));
                }
                if module_routines[i - 1].name == *name {
                    return Some(i - 1);
                }
                i -= 1;
            }
            None
        }
    }

    /// Reads the arguments of a call from index `pos` on. Answers with the
    /// arguments and the index behind the closing parenthesis.
    #[verifier::loop_isolation(false)]
    pub fn read_args(&self, scope: &Scope, pos: usize) -> (r: Result<(Vec<Node>, usize), Fault>)
        ensures
            match r {
                Ok((args, next)) => spec_args(self@, scope@, pos as int, Seq::empty()) == Ok::<
                    _,
                    Fault,
                >((node_views(args@), next as int)) && pos < next <= self.tokens.len(),
                Err(e) => spec_args(self@, scope@, pos as int, Seq::empty()) == Err::<
                    (Seq<NodeView>, int),
                    _,
                >(e),
            },
    {
        let mut args: Vec<Node> = Vec::new();
        let mut at = pos;
        proof {
            assert(node_views(args@) =~= Seq::empty());
        }
        loop
            invariant
                pos <= at,
                spec_args(self@, scope@, pos as int, Seq::empty()) == spec_args(
                    self@,
                    scope@,
                    at as int,
                    node_views(args@),
                ),
            decreases self.tokens.len() - at,
        {
            match self.parse_expression(scope, at, Stop::Argument) {
                Err(e) => {
                    return Err(e);
                },
                Ok((arg, next)) => {
                    proof {
                        lemma_node_views_push(args@, arg);
                    }
                    args.push(arg);
                    match peek(self.tokens, next - 1) {
                        Some(TokenType::Comma) => {
                            at = next;
                        },
                        _ => {
                            return Ok((args, next));
                        },
                    }
                },
            }
        }
    }

    /// Reads the call of routine `index` whose opening parenthesis is expected at
    /// index `pos`. Answers with the call and the index behind its semicolon.
    pub fn read_call(&self, scope: &Scope, pos: usize, index: usize) -> (r: Result<
        (Node, usize),
        Fault,
    >)
        ensures
            match r {
                Ok((node, next)) => spec_call(self@, scope@, pos as int, index) == Ok::<_, Fault>(
                    (node@, next as int),
                ) && pos < next <= self.tokens.len(),
                Err(e) => spec_call(self@, scope@, pos as int, index) == Err::<(NodeView, int), _>(
                    e,
                ),
            },
    {
        match peek(self.tokens, pos) {
            Some(TokenType::LeftPar) => {},
            _ => {
                return Err(Fault { reason: Reason::ExpectedLeftPar, at: pos });
            },
        }
        let read = match peek(self.tokens, pos + 1) {
            Some(TokenType::RightPar) => {
                let none: Vec<Node> = Vec::new();
                proof {
                    assert(node_views(none@) =~= Seq::empty());
                }
                Ok((none, pos + 2))
            },
            _ => self.read_args(scope, pos + 1),
        };
        let (args, next) = match read {
            Err(e) => {
                return Err(e);
            },
            Ok(pair) => pair,
        };
        match peek(self.tokens, next) {
            Some(TokenType::Semicolon) => {},
            _ => {
                return Err(Fault { reason: Reason::ExpectedSemicolon, at: next });
            },
        }
        let flags = if index < self.routines.len() {
            &self.routines[index].inout
        } else {
            self.inout
        };
        if args.len() != flags.len() {
            Err(Fault { reason: Reason::WrongArgumentCount, at: pos })
        } else if !check_args(flags, &args) {
            Err(Fault { reason: Reason::ExpectedVariable, at: pos })
        } else {
            proof {
                lemma_view_call(index, args);
            }
            Ok((Node::ProcCall { routine: index, args }, next + 1))
        }
    }

    /// Reads the assignment to `lhs_node` whose `:=` is expected at index `pos`.
    /// Answers with the assignment and the index behind its semicolon.
    pub fn parse_statement(&self, scope: &Scope, pos: usize, lhs_node: Node) -> (r: Result<
        (Node, usize),
        Fault,
    >)
        ensures
            match r {
                Ok((node, next)) => spec_assignment(self@, scope@, pos as int, lhs_node@) == Ok::<
                    _,
                    Fault,
                >((node@, next as int)) && pos < next <= self.tokens.len(),
                Err(e) => spec_assignment(self@, scope@, pos as int, lhs_node@) == Err::<
                    (NodeView, int),
                    _,
                >(e),
            },
    {
        match peek(self.tokens, pos) {
            Some(TokenType::Assign) => {},
            _ => {
                return Err(Fault { reason: Reason::ExpectedAssignment, at: pos });
            },
        }
        match self.parse_expression(scope, pos + 1, Stop::Semicolon) {
            Err(e) => Err(e),
            Ok((rhs_node, next)) => Ok(
                (Node::Assign { lhs: Box::new(lhs_node), rhs: Box::new(rhs_node) }, next),
            ),
        }
    }

    /// Reads the statements from index `pos` on, up to the token that closes the
    /// block, and declares their variables in `scope`. Answers with the statements
    /// and the index of the closing token.
    #[verifier::loop_isolation(false)]
    pub fn read_block(&self, scope: &mut Scope, pos: usize, block: Block) -> (r: Result<
        (Vec<Node>, usize),
        Fault,
    >)
        ensures
            match r {
                Ok((nodes, end)) => spec_block(
                    self@,
                    old(scope)@,
                    pos as int,
                    block,
                    Seq::empty(),
                ) == Ok::<_, Fault>((node_views(nodes@), final(scope)@, end as int)) && pos <= end
                    < self.tokens.len(),
                Err(e) => spec_block(self@, old(scope)@, pos as int, block, Seq::empty()) == Err::<
                    (Seq<NodeView>, Seq<SlotView>, int),
                    _,
                >(e),
            },
        decreases self.tokens.len() - pos, 2int,
    {
        let ghost scope0 = scope@;
        let mut nodes: Vec<Node> = Vec::new();
        let mut at = pos;
        proof {
            assert(node_views(nodes@) =~= Seq::empty());
        }
        loop
            invariant
                pos <= at,
                spec_block(self@, scope0, pos as int, block, Seq::empty()) == spec_block(
                    self@,
                    scope@,
                    at as int,
                    block,
                    node_views(nodes@),
                ),
            decreases self.tokens.len() - at,
        {
            let token = match peek(self.tokens, at) {
                None => {
                    return Err(Fault { reason: why_unclosed(block), at });
                },
                Some(t) => t,
            };
            if is_close(block, token) {
                return Ok((nodes, at));
            }
            match self.read_statement(scope, at) {
                Err(e) => {
                    return Err(e);
                },
                Ok((node, next)) => {
                    if let Some(n) = node {
                        proof {
                            lemma_node_views_push(nodes@, n);
                        }
                        nodes.push(n);
                    }
                    at = next;
                },
            }
        }
    }

    /// Reads the statement that starts at index `pos` and declares its variables
    /// in `scope`. Answers with its node, if it has one, and the index behind it.
    #[verifier::rlimit(60)]
    pub fn read_statement(&self, scope: &mut Scope, pos: usize) -> (r: Result<
        (Option<Node>, usize),
        Fault,
    >)
        ensures
            match r {
                Ok((node, next)) => spec_statement(self@, old(scope)@, pos as int) == Ok::<
                    _,
                    Fault,
                >(
                    (
                        match node {
                            Some(n) => Some(n@),
                            None => None,
                        },
                        final(scope)@,
                        next as int,
                    ),
                ) && pos < next <= self.tokens.len(),
                Err(e) => spec_statement(self@, old(scope)@, pos as int) == Err::<
                    (Option<NodeView>, Seq<SlotView>, int),
                    _,
                >(e),
            },
        decreases self.tokens.len() - pos, 1int,
    {
        match peek(self.tokens, pos) {
            None => Err(Fault { reason: Reason::UnexpectedEndOfRoutine, at: pos }),
            Some(TokenType::Var) => match parse_var(self.tokens, self.numbers, pos + 1) {
                Err(e) => Err(e),
                Ok((name, value, next)) => {
                    scope.declare(name, value);
                    Ok((None, next))
                },
            },
            Some(TokenType::Id(name)) => match self.read_named(scope, pos, name) {
                Err(e) => Err(e),
                Ok((node, next)) => Ok((Some(node), next)),
            },
            Some(TokenType::TpWrite) => match self.read_write(scope, pos) {
                Err(e) => Err(e),
                Ok((node, next)) => Ok((Some(node), next)),
            },
            Some(TokenType::Return) => match self.read_return(scope, pos) {
                Err(e) => Err(e),
                Ok((node, next)) => Ok((Some(node), next)),
            },
            Some(TokenType::If) => {
                let none: Vec<Branch> = Vec::new();
                proof {
                    assert(branch_views(none@) =~= Seq::empty());
                }
                match self.read_if(scope, pos + 1, none) {
                    Err(e) => Err(e),
                    Ok((node, next)) => Ok((Some(node), next)),
                }
            },
            Some(TokenType::While) => match self.read_while(scope, pos) {
                Err(e) => Err(e),
                Ok((node, next)) => Ok((Some(node), next)),
            },
            Some(TokenType::For) => match self.read_for(scope, pos) {
                Err(e) => Err(e),
                Ok((node, next)) => Ok((Some(node), next)),
            },
            Some(token) => {
                if is_literal(token) && is_assign_at(self.tokens, pos + 1) {
                    Err(Fault { reason: Reason::NotAssignable, at: pos })
                } else {
                    Err(Fault { reason: Reason::InvalidRoutineToken, at: pos })
                }
            },
        }
    }

    /// Reads the statement that starts with the name at index `pos`: an assignment
    /// where the name is a variable, else a call where it is a routine.
    pub fn read_named(&self, scope: &Scope, pos: usize, name: &String) -> (r: Result<
        (Node, usize),
        Fault,
    >)
        requires
            pos < self.tokens.len(),
        ensures
            match r {
                Ok((node, next)) => spec_named(self@, scope@, pos as int, name@) == Ok::<_, Fault>(
                    (node@, next as int),
                ) && pos < next <= self.tokens.len(),
                Err(e) => spec_named(self@, scope@, pos as int, name@) == Err::<
                    (NodeView, int),
                    _,
                >(e),
            },
    {
        match self.place(scope, name) {
            Some(place) => self.parse_statement(scope, pos + 1, Node::Var(place)),
            None => match self.find_callee(name) {
                Some(index) => {
                    if is_assign_at(self.tokens, pos + 1) {
                        Err(Fault { reason: Reason::NotAssignable, at: pos })
                    } else {
                        self.read_call(scope, pos + 1, index)
                    }
                },
                None => Err(Fault { reason: Reason::UnknownId, at: pos }),
            },
        }
    }

    /// Reads the diagnostic write whose keyword stands at index `pos`.
    pub fn read_write(&self, scope: &Scope, pos: usize) -> (r: Result<(Node, usize), Fault>)
        requires
            pos < self.tokens.len(),
        ensures
            match r {
                Ok((node, next)) => spec_write(self@, scope@, pos as int) == Ok::<_, Fault>(
                    (node@, next as int),
                ) && pos < next <= self.tokens.len(),
                Err(e) => spec_write(self@, scope@, pos as int) == Err::<(NodeView, int), _>(e),
            },
    {
        match peek(self.tokens, pos + 1) {
            Some(TokenType::Id(name)) => match self.place(scope, name) {
                Some(place) => match peek(self.tokens, pos + 2) {
                    Some(TokenType::Semicolon) => Ok((Node::Print(place), pos + 3)),
                    _ => Err(Fault { reason: Reason::ExpectedSemicolon, at: pos + 2 }),
                },
                None => Err(Fault { reason: Reason::UnknownId, at: pos + 1 }),
            },
            _ => Err(Fault { reason: Reason::ExpectedVarName, at: pos + 1 }),
        }
    }

    /// Reads the return statement whose keyword stands at index `pos`.
    pub fn read_return(&self, scope: &Scope, pos: usize) -> (r: Result<(Node, usize), Fault>)
        requires
            pos < self.tokens.len(),
        ensures
            match r {
                Ok((node, next)) => spec_return(self@, scope@, pos as int) == Ok::<_, Fault>(
                    (node@, next as int),
                ) && pos < next <= self.tokens.len(),
                Err(e) => spec_return(self@, scope@, pos as int) == Err::<(NodeView, int), _>(e),
            },
    {
        match peek(self.tokens, pos + 1) {
            Some(TokenType::Semicolon) => Ok((Node::Return(None), pos + 2)),
            _ => match self.parse_expression(scope, pos + 1, Stop::Semicolon) {
                Err(e) => Err(e),
                Ok((value, next)) => Ok((Node::Return(Some(Box::new(value))), next)),
            },
        }
    }

    /// Reads the conditional loop whose keyword stands at index `pos` and declares
    /// its variables in `scope`. Answers with its node and the index behind its
    /// `ENDWHILE`.
    pub fn read_while(&self, scope: &mut Scope, pos: usize) -> (r: Result<(Node, usize), Fault>)
        requires
            pos < self.tokens.len(),
        ensures
            match r {
                Ok((node, next)) => spec_while(self@, old(scope)@, pos as int) == Ok::<_, Fault>(
                    (node@, final(scope)@, next as int),
                ) && pos < next <= self.tokens.len(),
                Err(e) => spec_while(self@, old(scope)@, pos as int) == Err::<
                    (NodeView, Seq<SlotView>, int),
                    _,
                >(e),
            },
        decreases self.tokens.len() - pos, 0int,
    {
        match self.parse_expression(scope, pos + 1, Stop::Do) {
            Err(e) => Err(e),
            Ok((cond, body_at)) => match self.read_block(scope, body_at, Block::While) {
                Err(e) => Err(e),
                Ok((body, end)) => {
                    let cond = Box::new(cond);
                    proof {
                        lemma_view_while(cond, body);
                    }
                    Ok((Node::While { cond, body }, end + 1))
                },
            },
        }
    }

    /// Reads the head of the counted loop whose keyword stands at index `pos`.
    /// Answers with the counter, the two limits and the index behind `DO`.
    pub fn read_for_head(&self, scope: &Scope, pos: usize) -> (r: Result<
        (Place, Node, Node, usize),
        Fault,
    >)
        requires
            pos < self.tokens.len(),
        ensures
            match r {
                Ok((counter, from, to, next)) => spec_for_head(self@, scope@, pos as int) == Ok::<
                    _,
                    Fault,
                >((counter, from@, to@, next as int)) && pos < next <= self.tokens.len(),
                Err(e) => spec_for_head(self@, scope@, pos as int) == Err::<
                    (Place, NodeView, NodeView, int),
                    _,
                >(e),
            },
    {
        let counter = match peek(self.tokens, pos + 1) {
            Some(TokenType::Id(name)) => match self.place(scope, name) {
                None => {
                    return Err(Fault { reason: Reason::UnknownId, at: pos + 1 });
                },
                Some(place) => place,
            },
            _ => {
                return Err(Fault { reason: Reason::ExpectedVarName, at: pos + 1 });
            },
        };
        let from_word = match peek(self.tokens, pos + 2) {
            Some(word) => is_word(word, "FROM"),
            None => false,
        };
        if !from_word {
            return Err(Fault { reason: Reason::ExpectedFrom, at: pos + 2 });
        }
        let (from, to_at) = match self.parse_expression(scope, pos + 3, Stop::To) {
            Err(e) => {
                return Err(e);
            },
            Ok(pair) => pair,
        };
        match self.parse_expression(scope, to_at, Stop::Do) {
            Err(e) => Err(e),
            Ok((to, body_at)) => Ok((counter, from, to, body_at)),
        }
    }

    /// Reads the counted loop whose keyword stands at index `pos` and declares its
    /// variables in `scope`. Answers with its node and the index behind its
    /// `ENDFOR`.
    pub fn read_for(&self, scope: &mut Scope, pos: usize) -> (r: Result<(Node, usize), Fault>)
        requires
            pos < self.tokens.len(),
        ensures
            match r {
                Ok((node, next)) => spec_for(self@, old(scope)@, pos as int) == Ok::<_, Fault>(
                    (node@, final(scope)@, next as int),
                ) && pos < next <= self.tokens.len(),
                Err(e) => spec_for(self@, old(scope)@, pos as int) == Err::<
                    (NodeView, Seq<SlotView>, int),
                    _,
                >(e),
            },
        decreases self.tokens.len() - pos, 0int,
    {
        let (counter, from, to, body_at) = match self.read_for_head(scope, pos) {
            Err(e) => {
                return Err(e);
            },
            Ok(head) => head,
        };
        match self.read_block(scope, body_at, Block::For) {
            Err(e) => Err(e),
            Ok((body, end)) => {
                let from = Box::new(from);
                let to = Box::new(to);
                proof {
                    lemma_view_for(counter, from, to, body);
                }
                Ok((Node::For { counter, from, to, body }, end + 1))
            },
        }
    }

    /// Reads the conditional whose next condition starts at index `pos`, behind
    /// `IF` or `ELSEIF`, and declares its variables in `scope`; `done` holds the
    /// alternatives read before. Answers with its node and the index behind its
    /// `ENDIF`.
    pub fn read_if(&self, scope: &mut Scope, pos: usize, done: Vec<Branch>) -> (r: Result<
        (Node, usize),
        Fault,
    >)
        ensures
            match r {
                Ok((node, next)) => spec_if(self@, old(scope)@, pos as int, branch_views(done@))
                    == Ok::<_, Fault>((node@, final(scope)@, next as int)) && pos < next
                    <= self.tokens.len(),
                Err(e) => spec_if(self@, old(scope)@, pos as int, branch_views(done@)) == Err::<
                    (NodeView, Seq<SlotView>, int),
                    _,
                >(e),
            },
        decreases self.tokens.len() - pos, 0int,
    {
        let (cond, body_at) = match self.parse_expression(scope, pos, Stop::Then) {
            Err(e) => {
                return Err(e);
            },
            Ok(pair) => pair,
        };
        let (body, end) = match self.read_block(scope, body_at, Block::Then) {
            Err(e) => {
                return Err(e);
            },
            Ok(pair) => pair,
        };
        let mut branches = done;
        proof {
            lemma_view_branch(cond, body);
            lemma_branch_views_push(branches@, Branch { cond, body });
        }
        branches.push(Branch { cond, body });
        match peek(self.tokens, end) {
            Some(TokenType::EndIf) => {
                proof {
                    lemma_view_if(branches, None);
                }
                Ok((Node::If { branches, otherwise: None }, end + 1))
            },
            Some(TokenType::ElseIf) => self.read_if(scope, end + 1, branches),
            _ => match self.read_block(scope, end + 1, Block::Else) {
                Err(e) => Err(e),
                Ok((else_body, last)) => {
                    proof {
                        lemma_view_if(branches, Some(else_body));
                    }
                    Ok((Node::If { branches, otherwise: Some(else_body) }, last + 1))
                },
            },
        }
    }
}

/// Reads the routine whose name stands at index `pos`, in a module that holds
/// `module` so far; `block` says what closes its body. Answers with the routine
/// and the index behind the closing keyword.
pub fn read_proc(
    tokens: &Vec<TokenType>,
    numbers: &Vec<Option<u64>>,
    module: &Module,
    pos: usize,
    block: Block,
) -> (r: Result<(Routine, usize), Fault>)
    ensures
        match r {
            Ok((routine, next)) => spec_routine(
                token_views(tokens@),
                numbers@,
                module@,
                pos as int,
                block,
            ) == Ok::<_, Fault>((routine@, next as int)) && pos < next <= tokens.len(),
            Err(e) => spec_routine(token_views(tokens@), numbers@, module@, pos as int, block)
                == Err::<(RoutineView, int), _>(e),
        },
{
    let (name, params, inout, body_at) = match parse_header(tokens, pos) {
        Err(e) => {
            return Err(e);
        },
        Ok(head) => head,
    };
    let mut variables = params;
    let read = {
        let parser = Parser {
            tokens,
            numbers,
            routines: &module.routines,
            shared: &module.variables,
            name: &name,
            inout: &inout,
        };
        parser.read_block(&mut variables, body_at, block)
    };
    match read {
        Err(e) => Err(e),
        Ok((nodes, end)) => Ok((Routine { name, inout, variables, nodes }, end + 1)),
    }
}

/// Reads the declaration in a module that starts at index `pos` and adds it to
/// `module`: a procedure, a function or a variable. Answers with the index behind
/// it.
pub fn read_member(
    tokens: &Vec<TokenType>,
    numbers: &Vec<Option<u64>>,
    module: &mut Module,
    pos: usize,
) -> (r: Result<usize, Fault>)
    requires
        pos < tokens.len(),
    ensures
        match r {
            Ok(next) => spec_member(token_views(tokens@), numbers@, pos as int, old(module)@)
                == Ok::<_, Fault>((final(module)@, next as int)) && pos < next <= tokens.len(),
            Err(e) => spec_member(token_views(tokens@), numbers@, pos as int, old(module)@)
                == Err::<(ModuleView, int), _>(e),
        },
{
    let body_at = match peek(tokens, pos) {
        Some(TokenType::Proc) => pos + 1,
        Some(TokenType::Func) => {
            let typed = match peek(tokens, pos + 1) {
                Some(data_type) => Variable::initial(data_type).is_some(),
                None => false,
            };
            if !typed {
                return Err(Fault { reason: Reason::ExpectedDataType, at: pos + 1 });
            }
            pos + 2
        },
        Some(TokenType::Var) | Some(TokenType::Pers) | Some(TokenType::Local) => {
            return match parse_var(tokens, numbers, pos + 1) {
                Err(e) => Err(e),
                Ok((name, value, next)) => {
                    module.variables.declare(name, value);
                    Ok(next)
                },
            };
        },
        _ => {
            return Err(Fault { reason: Reason::InvalidModuleToken, at: pos });
        },
    };
    let block = if body_at == pos + 1 {
        Block::Proc
    } else {
        Block::Func
    };
    match read_proc(tokens, numbers, module, body_at, block) {
        Err(e) => Err(e),
        Ok((routine, next)) => {
            proof {
                assert(routine_views(module.routines@.push(routine)) =~= routine_views(
                    module.routines@,
                ).push(routine@));
            }
            module.routines.push(routine);
            Ok(next)
        },
    }
}

/// Reads the module whose name stands at index `pos`, behind `MOD`. Answers with
/// the module and the index behind its `ENDMOD`.
#[verifier::loop_isolation(false)]
pub fn read_mod(tokens: &Vec<TokenType>, numbers: &Vec<Option<u64>>, pos: usize) -> (r: Result<
    (Module, usize),
    Fault,
>)
    ensures
        match r {
            Ok((module, next)) => spec_mod(token_views(tokens@), numbers@, pos as int) == Ok::<
                _,
                Fault,
            >((module@, next as int)) && pos < next <= tokens.len(),
            Err(e) => spec_mod(token_views(tokens@), numbers@, pos as int) == Err::<
                (ModuleView, int),
                _,
            >(e),
        },
{
    let name = match peek(tokens, pos) {
        Some(TokenType::Id(name)) => name,
        _ => {
            return Err(Fault { reason: Reason::ExpectedModuleName, at: pos });
        },
    };
    let mut module = Module::new(name.clone());
    let mut at = pos + 1;
    loop
        invariant
            pos < at,
            spec_mod(token_views(tokens@), numbers@, pos as int) == spec_module(
                token_views(tokens@),
                numbers@,
                at as int,
                module@,
            ),
        decreases tokens.len() - at,
    {
        match peek(tokens, at) {
            None => {
                return Err(Fault { reason: Reason::UnexpectedEndOfModule, at });
            },
            Some(TokenType::EndMod) => {
                return Ok((module, at + 1));
            },
            Some(_) => match read_member(tokens, numbers, &mut module, at) {
                Err(e) => {
                    return Err(e);
                },
                Ok(next) => {
                    at = next;
                },
            },
        }
    }
}

/// Parses a program. `numbers` runs beside `tokens`: for each token that is a
/// numeric literal it holds the bit pattern of the number that the literal
/// denotes, or `None` where it denotes none; what it holds for other tokens, or
/// whether it is shorter than `tokens`, does not matter (a literal without an
/// entry denotes no number). Parsing stops at the first error.
#[verifier::loop_isolation(false)]
pub fn parse_tokens(tokens: Vec<TokenType>, numbers: Vec<Option<u64>>) -> (r: Result<
    Program,
    ParseError,
>)
    ensures
        match r {
            Ok(program) => parsed(token_views(tokens@), numbers@) == Ok::<_, Fault>(program@),
            Err(e) => parsed(token_views(tokens@), numbers@) == Err::<Seq<ModuleView>, _>(
                Fault { reason: e.reason, at: e.at },
            ) && match e.token {
                Some(t) => tok(token_views(tokens@), e.at as int) == Some(t@),
                None => tok(token_views(tokens@), e.at as int) is None,
            },
        },
{
    let mut program = Program::new();
    let mut at: usize = 0;
    loop
        invariant
            parsed(token_views(tokens@), numbers@) == spec_program(
                token_views(tokens@),
                numbers@,
                at as int,
                program@,
            ),
        decreases tokens.len() - at,
    {
        let step = match peek(&tokens, at) {
            None => {
                return Ok(program);
            },
            Some(TokenType::Mod) => read_mod(&tokens, &numbers, at + 1),
            Some(_) => Err(Fault { reason: Reason::InvalidProgramToken, at }),
        };
        match step {
            Err(e) => {
                let token = match peek(&tokens, e.at) {
                    Some(t) => Some(t.clone()),
                    None => None,
                };
                return Err(ParseError { reason: e.reason, at: e.at, token });
            },
            Ok((module, next)) => {
                proof {
                    assert(module_views(program.modules@.push(module)) =~= module_views(
                        program.modules@,
                    ).push(module@));
                }
                program.modules.push(module);
                at = next;
            },
        }
    }
}

} // verus!
