//! How the parser allocates slots: one for each parameter and one for each
//! declaration, in the order of the text.
use crate::ast::{BranchView, NodeView};
use crate::parser::{
    closes, ends, spec_arg, spec_args, spec_block, spec_expression, spec_for, spec_for_head,
    spec_header, spec_if, spec_named, spec_operand, spec_params, spec_return, spec_routine,
    spec_statement, spec_sub, spec_var, spec_while, spec_write, tok, Block, Context, Stop,
};
use crate::program::{ModuleView, SlotView};
use crate::token::TokenView;
use vstd::prelude::*;

verus! {

/// The number of `VAR` tokens from index `from` up to, and without, index `to`.
/// In the body of a routine that parses, each of them opens a declaration.
pub open spec fn declarations(tokens: Seq<TokenView>, from: int, to: int) -> nat
    decreases to - from,
{
    if from >= to {
        0
    } else {
        declarations(tokens, from, to - 1) + if tok(tokens, to - 1) == Some(TokenView::Var) {
            1nat
        } else {
            0nat
        }
    }
}

/// Whether no token from index `from` up to, and without, index `to` is `VAR`.
pub open spec fn plain(tokens: Seq<TokenView>, from: int, to: int) -> bool {
    forall|i: int| from <= i < to ==> tok(tokens, i) != Some(TokenView::Var)
}

/// The declarations of a range are those of its two parts.
pub proof fn lemma_declarations_split(tokens: Seq<TokenView>, from: int, mid: int, to: int)
    requires
        from <= mid <= to,
    ensures
        declarations(tokens, from, to) == declarations(tokens, from, mid) + declarations(
            tokens,
            mid,
            to,
        ),
    decreases to - mid,
{
    if mid < to {
        lemma_declarations_split(tokens, from, mid, to - 1);
    }
}

/// A range without `VAR` holds no declaration.
pub proof fn lemma_plain(tokens: Seq<TokenView>, from: int, to: int)
    requires
        plain(tokens, from, to),
    ensures
        declarations(tokens, from, to) == 0,
    decreases to - from,
{
    if from < to {
        lemma_plain(tokens, from, to - 1);
    }
}

/// A range that begins with `VAR` and goes on without holds one declaration.
pub proof fn lemma_one_declaration(tokens: Seq<TokenView>, from: int, to: int)
    requires
        from < to,
        tok(tokens, from) == Some(TokenView::Var),
        plain(tokens, from + 1, to),
    ensures
        declarations(tokens, from, to) == 1,
{
    lemma_declarations_split(tokens, from, from + 1, to);
    lemma_plain(tokens, from + 1, to);
    assert(declarations(tokens, from, from) == 0);
}

/// The rest of an expression moves forward over tokens without `VAR`.
pub proof fn lemma_sub(ctx: Context, scope: Seq<SlotView>, pos: int, lhs: NodeView, stop: Stop)
    requires
        0 <= pos,
    ensures
        spec_sub(ctx, scope, pos, lhs, stop) matches Ok((_, next)) ==> pos < next
            <= ctx.tokens.len() && plain(ctx.tokens, pos, next) && ends(
            stop,
            ctx.tokens[next - 1],
        ),
    decreases ctx.tokens.len() - pos,
{
    match tok(ctx.tokens, pos) {
        None => {},
        Some(operator) => {
            if !ends(stop, operator) {
                match spec_operand(ctx, scope, pos + 1) {
                    Err(_) => {},
                    Ok(rhs) => {
                        match operator {
                            TokenView::Add => lemma_sub(ctx, scope, pos + 2, rhs, stop),
                            TokenView::Minus => lemma_sub(ctx, scope, pos + 2, rhs, stop),
                            TokenView::Multiply => lemma_sub(
                                ctx,
                                scope,
                                pos + 2,
                                NodeView::OpMul { lhs: Box::new(lhs), rhs: Box::new(rhs) },
                                stop,
                            ),
                            TokenView::Divide => lemma_sub(
                                ctx,
                                scope,
                                pos + 2,
                                NodeView::OpDiv { lhs: Box::new(lhs), rhs: Box::new(rhs) },
                                stop,
                            ),
                            _ => {},
                        }
                    },
                }
            }
        },
    }
}

/// An expression moves forward over tokens without `VAR`, and ends with a token
/// that `stop` names.
pub proof fn lemma_expression(ctx: Context, scope: Seq<SlotView>, pos: int, stop: Stop)
    requires
        0 <= pos,
    ensures
        spec_expression(ctx, scope, pos, stop) matches Ok((_, next)) ==> pos + 1 < next
            <= ctx.tokens.len() && plain(ctx.tokens, pos, next) && ends(
            stop,
            ctx.tokens[next - 1],
        ),
{
    match spec_operand(ctx, scope, pos) {
        Err(_) => {},
        Ok(first) => lemma_sub(ctx, scope, pos + 1, first, stop),
    }
}

/// The declaration behind `VAR` moves forward over tokens without `VAR`.
pub proof fn lemma_var(tokens: Seq<TokenView>, numbers: Seq<Option<u64>>, pos: int)
    requires
        0 <= pos,
    ensures
        spec_var(tokens, numbers, pos) matches Ok((_, next)) ==> pos < next <= tokens.len()
            && plain(tokens, pos, next),
{
}

/// The arguments of a call move forward over tokens without `VAR`.
pub proof fn lemma_args(ctx: Context, scope: Seq<SlotView>, pos: int, done: Seq<NodeView>)
    requires
        0 <= pos,
    ensures
        spec_args(ctx, scope, pos, done) matches Ok((_, next)) ==> pos < next <= ctx.tokens.len()
            && plain(ctx.tokens, pos, next),
    decreases ctx.tokens.len() - pos,
{
    lemma_expression(ctx, scope, pos, Stop::Argument);
    match spec_expression(ctx, scope, pos, Stop::Argument) {
        Err(_) => {},
        Ok((arg, next)) => {
            if tok(ctx.tokens, next - 1) == Some(TokenView::Comma) {
                lemma_args(ctx, scope, next, done.push(arg));
            }
        },
    }
}

/// A statement that starts with a name moves forward over tokens without `VAR`.
pub proof fn lemma_named(ctx: Context, scope: Seq<SlotView>, pos: int, name: Seq<char>)
    requires
        0 <= pos,
        tok(ctx.tokens, pos) == Some(TokenView::Id(name)),
    ensures
        spec_named(ctx, scope, pos, name) matches Ok((_, next)) ==> pos < next <= ctx.tokens.len()
            && plain(ctx.tokens, pos, next),
{
    lemma_expression(ctx, scope, pos + 2, Stop::Semicolon);
    lemma_args(ctx, scope, pos + 2, Seq::empty());
}

/// A conditional loop allocates one slot for each declaration in its body.
pub proof fn lemma_while(ctx: Context, scope: Seq<SlotView>, pos: int)
    requires
        0 <= pos,
        tok(ctx.tokens, pos) == Some(TokenView::While),
    ensures
        spec_while(ctx, scope, pos) matches Ok((_, declared, next)) ==> pos < next
            <= ctx.tokens.len() && declared.len() == scope.len() + declarations(
            ctx.tokens,
            pos,
            next,
        ),
    decreases ctx.tokens.len() - pos, 0int,
{
    lemma_expression(ctx, scope, pos + 1, Stop::Do);
    match spec_expression(ctx, scope, pos + 1, Stop::Do) {
        Err(_) => {},
        Ok((_, body_at)) => {
            lemma_block(ctx, scope, body_at, Block::While, Seq::empty());
            match spec_block(ctx, scope, body_at, Block::While, Seq::empty()) {
                Err(_) => {},
                Ok((_, _, end)) => {
                    lemma_plain(ctx.tokens, pos, body_at);
                    lemma_plain(ctx.tokens, end, end + 1);
                    lemma_declarations_split(ctx.tokens, pos, body_at, end + 1);
                    lemma_declarations_split(ctx.tokens, body_at, end, end + 1);
                },
            }
        },
    }
}

/// The head of a counted loop moves forward over tokens without `VAR`.
pub proof fn lemma_for_head(ctx: Context, scope: Seq<SlotView>, pos: int)
    requires
        0 <= pos,
        tok(ctx.tokens, pos) == Some(TokenView::For),
    ensures
        spec_for_head(ctx, scope, pos) matches Ok((_, _, _, next)) ==> pos < next
            <= ctx.tokens.len() && plain(ctx.tokens, pos, next),
{
    lemma_expression(ctx, scope, pos + 3, Stop::To);
    match spec_expression(ctx, scope, pos + 3, Stop::To) {
        Err(_) => {},
        Ok((_, to_at)) => lemma_expression(ctx, scope, to_at, Stop::Do),
    }
}

/// A counted loop allocates one slot for each declaration in its body.
pub proof fn lemma_for(ctx: Context, scope: Seq<SlotView>, pos: int)
    requires
        0 <= pos,
        tok(ctx.tokens, pos) == Some(TokenView::For),
    ensures
        spec_for(ctx, scope, pos) matches Ok((_, declared, next)) ==> pos < next
            <= ctx.tokens.len() && declared.len() == scope.len() + declarations(
            ctx.tokens,
            pos,
            next,
        ),
    decreases ctx.tokens.len() - pos, 0int,
{
    lemma_for_head(ctx, scope, pos);
    match spec_for_head(ctx, scope, pos) {
        Err(_) => {},
        Ok((_, _, _, body_at)) => {
            lemma_block(ctx, scope, body_at, Block::For, Seq::empty());
            match spec_block(ctx, scope, body_at, Block::For, Seq::empty()) {
                Err(_) => {},
                Ok((_, _, end)) => {
                    lemma_plain(ctx.tokens, pos, body_at);
                    lemma_plain(ctx.tokens, end, end + 1);
                    lemma_declarations_split(ctx.tokens, pos, body_at, end + 1);
                    lemma_declarations_split(ctx.tokens, body_at, end, end + 1);
                },
            }
        },
    }
}

/// A conditional allocates one slot for each declaration in its branches.
pub proof fn lemma_if(ctx: Context, scope: Seq<SlotView>, pos: int, done: Seq<BranchView>)
    requires
        0 <= pos,
    ensures
        spec_if(ctx, scope, pos, done) matches Ok((_, declared, next)) ==> pos < next
            <= ctx.tokens.len() && declared.len() == scope.len() + declarations(
            ctx.tokens,
            pos,
            next,
        ),
    decreases ctx.tokens.len() - pos, 0int,
{
    lemma_expression(ctx, scope, pos, Stop::Then);
    match spec_expression(ctx, scope, pos, Stop::Then) {
        Err(_) => {},
        Ok((cond, body_at)) => {
            lemma_block(ctx, scope, body_at, Block::Then, Seq::empty());
            match spec_block(ctx, scope, body_at, Block::Then, Seq::empty()) {
                Err(_) => {},
                Ok((body, declared, end)) => {
                    let branches = done.push(BranchView { cond, body });
                    lemma_plain(ctx.tokens, pos, body_at);
                    lemma_plain(ctx.tokens, end, end + 1);
                    lemma_declarations_split(ctx.tokens, pos, body_at, end + 1);
                    lemma_declarations_split(ctx.tokens, body_at, end, end + 1);
                    match tok(ctx.tokens, end) {
                        Some(TokenView::EndIf) => {},
                        Some(TokenView::ElseIf) => {
                            lemma_if(ctx, declared, end + 1, branches);
                            match spec_if(ctx, declared, end + 1, branches) {
                                Err(_) => {},
                                Ok((_, _, next)) => {
                                    lemma_declarations_split(ctx.tokens, pos, end + 1, next);
                                },
                            }
                        },
                        _ => {
                            lemma_block(ctx, declared, end + 1, Block::Else, Seq::empty());
                            match spec_block(ctx, declared, end + 1, Block::Else, Seq::empty()) {
                                Err(_) => {},
                                Ok((_, _, last)) => {
                                    lemma_plain(ctx.tokens, last, last + 1);
                                    lemma_declarations_split(ctx.tokens, pos, end + 1, last + 1);
                                    lemma_declarations_split(ctx.tokens, end + 1, last, last + 1);
                                },
                            }
                        },
                    }
                },
            }
        },
    }
}

/// A statement allocates one slot for each declaration in it: one where it is a
/// declaration, none where it is an assignment, a call, a write or a return, and
/// those of its blocks where it is a conditional or a loop.
pub proof fn lemma_statement(ctx: Context, scope: Seq<SlotView>, pos: int)
    requires
        0 <= pos,
    ensures
        spec_statement(ctx, scope, pos) matches Ok((_, declared, next)) ==> pos < next
            <= ctx.tokens.len() && declared.len() == scope.len() + declarations(
            ctx.tokens,
            pos,
            next,
        ),
    decreases ctx.tokens.len() - pos, 1int,
{
    match tok(ctx.tokens, pos) {
        None => {},
        Some(TokenView::Var) => {
            lemma_var(ctx.tokens, ctx.numbers, pos + 1);
            match spec_var(ctx.tokens, ctx.numbers, pos + 1) {
                Err(_) => {},
                Ok((_, next)) => lemma_one_declaration(ctx.tokens, pos, next),
            }
        },
        Some(TokenView::Id(name)) => {
            lemma_named(ctx, scope, pos, name);
            match spec_named(ctx, scope, pos, name) {
                Err(_) => {},
                Ok((_, next)) => lemma_plain(ctx.tokens, pos, next),
            }
        },
        Some(TokenView::TpWrite) => {
            match spec_write(ctx, scope, pos) {
                Err(_) => {},
                Ok((_, next)) => lemma_plain(ctx.tokens, pos, next),
            }
        },
        Some(TokenView::Return) => {
            lemma_expression(ctx, scope, pos + 1, Stop::Semicolon);
            match spec_return(ctx, scope, pos) {
                Err(_) => {},
                Ok((_, next)) => lemma_plain(ctx.tokens, pos, next),
            }
        },
        Some(TokenView::If) => {
            lemma_if(ctx, scope, pos + 1, Seq::empty());
            match spec_if(ctx, scope, pos + 1, Seq::empty()) {
                Err(_) => {},
                Ok((_, _, next)) => {
                    lemma_plain(ctx.tokens, pos, pos + 1);
                    lemma_declarations_split(ctx.tokens, pos, pos + 1, next);
                },
            }
        },
        Some(TokenView::While) => lemma_while(ctx, scope, pos),
        Some(TokenView::For) => lemma_for(ctx, scope, pos),
        Some(_) => {},
    }
}

/// A block allocates one slot for each declaration in it, and ends at a token
/// that closes it.
pub proof fn lemma_block(
    ctx: Context,
    scope: Seq<SlotView>,
    pos: int,
    block: Block,
    done: Seq<NodeView>,
)
    requires
        0 <= pos,
    ensures
        spec_block(ctx, scope, pos, block, done) matches Ok((_, declared, end)) ==> pos <= end
            < ctx.tokens.len() && closes(block, ctx.tokens[end]) && declared.len() == scope.len()
            + declarations(ctx.tokens, pos, end),
    decreases ctx.tokens.len() - pos, 2int,
{
    match tok(ctx.tokens, pos) {
        None => {},
        Some(token) => {
            if closes(block, token) {
                assert(declarations(ctx.tokens, pos, pos) == 0);
            } else {
                lemma_statement(ctx, scope, pos);
                match spec_statement(ctx, scope, pos) {
                    Err(_) => {},
                    Ok((node, declared, next)) => {
                        let more = match node {
                            Some(n) => done.push(n),
                            None => done,
                        };
                        lemma_block(ctx, declared, next, block, more);
                        match spec_block(ctx, declared, next, block, more) {
                            Err(_) => {},
                            Ok((_, _, end)) => {
                                lemma_declarations_split(ctx.tokens, pos, next, end);
                            },
                        }
                    },
                }
            }
        },
    }
}

/// The parameters take one slot each.
pub proof fn lemma_params(tokens: Seq<TokenView>, pos: int, scope: Seq<SlotView>, flags: Seq<bool>)
    requires
        0 <= pos,
    ensures
        spec_params(tokens, pos, scope, flags) matches Ok((slots, inout, next)) ==> pos < next
            <= tokens.len() && slots.len() - scope.len() == inout.len() - flags.len(),
    decreases tokens.len() - pos,
{
    match tok(tokens, pos) {
        None => {},
        Some(first) => {
            let flag = first is Inout;
            let at = if flag {
                pos + 1
            } else {
                pos
            };
            match spec_arg(tokens, at) {
                Err(_) => {},
                Ok(slot) => {
                    if tok(tokens, at + 2) == Some(TokenView::Comma) {
                        lemma_params(tokens, at + 3, scope.push(slot), flags.push(flag));
                    }
                },
            }
        },
    }
}

/// The number of slots of a routine is the number of its parameters plus the
/// number of declarations in its body: the parameters take the first slots, and
/// each `VAR` between the head of the routine and its closing keyword takes the
/// next one.
pub proof fn lemma_slots_of_routine(
    tokens: Seq<TokenView>,
    numbers: Seq<Option<u64>>,
    module: ModuleView,
    pos: int,
    block: Block,
)
    requires
        0 <= pos,
        block == Block::Proc || block == Block::Func,
    ensures
        spec_routine(tokens, numbers, module, pos, block) matches Ok((routine, next)) ==> (
        spec_header(tokens, pos) matches Ok((_, params, inout, body_at)) && pos < body_at < next
            <= tokens.len() && routine.inout == inout && params.len() == inout.len()
            && routine.variables.len() == inout.len() + declarations(tokens, body_at, next)),
{
    match spec_header(tokens, pos) {
        Err(_) => {},
        Ok((name, params, inout, body_at)) => {
            lemma_params(tokens, pos + 2, Seq::empty(), Seq::empty());
            let ctx = Context {
                tokens,
                numbers,
                routines: module.routines,
                shared: module.variables,
                name,
                inout,
            };
            lemma_block(ctx, params, body_at, block, Seq::empty());
            match spec_block(ctx, params, body_at, block, Seq::empty()) {
                Err(_) => {},
                Ok((_, _, end)) => {
                    lemma_plain(tokens, end, end + 1);
                    lemma_declarations_split(tokens, body_at, end, end + 1);
                },
            }
        },
    }
}

} // verus!
