//! What the parser promises of the trees it builds: every reference names a slot
//! of its routine or a variable of its module, and every call a routine of the
//! module with as many arguments as it has parameters.
use crate::ast::{BranchView, NodeView, Place};
use crate::parser::{
    args_fit, callee, callee_flags, closes, ends, parsed, place_of, spec_arg, spec_args,
    spec_block, spec_expression, spec_for, spec_for_head, spec_header, spec_if, spec_member,
    spec_mod, spec_module, spec_named, spec_operand, spec_params, spec_program, spec_routine,
    spec_statement, spec_sub, spec_while, tok, Block, Context, Stop,
};
use crate::program::{find_routine, lemma_resolve, ModuleView, RoutineView, SlotView};
use crate::slots::{
    declarations, lemma_block, lemma_expression, lemma_for, lemma_for_head, lemma_if,
    lemma_params, lemma_statement, lemma_var, lemma_while,
};
use crate::token::TokenView;
use vstd::prelude::*;

verus! {

/// What a tree may refer to: the number of slots of its routine, the number of
/// variables of its module, and for each routine of the module the `INOUT` flags
/// of its parameters.
pub struct Limits {
    pub slots: nat,
    pub shared: nat,
    pub routines: Seq<Seq<bool>>,
}

impl Limits {
    /// Whether `other` allows all that these limits allow: at least as many slots
    /// and variables, and the same routines, maybe followed by more.
    pub open spec fn within(self, other: Limits) -> bool {
        &&& self.slots <= other.slots
        &&& self.shared <= other.shared
        &&& self.routines.len() <= other.routines.len()
        &&& forall|k: int| 0 <= k < self.routines.len() ==> self.routines[k] == other.routines[k]
    }
}

/// Whether `place` names a variable that there is.
pub open spec fn place_ok(place: Place, limits: Limits) -> bool {
    match place {
        Place::Local(slot) => slot < limits.slots,
        Place::Shared(slot) => slot < limits.shared,
    }
}

/// Whether `node` stays within `limits`: its places name variables that there
/// are, its assignments have a variable as target, and its calls go to routines
/// that there are, with one argument for each parameter and a variable for each
/// `INOUT` parameter.
pub open spec fn node_ok(node: NodeView, limits: Limits) -> bool
    decreases node,
{
    match node {
        NodeView::Assign { lhs, rhs } => *lhs is Var && node_ok(*lhs, limits) && node_ok(
            *rhs,
            limits,
        ),
        NodeView::OpAdd { lhs, rhs } => node_ok(*lhs, limits) && node_ok(*rhs, limits),
        NodeView::OpSub { lhs, rhs } => node_ok(*lhs, limits) && node_ok(*rhs, limits),
        NodeView::OpMul { lhs, rhs } => node_ok(*lhs, limits) && node_ok(*rhs, limits),
        NodeView::OpDiv { lhs, rhs } => node_ok(*lhs, limits) && node_ok(*rhs, limits),
        NodeView::Print(place) => place_ok(place, limits),
        NodeView::Value(_) => true,
        NodeView::Var(place) => place_ok(place, limits),
        NodeView::If { branches, otherwise } => {
            &&& forall|i: int| 0 <= i < branches.len() ==> branch_ok(#[trigger] branches[i], limits)
            &&& otherwise matches Some(nodes) ==> forall|i: int|
                0 <= i < nodes.len() ==> node_ok(#[trigger] nodes[i], limits)
        },
        NodeView::While { cond, body } => {
            &&& node_ok(*cond, limits)
            &&& forall|i: int| 0 <= i < body.len() ==> node_ok(#[trigger] body[i], limits)
        },
        NodeView::For { counter, from, to, body } => {
            &&& place_ok(counter, limits)
            &&& node_ok(*from, limits)
            &&& node_ok(*to, limits)
            &&& forall|i: int| 0 <= i < body.len() ==> node_ok(#[trigger] body[i], limits)
        },
        NodeView::Return(None) => true,
        NodeView::Return(Some(value)) => node_ok(*value, limits),
        NodeView::ProcCall { routine, args } => {
            &&& routine < limits.routines.len()
            &&& args.len() == limits.routines[routine as int].len()
            &&& args_fit(limits.routines[routine as int], args)
            &&& forall|i: int| 0 <= i < args.len() ==> node_ok(#[trigger] args[i], limits)
        },
    }
}

/// Whether the condition and the statements of an alternative stay within
/// `limits`.
pub open spec fn branch_ok(branch: BranchView, limits: Limits) -> bool
    decreases branch,
{
    &&& node_ok(branch.cond, limits)
    &&& forall|i: int| 0 <= i < branch.body.len() ==> node_ok(#[trigger] branch.body[i], limits)
}

/// Whether every alternative of `branches` stays within `limits`.
pub open spec fn branches_ok(branches: Seq<BranchView>, limits: Limits) -> bool {
    forall|i: int| 0 <= i < branches.len() ==> branch_ok(#[trigger] branches[i], limits)
}

/// Whether the nodes of `nodes`, if there are any, stay within `limits`.
pub open spec fn optional_ok(nodes: Option<Seq<NodeView>>, limits: Limits) -> bool {
    nodes matches Some(nodes) ==> nodes_ok(nodes, limits)
}

/// Whether every node of `nodes` stays within `limits`.
pub open spec fn nodes_ok(nodes: Seq<NodeView>, limits: Limits) -> bool {
    forall|i: int| 0 <= i < nodes.len() ==> node_ok(#[trigger] nodes[i], limits)
}

/// The `INOUT` flags of the parameters of each routine.
pub open spec fn flags_of(routines: Seq<RoutineView>) -> Seq<Seq<bool>> {
    Seq::new(routines.len(), |i: int| routines[i].inout)
}

/// Whether `routine` stays within what `module` has: its parameters are among its
/// slots, which are no more than can be counted, and its statements refer to its
/// slots, to the variables of the module and to the routines of the module only.
pub open spec fn routine_ok(routine: RoutineView, module: ModuleView) -> bool {
    &&& routine.inout.len() <= routine.variables.len() <= usize::MAX
    &&& nodes_ok(
        routine.nodes,
        Limits {
            slots: routine.variables.len(),
            shared: module.variables.len(),
            routines: flags_of(module.routines),
        },
    )
}

/// Whether every routine of `module` stays within what the module has.
pub open spec fn module_ok(module: ModuleView) -> bool {
    forall|k: int|
        0 <= k < module.routines.len() ==> routine_ok(#[trigger] module.routines[k], module)
}

/// What the statements of the routine that is being read may refer to, when
/// `slots` slots are declared.
pub open spec fn limits_of(ctx: Context, slots: nat) -> Limits {
    Limits { slots, shared: ctx.shared.len(), routines: flags_of(ctx.routines).push(ctx.inout) }
}

/// A node that stays within some limits stays within wider ones.
pub proof fn lemma_node_wider(node: NodeView, limits: Limits, wider: Limits)
    requires
        node_ok(node, limits),
        limits.within(wider),
    ensures
        node_ok(node, wider),
    decreases node,
{
    match node {
        NodeView::Assign { lhs, rhs } => {
            lemma_node_wider(*lhs, limits, wider);
            lemma_node_wider(*rhs, limits, wider);
        },
        NodeView::OpAdd { lhs, rhs } => {
            lemma_node_wider(*lhs, limits, wider);
            lemma_node_wider(*rhs, limits, wider);
        },
        NodeView::OpSub { lhs, rhs } => {
            lemma_node_wider(*lhs, limits, wider);
            lemma_node_wider(*rhs, limits, wider);
        },
        NodeView::OpMul { lhs, rhs } => {
            lemma_node_wider(*lhs, limits, wider);
            lemma_node_wider(*rhs, limits, wider);
        },
        NodeView::OpDiv { lhs, rhs } => {
            lemma_node_wider(*lhs, limits, wider);
            lemma_node_wider(*rhs, limits, wider);
        },
        NodeView::If { branches, otherwise } => {
            assert forall|i: int| 0 <= i < branches.len() implies branch_ok(
                #[trigger] branches[i],
                wider,
            ) by {
                lemma_branch_wider(branches[i], limits, wider);
            }
            match otherwise {
                Some(nodes) => {
                    assert forall|i: int| 0 <= i < nodes.len() implies node_ok(
                        #[trigger] nodes[i],
                        wider,
                    ) by {
                        lemma_node_wider(nodes[i], limits, wider);
                    }
                },
                None => {},
            }
        },
        NodeView::While { cond, body } => {
            lemma_node_wider(*cond, limits, wider);
            assert forall|i: int| 0 <= i < body.len() implies node_ok(#[trigger] body[i], wider) by {
                lemma_node_wider(body[i], limits, wider);
            }
        },
        NodeView::For { counter, from, to, body } => {
            lemma_node_wider(*from, limits, wider);
            lemma_node_wider(*to, limits, wider);
            assert forall|i: int| 0 <= i < body.len() implies node_ok(#[trigger] body[i], wider) by {
                lemma_node_wider(body[i], limits, wider);
            }
        },
        NodeView::Return(Some(value)) => {
            lemma_node_wider(*value, limits, wider);
        },
        NodeView::ProcCall { routine, args } => {
            assert forall|i: int| 0 <= i < args.len() implies node_ok(#[trigger] args[i], wider) by {
                lemma_node_wider(args[i], limits, wider);
            }
        },
        _ => {},
    }
}

/// An alternative that stays within some limits stays within wider ones.
pub proof fn lemma_branch_wider(branch: BranchView, limits: Limits, wider: Limits)
    requires
        branch_ok(branch, limits),
        limits.within(wider),
    ensures
        branch_ok(branch, wider),
    decreases branch,
{
    lemma_node_wider(branch.cond, limits, wider);
    assert forall|i: int| 0 <= i < branch.body.len() implies node_ok(
        #[trigger] branch.body[i],
        wider,
    ) by {
        lemma_node_wider(branch.body[i], limits, wider);
    }
}

/// Alternatives that stay within some limits stay within wider ones.
pub proof fn lemma_branches_wider(branches: Seq<BranchView>, limits: Limits, wider: Limits)
    requires
        branches_ok(branches, limits),
        limits.within(wider),
    ensures
        branches_ok(branches, wider),
{
    assert forall|i: int| 0 <= i < branches.len() implies branch_ok(
        #[trigger] branches[i],
        wider,
    ) by {
        lemma_branch_wider(branches[i], limits, wider);
    }
}

/// Nodes that stay within some limits stay within wider ones.
pub proof fn lemma_nodes_wider(nodes: Seq<NodeView>, limits: Limits, wider: Limits)
    requires
        nodes_ok(nodes, limits),
        limits.within(wider),
    ensures
        nodes_ok(nodes, wider),
{
    assert forall|i: int| 0 <= i < nodes.len() implies node_ok(#[trigger] nodes[i], wider) by {
        lemma_node_wider(nodes[i], limits, wider);
    }
}

/// A range holds at most as many declarations as tokens.
pub proof fn lemma_declarations_bound(tokens: Seq<TokenView>, from: int, to: int)
    requires
        from <= to,
    ensures
        declarations(tokens, from, to) <= to - from,
    decreases to - from,
{
    if from < to {
        lemma_declarations_bound(tokens, from, to - 1);
    }
}

/// The last routine of a name is a routine of the sequence.
pub proof fn lemma_find_routine(routines: Seq<RoutineView>, name: Seq<char>)
    requires
        routines.len() <= usize::MAX,
    ensures
        find_routine(routines, name) matches Some(index) ==> index < routines.len(),
    decreases routines.len(),
{
    if routines.len() > 0 && routines.last().name != name {
        lemma_find_routine(routines.drop_last(), name);
    }
}

/// A name resolves to a variable that is declared.
pub proof fn lemma_place(ctx: Context, scope: Seq<SlotView>, name: Seq<char>)
    requires
        scope.len() <= usize::MAX,
        ctx.shared.len() <= usize::MAX,
    ensures
        place_of(ctx, scope, name) matches Some(place) ==> place_ok(
            place,
            limits_of(ctx, scope.len()),
        ),
{
    lemma_resolve(scope, name);
    lemma_resolve(ctx.shared, name);
}

/// Whether the tables that the parser reads in are small enough to be counted.
pub open spec fn countable(ctx: Context, scope: Seq<SlotView>, pos: int) -> bool {
    &&& 0 <= pos <= ctx.tokens.len()
    &&& scope.len() + (ctx.tokens.len() - pos) <= usize::MAX
    &&& ctx.shared.len() <= usize::MAX
    &&& ctx.routines.len() < usize::MAX
}

/// An operand stays within the limits.
pub proof fn lemma_operand_ok(ctx: Context, scope: Seq<SlotView>, pos: int)
    requires
        scope.len() <= usize::MAX,
        ctx.shared.len() <= usize::MAX,
    ensures
        spec_operand(ctx, scope, pos) matches Ok(node) ==> node_ok(
            node,
            limits_of(ctx, scope.len()),
        ),
{
    match tok(ctx.tokens, pos) {
        Some(TokenView::Id(name)) => lemma_place(ctx, scope, name),
        _ => {},
    }
}

/// The rest of an expression stays within the limits, if its left operand does.
pub proof fn lemma_sub_ok(ctx: Context, scope: Seq<SlotView>, pos: int, lhs: NodeView, stop: Stop)
    requires
        scope.len() <= usize::MAX,
        ctx.shared.len() <= usize::MAX,
        node_ok(lhs, limits_of(ctx, scope.len())),
    ensures
        spec_sub(ctx, scope, pos, lhs, stop) matches Ok((node, _)) ==> node_ok(
            node,
            limits_of(ctx, scope.len()),
        ),
    decreases ctx.tokens.len() - pos,
{
    match tok(ctx.tokens, pos) {
        None => {},
        Some(operator) => {
            if !ends(stop, operator) {
                lemma_operand_ok(ctx, scope, pos + 1);
                match spec_operand(ctx, scope, pos + 1) {
                    Err(_) => {},
                    Ok(rhs) => {
                        match operator {
                            TokenView::Add => lemma_sub_ok(ctx, scope, pos + 2, rhs, stop),
                            TokenView::Minus => lemma_sub_ok(ctx, scope, pos + 2, rhs, stop),
                            TokenView::Multiply => lemma_sub_ok(
                                ctx,
                                scope,
                                pos + 2,
                                NodeView::OpMul { lhs: Box::new(lhs), rhs: Box::new(rhs) },
                                stop,
                            ),
                            TokenView::Divide => lemma_sub_ok(
                                ctx,
                                scope,
                                pos + 2,
                                NodeView::OpDiv { lhs: Box::new(lhs), rhs: Box::new(rhs) },
                                stop,
                            ),
                            _ => {},
                        }
                    },
                }
            }
        },
    }
}

/// An expression stays within the limits.
pub proof fn lemma_expression_ok(ctx: Context, scope: Seq<SlotView>, pos: int, stop: Stop)
    requires
        scope.len() <= usize::MAX,
        ctx.shared.len() <= usize::MAX,
    ensures
        spec_expression(ctx, scope, pos, stop) matches Ok((node, _)) ==> node_ok(
            node,
            limits_of(ctx, scope.len()),
        ),
{
    lemma_operand_ok(ctx, scope, pos);
    match spec_operand(ctx, scope, pos) {
        Err(_) => {},
        Ok(first) => lemma_sub_ok(ctx, scope, pos + 1, first, stop),
    }
}

/// The arguments of a call stay within the limits.
pub proof fn lemma_args_ok(ctx: Context, scope: Seq<SlotView>, pos: int, done: Seq<NodeView>)
    requires
        0 <= pos,
        scope.len() <= usize::MAX,
        ctx.shared.len() <= usize::MAX,
        nodes_ok(done, limits_of(ctx, scope.len())),
    ensures
        spec_args(ctx, scope, pos, done) matches Ok((args, _)) ==> nodes_ok(
            args,
            limits_of(ctx, scope.len()),
        ),
    decreases ctx.tokens.len() - pos,
{
    lemma_expression(ctx, scope, pos, Stop::Argument);
    lemma_expression_ok(ctx, scope, pos, Stop::Argument);
    match spec_expression(ctx, scope, pos, Stop::Argument) {
        Err(_) => {},
        Ok((arg, next)) => {
            if tok(ctx.tokens, next - 1) == Some(TokenView::Comma) {
                lemma_args_ok(ctx, scope, next, done.push(arg));
            }
        },
    }
}

/// A statement that starts with a name stays within the limits.
pub proof fn lemma_named_ok(ctx: Context, scope: Seq<SlotView>, pos: int, name: Seq<char>)
    requires
        0 <= pos,
        scope.len() <= usize::MAX,
        ctx.shared.len() <= usize::MAX,
        ctx.routines.len() < usize::MAX,
    ensures
        spec_named(ctx, scope, pos, name) matches Ok((node, _)) ==> node_ok(
            node,
            limits_of(ctx, scope.len()),
        ),
{
    let limits = limits_of(ctx, scope.len());
    lemma_place(ctx, scope, name);
    match place_of(ctx, scope, name) {
        Some(place) => {
            assert(node_ok(NodeView::Var(place), limits));
            lemma_expression_ok(ctx, scope, pos + 2, Stop::Semicolon);
        },
        None => {
            lemma_find_routine(ctx.routines, name);
            match callee(ctx, name) {
                None => {},
                Some(index) => {
                    assert(callee_flags(ctx, index) == limits.routines[index as int]);
                    lemma_args_ok(ctx, scope, pos + 2, Seq::empty());
                },
            }
        },
    }
}

/// A conditional loop stays within the limits of the slots declared behind it.
pub proof fn lemma_while_ok(ctx: Context, scope: Seq<SlotView>, pos: int)
    requires
        countable(ctx, scope, pos),
        tok(ctx.tokens, pos) == Some(TokenView::While),
    ensures
        spec_while(ctx, scope, pos) matches Ok((node, declared, _)) ==> node_ok(
            node,
            limits_of(ctx, declared.len()),
        ),
    decreases ctx.tokens.len() - pos, 0int,
{
    lemma_while(ctx, scope, pos);
    lemma_expression(ctx, scope, pos + 1, Stop::Do);
    lemma_expression_ok(ctx, scope, pos + 1, Stop::Do);
    match spec_expression(ctx, scope, pos + 1, Stop::Do) {
        Err(_) => {},
        Ok((cond, body_at)) => {
            lemma_block(ctx, scope, body_at, Block::While, Seq::empty());
            lemma_block_ok(ctx, scope, body_at, Block::While, Seq::empty());
            match spec_block(ctx, scope, body_at, Block::While, Seq::empty()) {
                Err(_) => {},
                Ok((_, declared, _)) => {
                    lemma_node_wider(
                        cond,
                        limits_of(ctx, scope.len()),
                        limits_of(ctx, declared.len()),
                    );
                },
            }
        },
    }
}

/// A counted loop stays within the limits of the slots declared behind it.
pub proof fn lemma_for_ok(ctx: Context, scope: Seq<SlotView>, pos: int)
    requires
        countable(ctx, scope, pos),
        tok(ctx.tokens, pos) == Some(TokenView::For),
    ensures
        spec_for(ctx, scope, pos) matches Ok((node, declared, _)) ==> node_ok(
            node,
            limits_of(ctx, declared.len()),
        ),
    decreases ctx.tokens.len() - pos, 0int,
{
    lemma_for(ctx, scope, pos);
    lemma_for_head(ctx, scope, pos);
    match spec_for_head(ctx, scope, pos) {
        Err(_) => {},
        Ok((counter, from, to, body_at)) => {
            let inner = limits_of(ctx, scope.len());
            match tok(ctx.tokens, pos + 1) {
                Some(TokenView::Id(name)) => lemma_place(ctx, scope, name),
                _ => {},
            }
            lemma_expression(ctx, scope, pos + 3, Stop::To);
            lemma_expression_ok(ctx, scope, pos + 3, Stop::To);
            match spec_expression(ctx, scope, pos + 3, Stop::To) {
                Err(_) => {},
                Ok((_, to_at)) => lemma_expression_ok(ctx, scope, to_at, Stop::Do),
            }
            lemma_block(ctx, scope, body_at, Block::For, Seq::empty());
            lemma_block_ok(ctx, scope, body_at, Block::For, Seq::empty());
            match spec_block(ctx, scope, body_at, Block::For, Seq::empty()) {
                Err(_) => {},
                Ok((_, declared, _)) => {
                    let outer = limits_of(ctx, declared.len());
                    lemma_node_wider(from, inner, outer);
                    lemma_node_wider(to, inner, outer);
                },
            }
        },
    }
}

/// A conditional stays within the limits of the slots declared behind it, if the
/// alternatives read before it do.
pub proof fn lemma_if_ok(ctx: Context, scope: Seq<SlotView>, pos: int, done: Seq<BranchView>)
    requires
        countable(ctx, scope, pos),
        branches_ok(done, limits_of(ctx, scope.len())),
    ensures
        spec_if(ctx, scope, pos, done) matches Ok((node, declared, _)) ==> node_ok(
            node,
            limits_of(ctx, declared.len()),
        ),
    decreases ctx.tokens.len() - pos, 0int,
{
    lemma_if(ctx, scope, pos, done);
    lemma_expression(ctx, scope, pos, Stop::Then);
    lemma_expression_ok(ctx, scope, pos, Stop::Then);
    match spec_expression(ctx, scope, pos, Stop::Then) {
        Err(_) => {},
        Ok((cond, body_at)) => {
            lemma_block(ctx, scope, body_at, Block::Then, Seq::empty());
            lemma_block_ok(ctx, scope, body_at, Block::Then, Seq::empty());
            match spec_block(ctx, scope, body_at, Block::Then, Seq::empty()) {
                Err(_) => {},
                Ok((body, declared, end)) => {
                    let first = limits_of(ctx, scope.len());
                    let second = limits_of(ctx, declared.len());
                    let branches = done.push(BranchView { cond, body });
                    lemma_declarations_bound(ctx.tokens, body_at, end);
                    lemma_node_wider(cond, first, second);
                    lemma_branches_wider(done, first, second);
                    assert(branch_ok(BranchView { cond, body }, second));
                    assert(branches_ok(branches, second));
                    match tok(ctx.tokens, end) {
                        Some(TokenView::EndIf) => {},
                        Some(TokenView::ElseIf) => {
                            lemma_if_ok(ctx, declared, end + 1, branches);
                        },
                        _ => {
                            lemma_block(ctx, declared, end + 1, Block::Else, Seq::empty());
                            lemma_block_ok(ctx, declared, end + 1, Block::Else, Seq::empty());
                            match spec_block(ctx, declared, end + 1, Block::Else, Seq::empty()) {
                                Err(_) => {},
                                Ok((_, all, _)) => {
                                    lemma_branches_wider(branches, second, limits_of(ctx, all.len()));
                                },
                            }
                        },
                    }
                },
            }
        },
    }
}

/// A statement stays within the limits of the slots declared behind it.
pub proof fn lemma_statement_ok(ctx: Context, scope: Seq<SlotView>, pos: int)
    requires
        countable(ctx, scope, pos),
    ensures
        spec_statement(ctx, scope, pos) matches Ok((Some(node), declared, _)) ==> node_ok(
            node,
            limits_of(ctx, declared.len()),
        ),
    decreases ctx.tokens.len() - pos, 1int,
{
    match tok(ctx.tokens, pos) {
        Some(TokenView::Id(name)) => lemma_named_ok(ctx, scope, pos, name),
        Some(TokenView::TpWrite) => {
            match tok(ctx.tokens, pos + 1) {
                Some(TokenView::Id(name)) => lemma_place(ctx, scope, name),
                _ => {},
            }
        },
        Some(TokenView::Return) => lemma_expression_ok(ctx, scope, pos + 1, Stop::Semicolon),
        Some(TokenView::If) => lemma_if_ok(ctx, scope, pos + 1, Seq::empty()),
        Some(TokenView::While) => lemma_while_ok(ctx, scope, pos),
        Some(TokenView::For) => lemma_for_ok(ctx, scope, pos),
        _ => {},
    }
}

/// A block stays within the limits of the slots declared behind it, if the
/// statements read before it do.
pub proof fn lemma_block_ok(
    ctx: Context,
    scope: Seq<SlotView>,
    pos: int,
    block: Block,
    done: Seq<NodeView>,
)
    requires
        countable(ctx, scope, pos),
        nodes_ok(done, limits_of(ctx, scope.len())),
    ensures
        spec_block(ctx, scope, pos, block, done) matches Ok((nodes, declared, _)) ==> nodes_ok(
            nodes,
            limits_of(ctx, declared.len()),
        ),
    decreases ctx.tokens.len() - pos, 2int,
{
    match tok(ctx.tokens, pos) {
        None => {},
        Some(token) => {
            if !closes(block, token) {
                lemma_statement(ctx, scope, pos);
                lemma_statement_ok(ctx, scope, pos);
                match spec_statement(ctx, scope, pos) {
                    Err(_) => {},
                    Ok((node, declared, next)) => {
                        let more = match node {
                            Some(n) => done.push(n),
                            None => done,
                        };
                        lemma_declarations_bound(ctx.tokens, pos, next);
                        lemma_nodes_wider(
                            done,
                            limits_of(ctx, scope.len()),
                            limits_of(ctx, declared.len()),
                        );
                        lemma_block_ok(ctx, declared, next, block, more);
                    },
                }
            }
        },
    }
}

/// The parameters take at most one slot for every two tokens.
pub proof fn lemma_params_bound(
    tokens: Seq<TokenView>,
    pos: int,
    scope: Seq<SlotView>,
    flags: Seq<bool>,
)
    requires
        0 <= pos,
    ensures
        spec_params(tokens, pos, scope, flags) matches Ok((slots, _, next)) ==> slots.len()
            - scope.len() <= next - pos,
    decreases tokens.len() - pos,
{
    match tok(tokens, pos) {
        None => {},
        Some(first) => {
            let flag = first is Inout;
            let at = if flag {
                pos + 1
            } else {
                pos
            };
            match spec_arg(tokens, at) {
                Err(_) => {},
                Ok(slot) => {
                    if tok(tokens, at + 2) == Some(TokenView::Comma) {
                        lemma_params_bound(tokens, at + 3, scope.push(slot), flags.push(flag));
                    }
                },
            }
        },
    }
}

/// A routine that parses stays within what its module has so far, with itself
/// as the next routine of the module.
pub proof fn lemma_routine_ok(
    tokens: Seq<TokenView>,
    numbers: Seq<Option<u64>>,
    module: ModuleView,
    pos: int,
    block: Block,
)
    requires
        0 <= pos,
        tokens.len() <= usize::MAX,
        module.variables.len() <= usize::MAX,
        module.routines.len() < usize::MAX,
    ensures
        spec_routine(tokens, numbers, module, pos, block) matches Ok((routine, next)) ==> pos
            < next <= tokens.len() && routine_ok(
            routine,
            ModuleView { routines: module.routines.push(routine), ..module },
        ),
{
    match spec_header(tokens, pos) {
        Err(_) => {},
        Ok((name, params, inout, body_at)) => {
            lemma_params(tokens, pos + 2, Seq::empty(), Seq::empty());
            lemma_params_bound(tokens, pos + 2, Seq::empty(), Seq::empty());
            let ctx = Context {
                tokens,
                numbers,
                routines: module.routines,
                shared: module.variables,
                name,
                inout,
            };
            lemma_block(ctx, params, body_at, block, Seq::empty());
            lemma_block_ok(ctx, params, body_at, block, Seq::empty());
            match spec_block(ctx, params, body_at, block, Seq::empty()) {
                Err(_) => {},
                Ok((nodes, variables, end)) => {
                    let routine = RoutineView { name, inout, variables, nodes };
                    lemma_declarations_bound(tokens, body_at, end);
                    assert(flags_of(module.routines.push(routine)) =~= flags_of(
                        module.routines,
                    ).push(inout));
                },
            }
        },
    }
}

/// Routines that stay within a module stay within the module with one more
/// routine or one more variable.
pub proof fn lemma_module_wider(module: ModuleView, wider: ModuleView)
    requires
        module_ok(module),
        module.variables.len() <= wider.variables.len(),
        module.routines.len() <= wider.routines.len(),
        forall|k: int| 0 <= k < module.routines.len() ==> module.routines[k] == wider.routines[k],
    ensures
        forall|k: int|
            0 <= k < module.routines.len() ==> routine_ok(#[trigger] wider.routines[k], wider),
{
    assert forall|k: int| 0 <= k < module.routines.len() implies routine_ok(
        #[trigger] wider.routines[k],
        wider,
    ) by {
        let routine = module.routines[k];
        assert(routine_ok(routine, module));
        lemma_nodes_wider(
            routine.nodes,
            Limits {
                slots: routine.variables.len(),
                shared: module.variables.len(),
                routines: flags_of(module.routines),
            },
            Limits {
                slots: routine.variables.len(),
                shared: wider.variables.len(),
                routines: flags_of(wider.routines),
            },
        );
    }
}

/// A declaration in a module keeps the module within itself.
pub proof fn lemma_member_ok(
    tokens: Seq<TokenView>,
    numbers: Seq<Option<u64>>,
    pos: int,
    module: ModuleView,
)
    requires
        0 <= pos,
        tokens.len() <= usize::MAX,
        module.variables.len() + module.routines.len() <= pos,
        module_ok(module),
    ensures
        spec_member(tokens, numbers, pos, module) matches Ok((extended, next)) ==> pos < next
            <= tokens.len() && module_ok(extended) && extended.variables.len()
            + extended.routines.len() <= next,
{
    match spec_member(tokens, numbers, pos, module) {
        Err(_) => {},
        Ok((extended, next)) => {
            lemma_module_wider(module, extended);
            lemma_var(tokens, numbers, pos + 1);
            lemma_routine_ok(tokens, numbers, module, pos + 1, Block::Proc);
            lemma_routine_ok(tokens, numbers, module, pos + 2, Block::Func);
        },
    }
}

/// The declarations of a module keep the module within itself.
pub proof fn lemma_module_ok(
    tokens: Seq<TokenView>,
    numbers: Seq<Option<u64>>,
    pos: int,
    module: ModuleView,
)
    requires
        0 <= pos,
        tokens.len() <= usize::MAX,
        module.variables.len() + module.routines.len() <= pos,
        module_ok(module),
    ensures
        spec_module(tokens, numbers, pos, module) matches Ok((whole, next)) ==> pos < next
            <= tokens.len() && module_ok(whole),
    decreases tokens.len() - pos,
{
    match tok(tokens, pos) {
        None => {},
        Some(TokenView::EndMod) => {},
        Some(_) => {
            lemma_member_ok(tokens, numbers, pos, module);
            match spec_member(tokens, numbers, pos, module) {
                Err(_) => {},
                Ok((extended, next)) => lemma_module_ok(tokens, numbers, next, extended),
            }
        },
    }
}

/// The modules from index `pos` on stay within themselves, if those read before
/// do.
pub proof fn lemma_program_ok(
    tokens: Seq<TokenView>,
    numbers: Seq<Option<u64>>,
    pos: int,
    modules: Seq<ModuleView>,
)
    requires
        0 <= pos,
        tokens.len() <= usize::MAX,
        forall|m: int| 0 <= m < modules.len() ==> module_ok(#[trigger] modules[m]),
    ensures
        spec_program(tokens, numbers, pos, modules) matches Ok(all) ==> forall|m: int|
            0 <= m < all.len() ==> module_ok(#[trigger] all[m]),
    decreases tokens.len() - pos,
{
    match tok(tokens, pos) {
        Some(TokenView::Mod) => {
            match tok(tokens, pos + 1) {
                Some(TokenView::Id(name)) => {
                    let empty = ModuleView {
                        name,
                        routines: Seq::empty(),
                        variables: Seq::empty(),
                    };
                    lemma_module_ok(tokens, numbers, pos + 2, empty);
                    match spec_mod(tokens, numbers, pos + 1) {
                        Err(_) => {},
                        Ok((module, next)) => {
                            lemma_program_ok(tokens, numbers, next, modules.push(module));
                        },
                    }
                },
                _ => {},
            }
        },
        _ => {},
    }
}

/// In a program that parses, every routine stays within its module: each place
/// names a slot of the routine or a variable of the module, each assignment has
/// a variable as its target, and each call goes to a routine of the module, with
/// one argument for each parameter and a variable for each `INOUT` parameter.
pub proof fn lemma_parsed_ok(tokens: Seq<TokenView>, numbers: Seq<Option<u64>>)
    requires
        tokens.len() <= usize::MAX,
    ensures
        parsed(tokens, numbers) matches Ok(modules) ==> forall|m: int|
            0 <= m < modules.len() ==> module_ok(#[trigger] modules[m]),
{
    lemma_program_ok(tokens, numbers, 0, Seq::empty());
}

} // verus!
