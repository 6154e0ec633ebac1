//! The syntax tree: expressions and statements as one recursive type.
use crate::value::{Value, Variable};
use vstd::prelude::*;

verus! {

/// Where a variable lives.
#[derive(Debug, Clone, Copy, PartialEq, Eq, Structural)]
pub enum Place {
    /// Slot `i` of the running routine: position `offset + i` of the stack.
    Local(usize),
    /// Variable `i` of the module, shared by its routines.
    Shared(usize),
}

/// One alternative of a conditional: a condition and the statements that run
/// where it holds.
#[derive(Debug, PartialEq, Eq)]
pub struct Branch {
    pub cond: Node,
    pub body: Vec<Node>,
}

/// A node of the syntax tree. Each node owns its children.
#[derive(Debug, PartialEq, Eq)]
pub enum Node {
    /// Evaluates `rhs` and stores the result in the variable that `lhs` names.
    Assign { lhs: Box<Node>, rhs: Box<Node> },
    OpAdd { lhs: Box<Node>, rhs: Box<Node> },
    OpSub { lhs: Box<Node>, rhs: Box<Node> },
    OpMul { lhs: Box<Node>, rhs: Box<Node> },
    OpDiv { lhs: Box<Node>, rhs: Box<Node> },
    /// Writes the variable's value on the diagnostic channel.
    Print(Place),
    /// A literal.
    Value(Variable),
    /// A reference to a variable.
    Var(Place),
    /// A conditional: the alternatives in the order of the text, and the
    /// statements that run where no condition holds, if there are any.
    If { branches: Vec<Branch>, otherwise: Option<Vec<Node>> },
    /// A loop that runs `body` as long as `cond` evaluates to true.
    While { cond: Box<Node>, body: Vec<Node> },
    /// A counted loop: `counter` runs from `from` up to `to` in steps of one.
    For { counter: Place, from: Box<Node>, to: Box<Node>, body: Vec<Node> },
    /// Ends the running routine, with the value of the expression where there is
    /// one.
    Return(Option<Box<Node>>),
    /// A call of routine `routine` of the module.
    ProcCall { routine: usize, args: Vec<Node> },
}

/// The mathematical value of a [`Branch`].
pub struct BranchView {
    pub cond: NodeView,
    pub body: Seq<NodeView>,
}

/// The mathematical value of a [`Node`].
pub enum NodeView {
    Assign { lhs: Box<NodeView>, rhs: Box<NodeView> },
    OpAdd { lhs: Box<NodeView>, rhs: Box<NodeView> },
    OpSub { lhs: Box<NodeView>, rhs: Box<NodeView> },
    OpMul { lhs: Box<NodeView>, rhs: Box<NodeView> },
    OpDiv { lhs: Box<NodeView>, rhs: Box<NodeView> },
    Print(Place),
    Value(Value),
    Var(Place),
    If { branches: Seq<BranchView>, otherwise: Option<Seq<NodeView>> },
    While { cond: Box<NodeView>, body: Seq<NodeView> },
    For { counter: Place, from: Box<NodeView>, to: Box<NodeView>, body: Seq<NodeView> },
    Return(Option<Box<NodeView>>),
    ProcCall { routine: usize, args: Seq<NodeView> },
}

impl Branch {
    /// The mathematical value of the alternative.
    pub open spec fn view(&self) -> BranchView
        decreases self,
    {
        BranchView {
            cond: self.cond.view(),
            body: Seq::new(
                self.body@.len(),
                |i: int|
                    if 0 <= i < self.body@.len() {
                        self.body@[i].view()
                    } else {
                        NodeView::Return(None)
                    },
            ),
        }
    }
}

impl Node {
    /// The mathematical value of the node.
    pub open spec fn view(&self) -> NodeView
        decreases self,
    {
        match self {
            Node::Assign { lhs, rhs } => NodeView::Assign {
                lhs: Box::new((**lhs).view()),
                rhs: Box::new((**rhs).view()),
            },
            Node::OpAdd { lhs, rhs } => NodeView::OpAdd {
                lhs: Box::new((**lhs).view()),
                rhs: Box::new((**rhs).view()),
            },
            Node::OpSub { lhs, rhs } => NodeView::OpSub {
                lhs: Box::new((**lhs).view()),
                rhs: Box::new((**rhs).view()),
            },
            Node::OpMul { lhs, rhs } => NodeView::OpMul {
                lhs: Box::new((**lhs).view()),
                rhs: Box::new((**rhs).view()),
            },
            Node::OpDiv { lhs, rhs } => NodeView::OpDiv {
                lhs: Box::new((**lhs).view()),
                rhs: Box::new((**rhs).view()),
            },
            Node::Print(place) => NodeView::Print(*place),
            Node::Value(v) => NodeView::Value(v@),
            Node::Var(place) => NodeView::Var(*place),
            Node::If { branches, otherwise } => NodeView::If {
                branches: Seq::new(
                    branches@.len(),
                    |i: int|
                        if 0 <= i < branches@.len() {
                            branches@[i].view()
                        } else {
                            BranchView { cond: NodeView::Return(None), body: Seq::empty() }
                        },
                ),
                otherwise: match otherwise {
                    Some(nodes) => Some(
                        Seq::new(
                            nodes@.len(),
                            |i: int|
                                if 0 <= i < nodes@.len() {
                                    nodes@[i].view()
                                } else {
                                    NodeView::Return(None)
                                },
                        ),
                    ),
                    None => None,
                },
            },
            Node::While { cond, body } => NodeView::While {
                cond: Box::new((**cond).view()),
                body: Seq::new(
                    body@.len(),
                    |i: int| if 0 <= i < body@.len() { body@[i].view() } else { NodeView::Return(None) },
                ),
            },
            Node::For { counter, from, to, body } => NodeView::For {
                counter: *counter,
                from: Box::new((**from).view()),
                to: Box::new((**to).view()),
                body: Seq::new(
                    body@.len(),
                    |i: int| if 0 <= i < body@.len() { body@[i].view() } else { NodeView::Return(None) },
                ),
            },
            Node::Return(None) => NodeView::Return(None),
            Node::Return(Some(e)) => NodeView::Return(Some(Box::new((**e).view()))),
            Node::ProcCall { routine, args } => NodeView::ProcCall {
                routine: *routine,
                args: Seq::new(
                    args@.len(),
                    |i: int| if 0 <= i < args@.len() { args@[i].view() } else { NodeView::Return(None) },
                ),
            },
        }
    }
}

/// The mathematical values of a sequence of nodes.
pub open spec fn node_views(nodes: Seq<Node>) -> Seq<NodeView> {
    Seq::new(nodes.len(), |i: int| nodes[i].view())
}

/// Appending a node appends its value.
pub proof fn lemma_node_views_push(nodes: Seq<Node>, node: Node)
    ensures
        node_views(nodes.push(node)) == node_views(nodes).push(node@),
{
    assert(node_views(nodes.push(node)) =~= node_views(nodes).push(node@));
}

/// The mathematical values of a sequence of alternatives.
pub open spec fn branch_views(branches: Seq<Branch>) -> Seq<BranchView> {
    Seq::new(branches.len(), |i: int| branches[i].view())
}

/// The mathematical values of a sequence of nodes that may be absent.
pub open spec fn optional_views(nodes: Option<Vec<Node>>) -> Option<Seq<NodeView>> {
    match nodes {
        Some(nodes) => Some(node_views(nodes@)),
        None => None,
    }
}

/// Appending an alternative appends its value.
pub proof fn lemma_branch_views_push(branches: Seq<Branch>, branch: Branch)
    ensures
        branch_views(branches.push(branch)) == branch_views(branches).push(branch@),
{
    assert(branch_views(branches.push(branch)) =~= branch_views(branches).push(branch@));
}

/// The value of an alternative, over the values of its parts.
pub proof fn lemma_view_branch(cond: Node, body: Vec<Node>)
    ensures
        (Branch { cond, body }).view() == (BranchView { cond: cond@, body: node_views(body@) }),
{
    let v = (Branch { cond, body }).view();
    assert(v.body =~= node_views(body@));
}

/// The statements of an alternative, as values.
pub proof fn lemma_branch_body(branch: Branch)
    ensures
        branch.view().body == node_views(branch.body@),
{
    assert(branch.view().body =~= node_views(branch.body@));
}

/// The value of a conditional, over the values of its parts.
pub proof fn lemma_view_if(branches: Vec<Branch>, otherwise: Option<Vec<Node>>)
    ensures
        (Node::If { branches, otherwise }).view() == (NodeView::If {
            branches: branch_views(branches@),
            otherwise: optional_views(otherwise),
        }),
{
    let v = (Node::If { branches, otherwise }).view();
    assert(v->branches =~= branch_views(branches@));
    match otherwise {
        Some(nodes) => {
            assert(v->otherwise->0 =~= node_views(nodes@));
        },
        None => {},
    }
}

/// The value of a conditional loop, over the values of its parts.
pub proof fn lemma_view_while(cond: Box<Node>, body: Vec<Node>)
    ensures
        (Node::While { cond, body }).view() == (NodeView::While {
            cond: Box::new((*cond).view()),
            body: node_views(body@),
        }),
{
    let v = (Node::While { cond, body }).view();
    assert(v->While_body =~= node_views(body@));
}

/// The value of a counted loop, over the values of its parts.
pub proof fn lemma_view_for(counter: Place, from: Box<Node>, to: Box<Node>, body: Vec<Node>)
    ensures
        (Node::For { counter, from, to, body }).view() == (NodeView::For {
            counter,
            from: Box::new((*from).view()),
            to: Box::new((*to).view()),
            body: node_views(body@),
        }),
{
    let v = (Node::For { counter, from, to, body }).view();
    assert(v->For_body =~= node_views(body@));
}

/// The value of a call, over the values of its arguments.
pub proof fn lemma_view_call(routine: usize, args: Vec<Node>)
    ensures
        (Node::ProcCall { routine, args }).view() == (NodeView::ProcCall {
            routine,
            args: node_views(args@),
        }),
{
    let v = (Node::ProcCall { routine, args }).view();
    assert(v->args =~= node_views(args@));
}

} // verus!
