//! The evaluator: a machine that runs a routine of a module one step at a time.
//!
//! The machine walks the syntax tree with two stacks of its own beside the stack
//! of variables: the tasks that are still to do, and the values of the
//! expressions that are evaluated but not yet used. A step takes the task on top
//! and does it, which may put new tasks and values on the stacks.
//!
//! A step never computes with numbers and never writes anything out. It answers
//! with an [`Action`] that tells the host what to do: to write a value on the
//! diagnostic channel, or to compute with two numbers and hand the result to the
//! next step. The host runs the loop, and a program that never ends is a loop of
//! the host that never ends.
use crate::ast::{
    branch_views, lemma_branch_body, lemma_view_call, lemma_view_for, lemma_view_if,
    lemma_view_while, node_views, optional_views, Branch, BranchView, Node, NodeView, Place,
};
use crate::program::{values_of, Module, ModuleView, Routine, RoutineView, Stack, StackView};
use crate::value::{assignable, combine, combined, Op, Outcome, OutcomeView, Value, Variable, ONE};
use vstd::prelude::*;

verus! {

/// Why a routine stopped before its end.
#[derive(Debug, Clone, Copy, PartialEq, Eq, Structural)]
pub enum EvalError {
    /// A type error: an operator met two values that it is not defined on, a
    /// variable was given a value of another kind, or a condition or a limit of a
    /// loop was of the wrong kind.
    TypeMismatch,
    /// A type error: the target of an assignment, or the argument for an `INOUT`
    /// parameter, is not a variable.
    NotAVariable,
    /// A slot lies outside the stack, or a shared variable outside the module's
    /// storage. A routine that the parser built does not get there.
    OutOfFrame,
    /// A call names a routine that the module does not have.
    UnknownRoutine,
    /// A call gives more or fewer arguments than the routine has parameters.
    BadCall,
    /// The host answered when nothing was asked, did not answer when something
    /// was, or answered with the wrong kind of value.
    BadReply,
    /// The stacks of the machine do not fit its tasks. A machine that `new` made
    /// for a routine that the parser built, and that only its steps changed, does
    /// not get there.
    Corrupt,
}

/// The kinds of runtime error.
#[derive(Debug, Clone, Copy, PartialEq, Eq, Structural)]
pub enum Kind {
    /// An operator, an assignment or a condition met a value of the wrong kind, or
    /// an assignment a target that is no variable.
    Type,
    /// A slot or a routine outside what the program has: the syntax tree is not
    /// one that the parser built.
    Bounds,
    /// The host did not keep to the protocol of the steps.
    Host,
}

impl EvalError {
    /// The kind of error that this is.
    pub open spec fn spec_kind(self) -> Kind {
        match self {
            EvalError::TypeMismatch => Kind::Type,
            EvalError::NotAVariable => Kind::Type,
            EvalError::OutOfFrame => Kind::Bounds,
            EvalError::UnknownRoutine => Kind::Bounds,
            EvalError::BadCall => Kind::Bounds,
            EvalError::BadReply => Kind::Host,
            EvalError::Corrupt => Kind::Host,
        }
    }

    /// The kind of error that this is.
    #[verifier::when_used_as_spec(spec_kind)]
    pub fn kind(self) -> (r: Kind)
        ensures
            r == self.spec_kind(),
    {
        match self {
            EvalError::TypeMismatch => Kind::Type,
            EvalError::NotAVariable => Kind::Type,
            EvalError::OutOfFrame => Kind::Bounds,
            EvalError::UnknownRoutine => Kind::Bounds,
            EvalError::BadCall => Kind::Bounds,
            EvalError::BadReply => Kind::Host,
            EvalError::Corrupt => Kind::Host,
        }
    }

    /// The words that describe this error.
    pub open spec fn text(self) -> Seq<char> {
        match self {
            EvalError::TypeMismatch => "Type mismatch"@,
            EvalError::NotAVariable => "Can only assign to variable"@,
            EvalError::OutOfFrame => "Slot outside the frame"@,
            EvalError::UnknownRoutine => "Unknown routine"@,
            EvalError::BadCall => "Wrong number of arguments"@,
            EvalError::BadReply => "Unexpected reply of the host"@,
            EvalError::Corrupt => "Corrupt machine"@,
        }
    }

    /// The words that describe this error.
    pub fn message(self) -> (r: &'static str)
        ensures
            r@ == self.text(),
    {
        match self {
            EvalError::TypeMismatch => "Type mismatch",
            EvalError::NotAVariable => "Can only assign to variable",
            EvalError::OutOfFrame => "Slot outside the frame",
            EvalError::UnknownRoutine => "Unknown routine",
            EvalError::BadCall => "Wrong number of arguments",
            EvalError::BadReply => "Unexpected reply of the host",
            EvalError::Corrupt => "Corrupt machine",
        }
    }
}

/// What the machine waits for.
#[derive(Debug, Clone, Copy, PartialEq, Eq, Structural)]
pub enum Waiting {
    /// Nothing: the next step takes no reply.
    Nothing,
    /// The number that the host was asked to compute.
    Number,
    /// The answer to a comparison that the host was asked to make.
    Flag,
}

/// What a step tells the host.
#[derive(Debug, PartialEq, Eq)]
pub enum Action {
    /// Nothing to do for the host: take the next step.
    Continue,
    /// Write this value on the diagnostic channel, then take the next step.
    Write(Variable),
    /// Compute `lhs op rhs` on the two numbers and hand the result, a number, to
    /// the next step.
    Compute { op: Op, lhs: u64, rhs: u64 },
    /// Find whether the number `lhs` is at most the number `rhs` and hand the
    /// answer, a boolean, to the next step.
    Test { lhs: u64, rhs: u64 },
    /// The routine has ended with this result.
    Done(Variable),
    /// The routine has failed.
    Failed(EvalError),
    /// The machine has stopped before: there is nothing left to run.
    Idle,
}

/// The mathematical value of an [`Action`].
pub enum ActionView {
    Continue,
    Write(Value),
    Compute { op: Op, lhs: u64, rhs: u64 },
    Test { lhs: u64, rhs: u64 },
    Done(Value),
    Failed(EvalError),
    Idle,
}

impl View for Action {
    type V = ActionView;

    open spec fn view(&self) -> ActionView {
        match self {
            Action::Continue => ActionView::Continue,
            Action::Write(v) => ActionView::Write(v@),
            Action::Compute { op, lhs, rhs } => ActionView::Compute {
                op: *op,
                lhs: *lhs,
                rhs: *rhs,
            },
            Action::Test { lhs, rhs } => ActionView::Test { lhs: *lhs, rhs: *rhs },
            Action::Done(v) => ActionView::Done(v@),
            Action::Failed(e) => ActionView::Failed(*e),
            Action::Idle => ActionView::Idle,
        }
    }
}

/// Something the machine still has to do. The values that a task takes are the
/// topmost of the stack of values.
pub enum Task<'a> {
    /// Evaluate the node and put its value on the stack of values.
    Eval(&'a Node),
    /// Run the statements from the given index on.
    Run(&'a Vec<Node>, usize),
    /// Take one value and forget it.
    Drop,
    /// Put the value `Void` on the stack of values.
    Void,
    /// Take one value and assign it to what the node names; put `Void`.
    Store(&'a Node),
    /// Take the right and the left operand and put the result of the operator.
    Apply(Op),
    /// Try the alternative of a conditional with the given index: evaluate its
    /// condition, or, behind the last alternative, run the statements for the case
    /// that no condition holds; put `Void` at the end.
    Try(&'a Vec<Branch>, &'a Option<Vec<Node>>, usize),
    /// Take the condition of the alternative with the given index: run its
    /// statements and put `Void`, or try the next alternative.
    Choose(&'a Vec<Branch>, &'a Option<Vec<Node>>, usize),
    /// Take the condition of a loop, given with the loop's body: run the body
    /// and test again, or put `Void`.
    Loop(&'a Node, &'a Vec<Node>),
    /// Take the first value of the counter of a counted loop and store it; go on
    /// with the upper limit, given with the loop's body.
    ForInit(Place, &'a Node, &'a Vec<Node>),
    /// Take the upper limit of a counted loop.
    ForLimit(Place, &'a Vec<Node>),
    /// Ask the host whether the counter is at most the limit.
    ForTest(Place, &'a Vec<Node>, u64),
    /// Take the answer of the host: run the body once more, or put `Void`.
    ForBody(Place, &'a Vec<Node>, u64),
    /// Ask the host for the counter plus one.
    ForNext(Place, &'a Vec<Node>, u64),
    /// Take the new value of the counter and store it.
    ForStore(Place, &'a Vec<Node>, u64),
    /// Leave the routine: its result is the topmost value. Each step forgets one
    /// task of the routine, down to its `Leave` or `Halt`.
    Exit,
    /// Add slot `next` of the called routine to the stack; the new activation
    /// record begins at `base`.
    Alloc { routine: usize, args: &'a Vec<Node>, base: usize, next: usize },
    /// Evaluate argument `next` of a call, or enter the routine after the last.
    Args { routine: usize, args: &'a Vec<Node>, base: usize, next: usize },
    /// Take the value of argument `next` and assign it to parameter `next`.
    Bind { routine: usize, args: &'a Vec<Node>, base: usize, next: usize },
    /// The bottom of a called routine. `offset` is where the activation record of
    /// the caller begins and `values` how many values the caller had.
    Leave { offset: usize, values: usize, routine: usize, args: &'a Vec<Node> },
    /// Hand the value of `INOUT` parameter `next` back to the caller's variable,
    /// or, after the last parameter, take the activation record from the stack.
    Restore { offset: usize, routine: usize, args: &'a Vec<Node>, next: usize },
    /// The bottom of the routine that the machine was started with.
    Halt,
}

/// The mathematical value of a [`Task`].
pub enum TaskView {
    Eval(NodeView),
    Run(Seq<NodeView>, usize),
    Drop,
    Void,
    Store(NodeView),
    Apply(Op),
    Try(Seq<BranchView>, Option<Seq<NodeView>>, usize),
    Choose(Seq<BranchView>, Option<Seq<NodeView>>, usize),
    Loop(NodeView, Seq<NodeView>),
    ForInit(Place, NodeView, Seq<NodeView>),
    ForLimit(Place, Seq<NodeView>),
    ForTest(Place, Seq<NodeView>, u64),
    ForBody(Place, Seq<NodeView>, u64),
    ForNext(Place, Seq<NodeView>, u64),
    ForStore(Place, Seq<NodeView>, u64),
    Exit,
    Alloc { routine: usize, args: Seq<NodeView>, base: usize, next: usize },
    Args { routine: usize, args: Seq<NodeView>, base: usize, next: usize },
    Bind { routine: usize, args: Seq<NodeView>, base: usize, next: usize },
    Leave { offset: usize, values: usize, routine: usize, args: Seq<NodeView> },
    Restore { offset: usize, routine: usize, args: Seq<NodeView>, next: usize },
    Halt,
}

impl<'a> View for Task<'a> {
    type V = TaskView;

    open spec fn view(&self) -> TaskView {
        match self {
            Task::Eval(node) => TaskView::Eval(node.view()),
            Task::Run(nodes, from) => TaskView::Run(node_views(nodes@), *from),
            Task::Drop => TaskView::Drop,
            Task::Void => TaskView::Void,
            Task::Store(node) => TaskView::Store(node.view()),
            Task::Apply(op) => TaskView::Apply(*op),
            Task::Try(branches, otherwise, index) => TaskView::Try(
                branch_views(branches@),
                optional_views(**otherwise),
                *index,
            ),
            Task::Choose(branches, otherwise, index) => TaskView::Choose(
                branch_views(branches@),
                optional_views(**otherwise),
                *index,
            ),
            Task::Loop(cond, body) => TaskView::Loop(cond.view(), node_views(body@)),
            Task::ForInit(counter, to, body) => TaskView::ForInit(
                *counter,
                to.view(),
                node_views(body@),
            ),
            Task::ForLimit(counter, body) => TaskView::ForLimit(*counter, node_views(body@)),
            Task::ForTest(counter, body, limit) => TaskView::ForTest(
                *counter,
                node_views(body@),
                *limit,
            ),
            Task::ForBody(counter, body, limit) => TaskView::ForBody(
                *counter,
                node_views(body@),
                *limit,
            ),
            Task::ForNext(counter, body, limit) => TaskView::ForNext(
                *counter,
                node_views(body@),
                *limit,
            ),
            Task::ForStore(counter, body, limit) => TaskView::ForStore(
                *counter,
                node_views(body@),
                *limit,
            ),
            Task::Exit => TaskView::Exit,
            Task::Alloc { routine, args, base, next } => TaskView::Alloc {
                routine: *routine,
                args: node_views(args@),
                base: *base,
                next: *next,
            },
            Task::Args { routine, args, base, next } => TaskView::Args {
                routine: *routine,
                args: node_views(args@),
                base: *base,
                next: *next,
            },
            Task::Bind { routine, args, base, next } => TaskView::Bind {
                routine: *routine,
                args: node_views(args@),
                base: *base,
                next: *next,
            },
            Task::Leave { offset, values, routine, args } => TaskView::Leave {
                offset: *offset,
                values: *values,
                routine: *routine,
                args: node_views(args@),
            },
            Task::Restore { offset, routine, args, next } => TaskView::Restore {
                offset: *offset,
                routine: *routine,
                args: node_views(args@),
                next: *next,
            },
            Task::Halt => TaskView::Halt,
        }
    }
}

/// The mathematical values of a sequence of tasks.
pub open spec fn task_views<'a>(tasks: Seq<Task<'a>>) -> Seq<TaskView> {
    Seq::new(tasks.len(), |i: int| tasks[i]@)
}

/// The machine. `tasks` and `values` grow and shrink at their ends.
pub struct Machine<'a> {
    /// The module whose routine runs.
    pub module: &'a Module,
    /// The stack of variables.
    pub stack: Stack,
    /// The variables of the module.
    pub shared: Vec<Variable>,
    /// The values that are evaluated and not yet used.
    pub values: Vec<Variable>,
    /// The tasks that are still to do.
    pub tasks: Vec<Task<'a>>,
    /// What the host was asked for.
    pub waiting: Waiting,
}

/// The mathematical value of a [`Machine`].
pub struct MachineView {
    pub module: ModuleView,
    pub stack: StackView,
    pub shared: Seq<Value>,
    pub values: Seq<Value>,
    pub tasks: Seq<TaskView>,
    pub waiting: Waiting,
}

impl<'a> View for Machine<'a> {
    type V = MachineView;

    open spec fn view(&self) -> MachineView {
        MachineView {
            module: self.module@,
            stack: self.stack@,
            shared: values_of(self.shared@),
            values: values_of(self.values@),
            tasks: task_views(self.tasks@),
            waiting: self.waiting,
        }
    }
}

impl MachineView {
    /// The machine with one more task.
    pub open spec fn push_task(self, task: TaskView) -> MachineView {
        MachineView { tasks: self.tasks.push(task), ..self }
    }

    /// The machine with one more value.
    pub open spec fn push_value(self, value: Value) -> MachineView {
        MachineView { values: self.values.push(value), ..self }
    }

    /// The machine without its topmost value.
    pub open spec fn pop_value(self) -> MachineView {
        MachineView { values: self.values.drop_last(), ..self }
    }

    /// The machine with nothing left to do.
    pub open spec fn halted(self) -> MachineView {
        MachineView { tasks: Seq::empty(), waiting: Waiting::Nothing, ..self }
    }

    /// The machine after a failure, with what the step answers.
    pub open spec fn fail(self, error: EvalError) -> (MachineView, ActionView) {
        (self.halted(), ActionView::Failed(error))
    }

    /// The position on the stack, or in the module's storage, that `place` names
    /// for a routine whose activation record begins at `offset`; `None` where it
    /// lies outside.
    pub open spec fn index_of(self, offset: usize, place: Place) -> Option<int> {
        match place {
            Place::Local(slot) => if offset + slot < self.stack.variables.len() {
                Some(offset + slot)
            } else {
                None
            },
            Place::Shared(slot) => if slot < self.shared.len() {
                Some(slot as int)
            } else {
                None
            },
        }
    }

    /// The value of the variable at `place`, seen from the activation record at
    /// `offset`.
    pub open spec fn read_at(self, offset: usize, place: Place) -> Option<Value> {
        match self.index_of(offset, place) {
            None => None,
            Some(i) => match place {
                Place::Local(_) => Some(self.stack.variables[i]),
                Place::Shared(_) => Some(self.shared[i]),
            },
        }
    }

    /// The value of the variable at `place` in the running routine.
    pub open spec fn read(self, place: Place) -> Option<Value> {
        self.read_at(self.stack.offset, place)
    }

    /// The machine after `value` is assigned to the variable at `place`, seen from
    /// the activation record at `offset`. The variable keeps its kind.
    pub open spec fn write_at(self, offset: usize, place: Place, value: Value) -> Result<
        MachineView,
        EvalError,
    > {
        match self.index_of(offset, place) {
            None => Err(EvalError::OutOfFrame),
            Some(i) => match place {
                Place::Local(_) => if assignable(self.stack.variables[i], value) {
                    Ok(
                        MachineView {
                            stack: StackView {
                                variables: self.stack.variables.update(i, value),
                                ..self.stack
                            },
                            ..self
                        },
                    )
                } else {
                    Err(EvalError::TypeMismatch)
                },
                Place::Shared(_) => if assignable(self.shared[i], value) {
                    Ok(MachineView { shared: self.shared.update(i, value), ..self })
                } else {
                    Err(EvalError::TypeMismatch)
                },
            },
        }
    }

    /// The machine after `value` is assigned to the variable at `place` in the
    /// running routine.
    pub open spec fn write(self, place: Place, value: Value) -> Result<MachineView, EvalError> {
        self.write_at(self.stack.offset, place, value)
    }
}

/// The operator of an arithmetic node with its two operands; `None` for any other
/// node.
pub open spec fn operation(node: NodeView) -> Option<(Op, NodeView, NodeView)> {
    match node {
        NodeView::OpAdd { lhs, rhs } => Some((Op::Add, *lhs, *rhs)),
        NodeView::OpSub { lhs, rhs } => Some((Op::Sub, *lhs, *rhs)),
        NodeView::OpMul { lhs, rhs } => Some((Op::Mul, *lhs, *rhs)),
        NodeView::OpDiv { lhs, rhs } => Some((Op::Div, *lhs, *rhs)),
        _ => None,
    }
}

/// The step that evaluates `node`.
pub open spec fn eval_of(m: MachineView, node: NodeView) -> (MachineView, ActionView) {
    match node {
        NodeView::Value(v) => (m.push_value(v), ActionView::Continue),
        NodeView::Var(place) => match m.read(place) {
            Some(v) => (m.push_value(v), ActionView::Continue),
            None => m.fail(EvalError::OutOfFrame),
        },
        NodeView::Print(place) => match m.read(place) {
            Some(v) => (m.push_value(Value::Void), ActionView::Write(v)),
            None => m.fail(EvalError::OutOfFrame),
        },
        NodeView::Assign { lhs, rhs } => (
            m.push_task(TaskView::Store(*lhs)).push_task(TaskView::Eval(*rhs)),
            ActionView::Continue,
        ),
        NodeView::If { branches, otherwise } => (
            m.push_task(TaskView::Try(branches, otherwise, 0)),
            ActionView::Continue,
        ),
        NodeView::While { cond, body } => (
            m.push_task(TaskView::Loop(*cond, body)).push_task(TaskView::Eval(*cond)),
            ActionView::Continue,
        ),
        NodeView::For { counter, from, to, body } => (
            m.push_task(TaskView::ForInit(counter, *to, body)).push_task(TaskView::Eval(*from)),
            ActionView::Continue,
        ),
        NodeView::Return(None) => (
            m.push_value(Value::Void).push_task(TaskView::Exit),
            ActionView::Continue,
        ),
        NodeView::Return(Some(value)) => (
            m.push_task(TaskView::Exit).push_task(TaskView::Eval(*value)),
            ActionView::Continue,
        ),
        NodeView::ProcCall { routine, args } => if routine >= m.module.routines.len() {
            m.fail(EvalError::UnknownRoutine)
        } else if args.len() != m.module.routines[routine as int].inout.len() {
            m.fail(EvalError::BadCall)
        } else if m.stack.variables.len() > usize::MAX {
            m.fail(EvalError::Corrupt)
        } else {
            (
                m.push_task(
                    TaskView::Alloc {
                        routine,
                        args,
                        base: m.stack.variables.len() as usize,
                        next: 0,
                    },
                ),
                ActionView::Continue,
            )
        },
        _ => match operation(node) {
            Some((op, lhs, rhs)) => (
                m.push_task(TaskView::Apply(op)).push_task(TaskView::Eval(rhs)).push_task(
                    TaskView::Eval(lhs),
                ),
                ActionView::Continue,
            ),
            None => m.fail(EvalError::Corrupt),
        },
    }
}

/// The step that assigns the value `v` to what `target` names.
pub open spec fn store_of(rest: MachineView, target: NodeView, v: Value) -> (
    MachineView,
    ActionView,
) {
    match target {
        NodeView::Var(place) => match rest.write(place, v) {
            Ok(stored) => (stored.push_value(Value::Void), ActionView::Continue),
            Err(e) => rest.fail(e),
        },
        _ => rest.fail(EvalError::NotAVariable),
    }
}

/// The step that applies `op` to the topmost value of `rest`, as left operand,
/// and `v`, as right operand.
pub open spec fn apply_of(rest: MachineView, op: Op, v: Value) -> (MachineView, ActionView) {
    if rest.values.len() == 0 {
        rest.fail(EvalError::Corrupt)
    } else {
        let both = rest.pop_value();
        match combined(op, rest.values.last(), v) {
            OutcomeView::Value(result) => (both.push_value(result), ActionView::Continue),
            OutcomeView::Ask { op, lhs, rhs } => (
                MachineView { waiting: Waiting::Number, ..both },
                ActionView::Compute { op, lhs, rhs },
            ),
            OutcomeView::Mismatch => both.fail(EvalError::TypeMismatch),
        }
    }
}

/// The step that takes the condition `v` of a conditional or of a loop.
pub open spec fn branch_of(rest: MachineView, task: TaskView, v: Value) -> (
    MachineView,
    ActionView,
) {
    match task {
        TaskView::Choose(branches, otherwise, index) => if index >= branches.len() || index
            == usize::MAX {
            rest.fail(EvalError::Corrupt)
        } else {
            match v {
                Value::Bool(true) => (
                    rest.push_task(TaskView::Void).push_task(
                        TaskView::Run(branches[index as int].body, 0),
                    ),
                    ActionView::Continue,
                ),
                Value::Bool(false) => (
                    rest.push_task(TaskView::Try(branches, otherwise, (index + 1) as usize)),
                    ActionView::Continue,
                ),
                _ => rest.fail(EvalError::TypeMismatch),
            }
        },
        TaskView::Loop(cond, body) => match v {
            Value::Bool(true) => (
                rest.push_task(TaskView::Loop(cond, body)).push_task(TaskView::Eval(cond)).push_task(
                    TaskView::Run(body, 0),
                ),
                ActionView::Continue,
            ),
            Value::Bool(false) => (rest.push_value(Value::Void), ActionView::Continue),
            _ => rest.fail(EvalError::TypeMismatch),
        },
        _ => rest.fail(EvalError::Corrupt),
    }
}

/// The step of a counted loop that takes the value `v`: the first value of the
/// counter, the limit, the answer of the host, or the next value of the counter.
pub open spec fn counted_of(rest: MachineView, task: TaskView, v: Value) -> (
    MachineView,
    ActionView,
) {
    match task {
        TaskView::ForInit(counter, to, body) => match v {
            Value::Num(_) => match rest.write(counter, v) {
                Ok(stored) => (
                    stored.push_task(TaskView::ForLimit(counter, body)).push_task(
                        TaskView::Eval(to),
                    ),
                    ActionView::Continue,
                ),
                Err(e) => rest.fail(e),
            },
            _ => rest.fail(EvalError::TypeMismatch),
        },
        TaskView::ForLimit(counter, body) => match v {
            Value::Num(limit) => (
                rest.push_task(TaskView::ForTest(counter, body, limit)),
                ActionView::Continue,
            ),
            _ => rest.fail(EvalError::TypeMismatch),
        },
        TaskView::ForBody(counter, body, limit) => match v {
            Value::Bool(true) => (
                rest.push_task(TaskView::ForNext(counter, body, limit)).push_task(
                    TaskView::Run(body, 0),
                ),
                ActionView::Continue,
            ),
            Value::Bool(false) => (rest.push_value(Value::Void), ActionView::Continue),
            _ => rest.fail(EvalError::TypeMismatch),
        },
        TaskView::ForStore(counter, body, limit) => match rest.write(counter, v) {
            Ok(stored) => (
                stored.push_task(TaskView::ForTest(counter, body, limit)),
                ActionView::Continue,
            ),
            Err(e) => rest.fail(e),
        },
        _ => rest.fail(EvalError::Corrupt),
    }
}

/// The step that assigns the value `v` of argument `next` to parameter `next` of
/// the activation record that begins at `base`.
pub open spec fn bind_of(
    rest: MachineView,
    routine: usize,
    args: Seq<NodeView>,
    base: usize,
    next: usize,
    v: Value,
) -> (MachineView, ActionView) {
    if base + next < usize::MAX {
        match rest.write_at(base, Place::Local(next), v) {
            Ok(stored) => (
                stored.push_task(TaskView::Args { routine, args, base, next: (next + 1) as usize }),
                ActionView::Continue,
            ),
            Err(e) => rest.fail(e),
        }
    } else {
        rest.fail(EvalError::OutOfFrame)
    }
}

/// The step that uses the topmost value as `task` says. `rest` is the machine
/// without the task and without that value, and `v` is the value.
pub open spec fn take_of(rest: MachineView, task: TaskView, v: Value) -> (MachineView, ActionView) {
    match task {
        TaskView::Drop => (rest, ActionView::Continue),
        TaskView::Store(target) => store_of(rest, target, v),
        TaskView::Apply(op) => apply_of(rest, op, v),
        TaskView::Choose(_, _, _) => branch_of(rest, task, v),
        TaskView::Loop(_, _) => branch_of(rest, task, v),
        TaskView::ForInit(_, _, _) => counted_of(rest, task, v),
        TaskView::ForLimit(_, _) => counted_of(rest, task, v),
        TaskView::ForBody(_, _, _) => counted_of(rest, task, v),
        TaskView::ForStore(_, _, _) => counted_of(rest, task, v),
        TaskView::Bind { routine, args, base, next } => bind_of(rest, routine, args, base, next, v),
        _ => rest.fail(EvalError::Corrupt),
    }
}

/// Whether `task` takes a value from the stack of values.
pub open spec fn takes(task: TaskView) -> bool {
    match task {
        TaskView::Drop => true,
        TaskView::Store(_) => true,
        TaskView::Apply(_) => true,
        TaskView::Choose(_, _, _) => true,
        TaskView::Loop(_, _) => true,
        TaskView::ForInit(_, _, _) => true,
        TaskView::ForLimit(_, _) => true,
        TaskView::ForBody(_, _, _) => true,
        TaskView::ForStore(_, _, _) => true,
        TaskView::Bind { .. } => true,
        _ => false,
    }
}

/// The step of a counted loop that asks the host: for the comparison of the
/// counter with the limit, or for the counter plus one.
pub open spec fn ask_of(m: MachineView, task: TaskView) -> (MachineView, ActionView) {
    match task {
        TaskView::ForTest(counter, body, limit) => match m.read(counter) {
            Some(Value::Num(count)) => (
                MachineView {
                    waiting: Waiting::Flag,
                    ..m.push_task(TaskView::ForBody(counter, body, limit))
                },
                ActionView::Test { lhs: count, rhs: limit },
            ),
            Some(_) => m.fail(EvalError::TypeMismatch),
            None => m.fail(EvalError::OutOfFrame),
        },
        TaskView::ForNext(counter, body, limit) => match m.read(counter) {
            Some(Value::Num(count)) => (
                MachineView {
                    waiting: Waiting::Number,
                    ..m.push_task(TaskView::ForStore(counter, body, limit))
                },
                ActionView::Compute { op: Op::Add, lhs: count, rhs: ONE },
            ),
            Some(_) => m.fail(EvalError::TypeMismatch),
            None => m.fail(EvalError::OutOfFrame),
        },
        _ => m.fail(EvalError::Corrupt),
    }
}

/// The step of a call before the routine is entered: one more slot of the new
/// activation record, or one more argument, or the entry.
pub open spec fn call_of(m: MachineView, task: TaskView) -> (MachineView, ActionView) {
    match task {
        TaskView::Alloc { routine, args, base, next } => if routine >= m.module.routines.len() {
            m.fail(EvalError::UnknownRoutine)
        } else if next < m.module.routines[routine as int].variables.len() && next < usize::MAX {
            (
                MachineView {
                    stack: StackView {
                        variables: m.stack.variables.push(
                            m.module.routines[routine as int].variables[next as int].value,
                        ),
                        ..m.stack
                    },
                    ..m
                }.push_task(TaskView::Alloc { routine, args, base, next: (next + 1) as usize }),
                ActionView::Continue,
            )
        } else {
            (m.push_task(TaskView::Args { routine, args, base, next: 0 }), ActionView::Continue)
        },
        TaskView::Args { routine, args, base, next } => if routine >= m.module.routines.len() {
            m.fail(EvalError::UnknownRoutine)
        } else if next < args.len() {
            (
                m.push_task(TaskView::Bind { routine, args, base, next }).push_task(
                    TaskView::Eval(args[next as int]),
                ),
                ActionView::Continue,
            )
        } else if m.values.len() > usize::MAX {
            m.fail(EvalError::Corrupt)
        } else {
            (
                MachineView { stack: StackView { offset: base, ..m.stack }, ..m }.push_task(
                    TaskView::Leave {
                        offset: m.stack.offset,
                        values: m.values.len() as usize,
                        routine,
                        args,
                    },
                ).push_task(TaskView::Exit).push_task(TaskView::Void).push_task(
                    TaskView::Run(m.module.routines[routine as int].nodes, 0),
                ),
                ActionView::Continue,
            )
        },
        _ => m.fail(EvalError::Corrupt),
    }
}

/// The step that leaves a routine. `m` is the machine without the `Exit` task.
/// The task below it is forgotten, unless it is the bottom of the routine: at
/// `Halt` the machine is done, and at `Leave` the values that the routine left
/// behind are forgotten and its result is handed to the caller.
pub open spec fn exit_of(m: MachineView) -> (MachineView, ActionView) {
    if m.tasks.len() == 0 || m.values.len() == 0 {
        m.fail(EvalError::Corrupt)
    } else {
        let result = m.values.last();
        let below = MachineView { tasks: m.tasks.drop_last(), ..m };
        match m.tasks.last() {
            TaskView::Halt => (below.halted(), ActionView::Done(result)),
            TaskView::Leave { offset, values, routine, args } => if values < m.values.len() {
                (
                    MachineView {
                        values: m.values.subrange(0, values as int).push(result),
                        ..below
                    }.push_task(TaskView::Restore { offset, routine, args, next: 0 }),
                    ActionView::Continue,
                )
            } else {
                m.fail(EvalError::Corrupt)
            },
            _ => (below.push_task(TaskView::Exit), ActionView::Continue),
        }
    }
}

/// The step after a routine is left: the value of one `INOUT` parameter goes back
/// to the variable that the caller gave for it, or, after the last parameter, the
/// activation record is taken from the stack and the caller's is the current one
/// again.
pub open spec fn restore_of(
    m: MachineView,
    offset: usize,
    routine: usize,
    args: Seq<NodeView>,
    next: usize,
) -> (MachineView, ActionView) {
    if routine >= m.module.routines.len() {
        m.fail(EvalError::UnknownRoutine)
    } else {
        let inout = m.module.routines[routine as int].inout;
        if next < inout.len() && next < args.len() && next < usize::MAX {
            let again = TaskView::Restore { offset, routine, args, next: (next + 1) as usize };
            if !inout[next as int] {
                (m.push_task(again), ActionView::Continue)
            } else {
                match args[next as int] {
                    NodeView::Var(place) => match m.read(Place::Local(next)) {
                        None => m.fail(EvalError::OutOfFrame),
                        Some(v) => match m.write_at(offset, place, v) {
                            Ok(stored) => (stored.push_task(again), ActionView::Continue),
                            Err(e) => m.fail(e),
                        },
                    },
                    _ => m.fail(EvalError::NotAVariable),
                }
            }
        } else if m.stack.offset > m.stack.variables.len() {
            m.fail(EvalError::OutOfFrame)
        } else {
            (
                MachineView {
                    stack: StackView {
                        offset,
                        variables: m.stack.variables.subrange(0, m.stack.offset as int),
                    },
                    ..m
                },
                ActionView::Continue,
            )
        }
    }
}

/// The step that tries the alternative `index` of a conditional: its condition is
/// to be evaluated and then taken. Behind the last alternative the statements
/// for the case that no condition holds run, if there are any; a conditional of
/// which nothing runs does nothing.
pub open spec fn try_of(
    m: MachineView,
    branches: Seq<BranchView>,
    otherwise: Option<Seq<NodeView>>,
    index: usize,
) -> (MachineView, ActionView) {
    if index < branches.len() && index < usize::MAX {
        (
            m.push_task(TaskView::Choose(branches, otherwise, index)).push_task(
                TaskView::Eval(branches[index as int].cond),
            ),
            ActionView::Continue,
        )
    } else {
        match otherwise {
            Some(nodes) => (
                m.push_task(TaskView::Void).push_task(TaskView::Run(nodes, 0)),
                ActionView::Continue,
            ),
            None => (m.push_value(Value::Void), ActionView::Continue),
        }
    }
}

/// The step that does `task`. `m` is the machine without the task.
pub open spec fn task_of(m: MachineView, task: TaskView) -> (MachineView, ActionView) {
    if takes(task) {
        if m.values.len() == 0 {
            m.fail(EvalError::Corrupt)
        } else {
            take_of(m.pop_value(), task, m.values.last())
        }
    } else {
        match task {
            TaskView::Eval(node) => eval_of(m, node),
            TaskView::Run(nodes, from) => if from < nodes.len() && from < usize::MAX {
                (
                    m.push_task(TaskView::Run(nodes, (from + 1) as usize)).push_task(
                        TaskView::Drop,
                    ).push_task(TaskView::Eval(nodes[from as int])),
                    ActionView::Continue,
                )
            } else {
                (m, ActionView::Continue)
            },
            TaskView::Void => (m.push_value(Value::Void), ActionView::Continue),
            TaskView::Try(branches, otherwise, index) => try_of(m, branches, otherwise, index),
            TaskView::ForTest(_, _, _) => ask_of(m, task),
            TaskView::ForNext(_, _, _) => ask_of(m, task),
            TaskView::Exit => exit_of(m),
            TaskView::Alloc { .. } => call_of(m, task),
            TaskView::Args { .. } => call_of(m, task),
            TaskView::Restore { offset, routine, args, next } => restore_of(
                m,
                offset,
                routine,
                args,
                next,
            ),
            _ => m.fail(EvalError::Corrupt),
        }
    }
}

/// One step of the machine. `reply` is what the host hands in: the result of what
/// the step before asked for, and nothing otherwise.
pub open spec fn step_of(m: MachineView, reply: Option<Value>) -> (MachineView, ActionView) {
    match (m.waiting, reply) {
        (Waiting::Number, Some(Value::Num(n))) => (
            MachineView { waiting: Waiting::Nothing, ..m }.push_value(Value::Num(n)),
            ActionView::Continue,
        ),
        (Waiting::Flag, Some(Value::Bool(b))) => (
            MachineView { waiting: Waiting::Nothing, ..m }.push_value(Value::Bool(b)),
            ActionView::Continue,
        ),
        (Waiting::Nothing, None) => if m.tasks.len() == 0 {
            (m, ActionView::Idle)
        } else {
            task_of(MachineView { tasks: m.tasks.drop_last(), ..m }, m.tasks.last())
        },
        _ => m.fail(EvalError::BadReply),
    }
}

/// The mathematical value of what the host hands to a step.
pub open spec fn reply_view(reply: Option<Variable>) -> Option<Value> {
    match reply {
        Some(v) => Some(v@),
        None => None,
    }
}

/// Steps for as long as they have nothing for the host, but no more than `limit`
/// steps behind the first: the machine and the answer of the last step taken.
/// The answer is `Continue` only where the limit was reached.
pub open spec fn advanced(m: MachineView, reply: Option<Value>, limit: nat) -> (
    MachineView,
    ActionView,
)
    decreases limit,
{
    let (next, action) = step_of(m, reply);
    if action == ActionView::Continue && limit > 0 {
        advanced(next, None, (limit - 1) as nat)
    } else {
        (next, action)
    }
}

/// The machine that is about to run routine `routine` of `module` on `stack`: the
/// variables of the module hold their first values, and the routine's statements
/// are all that is to do.
pub open spec fn started(module: ModuleView, routine: int, stack: StackView) -> MachineView {
    MachineView {
        module,
        stack,
        shared: Seq::new(module.variables.len(), |i: int| module.variables[i].value),
        values: Seq::empty(),
        tasks: seq![
            TaskView::Halt,
            TaskView::Exit,
            TaskView::Void,
            TaskView::Run(module.routines[routine].nodes, 0),
        ],
        waiting: Waiting::Nothing,
    }
}

/// The stack on which `routine` starts when it is called with `args`: one
/// activation record at offset zero, in which the parameters hold the arguments
/// and the other variables their first values. `None` where the number of
/// arguments is not the number of parameters, or an argument is not of the kind
/// of its parameter.
pub open spec fn framed(routine: RoutineView, args: Seq<Value>) -> Option<StackView> {
    if args.len() != routine.inout.len() || args.len() > routine.variables.len() {
        None
    } else if !(forall|k: int|
        0 <= k < args.len() ==> assignable((#[trigger] routine.variables[k]).value, args[k])) {
        None
    } else {
        Some(
            StackView {
                offset: 0,
                variables: Seq::new(
                    routine.variables.len(),
                    |i: int|
                        if i < args.len() {
                            args[i]
                        } else {
                            routine.variables[i].value
                        },
                ),
            },
        )
    }
}

/// Whether a variable that holds `target` can take `value`.
pub fn fits(target: &Variable, value: &Variable) -> (r: bool)
    ensures
        r == assignable(target@, value@),
{
    match (target, value) {
        (Variable::Bool(_), Variable::Bool(_)) => true,
        (Variable::Num(_), Variable::Num(_)) => true,
        (Variable::Str(_), Variable::Str(_)) => true,
        _ => false,
    }
}

/// Makes the stack on which `routine` starts when it is called with `args`: see
/// [`framed`].
pub fn frame(routine: &Routine, args: &Vec<Variable>) -> (r: Option<Stack>)
    ensures
        match r {
            Some(stack) => framed(routine@, values_of(args@)) == Some(stack@),
            None => framed(routine@, values_of(args@)) is None,
        },
{
    let slots = &routine.variables.slots;
    if args.len() != routine.inout.len() || args.len() > slots.len() {
        return None;
    }
    let mut variables: Vec<Variable> = Vec::new();
    let mut i: usize = 0;
    while i < slots.len()
        invariant
            i <= slots.len(),
            slots == &routine.variables.slots,
            args.len() <= slots.len(),
            variables.len() == i,
            forall|k: int|
                0 <= k < i && k < args.len() ==> assignable(
                    (#[trigger] routine@.variables[k]).value,
                    values_of(args@)[k],
                ),
            forall|k: int|
                0 <= k < i ==> (#[trigger] variables[k])@ == if k < args.len() {
                    args[k]@
                } else {
                    slots[k].value@
                },
        decreases slots.len() - i,
    {
        if i < args.len() {
            if !fits(&slots[i].value, &args[i]) {
                proof {
                    assert(!assignable(routine@.variables[i as int].value, values_of(args@)[i as int]));
                }
                return None;
            }
            variables.push(args[i].clone());
        } else {
            variables.push(slots[i].value.clone());
        }
        i += 1;
    }
    let stack = Stack { offset: 0, variables };
    proof {
        assert(stack@.variables =~= framed(routine@, values_of(args@))->0.variables);
    }
    Some(stack)
}

impl<'a> Machine<'a> {
    /// Puts a task on the stack of tasks.
    pub fn push_task(&mut self, task: Task<'a>)
        ensures
            final(self)@ == old(self)@.push_task(task@),
    {
        proof {
            assert(task_views(self.tasks@.push(task)) =~= task_views(self.tasks@).push(task@));
        }
        self.tasks.push(task);
    }

    /// Puts a value on the stack of values.
    pub fn push_value(&mut self, value: Variable)
        ensures
            final(self)@ == old(self)@.push_value(value@),
    {
        proof {
            assert(values_of(self.values@.push(value)) =~= values_of(self.values@).push(value@));
        }
        self.values.push(value);
    }

    /// Takes the topmost value from the stack of values, if there is one.
    pub fn pop_value(&mut self) -> (r: Option<Variable>)
        ensures
            match r {
                Some(v) => old(self)@.values.len() > 0 && v@ == old(self)@.values.last() && final(self)@ == old(self)@.pop_value(),
                None => old(self)@.values.len() == 0 && final(self)@ == old(self)@,
            },
    {
        proof {
            if self.values@.len() > 0 {
                assert(values_of(self.values@.drop_last()) =~= values_of(self.values@).drop_last());
            }
        }
        self.values.pop()
    }

    /// Takes the topmost task from the stack of tasks, if there is one.
    pub fn pop_task(&mut self) -> (r: Option<Task<'a>>)
        ensures
            match r {
                Some(t) => old(self)@.tasks.len() > 0 && t@ == old(self)@.tasks.last() && final(self)@ == (MachineView { tasks: old(self)@.tasks.drop_last(), ..old(self)@ }),
                None => old(self)@.tasks.len() == 0 && final(self)@ == old(self)@,
            },
    {
        proof {
            if self.tasks@.len() > 0 {
                assert(task_views(self.tasks@.drop_last()) =~= task_views(self.tasks@).drop_last());
            }
        }
        self.tasks.pop()
    }

    /// Stops the machine after a failure.
    pub fn fail(&mut self, error: EvalError) -> (r: Action)
        ensures
            (final(self)@, r@) == old(self)@.fail(error),
    {
        self.tasks.clear();
        self.waiting = Waiting::Nothing;
        proof {
            assert(task_views(self.tasks@) =~= Seq::empty());
        }
        Action::Failed(error)
    }

    /// The position that `place` names for a routine whose activation record
    /// begins at `offset`, if it lies inside.
    pub fn index(&self, offset: usize, place: Place) -> (r: Option<usize>)
        ensures
            match r {
                Some(i) => self@.index_of(offset, place) == Some(i as int),
                None => self@.index_of(offset, place) is None,
            },
    {
        match place {
            Place::Local(slot) => {
                let n = self.stack.variables.len();
                if offset < n && slot < n - offset {
                    Some(offset + slot)
                } else {
                    None
                }
            },
            Place::Shared(slot) => if slot < self.shared.len() {
                Some(slot)
            } else {
                None
            },
        }
    }

    /// The value of the variable at `place`, seen from the activation record at
    /// `offset`.
    pub fn read_at(&self, offset: usize, place: Place) -> (r: Option<Variable>)
        ensures
            match r {
                Some(v) => self@.read_at(offset, place) == Some(v@),
                None => self@.read_at(offset, place) is None,
            },
    {
        match self.index(offset, place) {
            None => None,
            Some(i) => match place {
                Place::Local(_) => Some(self.stack.variables[i].clone()),
                Place::Shared(_) => Some(self.shared[i].clone()),
            },
        }
    }

    /// Assigns `value` to the variable at `place`, seen from the activation
    /// record at `offset`. The variable keeps its kind: a value of another kind is
    /// refused.
    pub fn write_at(&mut self, offset: usize, place: Place, value: Variable) -> (r: Result<
        (),
        EvalError,
    >)
        ensures
            match r {
                Ok(_) => old(self)@.write_at(offset, place, value@) == Ok::<_, EvalError>(
                    final(self)@,
                ),
                Err(e) => old(self)@.write_at(offset, place, value@) == Err::<MachineView, _>(e)
                    && final(self)@ == old(self)@,
            },
    {
        match self.index(offset, place) {
            None => Err(EvalError::OutOfFrame),
            Some(i) => match place {
                Place::Local(_) => {
                    if fits(&self.stack.variables[i], &value) {
                        proof {
                            assert(values_of(self.stack.variables@.update(i as int, value))
                                =~= values_of(self.stack.variables@).update(i as int, value@));
                        }
                        self.stack.variables[i] = value;
                        Ok(())
                    } else {
                        Err(EvalError::TypeMismatch)
                    }
                },
                Place::Shared(_) => {
                    if fits(&self.shared[i], &value) {
                        proof {
                            assert(values_of(self.shared@.update(i as int, value)) =~= values_of(
                                self.shared@,
                            ).update(i as int, value@));
                        }
                        self.shared[i] = value;
                        Ok(())
                    } else {
                        Err(EvalError::TypeMismatch)
                    }
                },
            },
        }
    }

    /// Schedules the evaluation of an arithmetic node: the left operand first,
    /// then the right one, then the operator.
    pub fn operate(&mut self, op: Op, lhs: &'a Node, rhs: &'a Node)
        ensures
            final(self)@ == old(self)@.push_task(TaskView::Apply(op)).push_task(
                TaskView::Eval(rhs@),
            ).push_task(TaskView::Eval(lhs@)),
    {
        self.push_task(Task::Apply(op));
        self.push_task(Task::Eval(rhs));
        self.push_task(Task::Eval(lhs));
    }

    /// The step that evaluates `node`: see [`eval_of`].
    pub fn eval(&mut self, node: &'a Node) -> (r: Action)
        ensures
            (final(self)@, r@) == eval_of(old(self)@, node@),
    {
        match node {
            Node::Value(v) => {
                self.push_value(v.clone());
                Action::Continue
            },
            Node::Var(place) => match self.read_at(self.stack.offset, *place) {
                Some(v) => {
                    self.push_value(v);
                    Action::Continue
                },
                None => self.fail(EvalError::OutOfFrame),
            },
            Node::Print(place) => match self.read_at(self.stack.offset, *place) {
                Some(v) => {
                    self.push_value(Variable::Void);
                    Action::Write(v)
                },
                None => self.fail(EvalError::OutOfFrame),
            },
            Node::Assign { lhs, rhs } => {
                self.push_task(Task::Store(&**lhs));
                self.push_task(Task::Eval(&**rhs));
                Action::Continue
            },
            Node::OpAdd { lhs, rhs } => {
                self.operate(Op::Add, &**lhs, &**rhs);
                Action::Continue
            },
            Node::OpSub { lhs, rhs } => {
                self.operate(Op::Sub, &**lhs, &**rhs);
                Action::Continue
            },
            Node::OpMul { lhs, rhs } => {
                self.operate(Op::Mul, &**lhs, &**rhs);
                Action::Continue
            },
            Node::OpDiv { lhs, rhs } => {
                self.operate(Op::Div, &**lhs, &**rhs);
                Action::Continue
            },
            Node::If { branches, otherwise } => {
                proof {
                    lemma_view_if(*branches, *otherwise);
                }
                self.push_task(Task::Try(branches, otherwise, 0));
                Action::Continue
            },
            Node::While { cond, body } => {
                proof {
                    lemma_view_while(*cond, *body);
                }
                self.push_task(Task::Loop(&**cond, body));
                self.push_task(Task::Eval(&**cond));
                Action::Continue
            },
            Node::For { counter, from, to, body } => {
                proof {
                    lemma_view_for(*counter, *from, *to, *body);
                }
                self.push_task(Task::ForInit(*counter, &**to, body));
                self.push_task(Task::Eval(&**from));
                Action::Continue
            },
            Node::Return(None) => {
                self.push_value(Variable::Void);
                self.push_task(Task::Exit);
                Action::Continue
            },
            Node::Return(Some(value)) => {
                self.push_task(Task::Exit);
                self.push_task(Task::Eval(&**value));
                Action::Continue
            },
            Node::ProcCall { routine, args } => {
                proof {
                    lemma_view_call(*routine, *args);
                }
                let module = self.module;
                if *routine >= module.routines.len() {
                    self.fail(EvalError::UnknownRoutine)
                } else if args.len() != module.routines[*routine].inout.len() {
                    self.fail(EvalError::BadCall)
                } else {
                    let base = self.stack.variables.len();
                    self.push_task(Task::Alloc { routine: *routine, args, base, next: 0 });
                    Action::Continue
                }
            },
        }
    }
}

impl<'a> Machine<'a> {
    /// The step that assigns `v` to what `target` names: see [`store_of`].
    pub fn store(&mut self, target: &'a Node, v: Variable) -> (r: Action)
        ensures
            (final(self)@, r@) == store_of(old(self)@, target@, v@),
    {
        match target {
            Node::Var(place) => match self.write_at(self.stack.offset, *place, v) {
                Ok(_) => {
                    self.push_value(Variable::Void);
                    Action::Continue
                },
                Err(e) => self.fail(e),
            },
            _ => self.fail(EvalError::NotAVariable),
        }
    }

    /// The step that applies `op` to the topmost value and `v`: see [`apply_of`].
    pub fn apply(&mut self, op: Op, v: Variable) -> (r: Action)
        ensures
            (final(self)@, r@) == apply_of(old(self)@, op, v@),
    {
        match self.pop_value() {
            None => self.fail(EvalError::Corrupt),
            Some(lhs) => match combine(op, lhs, v) {
                Outcome::Value(result) => {
                    self.push_value(result);
                    Action::Continue
                },
                Outcome::Ask { op, lhs, rhs } => {
                    self.waiting = Waiting::Number;
                    Action::Compute { op, lhs, rhs }
                },
                Outcome::Mismatch => self.fail(EvalError::TypeMismatch),
            },
        }
    }

    /// The step that takes the condition of a conditional or of a loop: see
    /// [`branch_of`].
    pub fn branch(&mut self, task: Task<'a>, v: Variable) -> (r: Action)
        ensures
            (final(self)@, r@) == branch_of(old(self)@, task@, v@),
    {
        match task {
            Task::Choose(branches, otherwise, index) => {
                if index >= branches.len() {
                    return self.fail(EvalError::Corrupt);
                }
                proof {
                    lemma_branch_body(branches[index as int]);
                }
                match v {
                    Variable::Bool(true) => {
                        self.push_task(Task::Void);
                        self.push_task(Task::Run(&branches[index].body, 0));
                        Action::Continue
                    },
                    Variable::Bool(false) => {
                        self.push_task(Task::Try(branches, otherwise, index + 1));
                        Action::Continue
                    },
                    _ => self.fail(EvalError::TypeMismatch),
                }
            },
            Task::Loop(cond, body) => match v {
                Variable::Bool(true) => {
                    self.push_task(Task::Loop(cond, body));
                    self.push_task(Task::Eval(cond));
                    self.push_task(Task::Run(body, 0));
                    Action::Continue
                },
                Variable::Bool(false) => {
                    self.push_value(Variable::Void);
                    Action::Continue
                },
                _ => self.fail(EvalError::TypeMismatch),
            },
            _ => self.fail(EvalError::Corrupt),
        }
    }

    /// The step of a counted loop that takes a value: see [`counted_of`].
    pub fn counted(&mut self, task: Task<'a>, v: Variable) -> (r: Action)
        ensures
            (final(self)@, r@) == counted_of(old(self)@, task@, v@),
    {
        match task {
            Task::ForInit(counter, to, body) => match v {
                Variable::Num(_) => match self.write_at(self.stack.offset, counter, v) {
                    Ok(_) => {
                        self.push_task(Task::ForLimit(counter, body));
                        self.push_task(Task::Eval(to));
                        Action::Continue
                    },
                    Err(e) => self.fail(e),
                },
                _ => self.fail(EvalError::TypeMismatch),
            },
            Task::ForLimit(counter, body) => match v {
                Variable::Num(limit) => {
                    self.push_task(Task::ForTest(counter, body, limit));
                    Action::Continue
                },
                _ => self.fail(EvalError::TypeMismatch),
            },
            Task::ForBody(counter, body, limit) => match v {
                Variable::Bool(true) => {
                    self.push_task(Task::ForNext(counter, body, limit));
                    self.push_task(Task::Run(body, 0));
                    Action::Continue
                },
                Variable::Bool(false) => {
                    self.push_value(Variable::Void);
                    Action::Continue
                },
                _ => self.fail(EvalError::TypeMismatch),
            },
            Task::ForStore(counter, body, limit) => match self.write_at(
                self.stack.offset,
                counter,
                v,
            ) {
                Ok(_) => {
                    self.push_task(Task::ForTest(counter, body, limit));
                    Action::Continue
                },
                Err(e) => self.fail(e),
            },
            _ => self.fail(EvalError::Corrupt),
        }
    }

    /// The step that assigns the value of an argument to its parameter: see
    /// [`bind_of`].
    pub fn bind(&mut self, routine: usize, args: &'a Vec<Node>, base: usize, next: usize, v: Variable) -> (r:
        Action)
        ensures
            (final(self)@, r@) == bind_of(old(self)@, routine, node_views(args@), base, next, v@),
    {
        if next < usize::MAX - base {
            match self.write_at(base, Place::Local(next), v) {
                Ok(_) => {
                    self.push_task(Task::Args { routine, args, base, next: next + 1 });
                    Action::Continue
                },
                Err(e) => self.fail(e),
            }
        } else {
            self.fail(EvalError::OutOfFrame)
        }
    }

    /// The step that uses the value `v`, taken from the stack of values, as `task`
    /// says: see [`take_of`].
    pub fn take(&mut self, task: Task<'a>, v: Variable) -> (r: Action)
        ensures
            (final(self)@, r@) == take_of(old(self)@, task@, v@),
    {
        match task {
            Task::Drop => Action::Continue,
            Task::Store(target) => self.store(target, v),
            Task::Apply(op) => self.apply(op, v),
            Task::Choose(_, _, _) => self.branch(task, v),
            Task::Loop(_, _) => self.branch(task, v),
            Task::ForInit(_, _, _) => self.counted(task, v),
            Task::ForLimit(_, _) => self.counted(task, v),
            Task::ForBody(_, _, _) => self.counted(task, v),
            Task::ForStore(_, _, _) => self.counted(task, v),
            Task::Bind { routine, args, base, next } => self.bind(routine, args, base, next, v),
            _ => self.fail(EvalError::Corrupt),
        }
    }

    /// The step that tries an alternative of a conditional: see [`try_of`].
    pub fn attempt(
        &mut self,
        branches: &'a Vec<Branch>,
        otherwise: &'a Option<Vec<Node>>,
        index: usize,
    ) -> (r: Action)
        ensures
            (final(self)@, r@) == try_of(
                old(self)@,
                branch_views(branches@),
                optional_views(*otherwise),
                index,
            ),
    {
        if index < branches.len() {
            self.push_task(Task::Choose(branches, otherwise, index));
            self.push_task(Task::Eval(&branches[index].cond));
        } else {
            match otherwise {
                Some(nodes) => {
                    self.push_task(Task::Void);
                    self.push_task(Task::Run(nodes, 0));
                },
                None => {
                    self.push_value(Variable::Void);
                },
            }
        }
        Action::Continue
    }

    /// The step of a counted loop that asks the host: see [`ask_of`].
    pub fn ask(&mut self, task: Task<'a>) -> (r: Action)
        ensures
            (final(self)@, r@) == ask_of(old(self)@, task@),
    {
        match task {
            Task::ForTest(counter, body, limit) => match self.read_at(self.stack.offset, counter) {
                Some(Variable::Num(count)) => {
                    self.push_task(Task::ForBody(counter, body, limit));
                    self.waiting = Waiting::Flag;
                    Action::Test { lhs: count, rhs: limit }
                },
                Some(_) => self.fail(EvalError::TypeMismatch),
                None => self.fail(EvalError::OutOfFrame),
            },
            Task::ForNext(counter, body, limit) => match self.read_at(self.stack.offset, counter) {
                Some(Variable::Num(count)) => {
                    self.push_task(Task::ForStore(counter, body, limit));
                    self.waiting = Waiting::Number;
                    Action::Compute { op: Op::Add, lhs: count, rhs: ONE }
                },
                Some(_) => self.fail(EvalError::TypeMismatch),
                None => self.fail(EvalError::OutOfFrame),
            },
            _ => self.fail(EvalError::Corrupt),
        }
    }

    /// The step of a call before the routine is entered: see [`call_of`].
    pub fn call(&mut self, task: Task<'a>) -> (r: Action)
        ensures
            (final(self)@, r@) == call_of(old(self)@, task@),
    {
        let module = self.module;
        match task {
            Task::Alloc { routine, args, base, next } => {
                if routine >= module.routines.len() {
                    self.fail(EvalError::UnknownRoutine)
                } else if next < module.routines[routine].variables.slots.len() {
                    let value = module.routines[routine].variables.slots[next].value.clone();
                    proof {
                        assert(values_of(self.stack.variables@.push(value)) =~= values_of(
                            self.stack.variables@,
                        ).push(value@));
                    }
                    self.stack.variables.push(value);
                    self.push_task(Task::Alloc { routine, args, base, next: next + 1 });
                    Action::Continue
                } else {
                    self.push_task(Task::Args { routine, args, base, next: 0 });
                    Action::Continue
                }
            },
            Task::Args { routine, args, base, next } => {
                if routine >= module.routines.len() {
                    self.fail(EvalError::UnknownRoutine)
                } else if next < args.len() {
                    self.push_task(Task::Bind { routine, args, base, next });
                    self.push_task(Task::Eval(&args[next]));
                    Action::Continue
                } else {
                    let offset = self.stack.offset;
                    let values = self.values.len();
                    self.stack.offset = base;
                    self.push_task(Task::Leave { offset, values, routine, args });
                    self.push_task(Task::Exit);
                    self.push_task(Task::Void);
                    self.push_task(Task::Run(&module.routines[routine].nodes, 0));
                    Action::Continue
                }
            },
            _ => self.fail(EvalError::Corrupt),
        }
    }

    /// The step that leaves a routine: see [`exit_of`].
    pub fn exit(&mut self) -> (r: Action)
        ensures
            (final(self)@, r@) == exit_of(old(self)@),
    {
        let held = self.values.len();
        if self.tasks.len() == 0 || held == 0 {
            return self.fail(EvalError::Corrupt);
        }
        let result = self.values[held - 1].clone();
        match self.tasks[self.tasks.len() - 1] {
            Task::Halt => {
                self.tasks.clear();
                self.waiting = Waiting::Nothing;
                proof {
                    assert(task_views(self.tasks@) =~= Seq::empty());
                }
                Action::Done(result)
            },
            Task::Leave { offset, values, routine, args } => {
                if values < held {
                    self.pop_task();
                    proof {
                        assert(values_of(self.values@.subrange(0, values as int)) =~= values_of(
                            self.values@,
                        ).subrange(0, values as int));
                    }
                    self.values.truncate(values);
                    self.push_value(result);
                    self.push_task(Task::Restore { offset, routine, args, next: 0 });
                    Action::Continue
                } else {
                    self.fail(EvalError::Corrupt)
                }
            },
            _ => {
                self.pop_task();
                self.push_task(Task::Exit);
                Action::Continue
            },
        }
    }

    /// The step after a routine is left: see [`restore_of`].
    pub fn restore(&mut self, offset: usize, routine: usize, args: &'a Vec<Node>, next: usize) -> (r:
        Action)
        ensures
            (final(self)@, r@) == restore_of(old(self)@, offset, routine, node_views(args@), next),
    {
        let module = self.module;
        if routine >= module.routines.len() {
            return self.fail(EvalError::UnknownRoutine);
        }
        let inout = &module.routines[routine].inout;
        if next < inout.len() && next < args.len() && next < usize::MAX {
            if !inout[next] {
                self.push_task(Task::Restore { offset, routine, args, next: next + 1 });
                Action::Continue
            } else {
                match &args[next] {
                    Node::Var(place) => match self.read_at(self.stack.offset, Place::Local(next)) {
                        None => self.fail(EvalError::OutOfFrame),
                        Some(v) => match self.write_at(offset, *place, v) {
                            Ok(_) => {
                                self.push_task(
                                    Task::Restore { offset, routine, args, next: next + 1 },
                                );
                                Action::Continue
                            },
                            Err(e) => self.fail(e),
                        },
                    },
                    _ => self.fail(EvalError::NotAVariable),
                }
            }
        } else if self.stack.offset > self.stack.variables.len() {
            self.fail(EvalError::OutOfFrame)
        } else {
            proof {
                assert(values_of(self.stack.variables@.subrange(0, self.stack.offset as int))
                    =~= values_of(self.stack.variables@).subrange(0, self.stack.offset as int));
            }
            self.stack.variables.truncate(self.stack.offset);
            self.stack.offset = offset;
            Action::Continue
        }
    }

    /// The step that does `task`, which was taken from the stack of tasks: see
    /// [`task_of`].
    pub fn run(&mut self, task: Task<'a>) -> (r: Action)
        ensures
            (final(self)@, r@) == task_of(old(self)@, task@),
    {
        match task {
            Task::Eval(node) => self.eval(node),
            Task::Run(nodes, from) => {
                if from < nodes.len() {
                    self.push_task(Task::Run(nodes, from + 1));
                    self.push_task(Task::Drop);
                    self.push_task(Task::Eval(&nodes[from]));
                }
                Action::Continue
            },
            Task::Void => {
                self.push_value(Variable::Void);
                Action::Continue
            },
            Task::Try(branches, otherwise, index) => self.attempt(branches, otherwise, index),
            Task::ForTest(_, _, _) => self.ask(task),
            Task::ForNext(_, _, _) => self.ask(task),
            Task::Exit => self.exit(),
            Task::Alloc { .. } => self.call(task),
            Task::Args { .. } => self.call(task),
            Task::Restore { offset, routine, args, next } => self.restore(
                offset,
                routine,
                args,
                next,
            ),
            Task::Leave { .. } => self.fail(EvalError::Corrupt),
            Task::Halt => self.fail(EvalError::Corrupt),
            _ => match self.pop_value() {
                None => self.fail(EvalError::Corrupt),
                Some(v) => self.take(task, v),
            },
        }
    }

    /// Takes one step. `reply` is the result of what the step before asked the
    /// host for, and `None` where it asked for nothing.
    ///
    /// The step changes the machine and answers as [`step_of`] says. A machine
    /// that has ended or failed answers `Idle` from then on.
    pub fn step(&mut self, reply: Option<Variable>) -> (r: Action)
        ensures
            (final(self)@, r@) == step_of(old(self)@, reply_view(reply)),
    {
        match (self.waiting, reply) {
            (Waiting::Number, Some(Variable::Num(n))) => {
                self.waiting = Waiting::Nothing;
                self.push_value(Variable::Num(n));
                Action::Continue
            },
            (Waiting::Flag, Some(Variable::Bool(b))) => {
                self.waiting = Waiting::Nothing;
                self.push_value(Variable::Bool(b));
                Action::Continue
            },
            (Waiting::Nothing, None) => match self.pop_task() {
                None => Action::Idle,
                Some(task) => self.run(task),
            },
            _ => self.fail(EvalError::BadReply),
        }
    }

    /// Takes steps until one of them has something for the host, or the routine
    /// has ended or failed, but no more than `limit` steps behind the first: see
    /// [`advanced`]. `reply` goes to the first step.
    pub fn advance(&mut self, reply: Option<Variable>, limit: usize) -> (r: Action)
        ensures
            (final(self)@, r@) == advanced(old(self)@, reply_view(reply), limit as nat),
    {
        let ghost first = reply_view(reply);
        let mut action = self.step(reply);
        let mut left = limit;
        while left > 0 && matches!(action, Action::Continue)
            invariant
                advanced(old(self)@, first, limit as nat) == (if action@ == ActionView::Continue
                    && left > 0 {
                    advanced(self@, None, (left - 1) as nat)
                } else {
                    (self@, action@)
                }),
            decreases left,
        {
            action = self.step(None);
            left -= 1;
        }
        action
    }

    /// A machine that is about to run routine `routine` of `module` on `stack`,
    /// which holds the routine's parameters and variables from its offset on.
    /// `None` where the module has no such routine.
    pub fn new(module: &'a Module, routine: usize, stack: Stack) -> (r: Option<Machine<'a>>)
        ensures
            match r {
                Some(m) => routine < module.routines.len() && m@ == started(
                    module@,
                    routine as int,
                    stack@,
                ),
                None => routine >= module.routines.len(),
            },
    {
        if routine >= module.routines.len() {
            return None;
        }
        let mut shared: Vec<Variable> = Vec::new();
        let mut i: usize = 0;
        while i < module.variables.slots.len()
            invariant
                i <= module.variables.slots.len(),
                shared.len() == i,
                forall|j: int| 0 <= j < i ==> (#[trigger] shared[j])@ == module.variables.slots[j].value@,
            decreases module.variables.slots.len() - i,
        {
            shared.push(module.variables.slots[i].value.clone());
            i += 1;
        }
        let mut tasks: Vec<Task<'a>> = Vec::new();
        tasks.push(Task::Halt);
        tasks.push(Task::Exit);
        tasks.push(Task::Void);
        tasks.push(Task::Run(&module.routines[routine].nodes, 0));
        let machine = Machine {
            module,
            stack,
            shared,
            values: Vec::new(),
            tasks,
            waiting: Waiting::Nothing,
        };
        proof {
            let want = started(module@, routine as int, stack@);
            assert(machine@.shared =~= want.shared);
            assert(machine@.values =~= want.values);
            assert(machine@.tasks =~= want.tasks);
        }
        Some(machine)
    }
}

} // verus!
