//! Why a routine that the parser built runs without faults of the machine.
//!
//! A machine is sound where its module stays within itself and its stacks fit
//! its tasks: every task finds the values it takes, every place that a task names
//! lies in the activation record of its routine, and every routine that was
//! called finds the record of its caller below its own. Every step keeps a sound
//! machine sound, and a step of a sound machine fails only where a value is of
//! the wrong kind or the host breaks the protocol.
use crate::ast::NodeView;
use crate::machine::{
    ask_of, call_of, eval_of, exit_of, framed, operation, restore_of, started, step_of, take_of,
    takes, task_of, ActionView, EvalError, MachineView, TaskView, Waiting,
};
use crate::parser::{args_fit, parsed};
use crate::program::{ModuleView, StackView};
use crate::shape::{
    branch_ok, branches_ok, flags_of, lemma_node_wider, lemma_nodes_wider, lemma_parsed_ok,
    module_ok, node_ok, nodes_ok, optional_ok, place_ok, routine_ok, Limits,
};
use crate::token::TokenView;
use crate::value::Value;
use vstd::prelude::*;

verus! {

/// What the tasks of one routine can rely on: where its activation record begins,
/// how long the stack of variables is at least when they run, how many values
/// there are when the topmost of them starts, and how many of those belong to the
/// routines below and are not to be taken.
pub struct Frame {
    pub offset: int,
    pub length: int,
    pub height: int,
    pub floor: int,
}

/// Whether the numbers of a frame go together.
pub open spec fn frame_ok(f: Frame) -> bool {
    0 <= f.offset <= f.length && 0 <= f.floor <= f.height
}

/// What the nodes of a routine with frame `f` may refer to.
pub open spec fn lim(module: ModuleView, f: Frame) -> Limits {
    Limits {
        slots: if f.length >= f.offset {
            (f.length - f.offset) as nat
        } else {
            0
        },
        shared: module.variables.len(),
        routines: flags_of(module.routines),
    }
}

/// The number of values that belong to the routines below the one whose tasks
/// are on top.
pub open spec fn floor_of(tasks: Seq<TaskView>) -> int
    decreases tasks.len(),
{
    if tasks.len() == 0 {
        0
    } else {
        match tasks.last() {
            TaskView::Leave { values, .. } => values as int,
            TaskView::Halt => 0,
            _ => floor_of(tasks.drop_last()),
        }
    }
}

/// Whether a call of routine `routine` with `args`, made by a routine with frame
/// `f` when the stack of variables was `base` long, goes together with the module.
pub open spec fn call_ok(
    module: ModuleView,
    f: Frame,
    routine: usize,
    args: Seq<NodeView>,
    base: int,
) -> bool {
    &&& routine < module.routines.len()
    &&& args.len() == module.routines[routine as int].inout.len()
    &&& args_fit(module.routines[routine as int].inout, args)
    &&& f.offset <= base
    &&& nodes_ok(args, lim(module, Frame { length: base, ..f }))
}

/// Whether `task`, which is neither the leaving of a routine nor the bottom of
/// one, can be done with frame `f`.
pub open spec fn task_ok(module: ModuleView, task: TaskView, f: Frame) -> bool {
    let l = lim(module, f);
    let takes_one = f.height - 1 >= f.floor;
    frame_ok(f) && match task {
        TaskView::Eval(node) => node_ok(node, l),
        TaskView::Run(nodes, _) => nodes_ok(nodes, l),
        TaskView::Drop => takes_one,
        TaskView::Void => true,
        TaskView::Store(target) => target is Var && node_ok(target, l) && takes_one,
        TaskView::Apply(_) => f.height - 2 >= f.floor,
        TaskView::Try(branches, otherwise, _) => branches_ok(branches, l) && optional_ok(
            otherwise,
            l,
        ),
        TaskView::Choose(branches, otherwise, index) => branches_ok(branches, l) && optional_ok(
            otherwise,
            l,
        ) && index < branches.len() && index < usize::MAX && takes_one,
        TaskView::Loop(cond, body) => node_ok(cond, l) && nodes_ok(body, l) && takes_one,
        TaskView::ForInit(counter, to, body) => place_ok(counter, l) && node_ok(to, l)
            && nodes_ok(body, l) && takes_one,
        TaskView::ForLimit(counter, body) => place_ok(counter, l) && nodes_ok(body, l)
            && takes_one,
        TaskView::ForTest(counter, body, _) => place_ok(counter, l) && nodes_ok(body, l),
        TaskView::ForBody(counter, body, _) => place_ok(counter, l) && nodes_ok(body, l)
            && takes_one,
        TaskView::ForNext(counter, body, _) => place_ok(counter, l) && nodes_ok(body, l),
        TaskView::ForStore(counter, body, _) => place_ok(counter, l) && nodes_ok(body, l)
            && takes_one,
        TaskView::Alloc { routine, args, base, next } => call_ok(module, f, routine, args, base as int)
            && base + next <= f.length && next <= module.routines[routine as int].variables.len(),
        TaskView::Args { routine, args, base, next } => call_ok(module, f, routine, args, base as int)
            && base + module.routines[routine as int].variables.len() <= f.length && next
            <= args.len(),
        TaskView::Bind { routine, args, base, next } => call_ok(module, f, routine, args, base as int)
            && base + module.routines[routine as int].variables.len() <= f.length && next
            < args.len() && takes_one,
        _ => false,
    }
}

/// The frame for the tasks below `task`, when `task` and all that it brings
/// about is done.
pub open spec fn below(task: TaskView, f: Frame) -> Frame {
    match task {
        TaskView::Eval(_) => Frame { height: f.height + 1, ..f },
        TaskView::Void => Frame { height: f.height + 1, ..f },
        TaskView::Try(_, _, _) => Frame { height: f.height + 1, ..f },
        TaskView::ForTest(_, _, _) => Frame { height: f.height + 1, ..f },
        TaskView::ForNext(_, _, _) => Frame { height: f.height + 1, ..f },
        TaskView::Drop => Frame { height: f.height - 1, ..f },
        TaskView::Apply(_) => Frame { height: f.height - 1, ..f },
        TaskView::Alloc { base, .. } => Frame { length: base as int, height: f.height + 1, ..f },
        TaskView::Args { base, .. } => Frame { length: base as int, height: f.height + 1, ..f },
        TaskView::Bind { base, .. } => Frame { length: base as int, ..f },
        _ => f,
    }
}

/// Whether a routine with frame `f`, which was called as routine `routine` with
/// `args` by a routine whose activation record begins at `offset`, can hand its
/// `INOUT` parameters back: its own record is on the stack, the record of the
/// caller lies below it, and the arguments are nodes of the caller.
pub open spec fn return_ok(
    module: ModuleView,
    offset: usize,
    routine: usize,
    args: Seq<NodeView>,
    f: Frame,
) -> bool {
    &&& offset <= f.offset
    &&& routine < module.routines.len()
    &&& f.offset + module.routines[routine as int].variables.len() <= f.length
    &&& args.len() == module.routines[routine as int].inout.len()
    &&& args_fit(module.routines[routine as int].inout, args)
    &&& nodes_ok(
        args,
        lim(module, Frame { offset: offset as int, length: f.offset, height: 0, floor: 0 }),
    )
}

/// Whether a routine with frame `f` that leaves finds, in `task`, the bottom that
/// its caller put below it.
pub open spec fn leave_ok(module: ModuleView, task: TaskView, f: Frame) -> bool {
    task matches TaskView::Leave { offset, values, routine, args } && f.floor == values
        && return_ok(module, offset, routine, args, f)
}

/// Whether `tasks` can be done from the top with frame `f`.
pub open spec fn tasks_ok(module: ModuleView, tasks: Seq<TaskView>, f: Frame) -> bool
    decreases tasks.len(), 1int,
{
    if tasks.len() == 0 {
        false
    } else {
        match tasks.last() {
            TaskView::Exit => frame_ok(f) && f.height - 1 >= f.floor && exit_ok(
                module,
                tasks.drop_last(),
                f,
            ),
            task => task_ok(module, task, f) && tasks_ok(module, tasks.drop_last(), below(task, f)),
        }
    }
}

/// Whether a routine with frame `f` that leaves finds its bottom in `tasks`, and
/// the tasks of its caller below can be done when it has left.
pub open spec fn exit_ok(module: ModuleView, tasks: Seq<TaskView>, f: Frame) -> bool
    decreases tasks.len(), 0int,
{
    if tasks.len() == 0 {
        false
    } else {
        match tasks.last() {
            TaskView::Halt => tasks.len() == 1 && f.floor == 0,
            TaskView::Leave { offset, values, .. } => leave_ok(module, tasks.last(), f) && tasks_ok(
                module,
                tasks.drop_last(),
                Frame {
                    offset: offset as int,
                    length: f.offset,
                    height: values + 1,
                    floor: floor_of(tasks.drop_last()),
                },
            ),
            _ => exit_ok(module, tasks.drop_last(), f),
        }
    }
}

/// The frame of the routine that runs.
pub open spec fn top(m: MachineView) -> Frame {
    Frame {
        offset: m.stack.offset as int,
        length: m.stack.variables.len() as int,
        height: m.values.len() + if m.waiting == Waiting::Nothing {
            0int
        } else {
            1int
        },
        floor: floor_of(m.tasks),
    }
}

/// Whether the machine is sound: see the head of this file.
pub open spec fn sound(m: MachineView) -> bool {
    &&& module_ok(m.module)
    &&& m.shared.len() == m.module.variables.len()
    &&& m.tasks.len() == 0 ==> m.waiting == Waiting::Nothing
    &&& m.tasks.len() > 0 ==> match m.tasks.last() {
        TaskView::Restore { offset, routine, args, .. } => {
            let f = top(m);
            &&& m.waiting == Waiting::Nothing
            &&& frame_ok(f)
            &&& return_ok(m.module, offset, routine, args, f)
            &&& tasks_ok(
                m.module,
                m.tasks.drop_last(),
                Frame { offset: offset as int, length: f.offset, height: f.height, floor: f.floor },
            )
        },
        _ => tasks_ok(m.module, m.tasks, top(m)),
    }
}

/// Whether the stacks of the machine are of a size that a machine can hold.
pub open spec fn holdable(m: MachineView) -> bool {
    m.stack.variables.len() <= usize::MAX && m.values.len() <= usize::MAX
}

/// Whether the answer of a step is none of the faults that a sound machine
/// excludes.
pub open spec fn faultless(action: ActionView) -> bool {
    action matches ActionView::Failed(e) ==> e == EvalError::TypeMismatch || e
        == EvalError::BadReply
}

/// What adding a task on top means for the tasks.
pub proof fn lemma_push(module: ModuleView, tasks: Seq<TaskView>, task: TaskView, f: Frame)
    ensures
        tasks.push(task).drop_last() == tasks,
        tasks.push(task).last() == task,
        !(task is Exit) ==> tasks_ok(module, tasks.push(task), f) == (task_ok(module, task, f)
            && tasks_ok(module, tasks, below(task, f))),
        task is Exit ==> tasks_ok(module, tasks.push(task), f) == (frame_ok(f) && f.height - 1
            >= f.floor && exit_ok(module, tasks, f)),
        floor_of(tasks.push(task)) == (match task {
            TaskView::Leave { values, .. } => values as int,
            TaskView::Halt => 0,
            _ => floor_of(tasks),
        }),
        !(task is Halt) && !(task is Leave) ==> exit_ok(module, tasks.push(task), f) == exit_ok(
            module,
            tasks,
            f,
        ),
{
    assert(tasks.push(task).drop_last() =~= tasks);
}

/// A routine that finds its bottom with a frame finds it with a longer stack of
/// variables and with more values.
pub proof fn lemma_exit_longer(module: ModuleView, tasks: Seq<TaskView>, f: Frame, g: Frame)
    requires
        exit_ok(module, tasks, f),
        g.offset == f.offset,
        g.floor == f.floor,
        g.length >= f.length,
    ensures
        exit_ok(module, tasks, g),
    decreases tasks.len(),
{
    match tasks.last() {
        TaskView::Halt => {},
        TaskView::Leave { .. } => {},
        _ => lemma_exit_longer(module, tasks.drop_last(), f, g),
    }
}

/// Below tasks that can be done lies the bottom of their routine.
pub proof fn lemma_exit_from_ok(module: ModuleView, tasks: Seq<TaskView>, f: Frame, g: Frame)
    requires
        tasks_ok(module, tasks, f),
        g.offset == f.offset,
        g.floor == f.floor,
        g.length >= f.length,
    ensures
        exit_ok(module, tasks, g),
    decreases tasks.len(),
{
    let rest = tasks.drop_last();
    match tasks.last() {
        TaskView::Exit => lemma_exit_longer(module, rest, f, g),
        task => lemma_exit_from_ok(module, rest, below(task, f), g),
    }
}

/// What the step lemmas ask of the machine `m`, from which the task that is being
/// done is taken, and of the frame `f` of that task.
pub open spec fn fits(m: MachineView, f: Frame) -> bool {
    &&& module_ok(m.module)
    &&& m.shared.len() == m.module.variables.len()
    &&& holdable(m)
    &&& m.waiting == Waiting::Nothing
    &&& frame_ok(f)
    &&& f.offset == m.stack.offset
    &&& f.length == m.stack.variables.len()
    &&& f.floor == floor_of(m.tasks)
}

/// A machine whose tasks can be done with the frame on top is sound.
pub proof fn lemma_sound(n: MachineView)
    requires
        module_ok(n.module),
        n.shared.len() == n.module.variables.len(),
        n.tasks.len() > 0,
        !(n.tasks.last() is Restore),
        tasks_ok(n.module, n.tasks, top(n)),
    ensures
        sound(n),
{
}

/// The evaluation of a node of a sound machine keeps it sound and is faultless.
pub proof fn lemma_eval_sound(m: MachineView, node: NodeView, f: Frame)
    requires
        fits(m, f),
        f.height == m.values.len(),
        node_ok(node, lim(m.module, f)),
        tasks_ok(m.module, m.tasks, Frame { height: f.height + 1, ..f }),
    ensures
        sound(eval_of(m, node).0),
        faultless(eval_of(m, node).1),
{
    let module = m.module;
    let l = lim(module, f);
    let up = Frame { height: f.height + 1, ..f };
    let n = eval_of(m, node).0;
    match node {
        NodeView::Value(_) => {
            lemma_sound(n);
        },
        NodeView::Var(_) => {
            lemma_sound(n);
        },
        NodeView::Print(_) => {
            lemma_sound(n);
        },
        NodeView::Assign { lhs, rhs } => {
            let store = TaskView::Store(*lhs);
            lemma_push(module, m.tasks, store, up);
            lemma_push(module, m.tasks.push(store), TaskView::Eval(*rhs), f);
            lemma_sound(n);
        },
        NodeView::If { branches, otherwise } => {
            lemma_push(module, m.tasks, TaskView::Try(branches, otherwise, 0), f);
            lemma_sound(n);
        },
        NodeView::While { cond, body } => {
            let again = TaskView::Loop(*cond, body);
            lemma_push(module, m.tasks, again, up);
            lemma_push(module, m.tasks.push(again), TaskView::Eval(*cond), f);
            lemma_sound(n);
        },
        NodeView::For { counter, from, to, body } => {
            let init = TaskView::ForInit(counter, *to, body);
            lemma_push(module, m.tasks, init, up);
            lemma_push(module, m.tasks.push(init), TaskView::Eval(*from), f);
            lemma_sound(n);
        },
        NodeView::Return(None) => {
            lemma_exit_from_ok(module, m.tasks, up, up);
            lemma_push(module, m.tasks, TaskView::Exit, up);
            lemma_sound(n);
        },
        NodeView::Return(Some(value)) => {
            lemma_exit_from_ok(module, m.tasks, up, up);
            lemma_push(module, m.tasks, TaskView::Exit, up);
            lemma_push(module, m.tasks.push(TaskView::Exit), TaskView::Eval(*value), f);
            lemma_sound(n);
        },
        NodeView::ProcCall { routine, args } => {
            let alloc = TaskView::Alloc {
                routine,
                args,
                base: m.stack.variables.len() as usize,
                next: 0,
            };
            lemma_push(module, m.tasks, alloc, f);
            lemma_sound(n);
        },
        _ => {
            match operation(node) {
                Some((op, lhs, rhs)) => {
                    let two = Frame { height: f.height + 2, ..f };
                    let apply = TaskView::Apply(op);
                    lemma_push(module, m.tasks, apply, two);
                    lemma_push(module, m.tasks.push(apply), TaskView::Eval(rhs), up);
                    lemma_push(
                        module,
                        m.tasks.push(apply).push(TaskView::Eval(rhs)),
                        TaskView::Eval(lhs),
                        f,
                    );
                    lemma_sound(n);
                },
                None => {},
            }
        },
    }
}

/// A step that takes a value keeps a sound machine sound and is faultless.
/// `rest` is the machine without the task and without the value.
pub proof fn lemma_take_sound(rest: MachineView, task: TaskView, v: Value, g: Frame)
    requires
        fits(rest, g),
        g.height == rest.values.len(),
        takes(task),
        task_ok(rest.module, task, Frame { height: g.height + 1, ..g }),
        tasks_ok(rest.module, rest.tasks, below(task, Frame { height: g.height + 1, ..g })),
    ensures
        sound(take_of(rest, task, v).0),
        faultless(take_of(rest, task, v).1),
{
    let module = rest.module;
    let up = Frame { height: g.height + 1, ..g };
    let n = take_of(rest, task, v).0;
    match task {
        TaskView::Drop => {
            lemma_sound(n);
        },
        TaskView::Store(target) => {
            if n.tasks.len() > 0 {
                lemma_sound(n);
            }
        },
        TaskView::Apply(op) => {
            if n.tasks.len() > 0 {
                lemma_sound(n);
            }
        },
        TaskView::Choose(branches, otherwise, index) => {
            match v {
                Value::Bool(true) => {
                    let body = branches[index as int].body;
                    assert(branch_ok(branches[index as int], lim(module, g)));
                    lemma_push(module, rest.tasks, TaskView::Void, g);
                    lemma_push(module, rest.tasks.push(TaskView::Void), TaskView::Run(body, 0), g);
                    lemma_sound(n);
                },
                Value::Bool(false) => {
                    lemma_push(
                        module,
                        rest.tasks,
                        TaskView::Try(branches, otherwise, (index + 1) as usize),
                        g,
                    );
                    lemma_sound(n);
                },
                _ => {},
            }
        },
        TaskView::Loop(cond, body) => {
            match v {
                Value::Bool(true) => {
                    let again = TaskView::Loop(cond, body);
                    lemma_push(module, rest.tasks, again, up);
                    lemma_push(module, rest.tasks.push(again), TaskView::Eval(cond), g);
                    lemma_push(
                        module,
                        rest.tasks.push(again).push(TaskView::Eval(cond)),
                        TaskView::Run(body, 0),
                        g,
                    );
                    lemma_sound(n);
                },
                Value::Bool(false) => {
                    lemma_sound(n);
                },
                _ => {},
            }
        },
        TaskView::ForInit(counter, to, body) => {
            if n.tasks.len() > 0 {
                let limit = TaskView::ForLimit(counter, body);
                lemma_push(module, rest.tasks, limit, up);
                lemma_push(module, rest.tasks.push(limit), TaskView::Eval(to), g);
                lemma_sound(n);
            }
        },
        TaskView::ForLimit(counter, body) => {
            match v {
                Value::Num(limit) => {
                    lemma_push(module, rest.tasks, TaskView::ForTest(counter, body, limit), g);
                    lemma_sound(n);
                },
                _ => {},
            }
        },
        TaskView::ForBody(counter, body, limit) => {
            match v {
                Value::Bool(true) => {
                    let step = TaskView::ForNext(counter, body, limit);
                    lemma_push(module, rest.tasks, step, g);
                    lemma_push(module, rest.tasks.push(step), TaskView::Run(body, 0), g);
                    lemma_sound(n);
                },
                Value::Bool(false) => {
                    lemma_sound(n);
                },
                _ => {},
            }
        },
        TaskView::ForStore(counter, body, limit) => {
            if n.tasks.len() > 0 {
                lemma_push(module, rest.tasks, TaskView::ForTest(counter, body, limit), g);
                lemma_sound(n);
            }
        },
        TaskView::Bind { routine, args, base, next } => {
            assert(routine_ok(module.routines[routine as int], module));
            if n.tasks.len() > 0 {
                lemma_push(
                    module,
                    rest.tasks,
                    TaskView::Args { routine, args, base, next: (next + 1) as usize },
                    g,
                );
                lemma_sound(n);
            }
        },
        _ => {},
    }
}

/// A step of a counted loop that asks the host keeps a sound machine sound and
/// is faultless.
pub proof fn lemma_ask_sound(m: MachineView, task: TaskView, f: Frame)
    requires
        fits(m, f),
        f.height == m.values.len(),
        task is ForTest || task is ForNext,
        task_ok(m.module, task, f),
        tasks_ok(m.module, m.tasks, below(task, f)),
    ensures
        sound(ask_of(m, task).0),
        faultless(ask_of(m, task).1),
{
    let module = m.module;
    let n = ask_of(m, task).0;
    let up = Frame { height: f.height + 1, ..f };
    match task {
        TaskView::ForTest(counter, body, limit) => {
            if n.tasks.len() > 0 {
                lemma_push(module, m.tasks, TaskView::ForBody(counter, body, limit), up);
                lemma_sound(n);
            }
        },
        TaskView::ForNext(counter, body, limit) => {
            if n.tasks.len() > 0 {
                lemma_push(module, m.tasks, TaskView::ForStore(counter, body, limit), up);
                lemma_sound(n);
            }
        },
        _ => {},
    }
}

/// A step of a call before the routine is entered keeps a sound machine sound and
/// is faultless.
pub proof fn lemma_call_sound(m: MachineView, task: TaskView, f: Frame)
    requires
        fits(m, f),
        f.height == m.values.len(),
        task is Alloc || task is Args,
        task_ok(m.module, task, f),
        tasks_ok(m.module, m.tasks, below(task, f)),
        call_of(m, task).0.stack.variables.len() <= usize::MAX,
    ensures
        sound(call_of(m, task).0),
        faultless(call_of(m, task).1),
{
    let module = m.module;
    let n = call_of(m, task).0;
    match task {
        TaskView::Alloc { routine, args, base, next } => {
            let callee = module.routines[routine as int];
            if next < callee.variables.len() && next < usize::MAX {
                let more = TaskView::Alloc { routine, args, base, next: (next + 1) as usize };
                lemma_push(module, m.tasks, more, top(n));
                lemma_sound(n);
            } else {
                lemma_push(
                    module,
                    m.tasks,
                    TaskView::Args { routine, args, base, next: 0 },
                    top(n),
                );
                lemma_sound(n);
            }
        },
        TaskView::Args { routine, args, base, next } => {
            let callee = module.routines[routine as int];
            assert(routine_ok(callee, module));
            if next < args.len() {
                let bind = TaskView::Bind { routine, args, base, next };
                let up = Frame { height: f.height + 1, ..f };
                lemma_node_wider(
                    args[next as int],
                    lim(module, Frame { length: base as int, ..f }),
                    lim(module, f),
                );
                lemma_push(module, m.tasks, bind, up);
                lemma_push(module, m.tasks.push(bind), TaskView::Eval(args[next as int]), f);
                lemma_sound(n);
            } else {
                let leave = TaskView::Leave {
                    offset: m.stack.offset,
                    values: m.values.len() as usize,
                    routine,
                    args,
                };
                let inner = Frame {
                    offset: base as int,
                    length: f.length,
                    height: f.height,
                    floor: f.height,
                };
                let up = Frame { height: f.height + 1, ..inner };
                let bottom = m.tasks.push(leave);
                lemma_nodes_wider(
                    callee.nodes,
                    Limits {
                        slots: callee.variables.len(),
                        shared: module.variables.len(),
                        routines: flags_of(module.routines),
                    },
                    lim(module, inner),
                );
                lemma_push(module, m.tasks, leave, up);
                assert(leave_ok(module, leave, up));
                assert(exit_ok(module, bottom, up));
                lemma_push(module, bottom, TaskView::Exit, up);
                lemma_push(module, bottom.push(TaskView::Exit), TaskView::Void, inner);
                lemma_push(
                    module,
                    bottom.push(TaskView::Exit).push(TaskView::Void),
                    TaskView::Run(callee.nodes, 0),
                    inner,
                );
                assert(top(n) == inner);
                lemma_sound(n);
            }
        },
        _ => {},
    }
}

/// The step that leaves a routine keeps a sound machine sound and is faultless.
/// `m` is the machine without the `Exit` task.
pub proof fn lemma_exit_sound(m: MachineView, f: Frame)
    requires
        fits(m, f),
        f.height == m.values.len(),
        f.height - 1 >= f.floor,
        exit_ok(m.module, m.tasks, f),
    ensures
        sound(exit_of(m).0),
        faultless(exit_of(m).1),
{
    let module = m.module;
    let n = exit_of(m).0;
    let rest = m.tasks.drop_last();
    match m.tasks.last() {
        TaskView::Halt => {},
        TaskView::Leave { offset, values, routine, args } => {
            let restore = TaskView::Restore { offset, routine, args, next: 0 };
            lemma_push(module, rest, restore, f);
            assert(n.tasks == rest.push(restore));
            assert(n.values.len() == values + 1);
            let t = top(n);
            assert(t.floor == floor_of(rest));
            assert(tasks_ok(
                module,
                rest,
                Frame { offset: offset as int, length: f.offset, height: values + 1, floor: floor_of(rest) },
            ));
            assert(frame_ok(t));
            assert(return_ok(module, offset, routine, args, t));
            assert(sound(n));
        },
        _ => {
            lemma_push(module, rest, TaskView::Exit, f);
            assert(tasks_ok(module, n.tasks, top(n)));
            lemma_sound(n);
        },
    }
}

/// The step after a routine is left keeps a sound machine sound and is faultless.
/// `m` is the machine without the `Restore` task.
pub proof fn lemma_restore_sound(
    m: MachineView,
    offset: usize,
    routine: usize,
    args: Seq<NodeView>,
    next: usize,
    f: Frame,
)
    requires
        fits(m, f),
        f.height == m.values.len(),
        return_ok(m.module, offset, routine, args, f),
        tasks_ok(
            m.module,
            m.tasks,
            Frame { offset: offset as int, length: f.offset, height: f.height, floor: f.floor },
        ),
    ensures
        sound(restore_of(m, offset, routine, args, next).0),
        faultless(restore_of(m, offset, routine, args, next).1),
{
    let module = m.module;
    let n = restore_of(m, offset, routine, args, next).0;
    let callee = module.routines[routine as int];
    assert(routine_ok(callee, module));
    if next < callee.inout.len() && next < args.len() && next < usize::MAX {
        let again = TaskView::Restore { offset, routine, args, next: (next + 1) as usize };
        lemma_push(module, m.tasks, again, f);
        if callee.inout[next as int] {
            let caller = lim(
                module,
                Frame { offset: offset as int, length: f.offset, height: 0, floor: 0 },
            );
            assert(node_ok(args[next as int], caller));
            assert(args[next as int] is Var);
        }
    } else {
        lemma_sound(n);
    }
}

/// The step that does a task keeps a sound machine sound and is faultless. `m` is
/// the machine without the task.
pub proof fn lemma_task_sound(m: MachineView, task: TaskView, f: Frame)
    requires
        fits(m, f),
        f.height == m.values.len(),
        !(task is Restore),
        tasks_ok(m.module, m.tasks.push(task), f),
        task_of(m, task).0.stack.variables.len() <= usize::MAX,
    ensures
        sound(task_of(m, task).0),
        faultless(task_of(m, task).1),
{
    let module = m.module;
    let n = task_of(m, task).0;
    lemma_push(module, m.tasks, task, f);
    if takes(task) {
        let rest = m.pop_value();
        lemma_take_sound(rest, task, m.values.last(), Frame { height: f.height - 1, ..f });
    } else {
        match task {
            TaskView::Eval(node) => lemma_eval_sound(m, node, f),
            TaskView::Run(nodes, from) => {
                if from < nodes.len() && from < usize::MAX {
                    let more = TaskView::Run(nodes, (from + 1) as usize);
                    lemma_push(module, m.tasks, more, f);
                    lemma_push(module, m.tasks.push(more), TaskView::Drop, Frame { height: f.height + 1, ..f });
                    lemma_push(
                        module,
                        m.tasks.push(more).push(TaskView::Drop),
                        TaskView::Eval(nodes[from as int]),
                        f,
                    );
                    lemma_sound(n);
                } else {
                    lemma_sound(n);
                }
            },
            TaskView::Void => {
                lemma_sound(n);
            },
            TaskView::Try(branches, otherwise, index) => {
                let up = Frame { height: f.height + 1, ..f };
                if index < branches.len() && index < usize::MAX {
                    let choose = TaskView::Choose(branches, otherwise, index);
                    assert(branch_ok(branches[index as int], lim(module, f)));
                    lemma_push(module, m.tasks, choose, up);
                    lemma_push(
                        module,
                        m.tasks.push(choose),
                        TaskView::Eval(branches[index as int].cond),
                        f,
                    );
                    lemma_sound(n);
                } else {
                    match otherwise {
                        Some(nodes) => {
                            lemma_push(module, m.tasks, TaskView::Void, f);
                            lemma_push(
                                module,
                                m.tasks.push(TaskView::Void),
                                TaskView::Run(nodes, 0),
                                f,
                            );
                            lemma_sound(n);
                        },
                        None => {
                            lemma_sound(n);
                        },
                    }
                }
            },
            TaskView::ForTest(_, _, _) => lemma_ask_sound(m, task, f),
            TaskView::ForNext(_, _, _) => lemma_ask_sound(m, task, f),
            TaskView::Exit => lemma_exit_sound(m, f),
            TaskView::Alloc { .. } => lemma_call_sound(m, task, f),
            TaskView::Args { .. } => lemma_call_sound(m, task, f),
            _ => {},
        }
    }
}

/// Every step keeps a sound machine sound, and a step of a sound machine fails
/// only where a value is of the wrong kind or the host breaks the protocol: no
/// slot lies outside its activation record, no call goes astray, and the stacks
/// of the machine hold what its tasks take.
pub proof fn lemma_step_sound(m: MachineView, reply: Option<Value>)
    requires
        sound(m),
        holdable(m),
        holdable(step_of(m, reply).0),
    ensures
        sound(step_of(m, reply).0),
        faultless(step_of(m, reply).1),
{
    let n = step_of(m, reply).0;
    if m.waiting == Waiting::Nothing && reply is None && m.tasks.len() > 0 {
        let task = m.tasks.last();
        let rest = MachineView { tasks: m.tasks.drop_last(), ..m };
        let f = top(m);
        assert(m.tasks =~= rest.tasks.push(task));
        lemma_push(m.module, rest.tasks, task, f);
        match task {
            TaskView::Restore { offset, routine, args, next } => {
                lemma_restore_sound(rest, offset, routine, args, next, f);
            },
            _ => {
                lemma_task_sound(rest, task, f);
            },
        }
    }
}

/// A machine that is started on a module that stays within itself, with a stack
/// that holds the activation record of the routine, is sound.
pub proof fn lemma_started_sound(module: ModuleView, routine: int, stack: StackView)
    requires
        module_ok(module),
        0 <= routine < module.routines.len(),
        stack.offset + module.routines[routine].variables.len() <= stack.variables.len(),
    ensures
        sound(started(module, routine, stack)),
{
    let m = started(module, routine, stack);
    let callee = module.routines[routine];
    assert(routine_ok(callee, module));
    let f = top(m);
    let none = Seq::<TaskView>::empty();
    let halt = none.push(TaskView::Halt);
    assert(m.tasks =~= halt.push(TaskView::Exit).push(TaskView::Void).push(
        TaskView::Run(callee.nodes, 0),
    ));
    lemma_nodes_wider(
        callee.nodes,
        Limits {
            slots: callee.variables.len(),
            shared: module.variables.len(),
            routines: flags_of(module.routines),
        },
        lim(module, f),
    );
    let up = Frame { height: f.height + 1, ..f };
    lemma_push(module, none, TaskView::Halt, up);
    lemma_push(module, halt, TaskView::Exit, up);
    lemma_push(module, halt.push(TaskView::Exit), TaskView::Void, f);
    lemma_push(
        module,
        halt.push(TaskView::Exit).push(TaskView::Void),
        TaskView::Run(callee.nodes, 0),
        f,
    );
    assert(exit_ok(module, halt, up));
    lemma_sound(m);
}

/// A routine of a program that parses starts sound: the machine that is started
/// on a module of the program, for one of its routines, with the stack that
/// `framed` makes for some arguments, is sound. With `lemma_step_sound` it
/// follows that such a routine never leaves its activation record, whatever it
/// does.
pub proof fn lemma_parsed_starts_sound(
    tokens: Seq<TokenView>,
    numbers: Seq<Option<u64>>,
    index: int,
    routine: int,
    args: Seq<Value>,
)
    requires
        tokens.len() <= usize::MAX,
        parsed(tokens, numbers) is Ok,
        0 <= index < parsed(tokens, numbers)->Ok_0.len(),
        0 <= routine < parsed(tokens, numbers)->Ok_0[index].routines.len(),
        framed(parsed(tokens, numbers)->Ok_0[index].routines[routine], args) is Some,
    ensures
        sound(
            started(
                parsed(tokens, numbers)->Ok_0[index],
                routine,
                framed(parsed(tokens, numbers)->Ok_0[index].routines[routine], args)->0,
            ),
        ),
{
    lemma_parsed_ok(tokens, numbers);
    let module = parsed(tokens, numbers)->Ok_0[index];
    lemma_started_sound(module, routine, framed(module.routines[routine], args)->0);
}

} // verus!
