//! How a routine takes its course: what follows from the single steps for the
//! order of the statements, for the diagnostic writes and for the ways in which a
//! routine ends.
use crate::ast::{NodeView, Place};
use crate::machine::{
    eval_of, restore_of, step_of, task_of, ActionView, MachineView, TaskView, Waiting,
};
use crate::value::Value;
use vstd::prelude::*;

verus! {

/// The machine after `n` steps to which the host hands nothing.
pub open spec fn after(m: MachineView, n: nat) -> MachineView
    decreases n,
{
    if n == 0 {
        m
    } else {
        after(step_of(m, None).0, (n - 1) as nat)
    }
}

/// Statements run in the order of the text: the step that runs a list of
/// statements from index `from` on schedules statement `from`, then the
/// forgetting of its value, then the rest of the list, and does nothing else.
pub proof fn lemma_statements_in_order(m: MachineView, nodes: Seq<NodeView>, from: usize)
    requires
        m.waiting == Waiting::Nothing,
        m.tasks.len() > 0,
        m.tasks.last() == TaskView::Run(nodes, from),
        from < nodes.len(),
        from < usize::MAX,
    ensures
        step_of(m, None).1 == ActionView::Continue,
        step_of(m, None).0 == (MachineView {
            tasks: m.tasks.drop_last().push(TaskView::Run(nodes, (from + 1) as usize)).push(
                TaskView::Drop,
            ).push(TaskView::Eval(nodes[from as int])),
            ..m
        }),
{
}

/// A diagnostic write hands the value of its variable to the host and changes no
/// variable.
pub proof fn lemma_write(m: MachineView, place: Place)
    requires
        m.waiting == Waiting::Nothing,
        m.tasks.len() > 0,
        m.tasks.last() == TaskView::Eval(NodeView::Print(place)),
        m.read(place) is Some,
    ensures
        step_of(m, None).1 == ActionView::Write(m.read(place)->0),
        step_of(m, None).0 == (MachineView {
            tasks: m.tasks.drop_last(),
            values: m.values.push(Value::Void),
            ..m
        }),
{
}

/// Only a diagnostic write writes: a step that answers with a write has taken a
/// write statement from the stack of tasks, and it answers with one value.
pub proof fn lemma_only_write_writes(m: MachineView, reply: Option<Value>)
    requires
        step_of(m, reply).1 is Write,
    ensures
        m.tasks.len() > 0,
        m.tasks.last() matches TaskView::Eval(NodeView::Print(place)) && step_of(m, reply).1
            == ActionView::Write(m.read(place)->0),
{
    let rest = MachineView { tasks: m.tasks.drop_last(), ..m };
    let task = m.tasks.last();
    assert(step_of(m, reply) == task_of(rest, task));
    match task {
        TaskView::Eval(node) => {
            assert(task_of(rest, task) == eval_of(rest, node));
        },
        _ => {},
    }
}

/// Whether the tasks above the bottom of `tasks` are those of the routine that
/// the machine was started with, and it is about to leave.
pub open spec fn leaving(tasks: Seq<TaskView>) -> bool {
    &&& tasks.len() >= 2
    &&& tasks[0] is Halt
    &&& tasks.last() is Exit
    &&& forall|i: int| 0 < i < tasks.len() - 1 ==> !(tasks[i] is Halt) && !(tasks[i] is Leave)
}

/// A return skips all that is left of its routine. When the routine that the
/// machine was started with is about to leave with a result, the machine forgets
/// one task with each step, changes no variable, writes nothing, and answers
/// with the result when it has reached the bottom.
pub proof fn lemma_return_skips(m: MachineView)
    requires
        m.waiting == Waiting::Nothing,
        leaving(m.tasks),
        m.values.len() > 0,
    ensures
        forall|k: nat|
            #![trigger after(m, k)]
            k + 2 < m.tasks.len() ==> step_of(after(m, k), None).1 == ActionView::Continue,
        forall|k: nat|
            #![trigger after(m, k)]
            k + 2 <= m.tasks.len() ==> after(m, k).stack == m.stack && after(m, k).shared
                == m.shared && after(m, k).values == m.values,
        step_of(after(m, (m.tasks.len() - 2) as nat), None).1 == ActionView::Done(
            m.values.last(),
        ),
    decreases m.tasks.len(),
{
    let next = step_of(m, None).0;
    let rest = MachineView { tasks: m.tasks.drop_last(), ..m };
    assert(step_of(m, None) == task_of(rest, TaskView::Exit));
    if m.tasks.len() == 2 {
        assert(rest.tasks.last() is Halt);
        assert forall|k: nat| #![trigger after(m, k)] k + 2 <= m.tasks.len() implies after(m, k)
            == m by {
            assert(k == 0);
        }
    } else {
        let below = rest.tasks.last();
        assert(below == m.tasks[m.tasks.len() - 2]);
        assert(!(below is Halt) && !(below is Leave));
        assert(next == MachineView { tasks: rest.tasks.drop_last().push(TaskView::Exit), ..m });
        assert(leaving(next.tasks));
        lemma_return_skips(next);
        assert forall|k: nat| #![trigger after(m, k)] k + 2 < m.tasks.len() implies step_of(
            after(m, k),
            None,
        ).1 == ActionView::Continue by {
            if k > 0 {
                assert(after(m, k) == after(next, (k - 1) as nat));
            }
        }
        assert forall|k: nat| #![trigger after(m, k)] k + 2 <= m.tasks.len() implies after(
            m,
            k,
        ).stack == m.stack && after(m, k).shared == m.shared && after(m, k).values
            == m.values by {
            if k > 0 {
                assert(after(m, k) == after(next, (k - 1) as nat));
            }
        }
        assert(after(m, (m.tasks.len() - 2) as nat) == after(
            next,
            (next.tasks.len() - 2) as nat,
        ));
    }
}

/// A routine that comes to the end of its statements yields `Void`: when the
/// routine that the machine was started with has run its last statement, the
/// third step answers that it is done, with `Void` as its result, and the two
/// steps before write nothing and change no variable.
pub proof fn lemma_fall_through(m: MachineView, nodes: Seq<NodeView>)
    requires
        m.waiting == Waiting::Nothing,
        m.tasks == seq![
            TaskView::Halt,
            TaskView::Exit,
            TaskView::Void,
            TaskView::Run(nodes, nodes.len() as usize),
        ],
        nodes.len() <= usize::MAX,
    ensures
        step_of(m, None).1 == ActionView::Continue,
        step_of(after(m, 1), None).1 == ActionView::Continue,
        step_of(after(m, 2), None).1 == ActionView::Done(Value::Void),
        after(m, 2).stack == m.stack,
        after(m, 2).shared == m.shared,
{
    let first = step_of(m, None).0;
    assert(m.tasks.drop_last() =~= seq![TaskView::Halt, TaskView::Exit, TaskView::Void]);
    assert(first.tasks == seq![TaskView::Halt, TaskView::Exit, TaskView::Void]);
    let second = step_of(first, None).0;
    assert(first.tasks.drop_last() =~= seq![TaskView::Halt, TaskView::Exit]);
    assert(second.tasks == seq![TaskView::Halt, TaskView::Exit]);
    assert(second.values == m.values.push(Value::Void));
    assert(second.tasks.drop_last() =~= seq![TaskView::Halt]);
    assert(after(m, 1) == first) by {
        assert(after(first, 0) == first);
    }
    assert(after(m, 2) == second) by {
        assert(after(second, 0) == second);
        assert(after(first, 1) == second);
    }
}

/// What a routine assigns to its own slots stays in its activation record: an
/// assignment to slot `slot` changes the position `offset + slot` of the stack
/// and nothing else, so no variable of a caller, whose record lies below.
pub proof fn lemma_locals_stay_in_frame(m: MachineView, slot: usize, v: Value)
    requires
        m.write(Place::Local(slot), v) is Ok,
    ensures
        ({
            let stored = m.write(Place::Local(slot), v)->Ok_0;
            &&& stored.shared == m.shared
            &&& stored.stack.offset == m.stack.offset
            &&& stored.stack.variables.len() == m.stack.variables.len()
            &&& stored.stack.variables[m.stack.offset + slot] == v
            &&& forall|j: int|
                0 <= j < m.stack.variables.len() && j != m.stack.offset + slot
                    ==> stored.stack.variables[j] == m.stack.variables[j]
        }),
{
}

/// The value of an `INOUT` parameter goes back to the caller. After a routine is
/// left, the step for parameter `next`, which is `INOUT` and was given the
/// variable at `place`, assigns the value that the parameter holds at last to
/// that variable of the caller, whose activation record begins at `offset`.
pub proof fn lemma_inout_goes_back(
    m: MachineView,
    offset: usize,
    routine: usize,
    args: Seq<NodeView>,
    next: usize,
    place: Place,
)
    requires
        routine < m.module.routines.len(),
        next < m.module.routines[routine as int].inout.len(),
        next < args.len(),
        next < usize::MAX,
        m.module.routines[routine as int].inout[next as int],
        args[next as int] == NodeView::Var(place),
        m.read(Place::Local(next)) is Some,
        m.write_at(offset, place, m.read(Place::Local(next))->0) is Ok,
    ensures
        restore_of(m, offset, routine, args, next).1 == ActionView::Continue,
        restore_of(m, offset, routine, args, next).0.read_at(offset, place) == m.read(
            Place::Local(next),
        ),
{
}

/// The value of a parameter that is not `INOUT` does not go back to the caller:
/// the step for such a parameter changes no variable.
pub proof fn lemma_by_value_stays(
    m: MachineView,
    offset: usize,
    routine: usize,
    args: Seq<NodeView>,
    next: usize,
)
    requires
        routine < m.module.routines.len(),
        next < m.module.routines[routine as int].inout.len(),
        next < args.len(),
        next < usize::MAX,
        !m.module.routines[routine as int].inout[next as int],
    ensures
        restore_of(m, offset, routine, args, next).1 == ActionView::Continue,
        restore_of(m, offset, routine, args, next).0.stack == m.stack,
        restore_of(m, offset, routine, args, next).0.shared == m.shared,
{
}

/// After the last parameter the activation record of the routine that was left is
/// taken from the stack: the stack holds what lies below that record, unchanged,
/// and the record of the caller is the current one again.
pub proof fn lemma_frame_is_discarded(
    m: MachineView,
    offset: usize,
    routine: usize,
    args: Seq<NodeView>,
    next: usize,
)
    requires
        routine < m.module.routines.len(),
        next >= m.module.routines[routine as int].inout.len() || next >= args.len() || next
            == usize::MAX,
        m.stack.offset <= m.stack.variables.len(),
    ensures
        restore_of(m, offset, routine, args, next).1 == ActionView::Continue,
        restore_of(m, offset, routine, args, next).0.stack.offset == offset,
        restore_of(m, offset, routine, args, next).0.stack.variables == m.stack.variables.subrange(
            0,
            m.stack.offset as int,
        ),
        restore_of(m, offset, routine, args, next).0.shared == m.shared,
{
}

} // verus!
