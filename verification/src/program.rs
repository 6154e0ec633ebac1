//! What the parser builds and the evaluator runs: slot tables, routines, modules,
//! programs, and the stack of values.
use crate::ast::{node_views, Node, NodeView};
use crate::value::{Value, Variable};
use vstd::prelude::*;

verus! {

/// One declared variable: its name and the value it starts with, which also
/// fixes its type.
#[derive(Debug, PartialEq, Eq)]
pub struct Slot {
    pub name: String,
    pub value: Variable,
}

/// The mathematical value of a [`Slot`].
pub struct SlotView {
    pub name: Seq<char>,
    pub value: Value,
}

impl View for Slot {
    type V = SlotView;

    open spec fn view(&self) -> SlotView {
        SlotView { name: self.name@, value: self.value@ }
    }
}

/// A table of declared variables in the order of their declarations. The index of
/// a declaration is its slot. A name may be declared again: the later declaration
/// gets a slot of its own and hides the earlier one from then on.
#[derive(Debug, PartialEq, Eq)]
pub struct Scope {
    pub slots: Vec<Slot>,
}

/// The slot that `name` resolves to in `scope`: the last declaration of the name.
pub open spec fn resolve(scope: Seq<SlotView>, name: Seq<char>) -> Option<usize>
    decreases scope.len(),
{
    if scope.len() == 0 {
        None
    } else if scope.last().name == name {
        Some((scope.len() - 1) as usize)
    } else {
        resolve(scope.drop_last(), name)
    }
}

/// A name resolves to the slot of its most recent declaration: to the greatest
/// index that declares it, and to nothing where no index does.
pub proof fn lemma_resolve(scope: Seq<SlotView>, name: Seq<char>)
    requires
        scope.len() <= usize::MAX,
    ensures
        match resolve(scope, name) {
            Some(slot) => slot < scope.len() && scope[slot as int].name == name && forall|j: int|
                slot < j < scope.len() ==> (#[trigger] scope[j]).name != name,
            None => forall|j: int| 0 <= j < scope.len() ==> (#[trigger] scope[j]).name != name,
        },
    decreases scope.len(),
{
    if scope.len() > 0 && scope.last().name != name {
        lemma_resolve(scope.drop_last(), name);
        assert forall|j: int| 0 <= j < scope.len() - 1 implies scope[j] == scope.drop_last()[j] by {}
    }
}

/// A declaration takes the next free slot, and from then on its name resolves to
/// that slot, while every other name resolves as before.
pub proof fn lemma_resolve_push(scope: Seq<SlotView>, slot: SlotView, name: Seq<char>)
    requires
        scope.len() < usize::MAX,
    ensures
        resolve(scope.push(slot), slot.name) == Some(scope.len() as usize),
        name != slot.name ==> resolve(scope.push(slot), name) == resolve(scope, name),
{
    assert(scope.push(slot).drop_last() =~= scope);
}

impl View for Scope {
    type V = Seq<SlotView>;

    open spec fn view(&self) -> Seq<SlotView> {
        Seq::new(self.slots@.len(), |i: int| self.slots@[i]@)
    }
}

impl Scope {
    /// A table without declarations.
    pub fn new() -> (r: Scope)
        ensures
            r@ == Seq::<SlotView>::empty(),
    {
        let r = Scope { slots: Vec::new() };
        assert(r@ =~= Seq::<SlotView>::empty());
        r
    }

    /// The number of slots.
    pub fn len(&self) -> (n: usize)
        ensures
            n == self@.len(),
    {
        self.slots.len()
    }

    /// Declares `name` with its first value and answers with its slot, which is
    /// the number of declarations before it.
    pub fn declare(&mut self, name: String, value: Variable) -> (slot: usize)
        ensures
            slot == old(self)@.len(),
            final(self)@ == old(self)@.push(SlotView { name: name@, value: value@ }),
    {
        let slot = self.slots.len();
        self.slots.push(Slot { name, value });
        assert(self@ =~= old(self)@.push(SlotView { name: name@, value: value@ }));
        slot
    }

    /// The slot of the most recent declaration of `name`, if it is declared.
    pub fn lookup(&self, name: &String) -> (r: Option<usize>)
        ensures
            r == resolve(self@, name@),
    {
        let mut i: usize = self.slots.len();
        proof {
            assert(self@.subrange(0, i as int) =~= self@);
        }
        while i > 0
            invariant
                i <= self.slots.len(),
                resolve(self@, name@) == resolve(self@.subrange(0, i as int), name@),
            decreases i,
        {
            proof {
                let head = self@.subrange(0, i as int);
                assert(head.last() == self.slots@[i - 1]@);
                assert(head.drop_last() =~= self@.subrange(0, i - 1));
            }
            if self.slots[i - 1].name == *name {
                return Some(i - 1);
            }
            i -= 1;
        }
        None
    }
}

/// A procedure or function: its name, its parameters, its table of variables and
/// its body. The parameters take the first slots of the table, in order;
/// `inout[k]` says whether parameter `k` hands its value back to the caller.
#[derive(Debug, PartialEq, Eq)]
pub struct Routine {
    pub name: String,
    pub inout: Vec<bool>,
    pub variables: Scope,
    pub nodes: Vec<Node>,
}

/// The mathematical value of a [`Routine`].
pub struct RoutineView {
    pub name: Seq<char>,
    pub inout: Seq<bool>,
    pub variables: Seq<SlotView>,
    pub nodes: Seq<NodeView>,
}

impl View for Routine {
    type V = RoutineView;

    open spec fn view(&self) -> RoutineView {
        RoutineView {
            name: self.name@,
            inout: self.inout@,
            variables: self.variables@,
            nodes: node_views(self.nodes@),
        }
    }
}

impl Routine {
    /// A routine of this name without parameters, variables or statements.
    pub fn new(name: String) -> (r: Routine)
        ensures
            r@ == (RoutineView {
                name: name@,
                inout: Seq::empty(),
                variables: Seq::empty(),
                nodes: Seq::empty(),
            }),
    {
        let r = Routine { name, inout: Vec::new(), variables: Scope::new(), nodes: Vec::new() };
        assert(node_views(r.nodes@) =~= Seq::<NodeView>::empty());
        r
    }
}

/// A module: its name, its routines in the order of their declarations, and the
/// variables that its routines share.
#[derive(Debug, PartialEq, Eq)]
pub struct Module {
    pub name: String,
    pub routines: Vec<Routine>,
    pub variables: Scope,
}

/// The mathematical value of a [`Module`].
pub struct ModuleView {
    pub name: Seq<char>,
    pub routines: Seq<RoutineView>,
    pub variables: Seq<SlotView>,
}

/// The mathematical values of a sequence of routines.
pub open spec fn routine_views(routines: Seq<Routine>) -> Seq<RoutineView> {
    Seq::new(routines.len(), |i: int| routines[i]@)
}

impl View for Module {
    type V = ModuleView;

    open spec fn view(&self) -> ModuleView {
        ModuleView {
            name: self.name@,
            routines: routine_views(self.routines@),
            variables: self.variables@,
        }
    }
}

/// The routine that `name` resolves to among `routines`: the last one of that
/// name.
pub open spec fn find_routine(routines: Seq<RoutineView>, name: Seq<char>) -> Option<usize>
    decreases routines.len(),
{
    if routines.len() == 0 {
        None
    } else if routines.last().name == name {
        Some((routines.len() - 1) as usize)
    } else {
        find_routine(routines.drop_last(), name)
    }
}

impl Module {
    /// A module of this name without routines or variables.
    pub fn new(name: String) -> (r: Module)
        ensures
            r@ == (ModuleView { name: name@, routines: Seq::empty(), variables: Seq::empty() }),
    {
        let r = Module { name, routines: Vec::new(), variables: Scope::new() };
        assert(routine_views(r.routines@) =~= Seq::<RoutineView>::empty());
        r
    }

    /// The index of the last routine of this name, if there is one.
    pub fn routine(&self, name: &String) -> (r: Option<usize>)
        ensures
            r == find_routine(self@.routines, name@),
    {
        let mut i: usize = self.routines.len();
        proof {
            assert(self@.routines.subrange(0, i as int) =~= self@.routines);
        }
        while i > 0
            invariant
                i <= self.routines.len(),
                find_routine(self@.routines, name@) == find_routine(
                    self@.routines.subrange(0, i as int),
                    name@,
                ),
            decreases i,
        {
            proof {
                let head = self@.routines.subrange(0, i as int);
                assert(head.last() == self.routines@[i - 1]@);
                assert(head.drop_last() =~= self@.routines.subrange(0, i - 1));
            }
            if self.routines[i - 1].name == *name {
                return Some(i - 1);
            }
            i -= 1;
        }
        None
    }
}

/// A program: its modules in the order of their declarations.
#[derive(Debug, PartialEq, Eq)]
pub struct Program {
    pub modules: Vec<Module>,
}

/// The mathematical values of a sequence of modules.
pub open spec fn module_views(modules: Seq<Module>) -> Seq<ModuleView> {
    Seq::new(modules.len(), |i: int| modules[i]@)
}

/// The module that `name` resolves to among `modules`: the last one of that name.
pub open spec fn find_module(modules: Seq<ModuleView>, name: Seq<char>) -> Option<usize>
    decreases modules.len(),
{
    if modules.len() == 0 {
        None
    } else if modules.last().name == name {
        Some((modules.len() - 1) as usize)
    } else {
        find_module(modules.drop_last(), name)
    }
}

impl View for Program {
    type V = Seq<ModuleView>;

    open spec fn view(&self) -> Seq<ModuleView> {
        module_views(self.modules@)
    }
}

impl Program {
    /// A program without modules.
    pub fn new() -> (r: Program)
        ensures
            r@ == Seq::<ModuleView>::empty(),
    {
        let r = Program { modules: Vec::new() };
        assert(r@ =~= Seq::<ModuleView>::empty());
        r
    }

    /// The index of the last module of this name, if there is one.
    pub fn module(&self, name: &String) -> (r: Option<usize>)
        ensures
            r == find_module(self@, name@),
    {
        let mut i: usize = self.modules.len();
        proof {
            assert(self@.subrange(0, i as int) =~= self@);
        }
        while i > 0
            invariant
                i <= self.modules.len(),
                find_module(self@, name@) == find_module(self@.subrange(0, i as int), name@),
            decreases i,
        {
            proof {
                let head = self@.subrange(0, i as int);
                assert(head.last() == self.modules@[i - 1]@);
                assert(head.drop_last() =~= self@.subrange(0, i - 1));
            }
            if self.modules[i - 1].name == *name {
                return Some(i - 1);
            }
            i -= 1;
        }
        None
    }
}

/// The stack: one flat sequence of values that holds the activation records of
/// the running routines, and the position at which the record of the routine that
/// runs now begins. Slot `i` of that routine is position `offset + i`.
#[derive(Debug, PartialEq, Eq)]
pub struct Stack {
    pub offset: usize,
    pub variables: Vec<Variable>,
}

/// The mathematical values of a sequence of runtime values.
pub open spec fn values_of(values: Seq<Variable>) -> Seq<Value> {
    Seq::new(values.len(), |i: int| values[i]@)
}

/// The mathematical value of a [`Stack`].
pub struct StackView {
    pub offset: usize,
    pub variables: Seq<Value>,
}

impl View for Stack {
    type V = StackView;

    open spec fn view(&self) -> StackView {
        StackView { offset: self.offset, variables: values_of(self.variables@) }
    }
}

} // verus!
