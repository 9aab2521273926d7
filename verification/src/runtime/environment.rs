use crate::value::{Value, ValueView};
use vstd::prelude::*;

verus! {

/// A variable at run time: a declared name with its value.
#[derive(Debug, PartialEq, Default)]
pub struct Variable {
    pub name: String,
    pub value: Value,
    pub depth: u8,
}

/// A variable at compile time: its name and the block depth at which it was declared.
#[derive(Debug, PartialEq, Default)]
pub struct Local {
    pub name: String,
    pub depth: u8,
}

/// The declared variables, in the order of their declaration, with their
/// count (which stops at 255) and the current block depth.
#[derive(Debug, Default, PartialEq)]
pub struct RawScope<T> {
    pub vars: Vec<T>,
    pub num_vars: u8,
    pub depth: u8,
}

/// The scope at compile time.
pub type CompilerScope = RawScope<Local>;

/// The scope at run time.
pub type RuntimeScope = RawScope<Variable>;

/// A variable at run time, with its name as a sequence of characters.
pub struct VariableView {
    pub name: Seq<char>,
    pub value: ValueView,
    pub depth: u8,
}

/// A variable at compile time, with its name as a sequence of characters.
pub struct LocalView {
    pub name: Seq<char>,
    pub depth: u8,
}

/// A scope, with its variables as a sequence.
pub struct ScopeView<T> {
    pub vars: Seq<T>,
    pub num_vars: u8,
    pub depth: u8,
}

impl View for Variable {
    type V = VariableView;

    open spec fn view(&self) -> VariableView {
        VariableView { name: self.name@, value: self.value@, depth: self.depth }
    }
}

impl View for Local {
    type V = LocalView;

    open spec fn view(&self) -> LocalView {
        LocalView { name: self.name@, depth: self.depth }
    }
}

impl<T: View> View for RawScope<T> {
    type V = ScopeView<T::V>;

    open spec fn view(&self) -> ScopeView<T::V> {
        ScopeView {
            vars: self.vars@.map_values(|var: T| var@),
            num_vars: self.num_vars,
            depth: self.depth,
        }
    }
}

impl Clone for Variable {
    fn clone(&self) -> (copy: Self)
        ensures
            copy == *self,
    {
        Variable { name: self.name.clone(), value: self.value.clone(), depth: self.depth }
    }
}

impl Clone for Local {
    fn clone(&self) -> (copy: Self)
        ensures
            copy == *self,
    {
        Local { name: self.name.clone(), depth: self.depth }
    }
}

impl Clone for RawScope<Local> {
    fn clone(&self) -> (copy: Self)
        ensures
            copy@ == self@,
    {
        let mut vars: Vec<Local> = Vec::new();
        let mut i: usize = 0;
        while i < self.vars.len()
            invariant
                i <= self.vars@.len(),
                vars@.len() == i,
                forall|k: int| 0 <= k < i ==> vars@[k] == self.vars@[k],
            decreases self.vars@.len() - i,
        {
            vars.push(self.vars[i].clone());
            i = i + 1;
        }
        let copy = RawScope { vars, num_vars: self.num_vars, depth: self.depth };
        assert(copy@.vars =~= self@.vars);
        copy
    }
}

impl Clone for RawScope<Variable> {
    fn clone(&self) -> (copy: Self)
        ensures
            copy@ == self@,
    {
        let mut vars: Vec<Variable> = Vec::new();
        let mut i: usize = 0;
        while i < self.vars.len()
            invariant
                i <= self.vars@.len(),
                vars@.len() == i,
                forall|k: int| 0 <= k < i ==> vars@[k] == self.vars@[k],
            decreases self.vars@.len() - i,
        {
            vars.push(self.vars[i].clone());
            i = i + 1;
        }
        let copy = RawScope { vars, num_vars: self.num_vars, depth: self.depth };
        assert(copy@.vars =~= self@.vars);
        copy
    }
}

impl ScopeView<LocalView> {
    /// The scope without variables, at depth 0.
    pub open spec fn empty() -> ScopeView<LocalView> {
        ScopeView { vars: Seq::empty(), num_vars: 0, depth: 0 }
    }

    /// The scope one block further in; the depth stops at 255.
    pub open spec fn begin(self) -> ScopeView<LocalView> {
        ScopeView { depth: if self.depth < 255 { (self.depth + 1) as u8 } else { 255 }, ..self }
    }

    /// The scope one block further out; the depth stops at 0.
    pub open spec fn end(self) -> ScopeView<LocalView> {
        ScopeView { depth: if self.depth > 0 { (self.depth - 1) as u8 } else { 0 }, ..self }
    }

    /// The scope with one more variable `name`, declared at the current
    /// depth; the count stops at 255.
    pub open spec fn declare(self, name: Seq<char>) -> ScopeView<LocalView> {
        ScopeView {
            vars: self.vars.push(LocalView { name, depth: self.depth }),
            num_vars: if self.num_vars < 255 { (self.num_vars + 1) as u8 } else { 255 },
            ..self
        }
    }

    /// The scope as a run begins with it: every variable with the default
    /// value `false`, at depth 0.
    pub open spec fn runtime(self) -> ScopeView<VariableView> {
        ScopeView {
            vars: self.vars.map_values(
                |local: LocalView|
                    VariableView {
                        name: local.name,
                        value: ValueView::Truth(false),
                        depth: local.depth,
                    },
            ),
            num_vars: self.num_vars,
            depth: 0,
        }
    }
}

impl RawScope<Local> {
    /// The scope without variables, at depth 0.
    pub fn new() -> (scope: Self)
        ensures
            scope@ == ScopeView::<LocalView>::empty(),
    {
        let scope = RawScope { vars: Vec::new(), num_vars: 0, depth: 0 };
        assert(scope@.vars =~= Seq::empty());
        scope
    }

    /// Enters a block.
    pub fn begin(&mut self)
        ensures
            final(self)@ == old(self)@.begin(),
    {
        if self.depth < 255 {
            self.depth += 1;
        }
    }

    /// Leaves a block.
    pub fn end(&mut self)
        ensures
            final(self)@ == old(self)@.end(),
    {
        if self.depth > 0 {
            self.depth -= 1;
        }
    }

    /// Declares the variable `name` at the current depth, and returns its
    /// slot: the count of the variables before it.
    pub fn declare(&mut self, name: String) -> (slot: u8)
        ensures
            final(self)@ == old(self)@.declare(name@),
            slot == old(self)@.num_vars,
    {
        let slot = self.num_vars;
        let depth = self.depth;
        self.vars.push(Local { name, depth });
        if self.num_vars < 255 {
            self.num_vars += 1;
        }
        assert(self@.vars =~= old(self)@.vars.push(LocalView { name: name@, depth }));
        slot
    }
}

impl vstd::std_specs::convert::FromSpecImpl<RawScope<Local>> for RawScope<Variable> {
    open spec fn obeys_from_spec() -> bool {
        false
    }

    open spec fn from_spec(scope: RawScope<Local>) -> Self {
        arbitrary()
    }
}

impl From<RawScope<Local>> for RawScope<Variable> {
    /// The scope that a run begins with: one variable for each local of
    /// `scope`, in order, with the default value, at depth 0.
    fn from(scope: RawScope<Local>) -> (runtime: Self)
        ensures
            runtime@ == scope@.runtime(),
    {
        let mut vars: Vec<Variable> = Vec::new();
        let mut i: usize = 0;
        while i < scope.vars.len()
            invariant
                i <= scope.vars@.len(),
                vars@.len() == i,
                forall|k: int|
                    0 <= k < i ==> (#[trigger] vars@[k])@ == (VariableView {
                        name: scope.vars@[k].name@,
                        value: ValueView::Truth(false),
                        depth: scope.vars@[k].depth,
                    }),
            decreases scope.vars@.len() - i,
        {
            let local = &scope.vars[i];
            vars.push(
                Variable { name: local.name.clone(), value: Value::default(), depth: local.depth },
            );
            i = i + 1;
        }
        let runtime = RawScope { vars, num_vars: scope.num_vars, depth: 0 };
        assert(runtime@.vars =~= scope@.runtime().vars);
        runtime
    }
}

} // verus!
