//! Environments: the bindings of names to value cells, in scopes.
//!
//! A cell is a place in a [`Store`]. An environment binds names to cells, so
//! that two environments that bind a name to the same cell share the variable:
//! what one writes, the other reads.

use crate::eval_value::{EvalValue, EvalValueView};
use crate::text::{copy_string, strings_view};
use vstd::prelude::*;

verus! {

/// The value cells that environments share. A cell, once made, stays.
pub struct Store {
    values: Vec<EvalValue>,
}

/// The views of a sequence of values.
pub open spec fn values_view(values: Seq<EvalValue>) -> Seq<EvalValueView> {
    values.map_values(|v: EvalValue| v@)
}

impl View for Store {
    type V = Seq<EvalValueView>;

    closed spec fn view(&self) -> Seq<EvalValueView> {
        values_view(self.values@)
    }
}

impl Store {
    /// A store without cells.
    pub fn new() -> (s: Store)
        ensures
            s@ == Seq::<EvalValueView>::empty(),
    {
        let s = Store { values: Vec::new() };
        assert(s@ =~= Seq::<EvalValueView>::empty());
        s
    }

    /// The number of cells.
    pub fn len(&self) -> (n: usize)
        ensures
            n == self@.len(),
    {
        self.values.len()
    }

    /// Makes a cell that holds `value` and returns it.
    pub fn allocate(&mut self, value: EvalValue) -> (cell: usize)
        ensures
            cell == old(self)@.len(),
            final(self)@ == old(self)@.push(value@),
    {
        let cell = self.values.len();
        self.values.push(value);
        assert(self@ =~= old(self)@.push(value@));
        cell
    }

    /// A copy of what `cell` holds.
    pub fn read(&self, cell: usize) -> (value: EvalValue)
        requires
            cell < self@.len(),
        ensures
            value@ == self@[cell as int],
    {
        self.values[cell].duplicate()
    }

    /// Puts `value` into `cell`.
    pub fn write(&mut self, cell: usize, value: EvalValue)
        requires
            cell < old(self)@.len(),
        ensures
            final(self)@ == old(self)@.update(cell as int, value@),
    {
        self.values.set(cell, value);
        assert(self@ =~= old(self)@.update(cell as int, value@));
    }
}

/// An environment: bindings in the order in which they were made, and the
/// lengths at which the open scopes began, the innermost last.
#[derive(Debug)]
pub struct Environment {
    names: Vec<String>,
    cells: Vec<usize>,
    scope_stack: Vec<usize>,
}

/// An environment as a mathematical value.
pub struct EnvironmentView {
    pub names: Seq<Seq<char>>,
    pub cells: Seq<usize>,
    pub scopes: Seq<usize>,
}

impl View for Environment {
    type V = EnvironmentView;

    closed spec fn view(&self) -> EnvironmentView {
        EnvironmentView {
            names: strings_view(self.names@),
            cells: self.cells@,
            scopes: self.scope_stack@,
        }
    }
}

/// The innermost binding of `name` among `names[from..]`, if there is one.
pub open spec fn find_spec(names: Seq<Seq<char>>, name: Seq<char>, from: int) -> Option<int>
    decreases names.len(),
{
    if names.len() <= from || names.len() == 0 {
        None
    } else if names.last() == name {
        Some(names.len() - 1)
    } else {
        find_spec(names.drop_last(), name, from)
    }
}

/// What `find_spec` finds is a binding of the name at or after `from`, and no
/// binding after it has the name; where it finds none, there is none.
pub proof fn lemma_find(names: Seq<Seq<char>>, name: Seq<char>, from: int)
    requires
        0 <= from,
    ensures
        match find_spec(names, name, from) {
            Some(i) => {
                &&& from <= i < names.len()
                &&& names[i] == name
                &&& forall|j: int| i < j < names.len() ==> names[j] != name
            },
            None => forall|j: int| from <= j < names.len() ==> names[j] != name,
        },
    decreases names.len(),
{
    if names.len() <= from || names.len() == 0 {
    } else if names.last() == name {
    } else {
        let shorter = names.drop_last();
        lemma_find(shorter, name, from);
        assert forall|j: int| 0 <= j < shorter.len() implies shorter[j] == names[j] by {}
        match find_spec(shorter, name, from) {
            Some(i) => {
                assert forall|j: int| i < j < names.len() implies names[j] != name by {
                    if j < shorter.len() {
                        assert(shorter[j] != name);
                    }
                }
            },
            None => {
                assert forall|j: int| from <= j < names.len() implies names[j] != name by {
                    if j < shorter.len() {
                        assert(shorter[j] != name);
                    }
                }
            },
        }
    }
}

impl EnvironmentView {
    /// Whether every binding has a cell and the scopes began in order, none
    /// beyond the bindings.
    pub open spec fn wf(self) -> bool {
        &&& self.names.len() == self.cells.len()
        &&& forall|i: int|
            0 <= i < self.scopes.len() ==> #[trigger] self.scopes[i] <= self.names.len()
        &&& forall|i: int, j: int|
            0 <= i <= j < self.scopes.len() ==> self.scopes[i] <= self.scopes[j]
    }

    /// Whether every cell of the environment is a cell of `store`.
    pub open spec fn fits(self, store: Seq<EvalValueView>) -> bool {
        forall|i: int| 0 <= i < self.cells.len() ==> #[trigger] self.cells[i] < store.len()
    }

    /// Where the active scope begins.
    pub open spec fn bottom(self) -> int {
        if self.scopes.len() > 0 {
            self.scopes.last() as int
        } else {
            0
        }
    }

    /// The environment without bindings or scopes.
    pub open spec fn empty() -> EnvironmentView {
        EnvironmentView { names: Seq::empty(), cells: Seq::empty(), scopes: Seq::empty() }
    }

    /// The environment of a closure over `self`: the same bindings, and one
    /// scope that begins after them.
    pub open spec fn capture(self) -> EnvironmentView {
        EnvironmentView {
            names: self.names,
            cells: self.cells,
            scopes: seq![self.names.len() as usize],
        }
    }

    /// The environment after `name` is bound to `cell` in the active scope: in
    /// place of the binding that the scope has for the name, or as a new last
    /// binding.
    pub open spec fn bind(self, name: Seq<char>, cell: usize) -> EnvironmentView {
        match find_spec(self.names, name, self.bottom()) {
            Some(i) => EnvironmentView { cells: self.cells.update(i, cell), ..self },
            None => EnvironmentView {
                names: self.names.push(name),
                cells: self.cells.push(cell),
                ..self
            },
        }
    }

    /// The environment with one more scope, which begins after the bindings.
    pub open spec fn push_scope(self) -> EnvironmentView {
        EnvironmentView { scopes: self.scopes.push(self.names.len() as usize), ..self }
    }

    /// The environment without its innermost scope and the bindings made in
    /// it; without any binding, if no scope is open.
    pub open spec fn pop_scope(self) -> EnvironmentView {
        if self.scopes.len() > 0 {
            EnvironmentView {
                names: self.names.subrange(0, self.bottom()),
                cells: self.cells.subrange(0, self.bottom()),
                scopes: self.scopes.drop_last(),
            }
        } else {
            EnvironmentView::empty()
        }
    }

    /// The slot of the innermost binding of `name`, in any scope.
    pub open spec fn slot_of(self, name: Seq<char>) -> Option<int> {
        find_spec(self.names, name, 0)
    }

    /// The value of `name`: what the cell of its innermost binding holds.
    pub open spec fn get(self, store: Seq<EvalValueView>, name: Seq<char>) -> Option<
        EvalValueView,
    > {
        match self.slot_of(name) {
            Some(i) => Some(store[self.cells[i] as int]),
            None => None,
        }
    }
}

/// The store after `value` is assigned to `name` in `env`: written into the
/// cell of the innermost binding, or into a new cell if the name is not bound.
pub open spec fn set_store(
    env: EnvironmentView,
    store: Seq<EvalValueView>,
    name: Seq<char>,
    value: EvalValueView,
) -> Seq<EvalValueView> {
    match env.slot_of(name) {
        Some(i) => store.update(env.cells[i] as int, value),
        None => store.push(value),
    }
}

/// The environment after `value` is assigned to `name` in it: unchanged if the
/// name is bound, else with a new last binding of the name to the new cell.
pub open spec fn set_env(
    env: EnvironmentView,
    store: Seq<EvalValueView>,
    name: Seq<char>,
) -> EnvironmentView {
    match env.slot_of(name) {
        Some(_) => env,
        None => EnvironmentView {
            names: env.names.push(name),
            cells: env.cells.push(store.len() as usize),
            ..env
        },
    }
}

/// Binding a name keeps an environment well formed and keeps what lies below
/// the active scope as it is; and the name then stands for the new cell: a
/// lookup finds the binding made last.
pub proof fn lemma_bind(env: EnvironmentView, name: Seq<char>, cell: usize)
    requires
        env.wf(),
    ensures
        env.bind(name, cell).wf(),
        env.bind(name, cell).scopes == env.scopes,
        env.bind(name, cell).names.len() >= env.names.len(),
        env.bind(name, cell).names.subrange(0, env.bottom()) == env.names.subrange(
            0,
            env.bottom(),
        ),
        env.bind(name, cell).cells.subrange(0, env.bottom()) == env.cells.subrange(
            0,
            env.bottom(),
        ),
        env.bind(name, cell).slot_of(name) is Some,
        env.bind(name, cell).cells[env.bind(name, cell).slot_of(name)->0] == cell,
{
    lemma_find(env.names, name, env.bottom());
    let after = env.bind(name, cell);
    assert(after.names.subrange(0, env.bottom()) =~= env.names.subrange(0, env.bottom()));
    assert(after.cells.subrange(0, env.bottom()) =~= env.cells.subrange(0, env.bottom()));
    lemma_find(after.names, name, 0);
    match find_spec(env.names, name, env.bottom()) {
        Some(i) => {
            assert(after.names[i] == name);
        },
        None => {
            assert(after.names[env.names.len() as int] == name);
        },
    }
}

/// Closing a scope undoes what was declared since it was opened: the
/// environment is what it was before. (The bound on the number of bindings
/// holds of every environment in memory.)
pub proof fn lemma_scope_closes(env: EnvironmentView, inner: EnvironmentView)
    requires
        env.wf(),
        env.names.len() <= usize::MAX,
        inner.wf(),
        inner.scopes == env.push_scope().scopes,
        inner.names.len() >= env.names.len(),
        inner.names.subrange(0, env.names.len() as int) == env.names,
        inner.cells.subrange(0, env.names.len() as int) == env.cells,
    ensures
        inner.pop_scope() == env,
        env.push_scope().pop_scope() == env,
        env.push_scope().wf(),
{
    assert(inner.pop_scope().scopes =~= env.scopes);
    let opened = env.push_scope();
    assert(opened.pop_scope().names =~= env.names);
    assert(opened.pop_scope().cells =~= env.cells);
    assert(opened.pop_scope().scopes =~= env.scopes);
}

/// What is declared in the environment of a closure stays there: the bindings
/// that were captured are as they were, names and cells. (The bound on the
/// number of bindings holds of every environment in memory.)
pub proof fn lemma_capture_isolates(env: EnvironmentView, name: Seq<char>, cell: usize)
    requires
        env.wf(),
        env.names.len() <= usize::MAX,
    ensures
        env.capture().wf(),
        env.capture().bind(name, cell).names.subrange(0, env.names.len() as int) == env.names,
        env.capture().bind(name, cell).cells.subrange(0, env.names.len() as int) == env.cells,
{
    let captured = env.capture();
    lemma_bind(captured, name, cell);
    assert(captured.names.subrange(0, env.names.len() as int) =~= env.names);
    assert(captured.cells.subrange(0, env.names.len() as int) =~= env.cells);
}

/// A closure shares the cells of what it captured: what is assigned to a name
/// in the one environment is the value of the name in the other.
pub proof fn lemma_capture_shares(
    env: EnvironmentView,
    store: Seq<EvalValueView>,
    name: Seq<char>,
    value: EvalValueView,
)
    requires
        env.wf(),
        env.fits(store),
        env.slot_of(name) is Some,
    ensures
        env.capture().get(set_store(env, store, name, value), name) == Some(value),
        env.get(set_store(env.capture(), store, name, value), name) == Some(value),
{
    lemma_find(env.names, name, 0);
}

impl Environment {
    /// Whether the environment is well formed: see [`EnvironmentView::wf`].
    pub open spec fn wf(&self) -> bool {
        self@.wf()
    }

    /// The view has as many names as the environment, each the view of its
    /// name, and the same cells and scopes.
    proof fn lemma_view(&self)
        ensures
            self@.names.len() == self.names@.len(),
            forall|i: int|
                0 <= i < self.names@.len() ==> #[trigger] self@.names[i] == self.names@[i]@,
            self@.cells == self.cells@,
            self@.scopes == self.scope_stack@,
    {
    }

    /// An environment without bindings or scopes.
    pub fn new() -> (e: Environment)
        ensures
            e@ == EnvironmentView::empty(),
            e.wf(),
    {
        let e = Environment { names: Vec::new(), cells: Vec::new(), scope_stack: Vec::new() };
        assert(e@.names =~= Seq::empty());
        e
    }

    /// The environment of a closure over `enclosing`: its bindings, with their
    /// cells, and one scope that begins after them, so that what is declared in
    /// the new environment stays out of `enclosing`.
    pub fn new_capture_env(enclosing: &Environment) -> (e: Environment)
        requires
            enclosing.wf(),
        ensures
            e@ == enclosing@.capture(),
            e.wf(),
    {
        let mut names: Vec<String> = Vec::new();
        let mut cells: Vec<usize> = Vec::new();
        let mut i: usize = 0;
        proof {
            enclosing.lemma_view();
        }
        while i < enclosing.names.len()
            invariant
                i <= enclosing.names@.len(),
                enclosing.names@.len() == enclosing.cells@.len(),
                names@.len() == i,
                cells@.len() == i,
                forall|j: int| 0 <= j < i ==> names@[j]@ == enclosing.names@[j]@,
                forall|j: int| 0 <= j < i ==> cells@[j] == enclosing.cells@[j],
            decreases enclosing.names.len() - i,
        {
            names.push(copy_string(enclosing.names[i].as_str()));
            cells.push(enclosing.cells[i]);
            i = i + 1;
        }
        let mut scope_stack: Vec<usize> = Vec::new();
        scope_stack.push(i);
        let e = Environment { names, cells, scope_stack };
        proof {
            e.lemma_view();
        }
        assert(e@.names =~= enclosing@.names);
        assert(e@.cells =~= enclosing@.cells);
        assert(e@.scopes =~= seq![enclosing@.names.len() as usize]);
        e
    }

    /// A copy of the environment: the same bindings, cells and scopes.
    pub fn duplicate(&self) -> (e: Environment)
        requires
            self.wf(),
        ensures
            e@ == self@,
            e.wf(),
    {
        proof {
            self.lemma_view();
        }
        let mut e = Environment::new_capture_env(self);
        e.scope_stack = self.scope_stack.clone();
        assert(e@.scopes =~= self@.scopes);
        e
    }

    /// The number of bindings.
    pub fn len(&self) -> (n: usize)
        requires
            self.wf(),
        ensures
            n == self@.names.len(),
    {
        proof {
            self.lemma_view();
        }
        self.cells.len()
    }

    /// Where the active scope begins.
    fn bottom(&self) -> (b: usize)
        requires
            self.wf(),
        ensures
            b == self@.bottom(),
            b <= self@.names.len(),
    {
        proof {
            self.lemma_view();
        }
        if self.scope_stack.len() > 0 {
            self.scope_stack[self.scope_stack.len() - 1]
        } else {
            0
        }
    }

    /// The innermost binding of `name` at or after `from`.
    fn find(&self, name: &str, from: usize) -> (r: Option<usize>)
        requires
            self.wf(),
        ensures
            match find_spec(self@.names, name@, from as int) {
                Some(i) => r.is_some() && r.unwrap() as int == i && from <= i < self@.names.len(),
                None => r.is_none(),
            },
    {
        proof {
            self.lemma_view();
        }
        let mut i: usize = self.names.len();
        assert(self@.names.subrange(0, i as int) =~= self@.names);
        while i > from
            invariant
                i <= self.names@.len(),
                find_spec(self@.names, name@, from as int) == find_spec(
                    self@.names.subrange(0, i as int),
                    name@,
                    from as int,
                ),
            decreases i,
        {
            let ghost prefix = self@.names.subrange(0, i as int);
            assert(prefix.drop_last() =~= self@.names.subrange(0, i - 1));
            if *self.names[i - 1].as_str() == *name {
                proof {
                    lemma_find(prefix, name@, from as int);
                }
                return Some(i - 1);
            }
            i = i - 1;
        }
        None
    }

    /// The slot of the innermost binding of `name`, in any scope.
    pub fn get_var_idx(&self, name: &str) -> (r: Option<usize>)
        requires
            self.wf(),
        ensures
            match self@.slot_of(name@) {
                Some(i) => r.is_some() && r.unwrap() as int == i && 0 <= i < self@.names.len(),
                None => r.is_none(),
            },
    {
        self.find(name, 0)
    }

    /// Binds `name` to `cell` in the active scope: in place of the binding that
    /// the scope has for the name, or as a new last binding.
    pub fn bind(&mut self, name: &str, cell: usize)
        requires
            old(self).wf(),
        ensures
            final(self)@ == old(self)@.bind(name@, cell),
            final(self).wf(),
    {
        proof {
            self.lemma_view();
        }
        let bottom = self.bottom();
        match self.find(name, bottom) {
            Some(i) => {
                self.cells.set(i, cell);
                proof {
                    self.lemma_view();
                }
                assert(self@.cells =~= old(self)@.cells.update(i as int, cell));
                assert(self@.names =~= old(self)@.names);
            },
            None => {
                self.names.push(copy_string(name));
                self.cells.push(cell);
                proof {
                    self.lemma_view();
                }
                assert(self@.names =~= old(self)@.names.push(name@));
                assert(self@.cells =~= old(self)@.cells.push(cell));
            },
        }
    }

    /// Declares `name` with `value` in the active scope: a new cell holds the
    /// value, and the name is bound to it, in place of the binding that the
    /// scope has for the name or as a new last binding.
    pub fn define_var(&mut self, store: &mut Store, name: &str, value: EvalValue)
        requires
            old(self).wf(),
            old(self)@.fits(old(store)@),
        ensures
            final(store)@ == old(store)@.push(value@),
            final(self)@ == old(self)@.bind(name@, old(store)@.len() as usize),
            final(self).wf(),
            final(self)@.fits(final(store)@),
    {
        let cell = store.allocate(value);
        self.bind(name, cell);
        proof {
            lemma_find(old(self)@.names, name@, old(self)@.bottom());
        }
    }

    /// The value of `name`: a copy of what the cell of its innermost binding
    /// holds, in any scope.
    pub fn get_var(&self, store: &Store, name: &str) -> (r: Option<EvalValue>)
        requires
            self.wf(),
            self@.fits(store@),
        ensures
            match self@.get(store@, name@) {
                Some(value) => r.is_some() && r.unwrap()@ == value,
                None => r.is_none(),
            },
    {
        proof {
            self.lemma_view();
        }
        match self.find(name, 0) {
            Some(i) => Some(store.read(self.cells[i])),
            None => None,
        }
    }

    /// Assigns `value` to `name`: into the cell of its innermost binding, in
    /// any scope, so that every environment that shares the cell sees it; a
    /// name that is not bound gets a new cell and a new last binding.
    pub fn set_var(&mut self, store: &mut Store, name: &str, value: EvalValue)
        requires
            old(self).wf(),
            old(self)@.fits(old(store)@),
        ensures
            final(store)@ == set_store(old(self)@, old(store)@, name@, value@),
            final(self)@ == set_env(old(self)@, old(store)@, name@),
            final(self).wf(),
            final(self)@.fits(final(store)@),
    {
        proof {
            self.lemma_view();
        }
        match self.find(name, 0) {
            Some(i) => {
                store.write(self.cells[i], value);
            },
            None => {
                let cell = store.allocate(value);
                self.names.push(copy_string(name));
                self.cells.push(cell);
                proof {
                    self.lemma_view();
                }
                assert(self@.names =~= old(self)@.names.push(name@));
                assert(self@.cells =~= old(self)@.cells.push(cell));
            },
        }
    }

    /// Whether the binding at `slot` binds `name`.
    pub fn name_is_at(&self, slot: usize, name: &str) -> (r: bool)
        requires
            self.wf(),
            slot < self@.names.len(),
        ensures
            r == (self@.names[slot as int] == name@),
    {
        proof {
            self.lemma_view();
        }
        *self.names[slot].as_str() == *name
    }

    /// The cell of the binding at `slot`.
    pub fn cell_at(&self, slot: usize) -> (cell: usize)
        requires
            self.wf(),
            slot < self@.names.len(),
        ensures
            cell == self@.cells[slot as int],
    {
        proof {
            self.lemma_view();
        }
        self.cells[slot]
    }

    /// A copy of what the cell of the binding at `slot` holds.
    pub fn get_at(&self, store: &Store, slot: usize) -> (value: EvalValue)
        requires
            self.wf(),
            self@.fits(store@),
            slot < self@.names.len(),
        ensures
            value@ == store@[self@.cells[slot as int] as int],
    {
        proof {
            self.lemma_view();
        }
        store.read(self.cells[slot])
    }

    /// Puts `value` into the cell of the binding at `slot`.
    pub fn set_at(&self, store: &mut Store, slot: usize, value: EvalValue)
        requires
            self.wf(),
            self@.fits(old(store)@),
            slot < self@.names.len(),
        ensures
            final(store)@ == old(store)@.update(self@.cells[slot as int] as int, value@),
            self@.fits(final(store)@),
    {
        proof {
            self.lemma_view();
        }
        store.write(self.cells[slot], value);
    }

    /// Opens a scope: it begins after the bindings made so far.
    pub fn push_scope(&mut self)
        requires
            old(self).wf(),
        ensures
            final(self)@ == old(self)@.push_scope(),
            final(self).wf(),
    {
        proof {
            self.lemma_view();
        }
        self.scope_stack.push(self.cells.len());
        proof {
            self.lemma_view();
        }
        assert(self@.names =~= old(self)@.names);
    }

    /// Closes the innermost scope and drops the bindings made in it; drops
    /// every binding, if no scope is open.
    pub fn pop_scope(&mut self)
        requires
            old(self).wf(),
        ensures
            final(self)@ == old(self)@.pop_scope(),
            final(self).wf(),
    {
        proof {
            self.lemma_view();
        }
        let bottom = self.bottom();
        self.names.truncate(bottom);
        self.cells.truncate(bottom);
        self.scope_stack.pop();
        proof {
            self.lemma_view();
        }
        assert(self@.names =~= old(self)@.pop_scope().names);
        assert(self@.cells =~= old(self)@.pop_scope().cells);
        assert(self@.scopes =~= old(self)@.pop_scope().scopes);
    }
}

} // verus!
