//! Lexical scopes: which slot a name stands for.
//!
//! A name is a local variable of the innermost function, a variable of an enclosing
//! function, which the inner functions then capture, a module variable, or a global.
use vstd::prelude::*;
use crate::text::same_text;

verus! {

/// The slot that a name is resolved to.
#[derive(Clone, Copy, PartialEq, Eq, Structural, Debug)]
pub enum Slot {
    /// A slot of the innermost function.
    Local(usize),
    /// A slot of the module.
    Module(usize),
}

/// The names of one function: the name in slot `i` is `names[i]`.
#[derive(Debug)]
pub struct FunctionScope {
    pub names: Vec<String>,
    /// The captured variables: the slot in the enclosing function, and the slot here.
    pub parent: Vec<(usize, usize)>,
}

/// The names in scope: those of the module, and those of the functions around the
/// expression, outermost first.
#[derive(Debug)]
pub struct Scope {
    pub module: Vec<String>,
    pub functions: Vec<FunctionScope>,
}

/// The content of a [`FunctionScope`].
pub struct FunctionView {
    pub names: Seq<Seq<char>>,
    pub parent: Seq<(usize, usize)>,
}

/// The content of a [`Scope`].
pub struct ScopeView {
    pub module: Seq<Seq<char>>,
    pub functions: Seq<FunctionView>,
}

impl View for FunctionScope {
    type V = FunctionView;

    open spec fn view(&self) -> FunctionView {
        FunctionView { names: self.names.deep_view(), parent: self.parent@ }
    }
}

impl View for Scope {
    type V = ScopeView;

    open spec fn view(&self) -> ScopeView {
        ScopeView {
            module: self.module.deep_view(),
            functions: Seq::new(self.functions@.len(), |i: int| self.functions@[i]@),
        }
    }
}

/// The last of the first `n` slots of `names` that holds `name`.
pub open spec fn last_slot(names: Seq<Seq<char>>, name: Seq<char>, n: int) -> Option<int>
    decreases n,
{
    if n <= 0 || n > names.len() {
        None
    } else if names[n - 1] == name {
        Some(n - 1)
    } else {
        last_slot(names, name, n - 1)
    }
}

impl ScopeView {
    /// The innermost of the first `k` functions that has the variable `name`, and the slot
    /// of the variable in it.
    pub open spec fn holder(self, name: Seq<char>, k: int) -> Option<(int, int)>
        decreases k,
    {
        if k <= 0 || k > self.functions.len() {
            None
        } else {
            match last_slot(
                self.functions[k - 1].names,
                name,
                self.functions[k - 1].names.len() as int,
            ) {
                Some(i) => Some((k - 1, i)),
                None => self.holder(name, k - 1),
            }
        }
    }

    /// The scope and the slot after each function from `level` inwards has captured the
    /// variable `name`, which the function around it has in `slot`.
    pub open spec fn captured(self, name: Seq<char>, slot: int, level: int) -> (ScopeView, int)
        decreases self.functions.len() - level,
    {
        if level < 0 || level >= self.functions.len() {
            (self, slot)
        } else {
            let f = self.functions[level];
            let here = f.names.len() as int;
            let next = ScopeView {
                functions: self.functions.update(
                    level,
                    FunctionView {
                        names: f.names.push(name),
                        parent: f.parent.push((slot as usize, here as usize)),
                    },
                ),
                ..self
            };
            next.captured(name, here, level + 1)
        }
    }

    /// The scope and the slot after `name` is resolved: a slot of the innermost function,
    /// which captures the variable if an enclosing function has it; else a slot of the
    /// module; else nothing, for a global.
    pub open spec fn get_name(self, name: Seq<char>) -> (ScopeView, Option<Slot>) {
        match self.holder(name, self.functions.len() as int) {
            Some((k, i)) => {
                let (scope, slot) = self.captured(name, i, k + 1);
                (scope, Some(Slot::Local(slot as usize)))
            },
            None => match last_slot(self.module, name, self.module.len() as int) {
                Some(i) => (self, Some(Slot::Module(i as usize))),
                None => (self, None),
            },
        }
    }

    /// The scope with one more variable `name` in the innermost function, and its slot. A
    /// scope without a function gets one for the variables of comprehensions of the module.
    pub open spec fn add_local(self, name: Seq<char>) -> (ScopeView, usize) {
        if self.functions.len() == 0 {
            (
                ScopeView {
                    functions: seq![FunctionView { names: seq![name], parent: Seq::empty() }],
                    ..self
                },
                0usize,
            )
        } else {
            let f = self.functions.last();
            (
                ScopeView {
                    functions: self.functions.update(
                        self.functions.len() - 1,
                        FunctionView { names: f.names.push(name), ..f },
                    ),
                    ..self
                },
                f.names.len() as usize,
            )
        }
    }

    /// The scope with the variable in `slot` of the innermost function hidden: its name no
    /// longer stands for it.
    pub open spec fn forget(self, slot: usize) -> ScopeView {
        if self.functions.len() > 0 && slot < self.functions.last().names.len() {
            let f = self.functions.last();
            ScopeView {
                functions: self.functions.update(
                    self.functions.len() - 1,
                    FunctionView { names: f.names.update(slot as int, Seq::empty()), ..f },
                ),
                ..self
            }
        } else {
            self
        }
    }

    /// The scope inside a function with the parameters `names`.
    pub open spec fn enter(self, names: Seq<Seq<char>>) -> ScopeView {
        ScopeView {
            functions: self.functions.push(FunctionView { names, parent: Seq::empty() }),
            ..self
        }
    }

    /// The scope outside the innermost function.
    pub open spec fn exit(self) -> ScopeView {
        if self.functions.len() > 0 {
            ScopeView { functions: self.functions.drop_last(), ..self }
        } else {
            self
        }
    }
}

/// The last slot of `names` that holds `name`.
pub fn find_name(names: &Vec<String>, name: &str) -> (r: Option<usize>)
    ensures
        match last_slot(names.deep_view(), name@, names.len() as int) {
            Some(i) => r == Some(i as usize) && 0 <= i < names.len(),
            None => r is None,
        },
{
    let mut n: usize = names.len();
    while n > 0
        invariant
            n <= names.len(),
            last_slot(names.deep_view(), name@, names.len() as int) == last_slot(
                names.deep_view(),
                name@,
                n as int,
            ),
        decreases n,
    {
        assert(names.deep_view()[n - 1] == names@[n - 1]@);
        if same_text(names[n - 1].as_str(), name) {
            return Some(n - 1);
        }
        n -= 1;
    }
    None
}

impl Scope {
    /// A scope with the module variables `module` and no function.
    pub fn new(module: Vec<String>) -> (s: Scope)
        ensures
            s.module == module,
            s@.functions.len() == 0,
    {
        Scope { module, functions: Vec::new() }
    }

    /// Adds the variable `name` to the innermost function, and gives its slot.
    pub fn add_local(&mut self, name: &str) -> (slot: usize)
        ensures
            (final(self)@, slot) == old(self)@.add_local(name@),
    {
        if self.functions.len() == 0 {
            let mut names: Vec<String> = Vec::new();
            names.push(crate::text::owned(name));
            self.functions.push(FunctionScope { names, parent: Vec::new() });
            assert(names.deep_view() =~= seq![name@]);
            assert(final(self)@.functions =~= seq![
                FunctionView { names: seq![name@], parent: Seq::empty() },
            ]);
            0
        } else {
            let ghost before = self@;
            let top = self.functions.len() - 1;
            let mut f = FunctionScope { names: Vec::new(), parent: Vec::new() };
            std::mem::swap(&mut f, &mut self.functions[top]);
            let ghost fv = f@;
            assert(fv == before.functions[top as int]);
            let slot = f.names.len();
            f.names.push(crate::text::owned(name));
            assert(f@.names =~= fv.names.push(name@));
            let ghost nv = f@;
            self.functions[top] = f;
            assert(self@.functions =~= before.functions.update(top as int, nv));
            slot
        }
    }

    /// Hides the variable in `slot` of the innermost function.
    pub fn forget(&mut self, slot: usize)
        ensures
            final(self)@ == old(self)@.forget(slot),
    {
        let n = self.functions.len();
        if n > 0 && slot < self.functions[n - 1].names.len() {
            let ghost before = self@;
            assert(before.functions.last() == self.functions@[n - 1]@);
            let mut f = FunctionScope { names: Vec::new(), parent: Vec::new() };
            std::mem::swap(&mut f, &mut self.functions[n - 1]);
            let ghost fv = f@;
            f.names[slot] = String::new();
            assert(f@.names =~= fv.names.update(slot as int, Seq::empty()));
            let ghost nv = f@;
            self.functions[n - 1] = f;
            assert(self@.functions =~= before.functions.update(n - 1, nv));
        } else {
            proof {
                if n > 0 {
                    assert(self@.functions.last() == self.functions@[n - 1]@);
                }
            }
        }
    }

    /// The number of variables of the innermost function; of the comprehensions of the
    /// module, outside any function.
    pub fn locals(&self) -> (n: usize)
        ensures
            n == (if self@.functions.len() > 0 {
                self@.functions.last().names.len()
            } else {
                0
            }),
    {
        let k = self.functions.len();
        if k > 0 {
            assert(self@.functions.last() == self.functions@[k - 1]@);
            self.functions[k - 1].names.len()
        } else {
            0
        }
    }

    /// Enters a function with the parameters `names`, which take the first slots.
    pub fn enter(&mut self, names: Vec<String>)
        ensures
            final(self)@ == old(self)@.enter(names.deep_view()),
    {
        self.functions.push(FunctionScope { names, parent: Vec::new() });
        assert(final(self)@.functions =~= old(self)@.functions.push(
            FunctionView { names: names.deep_view(), parent: Seq::empty() },
        ));
    }

    /// Leaves the innermost function, and gives its names and captured variables.
    pub fn exit(&mut self) -> (r: Option<FunctionScope>)
        ensures
            final(self)@ == old(self)@.exit(),
            old(self)@.functions.len() > 0 ==> r is Some && r.unwrap()@ == old(self)@.functions.last(),
            old(self)@.functions.len() == 0 ==> r is None,
    {
        let r = self.functions.pop();
        assert(final(self)@.functions =~= old(self)@.exit().functions);
        r
    }

    /// The slot that `name` stands for; `None` for a name that can only be a global. A
    /// variable of an enclosing function gets a new slot in each function between it and
    /// the expression, which captures it from the function around.
    pub fn get_name(&mut self, name: &str) -> (r: Option<Slot>)
        ensures
            (final(self)@, r) == old(self)@.get_name(name@),
    {
        // The innermost function that has the name.
        let top = self.functions.len();
        let mut k: usize = top;
        let mut found: Option<usize> = None;
        while k > 0 && found.is_none()
            invariant
                k <= top,
                top == self.functions.len(),
                *self == *old(self),
                found is None ==> self@.holder(name@, top as int) == self@.holder(name@, k as int),
                found is Some ==> k < top && self@.holder(name@, top as int) == Some(
                    (k as int, found.unwrap() as int),
                ),
            decreases k + (if found is None { 1nat } else { 0nat }),
        {
            assert(self@.functions[k - 1] == self.functions@[k - 1]@);
            match find_name(&self.functions[k - 1].names, name) {
                Some(i) => {
                    found = Some(i);
                    k -= 1;
                },
                None => {
                    k -= 1;
                },
            }
        }
        match found {
            None => {
                match find_name(&self.module, name) {
                    Some(i) => Some(Slot::Module(i)),
                    None => None,
                }
            },
            Some(first) => {
                // Capture the variable in each function from there to the innermost.
                let mut slot: usize = first;
                let mut level: usize = k + 1;
                while level < top
                    invariant
                        k < level <= top,
                        top == self.functions.len(),
                        old(self)@.captured(name@, first as int, k + 1) == self@.captured(
                            name@,
                            slot as int,
                            level as int,
                        ),
                    decreases top - level,
                {
                    let ghost before = self@;
                    let mut f = FunctionScope { names: Vec::new(), parent: Vec::new() };
                    std::mem::swap(&mut f, &mut self.functions[level]);
                    let ghost fv = f@;
                    assert(fv == before.functions[level as int]);
                    let here = f.names.len();
                    f.names.push(crate::text::owned(name));
                    f.parent.push((slot, here));
                    assert(f@.names =~= fv.names.push(name@));
                    let ghost nv = f@;
                    self.functions[level] = f;
                    assert(self@.functions =~= before.functions.update(level as int, nv));
                    assert(self@.module == before.module);
                    slot = here;
                    level += 1;
                }
                Some(Slot::Local(slot))
            },
        }
    }
}

} // verus!
