use vstd::prelude::*;
use std::rc::Rc;
use crate::ast::{dup_names, names_view, stmts_view, SStmt, Stmt};
use crate::builtins::BuiltinFun;
use crate::interp_spec::{BMap, SFrame};
use crate::table::Table;
use crate::values::{SVal, Type};

verus! {

/// A variable: its value and whether it may be assigned again.
#[derive(Debug)]
pub struct Value {
    value: Type,
    mutable: bool,
}

/// A function: its parameter names and body.
pub type FuncDef = (Vec<String>, Vec<Stmt>);

/// The variables, functions and loaded modules that running code sees.
#[derive(Debug)]
pub struct Frame {
    vars: Table<Value>,
    funcs: Table<Rc<FuncDef>>,
    loaded: Vec<String>,
}

/// The variables as values and mutability.
pub open spec fn vars_view(m: Map<Seq<char>, Value>) -> Map<Seq<char>, (SVal, bool)> {
    m.map_values(|v: Value| v@)
}

/// A function definition as parameter names and body.
pub open spec fn def_view(d: Rc<FuncDef>) -> (Seq<Seq<char>>, Seq<SStmt>) {
    (names_view(d.0@), stmts_view(d.1@))
}

/// The functions as parameter names and bodies.
pub open spec fn funcs_view(m: Map<Seq<char>, Rc<FuncDef>>) -> Map<Seq<char>, (Seq<Seq<char>>, Seq<SStmt>)> {
    m.map_values(|d: Rc<FuncDef>| def_view(d))
}

/// The names in a list, as a set.
pub open spec fn name_set(v: Seq<String>) -> Set<Seq<char>> {
    Set::new(|s: Seq<char>| exists|i: int| 0 <= i < v.len() && v[i]@ == s)
}

/// The builtins as functions and arities.
pub open spec fn builtins_view(m: Map<Seq<char>, BuiltinFun>) -> BMap {
    m.map_values(|f: BuiltinFun| (f.func, f.args))
}

impl View for Value {
    type V = (SVal, bool);

    closed spec fn view(&self) -> (SVal, bool) {
        (self.value@, self.mutable)
    }
}

impl View for Frame {
    type V = SFrame;

    closed spec fn view(&self) -> SFrame {
        SFrame { vars: vars_view(self.vars@), funcs: funcs_view(self.funcs@), loaded: name_set(self.loaded@) }
    }
}

impl Value {
    /// A variable holding `value`.
    pub fn new(value: Type, mutable: bool) -> (r: Value)
        ensures
            r@ == (value@, mutable),
    {
        Value { value, mutable }
    }

    /// The value of the variable.
    pub fn value(&self) -> (r: &Type)
        ensures
            r@ == self@.0,
    {
        &self.value
    }

    /// Whether the variable may be assigned again.
    pub fn is_mutable(&self) -> (r: bool)
        ensures
            r == self@.1,
    {
        self.mutable
    }
}

proof fn lemma_name_set_push(v: Seq<String>, s: String)
    ensures
        name_set(v.push(s)) == name_set(v).insert(s@),
{
    assert forall|x: Seq<char>| name_set(v.push(s)).contains(x) == name_set(v).insert(s@).contains(x) by {
        if name_set(v.push(s)).contains(x) {
            let i = choose|i: int| 0 <= i < v.push(s).len() && v.push(s)[i]@ == x;
            if i < v.len() {
                assert(v[i]@ == x);
            }
        }
        if name_set(v).contains(x) {
            let i = choose|i: int| 0 <= i < v.len() && v[i]@ == x;
            assert(v.push(s)[i]@ == x);
        }
        if x == s@ {
            assert(v.push(s)[v.len() as int]@ == x);
        }
    }
    assert(name_set(v.push(s)) =~= name_set(v).insert(s@));
}

proof fn lemma_name_set_copy(a: Seq<String>, b: Seq<String>)
    requires
        names_view(a) == names_view(b),
    ensures
        name_set(a) == name_set(b),
{
    assert(a.len() == names_view(a).len());
    assert(b.len() == names_view(b).len());
    assert forall|i: int| 0 <= i < a.len() implies a[i]@ == b[i]@ by {
        assert(names_view(a)[i] == a[i]@);
        assert(names_view(b)[i] == b[i]@);
    }
    assert(name_set(a) =~= name_set(b));
}

/// What the builtins table says of one name.
pub proof fn lemma_builtins_view(m: Map<Seq<char>, BuiltinFun>, k: Seq<char>)
    ensures
        builtins_view(m).contains_key(k) == m.contains_key(k),
        m.contains_key(k) ==> builtins_view(m)[k] == (m[k].func, m[k].args),
{
}

impl Frame {
    /// A frame with no variables, functions or loaded modules.
    pub fn new() -> (r: Frame)
        ensures
            r@ == (SFrame { vars: Map::empty(), funcs: Map::empty(), loaded: Set::empty() }),
    {
        let r = Frame { vars: Table::new(), funcs: Table::new(), loaded: Vec::new() };
        assert(vars_view(r.vars@) =~= Map::empty());
        assert(funcs_view(r.funcs@) =~= Map::empty());
        assert(name_set(r.loaded@) =~= Set::empty());
        r
    }

    /// The variables.
    pub fn vars(&self) -> (r: &Table<Value>)
        ensures
            vars_view(r@) == self@.vars,
    {
        &self.vars
    }

    /// The functions.
    pub fn funcs(&self) -> (r: &Table<Rc<FuncDef>>)
        ensures
            funcs_view(r@) == self@.funcs,
    {
        &self.funcs
    }

    /// The variable `name`, if there is one.
    pub fn var(&self, name: &str) -> (r: Option<&Value>)
        ensures
            match r {
                Some(v) => self@.vars.contains_key(name@) && self@.vars[name@] == v@,
                None => !self@.vars.contains_key(name@),
            },
    {
        self.vars.get(name)
    }

    /// Makes `v` the variable `name`.
    pub fn set_var(&mut self, name: String, v: Value)
        ensures
            final(self)@ == (SFrame { vars: old(self)@.vars.insert(name@, v@), ..old(self)@ }),
    {
        let ghost k = name@;
        let ghost vv = v@;
        let ghost old_vars = self.vars@;
        self.vars.set(name, v);
        assert(vars_view(self.vars@) =~= vars_view(old_vars).insert(k, vv));
    }

    /// The function `name`, if there is one.
    pub fn func(&self, name: &str) -> (r: Option<Rc<FuncDef>>)
        ensures
            match r {
                Some(d) => self@.funcs.contains_key(name@) && self@.funcs[name@] == def_view(d),
                None => !self@.funcs.contains_key(name@),
            },
    {
        match self.funcs.get(name) {
            Some(d) => Some(crate::table::rc_clone(d)),
            None => None,
        }
    }

    /// Makes `d` the function `name`.
    pub fn set_func(&mut self, name: String, d: Rc<FuncDef>)
        ensures
            final(self)@ == (SFrame { funcs: old(self)@.funcs.insert(name@, def_view(d)), ..old(self)@ }),
    {
        let ghost k = name@;
        let ghost dv = def_view(d);
        let ghost old_funcs = self.funcs@;
        self.funcs.set(name, d);
        assert(funcs_view(self.funcs@) =~= funcs_view(old_funcs).insert(k, dv));
    }

    /// Whether the module `name` was loaded.
    pub fn has_loaded(&self, name: &String) -> (r: bool)
        ensures
            r == self@.loaded.contains(name@),
    {
        let mut i: usize = 0;
        while i < self.loaded.len()
            invariant
                i <= self.loaded@.len(),
                forall|j: int| 0 <= j < i ==> self.loaded@[j]@ != name@,
            decreases self.loaded.len() - i,
        {
            if self.loaded[i] == *name {
                assert(self.loaded@[i as int]@ == name@);
                return true;
            }
            i = i + 1;
        }
        false
    }

    /// Records that the module `name` was loaded.
    pub fn mark_loaded(&mut self, name: String)
        ensures
            final(self)@ == (SFrame { loaded: old(self)@.loaded.insert(name@), ..old(self)@ }),
    {
        let ghost old_loaded = self.loaded@;
        let ghost n = name;
        self.loaded.push(name);
        proof {
            lemma_name_set_push(old_loaded, n);
        }
    }

    /// A frame with no variables that sees this frame's functions and loaded modules.
    pub fn child(&self) -> (r: Frame)
        ensures
            r@ == (SFrame { vars: Map::empty(), funcs: self@.funcs, loaded: self@.loaded }),
    {
        let loaded = dup_names(&self.loaded);
        proof {
            lemma_name_set_copy(loaded@, self.loaded@);
        }
        let r = Frame { vars: Table::new(), funcs: self.funcs.copy(), loaded };
        assert(vars_view(r.vars@) =~= Map::empty());
        r
    }
}

} // verus!
