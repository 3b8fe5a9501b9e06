//! The chained lexical environment: a stack of scopes, each mapping names to
//! bound values or function definitions. Resolution walks from the innermost
//! scope outward and stops at the first scope that knows the name at all.
use vstd::prelude::*;
use vstd::string::StringExecFns;

use crate::func_def::clone_names;
use crate::statement::{stmt_view, SpecStmt, Statement};
use crate::utils::strings_view;
use crate::val::Val;

verus! {

/// The model of what a name resolves to.
pub enum SpecNamed {
    Binding(Val),
    Func { params: Seq<Seq<char>>, body: SpecStmt },
}

#[derive(Debug, PartialEq)]
enum NamedInfo {
    Binding(Val),
    Func { params: Vec<String>, body: Statement },
}

impl View for NamedInfo {
    type V = SpecNamed;

    closed spec fn view(&self) -> SpecNamed {
        match *self {
            NamedInfo::Binding(v) => SpecNamed::Binding(v),
            NamedInfo::Func { params, body } => SpecNamed::Func {
                params: strings_view(params@),
                body: stmt_view(body),
            },
        }
    }
}

impl Clone for NamedInfo {
    fn clone(&self) -> (r: Self)
        ensures
            r@ == self@,
    {
        match self {
            NamedInfo::Binding(v) => NamedInfo::Binding(*v),
            NamedInfo::Func { params, body } => NamedInfo::Func {
                params: clone_names(params),
                body: body.clone(),
            },
        }
    }
}

/// One scope as a mapping from names; a later entry for a name replaces an
/// earlier one.
spec fn scope_map(entries: Seq<(String, NamedInfo)>) -> Map<Seq<char>, SpecNamed>
    decreases entries.len(),
{
    if entries.len() == 0 {
        Map::empty()
    } else {
        scope_map(entries.drop_last()).insert(entries.last().0@, entries.last().1@)
    }
}

proof fn lemma_scope_map_no_key(entries: Seq<(String, NamedInfo)>, name: Seq<char>)
    requires
        forall|k: int| 0 <= k < entries.len() ==> entries[k].0@ != name,
    ensures
        !scope_map(entries).contains_key(name),
    decreases entries.len(),
{
    if entries.len() != 0 {
        lemma_scope_map_no_key(entries.drop_last(), name);
    }
}

proof fn lemma_scope_map_key_at(entries: Seq<(String, NamedInfo)>, name: Seq<char>, i: int)
    requires
        0 <= i < entries.len(),
        entries[i].0@ == name,
        forall|k: int| i < k < entries.len() ==> entries[k].0@ != name,
    ensures
        scope_map(entries).contains_key(name),
        scope_map(entries)[name] == entries[i].1@,
    decreases entries.len(),
{
    if i + 1 < entries.len() {
        lemma_scope_map_key_at(entries.drop_last(), name, i);
    }
}

/// Two scopes whose entries have equal views map names identically.
proof fn lemma_scope_map_congruence(a: Seq<(String, NamedInfo)>, b: Seq<(String, NamedInfo)>)
    requires
        a.len() == b.len(),
        forall|i: int| 0 <= i < a.len() ==> a[i].0@ == b[i].0@ && a[i].1@ == b[i].1@,
    ensures
        scope_map(a) == scope_map(b),
    decreases a.len(),
{
    if a.len() != 0 {
        lemma_scope_map_congruence(a.drop_last(), b.drop_last());
        assert(scope_map(a) =~= scope_map(b));
    }
}

/// The model of an environment: scope maps, outermost first.
pub type SpecEnv = Seq<Map<Seq<char>, SpecNamed>>;

/// Resolution: the first scope from the inside out that knows the name
/// decides what it means.
pub open spec fn env_lookup(env: SpecEnv, name: Seq<char>) -> Option<SpecNamed>
    decreases env.len(),
{
    if env.len() == 0 {
        None
    } else if env.last().contains_key(name) {
        Some(env.last()[name])
    } else {
        env_lookup(env.drop_last(), name)
    }
}

/// Binding a name in the innermost scope of an environment.
pub open spec fn env_bind(env: SpecEnv, name: Seq<char>, info: SpecNamed) -> SpecEnv {
    env.update(env.len() - 1, env.last().insert(name, info))
}

pub open spec fn binding_not_found_msg(name: Seq<char>) -> Seq<char> {
    "Binding with name `"@ + name + "` not found"@
}

pub open spec fn func_not_found_msg(name: Seq<char>) -> Seq<char> {
    "Function with name `"@ + name + "` not found"@
}

#[derive(Debug, PartialEq)]
pub struct Env {
    scopes: Vec<Vec<(String, NamedInfo)>>,
}

spec fn scopes_view(ss: Seq<Vec<(String, NamedInfo)>>) -> SpecEnv
    decreases ss.len(),
{
    if ss.len() == 0 {
        Seq::empty()
    } else {
        scopes_view(ss.drop_last()).push(scope_map(ss.last()@))
    }
}

proof fn lemma_scopes_view_index(ss: Seq<Vec<(String, NamedInfo)>>)
    ensures
        scopes_view(ss).len() == ss.len(),
        forall|i: int| 0 <= i < ss.len() ==> scopes_view(ss)[i] == scope_map(ss[i]@),
    decreases ss.len(),
{
    if ss.len() != 0 {
        lemma_scopes_view_index(ss.drop_last());
        assert forall|i: int| 0 <= i < ss.len() implies scopes_view(ss)[i] == scope_map(
            ss[i]@,
        ) by {
            if i < ss.len() - 1 {
                assert(scopes_view(ss.drop_last())[i] == scope_map(ss.drop_last()[i]@));
            }
        }
    }
}

impl View for Env {
    type V = SpecEnv;

    closed spec fn view(&self) -> SpecEnv {
        scopes_view(self.scopes@)
    }
}

impl Default for Env {
    /// A fresh environment with a single empty top-level scope.
    fn default() -> (r: Self)
        ensures
            r@ =~= seq![Map::<Seq<char>, SpecNamed>::empty()],
    {
        let mut scopes: Vec<Vec<(String, NamedInfo)>> = Vec::new();
        scopes.push(Vec::new());
        let r = Env { scopes };
        proof {
            let ss = r.scopes@;
            assert(ss.drop_last() =~= Seq::<Vec<(String, NamedInfo)>>::empty());
            assert(scopes_view(ss.drop_last()) =~= Seq::<Map<Seq<char>, SpecNamed>>::empty());
            assert(scope_map(ss.last()@) =~= Map::<Seq<char>, SpecNamed>::empty());
            assert(r@ =~= seq![Map::<Seq<char>, SpecNamed>::empty()]);
        }
        r
    }
}

impl Env {
    /// An environment is a non-empty stack of scopes.
    pub open spec fn well_formed(&self) -> bool {
        self@.len() >= 1
    }

    fn clone_scope(entries: &Vec<(String, NamedInfo)>) -> (r: Vec<(String, NamedInfo)>)
        ensures
            scope_map(r@) == scope_map(entries@),
    {
        let mut r: Vec<(String, NamedInfo)> = Vec::new();
        let n = entries.len();
        let mut i: usize = 0;
        while i < n
            invariant
                i <= n,
                n == entries@.len(),
                r@.len() == i,
                forall|j: int|
                    0 <= j < i ==> r@[j].0@ == entries@[j].0@ && r@[j].1@ == entries@[j].1@,
            decreases n - i,
        {
            let e = &entries[i];
            r.push((e.0.clone(), e.1.clone()));
            i += 1;
        }
        proof {
            lemma_scope_map_congruence(r@, entries@);
        }
        r
    }

    /// A child environment: the same chain of scopes with one new empty
    /// scope on top. The original is left untouched.
    pub fn create_child(&self) -> (r: Self)
        ensures
            r@ == self@.push(Map::<Seq<char>, SpecNamed>::empty()),
    {
        let mut scopes: Vec<Vec<(String, NamedInfo)>> = Vec::new();
        let n = self.scopes.len();
        let mut i: usize = 0;
        while i < n
            invariant
                i <= n,
                n == self.scopes@.len(),
                scopes@.len() == i,
                forall|j: int| 0 <= j < i ==> scope_map(scopes@[j]@) == scope_map(self.scopes@[j]@),
            decreases n - i,
        {
            scopes.push(Self::clone_scope(&self.scopes[i]));
            i += 1;
        }
        scopes.push(Vec::new());
        let r = Env { scopes };
        proof {
            lemma_scopes_view_index(r.scopes@);
            lemma_scopes_view_index(self.scopes@);
            assert(r.scopes@[n as int]@ =~= Seq::<(String, NamedInfo)>::empty());
            assert(r@ =~= self@.push(Map::<Seq<char>, SpecNamed>::empty()));
        }
        r
    }

    /// Stores `val` under `name` in the innermost scope, replacing any
    /// earlier meaning of the name there.
    pub fn add_binding(&mut self, name: String, val: Val)
        requires
            old(self).well_formed(),
        ensures
            final(self)@ == env_bind(old(self)@, name@, SpecNamed::Binding(val)),
    {
        self.add_named(name, NamedInfo::Binding(val));
    }

    /// Stores a function definition under `name` in the innermost scope.
    pub fn add_func(&mut self, name: String, params: Vec<String>, body: Statement)
        requires
            old(self).well_formed(),
        ensures
            final(self)@ == env_bind(
                old(self)@,
                name@,
                SpecNamed::Func { params: strings_view(params@), body: body@ },
            ),
    {
        self.add_named(name, NamedInfo::Func { params, body });
    }

    fn add_named(&mut self, name: String, info: NamedInfo)
        requires
            old(self).well_formed(),
        ensures
            final(self)@ == old(self)@.update(
                old(self)@.len() - 1,
                old(self)@.last().insert(name@, info@),
            ),
    {
        proof {
            lemma_scopes_view_index(self.scopes@);
        }
        let ghost old_scopes = self.scopes@;
        let mut scope = self.scopes.pop().unwrap();
        let ghost old_scope = scope@;
        scope.push((name, info));
        self.scopes.push(scope);
        proof {
            assert(scope@.drop_last() =~= old_scope);
            assert(self.scopes@.drop_last() =~= old_scopes.drop_last());
            lemma_scopes_view_index(self.scopes@);
            lemma_scopes_view_index(old_scopes);
            assert(scopes_view(old_scopes.drop_last()) =~= scopes_view(
                self.scopes@.drop_last(),
            )) by {
                lemma_scopes_view_index(old_scopes.drop_last());
                lemma_scopes_view_index(self.scopes@.drop_last());
            }
            assert(self@ =~= scopes_view(old_scopes).update(
                old_scopes.len() - 1,
                scopes_view(old_scopes).last().insert(name@, info@),
            ));
        }
    }

    fn scope_get<'a>(entries: &'a Vec<(String, NamedInfo)>, name: &String) -> (r: Option<
        &'a NamedInfo,
    >)
        ensures
            (match r {
                Some(info) => scope_map(entries@).contains_key(name@) && info@ == scope_map(
                    entries@,
                )[name@],
                None => !scope_map(entries@).contains_key(name@),
            }),
    {
        let mut j = entries.len();
        while j > 0
            invariant
                j <= entries@.len(),
                forall|k: int| j <= k < entries@.len() ==> entries@[k].0@ != name@,
            decreases j,
        {
            j = j - 1;
            let e = &entries[j];
            if e.0 == *name {
                proof {
                    lemma_scope_map_key_at(entries@, name@, j as int);
                }
                return Some(&e.1);
            }
        }
        proof {
            lemma_scope_map_no_key(entries@, name@);
        }
        None
    }

    fn get_named_info(&self, name: &String) -> (r: Option<&NamedInfo>)
        ensures
            (match r {
                Some(info) => env_lookup(self@, name@) matches Some(sn) && sn == info@,
                None => env_lookup(self@, name@) is None,
            }),
    {
        proof {
            lemma_scopes_view_index(self.scopes@);
            assert(self@.take(self@.len() as int) =~= self@);
        }
        let mut i = self.scopes.len();
        while i > 0
            invariant
                i <= self.scopes@.len(),
                self@.len() == self.scopes@.len(),
                forall|k: int|
                    0 <= k < self.scopes@.len() ==> self@[k] == scope_map(self.scopes@[k]@),
                env_lookup(self@, name@) == env_lookup(self@.take(i as int), name@),
            decreases i,
        {
            i = i - 1;
            let found = Self::scope_get(&self.scopes[i], name);
            proof {
                assert(self@.take(i + 1).last() == self@[i as int]);
                assert(self@.take(i + 1).drop_last() =~= self@.take(i as int));
            }
            match found {
                Some(info) => {
                    return Some(info);
                },
                None => {
                },
            }
        }
        proof {
            assert(self@.take(0) =~= Seq::<Map<Seq<char>, SpecNamed>>::empty());
        }
        None
    }

    /// Looks the name up as a binding; a name that is absent from the whole
    /// chain, or that resolves to a function, is not a binding.
    pub fn get_binding(&self, name: &str) -> (r: Result<Val, String>)
        ensures
            (match env_lookup(self@, name@) {
                Some(SpecNamed::Binding(v)) => r matches Ok(rv) && rv == v,
                _ => r matches Err(m) && m@ == binding_not_found_msg(name@),
            }),
    {
        let name_string = String::from_str(name);
        match self.get_named_info(&name_string) {
            Some(NamedInfo::Binding(v)) => Ok(*v),
            _ => Err(
                String::from_str("Binding with name `").concat(name).concat("` not found"),
            ),
        }
    }

    /// Looks the name up as a function; a name that is absent from the whole
    /// chain, or that resolves to a binding, is not a function.
    pub fn get_func(&self, name: &str) -> (r: Result<(Vec<String>, Statement), String>)
        ensures
            (match env_lookup(self@, name@) {
                Some(SpecNamed::Func { params, body }) => r matches Ok(p) && strings_view(p.0@)
                    == params && p.1@ == body,
                _ => r matches Err(m) && m@ == func_not_found_msg(name@),
            }),
    {
        let name_string = String::from_str(name);
        match self.get_named_info(&name_string) {
            Some(NamedInfo::Func { params, body }) => Ok((clone_names(params), body.clone())),
            _ => Err(
                String::from_str("Function with name `").concat(name).concat("` not found"),
            ),
        }
    }
}

} // verus!
