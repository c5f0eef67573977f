//! Manages the values of different identifiers.

use vstd::prelude::*;

use crate::error::Error;
use crate::object::{Object, Value};

verus! {

/// The model of an environment: its scopes, innermost first, each a map
/// from names to values.
pub type Scopes = Seq<Map<Seq<char>, Value>>;

/// The value bound to `k`, taken from the innermost scope that binds it.
pub open spec fn lookup(scopes: Scopes, k: Seq<char>) -> Option<Value>
    decreases scopes.len(),
{
    if scopes.len() == 0 {
        None
    } else if scopes[0].contains_key(k) {
        Some(scopes[0][k])
    } else {
        lookup(scopes.subrange(1, scopes.len() as int), k)
    }
}

/// The scopes after binding `k` to `v` in the innermost scope.
pub open spec fn bind(scopes: Scopes, k: Seq<char>, v: Value) -> Scopes {
    if scopes.len() == 0 {
        scopes
    } else {
        scopes.update(0, scopes[0].insert(k, v))
    }
}

/// The map that a list of bindings stands for; a later binding of a name
/// hides an earlier one.
pub closed spec fn store_model(s: Seq<(String, Object)>) -> Map<Seq<char>, Value>
    decreases s,
{
    if s.len() == 0 {
        Map::empty()
    } else {
        store_model(s.subrange(0, s.len() - 1)).insert(
            s[s.len() - 1].0@,
            s[s.len() - 1].1.model(),
        )
    }
}

/// The names bound in a list of bindings.
proof fn lemma_store_dom(s: Seq<(String, Object)>, k: Seq<char>)
    ensures
        store_model(s).contains_key(k) <==> exists|i: int| 0 <= i < s.len() && #[trigger] s[i].0@ == k,
    decreases s.len(),
{
    if s.len() > 0 {
        let p = s.subrange(0, s.len() - 1);
        lemma_store_dom(p, k);
        if store_model(s).contains_key(k) && s[s.len() - 1].0@ != k {
            let i = choose|i: int| 0 <= i < p.len() && #[trigger] p[i].0@ == k;
            assert(s[i].0@ == k);
        }
        if exists|i: int| 0 <= i < s.len() && #[trigger] s[i].0@ == k {
            let i = choose|i: int| 0 <= i < s.len() && #[trigger] s[i].0@ == k;
            if i < s.len() - 1 {
                assert(p[i].0@ == k);
            }
        }
    }
}

/// The value of a name is that of its last binding.
proof fn lemma_store_last(s: Seq<(String, Object)>, i: int)
    requires
        0 <= i < s.len(),
        forall|j: int| i < j < s.len() ==> #[trigger] s[j].0@ != s[i].0@,
    ensures
        store_model(s).contains_key(s[i].0@),
        store_model(s)[s[i].0@] == s[i].1.model(),
    decreases s.len(),
{
    if i < s.len() - 1 {
        let p = s.subrange(0, s.len() - 1);
        assert(s[s.len() - 1].0@ != s[i].0@);
        assert forall|j: int| i < j < p.len() implies #[trigger] p[j].0@ != p[i].0@ by {
            assert(s[j].0@ != s[i].0@);
        }
        lemma_store_last(p, i);
    }
}

/// Replacing the last binding of a name rebinds the name.
proof fn lemma_store_update(s: Seq<(String, Object)>, i: int, x: (String, Object))
    requires
        0 <= i < s.len(),
        x.0@ == s[i].0@,
        forall|j: int| i < j < s.len() ==> #[trigger] s[j].0@ != s[i].0@,
    ensures
        store_model(s.update(i, x)) == store_model(s).insert(x.0@, x.1.model()),
    decreases s.len(),
{
    let t = s.update(i, x);
    let p = s.subrange(0, s.len() - 1);
    if i == s.len() - 1 {
        assert(t.subrange(0, t.len() - 1) =~= p);
        assert(store_model(t) =~= store_model(s).insert(x.0@, x.1.model()));
    } else {
        assert(s[s.len() - 1].0@ != s[i].0@);
        assert forall|j: int| i < j < p.len() implies #[trigger] p[j].0@ != p[i].0@ by {
            assert(s[j].0@ != s[i].0@);
        }
        lemma_store_update(p, i, x);
        assert(t.subrange(0, t.len() - 1) =~= p.update(i, x));
        assert(store_model(t) =~= store_model(s).insert(x.0@, x.1.model()));
    }
}

/// Adding a binding at the end binds the name.
proof fn lemma_store_push(s: Seq<(String, Object)>, x: (String, Object))
    ensures
        store_model(s.push(x)) == store_model(s).insert(x.0@, x.1.model()),
{
    assert(s.push(x).subrange(0, s.len() as int) =~= s);
}

/// Two lists of bindings with the same names and values in the same order
/// stand for the same map.
proof fn lemma_store_congruent(s: Seq<(String, Object)>, t: Seq<(String, Object)>)
    requires
        s.len() == t.len(),
        forall|j: int| 0 <= j < s.len() ==> #[trigger] s[j].0@ == t[j].0@ && s[j].1.model() == t[j].1.model(),
    ensures
        store_model(s) == store_model(t),
    decreases s.len(),
{
    if s.len() > 0 {
        let p = s.subrange(0, s.len() - 1);
        let q = t.subrange(0, t.len() - 1);
        assert forall|j: int| 0 <= j < p.len() implies #[trigger] p[j].0@ == q[j].0@ && p[j].1.model() == q[j].1.model() by {
            assert(s[j].0@ == t[j].0@ && s[j].1.model() == t[j].1.model());
        }
        lemma_store_congruent(p, q);
        assert(s[s.len() - 1].0@ == t[t.len() - 1].0@);
    }
}

/// A collection of name -> object bindings.
#[derive(Debug)]
pub struct Store {
    entries: Vec<(String, Object)>,
}

impl Store {
    pub closed spec fn model(&self) -> Map<Seq<char>, Value>
        decreases *self,
    {
        store_model(self.entries@)
    }

    /// An empty store.
    pub fn new() -> (r: Store)
        ensures
            r.model() == Map::<Seq<char>, Value>::empty(),
    {
        Store { entries: Vec::new() }
    }

    /// The position of the last binding of `id`.
    fn position(&self, id: &String) -> (r: Option<usize>)
        ensures
            match r {
                Some(i) => {
                    &&& i < self.entries@.len()
                    &&& self.entries@[i as int].0@ == id@
                    &&& forall|j: int| i < j < self.entries@.len() ==> #[trigger] self.entries@[j].0@ != id@
                },
                None => forall|j: int| 0 <= j < self.entries@.len() ==> #[trigger] self.entries@[j].0@ != id@,
            },
    {
        let mut i: usize = self.entries.len();
        while i > 0
            invariant
                i <= self.entries@.len(),
                forall|j: int| i <= j < self.entries@.len() ==> #[trigger] self.entries@[j].0@ != id@,
            decreases i,
        {
            i = i - 1;
            if self.entries[i].0 == *id {
                return Some(i);
            }
        }
        None
    }

    /// The object bound to `id`, if any.
    pub fn get(&self, id: &String) -> (r: Option<&Object>)
        ensures
            match r {
                Some(o) => self.model().contains_key(id@) && self.model()[id@] == o.model(),
                None => !self.model().contains_key(id@),
            },
    {
        proof {
            lemma_store_dom(self.entries@, id@);
        }
        match self.position(id) {
            Some(i) => {
                proof {
                    lemma_store_last(self.entries@, i as int);
                }
                Some(&self.entries[i].1)
            },
            None => None,
        }
    }

    /// Binds `id` to `obj`, replacing an earlier binding of `id`.
    pub fn insert(&mut self, id: String, obj: Object)
        ensures
            final(self).model() == old(self).model().insert(id@, obj.model()),
    {
        match self.position(&id) {
            Some(i) => {
                proof {
                    lemma_store_update(self.entries@, i as int, (id, obj));
                }
                self.entries.set(i, (id, obj));
            },
            None => {
                proof {
                    lemma_store_push(self.entries@, (id, obj));
                }
                self.entries.push((id, obj));
            },
        }
    }

    /// A copy of the store with the same model.
    pub fn copy(&self) -> (r: Store)
        ensures
            r.model() == self.model(),
        decreases *self,
    {
        let mut r: Vec<(String, Object)> = Vec::new();
        let mut i: usize = 0;
        while i < self.entries.len()
            invariant
                i <= self.entries@.len(),
                r@.len() == i,
                forall|j: int| 0 <= j < i ==> #[trigger] r@[j].0@ == self.entries@[j].0@ && r@[j].1.model() == self.entries@[j].1.model(),
            decreases self.entries@.len() - i,
        {
            let name = self.entries[i].0.clone();
            let obj = self.entries[i].1.copy();
            r.push((name, obj));
            i = i + 1;
        }
        proof {
            lemma_store_congruent(r@, self.entries@);
        }
        Store { entries: r }
    }

    /// Whether two stores bind the same names to the same values.
    pub fn same(&self, other: &Store) -> (r: bool)
        ensures
            r == (self.model() == other.model()),
        decreases *self,
    {
        let mut i: usize = 0;
        while i < self.entries.len()
            invariant
                i <= self.entries@.len(),
                forall|j: int| 0 <= j < i ==> {
                    let k = #[trigger] self.entries@[j].0@;
                    &&& other.model().contains_key(k)
                    &&& self.model().contains_key(k)
                    &&& self.model()[k] == other.model()[k]
                },
            decreases self.entries@.len() - i,
        {
            let name = &self.entries[i].0;
            proof {
                lemma_store_dom(self.entries@, name@);
                lemma_store_dom(other.entries@, name@);
            }
            let a = match self.position(name) {
                Some(a) => a,
                None => {
                    return false;
                },
            };
            let b = match other.position(name) {
                Some(b) => b,
                None => {
                    return false;
                },
            };
            proof {
                lemma_store_last(self.entries@, a as int);
                lemma_store_last(other.entries@, b as int);
            }
            if !self.entries[a].1.same(&other.entries[b].1) {
                return false;
            }
            i = i + 1;
        }
        let mut j: usize = 0;
        while j < other.entries.len()
            invariant
                j <= other.entries@.len(),
                forall|l: int| 0 <= l < j ==> self.model().contains_key(#[trigger] other.entries@[l].0@),
            decreases other.entries@.len() - j,
        {
            let name = &other.entries[j].0;
            proof {
                lemma_store_dom(self.entries@, name@);
                lemma_store_dom(other.entries@, name@);
            }
            if self.position(name).is_none() {
                return false;
            }
            j = j + 1;
        }
        proof {
            assert forall|k: Seq<char>| #[trigger] self.model().contains_key(k) implies other.model().contains_key(k)
                && self.model()[k] == other.model()[k] by {
                lemma_store_dom(self.entries@, k);
                let l = choose|l: int| 0 <= l < self.entries@.len() && #[trigger] self.entries@[l].0@ == k;
                assert(self.entries@[l].0@ == k);
            }
            assert forall|k: Seq<char>| #[trigger] other.model().contains_key(k) implies self.model().contains_key(k) by {
                lemma_store_dom(other.entries@, k);
                let l = choose|l: int| 0 <= l < other.entries@.len() && #[trigger] other.entries@[l].0@ == k;
                assert(other.entries@[l].0@ == k);
            }
            assert(self.model() =~= other.model());
        }
        true
    }
}

/// A collection of id -> object data.
///
/// This is used to access where the data actually lives.
pub trait Env {
    spec fn scopes(&self) -> Scopes;

    fn get(&self, id: String) -> (r: Result<Object, Error>)
        ensures
            match lookup(self.scopes(), id@) {
                Some(v) => r matches Ok(o) && o.model() == v,
                None => r matches Err(e) && e@ == crate::error::ErrorModel::IdNotFound(id@),
            },
    ;

    fn set(&mut self, id: String, obj: Object)
        ensures
            final(self).scopes() == bind(old(self).scopes(), id@, obj.model()),
    ;
}

/// The outermost environment.
#[derive(Debug)]
pub struct Root {
    store: Store,
}

/// An environment inside another one.
#[derive(Debug)]
pub struct Nested {
    store: Store,
    outer: Box<Environment>,
}

/// Either kind of environment.
#[derive(Debug)]
pub enum Environment {
    Root(Root),
    Nested(Nested),
}

impl Root {
    pub closed spec fn model(&self) -> Scopes
        decreases *self,
    {
        seq![self.store.model()]
    }

    /// A root environment has exactly one scope.
    pub proof fn lemma_one_scope(&self)
        ensures
            self.model().len() == 1,
    {
    }

    /// An empty root environment.
    pub fn new() -> (r: Self)
        ensures
            r.model() == seq![Map::<Seq<char>, Value>::empty()],
    {
        Root { store: Store::new() }
    }
}

impl Nested {
    pub closed spec fn model(&self) -> Scopes
        decreases *self,
    {
        seq![self.store.model()] + self.outer.model()
    }

    /// An empty environment inside `outer`.
    pub fn new(outer: Box<Environment>) -> (r: Self)
        ensures
            r.model() == seq![Map::<Seq<char>, Value>::empty()] + outer.model(),
    {
        Nested { store: Store::new(), outer }
    }

    /// An environment inside `outer` whose scope holds the bindings of `store`.
    pub fn with_store(store: Store, outer: Box<Environment>) -> (r: Self)
        ensures
            r.model() == seq![store.model()] + outer.model(),
    {
        Nested { store, outer }
    }
}

impl Environment {
    pub open spec fn model(&self) -> Scopes
        decreases *self,
    {
        match self {
            Environment::Root(r) => r.model(),
            Environment::Nested(n) => n.model(),
        }
    }

    /// Every environment has at least one scope.
    pub proof fn lemma_nonempty(&self)
        ensures
            self.model().len() >= 1,
        decreases *self,
    {
        match self {
            Environment::Root(r) => {},
            Environment::Nested(n) => {
                (*n.outer).lemma_nonempty();
            },
        }
    }

    /// The object bound to `id` in the innermost scope that binds it.
    pub fn find(&self, id: &String) -> (r: Option<&Object>)
        ensures
            match r {
                Some(o) => lookup(self.model(), id@) == Some(o.model()),
                None => lookup(self.model(), id@) is None,
            },
        decreases *self,
    {
        match self {
            Environment::Root(r) => {
                let found = r.store.get(id);
                proof {
                    reveal_with_fuel(lookup, 2);
                    assert(self.model().subrange(1, 1).len() == 0);
                }
                found
            },
            Environment::Nested(n) => {
                proof {
                    assert(self.model().subrange(1, self.model().len() as int) =~= n.outer.model());
                }
                match n.store.get(id) {
                    Some(o) => Some(o),
                    None => (*n.outer).find(id),
                }
            },
        }
    }

    /// Binds `id` to `obj` in the innermost scope.
    pub fn bind(&mut self, id: String, obj: Object)
        ensures
            final(self).model() == bind(old(self).model(), id@, obj.model()),
    {
        proof {
            self.lemma_nonempty();
        }
        match self {
            Environment::Root(r) => {
                r.store.insert(id, obj);
                assert(r.model() =~= bind(old(self).model(), id@, obj.model()));
            },
            Environment::Nested(n) => {
                n.store.insert(id, obj);
                assert(n.model() =~= bind(old(self).model(), id@, obj.model()));
            },
        }
    }

    /// A copy of the environment with the same model.
    pub fn copy(&self) -> (r: Environment)
        ensures
            r.model() == self.model(),
        decreases *self,
    {
        match self {
            Environment::Root(r) => Environment::Root(Root { store: r.store.copy() }),
            Environment::Nested(n) => Environment::Nested(
                Nested { store: n.store.copy(), outer: Box::new((*n.outer).copy()) },
            ),
        }
    }

    /// Whether two environments have the same model.
    pub fn same(&self, other: &Environment) -> (r: bool)
        ensures
            r == (self.model() == other.model()),
        decreases *self,
    {
        proof {
            self.lemma_nonempty();
            other.lemma_nonempty();
        }
        match (self, other) {
            (Environment::Root(a), Environment::Root(b)) => {
                let r = a.store.same(&b.store);
                proof {
                    if !r {
                        assert(self.model()[0] != other.model()[0]);
                    }
                }
                r
            },
            (Environment::Nested(a), Environment::Nested(b)) => {
                if !a.store.same(&b.store) {
                    assert(self.model()[0] != other.model()[0]);
                    return false;
                }
                let r = (*a.outer).same(&*b.outer);
                proof {
                    if r {
                        assert(self.model() =~= other.model());
                    } else {
                        assert(self.model().subrange(1, self.model().len() as int) =~= a.outer.model());
                        assert(other.model().subrange(1, other.model().len() as int) =~= b.outer.model());
                    }
                }
                r
            },
            (Environment::Root(a), Environment::Nested(b)) => {
                proof {
                    (*b.outer).lemma_nonempty();
                }
                false
            },
            (Environment::Nested(a), Environment::Root(b)) => {
                proof {
                    (*a.outer).lemma_nonempty();
                }
                false
            },
        }
    }
}

impl Env for Root {
    open spec fn scopes(&self) -> Scopes {
        self.model()
    }

    fn get(&self, id: String) -> (r: Result<Object, Error>) {
        proof {
            reveal_with_fuel(lookup, 2);
            assert(self.model().subrange(1, 1).len() == 0);
        }
        match self.store.get(&id) {
            Some(obj) => Ok(obj.copy()),
            None => Err(Error::IdNotFound(id)),
        }
    }

    fn set(&mut self, id: String, obj: Object) {
        self.store.insert(id, obj);
        assert(self.model() =~= bind(old(self).model(), id@, obj.model()));
    }
}

impl Env for Nested {
    open spec fn scopes(&self) -> Scopes {
        self.model()
    }

    fn get(&self, id: String) -> (r: Result<Object, Error>) {
        proof {
            assert(self.model().subrange(1, self.model().len() as int) =~= self.outer.model());
        }
        match self.store.get(&id) {
            Some(obj) => Ok(obj.copy()),
            None => match (*self.outer).find(&id) {
                Some(obj) => Ok(obj.copy()),
                None => Err(Error::IdNotFound(id)),
            },
        }
    }

    fn set(&mut self, id: String, obj: Object) {
        self.store.insert(id, obj);
        assert(self.model() =~= bind(old(self).model(), id@, obj.model()));
    }
}

impl Env for Environment {
    open spec fn scopes(&self) -> Scopes {
        self.model()
    }

    fn get(&self, id: String) -> (r: Result<Object, Error>) {
        match self.find(&id) {
            Some(obj) => Ok(obj.copy()),
            None => Err(Error::IdNotFound(id)),
        }
    }

    fn set(&mut self, id: String, obj: Object) {
        self.bind(id, obj);
    }
}

} // verus!
