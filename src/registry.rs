use vstd::prelude::*;
use crate::schema::{Schema, SchemaV};

verus! {

/// Named schemas, each name registered at most once.
pub struct Registry {
    schemas: Vec<(String, Schema)>,
}

pub open spec fn has_name(s: Seq<(Seq<char>, SchemaV)>, name: Seq<char>) -> bool {
    exists|i: int| 0 <= i < s.len() && (#[trigger] s[i]).0 == name
}

/// No name is registered twice.
pub open spec fn names_unique(s: Seq<(Seq<char>, SchemaV)>) -> bool {
    forall|i: int, j: int| 0 <= i < j < s.len() ==> (#[trigger] s[i]).0 != (#[trigger] s[j]).0
}

impl View for Registry {
    type V = Seq<(Seq<char>, SchemaV)>;

    closed spec fn view(&self) -> Seq<(Seq<char>, SchemaV)> {
        self.schemas@.map_values(|p: (String, Schema)| (p.0@, p.1@))
    }
}

impl Registry {
    /// An empty registry.
    pub fn new() -> (r: Registry)
        ensures
            r@ == Seq::<(Seq<char>, SchemaV)>::empty(),
            names_unique(r@),
    {
        let r = Registry { schemas: Vec::new() };
        assert(r@ =~= Seq::<(Seq<char>, SchemaV)>::empty());
        r
    }

    /// The number of registered schemas.
    pub fn len(&self) -> (r: usize)
        ensures
            r == self@.len(),
    {
        self.schemas.len()
    }

    /// Whether a schema is registered under `name`.
    pub fn contains(&self, name: &String) -> (r: bool)
        ensures
            r == has_name(self@, name@),
    {
        let mut i: usize = 0;
        while i < self.schemas.len()
            invariant
                i <= self.schemas@.len(),
                forall|j: int| 0 <= j < i ==> (#[trigger] self@[j]).0 != name@,
            decreases self.schemas.len() - i,
        {
            if self.schemas[i].0 == *name {
                assert(self@[i as int].0 == name@);
                return true;
            }
            i += 1;
        }
        false
    }

    /// The schema registered under `name`, if any.
    pub fn get(&self, name: &String) -> (r: Option<&Schema>)
        ensures
            r is None <==> !has_name(self@, name@),
            r is Some ==> exists|i: int|
                0 <= i < self@.len() && (#[trigger] self@[i]).0 == name@ && self@[i].1 == r->0@,
    {
        let mut i: usize = 0;
        while i < self.schemas.len()
            invariant
                i <= self.schemas@.len(),
                forall|j: int| 0 <= j < i ==> (#[trigger] self@[j]).0 != name@,
            decreases self.schemas.len() - i,
        {
            if self.schemas[i].0 == *name {
                assert(self@[i as int].0 == name@);
                return Some(&self.schemas[i].1);
            }
            i += 1;
        }
        None
    }

    /// Adds `schema` under `name` unless the name is taken; the first writer wins.
    pub fn insert_if_absent(&mut self, name: String, schema: Schema)
        ensures
            has_name(old(self)@, name@) ==> final(self)@ == old(self)@,
            !has_name(old(self)@, name@) ==> final(self)@ == old(self)@.push((name@, schema@)),
            names_unique(old(self)@) ==> names_unique(final(self)@),
    {
        if !self.contains(&name) {
            let ghost n = name@;
            let ghost s = schema@;
            self.schemas.push((name, schema));
            proof {
                assert(self@ =~= old(self)@.push((n, s)));
                if names_unique(old(self)@) {
                    assert forall|i: int, j: int| 0 <= i < j < self@.len() implies (#[trigger] self@[i]).0
                        != (#[trigger] self@[j]).0 by {
                        assert(self@[i] == old(self)@[i]);
                        if j == self@.len() - 1 {
                            assert(old(self)@[i].0 != n);
                        } else {
                            assert(self@[j] == old(self)@[j]);
                        }
                    }
                }
            }
        }
    }
}

} // verus!
