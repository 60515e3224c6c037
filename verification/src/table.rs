//! Values kept by name, together with the names in the order they were first
//! given.
use vstd::prelude::*;
use vstd::hash_map::StringHashMap;
use vstd::string::*;

verus! {

/// A value for each name; a name given again keeps its place and gets the
/// new value.
#[verifier::reject_recursive_types(V)]
pub struct NamedTable<V> {
    entries: StringHashMap<V>,
    names: Vec<String>,
}

/// The texts of names.
pub open spec fn name_texts(names: Seq<String>) -> Seq<Seq<char>> {
    names.map_values(|s: String| s@)
}

impl<V> NamedTable<V> {
    /// The value of each name.
    pub closed spec fn entries(&self) -> Map<Seq<char>, V> {
        self.entries@
    }

    /// The names, in the order they were first given.
    pub closed spec fn names(&self) -> Seq<Seq<char>> {
        name_texts(self.names@)
    }

    /// Each name occurs once, and the names are those that have a value.
    #[verifier::type_invariant]
    closed spec fn wf(&self) -> bool {
        &&& self.names().no_duplicates()
        &&& forall|k: Seq<char>|
            #![trigger self.entries@.contains_key(k)]
            self.entries@.contains_key(k) <==> self.names().contains(k)
    }

    /// No name.
    pub fn new() -> (r: NamedTable<V>)
        ensures
            r.entries() == Map::<Seq<char>, V>::empty(),
            r.names() == Seq::<Seq<char>>::empty(),
    {
        let r = NamedTable { entries: StringHashMap::new(), names: Vec::new() };
        assert(r.names() =~= Seq::<Seq<char>>::empty());
        r
    }

    /// Gives `name` the value `value`; a new name goes after the others.
    pub fn insert(&mut self, name: &str, value: V)
        ensures
            final(self).entries() == old(self).entries().insert(name@, value),
            final(self).names() == (if old(self).entries().contains_key(name@) {
                old(self).names()
            } else {
                old(self).names().push(name@)
            }),
    {
        proof {
            use_type_invariant(&*self);
        }
        let mut taken = NamedTable::new();
        std::mem::swap(&mut taken, self);
        let NamedTable { mut entries, mut names } = taken;
        let ghost old_names = name_texts(names@);
        let ghost old_entries = entries@;
        let known = entries.contains_key(name);
        if !known {
            names.push(String::from_str(name));
            proof {
                assert(name_texts(names@) =~= old_names.push(name@));
            }
        }
        entries.insert(String::from_str(name), value);
        proof {
            let nn = name_texts(names@);
            if !known {
                assert(!old_names.contains(name@));
                assert forall|i: int, j: int| 0 <= i < j < nn.len() implies nn[i] != nn[j] by {
                    assert(nn[i] == old_names[i]);
                    if j < nn.len() - 1 {
                        assert(nn[j] == old_names[j]);
                    }
                }
            }
            assert forall|k: Seq<char>| #![trigger entries@.contains_key(k)]
                entries@.contains_key(k) <==> nn.contains(k) by {
                if known {
                    assert(old_entries.contains_key(name@));
                } else {
                    if nn.contains(k) {
                        let i = choose|i: int| 0 <= i < nn.len() && nn[i] == k;
                        if i < old_names.len() {
                            assert(old_names[i] == k);
                        }
                    }
                    if old_names.contains(k) {
                        let i = choose|i: int| 0 <= i < old_names.len() && old_names[i] == k;
                        assert(nn[i] == k);
                    }
                    assert(nn[nn.len() - 1] == name@);
                }
            }
        }
        *self = NamedTable { entries, names };
    }

    /// The value of `name`, if it has one.
    pub fn get(&self, name: &str) -> (r: Option<&V>)
        ensures
            match r {
                Some(v) => self.entries().contains_key(name@) && *v == self.entries()[name@],
                None => !self.entries().contains_key(name@),
            },
    {
        self.entries.get(name)
    }

    /// The names, in the order they were first given: each once, and exactly
    /// those that have a value.
    pub fn names_in_order(&self) -> (r: &Vec<String>)
        ensures
            name_texts(r@) == self.names(),
            self.names().no_duplicates(),
            forall|k: Seq<char>|
                #![trigger self.entries().contains_key(k)]
                self.entries().contains_key(k) <==> self.names().contains(k),
    {
        proof {
            use_type_invariant(self);
        }
        &self.names
    }
}

} // verus!
