//! Caller-owned shared state, passed by reference with explicit
//! initialization, in place of process-wide static registries: an ordered
//! collection of inserted entries, and a name-to-roles registry with
//! first-match lookup and unique keys.

use vstd::prelude::*;

verus! {

/// An ordered collection of inserted entries, owned by the caller.
pub struct FruitStore {
    items: Vec<String>,
}

impl View for FruitStore {
    type V = Seq<Seq<char>>;

    closed spec fn view(&self) -> Seq<Seq<char>> {
        self.items.deep_view()
    }
}

impl FruitStore {
    /// An empty store.
    pub fn new() -> (r: FruitStore)
        ensures
            r@.len() == 0,
    {
        let r = FruitStore { items: Vec::new() };
        proof {
            assert(r@ =~~= Seq::<Seq<char>>::empty());
        }
        r
    }

    /// Append one entry; every earlier entry keeps its place.
    pub fn insert(&mut self, fruit: &str)
        ensures
            final(self)@ == old(self)@.push(fruit@),
    {
        let ghost old_view = self@;
        self.items.push(fruit.to_owned());
        proof {
            assert(self@ =~~= old_view.push(fruit@));
        }
    }

    /// How many entries were inserted.
    pub fn len(&self) -> (r: usize)
        ensures
            r == self@.len(),
    {
        self.items.len()
    }

    /// The entry at a position, in insertion order.
    pub fn get(&self, i: usize) -> (r: &String)
        requires
            i < self@.len(),
        ensures
            r@ == self@[i as int],
    {
        &self.items[i]
    }
}

/// The first entry with the given key, if any.
pub open spec fn spec_lookup(
    entries: Seq<(Seq<char>, Seq<Seq<char>>)>,
    name: Seq<char>,
) -> Option<Seq<Seq<char>>>
    decreases entries.len(),
{
    if entries.len() == 0 {
        None
    } else if entries[0].0 == name {
        Some(entries[0].1)
    } else {
        spec_lookup(entries.skip(1), name)
    }
}

/// A registry of names and the roles granted to each, owned by the caller.
pub struct PrivilegeRegistry {
    entries: Vec<(String, Vec<String>)>,
}

impl View for PrivilegeRegistry {
    type V = Seq<(Seq<char>, Seq<Seq<char>>)>;

    closed spec fn view(&self) -> Seq<(Seq<char>, Seq<Seq<char>>)> {
        Seq::new(
            self.entries@.len(),
            |i: int| (self.entries@[i].0@, self.entries@[i].1.deep_view()),
        )
    }
}

impl PrivilegeRegistry {
    /// An empty registry.
    pub fn new() -> (r: PrivilegeRegistry)
        ensures
            r@.len() == 0,
    {
        PrivilegeRegistry { entries: Vec::new() }
    }

    /// Grant roles to a name not yet present; keys stay unique.
    pub fn grant(&mut self, name: String, roles: Vec<String>)
        requires
            spec_lookup(old(self)@, name@) is None,
        ensures
            final(self)@ == old(self)@.push((name@, roles.deep_view())),
    {
        let ghost old_view = self@;
        let ghost nv = name@;
        let ghost rv = roles.deep_view();
        self.entries.push((name, roles));
        proof {
            assert(self@ =~= old_view.push((nv, rv)));
        }
    }

    /// The roles granted to a name: exactly the entry the registry holds
    /// for it, or nothing when the name is absent.
    pub fn privileges_of(&self, name: &String) -> (r: Option<&Vec<String>>)
        ensures
            match spec_lookup(self@, name@) {
                Some(v) => r matches Some(x) && x.deep_view() == v,
                None => r is None,
            },
    {
        let mut i: usize = 0;
        proof {
            assert(self@.skip(0) =~= self@);
        }
        while i < self.entries.len()
            invariant
                0 <= i <= self.entries@.len(),
                self@.len() == self.entries@.len(),
                forall|t: int|
                    0 <= t < self.entries@.len() ==> self@[t] == ((#[trigger] self.entries@[t]).0@,
                    self.entries@[t].1.deep_view()),
                spec_lookup(self@, name@) == spec_lookup(self@.skip(i as int), name@),
            decreases self.entries@.len() - i,
        {
            let ghost rem = self@.skip(i as int);
            proof {
                assert(rem.len() > 0);
                assert(rem[0] == self@[i as int]);
                assert(rem.skip(1) =~= self@.skip(i as int + 1));
                assert(spec_lookup(rem, name@) == (if rem[0].0 == name@ {
                    Some(rem[0].1)
                } else {
                    spec_lookup(rem.skip(1), name@)
                }));
            }
            let entry = &self.entries[i];
            if entry.0 == *name {
                return Some(&entry.1);
            }
            i += 1;
        }
        proof {
            assert(self@.skip(i as int) =~= Seq::<(Seq<char>, Seq<Seq<char>>)>::empty());
        }
        None
    }

    /// The registry the demo data describes: two names with their role
    /// lists.
    pub fn with_demo_entries() -> (r: PrivilegeRegistry)
        ensures
            r@.len() == 2,
            r@[0].0 == "James"@ && r@[0].1 == seq!["user"@, "admin"@],
            r@[1].0 == "Jim"@ && r@[1].1 == seq!["user"@],
    {
        let mut r = PrivilegeRegistry::new();
        let mut james_roles: Vec<String> = Vec::new();
        james_roles.push("user".to_owned());
        james_roles.push("admin".to_owned());
        let mut jim_roles: Vec<String> = Vec::new();
        jim_roles.push("user".to_owned());
        proof {
            assert(spec_lookup(r@, "James"@) is None);
            assert(james_roles.deep_view() =~~= seq!["user"@, "admin"@]);
            assert(jim_roles.deep_view() =~~= seq!["user"@]);
        }
        r.grant("James".to_owned(), james_roles);
        proof {
            assert(r@.len() == 1);
            assert("James"@ != "Jim"@) by {
                reveal_strlit("James");
                reveal_strlit("Jim");
                assert("James"@.len() == 5);
                assert("Jim"@.len() == 3);
            }
            assert(spec_lookup(r@.skip(1), "Jim"@) is None) by {
                assert(r@.skip(1) =~= Seq::<(Seq<char>, Seq<Seq<char>>)>::empty());
            }
        }
        r.grant("Jim".to_owned(), jim_roles);
        r
    }
}

} // verus!
