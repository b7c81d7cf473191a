//! The ordered dependency multi-map an environment resolves to.

use vstd::prelude::*;

use crate::keyed::{find_key, lemma_find_key, listmap_view, lookup};

verus! {

/// An ordered mapping from package name to the ordered list of version
/// specs that the environment's features impose on it. Requirements from
/// different features are preserved, not deduplicated: the solver must
/// jointly satisfy all of them.
#[derive(Debug)]
pub struct Dependencies {
    /// One entry per package, in first-contribution order; each entry lists
    /// every spec imposed on the package, in feature-precedence order.
    pub entries: Vec<(String, Vec<String>)>,
}

impl View for Dependencies {
    type V = Seq<(Seq<char>, Seq<Seq<char>>)>;

    open spec fn view(&self) -> Seq<(Seq<char>, Seq<Seq<char>>)> {
        listmap_view(self.entries@)
    }
}

impl Dependencies {
    /// The empty dependency map.
    pub fn new() -> (r: Dependencies)
        ensures
            r@ == Seq::<(Seq<char>, Seq<Seq<char>>)>::empty(),
    {
        let r = Dependencies { entries: Vec::new() };
        proof {
            assert(r@ =~= Seq::<(Seq<char>, Seq<Seq<char>>)>::empty());
        }
        r
    }

    /// The specs imposed on `name`, when any feature mentions it.
    pub fn get(&self, name: &String) -> (r: Option<&Vec<String>>)
        ensures
            match r {
                Some(v) => lookup(self@, name@) == Some(v@.map_values(|s: String| s@)),
                None => lookup(self@, name@) is None,
            },
    {
        proof {
            lemma_find_key(self@, name@);
        }
        let mut i: usize = 0;
        while i < self.entries.len()
            invariant
                i <= self.entries@.len(),
                forall|j: int| 0 <= j < i ==> self@[j].0 != name@,
                self@.len() == self.entries@.len(),
                find_key(self@, name@) < self@.len(),
                find_key(self@, name@) >= 0 ==> self@[find_key(self@, name@)].0 == name@,
                forall|j: int| 0 <= j < find_key(self@, name@) ==> self@[j].0 != name@,
                find_key(self@, name@) < 0 ==> (forall|j: int|
                    0 <= j < self@.len() ==> self@[j].0 != name@),
            decreases self.entries@.len() - i,
        {
            if self.entries[i].0 == *name {
                proof {
                    assert(self@[i as int].0 == name@);
                }
                return Some(&self.entries[i].1);
            }
            proof {
                assert(self@[i as int].0 != name@);
            }
            i += 1;
        }
        None
    }

    /// How many packages the map mentions.
    pub fn len(&self) -> (r: usize)
        ensures
            r == self@.len(),
    {
        self.entries.len()
    }
}

} // verus!
