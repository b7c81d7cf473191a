//! The project: the owner of the parsed manifest, and the entry point that
//! hands out environment views.

use vstd::prelude::*;
use vstd::string::StringExecFns;

use crate::environment::Environment;
use crate::manifest::{Manifest, ManifestEnvironmentView, ManifestView};

verus! {

/// A loaded project: its parsed manifest and the directory it lives in.
/// The manifest is immutable for the project's lifetime; every environment
/// view borrows from it.
#[derive(Debug)]
pub struct Project {
    /// The parsed manifest.
    pub manifest: Manifest,
    /// The project's root directory.
    pub root: String,
}

/// The first index of the environment named `n`, or `-1`.
pub open spec fn find_env(es: Seq<ManifestEnvironmentView>, n: Seq<char>) -> int
    decreases es.len(),
{
    if es.len() == 0 {
        -1
    } else if es[0].name == n {
        0
    } else {
        let r = find_env(es.drop_first(), n);
        if r < 0 {
            -1
        } else {
            r + 1
        }
    }
}

/// `find_env` returns either `-1` or the position of the first environment
/// named `n`.
pub proof fn lemma_find_env(es: Seq<ManifestEnvironmentView>, n: Seq<char>)
    ensures
        find_env(es, n) < es.len(),
        find_env(es, n) >= 0 ==> es[find_env(es, n)].name == n,
        forall|j: int| 0 <= j < find_env(es, n) ==> es[j].name != n,
        find_env(es, n) < 0 ==> (forall|j: int| 0 <= j < es.len() ==> es[j].name != n),
    decreases es.len(),
{
    if es.len() > 0 && !(es[0].name == n) {
        lemma_find_env(es.drop_first(), n);
        assert forall|j: int| 0 <= j < find_env(es, n) implies es[j].name != n by {
            if j >= 1 {
                assert(es[j] == es.drop_first()[j - 1]);
            }
        }
        if find_env(es, n) < 0 {
            assert forall|j: int| 0 <= j < es.len() implies es[j].name != n by {
                if j >= 1 {
                    assert(es[j] == es.drop_first()[j - 1]);
                }
            }
        }
    }
}

impl Project {
    /// The spec-level manifest this project holds.
    pub open spec fn manifest_view(self) -> ManifestView {
        self.manifest@
    }

    /// The project's name, as the manifest declares it.
    pub fn name(&self) -> (r: &String)
        ensures
            r@ == self.manifest@.name,
    {
        &self.manifest.project.name
    }

    /// The directory under which environments are stored.
    pub fn environments_dir(&self) -> (r: String)
        ensures
            r@ == self.root@ + "/.pixi/envs"@,
    {
        self.root.clone().concat("/.pixi/envs")
    }

    /// The view of the environment named `name`, when the manifest declares
    /// one.
    pub fn environment<'p>(&'p self, name: &str) -> (r: Option<Environment<'p>>)
        ensures
            match r {
                Some(e) => {
                    &&& e.project == self
                    &&& e.env_index < self.manifest@.environments.len()
                    &&& e.env_index as int == find_env(self.manifest@.environments, name@)
                },
                None => find_env(self.manifest@.environments, name@) < 0,
            },
    {
        proof {
            lemma_find_env(self.manifest@.environments, name@);
        }
        let wanted: String = name.to_owned();
        let mut i: usize = 0;
        while i < self.manifest.environments.len()
            invariant
                i <= self.manifest.environments@.len(),
                wanted@ == name@,
                forall|j: int| 0 <= j < i ==> self.manifest@.environments[j].name != name@,
                self.manifest@.environments.len() == self.manifest.environments@.len(),
                find_env(self.manifest@.environments, name@) < self.manifest@.environments.len(),
                find_env(self.manifest@.environments, name@) >= 0
                    ==> self.manifest@.environments[find_env(
                    self.manifest@.environments,
                    name@,
                )].name == name@,
                forall|j: int| 0 <= j < find_env(self.manifest@.environments, name@)
                    ==> self.manifest@.environments[j].name != name@,
                find_env(self.manifest@.environments, name@) < 0 ==> (forall|j: int|
                    0 <= j < self.manifest@.environments.len()
                        ==> self.manifest@.environments[j].name != name@),
            decreases self.manifest.environments@.len() - i,
        {
            if self.manifest.environments[i].name.0 == wanted {
                proof {
                    assert(self.manifest@.environments[i as int]
                        == self.manifest.environments@[i as int]@);
                    assert(self.manifest@.environments[i as int].name == name@);
                }
                return Some(Environment { project: self, env_index: i });
            }
            proof {
                assert(self.manifest@.environments[i as int]
                    == self.manifest.environments@[i as int]@);
                assert(self.manifest@.environments[i as int].name != name@);
            }
            i += 1;
        }
        None
    }

    /// The view of the implicit default environment, which composes the
    /// default feature alone.
    pub fn default_environment<'p>(&'p self) -> (r: Environment<'p>)
        requires
            self.manifest@.wf(),
        ensures
            r.project == self,
            r.env_index == 0,
    {
        Environment { project: self, env_index: 0 }
    }
}

} // verus!
