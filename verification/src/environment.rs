//! The environment view: a read-only lens over one manifest environment
//! that derives every effective setting the solver and installer consume.
//!
//! All methods are pure functions of the referenced manifest; nothing is
//! cached, so two calls with no intervening manifest change return the
//! same value (the determinism lemmas at the end state this).

use vstd::prelude::*;
use vstd::string::StringExecFns;

use crate::dependencies::Dependencies;
use crate::errors::{UnknownTask, UnsupportedPlatformError};
use crate::ext::{
    index_map_entries, index_map_new, index_map_push, index_set_elems, index_set_insert,
    index_set_new, sort_channels_by_priority, stable_sort_desc,
};
use crate::keyed::{append_all, find_entry, keyed_view, lookup, upsert_entries};
use crate::manifest::{
    channels_view, clone_channel_vec, clone_platform_vec, clone_task_list, features_view,
    find_default, find_named, lemma_find_default, lemma_find_named, strings_view, ChannelView,
    Feature, FeatureName, FeatureNameView, FeatureView, ManifestEnvironment,
    ManifestEnvironmentView, EnvironmentName, PrioritizedChannel, SpecType,
};
use crate::platform::{contains_platform, Platform};
use crate::project::Project;
use crate::system_requirements::{spec_sysreq_empty, spec_sysreq_union, SystemRequirements};
use crate::task::{Task, TaskView};

verus! {

/// One environment of a project: a borrowed view over the project's
/// manifest and the index of the environment's record in it. It holds no
/// other state; every answer is computed from the manifest on demand.
#[derive(Clone, Copy, Debug)]
pub struct Environment<'p> {
    /// The project this environment belongs to.
    pub project: &'p Project,
    /// The index of the environment's record in the manifest.
    pub env_index: usize,
}

/// The channel lists of `features` concatenated onto `acc`, in feature
/// order, each feature contributing per [`FeatureView::channel_list`].
pub open spec fn concat_channels_from(
    acc: Seq<ChannelView>,
    features: Seq<FeatureView>,
    defaults: Seq<ChannelView>,
) -> Seq<ChannelView>
    decreases features.len(),
{
    if features.len() == 0 {
        acc
    } else {
        concat_channels_from(
            acc + features[0].channel_list(defaults),
            features.drop_first(),
            defaults,
        )
    }
}

/// The names of a channel sequence, in order.
pub open spec fn channel_names(s: Seq<ChannelView>) -> Seq<Seq<char>> {
    s.map_values(|c: ChannelView| c.channel)
}

/// Deduplicates `names` onto `acc`, keeping the first occurrence of each
/// name.
pub open spec fn dedup_names(acc: Seq<Seq<char>>, names: Seq<Seq<char>>) -> Seq<Seq<char>>
    decreases names.len(),
{
    if names.len() == 0 {
        acc
    } else {
        dedup_names(
            if acc.contains(names[0]) {
                acc
            } else {
                acc.push(names[0])
            },
            names.drop_first(),
        )
    }
}

/// True when every feature's effective platform list holds `p`.
pub open spec fn all_features_support(
    features: Seq<FeatureView>,
    project_platforms: Seq<Platform>,
    p: Platform,
) -> bool {
    forall|i: int|
        0 <= i < features.len() ==> (#[trigger] features[i]).platform_list(
            project_platforms,
        ).contains(p)
}

/// Filters `list` onto `acc`: a platform is kept when every feature
/// supports it and it is not already kept; order and first occurrences are
/// preserved.
pub open spec fn filter_platforms(
    acc: Seq<Platform>,
    list: Seq<Platform>,
    features: Seq<FeatureView>,
    project_platforms: Seq<Platform>,
) -> Seq<Platform>
    decreases list.len(),
{
    if list.len() == 0 {
        acc
    } else {
        filter_platforms(
            if all_features_support(features, project_platforms, list[0]) && !acc.contains(
                list[0],
            ) {
                acc.push(list[0])
            } else {
                acc
            },
            list.drop_first(),
            features,
            project_platforms,
        )
    }
}

/// Folds the features' task tables onto `acc`, lowest precedence first, so
/// the upserts of higher-precedence features win.
pub open spec fn tasks_from(
    acc: Seq<(Seq<char>, TaskView)>,
    features: Seq<FeatureView>,
    platform: Option<Platform>,
) -> Seq<(Seq<char>, TaskView)>
    decreases features.len(),
{
    if features.len() == 0 {
        acc
    } else {
        tasks_from(features.last().layer_tasks(acc, platform), features.drop_last(), platform)
    }
}

/// Folds the features' requirement records onto `acc`, in feature order.
pub open spec fn sysreq_from(acc: SystemRequirements, features: Seq<FeatureView>) -> SystemRequirements
    decreases features.len(),
{
    if features.len() == 0 {
        acc
    } else {
        sysreq_from(spec_sysreq_union(acc, features[0].system_requirements), features.drop_first())
    }
}

/// Folds the features' dependency tables onto `acc`, in feature order,
/// appending every spec a feature imposes onto the package's list.
pub open spec fn deps_from(
    acc: Seq<(Seq<char>, Seq<Seq<char>>)>,
    features: Seq<FeatureView>,
    kind: Option<SpecType>,
    platform: Option<Platform>,
) -> Seq<(Seq<char>, Seq<Seq<char>>)>
    decreases features.len(),
{
    if features.len() == 0 {
        acc
    } else {
        deps_from(
            match features[0].deps(kind, platform) {
                Some(m) => append_all(acc, m),
                None => acc,
            },
            features.drop_first(),
            kind,
            platform,
        )
    }
}

/// Folds the features' pypi requirement tables onto `acc`, in feature
/// order, appending like [`deps_from`].
pub open spec fn pypi_from(
    acc: Seq<(Seq<char>, Seq<Seq<char>>)>,
    features: Seq<FeatureView>,
    platform: Option<Platform>,
) -> Seq<(Seq<char>, Seq<Seq<char>>)>
    decreases features.len(),
{
    if features.len() == 0 {
        acc
    } else {
        pypi_from(
            match features[0].pypi_deps(platform) {
                Some(m) => append_all(acc, m),
                None => acc,
            },
            features.drop_first(),
            platform,
        )
    }
}

/// Concatenates the features' activation script lists onto `acc`, in
/// feature order.
pub open spec fn activation_from(
    acc: Seq<Seq<char>>,
    features: Seq<FeatureView>,
    platform: Option<Platform>,
) -> Seq<Seq<char>>
    decreases features.len(),
{
    if features.len() == 0 {
        acc
    } else {
        activation_from(
            match features[0].activation(platform) {
                Some(s) => acc + s,
                None => acc,
            },
            features.drop_first(),
            platform,
        )
    }
}

/// Finds the first feature named `n` by a linear scan.
fn find_feature_named(fs: &Vec<Feature>, n: &String) -> (r: Option<usize>)
    ensures
        match r {
            Some(i) => i < fs@.len() && find_named(features_view(fs@), n@) == i as int,
            None => find_named(features_view(fs@), n@) < 0,
        },
{
    proof {
        lemma_find_named(features_view(fs@), n@);
    }
    let mut i: usize = 0;
    while i < fs.len()
        invariant
            i <= fs@.len(),
            forall|j: int| 0 <= j < i ==> features_view(fs@)[j].name != FeatureNameView::Named(
                n@,
            ),
            features_view(fs@).len() == fs@.len(),
            find_named(features_view(fs@), n@) < fs@.len(),
            find_named(features_view(fs@), n@) >= 0 ==> features_view(fs@)[find_named(
                features_view(fs@),
                n@,
            )].name == FeatureNameView::Named(n@),
            forall|j: int| 0 <= j < find_named(features_view(fs@), n@) ==> features_view(
                fs@,
            )[j].name != FeatureNameView::Named(n@),
            find_named(features_view(fs@), n@) < 0 ==> (forall|j: int|
                0 <= j < fs@.len() ==> features_view(fs@)[j].name != FeatureNameView::Named(n@)),
        decreases fs@.len() - i,
    {
        let hit = match &fs[i].name {
            FeatureName::Named(s) => *s == *n,
            FeatureName::Default => false,
        };
        proof {
            assert(features_view(fs@)[i as int] == fs@[i as int]@);
            assert(hit == (features_view(fs@)[i as int].name == FeatureNameView::Named(n@)));
        }
        if hit {
            return Some(i);
        }
        i += 1;
    }
    None
}

/// Finds the default feature by a linear scan.
fn find_feature_default(fs: &Vec<Feature>) -> (r: Option<usize>)
    ensures
        match r {
            Some(i) => i < fs@.len() && find_default(features_view(fs@)) == i as int,
            None => find_default(features_view(fs@)) < 0,
        },
{
    proof {
        lemma_find_default(features_view(fs@));
    }
    let mut i: usize = 0;
    while i < fs.len()
        invariant
            i <= fs@.len(),
            forall|j: int| 0 <= j < i ==> features_view(fs@)[j].name != FeatureNameView::Default,
            features_view(fs@).len() == fs@.len(),
            find_default(features_view(fs@)) < fs@.len(),
            find_default(features_view(fs@)) >= 0 ==> features_view(fs@)[find_default(
                features_view(fs@),
            )].name == FeatureNameView::Default,
            forall|j: int| 0 <= j < find_default(features_view(fs@)) ==> features_view(
                fs@,
            )[j].name != FeatureNameView::Default,
            find_default(features_view(fs@)) < 0 ==> (forall|j: int|
                0 <= j < fs@.len() ==> features_view(fs@)[j].name != FeatureNameView::Default),
        decreases fs@.len() - i,
    {
        let hit = match &fs[i].name {
            FeatureName::Default => true,
            FeatureName::Named(_) => false,
        };
        proof {
            assert(features_view(fs@)[i as int] == fs@[i as int]@);
            assert(hit == (features_view(fs@)[i as int].name == FeatureNameView::Default));
        }
        if hit {
            return Some(i);
        }
        i += 1;
    }
    None
}

impl<'p> Environment<'p> {
    /// The view is well formed: the manifest passed validation and the
    /// index denotes one of its environments.
    pub open spec fn wf(self) -> bool {
        &&& self.project.manifest@.wf()
        &&& (self.env_index as int) < self.project.manifest@.environments.len()
    }

    /// The manifest record this view denotes.
    pub open spec fn record(self) -> ManifestEnvironmentView {
        self.project.manifest@.environments[self.env_index as int]
    }

    /// The features of this environment in composition order: the declared
    /// ones first, the default feature last.
    pub open spec fn features_seq(self) -> Seq<FeatureView> {
        self.project.manifest@.env_features(self.record())
    }

    /// The project this environment belongs to.
    pub fn project(&self) -> (r: &'p Project)
        ensures
            r == self.project,
    {
        self.project
    }

    /// The name of this environment.
    pub fn name(&self) -> (r: &'p EnvironmentName)
        requires
            self.wf(),
        ensures
            r@ == self.record().name,
    {
        let env: &'p ManifestEnvironment = &self.project.manifest.environments[self.env_index];
        &env.name
    }

    /// The manifest record this view was created from.
    pub fn manifest(&self) -> (r: &'p ManifestEnvironment)
        requires
            self.wf(),
        ensures
            r@ == self.record(),
    {
        &self.project.manifest.environments[self.env_index]
    }

    /// The directory where this environment is stored: the project's
    /// environment directory, then the environment's name.
    pub fn dir(&self) -> (r: String)
        requires
            self.wf(),
        ensures
            r@ == self.project.root@ + "/.pixi/envs"@ + "/"@ + self.record().name,
    {
        let base = self.project.environments_dir();
        let env: &ManifestEnvironment = &self.project.manifest.environments[self.env_index];
        base.concat("/").concat(env.name.as_str())
    }

    /// The features that make up this environment, in composition order:
    /// the declared features first, the default feature appended last.
    pub fn features(&self) -> (r: Vec<Feature>)
        requires
            self.wf(),
        ensures
            features_view(r@) == self.features_seq(),
    {
        let ghost mf = self.project.manifest@.features;
        let env: &ManifestEnvironment = &self.project.manifest.environments[self.env_index];
        proof {
            assert(env@ == self.record());
        }
        let mut r: Vec<Feature> = Vec::new();
        let mut i: usize = 0;
        proof {
            assert(features_view(r@) =~= self.record().features.take(0).map_values(
                |n: Seq<char>| mf[find_named(mf, n)],
            ));
        }
        while i < env.features.len()
            invariant
                i <= env.features@.len(),
                self.wf(),
                env@ == self.record(),
                mf == self.project.manifest@.features,
                self.record().features.len() == env.features@.len(),
                features_view(r@) == self.record().features.take(i as int).map_values(
                    |n: Seq<char>| mf[find_named(mf, n)],
                ),
            decreases env.features@.len() - i,
        {
            let ghost r0 = features_view(r@);
            proof {
                assert(self.record().features[i as int] == env.features@[i as int]@);
            }
            let idx = match find_feature_named(&self.project.manifest.features, &env.features[i]) {
                Some(j) => j,
                None => {
                    proof {
                        assert(find_named(mf, self.record().features[i as int]) >= 0);
                    }
                    vstd::pervasive::unreached()
                },
            };
            let f = self.project.manifest.features[idx].clone();
            proof {
                assert(f@ == mf[find_named(mf, self.record().features[i as int])]);
            }
            r.push(f);
            proof {
                let g = |n: Seq<char>| mf[find_named(mf, n)];
                let lhs = features_view(r@);
                let rhs = self.record().features.take(i + 1).map_values(g);
                assert(r0.len() == i as int);
                assert(lhs.len() == r@.len());
                assert(self.record().features.take(i + 1).len() == i + 1);
                assert(lhs.len() == rhs.len());
                assert forall|j: int| 0 <= j < lhs.len() implies lhs[j] == rhs[j] by {
                    if j < i {
                        assert(r0[j] == self.record().features.take(i as int).map_values(g)[j]);
                        assert(r@[j] == r@.subrange(0, i as int)[j]);
                        assert(self.record().features.take(i + 1)[j] == self.record().features.take(
                            i as int,
                        )[j]);
                    } else {
                        assert(self.record().features.take(i + 1)[j]
                            == self.record().features[i as int]);
                    }
                }
                assert(features_view(r@) =~= rhs);
            }
            i += 1;
        }
        let didx = match find_feature_default(&self.project.manifest.features) {
            Some(j) => j,
            None => {
                proof {
                    assert(find_default(mf) >= 0);
                }
                vstd::pervasive::unreached()
            },
        };
        let d = self.project.manifest.features[didx].clone();
        proof {
            assert(d@ == mf[find_default(mf)]);
        }
        let ghost r1 = features_view(r@);
        r.push(d);
        proof {
            let g = |n: Seq<char>| mf[find_named(mf, n)];
            assert(self.record().features.take(env.features@.len() as int)
                =~= self.record().features);
            let lhs = features_view(r@);
            let rhs = self.features_seq();
            assert(rhs == self.record().features.map_values(g).push(mf[find_default(mf)]));
            assert(r1.len() == self.record().features.len());
            assert(lhs.len() == rhs.len());
            assert forall|j: int| 0 <= j < lhs.len() implies lhs[j] == rhs[j] by {
                if j < r1.len() {
                    assert(r1[j] == self.record().features.map_values(g)[j]);
                    assert(r@[j] == r@.subrange(0, r1.len() as int)[j]);
                }
            }
            assert(features_view(r@) =~= self.features_seq());
        }
        r
    }

    /// The system requirements of this environment: the field-wise union of
    /// every feature's record. Conflicting declarations are rejected when
    /// the manifest is validated, so the union never fails here.
    pub fn system_requirements(&self) -> (r: SystemRequirements)
        requires
            self.wf(),
        ensures
            r == self.spec_system_requirements(),
    {
        let feats = self.features();
        let mut acc = SystemRequirements::none();
        let mut i: usize = 0;
        proof {
            assert(self.features_seq().skip(0) =~= self.features_seq());
        }
        while i < feats.len()
            invariant
                i <= feats@.len(),
                features_view(feats@) == self.features_seq(),
                features_view(feats@).len() == feats@.len(),
                sysreq_from(spec_sysreq_empty(), self.features_seq()) == sysreq_from(
                    acc,
                    self.features_seq().skip(i as int),
                ),
            decreases feats@.len() - i,
        {
            proof {
                let fv = self.features_seq();
                assert(fv.skip(i as int).drop_first() =~= fv.skip(i + 1));
                assert(fv.skip(i as int)[0] == fv[i as int]);
                assert(features_view(feats@)[i as int] == feats@[i as int]@);
            }
            acc = acc.union(&feats[i].system_requirements);
            i += 1;
        }
        proof {
            assert(self.features_seq().skip(feats@.len() as int)
                =~= Seq::<FeatureView>::empty());
        }
        acc
    }

    /// What `system_requirements` returns.
    pub open spec fn spec_system_requirements(self) -> SystemRequirements {
        sysreq_from(spec_sysreq_empty(), self.features_seq())
    }

    /// The activation scripts to run for this environment: each feature's
    /// contribution in composition order, the most specific target of a
    /// feature replacing its scope-wide list outright.
    pub fn activation_scripts(&self, platform: Option<Platform>) -> (r: Vec<String>)
        requires
            self.wf(),
        ensures
            strings_view(r@) == self.spec_activation_scripts(platform),
    {
        let feats = self.features();
        let mut out: Vec<String> = Vec::new();
        let mut i: usize = 0;
        proof {
            assert(strings_view(out@) =~= Seq::<Seq<char>>::empty());
            assert(self.features_seq().skip(0) =~= self.features_seq());
        }
        while i < feats.len()
            invariant
                i <= feats@.len(),
                features_view(feats@) == self.features_seq(),
                features_view(feats@).len() == feats@.len(),
                activation_from(Seq::empty(), self.features_seq(), platform) == activation_from(
                    strings_view(out@),
                    self.features_seq().skip(i as int),
                    platform,
                ),
            decreases feats@.len() - i,
        {
            proof {
                let fv = self.features_seq();
                assert(fv.skip(i as int).drop_first() =~= fv.skip(i + 1));
                assert(fv.skip(i as int)[0] == fv[i as int]);
                assert(features_view(feats@)[i as int] == feats@[i as int]@);
            }
            match feats[i].activation_scripts(platform) {
                Some(scripts) => {
                    let ghost out0 = strings_view(out@);
                    let mut j: usize = 0;
                    proof {
                        assert(strings_view(out@) =~= out0 + strings_view(scripts@).take(0));
                    }
                    while j < scripts.len()
                        invariant
                            j <= scripts@.len(),
                            strings_view(out@) == out0 + strings_view(scripts@).take(j as int),
                        decreases scripts@.len() - j,
                    {
                        let ghost before = strings_view(out@);
                        let ghost out_before = out@;
                        out.push(scripts[j].clone());
                        proof {
                            assert(j < scripts@.len());
                            assert(before.len() == out0.len() + j);
                            assert(strings_view(out@).len() == out@.len());
                            assert(strings_view(scripts@).take(j + 1).len() == j + 1);
                            let lhs = strings_view(out@);
                            let rhs = out0 + strings_view(scripts@).take(j + 1);
                            assert(lhs.len() == rhs.len());
                            assert forall|m: int| 0 <= m < lhs.len() implies lhs[m] == rhs[m] by {
                                if m < before.len() {
                                    assert(out@[m] == out_before[m]);
                                    assert(before[m] == (out0 + strings_view(scripts@).take(
                                        j as int,
                                    ))[m]);
                                    if m >= out0.len() {
                                        assert(strings_view(scripts@).take(j as int)[m
                                            - out0.len()] == strings_view(scripts@).take(j + 1)[m
                                            - out0.len()]);
                                    }
                                } else {
                                    assert(out@[m] == scripts@[j as int]);
                                    assert(rhs[m] == strings_view(scripts@).take(j + 1)[j as int]);
                                }
                            }
                            assert(strings_view(out@) =~= out0 + strings_view(scripts@).take(
                                j + 1,
                            ));
                        }
                        j += 1;
                    }
                    proof {
                        assert(strings_view(scripts@).take(scripts@.len() as int)
                            =~= strings_view(scripts@));
                    }
                },
                None => (),
            }
            i += 1;
        }
        proof {
            assert(self.features_seq().skip(feats@.len() as int)
                =~= Seq::<FeatureView>::empty());
        }
        out
    }

    /// What `activation_scripts` returns.
    pub open spec fn spec_activation_scripts(self, platform: Option<Platform>) -> Seq<Seq<char>> {
        activation_from(Seq::empty(), self.features_seq(), platform)
    }

    /// Whether any feature of this environment mentions a pypi requirement.
    pub fn has_pypi_dependencies(&self) -> (r: bool)
        requires
            self.wf(),
        ensures
            r == exists|i: int|
                0 <= i < self.features_seq().len() && (#[trigger] self.features_seq()[
                    i
                ]).spec_has_pypi(),
    {
        let feats = self.features();
        let mut i: usize = 0;
        while i < feats.len()
            invariant
                i <= feats@.len(),
                features_view(feats@) == self.features_seq(),
                features_view(feats@).len() == feats@.len(),
                forall|j: int| 0 <= j < i ==> !(#[trigger] self.features_seq()[j]).spec_has_pypi(),
            decreases feats@.len() - i,
        {
            proof {
                assert(features_view(feats@)[i as int] == feats@[i as int]@);
            }
            if feats[i].has_pypi_dependencies() {
                proof {
                    assert((self.features_seq()[i as int]).spec_has_pypi());
                }
                return true;
            }
            i += 1;
        }
        false
    }

    /// What `platforms` returns.
    pub open spec fn spec_platforms(self) -> Seq<Platform> {
        filter_platforms(
            Seq::empty(),
            self.features_seq()[0].platform_list(self.project.manifest@.platforms),
            self.features_seq(),
            self.project.manifest@.platforms,
        )
    }

    /// The platforms this environment supports: those supported by every
    /// feature (each falling back to the project's platform list), in the
    /// order of the first feature's list, without duplicates.
    pub fn platforms(&self) -> (r: Vec<Platform>)
        requires
            self.wf(),
        ensures
            r@ == self.spec_platforms(),
    {
        let ghost proj = self.project.manifest@.platforms;
        let feats = self.features();
        proof {
            assert(self.features_seq().len() > 0);
            assert(features_view(feats@)[0] == feats@[0]@);
        }
        let first: Vec<Platform> = match &feats[0].platforms {
            Some(v) => clone_platform_vec(v),
            None => clone_platform_vec(&self.project.manifest.project.platforms),
        };
        proof {
            assert(first@ == self.features_seq()[0].platform_list(proj));
        }
        let mut r: Vec<Platform> = Vec::new();
        let mut i: usize = 0;
        proof {
            assert(r@ =~= Seq::<Platform>::empty());
            assert(first@.skip(0) =~= first@);
        }
        while i < first.len()
            invariant
                i <= first@.len(),
                features_view(feats@) == self.features_seq(),
                proj == self.project.manifest@.platforms,
                self.spec_platforms() == filter_platforms(
                    r@,
                    first@.skip(i as int),
                    self.features_seq(),
                    proj,
                ),
            decreases first@.len() - i,
        {
            proof {
                assert(first@.skip(i as int).drop_first() =~= first@.skip(i + 1));
                assert(first@.skip(i as int)[0] == first@[i as int]);
            }
            let p = first[i];
            let ok = supports_all(&feats, &self.project.manifest.project.platforms, p);
            let dup = contains_platform(&r, p);
            if ok && !dup {
                r.push(p);
            }
            i += 1;
        }
        proof {
            assert(first@.skip(first@.len() as int) =~= Seq::<Platform>::empty());
        }
        r
    }

    /// Whether a request for `platform` is in range: no platform at all, or
    /// one the environment supports.
    pub open spec fn spec_platform_ok(self, platform: Option<Platform>) -> bool {
        match platform {
            None => true,
            Some(p) => self.spec_platforms().contains(p),
        }
    }

    /// Checks that `platform`, when given, is supported; otherwise reports
    /// the environment's actual platform set.
    fn validate_platform_support(&self, platform: Option<Platform>) -> (r: Result<
        (),
        UnsupportedPlatformError,
    >)
        requires
            self.wf(),
        ensures
            match r {
                Ok(_) => self.spec_platform_ok(platform),
                Err(e) => {
                    &&& platform == Some(e.platform)
                    &&& !self.spec_platforms().contains(e.platform)
                    &&& e.environments_platforms@ == self.spec_platforms()
                    &&& e.environment@ == self.record().name
                },
            },
    {
        match platform {
            None => Ok(()),
            Some(p) => {
                let ps = self.platforms();
                if contains_platform(&ps, p) {
                    Ok(())
                } else {
                    Err(
                        UnsupportedPlatformError {
                            environments_platforms: ps,
                            environment: self.project.manifest.environments[
                                self.env_index
                            ].name.clone(),
                            platform: p,
                        },
                    )
                }
            },
        }
    }

    /// What `channels` holds, in order.
    pub open spec fn spec_channels(self) -> Seq<Seq<char>> {
        dedup_names(
            Seq::empty(),
            channel_names(
                stable_sort_desc(
                    concat_channels_from(
                        Seq::empty(),
                        self.features_seq(),
                        self.project.manifest@.channels,
                    ),
                ),
            ),
        )
    }

    /// The channels of this environment: every feature's list in
    /// composition order (the default feature falling back to the project
    /// channels), stable-sorted by priority descending, deduplicated
    /// keeping first occurrences.
    pub fn channels(&self) -> (r: indexmap::IndexSet<String>)
        requires
            self.wf(),
        ensures
            index_set_elems(&r) == self.spec_channels(),
    {
        let ghost defaults = self.project.manifest@.channels;
        let feats = self.features();
        let mut all: Vec<PrioritizedChannel> = Vec::new();
        let mut i: usize = 0;
        proof {
            assert(channels_view(all@) =~= Seq::<ChannelView>::empty());
            assert(self.features_seq().skip(0) =~= self.features_seq());
        }
        while i < feats.len()
            invariant
                i <= feats@.len(),
                features_view(feats@) == self.features_seq(),
                features_view(feats@).len() == feats@.len(),
                defaults == self.project.manifest@.channels,
                concat_channels_from(Seq::empty(), self.features_seq(), defaults)
                    == concat_channels_from(
                    channels_view(all@),
                    self.features_seq().skip(i as int),
                    defaults,
                ),
            decreases feats@.len() - i,
        {
            proof {
                let fv = self.features_seq();
                assert(fv.skip(i as int).drop_first() =~= fv.skip(i + 1));
                assert(fv.skip(i as int)[0] == fv[i as int]);
                assert(features_view(feats@)[i as int] == feats@[i as int]@);
            }
            let ghost all0 = channels_view(all@);
            match &feats[i].channels {
                Some(list) => {
                    extend_channels(&mut all, list);
                },
                None => {
                    match &feats[i].name {
                        FeatureName::Default => {
                            extend_channels(&mut all, &self.project.manifest.project.channels);
                        },
                        FeatureName::Named(_) => {
                            proof {
                                assert(channels_view(all@) =~= all0 + self.features_seq()[
                                    i as int
                                ].channel_list(defaults));
                            }
                        },
                    }
                },
            }
            i += 1;
        }
        proof {
            assert(self.features_seq().skip(feats@.len() as int)
                =~= Seq::<FeatureView>::empty());
        }
        let sorted = sort_channels_by_priority(all);
        let ghost names = channel_names(
            stable_sort_desc(
                concat_channels_from(Seq::empty(), self.features_seq(), defaults),
            ),
        );
        proof {
            assert(names == channel_names(channels_view(sorted@)));
            assert(names.len() == sorted@.len());
            assert(names.skip(0) =~= names);
        }
        let mut set = index_set_new();
        let mut k: usize = 0;
        while k < sorted.len()
            invariant
                k <= sorted@.len(),
                names == channel_names(channels_view(sorted@)),
                names.len() == sorted@.len(),
                dedup_names(Seq::empty(), names) == dedup_names(
                    index_set_elems(&set),
                    names.skip(k as int),
                ),
            decreases sorted@.len() - k,
        {
            proof {
                assert(names.skip(k as int).drop_first() =~= names.skip(k + 1));
                assert(names.skip(k as int)[0] == names[k as int]);
                assert(names[k as int] == channels_view(sorted@)[k as int].channel);
                assert(channels_view(sorted@)[k as int] == sorted@[k as int]@);
            }
            let cname = sorted[k].channel.clone();
            index_set_insert(&mut set, cname);
            k += 1;
        }
        proof {
            assert(names.skip(sorted@.len() as int) =~= Seq::<Seq<char>>::empty());
        }
        set
    }

    /// What `tasks` returns when the platform is in range.
    pub open spec fn spec_tasks(self, platform: Option<Platform>) -> Seq<(Seq<char>, TaskView)> {
        tasks_from(Seq::empty(), self.features_seq(), platform)
    }

    /// The effective task table of this environment: for each name, the
    /// most specific target of the highest-precedence feature that defines
    /// it wins. Fails when the requested platform is unsupported.
    pub fn tasks(&self, platform: Option<Platform>) -> (r: Result<
        Vec<(String, Task)>,
        UnsupportedPlatformError,
    >)
        requires
            self.wf(),
        ensures
            match r {
                Ok(m) => self.spec_platform_ok(platform) && keyed_view(m@) == self.spec_tasks(
                    platform,
                ),
                Err(e) => {
                    &&& platform == Some(e.platform)
                    &&& !self.spec_platforms().contains(e.platform)
                    &&& e.environments_platforms@ == self.spec_platforms()
                    &&& e.environment@ == self.record().name
                },
            },
    {
        match self.validate_platform_support(platform) {
            Err(e) => {
                return Err(e);
            },
            Ok(_) => (),
        }
        let feats = self.features();
        let mut acc: Vec<(String, Task)> = Vec::new();
        let mut i: usize = feats.len();
        proof {
            assert(keyed_view(acc@) =~= Seq::<(Seq<char>, TaskView)>::empty());
            assert(self.features_seq().take(feats@.len() as int) =~= self.features_seq());
        }
        while i > 0
            invariant
                i <= feats@.len(),
                features_view(feats@) == self.features_seq(),
                features_view(feats@).len() == feats@.len(),
                self.spec_tasks(platform) == tasks_from(
                    keyed_view(acc@),
                    self.features_seq().take(i as int),
                    platform,
                ),
            decreases i,
        {
            i -= 1;
            proof {
                let fv = self.features_seq();
                assert(fv.take(i + 1).drop_last() =~= fv.take(i as int));
                assert(fv.take(i + 1).last() == fv[i as int]);
                assert(features_view(feats@)[i as int] == feats@[i as int]@);
            }
            let ghost acc0 = keyed_view(acc@);
            upsert_entries(&mut acc, clone_task_list(&feats[i].targets.default.tasks));
            match platform {
                Some(p) => {
                    match feats[i].targets.resolve_specific(p) {
                        Some(t) => {
                            upsert_entries(&mut acc, clone_task_list(&t.tasks));
                        },
                        None => (),
                    }
                },
                None => (),
            }
            proof {
                assert(keyed_view(acc@) == self.features_seq()[i as int].layer_tasks(
                    acc0,
                    platform,
                ));
            }
        }
        proof {
            assert(self.features_seq().take(0) =~= Seq::<FeatureView>::empty());
        }
        Ok(acc)
    }

    /// The task registered under `name` for `platform`, or an
    /// [`UnknownTask`] that deliberately does not say whether the platform
    /// was unsupported or the name undefined.
    pub fn task(&self, name: &str, platform: Option<Platform>) -> (r: Result<Task, UnknownTask>)
        requires
            self.wf(),
        ensures
            match r {
                Ok(t) => {
                    &&& self.spec_platform_ok(platform)
                    &&& lookup(self.spec_tasks(platform), name@) == Some(t@)
                },
                Err(e) => {
                    &&& !(self.spec_platform_ok(platform) && lookup(
                        self.spec_tasks(platform),
                        name@,
                    ) is Some)
                    &&& e.environment@ == self.record().name
                    &&& e.platform == platform
                    &&& e.task_name@ == name@
                },
            },
    {
        let found = match self.tasks(platform) {
            Ok(m) => {
                let key: String = name.to_owned();
                match find_entry(&m, &key) {
                    Some(idx) => {
                        let t = m[idx].1.clone();
                        proof {
                            assert(keyed_view(m@)[idx as int]
                                == (m@[idx as int].0@, m@[idx as int].1@));
                        }
                        Some(t)
                    },
                    None => None,
                }
            },
            Err(_) => None,
        };
        match found {
            Some(t) => Ok(t),
            None => Err(
                UnknownTask {
                    environment: self.project.manifest.environments[self.env_index].name.clone(),
                    platform,
                    task_name: name.to_owned(),
                },
            ),
        }
    }

    /// What `dependencies` returns.
    pub open spec fn spec_dependencies(
        self,
        kind: Option<SpecType>,
        platform: Option<Platform>,
    ) -> Seq<(Seq<char>, Seq<Seq<char>>)> {
        deps_from(Seq::empty(), self.features_seq(), kind, platform)
    }

    /// The dependencies to install for this environment: every feature's
    /// contribution in composition order, each spec appended to its
    /// package's list, so that every constraint of every feature is kept.
    pub fn dependencies(&self, kind: Option<SpecType>, platform: Option<Platform>) -> (r:
        Dependencies)
        requires
            self.wf(),
        ensures
            r@ == self.spec_dependencies(kind, platform),
    {
        let feats = self.features();
        let mut acc = Dependencies::new();
        let mut i: usize = 0;
        proof {
            assert(self.features_seq().skip(0) =~= self.features_seq());
        }
        while i < feats.len()
            invariant
                i <= feats@.len(),
                features_view(feats@) == self.features_seq(),
                features_view(feats@).len() == feats@.len(),
                self.spec_dependencies(kind, platform) == deps_from(
                    acc@,
                    self.features_seq().skip(i as int),
                    kind,
                    platform,
                ),
            decreases feats@.len() - i,
        {
            proof {
                let fv = self.features_seq();
                assert(fv.skip(i as int).drop_first() =~= fv.skip(i + 1));
                assert(fv.skip(i as int)[0] == fv[i as int]);
                assert(features_view(feats@)[i as int] == feats@[i as int]@);
            }
            match feats[i].dependencies(kind, platform) {
                Some(m) => {
                    crate::keyed::append_list_entries(&mut acc.entries, m);
                },
                None => (),
            }
            i += 1;
        }
        proof {
            assert(self.features_seq().skip(feats@.len() as int)
                =~= Seq::<FeatureView>::empty());
        }
        acc
    }

    /// What `pypi_dependencies` returns.
    pub open spec fn spec_pypi_dependencies(self, platform: Option<Platform>) -> Seq<
        (Seq<char>, Seq<Seq<char>>),
    > {
        pypi_from(Seq::empty(), self.features_seq(), platform)
    }

    /// The pypi requirements to install for this environment, accumulated
    /// like `dependencies` into an insertion-ordered map.
    pub fn pypi_dependencies(&self, platform: Option<Platform>) -> (r: indexmap::IndexMap<
        String,
        Vec<String>,
    >)
        requires
            self.wf(),
        ensures
            index_map_entries(&r) == self.spec_pypi_dependencies(platform),
    {
        let feats = self.features();
        let mut m = index_map_new();
        let mut i: usize = 0;
        proof {
            assert(self.features_seq().skip(0) =~= self.features_seq());
        }
        while i < feats.len()
            invariant
                i <= feats@.len(),
                features_view(feats@) == self.features_seq(),
                features_view(feats@).len() == feats@.len(),
                self.spec_pypi_dependencies(platform) == pypi_from(
                    index_map_entries(&m),
                    self.features_seq().skip(i as int),
                    platform,
                ),
            decreases feats@.len() - i,
        {
            proof {
                let fv = self.features_seq();
                assert(fv.skip(i as int).drop_first() =~= fv.skip(i + 1));
                assert(fv.skip(i as int)[0] == fv[i as int]);
                assert(features_view(feats@)[i as int] == feats@[i as int]@);
            }
            match feats[i].pypi_dependencies(platform) {
                Some(v) => {
                    let ghost e0 = index_map_entries(&m);
                    let ghost vv = keyed_view(v@);
                    let mut v = v;
                    while v.len() > 0
                        invariant
                            append_all(e0, vv) == append_all(
                                index_map_entries(&m),
                                keyed_view(v@),
                            ),
                        decreases v.len(),
                    {
                        let ghost before = keyed_view(v@);
                        let (key, val) = v.remove(0);
                        proof {
                            assert(keyed_view(v@) =~= before.drop_first());
                        }
                        index_map_push(&mut m, key, val);
                    }
                    proof {
                        assert(keyed_view(v@) =~= Seq::<(Seq<char>, Seq<char>)>::empty());
                    }
                },
                None => (),
            }
            i += 1;
        }
        proof {
            assert(self.features_seq().skip(feats@.len() as int)
                =~= Seq::<FeatureView>::empty());
        }
        m
    }
}

/// Appends a copy of every channel of `src` to `dst`, in order.
fn extend_channels(dst: &mut Vec<PrioritizedChannel>, src: &Vec<PrioritizedChannel>)
    ensures
        channels_view(final(dst)@) == channels_view(old(dst)@) + channels_view(src@),
{
    let ghost d0 = channels_view(dst@);
    let mut j: usize = 0;
    proof {
        assert(channels_view(dst@) =~= d0 + channels_view(src@).take(0));
    }
    while j < src.len()
        invariant
            j <= src@.len(),
            channels_view(dst@) == d0 + channels_view(src@).take(j as int),
        decreases src@.len() - j,
    {
        let ghost before = channels_view(dst@);
        let ghost dst_before = dst@;
        let c = src[j].clone();
        proof {
            assert(c@ == src@[j as int]@);
        }
        dst.push(c);
        proof {
            assert(j < src@.len());
            assert(before.len() == d0.len() + j);
            assert(channels_view(dst@).len() == dst@.len());
            assert(channels_view(src@).take(j + 1).len() == j + 1);
            let lhs = channels_view(dst@);
            let rhs = d0 + channels_view(src@).take(j + 1);
            assert(lhs.len() == rhs.len());
            assert forall|m: int| 0 <= m < lhs.len() implies lhs[m] == rhs[m] by {
                if m < before.len() {
                    assert(dst@[m] == dst_before[m]);
                    assert(before[m] == (d0 + channels_view(src@).take(j as int))[m]);
                    if m >= d0.len() {
                        assert(channels_view(src@).take(j as int)[m - d0.len()] == channels_view(
                            src@,
                        ).take(j + 1)[m - d0.len()]);
                    }
                } else {
                    assert(dst@[m] == c);
                    assert(rhs[m] == channels_view(src@).take(j + 1)[j as int]);
                }
            }
            assert(channels_view(dst@) =~= d0 + channels_view(src@).take(j + 1));
        }
        j += 1;
    }
    proof {
        assert(channels_view(src@).take(src@.len() as int) =~= channels_view(src@));
    }
}

/// Any two channel lists computed for the same environment are equal: the
/// contract pins the result to a function of the manifest alone, so a
/// second call with no intervening manifest change returns the identical
/// list.
pub proof fn lemma_channels_deterministic(e: Environment, r1: Seq<Seq<char>>, r2: Seq<Seq<char>>)
    requires
        r1 == e.spec_channels(),
        r2 == e.spec_channels(),
    ensures
        r1 == r2,
{
}

/// Any two platform lists computed for the same environment are equal.
pub proof fn lemma_platforms_deterministic(e: Environment, r1: Seq<Platform>, r2: Seq<Platform>)
    requires
        r1 == e.spec_platforms(),
        r2 == e.spec_platforms(),
    ensures
        r1 == r2,
{
}

/// Any two requirement records computed for the same environment are
/// equal.
pub proof fn lemma_system_requirements_deterministic(
    e: Environment,
    r1: SystemRequirements,
    r2: SystemRequirements,
)
    requires
        r1 == e.spec_system_requirements(),
        r2 == e.spec_system_requirements(),
    ensures
        r1 == r2,
{
}

/// Any two task tables computed for the same environment and platform are
/// equal.
pub proof fn lemma_tasks_deterministic(
    e: Environment,
    platform: Option<Platform>,
    r1: Seq<(Seq<char>, TaskView)>,
    r2: Seq<(Seq<char>, TaskView)>,
)
    requires
        r1 == e.spec_tasks(platform),
        r2 == e.spec_tasks(platform),
    ensures
        r1 == r2,
{
}

/// Any two dependency maps computed for the same environment, kind and
/// platform are equal.
pub proof fn lemma_dependencies_deterministic(
    e: Environment,
    kind: Option<SpecType>,
    platform: Option<Platform>,
    r1: Seq<(Seq<char>, Seq<Seq<char>>)>,
    r2: Seq<(Seq<char>, Seq<Seq<char>>)>,
)
    requires
        r1 == e.spec_dependencies(kind, platform),
        r2 == e.spec_dependencies(kind, platform),
    ensures
        r1 == r2,
{
}

/// Any two pypi requirement maps computed for the same environment and
/// platform are equal.
pub proof fn lemma_pypi_dependencies_deterministic(
    e: Environment,
    platform: Option<Platform>,
    r1: Seq<(Seq<char>, Seq<Seq<char>>)>,
    r2: Seq<(Seq<char>, Seq<Seq<char>>)>,
)
    requires
        r1 == e.spec_pypi_dependencies(platform),
        r2 == e.spec_pypi_dependencies(platform),
    ensures
        r1 == r2,
{
}

/// Any two activation script lists computed for the same environment and
/// platform are equal.
pub proof fn lemma_activation_scripts_deterministic(
    e: Environment,
    platform: Option<Platform>,
    r1: Seq<Seq<char>>,
    r2: Seq<Seq<char>>,
)
    requires
        r1 == e.spec_activation_scripts(platform),
        r2 == e.spec_activation_scripts(platform),
    ensures
        r1 == r2,
{
}

/// Whether every feature's effective platform list holds `p`, by a scan.
fn supports_all(feats: &Vec<Feature>, project_platforms: &Vec<Platform>, p: Platform) -> (r: bool)
    ensures
        r == all_features_support(features_view(feats@), project_platforms@, p),
{
    let mut i: usize = 0;
    while i < feats.len()
        invariant
            i <= feats@.len(),
            features_view(feats@).len() == feats@.len(),
            forall|j: int|
                0 <= j < i ==> (#[trigger] features_view(feats@)[j]).platform_list(
                    project_platforms@,
                ).contains(p),
        decreases feats@.len() - i,
    {
        proof {
            assert(features_view(feats@)[i as int] == feats@[i as int]@);
        }
        let c = match &feats[i].platforms {
            Some(v) => contains_platform(v, p),
            None => contains_platform(project_platforms, p),
        };
        proof {
            assert(c == features_view(feats@)[i as int].platform_list(
                project_platforms@,
            ).contains(p));
        }
        if !c {
            return false;
        }
        i += 1;
    }
    true
}

/// Decomposes sequence membership into the head and the rest.
proof fn lemma_contains_head<A>(s: Seq<A>, p: A)
    requires
        s.len() > 0,
    ensures
        s.contains(p) <==> (s[0] == p || s.drop_first().contains(p)),
{
    if s.contains(p) {
        let i = choose|i: int| 0 <= i < s.len() && s[i] == p;
        if i > 0 {
            assert(s.drop_first()[i - 1] == s[i]);
        }
    }
    if s.drop_first().contains(p) {
        let i = choose|i: int| 0 <= i < s.drop_first().len() && s.drop_first()[i] == p;
        assert(s[i + 1] == s.drop_first()[i]);
    }
}

/// Membership after a push: the old members, plus the pushed one.
proof fn lemma_contains_push<A>(s: Seq<A>, x: A, p: A)
    ensures
        s.push(x).contains(p) <==> (s.contains(p) || x == p),
{
    if s.push(x).contains(p) {
        let i = choose|i: int| 0 <= i < s.push(x).len() && s.push(x)[i] == p;
        if i < s.len() {
            assert(s[i] == p);
        }
    }
    if s.contains(p) {
        let i = choose|i: int| 0 <= i < s.len() && s[i] == p;
        assert(s.push(x)[i] == p);
    }
    if x == p {
        assert(s.push(x)[s.len() as int] == p);
    }
}

/// What `filter_platforms` keeps: a platform already kept, or one that
/// stands in the candidate list and that every feature supports.
pub proof fn lemma_filter_platforms_contains(
    acc: Seq<Platform>,
    list: Seq<Platform>,
    features: Seq<FeatureView>,
    project_platforms: Seq<Platform>,
    p: Platform,
)
    ensures
        filter_platforms(acc, list, features, project_platforms).contains(p) <==> (acc.contains(p)
            || (list.contains(p) && all_features_support(features, project_platforms, p))),
    decreases list.len(),
{
    if list.len() == 0 {
        if list.contains(p) {
            let i = choose|i: int| 0 <= i < list.len() && list[i] == p;
        }
    } else {
        let kept = all_features_support(features, project_platforms, list[0]) && !acc.contains(
            list[0],
        );
        let acc2 = if kept {
            acc.push(list[0])
        } else {
            acc
        };
        lemma_filter_platforms_contains(acc2, list.drop_first(), features, project_platforms, p);
        lemma_contains_head(list, p);
        if kept {
            lemma_contains_push(acc, list[0], p);
        }
    }
}

/// The environment's platform set is the intersection of its features'
/// effective platform sets: a platform is supported exactly when every
/// feature (falling back to the project's list) supports it.
pub proof fn lemma_platforms_are_intersection(e: Environment, p: Platform)
    requires
        e.wf(),
    ensures
        e.spec_platforms().contains(p) <==> all_features_support(
            e.features_seq(),
            e.project.manifest@.platforms,
            p,
        ),
{
    let proj = e.project.manifest@.platforms;
    let fv = e.features_seq();
    lemma_filter_platforms_contains(Seq::empty(), fv[0].platform_list(proj), fv, proj, p);
    if Seq::<Platform>::empty().contains(p) {
        let i = choose|i: int|
            0 <= i < Seq::<Platform>::empty().len() && Seq::<Platform>::empty()[i] == p;
    }
    if all_features_support(fv, proj, p) {
        assert(fv[0].platform_list(proj).contains(p));
    }
}

} // verus!
