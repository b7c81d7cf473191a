//! The parsed manifest data model: features, targets, environments and the
//! project metadata, together with their mathematical views.
//!
//! The manifest is parsed once when a project is loaded and is immutable
//! afterwards; everything here is plain data. Composition is defined over
//! the views, which replace every string by its character sequence and every
//! vector by its sequence.

use vstd::prelude::*;

use crate::keyed::{keyed_view, upsert_all, upsert_entries};
use crate::platform::Platform;
use crate::system_requirements::SystemRequirements;
use crate::task::{clone_string_vec, Task, TaskView};

verus! {

/// A package source together with its merge priority. A missing priority
/// counts as zero.
#[derive(Debug)]
pub struct PrioritizedChannel {
    /// The channel identity (its source locator).
    pub channel: String,
    /// Higher priorities sort earlier in the composed channel list.
    pub priority: Option<i64>,
}

/// The mathematical value of a [`PrioritizedChannel`].
#[verifier::ext_equal]
pub struct ChannelView {
    pub channel: Seq<char>,
    pub priority: Option<i64>,
}

impl View for PrioritizedChannel {
    type V = ChannelView;

    open spec fn view(&self) -> ChannelView {
        ChannelView { channel: self.channel@, priority: self.priority }
    }
}

impl ChannelView {
    /// The effective priority: the declared one, or zero when absent.
    pub open spec fn prio(self) -> int {
        match self.priority {
            Some(p) => p as int,
            None => 0,
        }
    }
}

impl Clone for PrioritizedChannel {
    /// The copy has the same view as the original.
    fn clone(&self) -> (r: Self)
        ensures
            r@ == self@,
    {
        PrioritizedChannel { channel: self.channel.clone(), priority: self.priority }
    }
}

/// The identity of a feature: the implicit default feature, or a named one.
#[derive(Debug)]
pub enum FeatureName {
    /// The scope-wide feature that every environment ends with.
    Default,
    /// A feature declared under its own name.
    Named(String),
}

/// The mathematical value of a [`FeatureName`].
#[verifier::ext_equal]
pub enum FeatureNameView {
    Default,
    Named(Seq<char>),
}

impl View for FeatureName {
    type V = FeatureNameView;

    open spec fn view(&self) -> FeatureNameView {
        match self {
            FeatureName::Default => FeatureNameView::Default,
            FeatureName::Named(n) => FeatureNameView::Named(n@),
        }
    }
}

impl Clone for FeatureName {
    /// The copy has the same view as the original.
    fn clone(&self) -> (r: Self)
        ensures
            r@ == self@,
    {
        match self {
            FeatureName::Default => FeatureName::Default,
            FeatureName::Named(n) => FeatureName::Named(n.clone()),
        }
    }
}

/// The unique name of an environment.
#[derive(Debug)]
pub struct EnvironmentName(pub String);

impl View for EnvironmentName {
    type V = Seq<char>;

    open spec fn view(&self) -> Seq<char> {
        self.0@
    }
}

impl EnvironmentName {
    /// The name as a string slice.
    pub fn as_str(&self) -> (r: &str)
        ensures
            r@ == self@,
    {
        self.0.as_str()
    }
}

impl Clone for EnvironmentName {
    /// The copy has the same view as the original.
    fn clone(&self) -> (r: Self)
        ensures
            r@ == self@,
    {
        EnvironmentName(self.0.clone())
    }
}

/// The kind of a conda dependency, used to filter aggregation.
#[derive(Clone, Copy, Debug, PartialEq, Eq, Structural)]
pub enum SpecType {
    /// Needed at run time.
    Run,
    /// Needed on the host while building.
    Host,
    /// Needed by the build machinery itself.
    Build,
}

/// One platform-specific or scope-wide configuration slice of a feature.
///
/// Each dependency table is an ordered name-to-spec list; `None` means the
/// table is not declared at all, which matters for layering.
#[derive(Debug)]
pub struct Target {
    pub run_dependencies: Option<Vec<(String, String)>>,
    pub host_dependencies: Option<Vec<(String, String)>>,
    pub build_dependencies: Option<Vec<(String, String)>>,
    pub pypi_dependencies: Option<Vec<(String, String)>>,
    pub activation_scripts: Option<Vec<String>>,
    pub tasks: Vec<(String, Task)>,
}

/// The mathematical value of a [`Target`].
#[verifier::ext_equal]
pub struct TargetView {
    pub run_dependencies: Option<Seq<(Seq<char>, Seq<char>)>>,
    pub host_dependencies: Option<Seq<(Seq<char>, Seq<char>)>>,
    pub build_dependencies: Option<Seq<(Seq<char>, Seq<char>)>>,
    pub pypi_dependencies: Option<Seq<(Seq<char>, Seq<char>)>>,
    pub activation_scripts: Option<Seq<Seq<char>>>,
    pub tasks: Seq<(Seq<char>, TaskView)>,
}

/// The view of an optional list of (name, spec) pairs.
pub open spec fn opt_pairs_view(o: Option<Vec<(String, String)>>) -> Option<
    Seq<(Seq<char>, Seq<char>)>,
> {
    match o {
        Some(v) => Some(keyed_view(v@)),
        None => None,
    }
}

/// The view of a list of strings.
pub open spec fn strings_view(s: Seq<String>) -> Seq<Seq<char>> {
    s.map_values(|x: String| x@)
}

impl View for Target {
    type V = TargetView;

    open spec fn view(&self) -> TargetView {
        TargetView {
            run_dependencies: opt_pairs_view(self.run_dependencies),
            host_dependencies: opt_pairs_view(self.host_dependencies),
            build_dependencies: opt_pairs_view(self.build_dependencies),
            pypi_dependencies: opt_pairs_view(self.pypi_dependencies),
            activation_scripts: match self.activation_scripts {
                Some(v) => Some(strings_view(v@)),
                None => None,
            },
            tasks: keyed_view(self.tasks@),
        }
    }
}

impl Target {
    /// A target that declares nothing.
    pub fn empty() -> (r: Target)
        ensures
            r@ == TargetView::empty(),
    {
        let r = Target {
            run_dependencies: None,
            host_dependencies: None,
            build_dependencies: None,
            pypi_dependencies: None,
            activation_scripts: None,
            tasks: Vec::new(),
        };
        proof {
            assert(r@.tasks =~= Seq::<(Seq<char>, TaskView)>::empty());
        }
        r
    }
}

impl TargetView {
    /// The view of a target that declares nothing.
    pub open spec fn empty() -> TargetView {
        TargetView {
            run_dependencies: None,
            host_dependencies: None,
            build_dependencies: None,
            pypi_dependencies: None,
            activation_scripts: None,
            tasks: Seq::empty(),
        }
    }
}

/// The target slices of one feature: the scope-wide slice and the
/// platform-specific overrides.
#[derive(Debug)]
pub struct Targets {
    /// The slice that applies to every platform.
    pub default: Target,
    /// Platform-specific slices, layered over the default one.
    pub specific: Vec<(Platform, Target)>,
}

/// The mathematical value of a [`Targets`].
#[verifier::ext_equal]
pub struct TargetsView {
    pub default: TargetView,
    pub specific: Seq<(Platform, TargetView)>,
}

impl View for Targets {
    type V = TargetsView;

    open spec fn view(&self) -> TargetsView {
        TargetsView {
            default: self.default@,
            specific: self.specific@.map_values(|p: (Platform, Target)| (p.0, p.1@)),
        }
    }
}

impl TargetsView {
    /// The first platform-specific slice declared for `p`, or `-1`.
    pub open spec fn find_specific(self, p: Platform) -> int {
        find_platform(self.specific, p)
    }

    /// The platform-specific slice that applies to the request, if any.
    pub open spec fn specific_target(self, platform: Option<Platform>) -> Option<TargetView> {
        match platform {
            None => None,
            Some(p) => {
                let i = self.find_specific(p);
                if i < 0 {
                    None
                } else {
                    Some(self.specific[i].1)
                }
            },
        }
    }
}

/// The first index of `p` in a platform-keyed list, or `-1`.
pub open spec fn find_platform(s: Seq<(Platform, TargetView)>, p: Platform) -> int
    decreases s.len(),
{
    if s.len() == 0 {
        -1
    } else if s[0].0 == p {
        0
    } else {
        let r = find_platform(s.drop_first(), p);
        if r < 0 {
            -1
        } else {
            r + 1
        }
    }
}

/// A named, reusable fragment of project configuration.
#[derive(Debug)]
pub struct Feature {
    pub name: FeatureName,
    /// The feature's own channel list; `None` contributes nothing, except
    /// that the default feature falls back to the project channels.
    pub channels: Option<Vec<PrioritizedChannel>>,
    /// The platforms the feature supports; `None` means the project's.
    pub platforms: Option<Vec<Platform>>,
    pub system_requirements: SystemRequirements,
    pub targets: Targets,
}

/// The mathematical value of a [`Feature`].
#[verifier::ext_equal]
pub struct FeatureView {
    pub name: FeatureNameView,
    pub channels: Option<Seq<ChannelView>>,
    pub platforms: Option<Seq<Platform>>,
    pub system_requirements: SystemRequirements,
    pub targets: TargetsView,
}

/// The view of a channel list.
pub open spec fn channels_view(s: Seq<PrioritizedChannel>) -> Seq<ChannelView> {
    s.map_values(|c: PrioritizedChannel| c@)
}

impl View for Feature {
    type V = FeatureView;

    open spec fn view(&self) -> FeatureView {
        FeatureView {
            name: self.name@,
            channels: match self.channels {
                Some(v) => Some(channels_view(v@)),
                None => None,
            },
            platforms: match self.platforms {
                Some(v) => Some(v@),
                None => None,
            },
            system_requirements: self.system_requirements,
            targets: self.targets@,
        }
    }
}

/// One environment as declared in the manifest: a name and an ordered list
/// of feature names. The default feature is never listed; it is implied as
/// the last entry of every environment.
#[derive(Debug)]
pub struct ManifestEnvironment {
    pub name: EnvironmentName,
    pub features: Vec<String>,
}

/// The mathematical value of a [`ManifestEnvironment`].
#[verifier::ext_equal]
pub struct ManifestEnvironmentView {
    pub name: Seq<char>,
    pub features: Seq<Seq<char>>,
}

impl View for ManifestEnvironment {
    type V = ManifestEnvironmentView;

    open spec fn view(&self) -> ManifestEnvironmentView {
        ManifestEnvironmentView { name: self.name@, features: strings_view(self.features@) }
    }
}

/// The project-wide metadata: defaults that features fall back to.
#[derive(Debug)]
pub struct ProjectMetadata {
    pub name: String,
    /// The default channel list.
    pub channels: Vec<PrioritizedChannel>,
    /// The default platform list.
    pub platforms: Vec<Platform>,
}

/// The whole parsed manifest.
#[derive(Debug)]
pub struct Manifest {
    pub project: ProjectMetadata,
    /// Every feature, the default one among them.
    pub features: Vec<Feature>,
    /// Every environment; the first entry is the default environment.
    pub environments: Vec<ManifestEnvironment>,
}

/// The mathematical value of a [`Manifest`].
#[verifier::ext_equal]
pub struct ManifestView {
    pub name: Seq<char>,
    pub channels: Seq<ChannelView>,
    pub platforms: Seq<Platform>,
    pub features: Seq<FeatureView>,
    pub environments: Seq<ManifestEnvironmentView>,
}

/// The view of a feature list.
pub open spec fn features_view(s: Seq<Feature>) -> Seq<FeatureView> {
    s.map_values(|f: Feature| f@)
}

impl View for Manifest {
    type V = ManifestView;

    open spec fn view(&self) -> ManifestView {
        ManifestView {
            name: self.project.name@,
            channels: channels_view(self.project.channels@),
            platforms: self.project.platforms@,
            features: features_view(self.features@),
            environments: self.environments@.map_values(|e: ManifestEnvironment| e@),
        }
    }
}

/// The first index of the feature named `n`, or `-1`.
pub open spec fn find_named(fs: Seq<FeatureView>, n: Seq<char>) -> int
    decreases fs.len(),
{
    if fs.len() == 0 {
        -1
    } else if fs[0].name == FeatureNameView::Named(n) {
        0
    } else {
        let r = find_named(fs.drop_first(), n);
        if r < 0 {
            -1
        } else {
            r + 1
        }
    }
}

/// The first index of the default feature, or `-1`.
pub open spec fn find_default(fs: Seq<FeatureView>) -> int
    decreases fs.len(),
{
    if fs.len() == 0 {
        -1
    } else if fs[0].name == FeatureNameView::Default {
        0
    } else {
        let r = find_default(fs.drop_first());
        if r < 0 {
            -1
        } else {
            r + 1
        }
    }
}

impl ManifestView {
    /// The manifest invariant that validation establishes before
    /// composition runs: a default feature exists, every feature name an
    /// environment references is declared, and the first environment is the
    /// implicit default one, which lists no features.
    pub open spec fn wf(self) -> bool {
        &&& find_default(self.features) >= 0
        &&& forall|e: int, i: int|
            0 <= e < self.environments.len() && 0 <= i < self.environments[e].features.len()
                ==> find_named(self.features, #[trigger] self.environments[e].features[i]) >= 0
        &&& self.environments.len() >= 1
        &&& self.environments[0].name == "default"@
        &&& self.environments[0].features.len() == 0
    }

    /// The features of environment `e` in composition order: the declared
    /// names in order, the default feature appended last.
    pub open spec fn env_features(self, e: ManifestEnvironmentView) -> Seq<FeatureView> {
        e.features.map_values(|n: Seq<char>| self.features[find_named(self.features, n)]).push(
            self.features[find_default(self.features)],
        )
    }
}

/// `find_named` returns either `-1` or the position of the first feature
/// named `n`.
pub proof fn lemma_find_named(fs: Seq<FeatureView>, n: Seq<char>)
    ensures
        find_named(fs, n) < fs.len(),
        find_named(fs, n) >= 0 ==> fs[find_named(fs, n)].name == FeatureNameView::Named(n),
        forall|j: int| 0 <= j < find_named(fs, n) ==> fs[j].name != FeatureNameView::Named(n),
        find_named(fs, n) < 0 ==> (forall|j: int|
            0 <= j < fs.len() ==> fs[j].name != FeatureNameView::Named(n)),
    decreases fs.len(),
{
    if fs.len() > 0 && !(fs[0].name == FeatureNameView::Named(n)) {
        lemma_find_named(fs.drop_first(), n);
        assert forall|j: int| 0 <= j < find_named(fs, n) implies fs[j].name
            != FeatureNameView::Named(n) by {
            if j >= 1 {
                assert(fs[j] == fs.drop_first()[j - 1]);
            }
        }
        if find_named(fs, n) < 0 {
            assert forall|j: int| 0 <= j < fs.len() implies fs[j].name != FeatureNameView::Named(
                n,
            ) by {
                if j >= 1 {
                    assert(fs[j] == fs.drop_first()[j - 1]);
                }
            }
        }
    }
}

/// `find_default` returns either `-1` or the position of the first default
/// feature.
pub proof fn lemma_find_default(fs: Seq<FeatureView>)
    ensures
        find_default(fs) < fs.len(),
        find_default(fs) >= 0 ==> fs[find_default(fs)].name == FeatureNameView::Default,
        forall|j: int| 0 <= j < find_default(fs) ==> fs[j].name != FeatureNameView::Default,
        find_default(fs) < 0 ==> (forall|j: int|
            0 <= j < fs.len() ==> fs[j].name != FeatureNameView::Default),
    decreases fs.len(),
{
    if fs.len() > 0 && !(fs[0].name == FeatureNameView::Default) {
        lemma_find_default(fs.drop_first());
        assert forall|j: int| 0 <= j < find_default(fs) implies fs[j].name
            != FeatureNameView::Default by {
            if j >= 1 {
                assert(fs[j] == fs.drop_first()[j - 1]);
            }
        }
        if find_default(fs) < 0 {
            assert forall|j: int| 0 <= j < fs.len() implies fs[j].name
                != FeatureNameView::Default by {
                if j >= 1 {
                    assert(fs[j] == fs.drop_first()[j - 1]);
                }
            }
        }
    }
}

/// `find_platform` returns either `-1` or the position of the first slice
/// declared for `p`.
pub proof fn lemma_find_platform(s: Seq<(Platform, TargetView)>, p: Platform)
    ensures
        find_platform(s, p) < s.len(),
        find_platform(s, p) >= 0 ==> s[find_platform(s, p)].0 == p,
        forall|j: int| 0 <= j < find_platform(s, p) ==> s[j].0 != p,
        find_platform(s, p) < 0 ==> (forall|j: int| 0 <= j < s.len() ==> s[j].0 != p),
    decreases s.len(),
{
    if s.len() > 0 && !(s[0].0 == p) {
        lemma_find_platform(s.drop_first(), p);
        assert forall|j: int| 0 <= j < find_platform(s, p) implies s[j].0 != p by {
            if j >= 1 {
                assert(s[j] == s.drop_first()[j - 1]);
            }
        }
        if find_platform(s, p) < 0 {
            assert forall|j: int| 0 <= j < s.len() implies s[j].0 != p by {
                if j >= 1 {
                    assert(s[j] == s.drop_first()[j - 1]);
                }
            }
        }
    }
}

/// Copies a list of (name, spec) pairs, preserving every element exactly.
pub fn clone_string_pairs(v: &Vec<(String, String)>) -> (r: Vec<(String, String)>)
    ensures
        r@ == v@,
{
    let mut r: Vec<(String, String)> = Vec::new();
    let mut i: usize = 0;
    while i < v.len()
        invariant
            i <= v.len(),
            r@ == v@.take(i as int),
        decreases v.len() - i,
    {
        r.push((v[i].0.clone(), v[i].1.clone()));
        proof {
            assert(r@ =~= v@.take(i + 1));
        }
        i += 1;
    }
    proof {
        assert(v@.take(v@.len() as int) =~= v@);
    }
    r
}

/// Copies a platform list.
pub fn clone_platform_vec(v: &Vec<Platform>) -> (r: Vec<Platform>)
    ensures
        r@ == v@,
{
    let mut r: Vec<Platform> = Vec::new();
    let mut i: usize = 0;
    while i < v.len()
        invariant
            i <= v.len(),
            r@ == v@.take(i as int),
        decreases v.len() - i,
    {
        r.push(v[i]);
        proof {
            assert(r@ =~= v@.take(i + 1));
        }
        i += 1;
    }
    proof {
        assert(v@.take(v@.len() as int) =~= v@);
    }
    r
}

/// Copies a channel list, preserving every element exactly.
pub fn clone_channel_vec(v: &Vec<PrioritizedChannel>) -> (r: Vec<PrioritizedChannel>)
    ensures
        channels_view(r@) == channels_view(v@),
{
    let mut r: Vec<PrioritizedChannel> = Vec::new();
    let mut i: usize = 0;
    proof {
        assert(channels_view(r@) =~~= channels_view(v@.take(0)));
    }
    while i < v.len()
        invariant
            i <= v.len(),
            channels_view(r@) == channels_view(v@.take(i as int)),
        decreases v.len() - i,
    {
        let ghost r0 = r@;
        let c = v[i].clone();
        proof {
            assert(c@ == v@[i as int]@);
        }
        r.push(c);
        proof {
            let lhs = channels_view(r@);
            let rhs = channels_view(v@.take(i + 1));
            assert(i < v@.len());
            assert(r@ == r0.push(c));
            assert(channels_view(r0).len() == r0.len());
            assert(r0.len() == i as int);
            assert(lhs.len() == r@.len());
            assert(rhs.len() == v@.take(i + 1).len());
            assert(v@.take(i + 1).len() == i + 1);
            assert(lhs.len() == rhs.len());
            assert forall|j: int| 0 <= j < lhs.len() implies lhs[j] == rhs[j] by {
                if j < i {
                    assert(channels_view(r0)[j] == channels_view(v@.take(i as int))[j]);
                    assert(r@[j] == r0[j]);
                    assert(v@.take(i + 1)[j] == v@.take(i as int)[j]);
                } else {
                    assert(r@[j] == c);
                    assert(v@.take(i + 1)[j] == v@[i as int]);
                }
            }
            assert(channels_view(r@) =~= channels_view(v@.take(i + 1)));
        }
        i += 1;
    }
    proof {
        assert(v@.take(v@.len() as int) =~= v@);
    }
    r
}

/// Copies a named task list, preserving its view.
pub fn clone_task_list(v: &Vec<(String, Task)>) -> (r: Vec<(String, Task)>)
    ensures
        keyed_view(r@) == keyed_view(v@),
{
    let mut r: Vec<(String, Task)> = Vec::new();
    let mut i: usize = 0;
    proof {
        assert(keyed_view(r@) =~~= keyed_view(v@.take(0)));
    }
    while i < v.len()
        invariant
            i <= v.len(),
            keyed_view(r@) == keyed_view(v@.take(i as int)),
        decreases v.len() - i,
    {
        let ghost r0 = r@;
        let key = v[i].0.clone();
        let val = v[i].1.clone();
        proof {
            assert(key@ == v@[i as int].0@);
            assert(val@ == v@[i as int].1@);
        }
        r.push((key, val));
        proof {
            let lhs = keyed_view(r@);
            let rhs = keyed_view(v@.take(i + 1));
            assert(i < v@.len());
            assert(keyed_view(r0).len() == r0.len());
            assert(r0.len() == i as int);
            assert(lhs.len() == r@.len());
            assert(v@.take(i + 1).len() == i + 1);
            assert(lhs.len() == rhs.len());
            assert forall|j: int| 0 <= j < lhs.len() implies lhs[j] == rhs[j] by {
                if j < i {
                    assert(keyed_view(r0)[j] == keyed_view(v@.take(i as int))[j]);
                    assert(r@[j] == r0[j]);
                    assert(v@.take(i + 1)[j] == v@.take(i as int)[j]);
                } else {
                    assert(v@.take(i + 1)[j] == v@[i as int]);
                }
            }
            assert(keyed_view(r@) =~= keyed_view(v@.take(i + 1)));
        }
        i += 1;
    }
    proof {
        assert(v@.take(v@.len() as int) =~= v@);
    }
    r
}

fn clone_opt_string_pairs(v: &Option<Vec<(String, String)>>) -> (r: Option<
    Vec<(String, String)>,
>)
    ensures
        opt_pairs_view(r) == opt_pairs_view(*v),
{
    match v {
        Some(inner) => Some(clone_string_pairs(inner)),
        None => None,
    }
}

impl Clone for Target {
    /// The copy has the same view as the original.
    fn clone(&self) -> (r: Self)
        ensures
            r@ == self@,
    {
        Target {
            run_dependencies: clone_opt_string_pairs(&self.run_dependencies),
            host_dependencies: clone_opt_string_pairs(&self.host_dependencies),
            build_dependencies: clone_opt_string_pairs(&self.build_dependencies),
            pypi_dependencies: clone_opt_string_pairs(&self.pypi_dependencies),
            activation_scripts: match &self.activation_scripts {
                Some(v) => Some(clone_string_vec(v)),
                None => None,
            },
            tasks: clone_task_list(&self.tasks),
        }
    }
}

impl Clone for Targets {
    /// The copy has the same view as the original.
    fn clone(&self) -> (r: Self)
        ensures
            r@ == self@,
    {
        let mut specific: Vec<(Platform, Target)> = Vec::new();
        let mut i: usize = 0;
        proof {
            assert(specific@.map_values(|p: (Platform, Target)| (p.0, p.1@))
                =~~= self.specific@.take(0).map_values(|p: (Platform, Target)| (p.0, p.1@)));
        }
        while i < self.specific.len()
            invariant
                i <= self.specific.len(),
                specific@.map_values(|p: (Platform, Target)| (p.0, p.1@)) == self.specific@.take(
                    i as int,
                ).map_values(|p: (Platform, Target)| (p.0, p.1@)),
            decreases self.specific.len() - i,
        {
            let ghost s0 = specific@;
            let plat = self.specific[i].0;
            let tgt = self.specific[i].1.clone();
            proof {
                assert(tgt@ == self.specific@[i as int].1@);
            }
            specific.push((plat, tgt));
            proof {
                let f = |p: (Platform, Target)| (p.0, p.1@);
                let lhs = specific@.map_values(f);
                let rhs = self.specific@.take(i + 1).map_values(f);
                assert(i < self.specific@.len());
                assert(s0.map_values(f).len() == s0.len());
                assert(s0.len() == i as int);
                assert(lhs.len() == specific@.len());
                assert(self.specific@.take(i + 1).len() == i + 1);
                assert(lhs.len() == rhs.len());
                assert forall|j: int| 0 <= j < lhs.len() implies lhs[j] == rhs[j] by {
                    if j < i {
                        assert(s0.map_values(f)[j] == self.specific@.take(i as int).map_values(
                            f,
                        )[j]);
                        assert(specific@[j] == s0[j]);
                        assert(self.specific@.take(i + 1)[j] == self.specific@.take(i as int)[j]);
                    } else {
                        assert(self.specific@.take(i + 1)[j] == self.specific@[i as int]);
                    }
                }
                assert(specific@.map_values(f) =~= self.specific@.take(i + 1).map_values(f));
            }
            i += 1;
        }
        proof {
            assert(self.specific@.take(self.specific@.len() as int) =~= self.specific@);
        }
        Targets { default: self.default.clone(), specific }
    }
}

impl Clone for Feature {
    /// The copy has the same view as the original.
    fn clone(&self) -> (r: Self)
        ensures
            r@ == self@,
    {
        Feature {
            name: self.name.clone(),
            channels: match &self.channels {
                Some(v) => Some(clone_channel_vec(v)),
                None => None,
            },
            platforms: match &self.platforms {
                Some(v) => Some(clone_platform_vec(v)),
                None => None,
            },
            system_requirements: self.system_requirements,
            targets: self.targets.clone(),
        }
    }
}

impl Clone for ManifestEnvironment {
    /// The copy has the same view as the original.
    fn clone(&self) -> (r: Self)
        ensures
            r@ == self@,
    {
        ManifestEnvironment { name: self.name.clone(), features: clone_string_vec(&self.features) }
    }
}

impl TargetView {
    /// The dependency table declared for one kind.
    pub open spec fn kind_deps(self, kind: SpecType) -> Option<Seq<(Seq<char>, Seq<char>)>> {
        match kind {
            SpecType::Run => self.run_dependencies,
            SpecType::Host => self.host_dependencies,
            SpecType::Build => self.build_dependencies,
        }
    }

    /// All dependency kinds combined: run entries first, host layered over
    /// them, build layered over both, so a name declared for several kinds
    /// keeps its first position and takes the most specific kind's value.
    /// `None` only when no kind is declared at all.
    pub open spec fn combined_deps(self) -> Option<Seq<(Seq<char>, Seq<char>)>> {
        if self.run_dependencies is None && self.host_dependencies is None
            && self.build_dependencies is None {
            None
        } else {
            let base = match self.run_dependencies {
                Some(r) => r,
                None => Seq::empty(),
            };
            let with_host = match self.host_dependencies {
                Some(h) => upsert_all(base, h),
                None => base,
            };
            let with_build = match self.build_dependencies {
                Some(b) => upsert_all(with_host, b),
                None => with_host,
            };
            Some(with_build)
        }
    }

    /// The dependency table of the requested kind, or all kinds combined.
    pub open spec fn deps(self, kind: Option<SpecType>) -> Option<Seq<(Seq<char>, Seq<char>)>> {
        match kind {
            Some(k) => self.kind_deps(k),
            None => self.combined_deps(),
        }
    }
}

impl Target {
    /// The dependency table of the requested kind, or all kinds combined;
    /// `None` when the target declares no table of the request.
    pub fn dependencies(&self, kind: Option<SpecType>) -> (r: Option<Vec<(String, String)>>)
        ensures
            opt_pairs_view(r) == self@.deps(kind),
    {
        match kind {
            Some(SpecType::Run) => clone_opt_string_pairs(&self.run_dependencies),
            Some(SpecType::Host) => clone_opt_string_pairs(&self.host_dependencies),
            Some(SpecType::Build) => clone_opt_string_pairs(&self.build_dependencies),
            None => {
                if self.run_dependencies.is_none() && self.host_dependencies.is_none()
                    && self.build_dependencies.is_none() {
                    return None;
                }
                let mut acc: Vec<(String, String)> = match &self.run_dependencies {
                    Some(v) => clone_string_pairs(v),
                    None => Vec::new(),
                };
                proof {
                    if self.run_dependencies is None {
                        assert(keyed_view(acc@) =~= Seq::<(Seq<char>, Seq<char>)>::empty());
                    }
                }
                match &self.host_dependencies {
                    Some(h) => upsert_entries(&mut acc, clone_string_pairs(h)),
                    None => (),
                }
                match &self.build_dependencies {
                    Some(b) => upsert_entries(&mut acc, clone_string_pairs(b)),
                    None => (),
                }
                Some(acc)
            },
        }
    }
}

impl Targets {
    /// The platform-specific slice declared for `p`, if any.
    pub fn resolve_specific(&self, p: Platform) -> (r: Option<&Target>)
        ensures
            match r {
                Some(t) => self@.specific_target(Some(p)) == Some(t@),
                None => self@.specific_target(Some(p)) is None,
            },
    {
        proof {
            lemma_find_platform(self@.specific, p);
        }
        let mut i: usize = 0;
        while i < self.specific.len()
            invariant
                i <= self.specific.len(),
                forall|j: int| 0 <= j < i ==> self@.specific[j].0 != p,
                self@.specific.len() == self.specific.len(),
                find_platform(self@.specific, p) < self@.specific.len(),
                find_platform(self@.specific, p) >= 0 ==> self@.specific[find_platform(
                    self@.specific,
                    p,
                )].0 == p,
                forall|j: int| 0 <= j < find_platform(self@.specific, p) ==> self@.specific[j].0
                    != p,
                find_platform(self@.specific, p) < 0 ==> (forall|j: int|
                    0 <= j < self@.specific.len() ==> self@.specific[j].0 != p),
            decreases self.specific.len() - i,
        {
            if self.specific[i].0 == p {
                proof {
                    assert(self@.specific[i as int].0 == p);
                }
                return Some(&self.specific[i].1);
            }
            proof {
                assert(self@.specific[i as int] == (self.specific@[i as int].0,
                self.specific@[i as int].1@));
            }
            i += 1;
        }
        None
    }
}

impl FeatureView {
    /// The dependency table this feature contributes for a request: the
    /// scope-wide table with the platform-specific one layered over it.
    pub open spec fn deps(self, kind: Option<SpecType>, platform: Option<Platform>) -> Option<
        Seq<(Seq<char>, Seq<char>)>,
    > {
        let d = self.targets.default.deps(kind);
        let s = match self.targets.specific_target(platform) {
            Some(t) => t.deps(kind),
            None => None,
        };
        match (d, s) {
            (None, None) => None,
            (Some(a), None) => Some(a),
            (None, Some(b)) => Some(b),
            (Some(a), Some(b)) => Some(upsert_all(a, b)),
        }
    }

    /// The pypi requirement table this feature contributes, layered the
    /// same way as [`FeatureView::deps`].
    pub open spec fn pypi_deps(self, platform: Option<Platform>) -> Option<
        Seq<(Seq<char>, Seq<char>)>,
    > {
        let d = self.targets.default.pypi_dependencies;
        let s = match self.targets.specific_target(platform) {
            Some(t) => t.pypi_dependencies,
            None => None,
        };
        match (d, s) {
            (None, None) => None,
            (Some(a), None) => Some(a),
            (None, Some(b)) => Some(b),
            (Some(a), Some(b)) => Some(upsert_all(a, b)),
        }
    }

    /// The activation scripts this feature contributes: the most specific
    /// target that declares any wins outright.
    pub open spec fn activation(self, platform: Option<Platform>) -> Option<Seq<Seq<char>>> {
        match self.targets.specific_target(platform) {
            Some(t) => match t.activation_scripts {
                Some(s) => Some(s),
                None => self.targets.default.activation_scripts,
            },
            None => self.targets.default.activation_scripts,
        }
    }

    /// The channel list this feature contributes: its own, or for the
    /// default feature only, the project-wide default list.
    pub open spec fn channel_list(self, defaults: Seq<ChannelView>) -> Seq<ChannelView> {
        match self.channels {
            Some(cs) => cs,
            None => match self.name {
                FeatureNameView::Default => defaults,
                FeatureNameView::Named(_) => Seq::empty(),
            },
        }
    }

    /// The platforms this feature supports: its own list, or the
    /// project-wide one.
    pub open spec fn platform_list(self, project_platforms: Seq<Platform>) -> Seq<Platform> {
        match self.platforms {
            Some(ps) => ps,
            None => project_platforms,
        }
    }

    /// Layers this feature's tasks over `acc`: scope-wide tasks first, then
    /// the platform-specific ones, so later upserts win.
    pub open spec fn layer_tasks(
        self,
        acc: Seq<(Seq<char>, TaskView)>,
        platform: Option<Platform>,
    ) -> Seq<(Seq<char>, TaskView)> {
        let with_default = upsert_all(acc, self.targets.default.tasks);
        match self.targets.specific_target(platform) {
            Some(t) => upsert_all(with_default, t.tasks),
            None => with_default,
        }
    }

    /// Whether the feature declares any pypi requirement on any target.
    pub open spec fn spec_has_pypi(self) -> bool {
        ||| match self.targets.default.pypi_dependencies {
            Some(m) => m.len() > 0,
            None => false,
        }
        ||| exists|i: int|
            0 <= i < self.targets.specific.len() && match (#[trigger] self.targets.specific[
                i
            ].1).pypi_dependencies {
                Some(m) => m.len() > 0,
                None => false,
            }
    }
}

impl Feature {
    /// The dependency table this feature contributes for the requested kind
    /// and platform, or `None` when it declares none.
    pub fn dependencies(&self, kind: Option<SpecType>, platform: Option<Platform>) -> (r: Option<
        Vec<(String, String)>,
    >)
        ensures
            opt_pairs_view(r) == self@.deps(kind, platform),
    {
        let d = self.targets.default.dependencies(kind);
        let s = match platform {
            Some(p) => match self.targets.resolve_specific(p) {
                Some(t) => t.dependencies(kind),
                None => None,
            },
            None => None,
        };
        match (d, s) {
            (None, None) => None,
            (Some(a), None) => Some(a),
            (None, Some(b)) => Some(b),
            (Some(a), Some(b)) => {
                let mut acc = a;
                upsert_entries(&mut acc, b);
                Some(acc)
            },
        }
    }

    /// The pypi requirement table this feature contributes, or `None`.
    pub fn pypi_dependencies(&self, platform: Option<Platform>) -> (r: Option<
        Vec<(String, String)>,
    >)
        ensures
            opt_pairs_view(r) == self@.pypi_deps(platform),
    {
        let d = clone_opt_string_pairs(&self.targets.default.pypi_dependencies);
        let s = match platform {
            Some(p) => match self.targets.resolve_specific(p) {
                Some(t) => clone_opt_string_pairs(&t.pypi_dependencies),
                None => None,
            },
            None => None,
        };
        match (d, s) {
            (None, None) => None,
            (Some(a), None) => Some(a),
            (None, Some(b)) => Some(b),
            (Some(a), Some(b)) => {
                let mut acc = a;
                upsert_entries(&mut acc, b);
                Some(acc)
            },
        }
    }

    /// The activation scripts this feature contributes, or `None`.
    pub fn activation_scripts(&self, platform: Option<Platform>) -> (r: Option<Vec<String>>)
        ensures
            match r {
                Some(v) => self@.activation(platform) == Some(strings_view(v@)),
                None => self@.activation(platform) is None,
            },
    {
        let from_specific: Option<&Vec<String>> = match platform {
            Some(p) => match self.targets.resolve_specific(p) {
                Some(t) => match &t.activation_scripts {
                    Some(s) => Some(s),
                    None => None,
                },
                None => None,
            },
            None => None,
        };
        match from_specific {
            Some(s) => Some(clone_string_vec(s)),
            None => match &self.targets.default.activation_scripts {
                Some(s) => Some(clone_string_vec(s)),
                None => None,
            },
        }
    }

    /// Whether the feature declares any pypi requirement on any target.
    pub fn has_pypi_dependencies(&self) -> (r: bool)
        ensures
            r == self@.spec_has_pypi(),
    {
        match &self.targets.default.pypi_dependencies {
            Some(m) => {
                proof {
                    assert(self@.targets.default.pypi_dependencies == Some(keyed_view(m@)));
                    assert(keyed_view(m@).len() == m@.len());
                }
                if m.len() > 0 {
                    return true;
                }
            },
            None => (),
        }
        let mut i: usize = 0;
        while i < self.targets.specific.len()
            invariant
                i <= self.targets.specific.len(),
                forall|j: int|
                    0 <= j < i ==> !(match (#[trigger] self@.targets.specific[
                        j
                    ].1).pypi_dependencies {
                        Some(m) => m.len() > 0,
                        None => false,
                    }),
                self@.targets.specific.len() == self.targets.specific.len(),
            decreases self.targets.specific.len() - i,
        {
            proof {
                assert(self@.targets.specific[i as int] == (self.targets.specific@[i as int].0,
                self.targets.specific@[i as int].1@));
            }
            match &self.targets.specific[i].1.pypi_dependencies {
                Some(m) => {
                    proof {
                        assert(self@.targets.specific[i as int].1.pypi_dependencies == Some(
                            keyed_view(m@),
                        ));
                        assert(keyed_view(m@).len() == m@.len());
                    }
                    if m.len() > 0 {
                        proof {
                            assert(match self@.targets.specific[i as int].1.pypi_dependencies {
                                Some(mm) => mm.len() > 0,
                                None => false,
                            });
                        }
                        return true;
                    }
                },
                None => (),
            }
            i += 1;
        }
        false
    }
}

} // verus!
