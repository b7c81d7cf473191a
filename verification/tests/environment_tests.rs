use pixi_core::dependencies::Dependencies;
use pixi_core::manifest::{
    EnvironmentName, Feature, FeatureName, Manifest, ManifestEnvironment, PrioritizedChannel,
    ProjectMetadata, SpecType, Target, Targets,
};
use pixi_core::platform::Platform;
use pixi_core::project::Project;
use pixi_core::system_requirements::{SystemRequirements, Version};
use pixi_core::task::Task;

fn chan(name: &str) -> PrioritizedChannel {
    PrioritizedChannel { channel: name.to_string(), priority: None }
}

fn chan_prio(name: &str, priority: i64) -> PrioritizedChannel {
    PrioritizedChannel { channel: name.to_string(), priority: Some(priority) }
}

fn feature(name: FeatureName) -> Feature {
    Feature {
        name,
        channels: None,
        platforms: None,
        system_requirements: SystemRequirements::none(),
        targets: Targets { default: Target::empty(), specific: Vec::new() },
    }
}

fn environment(name: &str, features: Vec<&str>) -> ManifestEnvironment {
    ManifestEnvironment {
        name: EnvironmentName(name.to_string()),
        features: features.into_iter().map(|f| f.to_string()).collect(),
    }
}

/// A project whose manifest holds the given pieces; the implicit default
/// environment is always the first one.
fn project(
    channels: Vec<PrioritizedChannel>,
    platforms: Vec<Platform>,
    features: Vec<Feature>,
    mut environments: Vec<ManifestEnvironment>,
) -> Project {
    let mut envs = vec![environment("default", vec![])];
    envs.append(&mut environments);
    let mut feats = features;
    feats.push(feature(FeatureName::Default));
    Project {
        manifest: Manifest {
            project: ProjectMetadata { name: "foobar".to_string(), channels, platforms },
            features: feats,
            environments: envs,
        },
        root: "/proj".to_string(),
    }
}

fn deps(pairs: Vec<(&str, &str)>) -> Option<Vec<(String, String)>> {
    Some(pairs.into_iter().map(|(a, b)| (a.to_string(), b.to_string())).collect())
}

fn channel_names(set: &indexmap::IndexSet<String>) -> Vec<String> {
    set.iter().cloned().collect()
}

#[test]
fn test_default_channels() {
    let manifest = project(vec![chan("foo"), chan("bar")], vec![], vec![], vec![]);
    let channels = channel_names(&manifest.default_environment().channels());
    assert_eq!(channels, vec!["foo".to_string(), "bar".to_string()]);
}

#[test]
fn test_default_platforms() {
    let manifest = project(vec![], vec![Platform::Linux64, Platform::Osx64], vec![], vec![]);
    let platforms = manifest.default_environment().platforms();
    assert_eq!(platforms, vec![Platform::Linux64, Platform::Osx64]);
}

#[test]
fn test_default_tasks() {
    let mut default_feature = feature(FeatureName::Default);
    default_feature
        .targets
        .default
        .tasks
        .push(("foo".to_string(), Task::Plain("echo default".to_string())));
    let mut linux_target = Target::empty();
    linux_target.tasks.push(("foo".to_string(), Task::Plain("echo linux".to_string())));
    default_feature.targets.specific.push((Platform::Linux64, linux_target));

    let manifest = Project {
        manifest: Manifest {
            project: ProjectMetadata {
                name: "foobar".to_string(),
                channels: vec![],
                platforms: vec![Platform::Linux64],
            },
            features: vec![default_feature],
            environments: vec![environment("default", vec![])],
        },
        root: "/proj".to_string(),
    };

    let task = manifest.default_environment().task("foo", None).unwrap();
    assert_eq!(task.as_single_command().unwrap().as_str(), "echo default");

    let task_linux = manifest
        .default_environment()
        .task("foo", Some(Platform::Linux64))
        .unwrap();
    assert_eq!(task_linux.as_single_command().unwrap().as_str(), "echo linux");

    assert!(manifest.default_environment().tasks(Some(Platform::Osx64)).is_err());
}

#[test]
fn test_dependencies() {
    let mut default_feature = feature(FeatureName::Default);
    default_feature.targets.default.run_dependencies = deps(vec![("foo", "*")]);
    default_feature.targets.default.build_dependencies = deps(vec![("foo", "<4.0")]);
    let mut osx_target = Target::empty();
    osx_target.run_dependencies = deps(vec![("foo", "<5.0")]);
    default_feature.targets.specific.push((Platform::Osx64, osx_target));

    let mut foo_feature = feature(FeatureName::Named("foo".to_string()));
    foo_feature.targets.default.run_dependencies = deps(vec![("foo", ">=1.0")]);

    let mut bar_feature = feature(FeatureName::Named("bar".to_string()));
    bar_feature.targets.default.run_dependencies = deps(vec![("bar", ">=1.0"), ("foo", "<2.0")]);

    let manifest = Project {
        manifest: Manifest {
            project: ProjectMetadata {
                name: "foobar".to_string(),
                channels: vec![],
                platforms: vec![Platform::Linux64, Platform::Osx64],
            },
            features: vec![foo_feature, bar_feature, default_feature],
            environments: vec![
                environment("default", vec![]),
                environment("foobar", vec!["foo", "bar"]),
            ],
        },
        root: "/proj".to_string(),
    };

    let deps: Dependencies = manifest
        .environment("foobar")
        .unwrap()
        .dependencies(None, None);
    // Feature precedence order first, the default feature last; within the
    // default feature the build spec overwrites the run spec for `foo`.
    assert_eq!(
        deps.entries,
        vec![
            (
                "foo".to_string(),
                vec![">=1.0".to_string(), "<2.0".to_string(), "<4.0".to_string()]
            ),
            ("bar".to_string(), vec![">=1.0".to_string()]),
        ]
    );
}

#[test]
fn test_activation() {
    let mut default_feature = feature(FeatureName::Default);
    default_feature.targets.default.activation_scripts = Some(vec!["default.bat".to_string()]);
    let mut linux_target = Target::empty();
    linux_target.activation_scripts = Some(vec!["linux.bat".to_string()]);
    default_feature.targets.specific.push((Platform::Linux64, linux_target));

    let mut foo_feature = feature(FeatureName::Named("foo".to_string()));
    foo_feature.targets.default.activation_scripts = Some(vec!["foo.bat".to_string()]);

    let manifest = Project {
        manifest: Manifest {
            project: ProjectMetadata {
                name: "foobar".to_string(),
                channels: vec![],
                platforms: vec![Platform::Linux64, Platform::Osx64],
            },
            features: vec![foo_feature, default_feature],
            environments: vec![environment("default", vec![]), environment("foo", vec!["foo"])],
        },
        root: "/proj".to_string(),
    };

    let foo_env = manifest.environment("foo").unwrap();
    assert_eq!(
        foo_env.activation_scripts(None),
        vec!["foo.bat".to_string(), "default.bat".to_string()]
    );
    assert_eq!(
        foo_env.activation_scripts(Some(Platform::Linux64)),
        vec!["foo.bat".to_string(), "linux.bat".to_string()]
    );
}

#[test]
fn test_channel_priorities() {
    let mut foo_feature = feature(FeatureName::Named("foo".to_string()));
    foo_feature.channels = Some(vec![chan_prio("nvidia", 1), chan("pytorch")]);
    let mut bar_feature = feature(FeatureName::Named("bar".to_string()));
    bar_feature.channels = Some(vec![chan_prio("bar", -10), chan("barry")]);

    let manifest = project(
        vec![chan("conda-forge")],
        vec![Platform::Linux64, Platform::Osx64],
        vec![foo_feature, bar_feature],
        vec![
            environment("foo", vec!["foo"]),
            environment("bar", vec!["bar"]),
            environment("foobar", vec!["foo", "bar"]),
        ],
    );

    let foobar_channels = manifest.environment("foobar").unwrap().channels();
    assert_eq!(
        channel_names(&foobar_channels),
        vec!["nvidia", "pytorch", "barry", "conda-forge", "bar"]
    );

    let foo_channels = manifest.environment("foo").unwrap().channels();
    assert_eq!(channel_names(&foo_channels), vec!["nvidia", "pytorch", "conda-forge"]);

    let bar_channels = manifest.environment("bar").unwrap().channels();
    assert_eq!(channel_names(&bar_channels), vec!["barry", "conda-forge", "bar"]);
}

#[test]
fn test_dependency_union_per_package() {
    let mut default_feature = feature(FeatureName::Default);
    default_feature.targets.default.run_dependencies = deps(vec![("foo", "*")]);
    let mut foo_feature = feature(FeatureName::Named("foo".to_string()));
    foo_feature.targets.default.run_dependencies = deps(vec![("foo", ">=1.0")]);
    let mut bar_feature = feature(FeatureName::Named("bar".to_string()));
    bar_feature.targets.default.run_dependencies = deps(vec![("foo", "<2.0"), ("bar", ">=1.0")]);

    let manifest = Project {
        manifest: Manifest {
            project: ProjectMetadata {
                name: "foobar".to_string(),
                channels: vec![],
                platforms: vec![Platform::Linux64],
            },
            features: vec![foo_feature, bar_feature, default_feature],
            environments: vec![
                environment("default", vec![]),
                environment("foobar", vec!["foo", "bar"]),
            ],
        },
        root: "/proj".to_string(),
    };

    let env = manifest.environment("foobar").unwrap();
    let composed = env.dependencies(None, None);
    let foo_specs = composed.get(&"foo".to_string()).unwrap();
    assert_eq!(
        foo_specs,
        &vec![">=1.0".to_string(), "<2.0".to_string(), "*".to_string()]
    );
    let bar_specs = composed.get(&"bar".to_string()).unwrap();
    assert_eq!(bar_specs, &vec![">=1.0".to_string()]);
    assert!(composed.get(&"baz".to_string()).is_none());
    assert_eq!(composed.len(), 2);
}

#[test]
fn test_dependencies_filter_by_kind() {
    let mut default_feature = feature(FeatureName::Default);
    default_feature.targets.default.run_dependencies = deps(vec![("foo", "*")]);
    default_feature.targets.default.build_dependencies = deps(vec![("cmake", ">=3.0")]);

    let manifest = Project {
        manifest: Manifest {
            project: ProjectMetadata {
                name: "foobar".to_string(),
                channels: vec![],
                platforms: vec![Platform::Linux64],
            },
            features: vec![default_feature],
            environments: vec![environment("default", vec![])],
        },
        root: "/proj".to_string(),
    };

    let env = manifest.default_environment();
    let build = env.dependencies(Some(SpecType::Build), None);
    assert_eq!(
        build.entries,
        vec![("cmake".to_string(), vec![">=3.0".to_string()])]
    );
    let run = env.dependencies(Some(SpecType::Run), None);
    assert_eq!(run.entries, vec![("foo".to_string(), vec!["*".to_string()])]);
}

#[test]
fn test_unsupported_platform_error_details() {
    let manifest = project(vec![], vec![Platform::Linux64, Platform::Osx64], vec![], vec![]);
    let env = manifest.default_environment();
    let err = env.tasks(Some(Platform::Win64)).unwrap_err();
    assert_eq!(err.platform, Platform::Win64);
    assert_eq!(err.environments_platforms, vec![Platform::Linux64, Platform::Osx64]);
    assert_eq!(err.environment.0, "default");
}

#[test]
fn test_unknown_task_error_details() {
    let manifest = project(vec![], vec![Platform::Linux64], vec![], vec![]);
    let env = manifest.default_environment();
    let err = env.task("missing", None).unwrap_err();
    assert_eq!(err.task_name, "missing");
    assert_eq!(err.environment.0, "default");
    assert!(err.platform.is_none());
    // An unsupported platform collapses into the same error value.
    let err2 = env.task("missing", Some(Platform::Win64)).unwrap_err();
    assert_eq!(err2.platform, Some(Platform::Win64));
}

#[test]
fn test_platform_feature_intersection() {
    let mut cuda_feature = feature(FeatureName::Named("cuda".to_string()));
    cuda_feature.platforms = Some(vec![Platform::Linux64, Platform::Win64]);
    let manifest = project(
        vec![],
        vec![Platform::Linux64, Platform::Osx64, Platform::Win64],
        vec![cuda_feature],
        vec![environment("cuda", vec!["cuda"])],
    );
    let env = manifest.environment("cuda").unwrap();
    assert_eq!(env.platforms(), vec![Platform::Linux64, Platform::Win64]);
}

#[test]
fn test_system_requirements_union() {
    let mut a = feature(FeatureName::Named("a".to_string()));
    a.system_requirements.linux = Some(Version { major: 4, minor: 18 });
    a.system_requirements.unix = Some(false);
    let mut b = feature(FeatureName::Named("b".to_string()));
    b.system_requirements.linux = Some(Version { major: 5, minor: 10 });
    b.system_requirements.cuda = Some(Version { major: 11, minor: 0 });
    b.system_requirements.unix = Some(true);

    let manifest = project(
        vec![],
        vec![Platform::Linux64],
        vec![a, b],
        vec![environment("ab", vec!["a", "b"])],
    );
    let req = manifest.environment("ab").unwrap().system_requirements();
    assert_eq!(req.linux, Some(Version { major: 5, minor: 10 }));
    assert_eq!(req.cuda, Some(Version { major: 11, minor: 0 }));
    assert_eq!(req.unix, Some(true));
    assert_eq!(req.macos, None);
    assert_eq!(req.glibc, None);
}

#[test]
fn test_pypi_dependencies_and_flag() {
    let mut default_feature = feature(FeatureName::Default);
    default_feature.targets.default.pypi_dependencies = deps(vec![("requests", ">=2.0")]);
    let mut foo_feature = feature(FeatureName::Named("foo".to_string()));
    foo_feature.targets.default.pypi_dependencies = deps(vec![("requests", "<3.0"), ("numpy", "*")]);

    let manifest = Project {
        manifest: Manifest {
            project: ProjectMetadata {
                name: "foobar".to_string(),
                channels: vec![],
                platforms: vec![Platform::Linux64],
            },
            features: vec![foo_feature, default_feature],
            environments: vec![environment("default", vec![]), environment("foo", vec!["foo"])],
        },
        root: "/proj".to_string(),
    };

    let env = manifest.environment("foo").unwrap();
    assert!(env.has_pypi_dependencies());
    let pypi = env.pypi_dependencies(None);
    let entries: Vec<(String, Vec<String>)> =
        pypi.iter().map(|(k, v)| (k.clone(), v.clone())).collect();
    assert_eq!(
        entries,
        vec![
            (
                "requests".to_string(),
                vec!["<3.0".to_string(), ">=2.0".to_string()]
            ),
            ("numpy".to_string(), vec!["*".to_string()]),
        ]
    );

    let empty = project(vec![], vec![Platform::Linux64], vec![], vec![]);
    assert!(!empty.default_environment().has_pypi_dependencies());
}

#[test]
fn test_aggregation_idempotence() {
    let mut foo_feature = feature(FeatureName::Named("foo".to_string()));
    foo_feature.channels = Some(vec![chan_prio("nvidia", 1), chan("pytorch")]);
    foo_feature.targets.default.run_dependencies = deps(vec![("foo", ">=1.0")]);
    foo_feature.targets.default.activation_scripts = Some(vec!["foo.bat".to_string()]);

    let manifest = project(
        vec![chan("conda-forge")],
        vec![Platform::Linux64, Platform::Osx64],
        vec![foo_feature],
        vec![environment("foo", vec!["foo"])],
    );
    let env = manifest.environment("foo").unwrap();

    assert_eq!(channel_names(&env.channels()), channel_names(&env.channels()));
    assert_eq!(env.platforms(), env.platforms());
    assert_eq!(env.system_requirements(), env.system_requirements());
    assert_eq!(
        env.dependencies(None, None).entries,
        env.dependencies(None, None).entries
    );
    assert_eq!(env.activation_scripts(None), env.activation_scripts(None));
    let t1: Vec<(String, String)> = env
        .tasks(None)
        .unwrap()
        .into_iter()
        .map(|(n, t)| (n, t.as_single_command().unwrap().clone()))
        .collect();
    let t2: Vec<(String, String)> = env
        .tasks(None)
        .unwrap()
        .into_iter()
        .map(|(n, t)| (n, t.as_single_command().unwrap().clone()))
        .collect();
    assert_eq!(t1, t2);
}

#[test]
fn test_environment_accessors() {
    let manifest = project(
        vec![],
        vec![Platform::Linux64],
        vec![],
        vec![environment("dev", vec![])],
    );
    let env = manifest.environment("dev").unwrap();
    assert_eq!(env.name().0, "dev");
    assert_eq!(env.manifest().name.0, "dev");
    assert_eq!(env.project().name().as_str(), "foobar");
    assert_eq!(env.dir(), "/proj/.pixi/envs/dev");
    assert!(manifest.environment("missing").is_none());
    let feats = env.features();
    assert_eq!(feats.len(), 1);
    assert!(matches!(feats[0].name, FeatureName::Default));
}

#[test]
fn test_channel_deduplication_keeps_first() {
    // Both features and the project defaults mention conda-forge; only the
    // first occurrence after the priority sort survives.
    let mut foo_feature = feature(FeatureName::Named("foo".to_string()));
    foo_feature.channels = Some(vec![chan("conda-forge"), chan("pytorch")]);
    let mut bar_feature = feature(FeatureName::Named("bar".to_string()));
    bar_feature.channels = Some(vec![chan("conda-forge")]);

    let manifest = project(
        vec![chan("conda-forge")],
        vec![Platform::Linux64],
        vec![foo_feature, bar_feature],
        vec![environment("both", vec!["foo", "bar"])],
    );
    let channels = channel_names(&manifest.environment("both").unwrap().channels());
    assert_eq!(channels, vec!["conda-forge", "pytorch"]);
}

#[test]
fn test_platform_names() {
    assert_eq!(Platform::Linux64.as_str(), "linux-64");
    assert_eq!(Platform::LinuxAarch64.as_str(), "linux-aarch64");
    assert_eq!(Platform::Osx64.as_str(), "osx-64");
    assert_eq!(Platform::OsxArm64.as_str(), "osx-arm64");
    assert_eq!(Platform::Win64.as_str(), "win-64");
}
