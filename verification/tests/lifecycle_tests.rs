//! Install and remove flows over concrete manifests and settings.

use amaris::configurator::AmarisConfigurator;
use amaris::document::Value;
use amaris::error::ConfigError;
use amaris::provider::{ConfigEntry, DynamicProvider, ScriptEntry};
use amaris::utils::{
    load_document, AmarisConfigurationHandler, AmarisInitialConfigHandler, AmarisInstaller,
    AmarisPackageJsonHandler, AmarisPathHandler, AmarisVisualStudioCodeHandler, ConfigRemoval,
};

fn s(v: &str) -> Value {
    Value::Str(v.to_string())
}

fn obj(pairs: Vec<(&str, Value)>) -> Value {
    let mut out = Value::empty_object();
    for (k, v) in pairs {
        out.insert_key(k.to_string(), v);
    }
    out
}

fn provider(packages: Vec<&str>, scripts: Vec<(&str, &str)>) -> DynamicProvider {
    DynamicProvider {
        name: "tool".to_string(),
        description: "A tool".to_string(),
        package_manager: "bun".to_string(),
        packages: packages.into_iter().map(|p| p.to_string()).collect(),
        configuration: Vec::new(),
        scripts: scripts
            .into_iter()
            .map(|(n, c)| ScriptEntry { name: n.to_string(), script: c.to_string() })
            .collect(),
    }
}

#[test]
fn missing_file_defaults_to_empty_object() {
    let r = load_document(false, None, "unused".to_string());
    let doc = r.unwrap();
    assert!(doc.is_empty_object());
    // the same through both handlers
    let r2 = AmarisPackageJsonHandler::read(false, None, "unused".to_string());
    assert!(r2.unwrap().is_empty_object());
    let r3 = AmarisVisualStudioCodeHandler::read(false, None, "unused".to_string());
    assert!(r3.unwrap().is_empty_object());
}

#[test]
fn unparseable_document_is_a_validation_error() {
    let r = load_document(true, None, "bad syntax at line 3".to_string());
    match r {
        Err(ConfigError::ValidationError(m)) => assert_eq!(m, "bad syntax at line 3"),
        _ => panic!("expected a validation error"),
    }
}

#[test]
fn fresh_install_scenario() {
    // empty manifest; provider contributes one package and one script
    let manifest = Value::empty_object();
    let p = provider(vec!["fmt-tool"], vec![("format", "fmt-tool .")]);
    let commands = p.install_commands();
    // the package manager is asked exactly once
    assert_eq!(commands.len(), 1);
    assert_eq!(commands[0].program, "bun");
    assert_eq!(commands[0].args, vec!["install", "--dev", "fmt-tool"]);
    let after = p.apply_scripts(&manifest);
    let script = AmarisPackageJsonHandler::get_script(&after, "format");
    assert_eq!(script, Some("fmt-tool .".to_string()));
}

#[test]
fn conflicting_script_append() {
    let manifest = obj(vec![("scripts", obj(vec![("lint", s("old-lint"))]))]);
    let after = AmarisPackageJsonHandler::add_script(&manifest, "lint", "new-lint", true);
    let script = AmarisPackageJsonHandler::get_script(&after, "lint");
    assert_eq!(script, Some("old-lint && new-lint".to_string()));
}

#[test]
fn overwrite_policy() {
    let manifest = obj(vec![("scripts", obj(vec![("lint", s("old-lint"))]))]);
    let after = AmarisPackageJsonHandler::add_script(&manifest, "lint", "new-lint", false);
    let script = AmarisPackageJsonHandler::get_script(&after, "lint");
    assert_eq!(script, Some("new-lint".to_string()));
}

#[test]
fn add_script_keeps_sibling_keys() {
    let manifest = obj(vec![
        ("name", s("my-app")),
        ("scripts", obj(vec![("test", s("vitest"))])),
    ]);
    let after = AmarisPackageJsonHandler::add_script(&manifest, "lint", "eslint .", false);
    assert!(after.get(&"name".to_string()).unwrap().deep_eq(&s("my-app")));
    assert_eq!(
        AmarisPackageJsonHandler::get_script(&after, "test"),
        Some("vitest".to_string())
    );
    assert_eq!(
        AmarisPackageJsonHandler::get_script(&after, "lint"),
        Some("eslint .".to_string())
    );
}

#[test]
fn symmetric_remove_scenario() {
    // install provider X then remove provider X on initially-empty documents
    let manifest = Value::empty_object();
    let settings = Value::empty_object();
    let p = provider(vec!["x-tool"], vec![("xs", "x-tool run"), ("xl", "x-tool lint")]);
    let fragment = obj(vec![("editor.x", s("on"))]);

    let manifest_after = p.apply_scripts(&manifest);
    let settings_after = AmarisVisualStudioCodeHandler::update(&settings, &fragment);

    let manifest_restored = p.revert_scripts(&manifest_after);
    let settings_restored = settings_after.subtract(&fragment);

    // every key the provider owns is gone again
    assert!(AmarisPackageJsonHandler::get_script(&manifest_restored, "xs").is_none());
    assert!(AmarisPackageJsonHandler::get_script(&manifest_restored, "xl").is_none());
    assert!(settings_restored.deep_eq(&settings));
}

#[test]
fn append_to_non_string_script_starts_empty() {
    // an existing entry that is not a string contributes nothing before the
    // separator under the append policy
    let manifest = obj(vec![("scripts", obj(vec![("lint", Value::Int(1))]))]);
    let after = AmarisPackageJsonHandler::add_script(&manifest, "lint", "new-lint", true);
    assert_eq!(
        AmarisPackageJsonHandler::get_script(&after, "lint"),
        Some(" && new-lint".to_string())
    );
}

#[test]
fn repeated_script_install_is_idempotent() {
    let manifest = Value::empty_object();
    let p = provider(vec![], vec![("format", "fmt-tool ."), ("lint", "lint-tool .")]);
    let once = p.apply_scripts(&manifest);
    let twice = p.apply_scripts(&once);
    assert!(twice.deep_eq(&once));
}

#[test]
fn read_returns_parsed_document() {
    let doc = obj(vec![("name", s("app"))]);
    let r = AmarisPackageJsonHandler::read(true, Some(doc), String::new());
    let loaded = r.unwrap();
    assert!(loaded.get(&"name".to_string()).unwrap().deep_eq(&s("app")));
}

#[test]
fn placement_refuses_overwrite() {
    let r = AmarisConfigurator::write_file(".prettierrc.json".to_string(), true);
    match r {
        Err(ConfigError::AlreadyExists(p)) => assert_eq!(p, ".prettierrc.json"),
        _ => panic!("expected an already-exists error"),
    }
    assert!(AmarisConfigurator::write_file(".prettierrc.json".to_string(), false).is_ok());
}

#[test]
fn remove_script_deletes_the_key() {
    let manifest = obj(vec![(
        "scripts",
        obj(vec![("a", s("cmd-a")), ("b", s("cmd-b"))]),
    )]);
    let after = AmarisPackageJsonHandler::remove_script(&manifest, "a");
    assert!(AmarisPackageJsonHandler::get_script(&after, "a").is_none());
    assert_eq!(
        AmarisPackageJsonHandler::get_script(&after, "b"),
        Some("cmd-b".to_string())
    );
}

#[test]
fn get_script_on_odd_shapes() {
    assert!(AmarisPackageJsonHandler::get_script(&Value::Null, "x").is_none());
    let no_scripts = obj(vec![("name", s("app"))]);
    assert!(AmarisPackageJsonHandler::get_script(&no_scripts, "x").is_none());
    let scripts_not_obj = obj(vec![("scripts", s("oops"))]);
    assert!(AmarisPackageJsonHandler::get_script(&scripts_not_obj, "x").is_none());
    let script_not_str = obj(vec![("scripts", obj(vec![("x", Value::Int(1))]))]);
    assert!(AmarisPackageJsonHandler::get_script(&script_not_str, "x").is_none());
}

#[test]
fn dependencies_are_collected_from_all_tables() {
    let manifest = obj(vec![
        ("dependencies", obj(vec![("react", s("18"))])),
        ("devDependencies", obj(vec![("eslint", s("9"))])),
        ("peerDependencies", obj(vec![("typescript", s("5"))])),
    ]);
    let deps = AmarisConfigurator::get_package_dependencies(&manifest);
    match &deps {
        Value::Arr(items) => {
            // table by table, each in entry order
            assert_eq!(items.len(), 3);
            assert!(items[0].deep_eq(&s("react")));
            assert!(items[1].deep_eq(&s("eslint")));
            assert!(items[2].deep_eq(&s("typescript")));
        },
        _ => panic!("expected an array"),
    }
    assert!(AmarisConfigurator::check_if_dependency_exists(
        &manifest,
        &vec!["react".to_string(), "eslint".to_string()]
    ));
    assert!(!AmarisConfigurator::check_if_dependency_exists(
        &manifest,
        &vec!["react".to_string(), "absent".to_string()]
    ));
}

#[test]
fn dependencies_keep_duplicates_and_skip_odd_tables() {
    let manifest = obj(vec![
        ("dependencies", obj(vec![("shared", s("1")), ("alpha", s("2"))])),
        ("devDependencies", obj(vec![("shared", s("3"))])),
        ("peerDependencies", s("not-a-table")),
    ]);
    let deps = AmarisConfigurator::get_package_dependencies(&manifest);
    match &deps {
        Value::Arr(items) => {
            assert_eq!(items.len(), 3);
            assert!(items[0].deep_eq(&s("shared")));
            assert!(items[1].deep_eq(&s("alpha")));
            assert!(items[2].deep_eq(&s("shared")));
        },
        _ => panic!("expected an array"),
    }
}

#[test]
fn installer_command_plans() {
    let packages = vec!["a".to_string(), "b".to_string()];
    let install = AmarisInstaller::install("bun", &packages);
    assert_eq!(install.len(), 2);
    assert_eq!(install[1].args, vec!["install", "--dev", "b"]);
    let remove = AmarisInstaller::remove("bun", &packages);
    assert_eq!(remove.len(), 2);
    assert_eq!(remove[0].args, vec!["remove", "a"]);
}

#[test]
fn command_result_surfaces_stderr() {
    assert!(AmarisInstaller::command_result(true, String::new()).is_ok());
    match AmarisInstaller::command_result(false, "boom".to_string()) {
        Err(ConfigError::DependencyError(m)) => assert_eq!(m, "boom"),
        _ => panic!("expected a dependency error"),
    }
}

#[test]
fn paths_under_the_home_directory() {
    let root = AmarisPathHandler::get_root_config_path(Some("/home/u".to_string()));
    assert_eq!(root.unwrap(), "/home/u/.amaya");
    let providers = AmarisPathHandler::get_default_provider_path(Some("/home/u".to_string()));
    assert_eq!(providers.unwrap(), "/home/u/.amaya/providers");
    let configs = AmarisPathHandler::get_default_config_path(Some("/home/u".to_string()));
    assert_eq!(configs.unwrap(), "/home/u/.amaya/configs");
    match AmarisPathHandler::get_root_config_path(None) {
        Err(ConfigError::PathError(m)) => assert_eq!(m, "Could not find home directory"),
        _ => panic!("expected a path error"),
    }
}

#[test]
fn config_write_and_removal_plans() {
    let configs = vec![
        ConfigEntry {
            file_location: "biome.json".to_string(),
            file_name: "biome.json".to_string(),
            source_from: "biome.json".to_string(),
        },
        ConfigEntry {
            file_location: ".vscode/settings.json".to_string(),
            file_name: "settings.json".to_string(),
            source_from: "settings.json".to_string(),
        },
    ];
    let plan = AmarisConfigurationHandler::write_configs("biome", &configs, "/cfg");
    assert_eq!(plan.len(), 2);
    assert_eq!(plan[0].0, "/cfg/biome/biome.json");
    assert_eq!(plan[0].1, "biome.json");
    let removal = AmarisConfigurationHandler::remove_configs(&configs);
    assert!(matches!(removal[0], ConfigRemoval::DeleteFile(ref p) if p == "biome.json"));
    assert!(matches!(removal[1], ConfigRemoval::SubtractSettings));
}

#[test]
fn error_messages_render() {
    assert_eq!(
        ConfigError::AlreadyExists("x.json".to_string()).message(),
        "Configuration 'x.json' already exists"
    );
    assert_eq!(
        ConfigError::MissingPrerequisite("bun".to_string()).message(),
        "Missing prerequisite: bun"
    );
    assert_eq!(
        ConfigError::FileWriteError("disk".to_string()).message(),
        "Failed to write configuration file: disk"
    );
    assert_eq!(
        ConfigError::ValidationError("eof".to_string()).message(),
        "Configuration validation failed: eof"
    );
    assert_eq!(
        ConfigError::DependencyError("404".to_string()).message(),
        "Dependency installation failed: 404"
    );
    assert_eq!(
        ConfigError::ConflictError("biome".to_string()).message(),
        "Conflict with existing configuration: biome"
    );
    assert_eq!(ConfigError::PathError("no home".to_string()).message(), "Path error: no home");
    assert_eq!(
        ConfigError::FileReadError("gone".to_string()).message(),
        "File read error: gone"
    );
}

#[test]
fn prerequisites_decision() {
    let p = provider(vec![], vec![]);
    assert!(p.check_prerequisites(true, true).is_ok());
    match p.check_prerequisites(false, true) {
        Err(ConfigError::MissingPrerequisite(m)) => {
            assert_eq!(m, "Package manager not found")
        },
        _ => panic!("expected a missing prerequisite"),
    }
    match p.check_prerequisites(true, false) {
        Err(ConfigError::MissingPrerequisite(m)) => assert_eq!(m, "package.json not found!"),
        _ => panic!("expected a missing prerequisite"),
    }
}

#[test]
fn initial_configuration() {
    let p = AmarisInitialConfigHandler::initial_provider();
    assert_eq!(p.name, "biome");
    assert_eq!(p.package_manager, "bun");
    assert_eq!(p.packages, vec!["@biomejs/biome"]);
    assert_eq!(p.scripts.len(), 2);
    assert_eq!(p.scripts[0].name, "format");
    assert_eq!(p.scripts[0].script, "biome format .");
    let (biome_cfg, provider_file, settings) =
        AmarisInitialConfigHandler::initial_file_paths("/cfg", "/prov");
    assert_eq!(biome_cfg, "/cfg/biome/biome.json");
    assert_eq!(provider_file, "/prov/biome.json");
    assert_eq!(settings, "/cfg/biome/settings.json");
}
