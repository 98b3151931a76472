//! The registry and the two built-in providers on concrete values.

use amaris::document::Value;
use amaris::error::ConfigError;
use amaris::provider::{AmarisRegistry, DynamicProvider};
use amaris::providers::biome::BiomeProvider;
use amaris::providers::prettier_eslint::PrettierEslintProvider;
use amaris::utils::AmarisPackageJsonHandler;

fn s_val(v: &str) -> Value {
    Value::Str(v.to_string())
}

fn named_provider(name: &str, description: &str) -> DynamicProvider {
    DynamicProvider {
        name: name.to_string(),
        description: description.to_string(),
        package_manager: "bun".to_string(),
        packages: Vec::new(),
        configuration: Vec::new(),
        scripts: Vec::new(),
    }
}

#[test]
fn registry_lookup_and_listing() {
    let mut reg = AmarisRegistry::new();
    assert!(reg.get_provider("biome").is_none());
    reg.register(named_provider("biome", "Biome"));
    reg.register(named_provider("prettier_eslint", "Prettier + ESLint"));
    let p = reg.get_provider("biome").expect("registered provider");
    assert_eq!(p.description, "Biome");
    assert!(reg.get_provider("missing").is_none());
    let listed = reg.available_configs();
    assert_eq!(listed.len(), 2);
    assert!(listed.contains(&("biome".to_string(), "Biome".to_string())));
}

#[test]
fn registry_replaces_on_same_name() {
    let mut reg = AmarisRegistry::new();
    reg.register(named_provider("biome", "first"));
    reg.register(named_provider("biome", "second"));
    let listed = reg.available_configs();
    assert_eq!(listed.len(), 1);
    assert_eq!(reg.get_provider("biome").unwrap().description, "second");
}

#[test]
fn biome_paths_and_packages() {
    assert_eq!(BiomeProvider::get_configuration_path(), "biome.json");
    assert_eq!(BiomeProvider::get_packages(), vec!["@biomejs/biome", "ultracite"]);
}

#[test]
fn biome_configuration_is_a_sound_document() {
    let cfg = BiomeProvider::get_configuration();
    assert!(cfg.check_wf());
    assert!(cfg.is_object());
    assert!(cfg
        .get(&"$schema".to_string())
        .unwrap()
        .deep_eq(&Value::Str("https://biomejs.dev/schemas/1.9.4/schema.json".to_string())));
    assert!(cfg.get(&"linter".to_string()).unwrap().is_object());
    assert!(cfg
        .get(&"extends".to_string())
        .unwrap()
        .deep_eq(&Value::Arr(vec![s_val("ultracite")])));
    let formatter = cfg.get(&"formatter".to_string()).unwrap();
    assert!(formatter.get(&"indentWidth".to_string()).unwrap().deep_eq(&Value::Int(4)));
    // the template is a fixed constant: two calls agree
    assert!(cfg.deep_eq(&BiomeProvider::get_configuration()));
    let settings = BiomeProvider::get_vscode_configuration();
    assert!(settings.check_wf());
    assert!(settings
        .get(&"editor.defaultFormatter".to_string())
        .unwrap()
        .deep_eq(&Value::Str("biomejs.biome".to_string())));
}

#[test]
fn biome_settings_install_and_remove_are_symmetric() {
    let fragment = BiomeProvider::get_vscode_configuration();
    let empty = Value::empty_object();
    let installed = BiomeProvider::update_vscode_settings(&empty, &fragment);
    assert!(installed
        .get(&"typescript.tsdk".to_string())
        .unwrap()
        .deep_eq(&Value::Str("node_modules/typescript/lib".to_string())));
    let removed = BiomeProvider::remove_vscode_settings(&installed, &fragment);
    assert!(removed.deep_eq(&empty));
}

#[test]
fn biome_manifest_scripts() {
    let manifest = Value::empty_object();
    let installed = BiomeProvider::update_package_json(&manifest);
    assert_eq!(
        AmarisPackageJsonHandler::get_script(&installed, "biome"),
        Some("biome check .".to_string())
    );
    assert_eq!(
        AmarisPackageJsonHandler::get_script(&installed, "biome:fix"),
        Some("biome check . --write".to_string())
    );
    let removed = BiomeProvider::remove_package_json(&installed);
    assert!(AmarisPackageJsonHandler::get_script(&removed, "biome").is_none());
    assert!(AmarisPackageJsonHandler::get_script(&removed, "biome:fix").is_none());
}

#[test]
fn biome_command_plans() {
    let install = BiomeProvider::install_packages();
    assert_eq!(install.len(), 2);
    assert_eq!(install[0].program, "bun");
    assert_eq!(install[0].args, vec!["install", "--dev", "@biomejs/biome"]);
    let remove = BiomeProvider::remove_packages();
    assert_eq!(remove[1].args, vec!["remove", "ultracite"]);
}

#[test]
fn biome_prerequisites() {
    assert!(BiomeProvider::check_prerequisites(true, true).is_ok());
    assert!(matches!(
        BiomeProvider::check_prerequisites(false, true),
        Err(ConfigError::MissingPrerequisite(_))
    ));
    assert!(matches!(
        BiomeProvider::check_prerequisites(true, false),
        Err(ConfigError::MissingPrerequisite(_))
    ));
}

#[test]
fn prettier_paths_and_packages() {
    assert_eq!(PrettierEslintProvider::get_prettier_configuration_path(), ".prettierrc.json");
    assert_eq!(PrettierEslintProvider::get_eslint_configuration_path(), "eslint.config.js");
    let packages = PrettierEslintProvider::get_packages();
    assert_eq!(packages.len(), 10);
    assert_eq!(packages[0], "prettier");
    assert_eq!(packages[2], "eslint");
    assert!(!PrettierEslintProvider::get_eslint_configuration().is_empty());
}

#[test]
fn prettier_configuration_is_a_sound_document() {
    let cfg = PrettierEslintProvider::get_prettier_configuration();
    assert!(cfg.check_wf());
    assert!(cfg.get(&"semi".to_string()).unwrap().deep_eq(&Value::Bool(true)));
    assert!(cfg.get(&"printWidth".to_string()).unwrap().deep_eq(&Value::Int(120)));
    // the template is a fixed constant: two calls agree
    assert!(cfg.deep_eq(&PrettierEslintProvider::get_prettier_configuration()));
    let settings = PrettierEslintProvider::get_vscode_configuration();
    assert!(settings.check_wf());
    assert!(settings
        .get(&"editor.defaultFormatter".to_string())
        .unwrap()
        .deep_eq(&Value::Str("esbenp.prettier-vscode".to_string())));
    assert!(settings.deep_eq(&PrettierEslintProvider::get_vscode_configuration()));
}

#[test]
fn prettier_manifest_scripts() {
    let manifest = Value::empty_object();
    let installed = PrettierEslintProvider::update_package_json(&manifest);
    assert_eq!(
        AmarisPackageJsonHandler::get_script(&installed, "format"),
        Some("prettier --write .".to_string())
    );
    assert_eq!(
        AmarisPackageJsonHandler::get_script(&installed, "lint:fix"),
        Some("eslint . --fix".to_string())
    );
    let removed = PrettierEslintProvider::remove_package_json(&installed);
    assert!(AmarisPackageJsonHandler::get_script(&removed, "format").is_none());
    assert!(AmarisPackageJsonHandler::get_script(&removed, "format:check").is_none());
    assert!(AmarisPackageJsonHandler::get_script(&removed, "lint").is_none());
    assert!(AmarisPackageJsonHandler::get_script(&removed, "lint:fix").is_none());
}

#[test]
fn prettier_settings_install_and_remove_are_symmetric() {
    let fragment = PrettierEslintProvider::get_vscode_configuration();
    let empty = Value::empty_object();
    let installed = PrettierEslintProvider::update_vscode_settings(&empty, &fragment);
    let removed = PrettierEslintProvider::remove_vscode_settings(&installed, &fragment);
    assert!(removed.deep_eq(&empty));
}

#[test]
fn prettier_prerequisites_refuse_biome_conflict() {
    assert!(PrettierEslintProvider::check_prerequisites(true, true, false).is_ok());
    match PrettierEslintProvider::check_prerequisites(true, true, true) {
        Err(ConfigError::ConflictError(m)) => {
            assert!(m.contains("Biome is already installed"));
        },
        _ => panic!("expected a conflict error"),
    }
    assert!(matches!(
        PrettierEslintProvider::check_prerequisites(false, true, false),
        Err(ConfigError::MissingPrerequisite(_))
    ));
    assert!(matches!(
        PrettierEslintProvider::check_prerequisites(true, false, false),
        Err(ConfigError::MissingPrerequisite(_))
    ));
}

#[test]
fn prettier_command_plans() {
    let install = PrettierEslintProvider::install_packages();
    assert_eq!(install.len(), 10);
    assert_eq!(install[0].args, vec!["install", "--dev", "prettier"]);
    let remove = PrettierEslintProvider::remove_packages();
    assert_eq!(remove.len(), 10);
    assert_eq!(remove[9].args, vec!["remove", "eslint-plugin-unused-imports"]);
}
