//! The Prettier + ESLint provider: formatting by Prettier, linting by
//! ESLint; mutually exclusive with the Biome provider.

use vstd::prelude::*;
use vstd::string::StringExecFns;

use crate::document::{
    lemma_wf_items_all, merge_model, subtract_model, wf, Value, ValueModel,
};
use crate::error::ConfigError;
use crate::provider::ScriptEntry;
use crate::utils::{
    scripts_after_remove, scripts_after_write, scripts_table, scripts_wf, AmarisInstaller,
    AmarisPackageJsonHandler, PackageCommand,
};

verus! {

/// An array of strings, for configuration values: each element becomes a
/// string node, in order.
fn str_array(items: Vec<String>) -> (r: Value)
    ensures
        wf(r),
        r@ == ValueModel::Arr(items@.map(|i: int, s: String| ValueModel::Str(s@))),
{
    let mut out: Vec<Value> = Vec::new();
    let mut i: usize = 0;
    while i < items.len()
        invariant
            i <= items@.len(),
            out@.len() == i,
            forall|j: int| 0 <= j < i ==> wf(#[trigger] out@[j]),
            forall|j: int| #![auto] 0 <= j < i ==> out@[j]@ == ValueModel::Str(items@[j]@),
        decreases items@.len() - i,
    {
        out.push(Value::Str(items[i].clone()));
        i += 1;
    }
    proof {
        lemma_wf_items_all(out@);
        crate::document::lemma_items_seq_index(out@);
        assert forall|j: int| 0 <= j < out@.len() implies crate::document::items_seq(out@)[j]
            == items@.map(|i: int, s: String| ValueModel::Str(s@))[j] by {
            assert(out@[j]@ == ValueModel::Str(items@[j]@));
        }
        assert(crate::document::items_seq(out@) =~= items@.map(
            |i: int, s: String| ValueModel::Str(s@),
        ));
    }
    Value::Arr(out)
}

/// An array holding one value, for configuration values.
fn singleton_array(v: Value) -> (r: Value)
    requires
        wf(v),
    ensures
        wf(r),
        r@ == ValueModel::Arr(seq![v@]),
{
    let ghost model = v@;
    let mut items: Vec<Value> = Vec::new();
    items.push(v);
    proof {
        lemma_wf_items_all(items@);
        assert(items@.len() == 1);
        assert(items@.last()@ == model);
        assert(items@.drop_last() =~= Seq::<Value>::empty());
        assert(crate::document::items_seq(items@) == crate::document::items_seq(
            items@.drop_last(),
        ).push(items@.last()@));
        assert(crate::document::items_seq(Seq::<Value>::empty()) =~= Seq::<ValueModel>::empty());
        assert(crate::document::items_seq(items@) =~= seq![model]);
    }
    Value::Arr(items)
}

/// The import-order table of the Prettier configuration template, as a
/// model.
pub open spec fn prettier_import_order_model() -> ValueModel {
    ValueModel::Arr(
        seq![
            ValueModel::Str(""@),
            ValueModel::Str("^react$"@),
            ValueModel::Str("^next(-[^/]+)?(/.*)?$"@),
            ValueModel::Str(""@),
            ValueModel::Str("<TYPES>"@),
            ValueModel::Str("<TYPES>^[.]"@),
            ValueModel::Str(""@),
            ValueModel::Str("<BUILTIN_MODULES>"@),
            ValueModel::Str(""@),
            ValueModel::Str("<THIRD_PARTY_MODULES>"@),
            ValueModel::Str(""@),
            ValueModel::Str("^#/(.*)$"@),
            ValueModel::Str(""@),
            ValueModel::Str("^[./]"@),
            ValueModel::Str(""@),
            ValueModel::Str("^(?!.*[.]css$)[./].*$"@),
            ValueModel::Str(".css$"@),
        ],
    )
}

/// The Prettier configuration template, as a model: the fixed document
/// every call of [`PrettierEslintProvider::get_prettier_configuration`]
/// returns.
pub open spec fn prettier_configuration_model() -> ValueModel {
    ValueModel::Obj(
        Map::<Seq<char>, ValueModel>::empty().insert("semi"@, ValueModel::Bool(true)).insert(
            "trailingComma"@,
            ValueModel::Str("es5"@),
        ).insert("tabWidth"@, ValueModel::Int(4)).insert(
            "bracketSpacing"@,
            ValueModel::Bool(true),
        ).insert("singleQuote"@, ValueModel::Bool(false)).insert(
            "arrowParens"@,
            ValueModel::Str("always"@),
        ).insert("quoteProps"@, ValueModel::Str("consistent"@)).insert(
            "printWidth"@,
            ValueModel::Int(120),
        ).insert(
            "plugins"@,
            ValueModel::Arr(seq![ValueModel::Str("@ianvs/prettier-plugin-sort-imports"@)]),
        ).insert("importOrder"@, prettier_import_order_model()).insert(
            "importOrderTypeScriptVersion"@,
            ValueModel::Str("5.4.5"@),
        ).insert(
            "overrides"@,
            ValueModel::Arr(
                seq![
                    ValueModel::Obj(
                        Map::<Seq<char>, ValueModel>::empty().insert(
                            "files"@,
                            ValueModel::Arr(
                                seq![
                                    ValueModel::Str("**/.vscode/*.json"@),
                                    ValueModel::Str("**/tsconfig.json"@),
                                    ValueModel::Str("**/tsconfig.*.json"@),
                                ],
                            ),
                        ).insert(
                            "options"@,
                            ValueModel::Obj(
                                Map::<Seq<char>, ValueModel>::empty().insert(
                                    "parser"@,
                                    ValueModel::Str("jsonc"@),
                                ),
                            ),
                        ),
                    ),
                ],
            ),
        ),
    )
}

/// The editor-settings fragment of the Prettier + ESLint provider, as a
/// model.
pub open spec fn prettier_vscode_model() -> ValueModel {
    ValueModel::Obj(
        Map::<Seq<char>, ValueModel>::empty().insert(
            "typescript.tsdk"@,
            ValueModel::Str("node_modules/typescript/lib"@),
        ).insert("typescript.enablePromptUseWorkspaceTsdk"@, ValueModel::Bool(true)).insert(
            "editor.defaultFormatter"@,
            ValueModel::Str("esbenp.prettier-vscode"@),
        ).insert(
            "editor.codeActionsOnSave"@,
            ValueModel::Obj(
                Map::<Seq<char>, ValueModel>::empty().insert(
                    "source.fixAll.eslint"@,
                    ValueModel::Str("explicit"@),
                ),
            ),
        ).insert(
            "eslint.rules.customizations"@,
            ValueModel::Arr(
                seq![
                    ValueModel::Obj(
                        Map::<Seq<char>, ValueModel>::empty().insert(
                            "rule"@,
                            ValueModel::Str("*"@),
                        ).insert("severity"@, ValueModel::Str("warn"@)),
                    ),
                ],
            ),
        ).insert("eslint.useFlatConfig"@, ValueModel::Bool(true)).insert(
            "files.exclude"@,
            ValueModel::Obj(
                Map::<Seq<char>, ValueModel>::empty().insert(
                    "**/node_modules"@,
                    ValueModel::Bool(true),
                ),
            ),
        ),
    )
}

/// The packages of the Prettier + ESLint provider, in declaration order.
pub open spec fn prettier_package_names() -> Seq<Seq<char>> {
    seq![
        "prettier"@,
        "@ianvs/prettier-plugin-sort-imports"@,
        "eslint"@,
        "@eslint/js"@,
        "typescript-eslint"@,
        "eslint-config-prettier"@,
        "eslint-plugin-prettier"@,
        "eslint-plugin-react-hooks"@,
        "eslint-plugin-unicorn"@,
        "eslint-plugin-unused-imports"@,
    ]
}

/// The Prettier + ESLint provider.
pub struct PrettierEslintProvider;

impl PrettierEslintProvider {
    /// The project-relative path of the Prettier configuration file.
    pub fn get_prettier_configuration_path() -> (r: String)
        ensures
            r@ == ".prettierrc.json"@,
    {
        ".prettierrc.json".to_owned()
    }

    /// The project-relative path of the ESLint configuration file.
    pub fn get_eslint_configuration_path() -> (r: String)
        ensures
            r@ == "eslint.config.js"@,
    {
        "eslint.config.js".to_owned()
    }

    /// The packages this provider declares.
    pub fn get_packages() -> (r: Vec<&'static str>)
        ensures
            r@.len() == 10,
            r@[0]@ == "prettier"@,
            r@[1]@ == "@ianvs/prettier-plugin-sort-imports"@,
            r@[2]@ == "eslint"@,
            r@[3]@ == "@eslint/js"@,
            r@[4]@ == "typescript-eslint"@,
            r@[5]@ == "eslint-config-prettier"@,
            r@[6]@ == "eslint-plugin-prettier"@,
            r@[7]@ == "eslint-plugin-react-hooks"@,
            r@[8]@ == "eslint-plugin-unicorn"@,
            r@[9]@ == "eslint-plugin-unused-imports"@,
    {
        let mut out: Vec<&'static str> = Vec::new();
        out.push("prettier");
        out.push("@ianvs/prettier-plugin-sort-imports");
        out.push("eslint");
        out.push("@eslint/js");
        out.push("typescript-eslint");
        out.push("eslint-config-prettier");
        out.push("eslint-plugin-prettier");
        out.push("eslint-plugin-react-hooks");
        out.push("eslint-plugin-unicorn");
        out.push("eslint-plugin-unused-imports");
        out
    }

    /// The import-order table of the Prettier configuration template.
    fn import_order() -> (r: Value)
        ensures
            wf(r),
            r@ == prettier_import_order_model(),
    {
        let mut items: Vec<String> = Vec::new();
        items.push("".to_owned());
        items.push("^react$".to_owned());
        items.push("^next(-[^/]+)?(/.*)?$".to_owned());
        items.push("".to_owned());
        items.push("<TYPES>".to_owned());
        items.push("<TYPES>^[.]".to_owned());
        items.push("".to_owned());
        items.push("<BUILTIN_MODULES>".to_owned());
        items.push("".to_owned());
        items.push("<THIRD_PARTY_MODULES>".to_owned());
        items.push("".to_owned());
        items.push("^#/(.*)$".to_owned());
        items.push("".to_owned());
        items.push("^[./]".to_owned());
        items.push("".to_owned());
        items.push("^(?!.*[.]css$)[./].*$".to_owned());
        items.push(".css$".to_owned());
        let r = str_array(items);
        proof {
            assert(r@->Arr_0 =~= prettier_import_order_model()->Arr_0);
        }
        r
    }

    /// The Prettier configuration template placed at
    /// [`Self::get_prettier_configuration_path`]: exactly
    /// [`prettier_configuration_model`], on every call.
    pub fn get_prettier_configuration() -> (r: Value)
        ensures
            wf(r),
            r@ == prettier_configuration_model(),
    {
        let mut override_files: Vec<String> = Vec::new();
        override_files.push("**/.vscode/*.json".to_owned());
        override_files.push("**/tsconfig.json".to_owned());
        override_files.push("**/tsconfig.*.json".to_owned());
        let files_arr = str_array(override_files);
        proof {
            assert(files_arr@->Arr_0 =~= seq![
                ValueModel::Str("**/.vscode/*.json"@),
                ValueModel::Str("**/tsconfig.json"@),
                ValueModel::Str("**/tsconfig.*.json"@),
            ]);
        }
        let mut options = Value::empty_object();
        options.insert_key("parser".to_owned(), Value::Str("jsonc".to_owned()));
        let mut override_entry = Value::empty_object();
        override_entry.insert_key("files".to_owned(), files_arr);
        override_entry.insert_key("options".to_owned(), options);
        let overrides = singleton_array(override_entry);
        let mut plugins: Vec<String> = Vec::new();
        plugins.push("@ianvs/prettier-plugin-sort-imports".to_owned());
        let plugins_arr = str_array(plugins);
        proof {
            assert(plugins_arr@->Arr_0 =~= seq![
                ValueModel::Str("@ianvs/prettier-plugin-sort-imports"@),
            ]);
        }
        let mut root = Value::empty_object();
        root.insert_key("semi".to_owned(), Value::Bool(true));
        root.insert_key("trailingComma".to_owned(), Value::Str("es5".to_owned()));
        root.insert_key("tabWidth".to_owned(), Value::Int(4));
        root.insert_key("bracketSpacing".to_owned(), Value::Bool(true));
        root.insert_key("singleQuote".to_owned(), Value::Bool(false));
        root.insert_key("arrowParens".to_owned(), Value::Str("always".to_owned()));
        root.insert_key("quoteProps".to_owned(), Value::Str("consistent".to_owned()));
        root.insert_key("printWidth".to_owned(), Value::Int(120));
        root.insert_key("plugins".to_owned(), plugins_arr);
        root.insert_key("importOrder".to_owned(), Self::import_order());
        root.insert_key("importOrderTypeScriptVersion".to_owned(), Value::Str("5.4.5".to_owned()));
        root.insert_key("overrides".to_owned(), overrides);
        root
    }

    /// The ESLint flat-config template placed at
    /// [`Self::get_eslint_configuration_path`]; an opaque template, not a
    /// structured document.
    pub fn get_eslint_configuration() -> String {
        r#"import js from "@eslint/js";
        import eslintPluginPrettierRecommended from "eslint-plugin-prettier/recommended";
        import reactHooks from "eslint-plugin-react-hooks";
        import eslintPluginUnicorn from "eslint-plugin-unicorn";
        import unusedImports from "eslint-plugin-unused-imports";
        import globals from "globals";
        import ts from "typescript-eslint";

        /** @type {import('eslint').Linter.Config[]} */
        export default [
            {
                files: ["**/*.{js,mjs,cjs,ts,tsx}"],
                languageOptions: {
                    globals: globals.builtin,
                },
                plugins: {
                    "unicorn": eslintPluginUnicorn,
                    "unused-imports": unusedImports,
                    "react-hooks": reactHooks,
                },
            },
            js.configs.recommended,
            ...ts.configs.recommended,
            {
                rules: {
                    "@typescript-eslint/no-non-null-assertion": "off",
                    "@typescript-eslint/prefer-for-of": "off",
                    "@typescript-eslint/no-unused-vars": "off",
                    "unicorn/prefer-node-protocol": "error",
                    "unicorn/prefer-number-properties": "error",
                    "@typescript-eslint/no-inferrable-types": "warn",
                    "unused-imports/no-unused-imports": "warn",
                    "unused-imports/no-unused-vars": "warn",
                    "react-hooks/rules-of-hooks": "off",
                    "@typescript-eslint/no-extraneous-class": "off",
                    "unicorn/no-static-only-class": "off",
                    "unicorn/no-array-for-each": "error",
                    "unicorn/no-useless-switch-case": "error",
                    "unicorn/prefer-array-flat-map": "error",
                    "no-console": "off",
                    "@typescript-eslint/explicit-member-accessibility": "off",
                    "no-nested-ternary": "off",
                },
            },
            eslintPluginPrettierRecommended,
        ];"#.to_owned()
    }

    /// The editor-settings fragment this provider contributes: exactly
    /// [`prettier_vscode_model`], on every call.
    pub fn get_vscode_configuration() -> (r: Value)
        ensures
            wf(r),
            r@ == prettier_vscode_model(),
    {
        let mut actions = Value::empty_object();
        actions.insert_key("source.fixAll.eslint".to_owned(), Value::Str("explicit".to_owned()));
        let mut customization = Value::empty_object();
        customization.insert_key("rule".to_owned(), Value::Str("*".to_owned()));
        customization.insert_key("severity".to_owned(), Value::Str("warn".to_owned()));
        let customizations = singleton_array(customization);
        let mut exclude = Value::empty_object();
        exclude.insert_key("**/node_modules".to_owned(), Value::Bool(true));
        let mut root = Value::empty_object();
        root.insert_key(
            "typescript.tsdk".to_owned(),
            Value::Str("node_modules/typescript/lib".to_owned()),
        );
        root.insert_key("typescript.enablePromptUseWorkspaceTsdk".to_owned(), Value::Bool(true));
        root.insert_key(
            "editor.defaultFormatter".to_owned(),
            Value::Str("esbenp.prettier-vscode".to_owned()),
        );
        root.insert_key("editor.codeActionsOnSave".to_owned(), actions);
        root.insert_key("eslint.rules.customizations".to_owned(), customizations);
        root.insert_key("eslint.useFlatConfig".to_owned(), Value::Bool(true));
        root.insert_key("files.exclude".to_owned(), exclude);
        root
    }

    /// The prerequisite check: `bun` must be discoverable, the package
    /// manifest must exist, and Biome's packages must not already be
    /// declared — the two providers are mutually exclusive.
    pub fn check_prerequisites(
        bun_found: bool,
        manifest_exists: bool,
        biome_installed: bool,
    ) -> (r: Result<(), ConfigError>)
        ensures
            r is Ok <==> (bun_found && manifest_exists && !biome_installed),
            !bun_found ==> (r matches Err(ConfigError::MissingPrerequisite(m)) && m@
                == "bun is required but not found"@),
            bun_found && !manifest_exists ==> (r matches Err(ConfigError::MissingPrerequisite(m))
                && m@ == "package.json not found!"@),
            bun_found && manifest_exists && biome_installed ==> (r matches Err(
                ConfigError::ConflictError(m),
            ) && m@
                == "Biome is already installed in this project and cannot be used with Prettier + ESLint"@),
    {
        if !bun_found {
            Err(ConfigError::MissingPrerequisite("bun is required but not found".to_owned()))
        } else if !manifest_exists {
            Err(ConfigError::MissingPrerequisite("package.json not found!".to_owned()))
        } else if biome_installed {
            Err(
                ConfigError::ConflictError(
                    "Biome is already installed in this project and cannot be used with Prettier + ESLint".to_owned(),
                ),
            )
        } else {
            Ok(())
        }
    }

    /// One `bun install --dev` invocation per package, in package order.
    pub fn install_packages() -> (r: Vec<PackageCommand>)
        ensures
            r@.len() == 10,
            forall|i: int|
                0 <= i < r@.len() ==> (#[trigger] r@[i]).program@ == "bun"@ && r@[i].args@.len()
                    == 3 && r@[i].args@[0]@ == "install"@ && r@[i].args@[1]@ == "--dev"@
                    && r@[i].args@[2]@ == prettier_package_names()[i],
    {
        let packages = Self::package_strings();
        AmarisInstaller::install("bun", &packages)
    }

    /// One `bun remove` invocation per package, in package order.
    pub fn remove_packages() -> (r: Vec<PackageCommand>)
        ensures
            r@.len() == 10,
            forall|i: int|
                0 <= i < r@.len() ==> (#[trigger] r@[i]).program@ == "bun"@ && r@[i].args@.len()
                    == 2 && r@[i].args@[0]@ == "remove"@ && r@[i].args@[1]@
                    == prettier_package_names()[i],
    {
        let packages = Self::package_strings();
        AmarisInstaller::remove("bun", &packages)
    }

    /// The package list as owned strings, in package order.
    fn package_strings() -> (r: Vec<String>)
        ensures
            r@.len() == 10,
            forall|i: int| 0 <= i < r@.len() ==> (#[trigger] r@[i])@ == prettier_package_names()[i],
    {
        let mut out: Vec<String> = Vec::new();
        out.push("prettier".to_owned());
        out.push("@ianvs/prettier-plugin-sort-imports".to_owned());
        out.push("eslint".to_owned());
        out.push("@eslint/js".to_owned());
        out.push("typescript-eslint".to_owned());
        out.push("eslint-config-prettier".to_owned());
        out.push("eslint-plugin-prettier".to_owned());
        out.push("eslint-plugin-react-hooks".to_owned());
        out.push("eslint-plugin-unicorn".to_owned());
        out.push("eslint-plugin-unused-imports".to_owned());
        out
    }

    /// Merges this provider's settings fragment into the editor settings.
    pub fn update_vscode_settings(current: &Value, fragment: &Value) -> (r: Value)
        requires
            wf(*current),
            wf(*fragment),
        ensures
            r@ == merge_model(current@, fragment@),
            wf(r),
    {
        current.merge(fragment)
    }

    /// Subtracts this provider's settings fragment from the editor
    /// settings, leaving every key it does not recognize in place.
    pub fn remove_vscode_settings(current: &Value, fragment: &Value) -> (r: Value)
        requires
            wf(*current),
            wf(*fragment),
        ensures
            r@ == subtract_model(current@, fragment@),
            wf(r),
    {
        current.subtract(fragment)
    }

    /// Writes this provider's four scripts into the manifest, replacing any
    /// present entries of the same names.
    pub fn update_package_json(doc: &Value) -> (r: Value)
        requires
            doc@ is Obj,
            wf(*doc),
            scripts_wf(doc@),
        ensures
            r@ is Obj,
            wf(r),
            r@->Obj_0.dom() == doc@->Obj_0.dom().insert("scripts"@),
            forall|k: Seq<char>|
                #[trigger] doc@->Obj_0.dom().contains(k) && k != "scripts"@ ==> r@->Obj_0[k]
                    == doc@->Obj_0[k],
            r@->Obj_0["scripts"@] == ValueModel::Obj(
                scripts_table(doc@).insert("format"@, ValueModel::Str("prettier --write ."@)).insert(
                    "format:check"@,
                    ValueModel::Str("prettier --check ."@),
                ).insert("lint"@, ValueModel::Str("eslint ."@)).insert(
                    "lint:fix"@,
                    ValueModel::Str("eslint . --fix"@),
                ),
            ),
    {
        let scripts = Self::script_entries();
        let r = AmarisPackageJsonHandler::write_scripts(doc, &scripts);
        proof {
            reveal_with_fuel(scripts_after_write, 5);
            let s = scripts@;
            assert(s.drop_last() =~= s.subrange(0, 3));
            assert(s.subrange(0, 3).drop_last() =~= s.subrange(0, 2));
            assert(s.subrange(0, 2).drop_last() =~= s.subrange(0, 1));
            assert(s.subrange(0, 1).drop_last() =~= Seq::<ScriptEntry>::empty());
            assert(s.subrange(0, 3).last() == s[2]);
            assert(s.subrange(0, 2).last() == s[1]);
            assert(s.subrange(0, 1).last() == s[0]);
        }
        r
    }

    /// Deletes this provider's four scripts from the manifest by name.
    pub fn remove_package_json(doc: &Value) -> (r: Value)
        requires
            doc@ is Obj,
            wf(*doc),
            doc@->Obj_0.dom().contains("scripts"@),
            doc@->Obj_0["scripts"@] is Obj,
        ensures
            r@ is Obj,
            wf(r),
            r@->Obj_0.dom() == doc@->Obj_0.dom(),
            forall|k: Seq<char>|
                #[trigger] doc@->Obj_0.dom().contains(k) && k != "scripts"@ ==> r@->Obj_0[k]
                    == doc@->Obj_0[k],
            r@->Obj_0["scripts"@] == ValueModel::Obj(
                scripts_table(doc@).remove("format"@).remove("format:check"@).remove(
                    "lint"@,
                ).remove("lint:fix"@),
            ),
    {
        let scripts = Self::script_entries();
        let r = AmarisPackageJsonHandler::remove_scripts(doc, &scripts);
        proof {
            reveal_with_fuel(scripts_after_remove, 5);
            let s = scripts@;
            assert(s.drop_last() =~= s.subrange(0, 3));
            assert(s.subrange(0, 3).drop_last() =~= s.subrange(0, 2));
            assert(s.subrange(0, 2).drop_last() =~= s.subrange(0, 1));
            assert(s.subrange(0, 1).drop_last() =~= Seq::<ScriptEntry>::empty());
            assert(s.subrange(0, 3).last() == s[2]);
            assert(s.subrange(0, 2).last() == s[1]);
            assert(s.subrange(0, 1).last() == s[0]);
        }
        r
    }

    /// The four script entries this provider contributes.
    fn script_entries() -> (r: Vec<ScriptEntry>)
        ensures
            r@.len() == 4,
            r@[0].name@ == "format"@ && r@[0].script@ == "prettier --write ."@,
            r@[1].name@ == "format:check"@ && r@[1].script@ == "prettier --check ."@,
            r@[2].name@ == "lint"@ && r@[2].script@ == "eslint ."@,
            r@[3].name@ == "lint:fix"@ && r@[3].script@ == "eslint . --fix"@,
    {
        let mut out: Vec<ScriptEntry> = Vec::new();
        out.push(ScriptEntry { name: "format".to_owned(), script: "prettier --write .".to_owned() });
        out.push(
            ScriptEntry {
                name: "format:check".to_owned(),
                script: "prettier --check .".to_owned(),
            },
        );
        out.push(ScriptEntry { name: "lint".to_owned(), script: "eslint .".to_owned() });
        out.push(ScriptEntry { name: "lint:fix".to_owned(), script: "eslint . --fix".to_owned() });
        out
    }
}

} // verus!
