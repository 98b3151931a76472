//! The Biome provider: formatter and linter in one tool.

use vstd::prelude::*;
use vstd::string::StringExecFns;

use crate::document::{
    lemma_wf_items_all, merge_model, subtract_model, wf, Value, ValueModel,
};
use crate::error::ConfigError;
use crate::provider::ScriptEntry;
use crate::utils::{
    scripts_after_remove, scripts_after_write, scripts_table, scripts_wf, AmarisInstaller,
    AmarisPackageJsonHandler, PackageCommand,
};

verus! {

/// An array holding one string, for configuration values.
fn one_str_array(s: &str) -> (r: Value)
    ensures
        wf(r),
        r@ == ValueModel::Arr(seq![ValueModel::Str(s@)]),
{
    let mut items: Vec<Value> = Vec::new();
    items.push(Value::Str(s.to_owned()));
    proof {
        lemma_wf_items_all(items@);
        assert(items@.len() == 1);
        assert(items@.last()@ == ValueModel::Str(s@));
        assert(items@.drop_last() =~= Seq::<Value>::empty());
        assert(crate::document::items_seq(items@) == crate::document::items_seq(
            items@.drop_last(),
        ).push(items@.last()@));
        assert(crate::document::items_seq(Seq::<Value>::empty()) =~= Seq::<ValueModel>::empty());
        assert(crate::document::items_seq(items@) =~= seq![ValueModel::Str(s@)]);
    }
    Value::Arr(items)
}

/// The rule table of the Biome configuration template, as a model.
pub open spec fn biome_linter_rules_model() -> ValueModel {
    ValueModel::Obj(
        Map::<Seq<char>, ValueModel>::empty().insert(
            "recommended"@,
            ValueModel::Bool(true),
        ).insert(
            "style"@,
            ValueModel::Obj(
                Map::<Seq<char>, ValueModel>::empty().insert(
                    "noNonNullAssertion"@,
                    ValueModel::Str("off"@),
                ).insert("useForOf"@, ValueModel::Str("error"@)).insert(
                    "useNodejsImportProtocol"@,
                    ValueModel::Str("error"@),
                ).insert("useNumberNamespace"@, ValueModel::Str("error"@)).insert(
                    "noInferrableTypes"@,
                    ValueModel::Str("warn"@),
                ),
            ),
        ).insert(
            "correctness"@,
            ValueModel::Obj(
                Map::<Seq<char>, ValueModel>::empty().insert(
                    "noUnusedImports"@,
                    ValueModel::Str("warn"@),
                ).insert("noUnusedVariables"@, ValueModel::Str("info"@)).insert(
                    "noUnusedFunctionParameters"@,
                    ValueModel::Str("info"@),
                ).insert("useHookAtTopLevel"@, ValueModel::Str("off"@)),
            ),
        ).insert(
            "complexity"@,
            ValueModel::Obj(
                Map::<Seq<char>, ValueModel>::empty().insert(
                    "noStaticOnlyClass"@,
                    ValueModel::Str("off"@),
                ).insert("noThisInStatic"@, ValueModel::Str("off"@)).insert(
                    "noForEach"@,
                    ValueModel::Str("error"@),
                ).insert("noUselessSwitchCase"@, ValueModel::Str("error"@)).insert(
                    "useFlatMap"@,
                    ValueModel::Str("error"@),
                ),
            ),
        ).insert(
            "suspicious"@,
            ValueModel::Obj(
                Map::<Seq<char>, ValueModel>::empty().insert(
                    "noConsole"@,
                    ValueModel::Str("off"@),
                ).insert("noConsoleLog"@, ValueModel::Str("off"@)),
            ),
        ).insert(
            "nursery"@,
            ValueModel::Obj(
                Map::<Seq<char>, ValueModel>::empty().insert(
                    "useConsistentMemberAccessibility"@,
                    ValueModel::Str("off"@),
                ).insert("noNestedTernary"@, ValueModel::Str("off"@)),
            ),
        ).insert(
            "performance"@,
            ValueModel::Obj(
                Map::<Seq<char>, ValueModel>::empty().insert(
                    "useTopLevelRegex"@,
                    ValueModel::Str("off"@),
                ),
            ),
        ),
    )
}

/// The Biome configuration template, as a model: the fixed document every
/// call of [`BiomeProvider::get_configuration`] returns.
pub open spec fn biome_configuration_model() -> ValueModel {
    ValueModel::Obj(
        Map::<Seq<char>, ValueModel>::empty().insert(
            "$schema"@,
            ValueModel::Str("https://biomejs.dev/schemas/1.9.4/schema.json"@),
        ).insert("extends"@, ValueModel::Arr(seq![ValueModel::Str("ultracite"@)])).insert(
            "vcs"@,
            ValueModel::Obj(
                Map::<Seq<char>, ValueModel>::empty().insert(
                    "enabled"@,
                    ValueModel::Bool(true),
                ).insert("clientKind"@, ValueModel::Str("git"@)).insert(
                    "useIgnoreFile"@,
                    ValueModel::Bool(true),
                ).insert("defaultBranch"@, ValueModel::Str("master"@)),
            ),
        ).insert(
            "organizeImports"@,
            ValueModel::Obj(
                Map::<Seq<char>, ValueModel>::empty().insert("enabled"@, ValueModel::Bool(true)),
            ),
        ).insert(
            "files"@,
            ValueModel::Obj(
                Map::<Seq<char>, ValueModel>::empty().insert(
                    "ignore"@,
                    ValueModel::Arr(seq![ValueModel::Str("node_modules"@)]),
                ),
            ),
        ).insert(
            "formatter"@,
            ValueModel::Obj(
                Map::<Seq<char>, ValueModel>::empty().insert(
                    "enabled"@,
                    ValueModel::Bool(true),
                ).insert("formatWithErrors"@, ValueModel::Bool(false)).insert(
                    "indentStyle"@,
                    ValueModel::Str("space"@),
                ).insert("indentWidth"@, ValueModel::Int(4)).insert(
                    "lineWidth"@,
                    ValueModel::Int(120),
                ),
            ),
        ).insert(
            "linter"@,
            ValueModel::Obj(
                Map::<Seq<char>, ValueModel>::empty().insert(
                    "enabled"@,
                    ValueModel::Bool(true),
                ).insert("rules"@, biome_linter_rules_model()),
            ),
        ).insert(
            "javascript"@,
            ValueModel::Obj(
                Map::<Seq<char>, ValueModel>::empty().insert(
                    "formatter"@,
                    ValueModel::Obj(
                        Map::<Seq<char>, ValueModel>::empty().insert(
                            "quoteStyle"@,
                            ValueModel::Str("double"@),
                        ).insert("indentWidth"@, ValueModel::Int(4)).insert(
                            "lineWidth"@,
                            ValueModel::Int(120),
                        ),
                    ),
                ).insert("globals"@, ValueModel::Arr(seq![ValueModel::Str("Bun"@)])),
            ),
        ).insert(
            "json"@,
            ValueModel::Obj(
                Map::<Seq<char>, ValueModel>::empty().insert(
                    "formatter"@,
                    ValueModel::Obj(
                        Map::<Seq<char>, ValueModel>::empty().insert(
                            "indentWidth"@,
                            ValueModel::Int(4),
                        ).insert("indentStyle"@, ValueModel::Str("space"@)),
                    ),
                ),
            ),
        ),
    )
}

/// The editor-settings fragment of the Biome provider, as a model.
pub open spec fn biome_vscode_model() -> ValueModel {
    ValueModel::Obj(
        Map::<Seq<char>, ValueModel>::empty().insert(
            "typescript.tsdk"@,
            ValueModel::Str("node_modules/typescript/lib"@),
        ).insert("typescript.enablePromptUseWorkspaceTsdk"@, ValueModel::Bool(true)).insert(
            "editor.defaultFormatter"@,
            ValueModel::Str("biomejs.biome"@),
        ).insert(
            "editor.codeActionsOnSave"@,
            ValueModel::Obj(
                Map::<Seq<char>, ValueModel>::empty().insert(
                    "quickfix.biome"@,
                    ValueModel::Str("explicit"@),
                ).insert("source.organizeImports.biome"@, ValueModel::Str("explicit"@)),
            ),
        ).insert(
            "files.exclude"@,
            ValueModel::Obj(
                Map::<Seq<char>, ValueModel>::empty().insert(
                    "**/node_modules"@,
                    ValueModel::Bool(true),
                ),
            ),
        ),
    )
}

/// The Biome provider.
pub struct BiomeProvider;

impl BiomeProvider {
    /// The project-relative path of the Biome configuration file.
    pub fn get_configuration_path() -> (r: String)
        ensures
            r@ == "biome.json"@,
    {
        "biome.json".to_owned()
    }

    /// The packages this provider declares.
    pub fn get_packages() -> (r: Vec<&'static str>)
        ensures
            r@.len() == 2,
            r@[0]@ == "@biomejs/biome"@,
            r@[1]@ == "ultracite"@,
    {
        let mut out: Vec<&'static str> = Vec::new();
        out.push("@biomejs/biome");
        out.push("ultracite");
        out
    }

    /// The rule table of the Biome configuration template.
    fn linter_rules() -> (r: Value)
        ensures
            wf(r),
            r@ == biome_linter_rules_model(),
    {
        let mut style = Value::empty_object();
        style.insert_key("noNonNullAssertion".to_owned(), Value::Str("off".to_owned()));
        style.insert_key("useForOf".to_owned(), Value::Str("error".to_owned()));
        style.insert_key("useNodejsImportProtocol".to_owned(), Value::Str("error".to_owned()));
        style.insert_key("useNumberNamespace".to_owned(), Value::Str("error".to_owned()));
        style.insert_key("noInferrableTypes".to_owned(), Value::Str("warn".to_owned()));
        let mut correctness = Value::empty_object();
        correctness.insert_key("noUnusedImports".to_owned(), Value::Str("warn".to_owned()));
        correctness.insert_key("noUnusedVariables".to_owned(), Value::Str("info".to_owned()));
        correctness.insert_key(
            "noUnusedFunctionParameters".to_owned(),
            Value::Str("info".to_owned()),
        );
        correctness.insert_key("useHookAtTopLevel".to_owned(), Value::Str("off".to_owned()));
        let mut complexity = Value::empty_object();
        complexity.insert_key("noStaticOnlyClass".to_owned(), Value::Str("off".to_owned()));
        complexity.insert_key("noThisInStatic".to_owned(), Value::Str("off".to_owned()));
        complexity.insert_key("noForEach".to_owned(), Value::Str("error".to_owned()));
        complexity.insert_key("noUselessSwitchCase".to_owned(), Value::Str("error".to_owned()));
        complexity.insert_key("useFlatMap".to_owned(), Value::Str("error".to_owned()));
        let mut suspicious = Value::empty_object();
        suspicious.insert_key("noConsole".to_owned(), Value::Str("off".to_owned()));
        suspicious.insert_key("noConsoleLog".to_owned(), Value::Str("off".to_owned()));
        let mut nursery = Value::empty_object();
        nursery.insert_key(
            "useConsistentMemberAccessibility".to_owned(),
            Value::Str("off".to_owned()),
        );
        nursery.insert_key("noNestedTernary".to_owned(), Value::Str("off".to_owned()));
        let mut performance = Value::empty_object();
        performance.insert_key("useTopLevelRegex".to_owned(), Value::Str("off".to_owned()));
        let mut rules = Value::empty_object();
        rules.insert_key("recommended".to_owned(), Value::Bool(true));
        rules.insert_key("style".to_owned(), style);
        rules.insert_key("correctness".to_owned(), correctness);
        rules.insert_key("complexity".to_owned(), complexity);
        rules.insert_key("suspicious".to_owned(), suspicious);
        rules.insert_key("nursery".to_owned(), nursery);
        rules.insert_key("performance".to_owned(), performance);
        rules
    }

    /// The Biome configuration template placed at
    /// [`Self::get_configuration_path`]: exactly [`biome_configuration_model`],
    /// on every call.
    pub fn get_configuration() -> (r: Value)
        ensures
            wf(r),
            r@ == biome_configuration_model(),
    {
        let mut vcs = Value::empty_object();
        vcs.insert_key("enabled".to_owned(), Value::Bool(true));
        vcs.insert_key("clientKind".to_owned(), Value::Str("git".to_owned()));
        vcs.insert_key("useIgnoreFile".to_owned(), Value::Bool(true));
        vcs.insert_key("defaultBranch".to_owned(), Value::Str("master".to_owned()));
        let mut organize = Value::empty_object();
        organize.insert_key("enabled".to_owned(), Value::Bool(true));
        let mut files = Value::empty_object();
        files.insert_key("ignore".to_owned(), one_str_array("node_modules"));
        let mut formatter = Value::empty_object();
        formatter.insert_key("enabled".to_owned(), Value::Bool(true));
        formatter.insert_key("formatWithErrors".to_owned(), Value::Bool(false));
        formatter.insert_key("indentStyle".to_owned(), Value::Str("space".to_owned()));
        formatter.insert_key("indentWidth".to_owned(), Value::Int(4));
        formatter.insert_key("lineWidth".to_owned(), Value::Int(120));
        let mut linter = Value::empty_object();
        linter.insert_key("enabled".to_owned(), Value::Bool(true));
        linter.insert_key("rules".to_owned(), Self::linter_rules());
        let mut js_formatter = Value::empty_object();
        js_formatter.insert_key("quoteStyle".to_owned(), Value::Str("double".to_owned()));
        js_formatter.insert_key("indentWidth".to_owned(), Value::Int(4));
        js_formatter.insert_key("lineWidth".to_owned(), Value::Int(120));
        let mut javascript = Value::empty_object();
        javascript.insert_key("formatter".to_owned(), js_formatter);
        javascript.insert_key("globals".to_owned(), one_str_array("Bun"));
        let mut json_formatter = Value::empty_object();
        json_formatter.insert_key("indentWidth".to_owned(), Value::Int(4));
        json_formatter.insert_key("indentStyle".to_owned(), Value::Str("space".to_owned()));
        let mut json = Value::empty_object();
        json.insert_key("formatter".to_owned(), json_formatter);
        let mut root = Value::empty_object();
        root.insert_key(
            "$schema".to_owned(),
            Value::Str("https://biomejs.dev/schemas/1.9.4/schema.json".to_owned()),
        );
        root.insert_key("extends".to_owned(), one_str_array("ultracite"));
        root.insert_key("vcs".to_owned(), vcs);
        root.insert_key("organizeImports".to_owned(), organize);
        root.insert_key("files".to_owned(), files);
        root.insert_key("formatter".to_owned(), formatter);
        root.insert_key("linter".to_owned(), linter);
        root.insert_key("javascript".to_owned(), javascript);
        root.insert_key("json".to_owned(), json);
        root
    }

    /// The editor-settings fragment this provider contributes: exactly
    /// [`biome_vscode_model`], on every call.
    pub fn get_vscode_configuration() -> (r: Value)
        ensures
            wf(r),
            r@ == biome_vscode_model(),
    {
        let mut actions = Value::empty_object();
        actions.insert_key("quickfix.biome".to_owned(), Value::Str("explicit".to_owned()));
        actions.insert_key(
            "source.organizeImports.biome".to_owned(),
            Value::Str("explicit".to_owned()),
        );
        let mut exclude = Value::empty_object();
        exclude.insert_key("**/node_modules".to_owned(), Value::Bool(true));
        let mut root = Value::empty_object();
        root.insert_key(
            "typescript.tsdk".to_owned(),
            Value::Str("node_modules/typescript/lib".to_owned()),
        );
        root.insert_key("typescript.enablePromptUseWorkspaceTsdk".to_owned(), Value::Bool(true));
        root.insert_key(
            "editor.defaultFormatter".to_owned(),
            Value::Str("biomejs.biome".to_owned()),
        );
        root.insert_key("editor.codeActionsOnSave".to_owned(), actions);
        root.insert_key("files.exclude".to_owned(), exclude);
        root
    }

    /// The prerequisite check: `bun` must be discoverable and the package
    /// manifest must exist.
    pub fn check_prerequisites(bun_found: bool, manifest_exists: bool) -> (r: Result<
        (),
        ConfigError,
    >)
        ensures
            r is Ok <==> (bun_found && manifest_exists),
            !bun_found ==> (r matches Err(ConfigError::MissingPrerequisite(m)) && m@
                == "bun is required but not found"@),
            bun_found && !manifest_exists ==> (r matches Err(ConfigError::MissingPrerequisite(m))
                && m@ == "package.json not found!"@),
    {
        if !bun_found {
            Err(ConfigError::MissingPrerequisite("bun is required but not found".to_owned()))
        } else if !manifest_exists {
            Err(ConfigError::MissingPrerequisite("package.json not found!".to_owned()))
        } else {
            Ok(())
        }
    }

    /// One `bun install --dev` invocation per package.
    pub fn install_packages() -> (r: Vec<PackageCommand>)
        ensures
            r@.len() == 2,
            forall|i: int|
                0 <= i < r@.len() ==> (#[trigger] r@[i]).program@ == "bun"@ && r@[i].args@.len()
                    == 3 && r@[i].args@[0]@ == "install"@ && r@[i].args@[1]@ == "--dev"@,
            r@[0].args@[2]@ == "@biomejs/biome"@,
            r@[1].args@[2]@ == "ultracite"@,
    {
        let mut packages: Vec<String> = Vec::new();
        packages.push("@biomejs/biome".to_owned());
        packages.push("ultracite".to_owned());
        AmarisInstaller::install("bun", &packages)
    }

    /// One `bun remove` invocation per package.
    pub fn remove_packages() -> (r: Vec<PackageCommand>)
        ensures
            r@.len() == 2,
            forall|i: int|
                0 <= i < r@.len() ==> (#[trigger] r@[i]).program@ == "bun"@ && r@[i].args@.len()
                    == 2 && r@[i].args@[0]@ == "remove"@,
            r@[0].args@[1]@ == "@biomejs/biome"@,
            r@[1].args@[1]@ == "ultracite"@,
    {
        let mut packages: Vec<String> = Vec::new();
        packages.push("@biomejs/biome".to_owned());
        packages.push("ultracite".to_owned());
        AmarisInstaller::remove("bun", &packages)
    }

    /// Merges this provider's settings fragment into the editor settings.
    pub fn update_vscode_settings(current: &Value, fragment: &Value) -> (r: Value)
        requires
            wf(*current),
            wf(*fragment),
        ensures
            r@ == merge_model(current@, fragment@),
            wf(r),
    {
        current.merge(fragment)
    }

    /// Subtracts this provider's settings fragment from the editor
    /// settings, leaving every key it does not recognize in place.
    pub fn remove_vscode_settings(current: &Value, fragment: &Value) -> (r: Value)
        requires
            wf(*current),
            wf(*fragment),
        ensures
            r@ == subtract_model(current@, fragment@),
            wf(r),
    {
        current.subtract(fragment)
    }

    /// Writes this provider's two scripts into the manifest, replacing any
    /// present entries of the same names.
    pub fn update_package_json(doc: &Value) -> (r: Value)
        requires
            doc@ is Obj,
            wf(*doc),
            scripts_wf(doc@),
        ensures
            r@ is Obj,
            wf(r),
            r@->Obj_0.dom() == doc@->Obj_0.dom().insert("scripts"@),
            forall|k: Seq<char>|
                #[trigger] doc@->Obj_0.dom().contains(k) && k != "scripts"@ ==> r@->Obj_0[k]
                    == doc@->Obj_0[k],
            r@->Obj_0["scripts"@] == ValueModel::Obj(
                scripts_table(doc@).insert(
                    "biome"@,
                    ValueModel::Str("biome check ."@),
                ).insert("biome:fix"@, ValueModel::Str("biome check . --write"@)),
            ),
    {
        let mut scripts: Vec<ScriptEntry> = Vec::new();
        scripts.push(
            ScriptEntry { name: "biome".to_owned(), script: "biome check .".to_owned() },
        );
        scripts.push(
            ScriptEntry {
                name: "biome:fix".to_owned(),
                script: "biome check . --write".to_owned(),
            },
        );
        let r = AmarisPackageJsonHandler::write_scripts(doc, &scripts);
        proof {
            reveal_with_fuel(scripts_after_write, 3);
            let s = scripts@;
            assert(s.drop_last() =~= s.subrange(0, 1));
            assert(s.subrange(0, 1).drop_last() =~= Seq::<ScriptEntry>::empty());
            assert(s.subrange(0, 1).last() == s[0]);
            assert(scripts_after_write(scripts_table(doc@), s) == scripts_table(doc@).insert(
                "biome"@,
                ValueModel::Str("biome check ."@),
            ).insert("biome:fix"@, ValueModel::Str("biome check . --write"@)));
        }
        r
    }

    /// Deletes this provider's two scripts from the manifest by name.
    pub fn remove_package_json(doc: &Value) -> (r: Value)
        requires
            doc@ is Obj,
            wf(*doc),
            doc@->Obj_0.dom().contains("scripts"@),
            doc@->Obj_0["scripts"@] is Obj,
        ensures
            r@ is Obj,
            wf(r),
            r@->Obj_0.dom() == doc@->Obj_0.dom(),
            forall|k: Seq<char>|
                #[trigger] doc@->Obj_0.dom().contains(k) && k != "scripts"@ ==> r@->Obj_0[k]
                    == doc@->Obj_0[k],
            r@->Obj_0["scripts"@] == ValueModel::Obj(
                scripts_table(doc@).remove("biome"@).remove("biome:fix"@),
            ),
    {
        let mut scripts: Vec<ScriptEntry> = Vec::new();
        scripts.push(
            ScriptEntry { name: "biome".to_owned(), script: "biome check .".to_owned() },
        );
        scripts.push(
            ScriptEntry {
                name: "biome:fix".to_owned(),
                script: "biome check . --write".to_owned(),
            },
        );
        let r = AmarisPackageJsonHandler::remove_scripts(doc, &scripts);
        proof {
            reveal_with_fuel(scripts_after_remove, 3);
            let s = scripts@;
            assert(s.drop_last() =~= s.subrange(0, 1));
            assert(s.subrange(0, 1).drop_last() =~= Seq::<ScriptEntry>::empty());
            assert(s.subrange(0, 1).last() == s[0]);
            assert(scripts_after_remove(scripts_table(doc@), s) == scripts_table(doc@).remove(
                "biome"@,
            ).remove("biome:fix"@));
        }
        r
    }
}

} // verus!
