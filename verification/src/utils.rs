//! Handlers around the package manifest, the editor settings document, the
//! per-user configuration paths and the package-manager command plans.
//!
//! Reading, writing and process invocation are left to the caller; every
//! function here is the decision or document transformation in between.

use vstd::prelude::*;
use vstd::string::StringExecFns;

use crate::document::{
    empty_object_model, lemma_merge_absorbs, lemma_merge_self, merge_model, wf, Value, ValueModel,
};
use crate::error::ConfigError;
use crate::provider::{ConfigEntry, DynamicProvider, ScriptEntry};

verus! {

pub const PROVIDER_DIR_NAME: &'static str = "providers";

pub const CONFIG_DIR_NAME: &'static str = "configs";

pub const APP_CONFIG_DIR: &'static str = ".amaya";

/// The scripts table of a manifest model; empty when the manifest is not an
/// object, has no scripts key, or holds a non-object under it.
pub open spec fn scripts_table(d: ValueModel) -> Map<Seq<char>, ValueModel> {
    if d is Obj && d->Obj_0.dom().contains("scripts"@) && d->Obj_0["scripts"@] is Obj {
        d->Obj_0["scripts"@]->Obj_0
    } else {
        Map::empty()
    }
}

/// A manifest whose scripts key, when present, holds an object.
pub open spec fn scripts_wf(d: ValueModel) -> bool {
    d is Obj && d->Obj_0.dom().contains("scripts"@) ==> d->Obj_0["scripts"@] is Obj
}

/// The command stored when `content` is added under `name`: concatenated to
/// the existing entry with a shell `&&` under the append policy, the new
/// content alone otherwise.
pub open spec fn new_script_command(
    st: Map<Seq<char>, ValueModel>,
    name: Seq<char>,
    content: Seq<char>,
    append: bool,
) -> Seq<char> {
    if append && st.dom().contains(name) {
        (if st[name] is Str {
            st[name]->Str_0
        } else {
            Seq::empty()
        }) + " && "@ + content
    } else {
        content
    }
}

/// The script named `name` in a manifest model, when it is a string.
pub open spec fn spec_script(d: ValueModel, name: Seq<char>) -> Option<Seq<char>> {
    if scripts_table(d).dom().contains(name) && scripts_table(d)[name] is Str {
        Some(scripts_table(d)[name]->Str_0)
    } else {
        None
    }
}

/// The scripts table after every entry of a list is written, in order, each
/// replacing any present entry of its name.
pub open spec fn scripts_after_write(
    st: Map<Seq<char>, ValueModel>,
    entries: Seq<ScriptEntry>,
) -> Map<Seq<char>, ValueModel>
    decreases entries,
{
    if entries.len() == 0 {
        st
    } else {
        scripts_after_write(st, entries.drop_last()).insert(
            entries.last().name@,
            ValueModel::Str(entries.last().script@),
        )
    }
}

/// The scripts table after every entry of a list is deleted by name.
pub open spec fn scripts_after_remove(
    st: Map<Seq<char>, ValueModel>,
    entries: Seq<ScriptEntry>,
) -> Map<Seq<char>, ValueModel>
    decreases entries,
{
    if entries.len() == 0 {
        st
    } else {
        scripts_after_remove(st, entries.drop_last()).remove(entries.last().name@)
    }
}

/// The names of a script entry list.
pub open spec fn script_names(s: Seq<ScriptEntry>) -> Set<Seq<char>>
    decreases s,
{
    if s.len() == 0 {
        Set::empty()
    } else {
        script_names(s.drop_last()).insert(s.last().name@)
    }
}

/// A name is in [`script_names`] exactly when some entry carries it.
pub proof fn lemma_script_names(s: Seq<ScriptEntry>)
    ensures
        forall|n: Seq<char>| #[trigger]
            script_names(s).contains(n) <==> exists|i: int| 0 <= i < s.len() && s[i].name@ == n,
    decreases s,
{
    if s.len() > 0 {
        lemma_script_names(s.drop_last());
        assert forall|n: Seq<char>| #[trigger] script_names(s).contains(n) implies exists|i: int|
            0 <= i < s.len() && s[i].name@ == n by {
            if n == s.last().name@ {
                assert(s[s.len() - 1].name@ == n);
            } else {
                assert(script_names(s.drop_last()).contains(n));
                let i = choose|i: int| 0 <= i < s.drop_last().len() && s.drop_last()[i].name@ == n;
                assert(s[i].name@ == n);
            }
        }
        assert forall|n: Seq<char>| (exists|i: int| 0 <= i < s.len() && s[i].name@ == n) implies
            #[trigger] script_names(s).contains(n) by {
            let i = choose|i: int| 0 <= i < s.len() && s[i].name@ == n;
            if i < s.len() - 1 {
                assert(s.drop_last()[i].name@ == n);
                assert(exists|x: int|
                    0 <= x < s.drop_last().len() && s.drop_last()[x].name@ == n);
                assert(script_names(s.drop_last()).contains(n));
            }
        }
    }
}

/// Removing a list of script entries deletes exactly their names and keeps
/// every other binding.
pub proof fn lemma_scripts_remove_names(st: Map<Seq<char>, ValueModel>, s: Seq<ScriptEntry>)
    ensures
        forall|k: Seq<char>| #[trigger]
            scripts_after_remove(st, s).dom().contains(k) <==> (st.dom().contains(k)
                && !script_names(s).contains(k)),
        forall|k: Seq<char>| #[trigger]
            scripts_after_remove(st, s).dom().contains(k) ==> scripts_after_remove(st, s)[k]
                == st[k],
    decreases s,
{
    if s.len() > 0 {
        lemma_scripts_remove_names(st, s.drop_last());
        let prev = scripts_after_remove(st, s.drop_last());
        let cur = scripts_after_remove(st, s);
        assert(cur == prev.remove(s.last().name@));
        assert forall|k: Seq<char>| #[trigger] cur.dom().contains(k) implies st.dom().contains(k)
            && !script_names(s).contains(k) && cur[k] == st[k] by {
            assert(prev.dom().contains(k));
            assert(k != s.last().name@);
            assert(!script_names(s.drop_last()).contains(k));
            assert(prev[k] == st[k]);
        }
        assert forall|k: Seq<char>|
            st.dom().contains(k) && !script_names(s).contains(k) implies #[trigger] cur.dom(
        ).contains(k) by {
            assert(!script_names(s.drop_last()).contains(k));
            assert(prev.dom().contains(k));
            assert(k != s.last().name@);
        }
    }
}

/// Writing a list of script entries adds exactly their names and keeps
/// every binding whose name is not written.
pub proof fn lemma_scripts_write_names(st: Map<Seq<char>, ValueModel>, s: Seq<ScriptEntry>)
    ensures
        forall|k: Seq<char>| #[trigger]
            scripts_after_write(st, s).dom().contains(k) <==> (st.dom().contains(k)
                || script_names(s).contains(k)),
        forall|k: Seq<char>|
            !script_names(s).contains(k) && st.dom().contains(k) ==> #[trigger] scripts_after_write(
                st,
                s,
            )[k] == st[k],
    decreases s,
{
    if s.len() > 0 {
        lemma_scripts_write_names(st, s.drop_last());
        let prev = scripts_after_write(st, s.drop_last());
        let cur = scripts_after_write(st, s);
        assert(cur == prev.insert(s.last().name@, ValueModel::Str(s.last().script@)));
        assert forall|k: Seq<char>| #[trigger] cur.dom().contains(k) implies (st.dom().contains(k)
            || script_names(s).contains(k)) by {
            if k == s.last().name@ {
                assert(script_names(s).contains(k));
            } else {
                assert(prev.dom().contains(k));
            }
        }
        assert forall|k: Seq<char>|
            st.dom().contains(k) || script_names(s).contains(k) implies #[trigger] cur.dom(
        ).contains(k) by {
            if st.dom().contains(k) || script_names(s.drop_last()).contains(k) {
                assert(prev.dom().contains(k));
            } else {
                assert(k == s.last().name@);
            }
        }
        assert forall|k: Seq<char>|
            !script_names(s).contains(k) && st.dom().contains(k) implies #[trigger] cur[k]
            == st[k] by {
            assert(k != s.last().name@);
            assert(!script_names(s.drop_last()).contains(k));
            assert(prev[k] == st[k]);
        }
    }
}

/// Law: script installation and removal are inverse. Writing a list of
/// script entries whose names the table does not yet hold, then removing
/// the same list, returns exactly the original table.
pub proof fn lemma_scripts_roundtrip(st: Map<Seq<char>, ValueModel>, s: Seq<ScriptEntry>)
    requires
        forall|i: int| 0 <= i < s.len() ==> !st.dom().contains(#[trigger] s[i].name@),
    ensures
        scripts_after_remove(scripts_after_write(st, s), s) == st,
{
    lemma_script_names(s);
    lemma_scripts_write_names(st, s);
    lemma_scripts_remove_names(scripts_after_write(st, s), s);
    let w = scripts_after_write(st, s);
    let r = scripts_after_remove(w, s);
    assert forall|k: Seq<char>| #[trigger] st.dom().contains(k) implies r.dom().contains(k)
        && r[k] == st[k] by {
        assert(!script_names(s).contains(k));
        assert(w.dom().contains(k));
        assert(w[k] == st[k]);
        assert(r.dom().contains(k));
        assert(r[k] == w[k]);
    }
    assert forall|k: Seq<char>| #[trigger] r.dom().contains(k) implies st.dom().contains(k) by {
        assert(w.dom().contains(k) && !script_names(s).contains(k));
    }
    assert(r =~= st);
}

/// The document a read yields: an absent file defaults to the empty object
/// and never errors; content that did not parse is a validation failure.
pub fn load_document(present: bool, parsed: Option<Value>, parse_error: String) -> (r: Result<
    Value,
    ConfigError,
>)
    requires
        parsed matches Some(v) ==> wf(v),
    ensures
        r is Ok <==> (!present || parsed is Some),
        !present ==> (r matches Ok(d) && d@ == empty_object_model() && wf(d)),
        present && parsed is Some ==> (r matches Ok(d) && d == parsed->Some_0),
        present && parsed is None ==> (r matches Err(ConfigError::ValidationError(m)) && m@
            == parse_error@),
{
    if !present {
        Ok(Value::empty_object())
    } else {
        match parsed {
            Some(v) => Ok(v),
            None => Err(ConfigError::ValidationError(parse_error)),
        }
    }
}

/// Handler for the per-user configuration paths.
pub struct AmarisPathHandler;

impl AmarisPathHandler {
    /// The configuration home inside the user's home directory.
    pub fn get_root_config_path(home: Option<String>) -> (r: Result<String, ConfigError>)
        ensures
            r is Ok <==> home is Some,
            home matches Some(h) ==> (r matches Ok(p) && p@ == h@ + "/.amaya"@),
            home is None ==> (r matches Err(ConfigError::PathError(m)) && m@
                == "Could not find home directory"@),
    {
        match home {
            Some(h) => {
                let mut p = h;
                p.append("/.amaya");
                Ok(p)
            },
            None => Err(ConfigError::PathError("Could not find home directory".to_owned())),
        }
    }

    /// The directory the provider descriptor files live in.
    pub fn get_default_provider_path(home: Option<String>) -> (r: Result<String, ConfigError>)
        ensures
            r is Ok <==> home is Some,
            home matches Some(h) ==> (r matches Ok(p) && p@ == h@ + "/.amaya/providers"@),
            home is None ==> (r matches Err(ConfigError::PathError(m)) && m@
                == "Could not find home directory"@),
    {
        match home {
            Some(h) => {
                let mut p = h;
                p.append("/.amaya/providers");
                Ok(p)
            },
            None => Err(ConfigError::PathError("Could not find home directory".to_owned())),
        }
    }

    /// The directory the configuration templates live in.
    pub fn get_default_config_path(home: Option<String>) -> (r: Result<String, ConfigError>)
        ensures
            r is Ok <==> home is Some,
            home matches Some(h) ==> (r matches Ok(p) && p@ == h@ + "/.amaya/configs"@),
            home is None ==> (r matches Err(ConfigError::PathError(m)) && m@
                == "Could not find home directory"@),
    {
        match home {
            Some(h) => {
                let mut p = h;
                p.append("/.amaya/configs");
                Ok(p)
            },
            None => Err(ConfigError::PathError("Could not find home directory".to_owned())),
        }
    }
}

/// One invocation of the package-manager executable.
pub struct PackageCommand {
    pub program: String,
    pub args: Vec<String>,
}

/// Handler planning the package-manager invocations.
pub struct AmarisInstaller;

impl AmarisInstaller {
    /// One `install --dev` invocation per package, in order.
    pub fn install(manager: &str, packages: &Vec<String>) -> (r: Vec<PackageCommand>)
        ensures
            r@.len() == packages@.len(),
            forall|i: int|
                0 <= i < r@.len() ==> (#[trigger] r@[i]).program@ == manager@ && r@[i].args@.len()
                    == 3 && r@[i].args@[0]@ == "install"@ && r@[i].args@[1]@ == "--dev"@
                    && r@[i].args@[2]@ == packages@[i]@,
    {
        let mut out: Vec<PackageCommand> = Vec::new();
        let mut i: usize = 0;
        while i < packages.len()
            invariant
                i <= packages@.len(),
                out@.len() == i,
                forall|j: int|
                    0 <= j < i ==> (#[trigger] out@[j]).program@ == manager@ && out@[j].args@.len()
                        == 3 && out@[j].args@[0]@ == "install"@ && out@[j].args@[1]@ == "--dev"@
                        && out@[j].args@[2]@ == packages@[j]@,
            decreases packages@.len() - i,
        {
            let mut args: Vec<String> = Vec::new();
            args.push("install".to_owned());
            args.push("--dev".to_owned());
            args.push(packages[i].clone());
            proof {
                assert(args@.len() == 3);
                assert(args@[0]@ == "install"@);
                assert(args@[1]@ == "--dev"@);
                assert(args@[2]@ == packages@[i as int]@);
            }
            let cmd = PackageCommand { program: manager.to_owned(), args };
            let ghost prev = out@;
            out.push(cmd);
            proof {
                assert(out@ == prev.push(cmd));
                assert(out@[i as int] == cmd);
                assert forall|j: int| 0 <= j < i + 1 implies (#[trigger] out@[j]).program@
                    == manager@ && out@[j].args@.len() == 3 && out@[j].args@[0]@ == "install"@
                    && out@[j].args@[1]@ == "--dev"@ && out@[j].args@[2]@ == packages@[j]@ by {
                    if j < i {
                        assert(out@[j] == prev[j]);
                        assert(prev[j].program@ == manager@);
                        assert(prev[j].args@.len() == 3);
                        assert(prev[j].args@[0]@ == "install"@);
                        assert(prev[j].args@[1]@ == "--dev"@);
                        assert(prev[j].args@[2]@ == packages@[j]@);
                    } else {
                        assert(out@[j] == cmd);
                    }
                }
            }
            i += 1;
        }
        out
    }

    /// One `remove` invocation per package, in order.
    pub fn remove(manager: &str, packages: &Vec<String>) -> (r: Vec<PackageCommand>)
        ensures
            r@.len() == packages@.len(),
            forall|i: int|
                0 <= i < r@.len() ==> (#[trigger] r@[i]).program@ == manager@ && r@[i].args@.len()
                    == 2 && r@[i].args@[0]@ == "remove"@ && r@[i].args@[1]@ == packages@[i]@,
    {
        let mut out: Vec<PackageCommand> = Vec::new();
        let mut i: usize = 0;
        while i < packages.len()
            invariant
                i <= packages@.len(),
                out@.len() == i,
                forall|j: int|
                    0 <= j < i ==> (#[trigger] out@[j]).program@ == manager@ && out@[j].args@.len()
                        == 2 && out@[j].args@[0]@ == "remove"@ && out@[j].args@[1]@
                        == packages@[j]@,
            decreases packages@.len() - i,
        {
            let mut args: Vec<String> = Vec::new();
            args.push("remove".to_owned());
            args.push(packages[i].clone());
            proof {
                assert(args@.len() == 2);
                assert(args@[0]@ == "remove"@);
                assert(args@[1]@ == packages@[i as int]@);
            }
            let cmd = PackageCommand { program: manager.to_owned(), args };
            let ghost prev = out@;
            out.push(cmd);
            proof {
                assert(out@ == prev.push(cmd));
                assert(out@[i as int] == cmd);
                assert forall|j: int| 0 <= j < i + 1 implies (#[trigger] out@[j]).program@
                    == manager@ && out@[j].args@.len() == 2 && out@[j].args@[0]@ == "remove"@
                    && out@[j].args@[1]@ == packages@[j]@ by {
                    if j < i {
                        assert(out@[j] == prev[j]);
                        assert(prev[j].program@ == manager@);
                        assert(prev[j].args@.len() == 2);
                        assert(prev[j].args@[0]@ == "remove"@);
                        assert(prev[j].args@[1]@ == packages@[j]@);
                    } else {
                        assert(out@[j] == cmd);
                    }
                }
            }
            i += 1;
        }
        out
    }

    /// What a finished subprocess means: a non-zero exit status fails with
    /// the captured stderr surfaced verbatim.
    pub fn command_result(success: bool, stderr: String) -> (r: Result<(), ConfigError>)
        ensures
            r is Ok <==> success,
            !success ==> (r matches Err(ConfigError::DependencyError(m)) && m@ == stderr@),
    {
        if success {
            Ok(())
        } else {
            Err(ConfigError::DependencyError(stderr))
        }
    }
}

/// Handler for the package manifest document.
pub struct AmarisPackageJsonHandler;

impl AmarisPackageJsonHandler {
    /// The project-relative path of the package manifest.
    pub fn get_default_path() -> (r: String)
        ensures
            r@ == "package.json"@,
    {
        "package.json".to_owned()
    }

    /// The manifest a read yields; see [`load_document`].
    pub fn read(present: bool, parsed: Option<Value>, parse_error: String) -> (r: Result<
        Value,
        ConfigError,
    >)
        requires
            parsed matches Some(v) ==> wf(v),
        ensures
            r is Ok <==> (!present || parsed is Some),
            !present ==> (r matches Ok(d) && d@ == empty_object_model() && wf(d)),
            present && parsed is Some ==> (r matches Ok(d) && d == parsed->Some_0),
            present && parsed is None ==> (r matches Err(ConfigError::ValidationError(m)) && m@
                == parse_error@),
    {
        load_document(present, parsed, parse_error)
    }

    /// Folds a mutated working copy back over the freshly read baseline, so
    /// that a mutation can only add or change keys relative to the state it
    /// read, never erase siblings it did not touch.
    pub fn update(current: &Value, mutated: &Value) -> (r: Value)
        requires
            wf(*current),
            wf(*mutated),
        ensures
            r@ == merge_model(current@, mutated@),
            wf(r),
    {
        current.merge(mutated)
    }

    /// Places `content` into the manifest's script table under `name`:
    /// appended to an existing entry with `&&` under the append policy,
    /// replacing it otherwise; every other key of the manifest is kept.
    ///
    /// The edit is reconciled through [`Self::update`], as a mutation of a
    /// working copy merged back over the baseline.
    pub fn add_script(doc: &Value, name: &str, content: &str, append: bool) -> (r: Value)
        requires
            doc@ is Obj,
            wf(*doc),
            scripts_wf(doc@),
        ensures
            r@ is Obj,
            wf(r),
            r@->Obj_0.dom() == doc@->Obj_0.dom().insert("scripts"@),
            forall|k: Seq<char>|
                #[trigger] doc@->Obj_0.dom().contains(k) && k != "scripts"@ ==> r@->Obj_0[k]
                    == doc@->Obj_0[k],
            r@->Obj_0["scripts"@] == ValueModel::Obj(
                scripts_table(doc@).insert(
                    name@,
                    ValueModel::Str(new_script_command(scripts_table(doc@), name@, content@, append)),
                ),
            ),
    {
        let key = "scripts".to_owned();
        let name_s = name.to_owned();
        let ghost st = scripts_table(doc@);
        let mut scripts: Value = match doc.get(&key) {
            Some(v) => v.deep_clone(),
            None => Value::empty_object(),
        };
        proof {
            assert(scripts@ is Obj);
            assert(scripts@->Obj_0 == st);
        }
        let new_cmd: String = if append {
            match scripts.get(&name_s) {
                Some(existing) => {
                    let mut c: String = match existing {
                        Value::Str(s) => s.clone(),
                        _ => String::new(),
                    };
                    c.append(" && ");
                    c.append(content);
                    c
                },
                None => content.to_owned(),
            }
        } else {
            content.to_owned()
        };
        proof {
            assert(new_cmd@ == new_script_command(st, name@, content@, append));
        }
        let ghost newst = st.insert(name@, ValueModel::Str(new_cmd@));
        scripts.insert_key(name_s, Value::Str(new_cmd));
        let mut mutated = doc.deep_clone();
        mutated.insert_key(key, scripts);
        let r = doc.merge(&mutated);
        proof {
            let dm = doc@->Obj_0;
            let mm = mutated@->Obj_0;
            let rm = r@->Obj_0;
            assert(mm == dm.insert("scripts"@, ValueModel::Obj(newst)));
            assert(rm.dom() =~= dm.dom().insert("scripts"@));
            assert forall|k: Seq<char>|
                #[trigger] dm.dom().contains(k) && k != "scripts"@ implies rm[k] == dm[k] by {
                assert(mm[k] == dm[k]);
                if dm[k] is Obj {
                    lemma_merge_self(dm[k]);
                }
            }
            assert(rm["scripts"@] == ValueModel::Obj(newst)) by {
                if dm.dom().contains("scripts"@) {
                    assert(dm["scripts"@] is Obj);
                    assert(dm["scripts"@]->Obj_0 == st);
                    lemma_merge_absorbs(dm["scripts"@], ValueModel::Obj(newst));
                } else {
                    assert(rm["scripts"@] == mm["scripts"@]);
                }
            }
        }
        r
    }

    /// Deletes the script named `name` from the manifest's script table
    /// outright; every other key of the manifest is kept. A manifest without
    /// a script table is returned unchanged.
    pub fn remove_script(doc: &Value, name: &str) -> (r: Value)
        requires
            doc@ is Obj,
            wf(*doc),
            scripts_wf(doc@),
        ensures
            r@ is Obj,
            wf(r),
            r@->Obj_0.dom() == doc@->Obj_0.dom(),
            forall|k: Seq<char>|
                #[trigger] doc@->Obj_0.dom().contains(k) && k != "scripts"@ ==> r@->Obj_0[k]
                    == doc@->Obj_0[k],
            doc@->Obj_0.dom().contains("scripts"@) ==> r@->Obj_0["scripts"@] == ValueModel::Obj(
                scripts_table(doc@).remove(name@),
            ),
    {
        let key = "scripts".to_owned();
        match doc.get(&key) {
            Some(v) => {
                let mut scripts = v.deep_clone();
                let name_s = name.to_owned();
                scripts.remove_key(&name_s);
                let mut out = doc.deep_clone();
                out.insert_key(key, scripts);
                proof {
                    assert(out@->Obj_0.dom() =~= doc@->Obj_0.dom());
                }
                out
            },
            None => {
                let out = doc.deep_clone();
                out
            },
        }
    }

    /// The script named `name`, when the manifest holds it as a string.
    pub fn get_script(doc: &Value, name: &str) -> (r: Option<String>)
        requires
            wf(*doc),
        ensures
            (r is Some) == (spec_script(doc@, name@) is Some),
            r matches Some(s) ==> Some(s@) == spec_script(doc@, name@),
    {
        let key = "scripts".to_owned();
        let name_s = name.to_owned();
        match doc.get(&key) {
            Some(v) => match v.get(&name_s) {
                Some(sv) => match sv {
                    Value::Str(s) => Some(s.clone()),
                    _ => None,
                },
                None => None,
            },
            None => None,
        }
    }

    /// Writes every script entry of a list into the manifest's script
    /// table, in order, each replacing any present entry of its name; the
    /// table is created when absent and every other key is kept.
    pub fn write_scripts(doc: &Value, scripts: &Vec<ScriptEntry>) -> (r: Value)
        requires
            doc@ is Obj,
            wf(*doc),
            scripts_wf(doc@),
        ensures
            r@ is Obj,
            wf(r),
            r@->Obj_0.dom() == doc@->Obj_0.dom().insert("scripts"@),
            forall|k: Seq<char>|
                #[trigger] doc@->Obj_0.dom().contains(k) && k != "scripts"@ ==> r@->Obj_0[k]
                    == doc@->Obj_0[k],
            r@->Obj_0["scripts"@] == ValueModel::Obj(
                scripts_after_write(scripts_table(doc@), scripts@),
            ),
    {
        let key = "scripts".to_owned();
        let ghost st = scripts_table(doc@);
        let mut table: Value = match doc.get(&key) {
            Some(v) => v.deep_clone(),
            None => Value::empty_object(),
        };
        proof {
            assert(table@ is Obj);
            assert(table@->Obj_0 == st);
            assert(scripts@.subrange(0, 0) =~= Seq::<ScriptEntry>::empty());
        }
        let mut i: usize = 0;
        while i < scripts.len()
            invariant
                i <= scripts@.len(),
                wf(table),
                table@ is Obj,
                table@->Obj_0 == scripts_after_write(st, scripts@.subrange(0, i as int)),
            decreases scripts@.len() - i,
        {
            table.insert_key(scripts[i].name.clone(), Value::Str(scripts[i].script.clone()));
            proof {
                assert(scripts@.subrange(0, i + 1).drop_last() =~= scripts@.subrange(0, i as int));
                assert(scripts@.subrange(0, i + 1).last() == scripts@[i as int]);
            }
            i += 1;
        }
        proof {
            assert(scripts@.subrange(0, scripts@.len() as int) =~= scripts@);
        }
        let mut out = doc.deep_clone();
        out.insert_key(key, table);
        out
    }

    /// Deletes every script entry of a list from the manifest's script
    /// table by name; every other key is kept. The manifest must hold a
    /// script table.
    pub fn remove_scripts(doc: &Value, scripts: &Vec<ScriptEntry>) -> (r: Value)
        requires
            doc@ is Obj,
            wf(*doc),
            doc@->Obj_0.dom().contains("scripts"@),
            doc@->Obj_0["scripts"@] is Obj,
        ensures
            r@ is Obj,
            wf(r),
            r@->Obj_0.dom() == doc@->Obj_0.dom(),
            forall|k: Seq<char>|
                #[trigger] doc@->Obj_0.dom().contains(k) && k != "scripts"@ ==> r@->Obj_0[k]
                    == doc@->Obj_0[k],
            r@->Obj_0["scripts"@] == ValueModel::Obj(
                scripts_after_remove(scripts_table(doc@), scripts@),
            ),
    {
        let key = "scripts".to_owned();
        let ghost st = scripts_table(doc@);
        let mut table: Value = match doc.get(&key) {
            Some(v) => v.deep_clone(),
            None => Value::empty_object(),
        };
        proof {
            assert(table@ is Obj);
            assert(table@->Obj_0 == st);
            assert(scripts@.subrange(0, 0) =~= Seq::<ScriptEntry>::empty());
        }
        let mut i: usize = 0;
        while i < scripts.len()
            invariant
                i <= scripts@.len(),
                wf(table),
                table@ is Obj,
                table@->Obj_0 == scripts_after_remove(st, scripts@.subrange(0, i as int)),
            decreases scripts@.len() - i,
        {
            table.remove_key(&scripts[i].name);
            proof {
                assert(scripts@.subrange(0, i + 1).drop_last() =~= scripts@.subrange(0, i as int));
                assert(scripts@.subrange(0, i + 1).last() == scripts@[i as int]);
            }
            i += 1;
        }
        proof {
            assert(scripts@.subrange(0, scripts@.len() as int) =~= scripts@);
        }
        let mut out = doc.deep_clone();
        out.insert_key(key, table);
        proof {
            assert(out@->Obj_0.dom() =~= doc@->Obj_0.dom());
        }
        out
    }
}

/// Handler for the editor settings document.
pub struct AmarisVisualStudioCodeHandler;

impl AmarisVisualStudioCodeHandler {
    /// The project-relative path of the editor settings document.
    pub fn get_default_path() -> (r: String)
        ensures
            r@ == ".vscode/settings.json"@,
    {
        ".vscode/settings.json".to_owned()
    }

    /// The settings a read yields; see [`load_document`].
    pub fn read(present: bool, parsed: Option<Value>, parse_error: String) -> (r: Result<
        Value,
        ConfigError,
    >)
        requires
            parsed matches Some(v) ==> wf(v),
        ensures
            r is Ok <==> (!present || parsed is Some),
            !present ==> (r matches Ok(d) && d@ == empty_object_model() && wf(d)),
            present && parsed is Some ==> (r matches Ok(d) && d == parsed->Some_0),
            present && parsed is None ==> (r matches Err(ConfigError::ValidationError(m)) && m@
                == parse_error@),
    {
        load_document(present, parsed, parse_error)
    }

    /// Folds a mutated working copy back over the freshly read settings;
    /// see [`AmarisPackageJsonHandler::update`].
    pub fn update(current: &Value, mutated: &Value) -> (r: Value)
        requires
            wf(*current),
            wf(*mutated),
        ensures
            r@ == merge_model(current@, mutated@),
            wf(r),
    {
        current.merge(mutated)
    }
}

/// What removing one placed configuration file means.
pub enum ConfigRemoval {
    /// The file is the shared editor settings document: it is not deleted,
    /// the provider's fragment is subtracted from it instead.
    SubtractSettings,
    /// The file belongs to this provider alone and is deleted.
    DeleteFile(String),
}

/// Handler for placing and removing provider configuration files.
pub struct AmarisConfigurationHandler;

impl AmarisConfigurationHandler {
    /// The copy plan for a provider's configuration files: for each entry,
    /// the template to read under the provider's configuration directory
    /// and the destination to place it at.
    pub fn write_configs(name: &str, configs: &Vec<ConfigEntry>, config_dir: &str) -> (r: Vec<
        (String, String),
    >)
        ensures
            r@.len() == configs@.len(),
            forall|i: int|
                0 <= i < r@.len() ==> (#[trigger] r@[i]).0@ == config_dir@ + "/"@ + name@ + "/"@
                    + configs@[i].source_from@ && r@[i].1@ == configs@[i].file_location@,
    {
        let mut out: Vec<(String, String)> = Vec::new();
        let mut i: usize = 0;
        while i < configs.len()
            invariant
                i <= configs@.len(),
                out@.len() == i,
                forall|j: int|
                    0 <= j < i ==> (#[trigger] out@[j]).0@ == config_dir@ + "/"@ + name@ + "/"@
                        + configs@[j].source_from@ && out@[j].1@ == configs@[j].file_location@,
            decreases configs@.len() - i,
        {
            let mut source = config_dir.to_owned();
            source.append("/");
            source.append(name);
            source.append("/");
            source.append(configs[i].source_from.as_str());
            let dest = configs[i].file_location.clone();
            let ghost prev = out@;
            out.push((source, dest));
            proof {
                assert(out@[i as int].0@ == config_dir@ + "/"@ + name@ + "/"@
                    + configs@[i as int].source_from@);
                assert(forall|j: int| 0 <= j < i ==> #[trigger] out@[j] == prev[j]);
            }
            i += 1;
        }
        out
    }

    /// The removal plan for a provider's configuration files: a file named
    /// like the editor settings document is never deleted — its fragment is
    /// subtracted instead, since providers share that document — and any
    /// other file is deleted at its placement path.
    pub fn remove_configs(configs: &Vec<ConfigEntry>) -> (r: Vec<ConfigRemoval>)
        ensures
            r@.len() == configs@.len(),
            forall|i: int|
                0 <= i < r@.len() ==> if configs@[i].file_name@ == "settings.json"@ {
                    (#[trigger] r@[i]) is SubtractSettings
                } else {
                    r@[i] matches ConfigRemoval::DeleteFile(p) && p@ == configs@[i].file_location@
                },
    {
        let mut out: Vec<ConfigRemoval> = Vec::new();
        let mut i: usize = 0;
        while i < configs.len()
            invariant
                i <= configs@.len(),
                out@.len() == i,
                forall|j: int|
                    0 <= j < i ==> if configs@[j].file_name@ == "settings.json"@ {
                        (#[trigger] out@[j]) is SubtractSettings
                    } else {
                        out@[j] matches ConfigRemoval::DeleteFile(p) && p@
                            == configs@[j].file_location@
                    },
            decreases configs@.len() - i,
        {
            let settings_name = "settings.json".to_owned();
            let ghost prev = out@;
            if configs[i].file_name.eq(&settings_name) {
                out.push(ConfigRemoval::SubtractSettings);
            } else {
                out.push(ConfigRemoval::DeleteFile(configs[i].file_location.clone()));
            }
            proof {
                assert(forall|j: int| 0 <= j < i ==> #[trigger] out@[j] == prev[j]);
            }
            i += 1;
        }
        out
    }
}

/// Handler building the starter configuration written on first use.
pub struct AmarisInitialConfigHandler;

impl AmarisInitialConfigHandler {
    /// The starter provider descriptor: the Biome provider as a dynamic
    /// descriptor, behaving exactly like the built-in one.
    pub fn initial_provider() -> (r: DynamicProvider)
        ensures
            r.name@ == "biome"@,
            r.description@ == "Biome"@,
            r.package_manager@ == "bun"@,
            r.packages@.len() == 1,
            r.packages@[0]@ == "@biomejs/biome"@,
            r.configuration@.len() == 2,
            r.configuration@[0].file_location@ == "biome.json"@,
            r.configuration@[0].file_name@ == "biome.json"@,
            r.configuration@[0].source_from@ == "biome.json"@,
            r.configuration@[1].file_location@ == ".vscode/settings.json"@,
            r.configuration@[1].file_name@ == "settings.json"@,
            r.configuration@[1].source_from@ == "settings.json"@,
            r.scripts@.len() == 2,
            r.scripts@[0].name@ == "format"@,
            r.scripts@[0].script@ == "biome format ."@,
            r.scripts@[1].name@ == "lint"@,
            r.scripts@[1].script@ == "biome lint ."@,
    {
        let mut packages: Vec<String> = Vec::new();
        packages.push("@biomejs/biome".to_owned());
        let mut configuration: Vec<ConfigEntry> = Vec::new();
        configuration.push(
            ConfigEntry {
                file_location: "biome.json".to_owned(),
                file_name: "biome.json".to_owned(),
                source_from: "biome.json".to_owned(),
            },
        );
        configuration.push(
            ConfigEntry {
                file_location: ".vscode/settings.json".to_owned(),
                file_name: "settings.json".to_owned(),
                source_from: "settings.json".to_owned(),
            },
        );
        let mut scripts: Vec<ScriptEntry> = Vec::new();
        scripts.push(
            ScriptEntry { name: "format".to_owned(), script: "biome format .".to_owned() },
        );
        scripts.push(ScriptEntry { name: "lint".to_owned(), script: "biome lint .".to_owned() });
        DynamicProvider {
            name: "biome".to_owned(),
            description: "Biome".to_owned(),
            package_manager: "bun".to_owned(),
            packages,
            configuration,
            scripts,
        }
    }

    /// Where the three starter files go: the Biome configuration template,
    /// the provider descriptor, and the editor-settings template.
    pub fn initial_file_paths(config_dir: &str, provider_dir: &str) -> (r: (
        String,
        String,
        String,
    ))
        ensures
            r.0@ == config_dir@ + "/biome/biome.json"@,
            r.1@ == provider_dir@ + "/biome.json"@,
            r.2@ == config_dir@ + "/biome/settings.json"@,
    {
        let mut biome_config_path = config_dir.to_owned();
        biome_config_path.append("/biome/biome.json");
        let mut provider_path = provider_dir.to_owned();
        provider_path.append("/biome.json");
        let mut settings_path = config_dir.to_owned();
        settings_path.append("/biome/settings.json");
        (biome_config_path, provider_path, settings_path)
    }
}

} // verus!
