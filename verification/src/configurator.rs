//! The configurator: the document-level operations the providers drive —
//! settings and manifest reads, script-table edits, dependency queries and
//! the placement guard that refuses to overwrite an existing file.

use vstd::prelude::*;

use crate::document::{empty_object_model, items_seq, merge_model, wf, Value, ValueModel};
use crate::error::ConfigError;
use crate::utils::{
    load_document, new_script_command, scripts_table, scripts_wf, spec_script,
    AmarisPackageJsonHandler,
};

verus! {

/// The keys of one dependency table of a manifest model; empty when the
/// manifest or the table is not an object or the table is absent.
pub open spec fn table_keys(d: ValueModel, t: Seq<char>) -> Set<Seq<char>> {
    if d is Obj && d->Obj_0.dom().contains(t) && d->Obj_0[t] is Obj {
        d->Obj_0[t]->Obj_0.dom()
    } else {
        Set::empty()
    }
}

/// Every declared dependency of a manifest: the keys of its dependencies,
/// devDependencies and peerDependencies tables.
pub open spec fn dependency_names(d: ValueModel) -> Set<Seq<char>> {
    table_keys(d, "dependencies"@) + table_keys(d, "devDependencies"@) + table_keys(
        d,
        "peerDependencies"@,
    )
}

/// Central handler for project configuration.
pub struct AmarisConfigurator;

impl AmarisConfigurator {
    /// The project-relative path of the editor settings document.
    pub fn get_vscode_settings_path() -> (r: String)
        ensures
            r@ == ".vscode/settings.json"@,
    {
        ".vscode/settings.json".to_owned()
    }

    /// The project-relative path of the package manifest.
    pub fn get_package_json_path() -> (r: String)
        ensures
            r@ == "package.json"@,
    {
        "package.json".to_owned()
    }

    /// The settings a read yields; see [`load_document`].
    pub fn read_vscode_settings(present: bool, parsed: Option<Value>, parse_error: String) -> (r:
        Result<Value, ConfigError>)
        requires
            parsed matches Some(v) ==> wf(v),
        ensures
            r is Ok <==> (!present || parsed is Some),
            !present ==> (r matches Ok(d) && d@ == empty_object_model() && wf(d)),
            present && parsed is Some ==> (r matches Ok(d) && d == parsed->Some_0),
            present && parsed is None ==> (r matches Err(ConfigError::ValidationError(m)) && m@
                == parse_error@),
    {
        load_document(present, parsed, parse_error)
    }

    /// The manifest a read yields; see [`load_document`].
    pub fn read_package_json(present: bool, parsed: Option<Value>, parse_error: String) -> (r:
        Result<Value, ConfigError>)
        requires
            parsed matches Some(v) ==> wf(v),
        ensures
            r is Ok <==> (!present || parsed is Some),
            !present ==> (r matches Ok(d) && d@ == empty_object_model() && wf(d)),
            present && parsed is Some ==> (r matches Ok(d) && d == parsed->Some_0),
            present && parsed is None ==> (r matches Err(ConfigError::ValidationError(m)) && m@
                == parse_error@),
    {
        load_document(present, parsed, parse_error)
    }

    /// Folds a mutated copy of the settings back over the baseline.
    pub fn update_vscode_settings(current: &Value, mutated: &Value) -> (r: Value)
        requires
            wf(*current),
            wf(*mutated),
        ensures
            r@ == merge_model(current@, mutated@),
            wf(r),
    {
        current.merge(mutated)
    }

    /// Folds a mutated copy of the manifest back over the baseline.
    pub fn update_package_json(current: &Value, mutated: &Value) -> (r: Value)
        requires
            wf(*current),
            wf(*mutated),
        ensures
            r@ == merge_model(current@, mutated@),
            wf(r),
    {
        current.merge(mutated)
    }

    /// Adds a script to the manifest; see
    /// [`AmarisPackageJsonHandler::add_script`].
    pub fn add_package_script(doc: &Value, name: &str, content: &str, append: bool) -> (r: Value)
        requires
            doc@ is Obj,
            wf(*doc),
            scripts_wf(doc@),
        ensures
            r@ is Obj,
            wf(r),
            r@->Obj_0.dom() == doc@->Obj_0.dom().insert("scripts"@),
            forall|k: Seq<char>|
                #[trigger] doc@->Obj_0.dom().contains(k) && k != "scripts"@ ==> r@->Obj_0[k]
                    == doc@->Obj_0[k],
            r@->Obj_0["scripts"@] == ValueModel::Obj(
                scripts_table(doc@).insert(
                    name@,
                    ValueModel::Str(new_script_command(scripts_table(doc@), name@, content@, append)),
                ),
            ),
    {
        AmarisPackageJsonHandler::add_script(doc, name, content, append)
    }

    /// Deletes a script from the manifest; see
    /// [`AmarisPackageJsonHandler::remove_script`].
    pub fn remove_package_script(doc: &Value, name: &str) -> (r: Value)
        requires
            doc@ is Obj,
            wf(*doc),
            scripts_wf(doc@),
        ensures
            r@ is Obj,
            wf(r),
            r@->Obj_0.dom() == doc@->Obj_0.dom(),
            forall|k: Seq<char>|
                #[trigger] doc@->Obj_0.dom().contains(k) && k != "scripts"@ ==> r@->Obj_0[k]
                    == doc@->Obj_0[k],
            doc@->Obj_0.dom().contains("scripts"@) ==> r@->Obj_0["scripts"@] == ValueModel::Obj(
                scripts_table(doc@).remove(name@),
            ),
    {
        AmarisPackageJsonHandler::remove_script(doc, name)
    }

    /// The script named `name`, when the manifest holds it as a string.
    pub fn get_package_script(doc: &Value, name: &str) -> (r: Option<String>)
        requires
            wf(*doc),
        ensures
            (r is Some) == (spec_script(doc@, name@) is Some),
            r matches Some(s) ==> Some(s@) == spec_script(doc@, name@),
    {
        AmarisPackageJsonHandler::get_script(doc, name)
    }

    /// Every declared dependency of the manifest, as an array of strings:
    /// exactly the keys of the dependencies table, then those of the
    /// devDependencies table, then those of the peerDependencies table, each
    /// in its entry order, duplicates across tables kept; an absent or
    /// non-object table contributes nothing.
    pub fn get_package_dependencies(doc: &Value) -> (r: Value)
        requires
            wf(*doc),
        ensures
            r@ is Arr,
            wf(r),
            r@->Arr_0 == table_key_seq(*doc, "dependencies"@) + table_key_seq(
                *doc,
                "devDependencies"@,
            ) + table_key_seq(*doc, "peerDependencies"@),
    {
        let ghost t1 = table_key_seq(*doc, "dependencies"@);
        let ghost t2 = table_key_seq(*doc, "devDependencies"@);
        let ghost t3 = table_key_seq(*doc, "peerDependencies"@);
        let mut out: Vec<Value> = Vec::new();
        Self::push_table_keys(doc, "dependencies", &mut out);
        let ghost o1 = out@;
        Self::push_table_keys(doc, "devDependencies", &mut out);
        let ghost o2 = out@;
        Self::push_table_keys(doc, "peerDependencies", &mut out);
        proof {
            crate::document::lemma_items_seq_index(out@);
            crate::document::lemma_wf_items_all(out@);
            assert(out@.len() == t1.len() + t2.len() + t3.len());
            assert forall|i: int| 0 <= i < out@.len() implies items_seq(out@)[i] == (t1 + t2
                + t3)[i] && wf(#[trigger] out@[i]) by {
                assert(items_seq(out@)[i] == out@[i]@);
                if i < t1.len() {
                    assert(o1[0 + i]@ == t1[i]);
                    assert(wf(o1[0 + i]));
                    assert(o2[i] == o1[i]);
                    assert(out@[i] == o2[i]);
                } else if i < t1.len() + t2.len() {
                    assert(o2[o1.len() + (i - t1.len())]@ == t2[i - t1.len()]);
                    assert(wf(o2[o1.len() + (i - t1.len())]));
                    assert(out@[i] == o2[i]);
                } else {
                    assert(out@[o2.len() + (i - t1.len() - t2.len())]@ == t3[i - t1.len()
                        - t2.len()]);
                    assert(wf(out@[o2.len() + (i - t1.len() - t2.len())]));
                }
            }
            assert forall|i: int| 0 <= i < out@.len() implies #[trigger] items_seq(out@)[i] == (t1
                + t2 + t3)[i] by {
                assert(items_seq(out@)[i] == out@[i]@);
            }
            assert(items_seq(out@) =~= t1 + t2 + t3);
        }
        Value::Arr(out)
    }

    /// Appends one string per key of one dependency table, in entry order.
    fn push_table_keys(doc: &Value, table: &str, out: &mut Vec<Value>)
        requires
            wf(*doc),
        ensures
            final(out)@.len() == old(out)@.len() + table_key_seq(*doc, table@).len(),
            forall|i: int| 0 <= i < old(out)@.len() ==> #[trigger] final(out)@[i] == old(out)@[i],
            forall|x: int|
                0 <= x < table_key_seq(*doc, table@).len() ==> (#[trigger] final(out)@[old(
                    out,
                )@.len() + x])@ == table_key_seq(*doc, table@)[x] && wf(
                    final(out)@[old(out)@.len() + x],
                ),
    {
        let t = table.to_owned();
        let ghost keys = table_key_seq(*doc, table@);
        match doc.get(&t) {
            Some(v) => {
                proof {
                    assert((*doc) is Obj);
                    assert(crate::document::entry_value((*doc)->Obj_0@, table@) == Some(*v));
                }
                match v {
                    Value::Obj(entries) => {
                        proof {
                            assert(*v == Value::Obj(*entries));
                            assert(keys == entries@.map(
                                |i: int, e: (String, Value)| ValueModel::Str(e.0@),
                            ));
                        }
                        let ghost base = out@;
                        let mut j: usize = 0;
                        while j < entries.len()
                            invariant
                                j <= entries@.len(),
                                out@.len() == base.len() + j,
                                forall|i: int| 0 <= i < base.len() ==> #[trigger] out@[i]
                                    == base[i],
                                forall|x: int|
                                    0 <= x < j ==> (#[trigger] out@[base.len() + x])
                                        == Value::Str(entries@[x].0),
                            decreases entries@.len() - j,
                        {
                            let ghost prev = out@;
                            out.push(Value::Str(entries[j].0.clone()));
                            proof {
                                assert(forall|i: int|
                                    0 <= i < prev.len() ==> #[trigger] out@[i] == prev[i]);
                            }
                            j += 1;
                        }
                        proof {
                            assert forall|x: int| 0 <= x < keys.len() implies (#[trigger] out@[
                            base.len() + x])@ == keys[x] && wf(out@[base.len() + x]) by {
                                assert(out@[base.len() + x] == Value::Str(entries@[x].0));
                                assert(keys[x] == ValueModel::Str(entries@[x].0@));
                            }
                        }
                    },
                    _ => {
                        proof {
                            assert(keys =~= Seq::<ValueModel>::empty());
                        }
                    },
                }
            },
            None => {
                proof {
                    if (*doc) is Obj {
                        crate::document::lemma_entries_map_dom((*doc)->Obj_0@);
                        assert(doc@ is Obj);
                        assert(!doc@->Obj_0.dom().contains(table@));
                        assert(!crate::document::has_key((*doc)->Obj_0@, table@));
                        crate::document::lemma_entry_value_absent((*doc)->Obj_0@, table@);
                    }
                    assert(keys =~= Seq::<ValueModel>::empty());
                }
            },
        }
    }

    /// Whether every named package is already declared as a dependency.
    pub fn check_if_dependency_exists(doc: &Value, names: &Vec<String>) -> (r: bool)
        requires
            wf(*doc),
        ensures
            r == (forall|i: int|
                0 <= i < names@.len() ==> dependency_names(doc@).contains(#[trigger] names@[i]@)),
    {
        let mut i: usize = 0;
        while i < names.len()
            invariant
                wf(*doc),
                i <= names@.len(),
                forall|j: int|
                    0 <= j < i ==> dependency_names(doc@).contains(#[trigger] names@[j]@),
            decreases names@.len() - i,
        {
            let found = Self::table_contains(doc, "dependencies", &names[i])
                || Self::table_contains(doc, "devDependencies", &names[i]) || Self::table_contains(
                doc,
                "peerDependencies",
                &names[i],
            );
            if !found {
                return false;
            }
            i += 1;
        }
        true
    }

    /// Whether one dependency table declares the named package.
    fn table_contains(doc: &Value, table: &str, name: &String) -> (r: bool)
        requires
            wf(*doc),
        ensures
            r == table_keys(doc@, table@).contains(name@),
    {
        let t = table.to_owned();
        match doc.get(&t) {
            Some(v) => match v.get(name) {
                Some(_) => true,
                None => false,
            },
            None => false,
        }
    }

    /// The placement guard: a file is only ever written where none exists;
    /// a pre-existing file is reported and left untouched.
    pub fn write_file(path: String, dest_exists: bool) -> (r: Result<(), ConfigError>)
        ensures
            r is Ok <==> !dest_exists,
            dest_exists ==> (r matches Err(ConfigError::AlreadyExists(p)) && p@ == path@),
    {
        if dest_exists {
            Err(ConfigError::AlreadyExists(path))
        } else {
            Ok(())
        }
    }
}

/// The keys of an object node as string models, in entry order; empty for
/// any other node.
pub open spec fn object_key_seq(v: Value) -> Seq<ValueModel> {
    match v {
        Value::Obj(entries) => entries@.map(|i: int, e: (String, Value)| ValueModel::Str(e.0@)),
        _ => Seq::empty(),
    }
}

/// The keys of one dependency table of a manifest, as string models in the
/// table's entry order; empty when the manifest is not an object, the table
/// is absent, or the table is not an object.
pub open spec fn table_key_seq(d: Value, t: Seq<char>) -> Seq<ValueModel> {
    match d {
        Value::Obj(entries) => match crate::document::entry_value(entries@, t) {
            Some(v) => object_key_seq(v),
            None => Seq::empty(),
        },
        _ => Seq::empty(),
    }
}

} // verus!
