//! The merge and subtract engine on concrete documents.

use amaris::document::Value;

fn s(v: &str) -> Value {
    Value::Str(v.to_string())
}

fn obj(pairs: Vec<(&str, Value)>) -> Value {
    let mut out = Value::empty_object();
    for (k, v) in pairs {
        out.insert_key(k.to_string(), v);
    }
    out
}

#[test]
fn merge_inserts_missing_keys() {
    let d = obj(vec![("a", s("1"))]);
    let f = obj(vec![("b", s("2"))]);
    let m = d.merge(&f);
    assert!(m.get(&"a".to_string()).unwrap().deep_eq(&s("1")));
    assert!(m.get(&"b".to_string()).unwrap().deep_eq(&s("2")));
}

#[test]
fn merge_recurses_into_nested_objects() {
    let d = obj(vec![("nest", obj(vec![("x", s("1")), ("y", s("2"))]))]);
    let f = obj(vec![("nest", obj(vec![("y", s("3")), ("z", s("4"))]))]);
    let m = d.merge(&f);
    let expected = obj(vec![("nest", obj(vec![("x", s("1")), ("y", s("3")), ("z", s("4"))]))]);
    assert!(m.deep_eq(&expected));
}

#[test]
fn merge_replaces_arrays_wholesale() {
    let d = obj(vec![("list", Value::Arr(vec![s("a"), s("b")]))]);
    let f = obj(vec![("list", Value::Arr(vec![s("c")]))]);
    let m = d.merge(&f);
    let expected = obj(vec![("list", Value::Arr(vec![s("c")]))]);
    assert!(m.deep_eq(&expected));
}

#[test]
fn merge_idempotence() {
    let d = obj(vec![
        ("a", s("1")),
        ("nest", obj(vec![("x", Value::Int(1)), ("y", Value::Bool(true))])),
        ("list", Value::Arr(vec![s("a")])),
    ]);
    let f = obj(vec![
        ("nest", obj(vec![("y", Value::Bool(false)), ("z", Value::Null)])),
        ("b", s("2")),
    ]);
    let once = d.merge(&f);
    let twice = once.merge(&f);
    assert!(twice.deep_eq(&once));
}

#[test]
fn disjoint_fragments_commute() {
    let d = obj(vec![("base", s("kept")), ("shared", obj(vec![("a", s("1"))]))]);
    let f1 = obj(vec![("from-one", s("1")), ("shared", obj(vec![("b", s("2"))]))]);
    let f2 = obj(vec![("from-two", s("2"))]);
    let one_way = d.merge(&f1).merge(&f2);
    let other_way = d.merge(&f2).merge(&f1);
    assert!(one_way.deep_eq(&other_way));
}

#[test]
fn inverse_round_trip() {
    let d = obj(vec![("keep", s("user")), ("other", Value::Int(7))]);
    let f = obj(vec![
        ("added", s("tool")),
        ("nested", obj(vec![("inner", s("v"))])),
    ]);
    let merged = d.merge(&f);
    let restored = merged.subtract(&f);
    assert!(restored.deep_eq(&d));
}

#[test]
fn non_destructive_merge() {
    let d = obj(vec![("keep", s("mine")), ("shared", s("old"))]);
    let f = obj(vec![("shared", s("new"))]);
    let m = d.merge(&f);
    assert!(m.get(&"keep".to_string()).unwrap().deep_eq(&s("mine")));
}

#[test]
fn conflict_precedence() {
    let d = obj(vec![("shared", s("document"))]);
    let f = obj(vec![("shared", s("fragment"))]);
    let m = d.merge(&f);
    assert!(m.get(&"shared".to_string()).unwrap().deep_eq(&s("fragment")));
}

#[test]
fn subtract_leaves_unrecognized_values() {
    // the document's value was changed after install: subtraction must not
    // delete what it does not recognize
    let current = obj(vec![("key", s("edited-by-user"))]);
    let fragment = obj(vec![("key", s("installed"))]);
    let r = current.subtract(&fragment);
    assert!(r.deep_eq(&current));
}

#[test]
fn subtract_removes_emptied_nested_objects() {
    let current = obj(vec![("nest", obj(vec![("a", s("1"))])), ("other", s("x"))]);
    let fragment = obj(vec![("nest", obj(vec![("a", s("1"))]))]);
    let r = current.subtract(&fragment);
    let expected = obj(vec![("other", s("x"))]);
    assert!(r.deep_eq(&expected));
}

#[test]
fn subtract_keeps_partially_owned_nested_objects() {
    let current = obj(vec![(
        "nest",
        obj(vec![("ours", s("1")), ("theirs", s("2"))]),
    )]);
    let fragment = obj(vec![("nest", obj(vec![("ours", s("1"))]))]);
    let r = current.subtract(&fragment);
    let expected = obj(vec![("nest", obj(vec![("theirs", s("2"))]))]);
    assert!(r.deep_eq(&expected));
}

#[test]
fn deep_eq_ignores_entry_order() {
    let a = obj(vec![("x", s("1")), ("y", s("2"))]);
    let b = obj(vec![("y", s("2")), ("x", s("1"))]);
    assert!(a.deep_eq(&b));
    assert!(b.deep_eq(&a));
}

#[test]
fn deep_eq_distinguishes_values() {
    let a = obj(vec![("x", s("1"))]);
    let b = obj(vec![("x", s("2"))]);
    let c = obj(vec![("y", s("1"))]);
    assert!(!a.deep_eq(&b));
    assert!(!a.deep_eq(&c));
    assert!(!a.deep_eq(&Value::Null));
    assert!(!Value::Int(1).deep_eq(&Value::Int(2)));
    assert!(Value::Int(1).deep_eq(&Value::Int(1)));
    assert!(Value::Arr(vec![s("a")]).deep_eq(&Value::Arr(vec![s("a")])));
    assert!(!Value::Arr(vec![s("a")]).deep_eq(&Value::Arr(vec![s("b")])));
}

#[test]
fn empty_object_is_empty() {
    let e = Value::empty_object();
    assert!(e.is_empty_object());
    assert!(e.is_object());
    let ne = obj(vec![("a", Value::Null)]);
    assert!(!ne.is_empty_object());
    assert!(!Value::Null.is_empty_object());
}

#[test]
fn insert_and_remove_keys() {
    let mut d = Value::empty_object();
    d.insert_key("a".to_string(), s("1"));
    d.insert_key("a".to_string(), s("2"));
    assert!(d.get(&"a".to_string()).unwrap().deep_eq(&s("2")));
    d.remove_key(&"a".to_string());
    assert!(d.get(&"a".to_string()).is_none());
    assert!(d.is_empty_object());
    // removing an absent key changes nothing
    d.remove_key(&"missing".to_string());
    assert!(d.is_empty_object());
}

#[test]
fn check_wf_accepts_and_rejects() {
    let good = obj(vec![("a", s("1")), ("b", obj(vec![("c", s("2"))]))]);
    assert!(good.check_wf());
    let dup = Value::Obj(vec![
        ("a".to_string(), s("1")),
        ("a".to_string(), s("2")),
    ]);
    assert!(!dup.check_wf());
    let nested_dup = Value::Obj(vec![(
        "outer".to_string(),
        Value::Obj(vec![
            ("k".to_string(), Value::Null),
            ("k".to_string(), Value::Null),
        ]),
    )]);
    assert!(!nested_dup.check_wf());
}

#[test]
fn merge_on_non_objects_takes_fragment() {
    let d = s("old");
    let f = Value::Int(3);
    assert!(d.merge(&f).deep_eq(&Value::Int(3)));
    let d2 = obj(vec![("a", s("1"))]);
    assert!(d2.merge(&Value::Null).deep_eq(&Value::Null));
}

#[test]
fn subtract_on_non_objects_keeps_document() {
    let d = s("doc");
    let f = s("doc");
    assert!(d.subtract(&f).deep_eq(&d));
    let d2 = obj(vec![("a", s("1"))]);
    assert!(d2.subtract(&Value::Null).deep_eq(&d2));
}
