//! The structured document: an in-memory tree value (object / array / scalar)
//! with recursive merge and subtract operations.
//!
//! An object is stored as a vector of key/value entries whose keys are unique;
//! its mathematical model is a `Map` from key to child model, so that two
//! objects holding the same bindings in different orders are equal models.

use vstd::prelude::*;

verus! {

/// A structured document node: object, array, or scalar.
///
/// Object keys are unique in a well-formed value (see [`wf`]); merge and
/// subtract are deterministic regardless of entry order.
pub enum Value {
    Null,
    Bool(bool),
    Int(i64),
    Str(String),
    Arr(Vec<Value>),
    Obj(Vec<(String, Value)>),
}

/// The mathematical model of a [`Value`]: objects become maps keyed by the
/// key's character sequence, arrays become sequences, scalars stay scalars.
#[verifier::ext_equal]
pub ghost enum ValueModel {
    Null,
    Bool(bool),
    Int(int),
    Str(Seq<char>),
    Arr(Seq<ValueModel>),
    Obj(Map<Seq<char>, ValueModel>),
}

/// The model of an object's entry list: later entries shadow earlier ones,
/// though a well-formed object never has two entries with one key.
pub open spec fn entries_map(s: Seq<(String, Value)>) -> Map<Seq<char>, ValueModel>
    decreases s,
{
    if s.len() == 0 {
        Map::empty()
    } else {
        entries_map(s.drop_last()).insert(s.last().0@, s.last().1.view())
    }
}

/// The model of an array's element list.
pub open spec fn items_seq(s: Seq<Value>) -> Seq<ValueModel>
    decreases s,
{
    if s.len() == 0 {
        Seq::empty()
    } else {
        items_seq(s.drop_last()).push(s.last().view())
    }
}

impl View for Value {
    type V = ValueModel;

    open spec fn view(&self) -> ValueModel
        decreases self,
    {
        match self {
            Value::Null => ValueModel::Null,
            Value::Bool(b) => ValueModel::Bool(*b),
            Value::Int(i) => ValueModel::Int(*i as int),
            Value::Str(s) => ValueModel::Str(s@),
            Value::Arr(items) => ValueModel::Arr(items_seq(items@)),
            Value::Obj(entries) => ValueModel::Obj(entries_map(entries@)),
        }
    }
}

/// Whether an entry list holds a binding for `k`.
pub open spec fn has_key(s: Seq<(String, Value)>, k: Seq<char>) -> bool {
    exists|i: int| 0 <= i < s.len() && s[i].0@ == k
}

/// Well-formedness of an entry list: every child is well formed and no key
/// occurs twice.
pub open spec fn wf_entries(s: Seq<(String, Value)>) -> bool
    decreases s,
{
    if s.len() == 0 {
        true
    } else {
        wf_entries(s.drop_last()) && wf(s.last().1) && !has_key(s.drop_last(), s.last().0@)
    }
}

/// Well-formedness of an element list.
pub open spec fn wf_items(s: Seq<Value>) -> bool
    decreases s,
{
    if s.len() == 0 {
        true
    } else {
        wf_items(s.drop_last()) && wf(s.last())
    }
}

/// Well-formedness of a document: object keys are unique, recursively.
pub open spec fn wf(v: Value) -> bool
    decreases v,
{
    match v {
        Value::Obj(entries) => wf_entries(entries@),
        Value::Arr(items) => wf_items(items@),
        _ => true,
    }
}

/// The domain of an entry list's model is finite and holds exactly its keys.
pub proof fn lemma_entries_map_dom(s: Seq<(String, Value)>)
    ensures
        entries_map(s).dom().finite(),
        forall|k: Seq<char>| #[trigger] entries_map(s).dom().contains(k) <==> has_key(s, k),
    decreases s,
{
    if s.len() == 0 {
        assert(forall|k: Seq<char>| has_key(s, k) ==> false);
    } else {
        lemma_entries_map_dom(s.drop_last());
        assert(entries_map(s) == entries_map(s.drop_last()).insert(s.last().0@, s.last().1@));
        assert forall|k: Seq<char>| #[trigger] entries_map(s).dom().contains(k) implies has_key(
            s,
            k,
        ) by {
            if k == s.last().0@ {
                assert(s[s.len() - 1].0@ == k);
            } else {
                assert(entries_map(s.drop_last()).dom().contains(k));
                assert(has_key(s.drop_last(), k));
                let i = choose|i: int| 0 <= i < s.drop_last().len() && s.drop_last()[i].0@ == k;
                assert(s[i].0@ == k);
            }
        }
        assert forall|k: Seq<char>| has_key(s, k) implies #[trigger] entries_map(
            s,
        ).dom().contains(k) by {
            let i = choose|i: int| 0 <= i < s.len() && s[i].0@ == k;
            if i < s.len() - 1 {
                assert(s.drop_last()[i].0@ == k);
                assert(has_key(s.drop_last(), k));
                assert(entries_map(s.drop_last()).dom().contains(k));
            }
        }
    }
}

/// Every child of a well-formed entry list is well formed.
pub proof fn lemma_wf_entries_index(s: Seq<(String, Value)>, i: int)
    requires
        wf_entries(s),
        0 <= i < s.len(),
    ensures
        wf(s[i].1),
    decreases s,
{
    if i < s.len() - 1 {
        lemma_wf_entries_index(s.drop_last(), i);
    }
}

/// In a well-formed entry list, distinct entries have distinct keys.
pub proof fn lemma_wf_entries_unique(s: Seq<(String, Value)>, i: int, j: int)
    requires
        wf_entries(s),
        0 <= i < j < s.len(),
    ensures
        s[i].0@ != s[j].0@,
    decreases s,
{
    if j == s.len() - 1 {
        assert(!has_key(s.drop_last(), s.last().0@));
        assert(s.drop_last()[i].0@ == s[i].0@);
    } else {
        lemma_wf_entries_unique(s.drop_last(), i, j);
    }
}

/// Looking an entry's key up in the model gives that entry's child model.
pub proof fn lemma_entries_map_index(s: Seq<(String, Value)>, i: int)
    requires
        wf_entries(s),
        0 <= i < s.len(),
    ensures
        entries_map(s)[s[i].0@] == s[i].1@,
    decreases s,
{
    assert(entries_map(s) == entries_map(s.drop_last()).insert(s.last().0@, s.last().1@));
    if i == s.len() - 1 {
    } else {
        lemma_wf_entries_unique(s, i, s.len() - 1);
        lemma_entries_map_index(s.drop_last(), i);
        assert(s.drop_last()[i] == s[i]);
        assert(entries_map(s)[s[i].0@] == entries_map(s.drop_last())[s[i].0@]);
    }
}

/// A well-formed entry list has as many entries as its model has keys.
pub proof fn lemma_entries_map_len(s: Seq<(String, Value)>)
    requires
        wf_entries(s),
    ensures
        entries_map(s).dom().finite(),
        entries_map(s).dom().len() == s.len(),
    decreases s,
{
    lemma_entries_map_dom(s);
    if s.len() > 0 {
        lemma_entries_map_len(s.drop_last());
        lemma_entries_map_dom(s.drop_last());
        assert(!entries_map(s.drop_last()).dom().contains(s.last().0@));
        assert(entries_map(s) == entries_map(s.drop_last()).insert(s.last().0@, s.last().1@));
        assert(entries_map(s).dom() =~= entries_map(s.drop_last()).dom().insert(s.last().0@));
        vstd::set::axiom_set_insert_len(entries_map(s.drop_last()).dom(), s.last().0@);
    }
}

/// Appending an entry inserts its binding into the model.
pub proof fn lemma_entries_map_push(s: Seq<(String, Value)>, e: (String, Value))
    ensures
        entries_map(s.push(e)) == entries_map(s).insert(e.0@, e.1@),
{
    assert(s.push(e).drop_last() =~= s);
    assert(s.push(e).last() == e);
}

/// A pushed entry list stays well formed when the key is new.
pub proof fn lemma_wf_entries_push(s: Seq<(String, Value)>, e: (String, Value))
    requires
        wf_entries(s),
        wf(e.1),
        !has_key(s, e.0@),
    ensures
        wf_entries(s.push(e)),
{
    assert(s.push(e).drop_last() =~= s);
    assert(s.push(e).last() == e);
}

/// Replacing the entry that holds a key updates that key's binding.
pub proof fn lemma_entries_map_update(s: Seq<(String, Value)>, j: int, e: (String, Value))
    requires
        wf_entries(s),
        0 <= j < s.len(),
        s[j].0@ == e.0@,
    ensures
        entries_map(s.update(j, e)) == entries_map(s).insert(e.0@, e.1@),
    decreases s,
{
    if j == s.len() - 1 {
        assert(s.update(j, e).drop_last() =~= s.drop_last());
        assert(s.update(j, e).last() == e);
        assert(entries_map(s.drop_last()).insert(s.last().0@, s.last().1@).insert(e.0@, e.1@)
            =~= entries_map(s.drop_last()).insert(e.0@, e.1@));
    } else {
        lemma_wf_entries_unique(s, j, s.len() - 1);
        lemma_entries_map_update(s.drop_last(), j, e);
        assert(s.update(j, e).drop_last() =~= s.drop_last().update(j, e));
        assert(s.update(j, e).last() == s.last());
        assert(entries_map(s.drop_last()).insert(e.0@, e.1@).insert(s.last().0@, s.last().1@)
            =~= entries_map(s.drop_last()).insert(s.last().0@, s.last().1@).insert(e.0@, e.1@));
    }
}

/// An entry list stays well formed when one entry's value is replaced.
pub proof fn lemma_wf_entries_update(s: Seq<(String, Value)>, j: int, e: (String, Value))
    requires
        wf_entries(s),
        0 <= j < s.len(),
        s[j].0@ == e.0@,
        wf(e.1),
    ensures
        wf_entries(s.update(j, e)),
    decreases s,
{
    if j == s.len() - 1 {
        assert(s.update(j, e).drop_last() =~= s.drop_last());
        assert(s.update(j, e).last() == e);
        assert forall|k: Seq<char>| has_key(s.drop_last(), k) implies has_key(
            s.update(j, e).drop_last(),
            k,
        ) by {}
    } else {
        lemma_wf_entries_update(s.drop_last(), j, e);
        assert(s.update(j, e).drop_last() =~= s.drop_last().update(j, e));
        assert(s.update(j, e).last() == s.last());
        assert forall|k: Seq<char>| has_key(s.drop_last().update(j, e), k) implies has_key(
            s.drop_last(),
            k,
        ) by {
            let i = choose|i: int|
                0 <= i < s.drop_last().update(j, e).len() && s.drop_last().update(j, e)[i].0@ == k;
            assert(s.drop_last()[i].0@ == k);
        }
    }
}

/// An array's model indexes to its elements' models.
pub proof fn lemma_items_seq_index(s: Seq<Value>)
    ensures
        items_seq(s).len() == s.len(),
        forall|i: int| 0 <= i < s.len() ==> items_seq(s)[i] == #[trigger] s[i]@,
    decreases s,
{
    if s.len() > 0 {
        lemma_items_seq_index(s.drop_last());
        assert(items_seq(s) == items_seq(s.drop_last()).push(s.last()@));
        assert forall|i: int| 0 <= i < s.len() implies items_seq(s)[i] == #[trigger] s[i]@ by {
            if i < s.len() - 1 {
                assert(s.drop_last()[i] == s[i]);
                assert(items_seq(s.drop_last())[i] == s.drop_last()[i]@);
            }
        }
    }
}

/// The model of an empty object.
pub open spec fn empty_object_model() -> ValueModel {
    ValueModel::Obj(Map::empty())
}

/// Recursive merge of a fragment into a document.
///
/// When both nodes are objects the fragment is folded in key by key: a key
/// absent from the document is inserted, a key whose values are both objects
/// is merged recursively, and any other shared key takes the fragment's
/// value. When either node is not an object the fragment replaces the
/// document wholesale; in particular arrays are atomic.
pub open spec fn merge_model(d: ValueModel, f: ValueModel) -> ValueModel
    decreases d,
{
    match (d, f) {
        (ValueModel::Obj(dm), ValueModel::Obj(fm)) => ValueModel::Obj(
            Map::new(
                |k: Seq<char>| dm.dom().contains(k) || fm.dom().contains(k),
                |k: Seq<char>|
                    if dm.dom().contains(k) && fm.dom().contains(k) && dm[k] is Obj
                        && fm[k] is Obj {
                        merge_model(dm[k], fm[k])
                    } else if fm.dom().contains(k) {
                        fm[k]
                    } else {
                        dm[k]
                    },
            ),
        ),
        _ => f,
    }
}

/// Whether subtracting object `f` from object `c` deletes key `k`: the
/// values are structurally equal, or both are objects and the recursive
/// subtraction empties the child.
pub open spec fn subtract_deletes(c: ValueModel, f: ValueModel, k: Seq<char>) -> bool
    decreases c, 0int,
{
    c is Obj && f is Obj && {
        let cm = c->Obj_0;
        let fm = f->Obj_0;
        cm.dom().contains(k) && fm.dom().contains(k) && (cm[k] == fm[k] || (cm[k] is Obj
            && fm[k] is Obj && subtract_model(cm[k], fm[k]) == empty_object_model()))
    }
}

/// Recursive subtraction of a fragment from a document: the inverse of
/// [`merge_model`] for keys the fragment owns.
///
/// A key is removed only when the document still holds what the fragment
/// describes — structurally equal values, or a nested object that the
/// recursive subtraction empties. A key whose value was changed to something
/// the fragment does not match is left in place, so subtraction never
/// destroys edits it does not recognize. When either node is not an object
/// the document is returned unchanged.
pub open spec fn subtract_model(c: ValueModel, f: ValueModel) -> ValueModel
    decreases c, 1int,
{
    match (c, f) {
        (ValueModel::Obj(cm), ValueModel::Obj(fm)) => ValueModel::Obj(
            Map::new(
                |k: Seq<char>| cm.dom().contains(k) && !subtract_deletes(c, f, k),
                |k: Seq<char>|
                    if cm.dom().contains(k) && fm.dom().contains(k) && cm[k] != fm[k]
                        && cm[k] is Obj && fm[k] is Obj {
                        subtract_model(cm[k], fm[k])
                    } else {
                        cm[k]
                    },
            ),
        ),
        _ => c,
    }
}

/// Merging a document with itself changes nothing.
pub proof fn lemma_merge_self(x: ValueModel)
    ensures
        merge_model(x, x) == x,
    decreases x,
{
    if x is Obj {
        let m = x->Obj_0;
        assert forall|k: Seq<char>| m.dom().contains(k) implies #[trigger] merge_model(
            x,
            x,
        )->Obj_0[k] == m[k] by {
            if m[k] is Obj {
                lemma_merge_self(m[k]);
            }
        }
        assert(merge_model(x, x)->Obj_0 =~= m);
    }
}

/// Law: merge is idempotent. Applying the same fragment twice yields the
/// same document as applying it once, for any document and fragment.
pub proof fn lemma_merge_idempotent(d: ValueModel, f: ValueModel)
    ensures
        merge_model(merge_model(d, f), f) == merge_model(d, f),
    decreases d,
{
    if d is Obj && f is Obj {
        let dm = d->Obj_0;
        let fm = f->Obj_0;
        let r1 = merge_model(d, f);
        let r1m = r1->Obj_0;
        assert forall|k: Seq<char>| r1m.dom().contains(k) implies #[trigger] merge_model(
            r1,
            f,
        )->Obj_0[k] == r1m[k] by {
            if fm.dom().contains(k) {
                if dm.dom().contains(k) && dm[k] is Obj && fm[k] is Obj {
                    lemma_merge_idempotent(dm[k], fm[k]);
                } else if fm[k] is Obj {
                    lemma_merge_self(fm[k]);
                }
            }
        }
        assert(merge_model(r1, f)->Obj_0 =~= r1m);
    } else if f is Obj {
        lemma_merge_self(f);
    }
}

/// A fragment that already holds every key of the document, agreeing on the
/// keys where both values are objects, absorbs the merge entirely.
pub proof fn lemma_merge_absorbs(d: ValueModel, f: ValueModel)
    requires
        d is Obj,
        f is Obj,
        forall|k: Seq<char>| #[trigger]
            d->Obj_0.dom().contains(k) ==> f->Obj_0.dom().contains(k),
        forall|k: Seq<char>| #[trigger]
            d->Obj_0.dom().contains(k) && d->Obj_0[k] is Obj && f->Obj_0[k] is Obj ==> d->Obj_0[k]
                == f->Obj_0[k],
    ensures
        merge_model(d, f) == f,
{
    let dm = d->Obj_0;
    let fm = f->Obj_0;
    assert forall|k: Seq<char>| fm.dom().contains(k) implies #[trigger] merge_model(
        d,
        f,
    )->Obj_0[k] == fm[k] by {
        if dm.dom().contains(k) && dm[k] is Obj && fm[k] is Obj {
            assert(dm[k] == fm[k]);
            lemma_merge_self(fm[k]);
        }
    }
    assert(merge_model(d, f)->Obj_0 =~= fm);
}

/// Law: fragments of different providers commute. Two fragments that touch
/// disjoint sets of keys can be merged into a document in either order.
pub proof fn lemma_merge_commutes(d: ValueModel, f1: ValueModel, f2: ValueModel)
    requires
        f1 is Obj,
        f2 is Obj,
        f1->Obj_0.dom().disjoint(f2->Obj_0.dom()),
    ensures
        merge_model(merge_model(d, f1), f2) == merge_model(merge_model(d, f2), f1),
{
    let m1 = f1->Obj_0;
    let m2 = f2->Obj_0;
    if d is Obj {
        let dm = d->Obj_0;
        let left = merge_model(merge_model(d, f1), f2);
        let right = merge_model(merge_model(d, f2), f1);
        assert forall|k: Seq<char>| #[trigger] left->Obj_0.dom().contains(k) implies left->Obj_0[k]
            == right->Obj_0[k] by {
            assert(!(m1.dom().contains(k) && m2.dom().contains(k)));
            if m1.dom().contains(k) {
                assert(merge_model(d, f2)->Obj_0.dom().contains(k) == dm.dom().contains(k));
                if dm.dom().contains(k) {
                    assert(merge_model(d, f2)->Obj_0[k] == dm[k]);
                }
            } else if m2.dom().contains(k) {
                assert(merge_model(d, f1)->Obj_0.dom().contains(k) == dm.dom().contains(k));
                if dm.dom().contains(k) {
                    assert(merge_model(d, f1)->Obj_0[k] == dm[k]);
                }
            } else {
                assert(left->Obj_0[k] == dm[k]);
                assert(right->Obj_0[k] == dm[k]);
            }
        }
        assert(left->Obj_0 =~= right->Obj_0);
    } else {
        let left = merge_model(merge_model(d, f1), f2);
        let right = merge_model(merge_model(d, f2), f1);
        assert forall|k: Seq<char>| #[trigger] left->Obj_0.dom().contains(k) implies left->Obj_0[k]
            == right->Obj_0[k] by {
            assert(!(m1.dom().contains(k) && m2.dom().contains(k)));
        }
        assert(left->Obj_0 =~= right->Obj_0);
    }
}

/// Law: merge is non-destructive. A key the fragment does not hold keeps
/// exactly the value the document held for it.
pub proof fn lemma_merge_preserves_unrelated(d: ValueModel, f: ValueModel, k: Seq<char>)
    requires
        d is Obj,
        f is Obj,
        d->Obj_0.dom().contains(k),
        !f->Obj_0.dom().contains(k),
    ensures
        merge_model(d, f) is Obj,
        merge_model(d, f)->Obj_0.dom().contains(k),
        merge_model(d, f)->Obj_0[k] == d->Obj_0[k],
{
}

/// Law: on conflict the fragment wins. When document and fragment share a
/// key and the two values are not both objects, the merged document holds
/// the fragment's value for that key.
pub proof fn lemma_merge_fragment_wins(d: ValueModel, f: ValueModel, k: Seq<char>)
    requires
        d is Obj,
        f is Obj,
        f->Obj_0.dom().contains(k),
        d->Obj_0.dom().contains(k) ==> !(d->Obj_0[k] is Obj && f->Obj_0[k] is Obj),
    ensures
        merge_model(d, f) is Obj,
        merge_model(d, f)->Obj_0.dom().contains(k),
        merge_model(d, f)->Obj_0[k] == f->Obj_0[k],
{
}

/// Law: subtraction inverts merge. For a document with no prior key in
/// common with the fragment, merging the fragment in and subtracting it
/// again returns exactly the original document.
pub proof fn lemma_merge_subtract_roundtrip(d: ValueModel, f: ValueModel)
    requires
        d is Obj,
        f is Obj,
        d->Obj_0.dom().disjoint(f->Obj_0.dom()),
    ensures
        subtract_model(merge_model(d, f), f) == d,
{
    let dm = d->Obj_0;
    let fm = f->Obj_0;
    let r = merge_model(d, f);
    let rm = r->Obj_0;
    assert forall|k: Seq<char>| fm.dom().contains(k) implies #[trigger] subtract_deletes(
        r,
        f,
        k,
    ) by {
        assert(!dm.dom().contains(k));
        assert(rm[k] == fm[k]);
    }
    let s = subtract_model(r, f);
    let sm = s->Obj_0;
    assert forall|k: Seq<char>| #[trigger] sm.dom().contains(k) implies dm.dom().contains(k) by {
        assert(rm.dom().contains(k));
        assert(!subtract_deletes(r, f, k));
        if fm.dom().contains(k) {
            assert(subtract_deletes(r, f, k));
        }
    }
    assert forall|k: Seq<char>| #[trigger] dm.dom().contains(k) implies sm.dom().contains(k)
        && sm[k] == dm[k] by {
        assert(!fm.dom().contains(k));
        assert(rm.dom().contains(k));
        assert(rm[k] == dm[k]);
        assert(!subtract_deletes(r, f, k));
        assert(sm.dom().contains(k));
        assert(sm[k] == rm[k]);
    }
    assert(sm =~= dm);
}

/// The stored node under key `k`: the first entry carrying the key, which
/// in a well-formed list is the only one.
pub open spec fn entry_value(s: Seq<(String, Value)>, k: Seq<char>) -> Option<Value>
    decreases s.len(),
{
    if s.len() == 0 {
        None
    } else if s[0].0@ == k {
        Some(s[0].1)
    } else {
        entry_value(s.subrange(1, s.len() as int), k)
    }
}

/// In a well-formed entry list, any entry carrying a key is what
/// [`entry_value`] finds for it.
pub proof fn lemma_entry_value_at(s: Seq<(String, Value)>, j: int)
    requires
        wf_entries(s),
        0 <= j < s.len(),
    ensures
        entry_value(s, s[j].0@) == Some(s[j].1),
    decreases s.len(),
{
    if j == 0 {
    } else {
        lemma_wf_entries_unique(s, 0, j);
        let tail = s.subrange(1, s.len() as int);
        assert(wf_entries(tail)) by {
            lemma_wf_entries_all(s);
            lemma_wf_entries_all(tail);
            assert(forall|i: int| 0 <= i < tail.len() ==> #[trigger] tail[i] == s[i + 1]);
        }
        assert(tail[j - 1] == s[j]);
        lemma_entry_value_at(tail, j - 1);
    }
}

/// A key no entry carries is not found by [`entry_value`].
pub proof fn lemma_entry_value_absent(s: Seq<(String, Value)>, k: Seq<char>)
    requires
        !has_key(s, k),
    ensures
        entry_value(s, k) is None,
    decreases s.len(),
{
    if s.len() > 0 {
        assert(s[0].0@ != k);
        let tail = s.subrange(1, s.len() as int);
        assert(!has_key(tail, k)) by {
            if has_key(tail, k) {
                let i = choose|i: int| 0 <= i < tail.len() && tail[i].0@ == k;
                assert(s[i + 1].0@ == k);
            }
        }
        lemma_entry_value_absent(tail, k);
    }
}

/// Pointwise characterization of a well-formed entry list: all children are
/// well formed and all keys are distinct.
pub proof fn lemma_wf_entries_all(s: Seq<(String, Value)>)
    ensures
        wf_entries(s) <==> ((forall|i: int| 0 <= i < s.len() ==> wf(#[trigger] s[i].1)) && (
        forall|i: int, j: int| 0 <= i < j < s.len() ==> s[i].0@ != s[j].0@)),
    decreases s,
{
    if s.len() > 0 {
        lemma_wf_entries_all(s.drop_last());
        assert(forall|i: int| 0 <= i < s.len() - 1 ==> s.drop_last()[i] == s[i]);
        if wf_entries(s) {
            assert forall|i: int, j: int| 0 <= i < j < s.len() implies s[i].0@ != s[j].0@ by {
                if j < s.len() - 1 {
                    assert(s.drop_last()[i].0@ != s.drop_last()[j].0@);
                } else {
                    assert(!has_key(s.drop_last(), s.last().0@));
                    assert(s.drop_last()[i].0@ == s[i].0@);
                }
            }
        }
        if (forall|i: int| 0 <= i < s.len() ==> wf(#[trigger] s[i].1)) && (forall|i: int, j: int|
            0 <= i < j < s.len() ==> s[i].0@ != s[j].0@) {
            assert(forall|i: int| 0 <= i < s.drop_last().len() ==> wf(
                #[trigger] s.drop_last()[i].1,
            ));
            assert(wf_entries(s.drop_last()));
            assert(wf(s.last().1));
            assert forall|i: int| 0 <= i < s.drop_last().len() implies s.drop_last()[i].0@
                != s.last().0@ by {
                assert(s[i].0@ != s[s.len() - 1].0@);
            }
            assert(!has_key(s.drop_last(), s.last().0@));
        }
    }
}

/// Pointwise characterization of a well-formed element list.
pub proof fn lemma_wf_items_all(s: Seq<Value>)
    ensures
        wf_items(s) <==> (forall|i: int| 0 <= i < s.len() ==> wf(#[trigger] s[i])),
    decreases s,
{
    if s.len() > 0 {
        lemma_wf_items_all(s.drop_last());
        assert(forall|i: int| 0 <= i < s.len() - 1 ==> s.drop_last()[i] == s[i]);
    }
}

/// Finds the position of the entry holding `key`, if any.
fn find_key(entries: &Vec<(String, Value)>, key: &String) -> (r: Option<usize>)
    ensures
        match r {
            Some(j) => j < entries@.len() && entries@[j as int].0@ == key@,
            None => !has_key(entries@, key@),
        },
{
    let mut i: usize = 0;
    while i < entries.len()
        invariant
            i <= entries@.len(),
            forall|j: int| 0 <= j < i ==> entries@[j].0@ != key@,
        decreases entries@.len() - i,
    {
        if entries[i].0.eq(key) {
            return Some(i);
        }
        i += 1;
    }
    None
}

impl Value {
    /// Whether this node is an object.
    pub fn is_object(&self) -> (r: bool)
        ensures
            r == (self@ is Obj),
    {
        match self {
            Value::Obj(_) => true,
            _ => false,
        }
    }

    /// Whether this node is the empty object.
    pub fn is_empty_object(&self) -> (r: bool)
        ensures
            r == (self@ == empty_object_model()),
    {
        match self {
            Value::Obj(entries) => {
                if entries.len() == 0 {
                    true
                } else {
                    proof {
                        assert(entries_map(entries@) == entries_map(entries@.drop_last()).insert(
                            entries@.last().0@,
                            entries@.last().1@,
                        ));
                        assert(entries_map(entries@).dom().contains(entries@.last().0@));
                    }
                    false
                }
            },
            _ => false,
        }
    }

    /// The empty object, the default content of an absent document.
    pub fn empty_object() -> (r: Value)
        ensures
            r@ == empty_object_model(),
            wf(r),
    {
        Value::Obj(Vec::new())
    }

    /// Structural copy.
    pub fn deep_clone(&self) -> (r: Value)
        requires
            wf(*self),
        ensures
            r@ == self@,
            wf(r),
        decreases *self,
    {
        match self {
            Value::Null => Value::Null,
            Value::Bool(b) => Value::Bool(*b),
            Value::Int(i) => Value::Int(*i),
            Value::Str(s) => Value::Str(s.clone()),
            Value::Arr(items) => {
                let mut out: Vec<Value> = Vec::new();
                let mut i: usize = 0;
                while i < items.len()
                    invariant
                        wf(*self),
                        self == Value::Arr(*items),
                        i <= items@.len(),
                        out@.len() == i,
                        forall|j: int| #![auto] 0 <= j < i ==> out@[j]@ == items@[j]@,
                        forall|j: int| #![auto] 0 <= j < i ==> wf(out@[j]),
                    decreases items@.len() - i,
                {
                    proof {
                        lemma_wf_items_all(items@);
                    }
                    out.push(items[i].deep_clone());
                    i += 1;
                }
                proof {
                    lemma_items_seq_index(out@);
                    lemma_items_seq_index(items@);
                    assert forall|j: int| 0 <= j < out@.len() implies items_seq(out@)[j]
                        == items_seq(items@)[j] by {
                        assert(out@[j]@ == items@[j]@);
                    }
                    assert(items_seq(out@) =~= items_seq(items@));
                    lemma_wf_items_all(out@);
                    assert forall|j: int| 0 <= j < out@.len() implies wf(#[trigger] out@[j]) by {
                        assert(wf(out@[j]));
                    }
                }
                Value::Arr(out)
            },
            Value::Obj(entries) => {
                let mut out: Vec<(String, Value)> = Vec::new();
                let mut i: usize = 0;
                while i < entries.len()
                    invariant
                        wf(*self),
                        self == Value::Obj(*entries),
                        i <= entries@.len(),
                        out@.len() == i,
                        forall|j: int| #![auto] 0 <= j < i ==> out@[j].0@ == entries@[j].0@,
                        forall|j: int| #![auto] 0 <= j < i ==> out@[j].1@ == entries@[j].1@,
                        forall|j: int| #![auto] 0 <= j < i ==> wf(out@[j].1),
                    decreases entries@.len() - i,
                {
                    proof {
                        lemma_wf_entries_all(entries@);
                    }
                    out.push((entries[i].0.clone(), entries[i].1.deep_clone()));
                    i += 1;
                }
                proof {
                    lemma_entries_map_congruence(out@, entries@);
                    lemma_wf_entries_all(entries@);
                    lemma_wf_entries_all(out@);
                    assert forall|i: int, j: int| 0 <= i < j < out@.len() implies out@[i].0@
                        != out@[j].0@ by {
                        assert(out@[i].0@ == entries@[i].0@);
                        assert(out@[j].0@ == entries@[j].0@);
                    }
                    assert forall|j: int| 0 <= j < out@.len() implies wf(
                        #[trigger] out@[j].1,
                    ) by {
                        assert(wf(out@[j].1));
                    }
                }
                Value::Obj(out)
            },
        }
    }

    /// Looks a key up in an object; `None` on a non-object or absent key.
    /// A found value is the stored node itself, entry for entry.
    pub fn get(&self, key: &String) -> (r: Option<&Value>)
        requires
            wf(*self),
        ensures
            match r {
                Some(v) => self@ is Obj && self@->Obj_0.dom().contains(key@) && v@
                    == self@->Obj_0[key@] && wf(*v) && entry_value((*self)->Obj_0@, key@)
                    == Some(*v),
                None => !(self@ is Obj && self@->Obj_0.dom().contains(key@)),
            },
    {
        match self {
            Value::Obj(entries) => {
                proof {
                    lemma_entries_map_dom(entries@);
                }
                match find_key(entries, key) {
                    Some(j) => {
                        proof {
                            lemma_entries_map_index(entries@, j as int);
                            lemma_wf_entries_index(entries@, j as int);
                            lemma_entry_value_at(entries@, j as int);
                        }
                        Some(&entries[j].1)
                    },
                    None => None,
                }
            },
            _ => None,
        }
    }
}

impl Value {
    /// Structural equality of models: object entry order is irrelevant.
    pub fn deep_eq(&self, other: &Value) -> (r: bool)
        requires
            wf(*self),
            wf(*other),
        ensures
            r == (self@ == other@),
        decreases *self,
    {
        match (self, other) {
            (Value::Null, Value::Null) => true,
            (Value::Bool(a), Value::Bool(b)) => *a == *b,
            (Value::Int(a), Value::Int(b)) => *a == *b,
            (Value::Str(a), Value::Str(b)) => a.eq(b),
            (Value::Arr(a), Value::Arr(b)) => {
                proof {
                    lemma_items_seq_index(a@);
                    lemma_items_seq_index(b@);
                }
                if a.len() != b.len() {
                    return false;
                }
                let mut i: usize = 0;
                while i < a.len()
                    invariant
                        wf(*self),
                        wf(*other),
                        self == Value::Arr(*a),
                        other == Value::Arr(*b),
                        a@.len() == b@.len(),
                        i <= a@.len(),
                        forall|j: int| #![auto] 0 <= j < i ==> a@[j]@ == b@[j]@,
                    decreases a@.len() - i,
                {
                    proof {
                        lemma_wf_items_all(a@);
                        lemma_wf_items_all(b@);
                    }
                    if !a[i].deep_eq(&b[i]) {
                        proof {
                            lemma_items_seq_index(a@);
                            lemma_items_seq_index(b@);
                            assert(items_seq(a@)[i as int] != items_seq(b@)[i as int]);
                        }
                        return false;
                    }
                    i += 1;
                }
                proof {
                    lemma_items_seq_index(a@);
                    lemma_items_seq_index(b@);
                    assert forall|j: int| 0 <= j < a@.len() implies items_seq(a@)[j] == items_seq(
                        b@,
                    )[j] by {
                        assert(a@[j]@ == b@[j]@);
                    }
                    assert(items_seq(a@) =~= items_seq(b@));
                }
                true
            },
            (Value::Obj(a), Value::Obj(b)) => {
                proof {
                    lemma_entries_map_len(a@);
                    lemma_entries_map_len(b@);
                }
                if a.len() != b.len() {
                    return false;
                }
                let mut i: usize = 0;
                while i < a.len()
                    invariant
                        wf(*self),
                        wf(*other),
                        self == Value::Obj(*a),
                        other == Value::Obj(*b),
                        a@.len() == b@.len(),
                        i <= a@.len(),
                        forall|j: int|
                            #![auto]
                            0 <= j < i ==> entries_map(b@).dom().contains(a@[j].0@) && entries_map(
                                b@,
                            )[a@[j].0@] == a@[j].1@,
                    decreases a@.len() - i,
                {
                    proof {
                        lemma_wf_entries_index(a@, i as int);
                        lemma_entries_map_index(a@, i as int);
                    }
                    match find_key(b, &a[i].0) {
                        Some(j) => {
                            proof {
                                lemma_wf_entries_index(b@, j as int);
                                lemma_entries_map_index(b@, j as int);
                                lemma_entries_map_dom(b@);
                                assert(has_key(b@, a@[i as int].0@));
                            }
                            if !a[i].1.deep_eq(&b[j].1) {
                                proof {
                                    assert(entries_map(a@)[a@[i as int].0@] == a@[i as int].1@);
                                    assert(entries_map(b@)[a@[i as int].0@] == b@[j as int].1@);
                                    assert(a@[i as int].1@ != b@[j as int].1@);
                                    assert(entries_map(a@) != entries_map(b@));
                                    assert(self@ == ValueModel::Obj(entries_map(a@)));
                                    assert(other@ == ValueModel::Obj(entries_map(b@)));
                                }
                                return false;
                            }
                        },
                        None => {
                            proof {
                                lemma_entries_map_dom(a@);
                                lemma_entries_map_dom(b@);
                                assert(has_key(a@, a@[i as int].0@));
                                assert(entries_map(a@).dom().contains(a@[i as int].0@));
                                assert(!entries_map(b@).dom().contains(a@[i as int].0@));
                                assert(entries_map(a@) != entries_map(b@));
                                assert(self@ == ValueModel::Obj(entries_map(a@)));
                                assert(other@ == ValueModel::Obj(entries_map(b@)));
                            }
                            return false;
                        },
                    }
                    i += 1;
                }
                proof {
                    lemma_entries_map_dom(a@);
                    lemma_entries_map_dom(b@);
                    assert forall|k: Seq<char>| #[trigger] entries_map(a@).dom().contains(k)
                        implies entries_map(b@).dom().contains(k) && entries_map(b@)[k]
                        == entries_map(a@)[k] by {
                        let j = choose|j: int| 0 <= j < a@.len() && a@[j].0@ == k;
                        lemma_entries_map_index(a@, j);
                    }
                    assert forall|k: Seq<char>| #[trigger] entries_map(b@).dom().contains(k)
                        implies entries_map(a@).dom().contains(k) by {
                        if !entries_map(a@).dom().contains(k) {
                            entries_map(a@).dom().lemma_subset_not_in_lt(
                                entries_map(b@).dom(),
                                k,
                            );
                        }
                    }
                    assert(entries_map(a@) =~= entries_map(b@));
                }
                true
            },
            _ => false,
        }
    }
}

/// Whether one of the first `n` entries of `s` holds key `k`.
pub open spec fn key_in_prefix(s: Seq<(String, Value)>, n: int, k: Seq<char>) -> bool {
    exists|j: int| 0 <= j < n && s[j].0@ == k
}

/// Structural copy of an entry list, pointwise.
fn clone_entries(entries: &Vec<(String, Value)>) -> (out: Vec<(String, Value)>)
    requires
        wf_entries(entries@),
    ensures
        out@.len() == entries@.len(),
        forall|j: int| #![auto] 0 <= j < out@.len() ==> out@[j].0@ == entries@[j].0@,
        forall|j: int| #![auto] 0 <= j < out@.len() ==> out@[j].1@ == entries@[j].1@,
        wf_entries(out@),
        entries_map(out@) == entries_map(entries@),
{
    let mut out: Vec<(String, Value)> = Vec::new();
    let mut i: usize = 0;
    while i < entries.len()
        invariant
            wf_entries(entries@),
            i <= entries@.len(),
            out@.len() == i,
            forall|j: int| #![auto] 0 <= j < i ==> out@[j].0@ == entries@[j].0@,
            forall|j: int| #![auto] 0 <= j < i ==> out@[j].1@ == entries@[j].1@,
            forall|j: int| #![auto] 0 <= j < i ==> wf(out@[j].1),
        decreases entries@.len() - i,
    {
        proof {
            lemma_wf_entries_all(entries@);
        }
        out.push((entries[i].0.clone(), entries[i].1.deep_clone()));
        i += 1;
    }
    proof {
        lemma_entries_map_congruence(out@, entries@);
        lemma_wf_entries_all(entries@);
        lemma_wf_entries_all(out@);
        assert forall|x: int, y: int| 0 <= x < y < out@.len() implies out@[x].0@
            != out@[y].0@ by {
            assert(out@[x].0@ == entries@[x].0@);
            assert(out@[y].0@ == entries@[y].0@);
        }
        assert forall|j: int| 0 <= j < out@.len() implies wf(#[trigger] out@[j].1) by {
            assert(wf(out@[j].1));
        }
    }
    out
}

/// Merges fragment entries into a copy of the document's entries; the
/// executable core of object merge.
fn merge_entries(de: &Vec<(String, Value)>, fe: &Vec<(String, Value)>) -> (out: Vec<
    (String, Value),
>)
    requires
        wf_entries(de@),
        wf_entries(fe@),
    ensures
        wf_entries(out@),
        entries_map(out@) == merge_model(
            ValueModel::Obj(entries_map(de@)),
            ValueModel::Obj(entries_map(fe@)),
        )->Obj_0,
    decreases fe@, 0int,
{
    let ghost dm = entries_map(de@);
    let ghost fm = entries_map(fe@);
    let ghost gm = merge_model(ValueModel::Obj(dm), ValueModel::Obj(fm))->Obj_0;
    let mut out = clone_entries(de);
    let mut i: usize = 0;
    while i < fe.len()
        invariant
            wf_entries(de@),
            wf_entries(fe@),
            wf_entries(out@),
            i <= fe@.len(),
            dm == entries_map(de@),
            fm == entries_map(fe@),
            gm == merge_model(ValueModel::Obj(dm), ValueModel::Obj(fm))->Obj_0,
            forall|k: Seq<char>| #[trigger]
                entries_map(out@).dom().contains(k) <==> (dm.dom().contains(k) || key_in_prefix(
                    fe@,
                    i as int,
                    k,
                )),
            forall|k: Seq<char>| #[trigger]
                key_in_prefix(fe@, i as int, k) ==> entries_map(out@)[k] == gm[k],
            forall|k: Seq<char>|
                dm.dom().contains(k) && !key_in_prefix(fe@, i as int, k)
                    ==> #[trigger] entries_map(out@)[k] == dm[k],
        decreases fe@.len() - i,
    {
        let ghost k = fe@[i as int].0@;
        proof {
            lemma_wf_entries_index(fe@, i as int);
            lemma_entries_map_index(fe@, i as int);
            lemma_entries_map_dom(fe@);
            assert(has_key(fe@, k));
            assert(fm[k] == fe@[i as int].1@);
            if key_in_prefix(fe@, i as int, k) {
                let j = choose|j: int| 0 <= j < i && fe@[j].0@ == k;
                lemma_wf_entries_unique(fe@, j, i as int);
            }
            assert(!key_in_prefix(fe@, i as int, k));
            assert forall|k2: Seq<char>| #[trigger] key_in_prefix(fe@, i + 1, k2) implies (
            key_in_prefix(fe@, i as int, k2) || k2 == k) by {
                let j = choose|j: int| 0 <= j < i + 1 && fe@[j].0@ == k2;
                if j < i {
                    assert(key_in_prefix(fe@, i as int, k2));
                }
            }
            assert(key_in_prefix(fe@, i + 1, k));
        }
        let ghost prev = out@;
        match find_key(&out, &fe[i].0) {
            None => {
                proof {
                    lemma_entries_map_dom(out@);
                    assert(!entries_map(out@).dom().contains(k));
                    assert(!dm.dom().contains(k));
                    assert(gm.dom().contains(k));
                    assert(gm[k] == fm[k]);
                }
                out.push((fe[i].0.clone(), fe[i].1.deep_clone()));
                proof {
                    lemma_entries_map_push(prev, out@.last());
                    lemma_wf_entries_push(prev, out@.last());
                    assert(out@.drop_last() =~= prev);
                    assert(out@ =~= prev.push(out@.last()));
                    assert(entries_map(out@) == entries_map(prev).insert(k, fm[k]));
                }
            },
            Some(j) => {
                proof {
                    lemma_entries_map_dom(out@);
                    lemma_wf_entries_index(out@, j as int);
                    lemma_entries_map_index(out@, j as int);
                    assert(has_key(out@, k));
                    assert(entries_map(out@).dom().contains(k));
                    assert(dm.dom().contains(k));
                    assert(out@[j as int].1@ == dm[k]);
                    assert(gm.dom().contains(k));
                }
                let replacement: Value = if out[j].1.is_object() && fe[i].1.is_object() {
                    proof {
                        assert(gm[k] == merge_model(dm[k], fm[k]));
                    }
                    out[j].1.merge(&fe[i].1)
                } else {
                    proof {
                        assert(gm[k] == fm[k]);
                        assert(merge_model(dm[k], fm[k]) == fm[k]);
                    }
                    fe[i].1.deep_clone()
                };
                let new_key = fe[i].0.clone();
                out[j] = (new_key, replacement);
                proof {
                    assert(out@ =~= prev.update(j as int, out@[j as int]));
                    lemma_entries_map_update(prev, j as int, out@[j as int]);
                    lemma_wf_entries_update(prev, j as int, out@[j as int]);
                    assert(entries_map(out@) == entries_map(prev).insert(k, gm[k]));
                }
            },
        }
        i += 1;
    }
    proof {
        lemma_entries_map_dom(fe@);
        assert forall|k: Seq<char>| #[trigger] gm.dom().contains(k) implies entries_map(
            out@,
        ).dom().contains(k) && entries_map(out@)[k] == gm[k] by {
            if fm.dom().contains(k) {
                assert(has_key(fe@, k));
                let j = choose|j: int| 0 <= j < fe@.len() && fe@[j].0@ == k;
                assert(key_in_prefix(fe@, fe@.len() as int, k));
            } else {
                assert(dm.dom().contains(k));
                if key_in_prefix(fe@, fe@.len() as int, k) {
                    let j = choose|j: int| 0 <= j < fe@.len() && fe@[j].0@ == k;
                    assert(has_key(fe@, k));
                }
                assert(!key_in_prefix(fe@, fe@.len() as int, k));
                assert(gm[k] == dm[k]);
            }
        }
        assert forall|k: Seq<char>| #[trigger] entries_map(out@).dom().contains(k) implies
            gm.dom().contains(k) by {
            if key_in_prefix(fe@, fe@.len() as int, k) {
                let j = choose|j: int| 0 <= j < fe@.len() && fe@[j].0@ == k;
                assert(has_key(fe@, k));
                assert(fm.dom().contains(k));
            }
        }
        assert(entries_map(out@) =~= gm);
    }
    out
}

impl Value {
    /// Recursive merge of a fragment into this document; the executable
    /// form of [`merge_model`].
    pub fn merge(&self, fragment: &Value) -> (r: Value)
        requires
            wf(*self),
            wf(*fragment),
        ensures
            r@ == merge_model(self@, fragment@),
            wf(r),
        decreases *fragment, 1int,
    {
        match (self, fragment) {
            (Value::Obj(de), Value::Obj(fe)) => Value::Obj(merge_entries(de, fe)),
            _ => fragment.deep_clone(),
        }
    }
}

/// Subtracts fragment entries from the document's entries; the executable
/// core of object subtraction.
fn subtract_entries(ce: &Vec<(String, Value)>, fe: &Vec<(String, Value)>) -> (out: Vec<
    (String, Value),
>)
    requires
        wf_entries(ce@),
        wf_entries(fe@),
    ensures
        wf_entries(out@),
        entries_map(out@) == subtract_model(
            ValueModel::Obj(entries_map(ce@)),
            ValueModel::Obj(entries_map(fe@)),
        )->Obj_0,
    decreases ce@, 0int,
{
    let ghost cm = entries_map(ce@);
    let ghost fm = entries_map(fe@);
    let ghost c = ValueModel::Obj(cm);
    let ghost f = ValueModel::Obj(fm);
    let ghost sm = subtract_model(c, f)->Obj_0;
    let mut out: Vec<(String, Value)> = Vec::new();
    let mut i: usize = 0;
    while i < ce.len()
        invariant
            wf_entries(ce@),
            wf_entries(fe@),
            wf_entries(out@),
            i <= ce@.len(),
            cm == entries_map(ce@),
            fm == entries_map(fe@),
            c == ValueModel::Obj(cm),
            f == ValueModel::Obj(fm),
            sm == subtract_model(c, f)->Obj_0,
            forall|k: Seq<char>| #[trigger]
                entries_map(out@).dom().contains(k) <==> (key_in_prefix(ce@, i as int, k)
                    && sm.dom().contains(k)),
            forall|k: Seq<char>| #[trigger]
                entries_map(out@).dom().contains(k) ==> entries_map(out@)[k] == sm[k],
        decreases ce@.len() - i,
    {
        let ghost k = ce@[i as int].0@;
        proof {
            lemma_wf_entries_index(ce@, i as int);
            lemma_entries_map_index(ce@, i as int);
            lemma_entries_map_dom(ce@);
            assert(has_key(ce@, k));
            assert(cm.dom().contains(k));
            assert(cm[k] == ce@[i as int].1@);
            if key_in_prefix(ce@, i as int, k) {
                let j = choose|j: int| 0 <= j < i && ce@[j].0@ == k;
                lemma_wf_entries_unique(ce@, j, i as int);
            }
            assert(!key_in_prefix(ce@, i as int, k));
            assert forall|k2: Seq<char>| #[trigger] key_in_prefix(ce@, i + 1, k2) implies (
            key_in_prefix(ce@, i as int, k2) || k2 == k) by {
                let j = choose|j: int| 0 <= j < i + 1 && ce@[j].0@ == k2;
                if j < i {
                    assert(key_in_prefix(ce@, i as int, k2));
                }
            }
            assert(key_in_prefix(ce@, i + 1, k));
            lemma_entries_map_dom(out@);
            assert(!entries_map(out@).dom().contains(k));
            assert(!has_key(out@, k));
            lemma_entries_map_dom(fe@);
        }
        let ghost prev = out@;
        match find_key(fe, &ce[i].0) {
            None => {
                proof {
                    assert(!fm.dom().contains(k));
                    assert(!subtract_deletes(c, f, k));
                    assert(sm.dom().contains(k));
                    assert(sm[k] == cm[k]);
                }
                out.push((ce[i].0.clone(), ce[i].1.deep_clone()));
                proof {
                    lemma_entries_map_push(prev, out@.last());
                    lemma_wf_entries_push(prev, out@.last());
                    assert(out@.drop_last() =~= prev);
                    assert(out@ =~= prev.push(out@.last()));
                    assert(entries_map(out@) == entries_map(prev).insert(k, cm[k]));
                }
            },
            Some(j) => {
                proof {
                    lemma_wf_entries_index(fe@, j as int);
                    lemma_entries_map_index(fe@, j as int);
                    assert(fe@[j as int].0@ == k);
                    assert(has_key(fe@, k));
                    assert(fm.dom().contains(k));
                    assert(fm[k] == fe@[j as int].1@);
                }
                if ce[i].1.deep_eq(&fe[j].1) {
                    proof {
                        assert(cm[k] == fm[k]);
                        assert(subtract_deletes(c, f, k));
                        assert(!sm.dom().contains(k));
                    }
                } else if ce[i].1.is_object() && fe[j].1.is_object() {
                    let s = ce[i].1.subtract(&fe[j].1);
                    if s.is_empty_object() {
                        proof {
                            assert(subtract_model(cm[k], fm[k]) == empty_object_model());
                            assert(subtract_deletes(c, f, k));
                            assert(!sm.dom().contains(k));
                        }
                    } else {
                        proof {
                            assert(!subtract_deletes(c, f, k));
                            assert(sm.dom().contains(k));
                            assert(sm[k] == subtract_model(cm[k], fm[k]));
                        }
                        out.push((ce[i].0.clone(), s));
                        proof {
                            lemma_entries_map_push(prev, out@.last());
                            lemma_wf_entries_push(prev, out@.last());
                            assert(out@.drop_last() =~= prev);
                            assert(out@ =~= prev.push(out@.last()));
                            assert(entries_map(out@) == entries_map(prev).insert(k, sm[k]));
                        }
                    }
                } else {
                    proof {
                        assert(!(cm[k] is Obj && fm[k] is Obj));
                        assert(!subtract_deletes(c, f, k));
                        assert(sm.dom().contains(k));
                        assert(sm[k] == cm[k]);
                    }
                    out.push((ce[i].0.clone(), ce[i].1.deep_clone()));
                    proof {
                        lemma_entries_map_push(prev, out@.last());
                        lemma_wf_entries_push(prev, out@.last());
                        assert(out@.drop_last() =~= prev);
                        assert(out@ =~= prev.push(out@.last()));
                        assert(entries_map(out@) == entries_map(prev).insert(k, cm[k]));
                    }
                }
            },
        }
        i += 1;
    }
    proof {
        lemma_entries_map_dom(ce@);
        assert forall|k: Seq<char>| #[trigger] sm.dom().contains(k) implies entries_map(
            out@,
        ).dom().contains(k) && entries_map(out@)[k] == sm[k] by {
            assert(cm.dom().contains(k));
            assert(has_key(ce@, k));
            let j = choose|j: int| 0 <= j < ce@.len() && ce@[j].0@ == k;
            assert(key_in_prefix(ce@, ce@.len() as int, k));
        }
        assert(entries_map(out@) =~= sm);
    }
    out
}

impl Value {
    /// Sets a top-level binding of an object, replacing any present one.
    pub fn insert_key(&mut self, key: String, val: Value)
        requires
            old(self)@ is Obj,
            wf(*old(self)),
            wf(val),
        ensures
            final(self)@ == ValueModel::Obj(old(self)@->Obj_0.insert(key@, val@)),
            wf(*final(self)),
    {
        match self {
            Value::Obj(entries) => {
                let ghost prev = entries@;
                match find_key(entries, &key) {
                    Some(j) => {
                        entries[j] = (key, val);
                        proof {
                            assert(entries@ =~= prev.update(j as int, entries@[j as int]));
                            lemma_entries_map_update(prev, j as int, entries@[j as int]);
                            lemma_wf_entries_update(prev, j as int, entries@[j as int]);
                        }
                    },
                    None => {
                        entries.push((key, val));
                        proof {
                            lemma_entries_map_push(prev, entries@.last());
                            lemma_wf_entries_push(prev, entries@.last());
                            assert(entries@.drop_last() =~= prev);
                            assert(entries@ =~= prev.push(entries@.last()));
                        }
                    },
                }
            },
            _ => {
                proof {
                    assert(false);
                }
            },
        }
    }

    /// Removes a top-level binding of an object; absent keys are left be.
    pub fn remove_key(&mut self, key: &String)
        requires
            old(self)@ is Obj,
            wf(*old(self)),
        ensures
            final(self)@ == ValueModel::Obj(old(self)@->Obj_0.remove(key@)),
            wf(*final(self)),
    {
        match self {
            Value::Obj(entries) => {
                let ghost prev = entries@;
                match find_key(entries, key) {
                    Some(j) => {
                        entries.remove(j);
                        proof {
                            lemma_entries_map_remove(prev, j as int);
                        }
                    },
                    None => {
                        proof {
                            lemma_entries_map_dom(entries@);
                            assert(!entries_map(entries@).dom().contains(key@));
                            assert(entries_map(entries@).remove(key@) =~= entries_map(entries@));
                        }
                    },
                }
            },
            _ => {
                proof {
                    assert(false);
                }
            },
        }
    }

    /// Runtime well-formedness check, for documents built outside the
    /// library: object keys must be unique, recursively.
    pub fn check_wf(&self) -> (r: bool)
        ensures
            r == wf(*self),
        decreases *self,
    {
        match self {
            Value::Arr(items) => {
                let mut i: usize = 0;
                while i < items.len()
                    invariant
                        self == Value::Arr(*items),
                        i <= items@.len(),
                        forall|j: int| 0 <= j < i ==> wf(#[trigger] items@[j]),
                    decreases items@.len() - i,
                {
                    proof {
                        assert(*items == self->Arr_0);
                        assert(decreases_to!(*self => self->Arr_0));
                        assert(decreases_to!(*items => items@));
                        assert(decreases_to!(items@ => items@[i as int]));
                        assert(decreases_to!(*self => items@[i as int]));
                    }
                    if !items[i].check_wf() {
                        proof {
                            lemma_wf_items_all(items@);
                        }
                        return false;
                    }
                    i += 1;
                }
                proof {
                    lemma_wf_items_all(items@);
                }
                true
            },
            Value::Obj(entries) => {
                let mut i: usize = 0;
                while i < entries.len()
                    invariant
                        self == Value::Obj(*entries),
                        i <= entries@.len(),
                        forall|j: int| 0 <= j < i ==> wf(#[trigger] entries@[j].1),
                        forall|x: int, y: int|
                            0 <= x < y < i ==> entries@[x].0@ != entries@[y].0@,
                    decreases entries@.len() - i,
                {
                    proof {
                        assert(*entries == self->Obj_0);
                        assert(decreases_to!(*self => self->Obj_0));
                        assert(decreases_to!(*entries => entries@));
                        assert(decreases_to!(entries@ => entries@[i as int].1));
                        assert(decreases_to!(*self => entries@[i as int].1));
                    }
                    if !entries[i].1.check_wf() {
                        proof {
                            lemma_wf_entries_all(entries@);
                        }
                        return false;
                    }
                    let mut j: usize = 0;
                    while j < i
                        invariant
                            self == Value::Obj(*entries),
                            j <= i < entries@.len(),
                            forall|x: int| 0 <= x < j ==> entries@[x].0@ != entries@[i as int].0@,
                        decreases i - j,
                    {
                        if entries[j].0.eq(&entries[i].0) {
                            proof {
                                lemma_wf_entries_all(entries@);
                            }
                            return false;
                        }
                        j += 1;
                    }
                    i += 1;
                }
                proof {
                    lemma_wf_entries_all(entries@);
                }
                true
            },
            _ => true,
        }
    }

    /// Recursive subtraction of a fragment from this document; the
    /// executable form of [`subtract_model`].
    pub fn subtract(&self, fragment: &Value) -> (r: Value)
        requires
            wf(*self),
            wf(*fragment),
        ensures
            r@ == subtract_model(self@, fragment@),
            wf(r),
        decreases *self, 1int,
    {
        match (self, fragment) {
            (Value::Obj(ce), Value::Obj(fe)) => Value::Obj(subtract_entries(ce, fe)),
            _ => self.deep_clone(),
        }
    }
}

/// Removing the entry that holds a key removes that key from the model.
pub proof fn lemma_entries_map_remove(s: Seq<(String, Value)>, j: int)
    requires
        wf_entries(s),
        0 <= j < s.len(),
    ensures
        wf_entries(s.remove(j)),
        entries_map(s.remove(j)) == entries_map(s).remove(s[j].0@),
    decreases s,
{
    s.remove_ensures(j);
    lemma_entries_map_dom(s.drop_last());
    if j == s.len() - 1 {
        assert(s.remove(j) =~= s.drop_last());
        assert(!has_key(s.drop_last(), s.last().0@));
        assert(!entries_map(s.drop_last()).dom().contains(s.last().0@));
        assert(entries_map(s) == entries_map(s.drop_last()).insert(s.last().0@, s.last().1@));
        assert(entries_map(s).remove(s.last().0@) =~= entries_map(s.drop_last()));
    } else {
        lemma_entries_map_remove(s.drop_last(), j);
        lemma_wf_entries_unique(s, j, s.len() - 1);
        s.drop_last().remove_ensures(j);
        assert(s.remove(j).drop_last() =~= s.drop_last().remove(j));
        assert(s.remove(j).last() == s.last());
        let kj = s[j].0@;
        assert(entries_map(s.remove(j)) == entries_map(s.drop_last().remove(j)).insert(
            s.last().0@,
            s.last().1@,
        ));
        assert(entries_map(s.drop_last()).remove(kj).insert(s.last().0@, s.last().1@)
            =~= entries_map(s.drop_last()).insert(s.last().0@, s.last().1@).remove(kj));
        assert(wf_entries(s.remove(j))) by {
            assert(wf_entries(s.drop_last().remove(j)));
            assert(wf(s.last().1));
            if has_key(s.drop_last().remove(j), s.last().0@) {
                let x = choose|x: int|
                    0 <= x < s.drop_last().remove(j).len() && s.drop_last().remove(j)[x].0@
                        == s.last().0@;
                if x < j {
                    assert(s.drop_last()[x].0@ == s.last().0@);
                } else {
                    assert(s.drop_last()[x + 1].0@ == s.last().0@);
                }
                assert(has_key(s.drop_last(), s.last().0@));
            }
        }
    }
}

/// Two entry lists with equal keys and equal child models have one model.
pub proof fn lemma_entries_map_congruence(a: Seq<(String, Value)>, b: Seq<(String, Value)>)
    requires
        a.len() == b.len(),
        forall|i: int| #![auto] 0 <= i < a.len() ==> a[i].0@ == b[i].0@,
        forall|i: int| #![auto] 0 <= i < a.len() ==> a[i].1@ == b[i].1@,
    ensures
        entries_map(a) == entries_map(b),
    decreases a,
{
    if a.len() > 0 {
        assert(forall|i: int| #![auto] 0 <= i < a.len() - 1 ==> a.drop_last()[i] == a[i]
            && b.drop_last()[i] == b[i]);
        lemma_entries_map_congruence(a.drop_last(), b.drop_last());
        assert(a.last().0@ == b.last().0@ && a.last().1@ == b.last().1@);
    }
}

} // verus!
