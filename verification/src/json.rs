use vstd::prelude::*;
use crate::error::AppError;

verus! {

broadcast use vstd::std_specs::vec::group_vec_axioms;

/// Mathematical model of a JSON document.
///
/// Numbers that are not 64-bit integers are kept as their literal text: the
/// plugin machinery never computes with them, it only stores and copies them.
#[verifier::ext_equal]
pub enum JsonVal {
    Null,
    Bool(bool),
    Int(i64),
    Num(Seq<char>),
    Str(Seq<char>),
    Arr(Seq<JsonVal>),
    Obj(Seq<(Seq<char>, JsonVal)>),
}

/// A JSON document as held at run time.
///
/// Objects are association lists in insertion order; an object is well formed
/// when its keys are distinct.  Numbers outside the 64-bit integer range are
/// carried as their literal text.
#[derive(Debug)]
pub enum JsonValue {
    Null,
    Bool(bool),
    Int(i64),
    Num(String),
    Str(String),
    Array(Vec<JsonValue>),
    Object(Vec<(String, JsonValue)>),
}

/// The model of a run-time JSON document.
pub open spec fn jview(v: JsonValue) -> JsonVal
    decreases v,
{
    match v {
        JsonValue::Null => JsonVal::Null,
        JsonValue::Bool(b) => JsonVal::Bool(b),
        JsonValue::Int(i) => JsonVal::Int(i),
        JsonValue::Num(s) => JsonVal::Num(s@),
        JsonValue::Str(s) => JsonVal::Str(s@),
        JsonValue::Array(items) => JsonVal::Arr(jview_arr(items@)),
        JsonValue::Object(fields) => JsonVal::Obj(jview_obj(fields@)),
    }
}

/// The models of the elements of a JSON array.
pub open spec fn jview_arr(items: Seq<JsonValue>) -> Seq<JsonVal>
    decreases items,
{
    if items.len() == 0 {
        Seq::empty()
    } else {
        jview_arr(items.drop_last()).push(jview(items.last()))
    }
}

/// The models of the fields of a JSON object.
pub open spec fn jview_obj(fields: Seq<(String, JsonValue)>) -> Seq<(Seq<char>, JsonVal)>
    decreases fields,
{
    if fields.len() == 0 {
        Seq::empty()
    } else {
        jview_obj(fields.drop_last()).push((fields.last().0@, jview(fields.last().1)))
    }
}

/// The element models line up index by index with the elements.
pub proof fn lemma_jview_arr_index(items: Seq<JsonValue>)
    ensures
        jview_arr(items).len() == items.len(),
        forall|i: int| 0 <= i < items.len() ==> #[trigger] jview_arr(items)[i] == jview(items[i]),
    decreases items,
{
    if items.len() > 0 {
        lemma_jview_arr_index(items.drop_last());
    }
}

/// The field models line up index by index with the fields.
pub proof fn lemma_jview_obj_index(fields: Seq<(String, JsonValue)>)
    ensures
        jview_obj(fields).len() == fields.len(),
        forall|i: int| 0 <= i < fields.len() ==> #[trigger] jview_obj(fields)[i] == (
            fields[i].0@,
            jview(fields[i].1),
        ),
    decreases fields,
{
    if fields.len() > 0 {
        lemma_jview_obj_index(fields.drop_last());
    }
}

impl View for JsonValue {
    type V = JsonVal;

    open spec fn view(&self) -> JsonVal {
        jview(*self)
    }
}

impl JsonValue {
    /// An empty JSON object.
    pub fn empty_object() -> (r: JsonValue)
        ensures
            r@ == JsonVal::Obj(Seq::<(Seq<char>, JsonVal)>::empty()),
    {
        let r = JsonValue::Object(Vec::new());
        proof {
            assert(jview(r) =~= JsonVal::Obj(Seq::<(Seq<char>, JsonVal)>::empty()));
        }
        r
    }
}

impl Clone for JsonValue {
    /// Deep copy; the copy has the same model as the source value.
    fn clone(&self) -> (r: Self)
        ensures
            r@ == self@,
        decreases *self,
    {
        match self {
            JsonValue::Null => JsonValue::Null,
            JsonValue::Bool(b) => JsonValue::Bool(*b),
            JsonValue::Int(i) => JsonValue::Int(*i),
            JsonValue::Num(s) => JsonValue::Num(s.clone()),
            JsonValue::Str(s) => JsonValue::Str(s.clone()),
            JsonValue::Array(items) => {
                let mut out: Vec<JsonValue> = Vec::new();
                let mut i: usize = 0;
                while i < items.len()
                    invariant
                        *self == JsonValue::Array(*items),
                        0 <= i <= items@.len(),
                        out@.len() == i,
                        forall|j: int| 0 <= j < i ==> #[trigger] jview(out@[j]) == jview(items@[j]),
                    decreases items@.len() - i,
                {
                    proof {
                        assert(decreases_to!(*self => self->Array_0));
                        assert(decreases_to!(self->Array_0 => self->Array_0[i as int]));
                    }
                    let item = &items[i];
                    out.push(item.clone());
                    i = i + 1;
                }
                let r = JsonValue::Array(out);
                proof {
                    lemma_jview_arr_index(out@);
                    lemma_jview_arr_index(items@);
                    assert(jview_arr(out@) =~= jview_arr(items@));
                }
                r
            }
            JsonValue::Object(fields) => {
                let mut out: Vec<(String, JsonValue)> = Vec::new();
                let mut i: usize = 0;
                while i < fields.len()
                    invariant
                        *self == JsonValue::Object(*fields),
                        0 <= i <= fields@.len(),
                        out@.len() == i,
                        forall|j: int| 0 <= j < i ==> #[trigger] out@[j].0@ == fields@[j].0@
                            && jview(out@[j].1) == jview(fields@[j].1),
                    decreases fields@.len() - i,
                {
                    proof {
                        assert(decreases_to!(*self => self->Object_0));
                        assert(decreases_to!(self->Object_0 => self->Object_0[i as int]));
                        assert(decreases_to!(self->Object_0[i as int] => self->Object_0[i as int].1));
                    }
                    let entry = &fields[i];
                    out.push((entry.0.clone(), entry.1.clone()));
                    i = i + 1;
                }
                let r = JsonValue::Object(out);
                proof {
                    lemma_jview_obj_index(out@);
                    lemma_jview_obj_index(fields@);
                    assert(jview_obj(out@) =~= jview_obj(fields@));
                }
                r
            }
        }
    }
}

/// The views of a key path, one segment per element.
pub open spec fn keys_view(keys: Seq<String>) -> Seq<Seq<char>> {
    Seq::new(keys.len(), |i: int| keys[i]@)
}

/// Value bound to `k` in an object's field list: the first binding wins.
pub open spec fn obj_lookup(fields: Seq<(Seq<char>, JsonVal)>, k: Seq<char>) -> Option<JsonVal>
    decreases fields.len(),
{
    if fields.len() == 0 {
        None
    } else if fields[0].0 == k {
        Some(fields[0].1)
    } else {
        obj_lookup(fields.drop_first(), k)
    }
}

/// Binds `k` to `v`: replaces the first binding of `k` in place, or appends
/// a new binding at the end.
pub open spec fn obj_set(
    fields: Seq<(Seq<char>, JsonVal)>,
    k: Seq<char>,
    v: JsonVal,
) -> Seq<(Seq<char>, JsonVal)>
    decreases fields.len(),
{
    if fields.len() == 0 {
        seq![(k, v)]
    } else if fields[0].0 == k {
        seq![(k, v)] + fields.drop_first()
    } else {
        seq![fields[0]] + obj_set(fields.drop_first(), k, v)
    }
}

/// Removes the first binding of `k`, if any.
pub open spec fn obj_remove(
    fields: Seq<(Seq<char>, JsonVal)>,
    k: Seq<char>,
) -> Seq<(Seq<char>, JsonVal)>
    decreases fields.len(),
{
    if fields.len() == 0 {
        fields
    } else if fields[0].0 == k {
        fields.drop_first()
    } else {
        seq![fields[0]] + obj_remove(fields.drop_first(), k)
    }
}

/// Walks a document along a key path; the empty path yields the whole
/// document, a missing key or a non-object along the way yields nothing.
pub open spec fn path_get(v: JsonVal, keys: Seq<Seq<char>>) -> Option<JsonVal>
    decreases keys.len(),
{
    if keys.len() == 0 {
        Some(v)
    } else {
        match v {
            JsonVal::Obj(fields) => match obj_lookup(fields, keys[0]) {
                Some(child) => path_get(child, keys.drop_first()),
                None => None,
            },
            _ => None,
        }
    }
}

/// Assigns `val` at the end of a non-empty key path, creating missing
/// intermediate objects; a non-object met along the way yields nothing.
pub open spec fn path_set(v: JsonVal, keys: Seq<Seq<char>>, val: JsonVal) -> Option<JsonVal>
    decreases keys.len(),
{
    if keys.len() == 0 {
        Some(val)
    } else {
        match v {
            JsonVal::Obj(fields) => {
                if keys.len() == 1 {
                    Some(JsonVal::Obj(obj_set(fields, keys[0], val)))
                } else {
                    let child = match obj_lookup(fields, keys[0]) {
                        Some(c) => c,
                        None => JsonVal::Obj(Seq::empty()),
                    };
                    match child {
                        JsonVal::Obj(_) => match path_set(child, keys.drop_first(), val) {
                            Some(newchild) => Some(
                                JsonVal::Obj(obj_set(fields, keys[0], newchild)),
                            ),
                            None => None,
                        },
                        _ => None,
                    }
                }
            }
            _ => None,
        }
    }
}

/// Removes the binding at the end of a non-empty key path; an absent or
/// non-object intermediate segment yields nothing, while removing an absent
/// final key leaves the parent object as it is.
pub open spec fn path_delete(v: JsonVal, keys: Seq<Seq<char>>) -> Option<JsonVal>
    decreases keys.len(),
{
    match v {
        JsonVal::Obj(fields) => {
            if keys.len() <= 1 {
                Some(JsonVal::Obj(obj_remove(fields, keys[0])))
            } else {
                match obj_lookup(fields, keys[0]) {
                    Some(child) => match path_delete(child, keys.drop_first()) {
                        Some(newchild) => Some(JsonVal::Obj(obj_set(fields, keys[0], newchild))),
                        None => None,
                    },
                    None => None,
                }
            }
        }
        _ => None,
    }
}

/// Among the inputs on which `path_delete` yields nothing, those where the
/// walk met an absent intermediate key (rather than a value that is not an
/// object).
pub open spec fn delete_hits_missing_key(v: JsonVal, keys: Seq<Seq<char>>) -> bool
    decreases keys.len(),
{
    match v {
        JsonVal::Obj(fields) => {
            if keys.len() <= 1 {
                false
            } else {
                match obj_lookup(fields, keys[0]) {
                    Some(child) => delete_hits_missing_key(child, keys.drop_first()),
                    None => true,
                }
            }
        }
        _ => false,
    }
}

/// `j` is the index of the first binding of `k`.
pub open spec fn first_match(fields: Seq<(Seq<char>, JsonVal)>, k: Seq<char>, j: int) -> bool {
    &&& 0 <= j < fields.len()
    &&& fields[j].0 == k
    &&& forall|l: int| 0 <= l < j ==> (#[trigger] fields[l]).0 != k
}

/// No binding of `k` at all.
pub open spec fn no_match(fields: Seq<(Seq<char>, JsonVal)>, k: Seq<char>) -> bool {
    forall|l: int| 0 <= l < fields.len() ==> (#[trigger] fields[l]).0 != k
}

pub proof fn lemma_obj_lookup_first(fields: Seq<(Seq<char>, JsonVal)>, k: Seq<char>, j: int)
    requires
        first_match(fields, k, j),
    ensures
        obj_lookup(fields, k) == Some(fields[j].1),
    decreases j,
{
    if j > 0 {
        lemma_obj_lookup_first(fields.drop_first(), k, j - 1);
    }
}

pub proof fn lemma_obj_lookup_none(fields: Seq<(Seq<char>, JsonVal)>, k: Seq<char>)
    requires
        no_match(fields, k),
    ensures
        obj_lookup(fields, k) is None,
    decreases fields.len(),
{
    if fields.len() > 0 {
        lemma_obj_lookup_none(fields.drop_first(), k);
    }
}

pub proof fn lemma_obj_set_first(
    fields: Seq<(Seq<char>, JsonVal)>,
    k: Seq<char>,
    v: JsonVal,
    j: int,
)
    requires
        first_match(fields, k, j),
    ensures
        obj_set(fields, k, v) == fields.update(j, (k, v)),
    decreases j,
{
    if j == 0 {
        assert(seq![(k, v)] + fields.drop_first() =~= fields.update(0, (k, v)));
    } else {
        lemma_obj_set_first(fields.drop_first(), k, v, j - 1);
        assert(seq![fields[0]] + fields.drop_first().update(j - 1, (k, v)) =~= fields.update(
            j,
            (k, v),
        ));
    }
}

pub proof fn lemma_obj_set_absent(fields: Seq<(Seq<char>, JsonVal)>, k: Seq<char>, v: JsonVal)
    requires
        no_match(fields, k),
    ensures
        obj_set(fields, k, v) == fields.push((k, v)),
    decreases fields.len(),
{
    if fields.len() == 0 {
        assert(seq![(k, v)] =~= fields.push((k, v)));
    } else {
        lemma_obj_set_absent(fields.drop_first(), k, v);
        assert(seq![fields[0]] + fields.drop_first().push((k, v)) =~= fields.push((k, v)));
    }
}

pub proof fn lemma_obj_remove_first(fields: Seq<(Seq<char>, JsonVal)>, k: Seq<char>, j: int)
    requires
        first_match(fields, k, j),
    ensures
        obj_remove(fields, k) == fields.remove(j),
    decreases j,
{
    if j == 0 {
        assert(fields.drop_first() =~= fields.remove(0));
    } else {
        lemma_obj_remove_first(fields.drop_first(), k, j - 1);
        assert(seq![fields[0]] + fields.drop_first().remove(j - 1) =~= fields.remove(j));
    }
}

pub proof fn lemma_obj_remove_absent(fields: Seq<(Seq<char>, JsonVal)>, k: Seq<char>)
    requires
        no_match(fields, k),
    ensures
        obj_remove(fields, k) == fields,
    decreases fields.len(),
{
    if fields.len() > 0 {
        lemma_obj_remove_absent(fields.drop_first(), k);
        assert(seq![fields[0]] + fields.drop_first() =~= fields);
    }
}

/// Index of the first field named `key`, if any.
fn find_field(fields: &Vec<(String, JsonValue)>, key: &String) -> (r: Option<usize>)
    ensures
        match r {
            Some(j) => first_match(jview_obj(fields@), key@, j as int),
            None => no_match(jview_obj(fields@), key@),
        },
{
    proof {
        lemma_jview_obj_index(fields@);
    }
    let mut i: usize = 0;
    while i < fields.len()
        invariant
            0 <= i <= fields@.len(),
            jview_obj(fields@).len() == fields@.len(),
            forall|l: int| 0 <= l < fields@.len() ==> #[trigger] jview_obj(fields@)[l] == (
                fields@[l].0@,
                jview(fields@[l].1),
            ),
            forall|l: int| 0 <= l < i ==> (#[trigger] jview_obj(fields@)[l]).0 != key@,
        decreases fields@.len() - i,
    {
        if fields[i].0 == *key {
            return Some(i);
        }
        i = i + 1;
    }
    None
}

/// Deep copy of an object's field list.
fn clone_fields(fields: &Vec<(String, JsonValue)>) -> (r: Vec<(String, JsonValue)>)
    ensures
        r@.len() == fields@.len(),
        forall|j: int| 0 <= j < fields@.len() ==> (#[trigger] r@[j]).0@ == fields@[j].0@ && jview(
            r@[j].1,
        ) == jview(fields@[j].1),
        jview_obj(r@) == jview_obj(fields@),
    decreases *fields,
{
    let mut out: Vec<(String, JsonValue)> = Vec::new();
    let mut i: usize = 0;
    while i < fields.len()
        invariant
            0 <= i <= fields@.len(),
            out@.len() == i,
            forall|j: int| 0 <= j < i ==> (#[trigger] out@[j]).0@ == fields@[j].0@ && jview(
                out@[j].1,
            ) == jview(fields@[j].1),
        decreases fields@.len() - i,
    {
        proof {
            assert(decreases_to!(*fields => fields[i as int]));
            assert(decreases_to!(fields[i as int] => fields[i as int].1));
        }
        let entry = &fields[i];
        out.push((entry.0.clone(), entry.1.clone()));
        i = i + 1;
    }
    proof {
        lemma_jview_obj_index(out@);
        lemma_jview_obj_index(fields@);
        assert(jview_obj(out@) =~= jview_obj(fields@));
    }
    out
}

/// Message used when a key path is empty but one segment is required.
pub open spec fn empty_key_path_message() -> Seq<char> {
    "key path is empty"@
}

/// Message used when a key path runs into a missing key, naming it.
pub open spec fn key_not_found_message(k: Seq<char>) -> Seq<char> {
    "key not found: "@ + k
}

/// The key at which a failing walk stops: the first key that is absent, or
/// that is looked up in a value that is not an object.  Meaningful when
/// `path_get` yields nothing.
pub open spec fn first_missing_key(v: JsonVal, keys: Seq<Seq<char>>) -> Seq<char>
    decreases keys.len(),
{
    if keys.len() == 0 {
        Seq::empty()
    } else {
        match v {
            JsonVal::Obj(fields) => match obj_lookup(fields, keys[0]) {
                Some(child) => first_missing_key(child, keys.drop_first()),
                None => keys[0],
            },
            _ => keys[0],
        }
    }
}

/// The absent intermediate key at which a failing removal stops.
/// Meaningful when `delete_hits_missing_key` holds.
pub open spec fn delete_missing_key(v: JsonVal, keys: Seq<Seq<char>>) -> Seq<char>
    decreases keys.len(),
{
    match v {
        JsonVal::Obj(fields) => if keys.len() <= 1 {
            Seq::empty()
        } else {
            match obj_lookup(fields, keys[0]) {
                Some(child) => delete_missing_key(child, keys.drop_first()),
                None => keys[0],
            }
        },
        _ => Seq::empty(),
    }
}

/// Message used when a key path runs into a value that is not an object.
pub open spec fn non_object_message() -> Seq<char> {
    "key path runs into a value that is not an object"@
}

/// Reads the value at a key path; the empty path returns the whole document.
///
/// Fails with `NotFound` exactly when the walk meets a missing key or a
/// value that is not an object, and the message names the key at which the
/// walk stopped.
pub fn get_path(v: &JsonValue, keys: &Vec<String>) -> (r: Result<JsonValue, AppError>)
    ensures
        match path_get(v@, keys_view(keys@)) {
            Some(found) => r matches Ok(g) && g@ == found,
            None => r matches Err(e) && e matches AppError::NotFound(m) && m@
                == key_not_found_message(first_missing_key(v@, keys_view(keys@))),
        },
{
    let ghost all_keys = keys_view(keys@);
    proof {
        assert(all_keys.skip(0) =~= all_keys);
    }
    let mut cur: &JsonValue = v;
    let mut i: usize = 0;
    while i < keys.len()
        invariant
            0 <= i <= keys@.len(),
            all_keys == keys_view(keys@),
            path_get(v@, all_keys) == path_get(cur@, all_keys.skip(i as int)),
            first_missing_key(v@, all_keys) == first_missing_key(cur@, all_keys.skip(i as int)),
        decreases keys@.len() - i,
    {
        let ghost rest = all_keys.skip(i as int);
        proof {
            assert(rest.len() == keys@.len() - i);
            assert(rest[0] == keys@[i as int]@);
            assert(rest.drop_first() =~= all_keys.skip(i as int + 1));
        }
        match cur {
            JsonValue::Object(fields) => {
                match find_field(fields, &keys[i]) {
                    Some(j) => {
                        proof {
                            lemma_jview_obj_index(fields@);
                            lemma_obj_lookup_first(jview_obj(fields@), keys@[i as int]@, j as int);
                        }
                        cur = &fields[j].1;
                        i = i + 1;
                    }
                    None => {
                        proof {
                            lemma_obj_lookup_none(jview_obj(fields@), keys@[i as int]@);
                        }
                        let mut m = "key not found: ".to_owned();
                        m.append(keys[i].as_str());
                        return Err(AppError::NotFound(m));
                    }
                }
            }
            _ => {
                let mut m = "key not found: ".to_owned();
                m.append(keys[i].as_str());
                return Err(AppError::NotFound(m));
            }
        }
    }
    proof {
        assert(all_keys.skip(i as int) =~= Seq::<Seq<char>>::empty());
    }
    Ok(cur.clone())
}

/// Assigns `val` at a key path, creating missing intermediate objects.
///
/// Fails with `Validation` exactly when the path is empty or the walk meets
/// a value that is not an object.
pub fn set_path(v: &JsonValue, keys: &Vec<String>, val: JsonValue) -> (r: Result<
    JsonValue,
    AppError,
>)
    ensures
        keys@.len() == 0 ==> (r matches Err(e) && e matches AppError::Validation(m) && m@
            == empty_key_path_message()),
        keys@.len() > 0 ==> match path_set(v@, keys_view(keys@), val@) {
            Some(newv) => r matches Ok(x) && x@ == newv,
            None => r matches Err(e) && e matches AppError::Validation(m) && m@
                == non_object_message(),
        },
{
    if keys.len() == 0 {
        return Err(AppError::Validation("key path is empty".to_owned()));
    }
    proof {
        assert(keys_view(keys@).skip(0) =~= keys_view(keys@));
    }
    set_from(v, keys, 0, val)
}

fn set_from(v: &JsonValue, keys: &Vec<String>, from: usize, val: JsonValue) -> (r: Result<
    JsonValue,
    AppError,
>)
    requires
        from < keys@.len(),
    ensures
        match path_set(v@, keys_view(keys@).skip(from as int), val@) {
            Some(newv) => r matches Ok(x) && x@ == newv,
            None => r matches Err(e) && e matches AppError::Validation(m) && m@
                == non_object_message(),
        },
    decreases keys@.len() - from,
{
    let ghost rest = keys_view(keys@).skip(from as int);
    proof {
        assert(rest.len() == keys@.len() - from);
        assert(rest[0] == keys@[from as int]@);
        assert(rest.drop_first() =~= keys_view(keys@).skip(from as int + 1));
    }
    match v {
        JsonValue::Object(fields) => {
            let key = &keys[from];
            let jopt = find_field(fields, key);
            let n = keys.len();
            assert(from < n);
            let last = from + 1 == n;
            let newchild: JsonValue;
            if last {
                newchild = val;
            } else {
                match jopt {
                    Some(j) => {
                        proof {
                            lemma_jview_obj_index(fields@);
                            lemma_obj_lookup_first(jview_obj(fields@), key@, j as int);
                        }
                        let child = &fields[j].1;
                        match child {
                            JsonValue::Object(_) => {}
                            _ => {
                                return Err(AppError::Validation(
                                    "key path runs into a value that is not an object".to_owned(),
                                ));
                            }
                        }
                        match set_from(child, keys, from + 1, val) {
                            Ok(c) => {
                                newchild = c;
                            }
                            Err(e) => {
                                return Err(e);
                            }
                        }
                    }
                    None => {
                        proof {
                            lemma_obj_lookup_none(jview_obj(fields@), key@);
                        }
                        let emptyv = JsonValue::empty_object();
                        match set_from(&emptyv, keys, from + 1, val) {
                            Ok(c) => {
                                newchild = c;
                            }
                            Err(e) => {
                                return Err(e);
                            }
                        }
                    }
                }
            }
            let ghost newchild_v = jview(newchild);
            let mut out = clone_fields(fields);
            proof {
                lemma_jview_obj_index(fields@);
            }
            match jopt {
                Some(j) => {
                    out.remove(j);
                    out.insert(j, (key.clone(), newchild));
                    proof {
                        lemma_jview_obj_index(out@);
                        lemma_jview_obj_index(fields@);
                        lemma_obj_set_first(jview_obj(fields@), key@, newchild_v, j as int);
                        assert(jview_obj(out@) =~= jview_obj(fields@).update(
                            j as int,
                            (key@, newchild_v),
                        ));
                    }
                }
                None => {
                    out.push((key.clone(), newchild));
                    proof {
                        lemma_jview_obj_index(out@);
                        lemma_jview_obj_index(fields@);
                        lemma_obj_set_absent(jview_obj(fields@), key@, newchild_v);
                        assert(jview_obj(out@) =~= jview_obj(fields@).push((key@, newchild_v)));
                    }
                }
            }
            Ok(JsonValue::Object(out))
        }
        _ => Err(AppError::Validation(
            "key path runs into a value that is not an object".to_owned(),
        )),
    }
}

/// Removes the binding at a non-empty key path.
///
/// Removing an absent final key succeeds and leaves the document unchanged;
/// an absent intermediate key fails with `NotFound`, naming it, a value that
/// is not an object fails with `Validation`, and an empty path fails with
/// `Validation`.
pub fn delete_path(v: &JsonValue, keys: &Vec<String>) -> (r: Result<JsonValue, AppError>)
    ensures
        keys@.len() == 0 ==> (r matches Err(e) && e matches AppError::Validation(m) && m@
            == empty_key_path_message()),
        keys@.len() > 0 ==> match path_delete(v@, keys_view(keys@)) {
            Some(newv) => r matches Ok(x) && x@ == newv,
            None => r matches Err(e) && (if delete_hits_missing_key(v@, keys_view(keys@)) {
                e matches AppError::NotFound(m) && m@ == key_not_found_message(
                    delete_missing_key(v@, keys_view(keys@)),
                )
            } else {
                e matches AppError::Validation(m) && m@ == non_object_message()
            }),
        },
{
    if keys.len() == 0 {
        return Err(AppError::Validation("key path is empty".to_owned()));
    }
    proof {
        assert(keys_view(keys@).skip(0) =~= keys_view(keys@));
    }
    delete_from(v, keys, 0)
}

fn delete_from(v: &JsonValue, keys: &Vec<String>, from: usize) -> (r: Result<JsonValue, AppError>)
    requires
        from < keys@.len(),
    ensures
        match path_delete(v@, keys_view(keys@).skip(from as int)) {
            Some(newv) => r matches Ok(x) && x@ == newv,
            None => r matches Err(e) && (if delete_hits_missing_key(
                v@,
                keys_view(keys@).skip(from as int),
            ) {
                e matches AppError::NotFound(m) && m@ == key_not_found_message(
                    delete_missing_key(v@, keys_view(keys@).skip(from as int)),
                )
            } else {
                e matches AppError::Validation(m) && m@ == non_object_message()
            }),
        },
    decreases keys@.len() - from,
{
    let ghost rest = keys_view(keys@).skip(from as int);
    proof {
        assert(rest.len() == keys@.len() - from);
        assert(rest[0] == keys@[from as int]@);
        assert(rest.drop_first() =~= keys_view(keys@).skip(from as int + 1));
    }
    match v {
        JsonValue::Object(fields) => {
            let key = &keys[from];
            let jopt = find_field(fields, key);
            let n = keys.len();
            assert(from < n);
            let last = from + 1 == n;
            if last {
                let mut out = clone_fields(fields);
                proof {
                    lemma_jview_obj_index(fields@);
                }
                match jopt {
                    Some(j) => {
                        out.remove(j);
                        proof {
                            lemma_jview_obj_index(out@);
                            lemma_jview_obj_index(fields@);
                            lemma_obj_remove_first(jview_obj(fields@), key@, j as int);
                            assert(jview_obj(out@) =~= jview_obj(fields@).remove(j as int));
                        }
                    }
                    None => {
                        proof {
                            lemma_obj_remove_absent(jview_obj(fields@), key@);
                        }
                    }
                }
                Ok(JsonValue::Object(out))
            } else {
                match jopt {
                    Some(j) => {
                        proof {
                            lemma_jview_obj_index(fields@);
                            lemma_obj_lookup_first(jview_obj(fields@), key@, j as int);
                        }
                        let child = &fields[j].1;
                        match delete_from(child, keys, from + 1) {
                            Ok(newchild) => {
                                let ghost newchild_v = jview(newchild);
                                let mut out = clone_fields(fields);
                                proof {
                                    lemma_jview_obj_index(fields@);
                                }
                                out.remove(j);
                                out.insert(j, (key.clone(), newchild));
                                proof {
                                    lemma_jview_obj_index(out@);
                                    lemma_jview_obj_index(fields@);
                                    lemma_obj_set_first(
                                        jview_obj(fields@),
                                        key@,
                                        newchild_v,
                                        j as int,
                                    );
                                    assert(jview_obj(out@) =~= jview_obj(fields@).update(
                                        j as int,
                                        (key@, newchild_v),
                                    ));
                                }
                                Ok(JsonValue::Object(out))
                            }
                            Err(e) => Err(e),
                        }
                    }
                    None => {
                        proof {
                            lemma_obj_lookup_none(jview_obj(fields@), key@);
                        }
                        let mut m = "key not found: ".to_owned();
                        m.append(key.as_str());
                        Err(AppError::NotFound(m))
                    }
                }
            }
        }
        _ => Err(AppError::Validation(
            "key path runs into a value that is not an object".to_owned(),
        )),
    }
}

/// Value bound to `key` at the top level of a document: a field lookup when
/// the document is an object, nothing otherwise.
pub open spec fn lookup_field(v: JsonVal, key: Seq<char>) -> Option<JsonVal> {
    match v {
        JsonVal::Obj(fields) => obj_lookup(fields, key),
        _ => None,
    }
}

/// Reads a top-level field of a document.
pub fn get_field(v: &JsonValue, key: &str) -> (r: Option<JsonValue>)
    ensures
        match lookup_field(v@, key@) {
            Some(x) => r matches Some(g) && g@ == x,
            None => r is None,
        },
{
    match v {
        JsonValue::Object(fields) => {
            let k = key.to_owned();
            match find_field(fields, &k) {
                Some(j) => {
                    proof {
                        lemma_jview_obj_index(fields@);
                        lemma_obj_lookup_first(jview_obj(fields@), key@, j as int);
                    }
                    Some(fields[j].1.clone())
                }
                None => {
                    proof {
                        lemma_obj_lookup_none(jview_obj(fields@), key@);
                    }
                    None
                }
            }
        }
        _ => None,
    }
}

} // verus!
