use vstd::prelude::*;
use crate::json::{get_field, jview, jview_arr, jview_obj, lemma_jview_arr_index,
    lemma_jview_obj_index, lookup_field, JsonVal, JsonValue};
use crate::package::MAX_PACKAGE_SIZE;

verus! {

/// A string field of the manifest, defaulting to the empty string.
pub open spec fn str_or_empty(m: JsonVal, key: Seq<char>) -> JsonVal {
    match lookup_field(m, key) {
        Some(JsonVal::Str(s)) => JsonVal::Str(s),
        _ => JsonVal::Str(Seq::empty()),
    }
}

/// A string field of the manifest, `null` when absent or not a string.
pub open spec fn str_or_null(m: JsonVal, key: Seq<char>) -> JsonVal {
    match lookup_field(m, key) {
        Some(JsonVal::Str(s)) => JsonVal::Str(s),
        _ => JsonVal::Null,
    }
}

/// A boolean field of the manifest, `null` when absent or not a boolean.
pub open spec fn bool_or_null(m: JsonVal, key: Seq<char>) -> JsonVal {
    match lookup_field(m, key) {
        Some(JsonVal::Bool(b)) => JsonVal::Bool(b),
        _ => JsonVal::Null,
    }
}

/// The string elements of an array, in order; everything else is dropped.
pub open spec fn strs_of(arr: Seq<JsonVal>) -> Seq<JsonVal>
    decreases arr.len(),
{
    if arr.len() == 0 {
        Seq::empty()
    } else {
        let front = strs_of(arr.drop_last());
        if arr.last() is Str {
            front.push(arr.last())
        } else {
            front
        }
    }
}

/// The manifest's `tags`: its string elements when it is an array, `null`
/// otherwise.
pub open spec fn tags_or_null(m: JsonVal) -> JsonVal {
    match lookup_field(m, "tags"@) {
        Some(JsonVal::Arr(a)) => JsonVal::Arr(strs_of(a)),
        _ => JsonVal::Null,
    }
}

/// A non-negative 64-bit value, or the default.
pub open spec fn nat_or(v: JsonVal, default: i64) -> i64 {
    match v {
        JsonVal::Int(i) => if i >= 0 {
            i
        } else {
            default
        },
        _ => default,
    }
}

/// Any 64-bit value, or the default.
pub open spec fn int_or(v: JsonVal, default: i64) -> i64 {
    match v {
        JsonVal::Int(i) => i,
        _ => default,
    }
}

/// The manifest's window `size` hint: `[width, height]` with 800 x 600 for
/// anything missing or malformed, `null` when the field is not an array.
pub open spec fn size_or_null(m: JsonVal) -> JsonVal {
    match lookup_field(m, "size"@) {
        Some(JsonVal::Arr(a)) => if a.len() >= 2 {
            JsonVal::Arr(seq![JsonVal::Int(nat_or(a[0], 800)), JsonVal::Int(nat_or(a[1], 600))])
        } else {
            JsonVal::Arr(seq![JsonVal::Int(800), JsonVal::Int(600)])
        },
        _ => JsonVal::Null,
    }
}

/// The manifest's window `position` hint: `[x, y]` with -1 for anything
/// missing or malformed, `null` when the field is not an array.
pub open spec fn position_or_null(m: JsonVal) -> JsonVal {
    match lookup_field(m, "position"@) {
        Some(JsonVal::Arr(a)) => if a.len() >= 2 {
            JsonVal::Arr(seq![JsonVal::Int(int_or(a[0], -1i64)), JsonVal::Int(int_or(a[1], -1i64))])
        } else {
            JsonVal::Arr(seq![JsonVal::Int(-1i64), JsonVal::Int(-1i64)])
        },
        _ => JsonVal::Null,
    }
}

/// The declarative summary of one manifest, as handed to the host's
/// package-inspection dialog.
pub open spec fn spec_plugin_info(m: JsonVal) -> JsonVal {
    JsonVal::Obj(
        seq![
            ("windowId"@, str_or_empty(m, "windowId"@)),
            ("name"@, str_or_empty(m, "title"@)),
            ("description"@, str_or_empty(m, "description"@)),
            ("version"@, str_or_null(m, "version"@)),
            ("author"@, str_or_null(m, "author"@)),
            ("email"@, str_or_null(m, "email"@)),
            ("tags"@, tags_or_null(m)),
            ("category"@, str_or_null(m, "category"@)),
            ("size"@, size_or_null(m)),
            ("position"@, position_or_null(m)),
            ("alwaysOnTop"@, bool_or_null(m, "alwaysOnTop"@)),
            ("resizable"@, bool_or_null(m, "resizable"@)),
            ("icon"@, str_or_null(m, "icon"@)),
        ],
    )
}

/// The whole analysis result for a package of `file_size` bytes whose
/// manifest parsed to `m`.
pub open spec fn spec_package_summary(m: JsonVal, file_size: int) -> JsonVal {
    JsonVal::Obj(
        seq![
            ("success"@, JsonVal::Bool(true)),
            ("size"@, JsonVal::Int(file_size as i64)),
            ("pluginInfo"@, spec_plugin_info(m)),
        ],
    )
}

/// A string field, defaulting to the empty string.
fn field_str_or_empty(m: &JsonValue, key: &str) -> (r: JsonValue)
    ensures
        r@ == str_or_empty(m@, key@),
{
    match get_field(m, key) {
        Some(JsonValue::Str(s)) => JsonValue::Str(s),
        _ => JsonValue::Str(String::new()),
    }
}

/// A string field, defaulting to `null`.
fn field_str_or_null(m: &JsonValue, key: &str) -> (r: JsonValue)
    ensures
        r@ == str_or_null(m@, key@),
{
    match get_field(m, key) {
        Some(JsonValue::Str(s)) => JsonValue::Str(s),
        _ => JsonValue::Null,
    }
}

/// A boolean field, defaulting to `null`.
fn field_bool_or_null(m: &JsonValue, key: &str) -> (r: JsonValue)
    ensures
        r@ == bool_or_null(m@, key@),
{
    match get_field(m, key) {
        Some(JsonValue::Bool(b)) => JsonValue::Bool(b),
        _ => JsonValue::Null,
    }
}

/// The `tags` field, keeping only string elements.
fn field_tags(m: &JsonValue) -> (r: JsonValue)
    ensures
        r@ == tags_or_null(m@),
{
    match get_field(m, "tags") {
        Some(JsonValue::Array(items)) => {
            let ghost iv = jview_arr(items@);
            proof {
                lemma_jview_arr_index(items@);
            }
            let mut out: Vec<JsonValue> = Vec::new();
            let mut i: usize = 0;
            while i < items.len()
                invariant
                    iv == jview_arr(items@),
                    iv.len() == items@.len(),
                    forall|j: int| 0 <= j < items@.len() ==> #[trigger] iv[j] == jview(items@[j]),
                    0 <= i <= items@.len(),
                    jview_arr(out@) == strs_of(iv.take(i as int)),
                decreases items@.len() - i,
            {
                proof {
                    assert(iv.take(i as int + 1).drop_last() =~= iv.take(i as int));
                    assert(iv.take(i as int + 1).last() == iv[i as int]);
                }
                match &items[i] {
                    JsonValue::Str(s) => {
                        let ghost old_out = jview_arr(out@);
                        proof {
                            lemma_jview_arr_index(out@);
                        }
                        let ghost old_vec = out@;
                        out.push(JsonValue::Str(s.clone()));
                        proof {
                            lemma_jview_arr_index(out@);
                            assert(forall|l: int| 0 <= l < old_vec.len() ==> out@[l] == old_vec[l]);
                            assert(jview_arr(out@) =~= old_out.push(iv[i as int]));
                        }
                    }
                    _ => {}
                }
                i = i + 1;
            }
            proof {
                assert(iv.take(iv.len() as int) =~= iv);
            }
            JsonValue::Array(out)
        }
        Some(_) => JsonValue::Null,
        None => JsonValue::Null,
    }
}

/// One element of a `[w, h]` hint, defaulting when negative or not an
/// integer.
fn elem_nat_or(v: &JsonValue, default: i64) -> (r: i64)
    ensures
        r == nat_or(v@, default),
{
    match v {
        JsonValue::Int(i) => {
            if *i >= 0 {
                *i
            } else {
                default
            }
        }
        _ => default,
    }
}

/// One element of a `[x, y]` hint, defaulting when not an integer.
fn elem_int_or(v: &JsonValue, default: i64) -> (r: i64)
    ensures
        r == int_or(v@, default),
{
    match v {
        JsonValue::Int(i) => *i,
        _ => default,
    }
}

/// The `size` field as a two-element integer array.
fn field_size(m: &JsonValue) -> (r: JsonValue)
    ensures
        r@ == size_or_null(m@),
{
    match get_field(m, "size") {
        Some(JsonValue::Array(items)) => {
            proof {
                lemma_jview_arr_index(items@);
            }
            let (w, h) = if items.len() >= 2 {
                (elem_nat_or(&items[0], 800), elem_nat_or(&items[1], 600))
            } else {
                (800i64, 600i64)
            };
            let mut out: Vec<JsonValue> = Vec::new();
            out.push(JsonValue::Int(w));
            out.push(JsonValue::Int(h));
            let r = JsonValue::Array(out);
            proof {
                lemma_jview_arr_index(out@);
                assert(jview_arr(out@) =~= seq![JsonVal::Int(w), JsonVal::Int(h)]);
            }
            r
        }
        Some(_) => JsonValue::Null,
        None => JsonValue::Null,
    }
}

/// The `position` field as a two-element integer array.
fn field_position(m: &JsonValue) -> (r: JsonValue)
    ensures
        r@ == position_or_null(m@),
{
    match get_field(m, "position") {
        Some(JsonValue::Array(items)) => {
            proof {
                lemma_jview_arr_index(items@);
            }
            let (x, y) = if items.len() >= 2 {
                (elem_int_or(&items[0], -1), elem_int_or(&items[1], -1))
            } else {
                (-1i64, -1i64)
            };
            let mut out: Vec<JsonValue> = Vec::new();
            out.push(JsonValue::Int(x));
            out.push(JsonValue::Int(y));
            let r = JsonValue::Array(out);
            proof {
                lemma_jview_arr_index(out@);
                assert(jview_arr(out@) =~= seq![JsonVal::Int(x), JsonVal::Int(y)]);
            }
            r
        }
        Some(_) => JsonValue::Null,
        None => JsonValue::Null,
    }
}

/// Summarizes a parsed plugin manifest for the host's package-inspection
/// dialog: the declared identity and window hints with their documented
/// defaults, together with the package's size.
pub fn summarize_package(m: &JsonValue, file_size: usize) -> (r: JsonValue)
    requires
        file_size <= MAX_PACKAGE_SIZE,
    ensures
        r@ == spec_package_summary(m@, file_size as int),
{
    let mut info: Vec<(String, JsonValue)> = Vec::new();
    info.push(("windowId".to_owned(), field_str_or_empty(m, "windowId")));
    info.push(("name".to_owned(), field_str_or_empty(m, "title")));
    info.push(("description".to_owned(), field_str_or_empty(m, "description")));
    info.push(("version".to_owned(), field_str_or_null(m, "version")));
    info.push(("author".to_owned(), field_str_or_null(m, "author")));
    info.push(("email".to_owned(), field_str_or_null(m, "email")));
    info.push(("tags".to_owned(), field_tags(m)));
    info.push(("category".to_owned(), field_str_or_null(m, "category")));
    info.push(("size".to_owned(), field_size(m)));
    info.push(("position".to_owned(), field_position(m)));
    info.push(("alwaysOnTop".to_owned(), field_bool_or_null(m, "alwaysOnTop")));
    info.push(("resizable".to_owned(), field_bool_or_null(m, "resizable")));
    info.push(("icon".to_owned(), field_str_or_null(m, "icon")));
    let plugin_info = JsonValue::Object(info);
    proof {
        lemma_jview_obj_index(plugin_info->Object_0@);
        assert(jview(plugin_info) matches JsonVal::Obj(fs) && fs =~= spec_plugin_info(
            jview(*m),
        )->Obj_0);
    }
    let mut top: Vec<(String, JsonValue)> = Vec::new();
    top.push(("success".to_owned(), JsonValue::Bool(true)));
    top.push(("size".to_owned(), JsonValue::Int(file_size as i64)));
    top.push(("pluginInfo".to_owned(), plugin_info));
    let r = JsonValue::Object(top);
    proof {
        lemma_jview_obj_index(r->Object_0@);
        assert(jview(r) matches JsonVal::Obj(fs) && fs =~= spec_package_summary(
            jview(*m),
            file_size as int,
        )->Obj_0);
    }
    r
}

} // verus!
