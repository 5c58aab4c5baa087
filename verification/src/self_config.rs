use vstd::prelude::*;
use crate::error::AppError;
use crate::ident::{invalid_id_message, valid_window_id, validate_window_id};
use crate::json::{
    delete_hits_missing_key, delete_missing_key, delete_path, first_missing_key, get_path,
    key_not_found_message, keys_view, non_object_message, path_delete, path_get, path_set,
    set_path, JsonValue,
};

verus! {

/// The private configuration file of a plugin.
pub open spec fn self_config_path(root: Seq<char>, id: Seq<char>) -> Seq<char> {
    root + "/"@ + id + "/selfConfig.json"@
}

/// Resolves and caches the private configuration file path of each plugin.
///
/// The cache maps a plugin identifier to its `selfConfig.json` path, filled
/// lazily on the first access per identifier.
pub struct SelfConfigStore {
    pub plugin_root: String,
    pub paths: Vec<(String, String)>,
}

impl SelfConfigStore {
    /// Every cached entry is a well-formed identifier mapped to its own
    /// configuration file path.
    pub open spec fn wf(&self) -> bool {
        forall|i: int|
            0 <= i < self.paths@.len() ==> valid_window_id((#[trigger] self.paths@[i]).0@) && self
                .paths@[i].1@ == self_config_path(self.plugin_root@, self.paths@[i].0@)
    }

    /// A store over the given plugin root, with an empty cache.
    pub fn new(plugin_root: String) -> (r: SelfConfigStore)
        ensures
            r.wf(),
            r.plugin_root@ == plugin_root@,
    {
        SelfConfigStore { plugin_root, paths: Vec::new() }
    }

    /// The path of the plugin's private configuration file, from the cache
    /// when the identifier has been seen before, validated and computed
    /// otherwise.  Fails exactly on a malformed identifier.
    pub fn config_path(&mut self, window_id: &str) -> (r: Result<String, AppError>)
        requires
            old(self).wf(),
        ensures
            final(self).wf(),
            final(self).plugin_root@ == old(self).plugin_root@,
            r is Ok <==> valid_window_id(window_id@),
            r matches Ok(p) ==> p@ == self_config_path(old(self).plugin_root@, window_id@),
            r matches Err(e) ==> e matches AppError::InvalidIdentifier(m) && m@
                == invalid_id_message(),
    {
        let wid = window_id.to_owned();
        let mut i: usize = 0;
        while i < self.paths.len()
            invariant
                self.wf(),
                wid@ == window_id@,
            decreases self.paths@.len() - i,
        {
            if self.paths[i].0 == wid {
                return Ok(self.paths[i].1.clone());
            }
            i = i + 1;
        }
        match validate_window_id(window_id) {
            Ok(()) => {}
            Err(e) => {
                return Err(e);
            }
        }
        let mut p = self.plugin_root.clone();
        p.append("/");
        p.append(window_id);
        p.append("/selfConfig.json");
        self.paths.push((window_id.to_owned(), p.clone()));
        Ok(p)
    }
}

/// Reads a value from a plugin's private configuration document: the whole
/// document for an empty key path, the value at the path otherwise; a
/// missing key yields `NotFound`, naming the key at which the walk stopped.
pub fn get_value(doc: &JsonValue, keys: &Vec<String>) -> (r: Result<JsonValue, AppError>)
    ensures
        match path_get(doc@, keys_view(keys@)) {
            Some(found) => r matches Ok(g) && g@ == found,
            None => r matches Err(e) && e matches AppError::NotFound(m) && m@
                == key_not_found_message(first_missing_key(doc@, keys_view(keys@))),
        },
{
    get_path(doc, keys)
}

/// Assigns a value in a plugin's private configuration document, creating
/// missing intermediate objects; an empty key path leaves the document
/// unchanged, and a non-object value met along the way is an error.
pub fn set_value(doc: &JsonValue, keys: &Vec<String>, value: JsonValue) -> (r: Result<
    JsonValue,
    AppError,
>)
    ensures
        keys@.len() == 0 ==> (r matches Ok(x) && x@ == doc@),
        keys@.len() > 0 ==> match path_set(doc@, keys_view(keys@), value@) {
            Some(newv) => r matches Ok(x) && x@ == newv,
            None => r matches Err(e) && e is Validation,
        },
{
    if keys.len() == 0 {
        return Ok(doc.clone());
    }
    set_path(doc, keys, value)
}

/// Removes a value from a plugin's private configuration document.  An
/// empty key path removes the entire file, reported as `Ok(None)`; otherwise
/// the binding at the path is removed and the new document returned, failing
/// with `NotFound` (naming the key) when an intermediate segment is absent,
/// and with `Validation` when a value met on the way is not an object.
pub fn delete_value(doc: &JsonValue, keys: &Vec<String>) -> (r: Result<
    Option<JsonValue>,
    AppError,
>)
    ensures
        keys@.len() == 0 ==> (r matches Ok(o) && o is None),
        keys@.len() > 0 ==> match path_delete(doc@, keys_view(keys@)) {
            Some(newv) => r matches Ok(o) && o matches Some(x) && x@ == newv,
            None => r matches Err(e) && (if delete_hits_missing_key(doc@, keys_view(keys@)) {
                e matches AppError::NotFound(m) && m@ == key_not_found_message(
                    delete_missing_key(doc@, keys_view(keys@)),
                )
            } else {
                e matches AppError::Validation(m) && m@ == non_object_message()
            }),
        },
{
    if keys.len() == 0 {
        return Ok(None);
    }
    match delete_path(doc, keys) {
        Ok(newdoc) => Ok(Some(newdoc)),
        Err(e) => Err(e),
    }
}

} // verus!
