use vstd::prelude::*;
use crate::error::AppError;

verus! {

/// Whether `char::is_alphanumeric` accepts the character.  The predicate is
/// determined by the Unicode tables, so it is named rather than written out.
pub uninterp spec fn char_is_alphanumeric(c: char) -> bool;

/// Relies on `char::is_alphanumeric`: the result depends on the character
/// alone (Unicode `Alphabetic` property or `Number` general category).
pub assume_specification[ char::is_alphanumeric ](c: char) -> (r: bool)
    ensures
        r == char_is_alphanumeric(c),
;

/// A character allowed in a plugin identifier: alphanumeric, `-` or `_`.
pub open spec fn id_char(c: char) -> bool {
    char_is_alphanumeric(c) || c == '-' || c == '_'
}

/// A well-formed plugin identifier: non-empty, every character allowed.
pub open spec fn valid_window_id(s: Seq<char>) -> bool {
    s.len() > 0 && (forall|i: int| 0 <= i < s.len() ==> id_char(s[i]))
}

/// Message reported for a malformed plugin identifier.
pub open spec fn invalid_id_message() -> Seq<char> {
    "invalid window id: must be non-empty and contain only alphanumeric characters, hyphens or underscores"@
}

/// Checks the syntax of a plugin identifier.
///
/// Succeeds exactly when the identifier is non-empty and every character is
/// alphanumeric, a hyphen or an underscore; the directory name of a plugin
/// and its registry key both have to pass this check.
pub fn validate_window_id(window_id: &str) -> (r: Result<(), AppError>)
    ensures
        r is Ok <==> valid_window_id(window_id@),
        r matches Err(e) ==> e matches AppError::InvalidIdentifier(m) && m@ == invalid_id_message(),
{
    let n = window_id.unicode_len();
    if n == 0 {
        return Err(AppError::InvalidIdentifier(
            "invalid window id: must be non-empty and contain only alphanumeric characters, hyphens or underscores".to_owned(),
        ));
    }
    let mut i: usize = 0;
    while i < n
        invariant
            n == window_id@.len(),
            0 <= i <= n,
            forall|j: int| 0 <= j < i ==> id_char(window_id@[j]),
        decreases n - i,
    {
        let c = window_id.get_char(i);
        if !(c.is_alphanumeric() || c == '-' || c == '_') {
            return Err(AppError::InvalidIdentifier(
                "invalid window id: must be non-empty and contain only alphanumeric characters, hyphens or underscores".to_owned(),
            ));
        }
        i = i + 1;
    }
    Ok(())
}

/// Resolves a plugin identifier to its directory under the plugin root.
///
/// Pure path computation: no filesystem access.  Fails exactly when the
/// identifier is malformed; on success the directory is
/// `<plugin_root>/<window_id>`.
pub fn resolve_plugin_dir(plugin_root: &str, window_id: &str) -> (r: Result<String, AppError>)
    ensures
        r is Ok <==> valid_window_id(window_id@),
        r matches Ok(p) ==> p@ == plugin_root@ + "/"@ + window_id@,
        r matches Err(e) ==> e matches AppError::InvalidIdentifier(m) && m@ == invalid_id_message(),
{
    match validate_window_id(window_id) {
        Ok(()) => {
            let mut p = plugin_root.to_owned();
            p.append("/");
            p.append(window_id);
            Ok(p)
        }
        Err(e) => Err(e),
    }
}

} // verus!
