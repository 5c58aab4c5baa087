use vstd::prelude::*;
use crate::error::AppError;
use crate::strutil::{eq_ignore_case, lower_char};

verus! {

/// Largest accepted plugin package, in bytes.
pub const MAX_PACKAGE_SIZE: usize = 15 * 1024 * 1024;

/// The four magic bytes every zip archive starts with.
pub open spec fn starts_with_zip_magic(b: Seq<u8>) -> bool {
    b.len() >= 4 && b[0] == 0x50u8 && b[1] == 0x4bu8 && b[2] == 0x03u8 && b[3] == 0x04u8
}

/// Message used when a package exceeds the size cap.
pub open spec fn oversized_message() -> Seq<char> {
    "plugin package is too large"@
}

/// Message used when a payload does not begin with the zip magic bytes.
pub open spec fn not_zip_message() -> Seq<char> {
    "payload is not a valid zip archive"@
}

/// The guard every package runs through before parsing, downloaded or
/// local: the size cap, then the zip format signature, so that an HTML error
/// page or a truncated download fails fast with `Integrity` instead of a
/// confusing parse error.
pub fn check_package_bytes(bytes: &Vec<u8>) -> (r: Result<(), AppError>)
    ensures
        r is Ok <==> bytes@.len() <= MAX_PACKAGE_SIZE && starts_with_zip_magic(bytes@),
        bytes@.len() > MAX_PACKAGE_SIZE ==> (r matches Err(e) && e matches AppError::Integrity(m)
            && m@ == oversized_message()),
        bytes@.len() <= MAX_PACKAGE_SIZE && !starts_with_zip_magic(bytes@) ==> (r matches Err(e)
            && e matches AppError::Integrity(m) && m@ == not_zip_message()),
{
    if bytes.len() > MAX_PACKAGE_SIZE {
        return Err(AppError::Integrity("plugin package is too large".to_owned()));
    }
    if bytes.len() < 4 {
        return Err(AppError::Integrity("payload is not a valid zip archive".to_owned()));
    }
    let ok = bytes[0] == 0x50u8 && bytes[1] == 0x4bu8 && bytes[2] == 0x03u8 && bytes[3] == 0x04u8;
    if !ok {
        return Err(AppError::Integrity("payload is not a valid zip archive".to_owned()));
    }
    Ok(())
}

/// A path separator on either platform.
pub open spec fn is_sep(c: char) -> bool {
    c == '/' || c == '\\'
}

/// The path's file name has extension `zip`, compared without regard to
/// ASCII case: a `.` that is neither the first character of the file name
/// nor preceded by a separator, followed by exactly `zip`.
pub open spec fn has_zip_extension(p: Seq<char>) -> bool {
    exists|d: int|
        1 <= d < p.len() && p[d] == '.' && !is_sep(p[d - 1]) && eq_ignore_case(
            #[trigger] p.skip(d + 1),
            "zip"@,
        )
}

/// Whether a file path names a zip file.
pub fn path_has_zip_extension(p: &str) -> (r: bool)
    ensures
        r == has_zip_extension(p@),
{
    let n = p.unicode_len();
    proof {
        reveal_strlit("zip");
        assert forall|d: int|
            1 <= d < p@.len() && eq_ignore_case(#[trigger] p@.skip(d + 1), "zip"@) implies d == n
            - 4 by {
            assert(p@.skip(d + 1).len() == n - d - 1);
        }
    }
    if n < 5 {
        return false;
    }
    let d = n - 4;
    if p.get_char(d) != '.' {
        return false;
    }
    let c = p.get_char(d - 1);
    if c == '/' || c == '\\' {
        return false;
    }
    let e0 = p.get_char(d + 1);
    let e1 = p.get_char(d + 2);
    let e2 = p.get_char(d + 3);
    let ok = (e0 == 'z' || e0 == 'Z') && (e1 == 'i' || e1 == 'I') && (e2 == 'p' || e2 == 'P');
    proof {
        reveal_strlit("zip");
        let tail = p@.skip(d as int + 1);
        assert(tail.len() == 3);
        assert(tail[0] == p@[d as int + 1]);
        assert(tail[1] == p@[d as int + 2]);
        assert(tail[2] == p@[d as int + 3]);
        if ok {
            assert(lower_char(tail[0]) == lower_char("zip"@[0]));
            assert(lower_char(tail[1]) == lower_char("zip"@[1]));
            assert(lower_char(tail[2]) == lower_char("zip"@[2]));
            assert(eq_ignore_case(tail, "zip"@));
        } else {
            assert(!eq_ignore_case(tail, "zip"@));
        }
    }
    ok
}

/// Message reported for a download that ended with a non-success status.
pub open spec fn download_failed_message(status: Seq<char>, body: Seq<char>) -> Seq<char> {
    "download failed with status "@ + status + ": "@ + body
}

/// The `Network` failure for a download that ended with a non-success
/// status, carrying the status text and the response body for diagnostics.
pub fn network_error(status: &str, body: &str) -> (e: AppError)
    ensures
        e matches AppError::Network(m) && m@ == download_failed_message(status@, body@),
{
    let mut m = "download failed with status ".to_owned();
    m.append(status);
    m.append(": ");
    m.append(body);
    AppError::Network(m)
}

} // verus!
