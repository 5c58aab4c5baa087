use vstd::prelude::*;
use crate::error::AppError;
use crate::package::has_zip_extension;
use crate::strutil::{
    contains_seq, ends_with, ends_with_ignore_case, starts_with, str_contains, str_ends_with,
    str_ends_with_ignore_case, str_starts_with,
};

verus! {

/// Message used when a model name is malformed.
pub open spec fn invalid_model_name_message() -> Seq<char> {
    "invalid model name"@
}

/// A well-formed model package name: non-empty and free of `..`, `/` and
/// `\`, so it cannot name anything outside its own directory.
pub open spec fn valid_model_name(s: Seq<char>) -> bool {
    &&& s.len() > 0
    &&& !contains_seq(s, ".."@)
    &&& !contains_seq(s, "/"@)
    &&& !contains_seq(s, "\\"@)
}

/// Checks the syntax of a model package name.
pub fn validate_model_name(model_name: &str) -> (r: Result<(), AppError>)
    ensures
        r is Ok <==> valid_model_name(model_name@),
        r matches Err(e) ==> e matches AppError::Validation(m) && m@
            == invalid_model_name_message(),
{
    if model_name.unicode_len() == 0 || str_contains(model_name, "..") || str_contains(
        model_name,
        "/",
    ) || str_contains(model_name, "\\") {
        Err(AppError::Validation("invalid model name".to_owned()))
    } else {
        Ok(())
    }
}

/// The file suffixes that mark a model description file, by generation.
pub open spec fn model_suffixes() -> Seq<Seq<char>> {
    seq![".model.json"@, ".model3.json"@, ".model4.json"@]
}

/// The file suffixes of model assets, matched without regard to ASCII case.
pub open spec fn asset_suffixes() -> Seq<Seq<char>> {
    seq![
        ".png"@,
        ".jpg"@,
        ".jpeg"@,
        ".moc"@,
        ".moc3"@,
        ".moc4"@,
        ".physics.json"@,
        ".pose.json"@,
        ".motion3.json"@,
        ".motion4.json"@,
        ".exp.json"@,
        ".exp3.json"@,
        ".exp4.json"@,
    ]
}

/// The name ends with one of the suffixes.
pub open spec fn any_suffix(s: Seq<char>, suffixes: Seq<Seq<char>>) -> bool {
    exists|i: int| 0 <= i < suffixes.len() && ends_with(s, #[trigger] suffixes[i])
}

/// The name ends with one of the suffixes, up to ASCII case.
pub open spec fn any_suffix_ignore_case(s: Seq<char>, suffixes: Seq<Seq<char>>) -> bool {
    exists|i: int| 0 <= i < suffixes.len() && ends_with_ignore_case(s, #[trigger] suffixes[i])
}

/// Whether an archived file belongs in an imported model: a model
/// description file, or an asset by its suffix.
pub fn should_extract_file(file_name: &str) -> (r: bool)
    ensures
        r == (any_suffix(file_name@, model_suffixes()) || any_suffix_ignore_case(
            file_name@,
            asset_suffixes(),
        )),
{
    if is_model_file(file_name) {
        return true;
    }
    if str_ends_with_ignore_case(file_name, ".png") {
        proof { assert(asset_suffixes()[0] == ".png"@); }
        return true;
    }
    if str_ends_with_ignore_case(file_name, ".jpg") {
        proof { assert(asset_suffixes()[1] == ".jpg"@); }
        return true;
    }
    if str_ends_with_ignore_case(file_name, ".jpeg") {
        proof { assert(asset_suffixes()[2] == ".jpeg"@); }
        return true;
    }
    if str_ends_with_ignore_case(file_name, ".moc") {
        proof { assert(asset_suffixes()[3] == ".moc"@); }
        return true;
    }
    if str_ends_with_ignore_case(file_name, ".moc3") {
        proof { assert(asset_suffixes()[4] == ".moc3"@); }
        return true;
    }
    if str_ends_with_ignore_case(file_name, ".moc4") {
        proof { assert(asset_suffixes()[5] == ".moc4"@); }
        return true;
    }
    if str_ends_with_ignore_case(file_name, ".physics.json") {
        proof { assert(asset_suffixes()[6] == ".physics.json"@); }
        return true;
    }
    if str_ends_with_ignore_case(file_name, ".pose.json") {
        proof { assert(asset_suffixes()[7] == ".pose.json"@); }
        return true;
    }
    if str_ends_with_ignore_case(file_name, ".motion3.json") {
        proof { assert(asset_suffixes()[8] == ".motion3.json"@); }
        return true;
    }
    if str_ends_with_ignore_case(file_name, ".motion4.json") {
        proof { assert(asset_suffixes()[9] == ".motion4.json"@); }
        return true;
    }
    if str_ends_with_ignore_case(file_name, ".exp.json") {
        proof { assert(asset_suffixes()[10] == ".exp.json"@); }
        return true;
    }
    if str_ends_with_ignore_case(file_name, ".exp3.json") {
        proof { assert(asset_suffixes()[11] == ".exp3.json"@); }
        return true;
    }
    if str_ends_with_ignore_case(file_name, ".exp4.json") {
        proof { assert(asset_suffixes()[12] == ".exp4.json"@); }
        return true;
    }
    proof {
        assert forall|i: int| 0 <= i < asset_suffixes().len()
            implies !ends_with_ignore_case(file_name@, #[trigger] asset_suffixes()[i]) by {
            if i == 0 {
                assert(asset_suffixes()[i] == ".png"@);
            } else if i == 1 {
                assert(asset_suffixes()[i] == ".jpg"@);
            } else if i == 2 {
                assert(asset_suffixes()[i] == ".jpeg"@);
            } else if i == 3 {
                assert(asset_suffixes()[i] == ".moc"@);
            } else if i == 4 {
                assert(asset_suffixes()[i] == ".moc3"@);
            } else if i == 5 {
                assert(asset_suffixes()[i] == ".moc4"@);
            } else if i == 6 {
                assert(asset_suffixes()[i] == ".physics.json"@);
            } else if i == 7 {
                assert(asset_suffixes()[i] == ".pose.json"@);
            } else if i == 8 {
                assert(asset_suffixes()[i] == ".motion3.json"@);
            } else if i == 9 {
                assert(asset_suffixes()[i] == ".motion4.json"@);
            } else if i == 10 {
                assert(asset_suffixes()[i] == ".exp.json"@);
            } else if i == 11 {
                assert(asset_suffixes()[i] == ".exp3.json"@);
            } else {
                assert(asset_suffixes()[i] == ".exp4.json"@);
            }
        }
    }
    false
}

/// Whether the file is a model description file.
pub fn is_model_file(file_name: &str) -> (r: bool)
    ensures
        r == any_suffix(file_name@, model_suffixes()),
{
    if str_ends_with(file_name, ".model.json") {
        proof { assert(model_suffixes()[0] == ".model.json"@); }
        return true;
    }
    if str_ends_with(file_name, ".model3.json") {
        proof { assert(model_suffixes()[1] == ".model3.json"@); }
        return true;
    }
    if str_ends_with(file_name, ".model4.json") {
        proof { assert(model_suffixes()[2] == ".model4.json"@); }
        return true;
    }
    proof {
        assert forall|i: int| 0 <= i < model_suffixes().len() implies !ends_with(
            file_name@,
            #[trigger] model_suffixes()[i],
        ) by {
            if i == 0 {
                assert(model_suffixes()[i] == ".model.json"@);
            } else if i == 1 {
                assert(model_suffixes()[i] == ".model3.json"@);
            } else {
                assert(model_suffixes()[i] == ".model4.json"@);
            }
        }
    }
    false
}

/// Whether an archived file is skipped outright: a directory entry, a
/// hidden file, or macOS resource metadata.
pub fn should_skip_file(file_name: &str) -> (r: bool)
    ensures
        r == (ends_with(file_name@, "/"@) || starts_with(file_name@, "."@) || contains_seq(
            file_name@,
            "__MACOSX"@,
        )),
{
    str_ends_with(file_name, "/") || str_starts_with(file_name, ".") || str_contains(
        file_name,
        "__MACOSX",
    )
}

/// Whether a file path names a zip archive.
pub fn is_zip_file(file_path: &str) -> (r: bool)
    ensures
        r == has_zip_extension(file_path@),
{
    crate::package::path_has_zip_extension(file_path)
}

/// The model generation a description file's name indicates.
pub fn detect_model_version(file_name: &str) -> (r: &'static str)
    ensures
        contains_seq(file_name@, ".model4.json"@) ==> r@ == "4.x"@,
        !contains_seq(file_name@, ".model4.json"@) && contains_seq(file_name@, ".model3.json"@)
            ==> r@ == "3.x"@,
        !contains_seq(file_name@, ".model4.json"@) && !contains_seq(file_name@, ".model3.json"@)
            && contains_seq(file_name@, ".model.json"@) ==> r@ == "2.1"@,
        !contains_seq(file_name@, ".model4.json"@) && !contains_seq(file_name@, ".model3.json"@)
            && !contains_seq(file_name@, ".model.json"@) ==> r@ == "unknown"@,
{
    if str_contains(file_name, ".model4.json") {
        "4.x"
    } else if str_contains(file_name, ".model3.json") {
        "3.x"
    } else if str_contains(file_name, ".model.json") {
        "2.1"
    } else {
        "unknown"
    }
}

} // verus!
