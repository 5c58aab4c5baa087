use vstd::prelude::*;
use crate::archive::{
    all_entries_safe, install_archive, invalid_archive_message, missing_files_message, op_path,
    ops_view, some_entry_ends_with, spec_extract_ops, zip_entries_of, zip_entries_readable,
    zip_opens, FsOp, FsOpV,
};
use crate::error::AppError;
use crate::ident::{invalid_id_message, resolve_plugin_dir, valid_window_id, validate_window_id};
use crate::package::{
    check_package_bytes, not_zip_message, oversized_message, starts_with_zip_magic,
    MAX_PACKAGE_SIZE,
};
use crate::strutil::starts_with;

verus! {

/// The planned installation of one plugin package.
///
/// The caller carries it out by removing `target_dir` recursively if it
/// exists, creating it fresh, and then performing `ops` in order; a failure
/// partway through is mended by retrying the whole installation, which
/// re-clears the directory first.
#[derive(Debug)]
pub struct InstallPlan {
    pub target_dir: String,
    pub ops: Vec<FsOp>,
}

/// Message used when the plugin directory to uninstall does not exist.
pub open spec fn plugin_dir_missing_message() -> Seq<char> {
    "plugin directory does not exist"@
}

/// Validates a plugin package held in memory and plans its installation
/// under `<plugin_root>/<window_id>`.
///
/// The identifier is checked first, then the package guards (size cap, zip
/// signature), then the archive itself (required files, zip-slip defense).
/// Whenever every check passes -- a well-formed identifier and a package
/// within the cap that parses as a zip archive whose entries decompress,
/// carry the required files and stay on safe paths -- a plan is owed, and
/// its writes are exactly the extraction of the package's entry list under
/// the target directory.
pub fn plan_install(plugin_root: &str, window_id: &str, bytes: Vec<u8>) -> (r: Result<
    InstallPlan,
    AppError,
>)
    ensures
        ({
            let target = plugin_root@ + "/"@ + window_id@;
            let ev = zip_entries_of(bytes@);
            let m_index = !some_entry_ends_with(ev, "index.html"@);
            let m_manifest = !some_entry_ends_with(ev, "mhPlugin.json"@);
            &&& (!valid_window_id(window_id@) <==> (r matches Err(e)
                && e is InvalidIdentifier))
            &&& (valid_window_id(window_id@) && bytes@.len() > MAX_PACKAGE_SIZE) ==> (
            r matches Err(e) && e matches AppError::Integrity(m) && m@ == oversized_message())
            &&& (valid_window_id(window_id@) && bytes@.len() <= MAX_PACKAGE_SIZE
                && !starts_with_zip_magic(bytes@)) ==> (r matches Err(e)
                && e matches AppError::Integrity(m) && m@ == not_zip_message())
            &&& r matches Ok(plan) ==> (valid_window_id(window_id@) && bytes@.len()
                <= MAX_PACKAGE_SIZE && starts_with_zip_magic(bytes@) && !m_index && !m_manifest
                && all_entries_safe(ev) && plan.target_dir@ == target && ops_view(plan.ops@)
                == spec_extract_ops(ev, target))
            &&& r matches Err(e) ==> (e is InvalidIdentifier || e is Integrity
                || e is Validation)
            &&& (valid_window_id(window_id@) && bytes@.len() <= MAX_PACKAGE_SIZE
                && starts_with_zip_magic(bytes@)) ==> (r matches Err(e) ==> (e is Validation ==> (
            m_index || m_manifest) && e.spec_message() == missing_files_message(m_index, m_manifest)))
            &&& (valid_window_id(window_id@) && bytes@.len() <= MAX_PACKAGE_SIZE
                && starts_with_zip_magic(bytes@) && !zip_opens(bytes@)) ==> (r matches Err(e)
                && e matches AppError::Integrity(m) && m@ == invalid_archive_message())
            &&& (valid_window_id(window_id@) && bytes@.len() <= MAX_PACKAGE_SIZE
                && starts_with_zip_magic(bytes@) && zip_opens(bytes@) && zip_entries_readable(
                bytes@,
            ) && !m_index && !m_manifest && all_entries_safe(ev)) ==> r is Ok
        }),
{
    let target_dir = match resolve_plugin_dir(plugin_root, window_id) {
        Ok(p) => p,
        Err(e) => {
            return Err(e);
        }
    };
    match check_package_bytes(&bytes) {
        Ok(()) => {}
        Err(e) => {
            return Err(e);
        }
    }
    match install_archive(bytes, target_dir.as_str()) {
        Ok(ops) => Ok(InstallPlan { target_dir, ops }),
        Err(e) => Err(e),
    }
}

/// Resolves the directory that uninstalling `window_id` must remove.
///
/// `target_exists` reports whether that directory currently exists; when it
/// does not, uninstalling fails with `NotFound`, and the registry row, if
/// any, is left for the next synchronization pass to clean up.
pub fn plan_uninstall(plugin_root: &str, window_id: &str, target_exists: bool) -> (r: Result<
    String,
    AppError,
>)
    ensures
        !valid_window_id(window_id@) ==> (r matches Err(e) && e matches
            AppError::InvalidIdentifier(m) && m@ == invalid_id_message()),
        valid_window_id(window_id@) && !target_exists ==> (r matches Err(e) && e matches
            AppError::NotFound(m) && m@ == plugin_dir_missing_message()),
        valid_window_id(window_id@) && target_exists ==> (r matches Ok(p) && p@ == plugin_root@
            + "/"@ + window_id@),
{
    match validate_window_id(window_id) {
        Ok(()) => {}
        Err(e) => {
            return Err(e);
        }
    }
    if !target_exists {
        return Err(AppError::NotFound("plugin directory does not exist".to_owned()));
    }
    resolve_plugin_dir(plugin_root, window_id)
}

/// `path` lies strictly inside directory `dir`.
pub open spec fn is_under(path: Seq<char>, dir: Seq<char>) -> bool {
    starts_with(path, dir + "/"@)
}

/// A flat model of the filesystem: each regular file's absolute path mapped
/// to its contents.
pub open spec fn apply_op(fs: Map<Seq<char>, Seq<u8>>, op: FsOpV) -> Map<Seq<char>, Seq<u8>> {
    match op {
        FsOpV::MakeDir { .. } => fs,
        FsOpV::WriteFile { path, data } => fs.insert(path, data),
    }
}

/// The files after performing `ops` in order.
pub open spec fn apply_ops(fs: Map<Seq<char>, Seq<u8>>, ops: Seq<FsOpV>) -> Map<Seq<char>, Seq<u8>>
    decreases ops.len(),
{
    if ops.len() == 0 {
        fs
    } else {
        apply_ops(apply_op(fs, ops[0]), ops.drop_first())
    }
}

/// The files after recursively deleting directory `dir`.
pub open spec fn clear_dir(fs: Map<Seq<char>, Seq<u8>>, dir: Seq<char>) -> Map<Seq<char>, Seq<u8>> {
    Map::new(|p: Seq<char>| fs.dom().contains(p) && !is_under(p, dir), |p: Seq<char>| fs[p])
}

/// The files after carrying an installation plan out on `fs`: the target
/// directory is cleared first, then the plan's writes are performed.
pub open spec fn apply_install(
    fs: Map<Seq<char>, Seq<u8>>,
    target: Seq<char>,
    ops: Seq<FsOpV>,
) -> Map<Seq<char>, Seq<u8>> {
    apply_ops(clear_dir(fs, target), ops)
}

/// The operation writes file `p`.
pub open spec fn writes_path(op: FsOpV, p: Seq<char>) -> bool {
    op matches FsOpV::WriteFile { path, .. } && path == p
}

/// `p` is written by one of the operations.
pub open spec fn written_by(ops: Seq<FsOpV>, p: Seq<char>) -> bool {
    exists|i: int| 0 <= i < ops.len() && writes_path(#[trigger] ops[i], p)
}

/// Applying operations that all touch paths under `target` changes nothing
/// elsewhere: files outside the target directory keep their contents.
pub proof fn lemma_apply_ops_outside(fs: Map<Seq<char>, Seq<u8>>, ops: Seq<FsOpV>, target: Seq<char>)
    requires
        forall|i: int| 0 <= i < ops.len() ==> is_under(op_path(#[trigger] ops[i]), target),
    ensures
        forall|p: Seq<char>|
            !is_under(p, target) ==> (apply_ops(fs, ops).dom().contains(p) <==> fs.dom().contains(
                p,
            )) && (fs.dom().contains(p) ==> apply_ops(fs, ops)[p] == fs[p]),
    decreases ops.len(),
{
    if ops.len() > 0 {
        lemma_apply_ops_outside(apply_op(fs, ops[0]), ops.drop_first(), target);
    }
}

/// Inside the target directory, the files after the plan are exactly the
/// files the plan writes: installation replaces, it does not merge.
pub proof fn lemma_install_replaces(
    fs: Map<Seq<char>, Seq<u8>>,
    ops: Seq<FsOpV>,
    target: Seq<char>,
)
    requires
        forall|i: int| 0 <= i < ops.len() ==> is_under(op_path(#[trigger] ops[i]), target),
    ensures
        forall|p: Seq<char>|
            is_under(p, target) ==> (apply_install(fs, target, ops).dom().contains(p)
                <==> written_by(ops, p)),
        forall|p: Seq<char>|
            !is_under(p, target) ==> (apply_install(fs, target, ops).dom().contains(p)
                <==> fs.dom().contains(p)) && (fs.dom().contains(p) ==> apply_install(
                fs,
                target,
                ops,
            )[p] == fs[p]),
{
    let cleared = clear_dir(fs, target);
    lemma_apply_ops_outside(cleared, ops, target);
    lemma_apply_ops_inside(cleared, ops, target);
    assert(forall|p: Seq<char>| is_under(p, target) ==> !cleared.dom().contains(p));
}

/// After applying operations under `target` to a base with nothing under
/// `target`, a path under `target` is present exactly when some operation
/// wrote it.
proof fn lemma_apply_ops_inside(fs: Map<Seq<char>, Seq<u8>>, ops: Seq<FsOpV>, target: Seq<char>)
    requires
        forall|i: int| 0 <= i < ops.len() ==> is_under(op_path(#[trigger] ops[i]), target),
    ensures
        forall|p: Seq<char>|
            is_under(p, target) ==> (apply_ops(fs, ops).dom().contains(p) <==> (fs.dom().contains(
                p,
            ) || written_by(ops, p))),
    decreases ops.len(),
{
    if ops.len() > 0 {
        lemma_apply_ops_inside(apply_op(fs, ops[0]), ops.drop_first(), target);
        assert forall|p: Seq<char>|
            is_under(p, target) implies (apply_ops(fs, ops).dom().contains(p) <==> (
        fs.dom().contains(p) || written_by(ops, p))) by {
            if written_by(ops.drop_first(), p) {
                let i = choose|i: int|
                    0 <= i < ops.drop_first().len() && writes_path(#[trigger] ops.drop_first()[i], p);
                assert(ops[i + 1] == ops.drop_first()[i]);
                assert(written_by(ops, p));
            }
            if written_by(ops, p) && !writes_path(ops[0], p) {
                let i = choose|i: int| 0 <= i < ops.len() && writes_path(#[trigger] ops[i], p);
                assert(ops.drop_first()[i - 1] == ops[i]);
                assert(written_by(ops.drop_first(), p));
            }
        }
    }
}

/// Every operation of an extraction plan stays under the target directory:
/// nothing is written outside it.
pub proof fn lemma_extract_ops_under_target(
    entries: Seq<(Seq<char>, bool, Seq<u8>)>,
    target: Seq<char>,
)
    ensures
        forall|i: int|
            0 <= i < spec_extract_ops(entries, target).len() ==> is_under(
                op_path(#[trigger] spec_extract_ops(entries, target)[i]),
                target,
            ),
{
    assert forall|i: int| 0 <= i < spec_extract_ops(entries, target).len() implies is_under(
        op_path(#[trigger] spec_extract_ops(entries, target)[i]),
        target,
    ) by {
        let p = op_path(spec_extract_ops(entries, target)[i]);
        assert(p == target + "/"@ + entries[i].0);
        assert forall|j: int| 0 <= j < (target + "/"@).len() implies p[j] == (target + "/"@)[j] by {
            assert(p[j] == (target + "/"@ + entries[i].0)[j]);
        }
    }
}

/// The two installation laws combined, for the plan of a concrete entry
/// list: carrying the plan out replaces the target directory's contents with
/// exactly the archive's files, and leaves every file outside the target
/// directory untouched.
pub proof fn lemma_install_plan_replaces(
    fs: Map<Seq<char>, Seq<u8>>,
    entries: Seq<(Seq<char>, bool, Seq<u8>)>,
    target: Seq<char>,
)
    ensures
        ({
            let ops = spec_extract_ops(entries, target);
            let after = apply_install(fs, target, ops);
            &&& forall|p: Seq<char>|
                is_under(p, target) ==> (after.dom().contains(p) <==> written_by(ops, p))
            &&& forall|p: Seq<char>|
                !is_under(p, target) ==> (after.dom().contains(p) <==> fs.dom().contains(p)) && (
                fs.dom().contains(p) ==> after[p] == fs[p])
        }),
{
    lemma_extract_ops_under_target(entries, target);
    lemma_install_replaces(fs, spec_extract_ops(entries, target), target);
}

} // verus!
