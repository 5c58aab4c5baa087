use vstd::prelude::*;
use crate::error::AppError;
use crate::strutil::{ends_with, str_ends_with};

verus! {

/// One entry of a plugin package: its path inside the archive, whether it is
/// a directory, and its decompressed contents.
#[derive(Debug)]
pub struct ArchiveEntry {
    pub name: String,
    pub is_dir: bool,
    pub data: Vec<u8>,
}

/// The model of an entry: name, directory flag, contents.
pub open spec fn entry_view(e: ArchiveEntry) -> (Seq<char>, bool, Seq<u8>) {
    (e.name@, e.is_dir, e.data@)
}

/// The models of a list of entries.
pub open spec fn entries_view(es: Seq<ArchiveEntry>) -> Seq<(Seq<char>, bool, Seq<u8>)> {
    Seq::new(es.len(), |i: int| entry_view(es[i]))
}

#[verifier::external_type_specification]
#[verifier::external_body]
#[verifier::reject_recursive_types(T)]
pub struct ExCursor<T>(std::io::Cursor<T>);

#[verifier::external_type_specification]
#[verifier::external_body]
#[verifier::reject_recursive_types(R)]
pub struct ExZipArchive<R>(zip::read::ZipArchive<R>);

/// The entry list that the zip format assigns to a byte string: a function
/// of the bytes alone.
pub uninterp spec fn zip_entries_of(bytes: Seq<u8>) -> Seq<(Seq<char>, bool, Seq<u8>)>;

/// Whether the zip format accepts the byte string: `ZipArchive::new` parses
/// the central directory deterministically, so whether it succeeds is a
/// function of the bytes alone.
pub uninterp spec fn zip_opens(bytes: Seq<u8>) -> bool;

/// Whether every entry of the archive the byte string describes can be
/// located and fully decompressed; like the entry list itself, a function of
/// the bytes alone.
pub uninterp spec fn zip_entries_readable(bytes: Seq<u8>) -> bool;

/// The entry list held by an open archive.
pub uninterp spec fn archive_entry_list(a: zip::read::ZipArchive<std::io::Cursor<Vec<u8>>>) -> Seq<
    (Seq<char>, bool, Seq<u8>),
>;

/// Whether every entry held by an open archive can be located and fully
/// decompressed.
pub uninterp spec fn archive_entries_readable(
    a: zip::read::ZipArchive<std::io::Cursor<Vec<u8>>>,
) -> bool;

/// Relies on `zip::read::ZipArchive::new`: parses the archive's central
/// directory out of the in-memory bytes.  The parse is deterministic, so it
/// succeeds exactly when the zip format accepts the bytes, and which entries
/// the archive then holds, and whether they decompress, are functions of the
/// bytes alone.
#[verifier::external_body]
fn open_archive(bytes: Vec<u8>) -> (r: Result<
    zip::read::ZipArchive<std::io::Cursor<Vec<u8>>>,
    String,
>)
    ensures
        r is Ok <==> zip_opens(bytes@),
        r matches Ok(a) ==> archive_entry_list(a) == zip_entries_of(bytes@)
            && archive_entries_readable(a) == zip_entries_readable(bytes@),
{
    match zip::read::ZipArchive::new(std::io::Cursor::new(bytes)) {
        Ok(a) => Ok(a),
        Err(e) => Err(e.to_string()),
    }
}

/// Relies on `zip::read::ZipArchive::len`: the number of files in the
/// archive.
#[verifier::external_body]
fn archive_len(a: &zip::read::ZipArchive<std::io::Cursor<Vec<u8>>>) -> (n: usize)
    ensures
        n == archive_entry_list(*a).len(),
{
    a.len()
}

/// Relies on `zip::read::ZipArchive::by_index` together with
/// `ZipFile::name`, `ZipFile::is_dir` and `Read::read_to_end`: yields entry
/// `i`'s raw name, directory flag and decompressed contents, and leaves the
/// archive's entry list as it was.  When every entry of the archive is
/// readable, reading one cannot fail.
#[verifier::external_body]
fn read_entry(a: &mut zip::read::ZipArchive<std::io::Cursor<Vec<u8>>>, i: usize) -> (r: Result<
    ArchiveEntry,
    String,
>)
    requires
        i < archive_entry_list(*old(a)).len(),
    ensures
        archive_entry_list(*final(a)) == archive_entry_list(*old(a)),
        archive_entries_readable(*final(a)) == archive_entries_readable(*old(a)),
        archive_entries_readable(*old(a)) ==> r is Ok,
        r matches Ok(e) ==> (e.name@, e.is_dir, e.data@) == archive_entry_list(*old(a))[i as int],
{
    match a.by_index(i) {
        Ok(mut f) => {
            let name = f.name().to_owned();
            let is_dir = f.is_dir();
            let mut data = Vec::new();
            match std::io::Read::read_to_end(&mut f, &mut data) {
                Ok(_) => Ok(ArchiveEntry { name, is_dir, data }),
                Err(e) => Err(e.to_string()),
            }
        }
        Err(e) => Err(e.to_string()),
    }
}

/// Reads every entry of an open archive into memory, in index order.  When
/// every entry is readable, collecting them succeeds.
fn collect_entries(a: &mut zip::read::ZipArchive<std::io::Cursor<Vec<u8>>>) -> (r: Result<
    Vec<ArchiveEntry>,
    AppError,
>)
    ensures
        archive_entry_list(*final(a)) == archive_entry_list(*old(a)),
        archive_entries_readable(*final(a)) == archive_entries_readable(*old(a)),
        archive_entries_readable(*old(a)) ==> r is Ok,
        r matches Ok(es) ==> entries_view(es@) == archive_entry_list(*old(a)),
        r matches Err(e) ==> e matches AppError::Integrity(m) && m@ == read_entry_message(),
{
    let n = archive_len(a);
    let mut out: Vec<ArchiveEntry> = Vec::new();
    let mut i: usize = 0;
    while i < n
        invariant
            archive_entry_list(*a) == archive_entry_list(*old(a)),
            archive_entries_readable(*a) == archive_entries_readable(*old(a)),
            n == archive_entry_list(*a).len(),
            0 <= i <= n,
            out@.len() == i,
            forall|j: int| 0 <= j < i ==> #[trigger] entry_view(out@[j]) == archive_entry_list(
                *a,
            )[j],
        decreases n - i,
    {
        match read_entry(a, i) {
            Ok(e) => {
                out.push(e);
            }
            Err(_) => {
                return Err(AppError::Integrity("failed to read archive entry".to_owned()));
            }
        }
        i = i + 1;
    }
    proof {
        assert(entries_view(out@) =~= archive_entry_list(*old(a)));
    }
    Ok(out)
}

/// Message used when an archive entry cannot be read.
pub open spec fn read_entry_message() -> Seq<char> {
    "failed to read archive entry"@
}

/// Message used when an archive cannot be opened.
pub open spec fn invalid_archive_message() -> Seq<char> {
    "invalid zip archive"@
}

/// Message used when an entry path would escape the target directory.
pub open spec fn illegal_path_message() -> Seq<char> {
    "archive contains illegal path"@
}

/// `..` forms a whole path component at index `k` of `n`.
pub open spec fn parent_component_at(n: Seq<char>, k: int) -> bool {
    &&& 0 <= k
    &&& k + 2 <= n.len()
    &&& n[k] == '.'
    &&& n[k + 1] == '.'
    &&& (k == 0 || n[k - 1] == '/')
    &&& (k + 2 == n.len() || n[k + 2] == '/')
}

/// Some `..` path component occurs in `n`.
pub open spec fn has_parent_component(n: Seq<char>) -> bool {
    exists|k: int| parent_component_at(n, k)
}

/// An entry name that is safe to join under the target directory: non-empty,
/// relative, free of backslashes and drive colons, and without any `..`
/// component.
pub open spec fn safe_entry_name(n: Seq<char>) -> bool {
    &&& n.len() > 0
    &&& n[0] != '/'
    &&& (forall|i: int| 0 <= i < n.len() ==> n[i] != '\\' && n[i] != ':')
    &&& !has_parent_component(n)
}

/// Checks that an entry name cannot escape the extraction target.
pub fn check_entry_name(name: &str) -> (r: bool)
    ensures
        r == safe_entry_name(name@),
{
    let n = name.unicode_len();
    if n == 0 {
        return false;
    }
    if name.get_char(0) == '/' {
        return false;
    }
    let mut i: usize = 0;
    while i < n
        invariant
            n == name@.len(),
            0 <= i <= n,
            forall|j: int| 0 <= j < i ==> name@[j] != '\\' && name@[j] != ':',
        decreases n - i,
    {
        let c = name.get_char(i);
        if c == '\\' || c == ':' {
            return false;
        }
        i = i + 1;
    }
    if n >= 2 {
        let mut k: usize = 0;
        while k <= n - 2
            invariant
                n == name@.len(),
                2 <= n,
                0 <= k <= n - 1,
                forall|l: int| 0 <= l < k ==> !parent_component_at(name@, l),
            decreases n - k,
        {
            if name.get_char(k) == '.' && name.get_char(k + 1) == '.' {
                let left_ok = k == 0 || name.get_char(k - 1) == '/';
                let right_ok = k + 2 == n || name.get_char(k + 2) == '/';
                if left_ok && right_ok {
                    assert(parent_component_at(name@, k as int));
                    return false;
                }
            }
            k = k + 1;
        }
    }
    assert forall|l: int| !parent_component_at(name@, l) by {
        if parent_component_at(name@, l) {
            assert(0 <= l && l + 2 <= n);
        }
    }
    true
}

/// Some entry's name ends with `name`.
pub open spec fn some_entry_ends_with(
    entries: Seq<(Seq<char>, bool, Seq<u8>)>,
    name: Seq<char>,
) -> bool {
    exists|i: int| 0 <= i < entries.len() && ends_with((#[trigger] entries[i]).0, name)
}

/// The required file names that no entry provides, in the fixed order
/// `index.html`, `mhPlugin.json`.
pub open spec fn missing_required(entries: Seq<(Seq<char>, bool, Seq<u8>)>) -> Seq<Seq<char>> {
    (if some_entry_ends_with(entries, "index.html"@) {
        Seq::<Seq<char>>::empty()
    } else {
        seq!["index.html"@]
    }) + (if some_entry_ends_with(entries, "mhPlugin.json"@) {
        Seq::<Seq<char>>::empty()
    } else {
        seq!["mhPlugin.json"@]
    })
}

/// Whether some entry's name ends with the given suffix.
fn has_entry_ending(entries: &Vec<ArchiveEntry>, suffix: &str) -> (r: bool)
    ensures
        r == some_entry_ends_with(entries_view(entries@), suffix@),
{
    let ghost ev = entries_view(entries@);
    let mut i: usize = 0;
    while i < entries.len()
        invariant
            ev == entries_view(entries@),
            0 <= i <= entries@.len(),
            forall|j: int| 0 <= j < i ==> !ends_with((#[trigger] ev[j]).0, suffix@),
        decreases entries@.len() - i,
    {
        if str_ends_with(entries[i].name.as_str(), suffix) {
            assert(ends_with(ev[i as int].0, suffix@));
            return true;
        }
        i = i + 1;
    }
    false
}

/// The required file names that no entry provides.
pub fn missing_required_files(entries: &Vec<ArchiveEntry>) -> (r: Vec<String>)
    ensures
        crate::json::keys_view(r@) == missing_required(entries_view(entries@)),
{
    let mut r: Vec<String> = Vec::new();
    if !has_entry_ending(entries, "index.html") {
        r.push("index.html".to_owned());
    }
    if !has_entry_ending(entries, "mhPlugin.json") {
        r.push("mhPlugin.json".to_owned());
    }
    proof {
        assert(crate::json::keys_view(r@) =~= missing_required(entries_view(entries@)));
    }
    r
}

/// Message that names the missing required files.
pub open spec fn missing_files_message(m_index: bool, m_manifest: bool) -> Seq<char> {
    if m_index && m_manifest {
        "missing required files: index.html, mhPlugin.json"@
    } else if m_index {
        "missing required files: index.html"@
    } else if m_manifest {
        "missing required files: mhPlugin.json"@
    } else {
        Seq::<char>::empty()
    }
}

/// A filesystem write of the extraction phase, to be carried out in order.
#[derive(Debug)]
pub enum FsOp {
    MakeDir { path: String },
    WriteFile { path: String, data: Vec<u8> },
}

/// The model of a filesystem write.
#[verifier::ext_equal]
pub enum FsOpV {
    MakeDir { path: Seq<char> },
    WriteFile { path: Seq<char>, data: Seq<u8> },
}

impl View for FsOp {
    type V = FsOpV;

    open spec fn view(&self) -> FsOpV {
        match self {
            FsOp::MakeDir { path } => FsOpV::MakeDir { path: path@ },
            FsOp::WriteFile { path, data } => FsOpV::WriteFile { path: path@, data: data@ },
        }
    }
}

/// The path an operation touches.
pub open spec fn op_path(op: FsOpV) -> Seq<char> {
    match op {
        FsOpV::MakeDir { path } => path,
        FsOpV::WriteFile { path, .. } => path,
    }
}

/// The models of a list of operations.
pub open spec fn ops_view(ops: Seq<FsOp>) -> Seq<FsOpV> {
    Seq::new(ops.len(), |i: int| ops[i]@)
}

/// The operation extracting one entry performs.
pub open spec fn op_of_entry(e: (Seq<char>, bool, Seq<u8>), target: Seq<char>) -> FsOpV {
    if e.1 {
        FsOpV::MakeDir { path: target + "/"@ + e.0 }
    } else {
        FsOpV::WriteFile { path: target + "/"@ + e.0, data: e.2 }
    }
}

/// The operations extracting a whole entry list performs, in entry order.
pub open spec fn spec_extract_ops(
    entries: Seq<(Seq<char>, bool, Seq<u8>)>,
    target: Seq<char>,
) -> Seq<FsOpV> {
    Seq::new(entries.len(), |i: int| op_of_entry(entries[i], target))
}

/// Every entry name is safe.
pub open spec fn all_entries_safe(entries: Seq<(Seq<char>, bool, Seq<u8>)>) -> bool {
    forall|i: int| 0 <= i < entries.len() ==> safe_entry_name((#[trigger] entries[i]).0)
}

/// Turns the entries into the ordered list of filesystem writes under the
/// target directory, or rejects the whole archive if any entry's path could
/// escape it (the zip-slip defense): in that case nothing is written.
pub fn plan_extraction(entries: &Vec<ArchiveEntry>, target_dir: &str) -> (r: Result<
    Vec<FsOp>,
    AppError,
>)
    ensures
        r is Ok <==> all_entries_safe(entries_view(entries@)),
        r matches Ok(ops) ==> ops_view(ops@) == spec_extract_ops(
            entries_view(entries@),
            target_dir@,
        ),
        r matches Err(e) ==> e matches AppError::Integrity(m) && m@ == illegal_path_message(),
{
    let ghost ev = entries_view(entries@);
    let mut ops: Vec<FsOp> = Vec::new();
    let mut i: usize = 0;
    while i < entries.len()
        invariant
            ev == entries_view(entries@),
            0 <= i <= entries@.len(),
            ops@.len() == i,
            forall|j: int| 0 <= j < i ==> safe_entry_name((#[trigger] ev[j]).0),
            forall|j: int| 0 <= j < i ==> (#[trigger] ops@[j])@ == op_of_entry(ev[j], target_dir@),
        decreases entries@.len() - i,
    {
        let entry = &entries[i];
        if !check_entry_name(entry.name.as_str()) {
            assert(!safe_entry_name(ev[i as int].0));
            return Err(AppError::Integrity("archive contains illegal path".to_owned()));
        }
        let mut path = target_dir.to_owned();
        path.append("/");
        path.append(entry.name.as_str());
        if entry.is_dir {
            ops.push(FsOp::MakeDir { path });
        } else {
            let mut data: Vec<u8> = Vec::new();
            data.extend_from_slice(entry.data.as_slice());
            assert(data@ =~= entry.data@);
            ops.push(FsOp::WriteFile { path, data });
        }
        assert(ops@[i as int]@ =~= op_of_entry(ev[i as int], target_dir@));
        i = i + 1;
    }
    proof {
        assert(ops_view(ops@) =~= spec_extract_ops(ev, target_dir@));
    }
    Ok(ops)
}

/// Validates and plans the installation of an already-listed archive.
///
/// First the required files are enforced: if `index.html` or `mhPlugin.json`
/// is missing the archive is rejected, naming the missing files, before any
/// extraction work.  Then extraction is planned with the zip-slip defense.
pub fn install_archive_entries(entries: &Vec<ArchiveEntry>, target_dir: &str) -> (r: Result<
    Vec<FsOp>,
    AppError,
>)
    ensures
        ({
            let ev = entries_view(entries@);
            let m_index = !some_entry_ends_with(ev, "index.html"@);
            let m_manifest = !some_entry_ends_with(ev, "mhPlugin.json"@);
            &&& (m_index || m_manifest) ==> (r matches Err(e) && e matches AppError::Validation(m)
                && m@ == missing_files_message(m_index, m_manifest))
            &&& (!m_index && !m_manifest && !all_entries_safe(ev)) ==> (r matches Err(e)
                && e matches AppError::Integrity(m) && m@ == illegal_path_message())
            &&& (!m_index && !m_manifest && all_entries_safe(ev)) ==> (r matches Ok(ops)
                && ops_view(ops@) == spec_extract_ops(ev, target_dir@))
        }),
{
    let m_index = !has_entry_ending(entries, "index.html");
    let m_manifest = !has_entry_ending(entries, "mhPlugin.json");
    if m_index && m_manifest {
        return Err(AppError::Validation(
            "missing required files: index.html, mhPlugin.json".to_owned(),
        ));
    }
    if m_index {
        return Err(AppError::Validation("missing required files: index.html".to_owned()));
    }
    if m_manifest {
        return Err(AppError::Validation("missing required files: mhPlugin.json".to_owned()));
    }
    plan_extraction(entries, target_dir)
}

/// Opens a plugin package held in memory and plans its installation.
///
/// Whenever the bytes parse as a zip archive whose entries decompress, whose
/// entry names carry the required files, and whose paths are all safe, a
/// plan is owed, and its writes are exactly the extraction of the package's
/// entry list under the target directory.  Bytes the zip format rejects fail
/// as `Integrity`; every other failure of the package itself is `Integrity`
/// (unreadable entry, illegal path) or `Validation` (missing required files,
/// naming them).
pub fn install_archive(bytes: Vec<u8>, target_dir: &str) -> (r: Result<Vec<FsOp>, AppError>)
    ensures
        ({
            let ev = zip_entries_of(bytes@);
            let m_index = !some_entry_ends_with(ev, "index.html"@);
            let m_manifest = !some_entry_ends_with(ev, "mhPlugin.json"@);
            &&& !zip_opens(bytes@) ==> (r matches Err(e) && e matches AppError::Integrity(m)
                && m@ == invalid_archive_message())
            &&& (zip_opens(bytes@) && zip_entries_readable(bytes@) && !m_index && !m_manifest
                && all_entries_safe(ev)) ==> r is Ok
            &&& r matches Ok(ops) ==> !m_index && !m_manifest && all_entries_safe(ev) && ops_view(
                ops@,
            ) == spec_extract_ops(ev, target_dir@)
            &&& r matches Err(e) ==> ((e is Integrity || e is Validation) && (e is Validation
                ==> (m_index || m_manifest) && e.spec_message() == missing_files_message(
                m_index,
                m_manifest,
            )))
        }),
{
    let mut archive = match open_archive(bytes) {
        Ok(a) => a,
        Err(_) => {
            return Err(AppError::Integrity("invalid zip archive".to_owned()));
        }
    };
    let entries = match collect_entries(&mut archive) {
        Ok(es) => es,
        Err(e) => {
            return Err(e);
        }
    };
    install_archive_entries(&entries, target_dir)
}

/// The first entry whose name marks it as the plugin manifest.
pub open spec fn manifest_entry_first_at(
    entries: Seq<(Seq<char>, bool, Seq<u8>)>,
    i: int,
) -> bool {
    &&& 0 <= i < entries.len()
    &&& ends_with(entries[i].0, "mhPlugin.json"@)
    &&& forall|l: int| 0 <= l < i ==> !ends_with((#[trigger] entries[l]).0, "mhPlugin.json"@)
}

/// The contents of the first entry whose name ends with `mhPlugin.json`,
/// scanning in entry order; nothing when no entry carries the manifest.
pub fn find_manifest_data(entries: &Vec<ArchiveEntry>) -> (r: Option<Vec<u8>>)
    ensures
        r matches Some(b) ==> exists|i: int|
            #[trigger] manifest_entry_first_at(entries_view(entries@), i) && b@ == entries_view(
                entries@,
            )[i].2,
        r is None ==> !some_entry_ends_with(entries_view(entries@), "mhPlugin.json"@),
{
    let ghost ev = entries_view(entries@);
    let mut i: usize = 0;
    while i < entries.len()
        invariant
            ev == entries_view(entries@),
            0 <= i <= entries@.len(),
            forall|l: int| 0 <= l < i ==> !ends_with((#[trigger] ev[l]).0, "mhPlugin.json"@),
        decreases entries@.len() - i,
    {
        if str_ends_with(entries[i].name.as_str(), "mhPlugin.json") {
            let mut data: Vec<u8> = Vec::new();
            data.extend_from_slice(entries[i].data.as_slice());
            proof {
                assert(data@ =~= ev[i as int].2);
                assert(manifest_entry_first_at(ev, i as int));
            }
            return Some(data);
        }
        i = i + 1;
    }
    None
}

/// Opens a plugin package held in memory and lists its entries, names and
/// decompressed contents alike, in archive order.  Whenever the bytes parse
/// as a zip archive whose entries decompress, the listing is owed.
pub fn read_package_entries(bytes: Vec<u8>) -> (r: Result<Vec<ArchiveEntry>, AppError>)
    ensures
        !zip_opens(bytes@) ==> (r matches Err(e) && e matches AppError::Integrity(m) && m@
            == invalid_archive_message()),
        zip_opens(bytes@) && zip_entries_readable(bytes@) ==> r is Ok,
        r matches Ok(es) ==> entries_view(es@) == zip_entries_of(bytes@),
        r matches Err(e) ==> e is Integrity,
{
    let mut archive = match open_archive(bytes) {
        Ok(a) => a,
        Err(_) => {
            return Err(AppError::Integrity("invalid zip archive".to_owned()));
        }
    };
    collect_entries(&mut archive)
}

} // verus!
