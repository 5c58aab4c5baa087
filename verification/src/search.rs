use vstd::prelude::*;
use crate::package::is_sep;
use crate::strutil::{eq_ignore_case, push_char, str_eq_ignore_case};

verus! {

/// Options of one file search.
#[derive(Debug, Clone)]
pub struct SearchOptions {
    pub paths: Vec<String>,
    pub pattern: Option<String>,
    pub is_glob: Option<bool>,
    pub hidden: bool,
    pub no_ignore: bool,
    pub file_type: Option<String>,
    pub extension: Option<Vec<String>>,
    pub max_depth: Option<usize>,
    pub exclude: Option<Vec<String>>,
    pub case_sensitive: bool,
}

impl Default for SearchOptions {
    /// The default search: the current directory, no pattern, no filters.
    fn default() -> (r: Self)
        ensures
            r.paths@.len() == 1 && r.paths@[0]@ == "."@,
            r.pattern is None,
            r.is_glob == Some(false),
            !r.hidden,
            !r.no_ignore,
            r.file_type is None,
            r.extension is None,
            r.max_depth is None,
            r.exclude is None,
            !r.case_sensitive,
    {
        let mut paths: Vec<String> = Vec::new();
        paths.push(".".to_owned());
        SearchOptions {
            paths,
            pattern: None,
            is_glob: Some(false),
            hidden: false,
            no_ignore: false,
            file_type: None,
            extension: None,
            max_depth: None,
            exclude: None,
            case_sensitive: false,
        }
    }
}

/// One search hit.
#[derive(Debug, Clone)]
pub struct SearchResult {
    pub path: String,
    pub file_type: String,
    pub size: Option<u64>,
    pub name: String,
    pub is_hidden: bool,
}

/// The file search engine; walking the directory tree is the host's work,
/// the matching rules live here.
#[derive(Debug)]
pub struct FdSearch;

/// `d` is the position of the dot that starts the path's extension: the
/// last dot, inside the final path component, and not its first character.
pub open spec fn extension_at(p: Seq<char>, d: int) -> bool {
    &&& 1 <= d < p.len()
    &&& p[d] == '.'
    &&& !is_sep(p[d - 1])
    &&& forall|j: int| d < j < p.len() ==> p[j] != '.' && !is_sep(#[trigger] p[j])
}

/// The path's extension equals `e`, compared without regard to ASCII case.
pub open spec fn extension_matches(p: Seq<char>, e: Seq<char>) -> bool {
    exists|d: int| #[trigger] extension_at(p, d) && eq_ignore_case(p.skip(d + 1), e)
}

/// At most one position can start the extension.
proof fn lemma_extension_unique(p: Seq<char>, d1: int, d2: int)
    requires
        extension_at(p, d1),
        extension_at(p, d2),
    ensures
        d1 == d2,
{
    if d1 < d2 {
        assert(p[d2] == '.');
    }
    if d2 < d1 {
        assert(p[d1] == '.');
    }
}

/// The position where the path's extension starts, if it has one.
fn find_extension_start(p: &str) -> (r: Option<usize>)
    ensures
        r matches Some(d) ==> extension_at(p@, d as int),
        r is None ==> forall|d: int| !extension_at(p@, d),
{
    let n = p.unicode_len();
    let mut i: usize = n;
    while i > 0
        invariant
            n == p@.len(),
            0 <= i <= n,
            forall|j: int| i <= j < n ==> p@[j] != '.' && !is_sep(#[trigger] p@[j]),
        decreases i,
    {
        let c = p.get_char(i - 1);
        if c == '.' {
            if i >= 2 {
                let b = p.get_char(i - 2);
                if !(b == '/' || b == '\\') {
                    return Some(i - 1);
                }
            }
            assert forall|d: int| !extension_at(p@, d) by {
                if extension_at(p@, d) {
                    if d < i - 1 {
                        assert(p@[i - 1] == '.');
                    } else if d > i - 1 {
                        assert(p@[d] != '.');
                    }
                }
            }
            return None;
        }
        if c == '/' || c == '\\' {
            assert forall|d: int| !extension_at(p@, d) by {
                if extension_at(p@, d) {
                    if d < i - 1 {
                        assert(is_sep(p@[i - 1]));
                    } else if d > i - 1 {
                        assert(p@[d] != '.');
                    } else {
                        assert(p@[d] == '.');
                    }
                }
            }
            return None;
        }
        i = i - 1;
    }
    assert forall|d: int| !extension_at(p@, d) by {
        if extension_at(p@, d) {
            assert(p@[d] != '.');
        }
    }
    None
}

impl FdSearch {
    /// Whether the path's extension equals one of the given extensions,
    /// compared without regard to ASCII case; a path without an extension
    /// matches nothing.
    pub fn check_extension(path: &str, extensions: &Vec<String>) -> (r: bool)
        ensures
            r == exists|k: int|
                0 <= k < extensions@.len() && extension_matches(path@, (#[trigger] extensions@[k])@),
    {
        let n = path.unicode_len();
        match find_extension_start(path) {
            Some(d) => {
                let tail = path.substring_char(d + 1, n);
                let mut k: usize = 0;
                while k < extensions.len()
                    invariant
                        n == path@.len(),
                        extension_at(path@, d as int),
                        tail@ == path@.skip(d as int + 1),
                        0 <= k <= extensions@.len(),
                        forall|l: int|
                            0 <= l < k ==> !eq_ignore_case(
                                path@.skip(d as int + 1),
                                (#[trigger] extensions@[l])@,
                            ),
                    decreases extensions@.len() - k,
                {
                    if str_eq_ignore_case(tail, extensions[k].as_str()) {
                        assert(extension_matches(path@, extensions@[k as int]@));
                        return true;
                    }
                    k = k + 1;
                }
                assert forall|l: int|
                    0 <= l < extensions@.len() implies !extension_matches(
                    path@,
                    (#[trigger] extensions@[l])@,
                ) by {
                    if extension_matches(path@, extensions@[l]@) {
                        let d2 = choose|d2: int|
                            #[trigger] extension_at(path@, d2) && eq_ignore_case(
                                path@.skip(d2 + 1),
                                extensions@[l]@,
                            );
                        lemma_extension_unique(path@, d as int, d2);
                    }
                }
                false
            }
            None => {
                assert forall|l: int|
                    0 <= l < extensions@.len() implies !extension_matches(
                    path@,
                    (#[trigger] extensions@[l])@,
                ) by {
                    if extension_matches(path@, extensions@[l]@) {
                        let d2 = choose|d2: int|
                            #[trigger] extension_at(path@, d2) && eq_ignore_case(
                                path@.skip(d2 + 1),
                                extensions@[l]@,
                            );
                    }
                }
                false
            }
        }
    }

    /// Converts a glob pattern to an anchored regular expression, matching
    /// the whole file name.
    pub fn glob_to_regex(pattern: &str) -> (r: String)
        ensures
            r@ == spec_glob_regex(pattern@),
    {
        let n = pattern.unicode_len();
        let mut r = "^".to_owned();
        let mut i: usize = 0;
        while i < n
            invariant
                n == pattern@.len(),
                0 <= i <= n,
                r@ == "^"@ + glob_body(pattern@.take(i as int)),
            decreases n - i,
        {
            proof {
                assert(pattern@.take(i as int + 1).drop_last() =~= pattern@.take(i as int));
                assert(pattern@.take(i as int + 1).last() == pattern@[i as int]);
            }
            let c = pattern.get_char(i);
            if c == '.' {
                r.append("\\.");
            } else if c == '*' {
                r.append(".*");
            } else if c == '?' {
                r.append(".");
            } else if c == '[' || c == ']' || c == '(' || c == ')' || c == '{' || c == '}' || c
                == '+' || c == '^' || c == '$' || c == '|' || c == '\\' {
                push_char(&mut r, '\\');
                push_char(&mut r, c);
            } else {
                push_char(&mut r, c);
            }
            proof {
                assert(r@ =~= "^"@ + glob_body(pattern@.take(i as int + 1)));
            }
            i = i + 1;
        }
        proof {
            assert(pattern@.take(n as int) =~= pattern@);
        }
        r.append("$");
        r
    }
}

/// A character the regular-expression language treats specially, escaped
/// with a backslash when it occurs in a glob.
pub open spec fn glob_special(c: char) -> bool {
    c == '[' || c == ']' || c == '(' || c == ')' || c == '{' || c == '}' || c == '+' || c == '^'
        || c == '$' || c == '|' || c == '\\'
}

/// The regular-expression text one glob character turns into.
pub open spec fn glob_char_regex(c: char) -> Seq<char> {
    if c == '.' {
        "\\."@
    } else if c == '*' {
        ".*"@
    } else if c == '?' {
        "."@
    } else if glob_special(c) {
        seq!['\\', c]
    } else {
        seq![c]
    }
}

/// The body of the regular expression a glob turns into.
pub open spec fn glob_body(p: Seq<char>) -> Seq<char>
    decreases p.len(),
{
    if p.len() == 0 {
        Seq::empty()
    } else {
        glob_body(p.drop_last()) + glob_char_regex(p.last())
    }
}

/// The whole anchored regular expression a glob turns into.
pub open spec fn spec_glob_regex(p: Seq<char>) -> Seq<char> {
    "^"@ + glob_body(p) + "$"@
}

} // verus!
