use vstd::prelude::*;

verus! {

/// `s` ends with `t`.
pub open spec fn ends_with(s: Seq<char>, t: Seq<char>) -> bool {
    s.len() >= t.len() && (forall|i: int| 0 <= i < t.len() ==> s[s.len() - t.len() + i] == t[i])
}

/// `s` starts with `t`.
pub open spec fn starts_with(s: Seq<char>, t: Seq<char>) -> bool {
    s.len() >= t.len() && (forall|i: int| 0 <= i < t.len() ==> s[i] == t[i])
}

/// `t` occurs in `s` starting at index `k`.
pub open spec fn occurs_at(s: Seq<char>, t: Seq<char>, k: int) -> bool {
    0 <= k && k + t.len() <= s.len() && (forall|i: int| 0 <= i < t.len() ==> s[k + i] == t[i])
}

/// `t` occurs somewhere in `s`.
pub open spec fn contains_seq(s: Seq<char>, t: Seq<char>) -> bool {
    exists|k: int| occurs_at(s, t, k)
}

/// ASCII upper-case letters folded to lower case; all else unchanged.
pub open spec fn lower_char(c: char) -> char {
    if 'A' <= c && c <= 'Z' {
        (((c as u8) + 32) as char)
    } else {
        c
    }
}

/// Equal up to ASCII case.
pub open spec fn eq_ignore_case(s: Seq<char>, t: Seq<char>) -> bool {
    s.len() == t.len() && (forall|i: int| 0 <= i < s.len() ==> lower_char(s[i]) == lower_char(t[i]))
}

/// Backslashes replaced by forward slashes.
pub open spec fn normalize_seps(s: Seq<char>) -> Seq<char> {
    Seq::new(s.len(), |i: int| if s[i] == '\\' { '/' } else { s[i] })
}

/// Relies on `String::push`: appends one character at the end.
#[verifier::external_body]
pub fn push_char(s: &mut String, c: char)
    ensures
        final(s)@ == old(s)@.push(c),
{
    s.push(c)
}

/// Replaces every backslash with a forward slash.
pub fn replace_backslashes(s: &str) -> (r: String)
    ensures
        r@ == normalize_seps(s@),
{
    let n = s.unicode_len();
    let mut r = String::new();
    let mut i: usize = 0;
    while i < n
        invariant
            n == s@.len(),
            0 <= i <= n,
            r@ == normalize_seps(s@).take(i as int),
        decreases n - i,
    {
        let c = s.get_char(i);
        if c == '\\' {
            push_char(&mut r, '/');
        } else {
            push_char(&mut r, c);
        }
        proof {
            assert(r@ =~= normalize_seps(s@).take(i as int + 1));
        }
        i = i + 1;
    }
    proof {
        assert(normalize_seps(s@).take(n as int) =~= normalize_seps(s@));
    }
    r
}

/// ASCII lower-case letters folded to upper case; all else unchanged.
pub open spec fn upper_char(c: char) -> char {
    if 'a' <= c && c <= 'z' {
        (((c as u8) - 32) as char)
    } else {
        c
    }
}

/// `s` with every ASCII letter upper-cased.
pub open spec fn upper_seq(s: Seq<char>) -> Seq<char> {
    Seq::new(s.len(), |i: int| upper_char(s[i]))
}

/// ASCII upper-casing of a whole string.
pub fn ascii_uppercase(s: &str) -> (r: String)
    ensures
        r@ == upper_seq(s@),
{
    let n = s.unicode_len();
    let mut r = String::new();
    let mut i: usize = 0;
    while i < n
        invariant
            n == s@.len(),
            0 <= i <= n,
            r@ == upper_seq(s@).take(i as int),
        decreases n - i,
    {
        let c = s.get_char(i);
        if 'a' <= c && c <= 'z' {
            push_char(&mut r, ((c as u8) - 32) as char);
        } else {
            push_char(&mut r, c);
        }
        proof {
            assert(r@ =~= upper_seq(s@).take(i as int + 1));
        }
        i = i + 1;
    }
    proof {
        assert(upper_seq(s@).take(n as int) =~= upper_seq(s@));
    }
    r
}

/// Whether `s` ends with `t`.
pub fn str_ends_with(s: &str, t: &str) -> (r: bool)
    ensures
        r == ends_with(s@, t@),
{
    let n = s.unicode_len();
    let m = t.unicode_len();
    if m > n {
        return false;
    }
    let mut i: usize = 0;
    while i < m
        invariant
            n == s@.len(),
            m == t@.len(),
            m <= n,
            0 <= i <= m,
            forall|j: int| 0 <= j < i ==> s@[n - m + j] == t@[j],
        decreases m - i,
    {
        let a = s.get_char(n - m + i);
        let b = t.get_char(i);
        if a != b {
            assert(s@[n as int - m + i] != t@[i as int]);
            return false;
        }
        i = i + 1;
    }
    true
}

/// Whether `s` starts with `t`.
pub fn str_starts_with(s: &str, t: &str) -> (r: bool)
    ensures
        r == starts_with(s@, t@),
{
    let n = s.unicode_len();
    let m = t.unicode_len();
    if m > n {
        return false;
    }
    let mut i: usize = 0;
    while i < m
        invariant
            n == s@.len(),
            m == t@.len(),
            m <= n,
            0 <= i <= m,
            forall|j: int| 0 <= j < i ==> s@[j] == t@[j],
        decreases m - i,
    {
        if s.get_char(i) != t.get_char(i) {
            return false;
        }
        i = i + 1;
    }
    true
}

/// Whether `t` occurs anywhere in `s`.
pub fn str_contains(s: &str, t: &str) -> (r: bool)
    ensures
        r == contains_seq(s@, t@),
{
    let n = s.unicode_len();
    let m = t.unicode_len();
    if m > n {
        assert(forall|k: int| !occurs_at(s@, t@, k));
        return false;
    }
    let mut k: usize = 0;
    while k <= n - m
        invariant
            n == s@.len(),
            m == t@.len(),
            m <= n,
            0 <= k <= n - m + 1,
            forall|l: int| 0 <= l < k ==> !occurs_at(s@, t@, l),
        decreases n - m + 1 - k,
    {
        let mut i: usize = 0;
        let mut matched = true;
        while i < m
            invariant
                n == s@.len(),
                m == t@.len(),
                m <= n,
                0 <= k <= n - m,
                0 <= i <= m,
                matched ==> forall|j: int| 0 <= j < i ==> s@[k + j] == t@[j],
                !matched ==> !occurs_at(s@, t@, k as int),
            decreases m - i,
        {
            if matched {
                let a = s.get_char(k + i);
                let b = t.get_char(i);
                if a != b {
                    assert(s@[k as int + i] != t@[i as int]);
                    matched = false;
                }
            }
            i = i + 1;
        }
        if matched {
            assert(occurs_at(s@, t@, k as int));
            return true;
        }
        k = k + 1;
    }
    assert forall|l: int| !occurs_at(s@, t@, l) by {
        if occurs_at(s@, t@, l) {
            assert(0 <= l <= n - m);
        }
    }
    false
}

/// Whether `s` and `t` are equal up to ASCII case.
pub fn str_eq_ignore_case(s: &str, t: &str) -> (r: bool)
    ensures
        r == eq_ignore_case(s@, t@),
{
    let n = s.unicode_len();
    let m = t.unicode_len();
    if n != m {
        return false;
    }
    let mut i: usize = 0;
    while i < n
        invariant
            n == s@.len(),
            n == t@.len(),
            0 <= i <= n,
            forall|j: int| 0 <= j < i ==> lower_char(s@[j]) == lower_char(t@[j]),
        decreases n - i,
    {
        let a = lower_exec(s.get_char(i));
        let b = lower_exec(t.get_char(i));
        if a != b {
            return false;
        }
        i = i + 1;
    }
    true
}

/// Whether `s` ends with `t`, up to ASCII case.
pub open spec fn ends_with_ignore_case(s: Seq<char>, t: Seq<char>) -> bool {
    s.len() >= t.len() && eq_ignore_case(s.subrange(s.len() - t.len(), s.len() as int), t)
}

pub fn str_ends_with_ignore_case(s: &str, t: &str) -> (r: bool)
    ensures
        r == ends_with_ignore_case(s@, t@),
{
    let n = s.unicode_len();
    let m = t.unicode_len();
    if m > n {
        return false;
    }
    let ghost tail = s@.subrange(n as int - m, n as int);
    let mut i: usize = 0;
    while i < m
        invariant
            n == s@.len(),
            m == t@.len(),
            m <= n,
            0 <= i <= m,
            tail == s@.subrange(n as int - m, n as int),
            forall|j: int| 0 <= j < i ==> lower_char(tail[j]) == lower_char(t@[j]),
        decreases m - i,
    {
        let a = lower_exec(s.get_char(n - m + i));
        let b = lower_exec(t.get_char(i));
        if a != b {
            assert(lower_char(tail[i as int]) != lower_char(t@[i as int]));
            return false;
        }
        assert(tail[i as int] == s@[n - m + i]);
        i = i + 1;
    }
    true
}

/// ASCII lower-casing of one character.
fn lower_exec(c: char) -> (r: char)
    ensures
        r == lower_char(c),
{
    if 'A' <= c && c <= 'Z' {
        (((c as u8) + 32) as char)
    } else {
        c
    }
}

} // verus!
