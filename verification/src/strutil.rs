//! Character-sequence utilities: substring search, literal replacement of all
//! occurrences, the placeholder expander and the home-directory heuristic.

use vstd::prelude::*;
use vstd::string::*;

verus! {

/// True when `pat` occurs in `s` at position `i`.
pub open spec fn match_at(s: Seq<char>, pat: Seq<char>, i: int) -> bool {
    0 <= i && i + pat.len() <= s.len() && s.subrange(i, i + pat.len() as int) == pat
}

/// True when `pat` occurs somewhere in `s`.
pub open spec fn occurs(s: Seq<char>, pat: Seq<char>) -> bool {
    exists|i: int| match_at(s, pat, i)
}

/// Position of the first occurrence of `pat` in `s` at or after `from`.
pub open spec fn first_match_from(s: Seq<char>, pat: Seq<char>, from: int) -> Option<int>
    decreases s.len() - from,
{
    if from < 0 || from + pat.len() > s.len() {
        None
    } else if pat.len() == 0 {
        Some(from)
    } else if s.subrange(from, from + pat.len() as int) == pat {
        Some(from)
    } else {
        first_match_from(s, pat, from + 1)
    }
}

/// `s` with every occurrence of `pat` replaced by `rep`, scanning left to
/// right without overlap, as `str::replace` does.
pub open spec fn replace_all(s: Seq<char>, pat: Seq<char>, rep: Seq<char>) -> Seq<char>
    decreases s.len(),
{
    if pat.len() == 0 || s.len() < pat.len() {
        s
    } else if s.subrange(0, pat.len() as int) == pat {
        rep + replace_all(s.skip(pat.len() as int), pat, rep)
    } else {
        seq![s[0]] + replace_all(s.skip(1), pat, rep)
    }
}

/// True when `home` begins with the literal `/home/`.
pub open spec fn has_home_prefix(home: Seq<char>) -> bool {
    home.len() >= 6 && home.subrange(0, 6) == "/home/"@
}

/// The substitutions of the variable expander: when `home` is non-empty,
/// `${HOME}` and then `$HOME` are replaced by `home`; when `home` has the
/// shape `/home/<name>`, `${USER}` and then `$USER` are replaced by `<name>`.
pub open spec fn expand_spec(path: Seq<char>, home: Seq<char>) -> Seq<char> {
    let with_home = if home.len() > 0 {
        replace_all(replace_all(path, "${HOME}"@, home), "$HOME"@, home)
    } else {
        path
    };
    if has_home_prefix(home) {
        let user = home.skip(6);
        replace_all(replace_all(with_home, "${USER}"@, user), "$USER"@, user)
    } else {
        with_home
    }
}

/// The home directory inferred from a workspace path: the segment after the
/// first `/home/`, up to the next `/`; otherwise the `env_home` fallback.
pub open spec fn infer_home_spec(path: Seq<char>, env_home: Seq<char>) -> Seq<char> {
    match first_match_from(path, "/home/"@, 0) {
        Some(start) => match first_match_from(path, "/"@, start + 6) {
            Some(end) => "/home/"@ + path.subrange(start + 6, end),
            None => env_home,
        },
        None => env_home,
    }
}

/// The characters of `s`, in order.
pub fn str_chars(s: &str) -> (v: Vec<char>)
    ensures
        v@ == s@,
{
    let n = s.unicode_len();
    let mut v: Vec<char> = Vec::new();
    let mut i: usize = 0;
    while i < n
        invariant
            i <= n,
            n == s@.len(),
            v@ == s@.subrange(0, i as int),
        decreases n - i,
    {
        let c = s.get_char(i);
        v.push(c);
        proof {
            assert(s@.subrange(0, i + 1 as int) =~= s@.subrange(0, i as int).push(s@[i as int]));
        }
        i += 1;
    }
    proof {
        assert(s@.subrange(0, n as int) =~= s@);
    }
    v
}

/// Relies on `String`'s `FromIterator<char>` impl, reached through
/// `Iterator::collect`: the collected string holds exactly the characters
/// of `v`, in order.
#[verifier::external_body]
pub fn chars_to_string(v: &Vec<char>) -> (s: String)
    ensures
        s@ == v@,
{
    v.iter().collect()
}

/// The concatenation of `a` and `b`.
pub fn concat_chars(a: &Vec<char>, b: &Vec<char>) -> (r: Vec<char>)
    ensures
        r@ == a@ + b@,
{
    let mut r: Vec<char> = Vec::new();
    let mut i: usize = 0;
    while i < a.len()
        invariant
            i <= a@.len(),
            r@ == a@.subrange(0, i as int),
        decreases a@.len() - i,
    {
        r.push(a[i]);
        proof {
            assert(a@.subrange(0, i + 1 as int) =~= a@.subrange(0, i as int).push(a@[i as int]));
        }
        i += 1;
    }
    let mut j: usize = 0;
    while j < b.len()
        invariant
            j <= b@.len(),
            r@ == a@.subrange(0, a@.len() as int) + b@.subrange(0, j as int),
        decreases b@.len() - j,
    {
        r.push(b[j]);
        proof {
            assert(b@.subrange(0, j + 1 as int) =~= b@.subrange(0, j as int).push(b@[j as int]));
        }
        j += 1;
    }
    proof {
        assert(a@.subrange(0, a@.len() as int) =~= a@);
        assert(b@.subrange(0, b@.len() as int) =~= b@);
    }
    r
}

/// The characters of `v` from `from` (inclusive) to `to` (exclusive).
pub fn sub_chars(v: &Vec<char>, from: usize, to: usize) -> (r: Vec<char>)
    requires
        from <= to <= v@.len(),
    ensures
        r@ == v@.subrange(from as int, to as int),
{
    let mut r: Vec<char> = Vec::new();
    let mut i: usize = from;
    while i < to
        invariant
            from <= i <= to <= v@.len(),
            r@ == v@.subrange(from as int, i as int),
        decreases to - i,
    {
        r.push(v[i]);
        proof {
            assert(v@.subrange(from as int, i + 1 as int) =~= v@.subrange(
                from as int,
                i as int,
            ).push(v@[i as int]));
        }
        i += 1;
    }
    r
}

/// Whether `pat` occurs in `s` at position `i`.
pub fn eq_at(s: &Vec<char>, pat: &Vec<char>, i: usize) -> (r: bool)
    requires
        i + pat@.len() <= s@.len(),
    ensures
        r == match_at(s@, pat@, i as int),
{
    let n = s.len();
    let m = pat.len();
    let mut k: usize = 0;
    while k < m
        invariant
            k <= m,
            m == pat@.len(),
            n == s@.len(),
            i + m <= s@.len(),
            forall|j: int| 0 <= j < k ==> s@[i + j] == pat@[j],
        decreases m - k,
    {
        if s[i + k] != pat[k] {
            proof {
                assert(s@.subrange(i as int, i + m as int)[k as int] == s@[i + k]);
            }
            return false;
        }
        k += 1;
    }
    proof {
        assert(s@.subrange(i as int, i + m as int) =~= pat@);
    }
    true
}

/// Position of the first occurrence of `pat` in `s` at or after `from`.
pub fn find_first(s: &Vec<char>, pat: &Vec<char>, from: usize) -> (r: Option<usize>)
    requires
        pat@.len() > 0,
    ensures
        match r {
            Some(i) => from <= i && match_at(s@, pat@, i as int) && first_match_from(
                s@,
                pat@,
                from as int,
            ) == Some(i as int),
            None => first_match_from(s@, pat@, from as int) is None,
        },
{
    let n = s.len();
    let m = pat.len();
    if m > n || from > n - m {
        return None;
    }
    let mut i: usize = from;
    while i <= n - m
        invariant
            from <= i,
            i <= n - m + 1,
            m <= n,
            m == pat@.len(),
            n == s@.len(),
            m > 0,
            first_match_from(s@, pat@, from as int) == first_match_from(s@, pat@, i as int),
        decreases n - i,
    {
        if eq_at(s, pat, i) {
            return Some(i);
        }
        i += 1;
    }
    None
}

/// `s` with every occurrence of `pat` replaced by `rep`, left to right.
pub fn replace_all_chars(s: &Vec<char>, pat: &Vec<char>, rep: &Vec<char>) -> (r: Vec<char>)
    requires
        pat@.len() > 0,
    ensures
        r@ == replace_all(s@, pat@, rep@),
{
    let n = s.len();
    let m = pat.len();
    let mut out: Vec<char> = Vec::new();
    let mut i: usize = 0;
    proof {
        assert(s@.skip(0) =~= s@);
    }
    while i < n
        invariant
            i <= n,
            n == s@.len(),
            m == pat@.len(),
            m > 0,
            replace_all(s@, pat@, rep@) == out@ + replace_all(s@.skip(i as int), pat@, rep@),
        decreases n - i,
    {
        if m <= n - i && eq_at(s, pat, i) {
            proof {
                lemma_replace_all_step_match(s@, pat@, rep@, i as int);
            }
            let t = concat_chars(&out, rep);
            out = t;
            i += m;
        } else {
            proof {
                lemma_replace_all_step_no_match(s@, pat@, rep@, i as int);
                assert(out@ + (seq![s@[i as int]] + replace_all(s@.skip(i + 1 as int), pat@, rep@))
                    =~= out@.push(s@[i as int]) + replace_all(s@.skip(i + 1 as int), pat@, rep@));
            }
            out.push(s[i]);
            i += 1;
        }
    }
    proof {
        assert(s@.skip(n as int) =~= Seq::<char>::empty());
        assert(out@ + Seq::<char>::empty() =~= out@);
    }
    out
}

proof fn lemma_replace_all_step_match(s: Seq<char>, pat: Seq<char>, rep: Seq<char>, i: int)
    requires
        pat.len() > 0,
        match_at(s, pat, i),
    ensures
        replace_all(s.skip(i), pat, rep) == rep + replace_all(
            s.skip(i + pat.len() as int),
            pat,
            rep,
        ),
{
    let t = s.skip(i);
    assert(t.subrange(0, pat.len() as int) =~= s.subrange(i, i + pat.len() as int));
    assert(t.skip(pat.len() as int) =~= s.skip(i + pat.len() as int));
}

proof fn lemma_replace_all_step_no_match(s: Seq<char>, pat: Seq<char>, rep: Seq<char>, i: int)
    requires
        pat.len() > 0,
        0 <= i < s.len(),
        !match_at(s, pat, i),
    ensures
        replace_all(s.skip(i), pat, rep) == seq![s[i]] + replace_all(s.skip(i + 1), pat, rep),
{
    let t = s.skip(i);
    if t.len() < pat.len() {
        assert(s.skip(i + 1).len() < pat.len());
        assert(t =~= seq![s[i]] + s.skip(i + 1));
    } else {
        assert(t.subrange(0, pat.len() as int) =~= s.subrange(i, i + pat.len() as int));
        assert(t.subrange(0, pat.len() as int) != pat);
        assert(t[0] == s[i]);
        assert(t.skip(1) =~= s.skip(i + 1));
        assert(seq![t[0]] =~= seq![s[i]]);
    }
}

/// True when none of the four recognized placeholders occurs in `s`.
pub open spec fn placeholder_free(s: Seq<char>) -> bool {
    &&& !occurs(s, "${HOME}"@)
    &&& !occurs(s, "$HOME"@)
    &&& !occurs(s, "${USER}"@)
    &&& !occurs(s, "$USER"@)
}

proof fn lemma_replace_all_no_occurrence(s: Seq<char>, pat: Seq<char>, rep: Seq<char>)
    requires
        pat.len() > 0,
        !occurs(s, pat),
    ensures
        replace_all(s, pat, rep) == s,
    decreases s.len(),
{
    if s.len() < pat.len() {
    } else {
        assert(!match_at(s, pat, 0));
        assert(s.subrange(0, pat.len() as int) != pat);
        assert forall|i: int| !match_at(s.skip(1), pat, i) by {
            if match_at(s.skip(1), pat, i) {
                assert(s.skip(1).subrange(i, i + pat.len() as int) =~= s.subrange(
                    i + 1,
                    i + 1 + pat.len() as int,
                ));
                assert(match_at(s, pat, i + 1));
            }
        }
        lemma_replace_all_no_occurrence(s.skip(1), pat, rep);
        assert(seq![s[0]] + s.skip(1) =~= s);
    }
}

/// Expansion law: an input free of placeholders comes back unchanged,
/// whatever the home string is.
pub proof fn lemma_expand_identity(x: Seq<char>, home: Seq<char>)
    requires
        placeholder_free(x),
    ensures
        expand_spec(x, home) == x,
{
    reveal_strlit("${HOME}");
    reveal_strlit("$HOME");
    reveal_strlit("${USER}");
    reveal_strlit("$USER");
    if home.len() > 0 {
        lemma_replace_all_no_occurrence(x, "${HOME}"@, home);
        lemma_replace_all_no_occurrence(x, "$HOME"@, home);
    }
    if has_home_prefix(home) {
        lemma_replace_all_no_occurrence(x, "${USER}"@, home.skip(6));
        lemma_replace_all_no_occurrence(x, "$USER"@, home.skip(6));
    }
}

/// Expansion law: expansion is idempotent on inputs already free of
/// placeholders.
pub proof fn lemma_expand_idempotent(x: Seq<char>, home: Seq<char>)
    requires
        placeholder_free(x),
    ensures
        expand_spec(expand_spec(x, home), home) == expand_spec(x, home),
{
    lemma_expand_identity(x, home);
}

/// Placeholder expansion on character vectors.
pub fn expand_chars(path: &Vec<char>, home: &Vec<char>) -> (r: Vec<char>)
    ensures
        r@ == expand_spec(path@, home@),
{
    let pat_home_braced = str_chars("${HOME}");
    let pat_home_bare = str_chars("$HOME");
    let pat_user_braced = str_chars("${USER}");
    let pat_user_bare = str_chars("$USER");
    let home_prefix = str_chars("/home/");
    proof {
        reveal_strlit("${HOME}");
        reveal_strlit("$HOME");
        reveal_strlit("${USER}");
        reveal_strlit("$USER");
        reveal_strlit("/home/");
    }
    let mut cur = sub_chars(path, 0, path.len());
    proof {
        assert(path@.subrange(0, path@.len() as int) =~= path@);
    }
    if home.len() > 0 {
        let t1 = replace_all_chars(&cur, &pat_home_braced, home);
        let t2 = replace_all_chars(&t1, &pat_home_bare, home);
        cur = t2;
    }
    if home.len() >= 6 && eq_at(home, &home_prefix, 0) {
        let user = sub_chars(home, 6, home.len());
        proof {
            assert(home@.subrange(6, home@.len() as int) =~= home@.skip(6));
        }
        let t3 = replace_all_chars(&cur, &pat_user_braced, &user);
        let t4 = replace_all_chars(&t3, &pat_user_bare, &user);
        cur = t4;
    }
    cur
}

/// Substitutes `${HOME}`, `$HOME`, `${USER}` and `$USER` in `path`: the home
/// placeholders are replaced by `home` when it is non-empty, and the user
/// placeholders by `<name>` when `home` has the shape `/home/<name>`.
pub fn expand_variables(path: &str, home: &str) -> (r: String)
    ensures
        r@ == expand_spec(path@, home@),
{
    let p = str_chars(path);
    let h = str_chars(home);
    let e = expand_chars(&p, &h);
    chars_to_string(&e)
}

/// Derives a home directory from a workspace path: the segment after the
/// first `/home/`, up to the next `/`; otherwise the `env_home` fallback
/// (the caller's reading of the `HOME` environment variable).
pub fn infer_home_from_path(path: &str, env_home: &str) -> (r: String)
    ensures
        r@ == infer_home_spec(path@, env_home@),
{
    let p = str_chars(path);
    let home_prefix = str_chars("/home/");
    let slash = str_chars("/");
    proof {
        reveal_strlit("/home/");
        reveal_strlit("/");
    }
    let n = p.len();
    match find_first(&p, &home_prefix, 0) {
        Some(start) => {
            proof {
                assert(start + 6 <= n);
            }
            match find_first(&p, &slash, start + 6) {
                Some(end) => {
                    let seg = sub_chars(&p, start + 6, end);
                    let r = concat_chars(&home_prefix, &seg);
                    chars_to_string(&r)
                },
                None => env_home.to_owned(),
            }
        },
        None => env_home.to_owned(),
    }
}

} // verus!
