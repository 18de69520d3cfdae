//! Paths as text: the final component of a path, joining a directory and a
//! name, and matching names against regular expressions.

use vstd::prelude::*;
use vstd::string::*;

use crate::text::{chars_of, span_is, string_of};

verus! {

/// Whether `text` matches the regular expression `pattern` as `regex::Regex`
/// decides; `None` when the pattern does not compile.
pub uninterp spec fn regex_match(pattern: Seq<char>, text: Seq<char>) -> Option<bool>;

/// Calls `regex::Regex::new` on `pattern` and, when it compiles, `Regex::is_match`
/// on `text`; claims the result is `regex_match` of the two.
#[verifier::external_body]
pub(crate) fn regex_is_match(pattern: &str, text: &str) -> (r: Option<bool>)
    ensures
        r == regex_match(pattern@, text@),
{
    match regex::Regex::new(pattern) {
        Ok(re) => Some(re.is_match(text)),
        Err(_) => None,
    }
}

/// The path of `path` relative to `base`, as `pathdiff::diff_paths` gives it
/// (as text); `None` when there is none.
pub uninterp spec fn relative_path_of(path: Seq<char>, base: Seq<char>) -> Option<Seq<char>>;

/// Calls `pathdiff::diff_paths`; claims the result, as text, is `relative_path_of`
/// the two paths.
#[verifier::external_body]
pub(crate) fn diff_paths(path: &str, base: &str) -> (r: Option<String>)
    ensures
        match relative_path_of(path@, base@) {
            Some(p) => r matches Some(s) && s@ == p,
            None => r is None,
        },
{
    match pathdiff::diff_paths(path, base) {
        Some(p) => Some(p.to_string_lossy().into_owned()),
        None => None,
    }
}

/// Number of trailing elements of `s` that differ from `x`.
pub open spec fn count_back_until<A>(s: Seq<A>, x: A) -> nat
    decreases s.len(),
{
    if s.len() == 0 {
        0
    } else if s.last() == x {
        0
    } else {
        1 + count_back_until(s.drop_last(), x)
    }
}

pub proof fn lemma_count_back_until<A>(s: Seq<A>, x: A)
    ensures
        count_back_until(s, x) <= s.len(),
    decreases s.len(),
{
    if s.len() > 0 && s.last() != x {
        lemma_count_back_until(s.drop_last(), x);
    }
}

pub proof fn lemma_count_back_until_is<A>(s: Seq<A>, x: A, n: int)
    requires
        0 <= n <= s.len(),
        forall|j: int| s.len() - n <= j < s.len() ==> s[j] != x,
        n < s.len() ==> s[s.len() - n - 1] == x,
    ensures
        count_back_until(s, x) == n,
    decreases s.len(),
{
    if s.len() > 0 && n > 0 {
        let t = s.drop_last();
        assert forall|j: int| t.len() - (n - 1) <= j < t.len() implies t[j] != x by {
            assert(t[j] == s[j]);
        }
        if n - 1 < t.len() {
            assert(t[t.len() - (n - 1) - 1] == s[s.len() - n - 1]);
        }
        lemma_count_back_until_is(t, x, n - 1);
    }
}

/// The final component of a path, as `Path::file_name` gives it: the last part
/// between `/` that is neither empty nor `.`; none when there is no such part
/// or when it is `..`.
pub open spec fn path_file_name(s: Seq<char>) -> Option<Seq<char>>
    decreases s.len(),
{
    let n = count_back_until(s, '/');
    proof {
        lemma_count_back_until(s, '/');
    }
    let seg = s.skip(s.len() - n);
    if seg.len() > 0 && seg != "."@ {
        if seg == ".."@ {
            None
        } else {
            Some(seg)
        }
    } else if n < s.len() {
        path_file_name(s.take(s.len() - n - 1))
    } else {
        None
    }
}

/// The final component of `path`, if it has one.
pub fn file_name_of(path: &str) -> (r: Option<String>)
    ensures
        match path_file_name(path@) {
            Some(n) => r matches Some(s) && s@ == n,
            None => r is None,
        },
{
    let cs = chars_of(path);
    let mut end: usize = cs.len();
    proof {
        assert(cs@.take(end as int) =~= cs@);
    }
    loop
        invariant
            end <= cs@.len(),
            path_file_name(cs@) == path_file_name(cs@.take(end as int)),
            cs@ == path@,
        decreases end,
    {
        let ghost s = cs@.take(end as int);
        let mut start: usize = end;
        while start > 0 && cs[start - 1] != '/'
            invariant
                start <= end <= cs@.len(),
                forall|j: int| start <= j < end ==> cs@[j] != '/',
            decreases start,
        {
            start = start - 1;
        }
        proof {
            lemma_count_back_until_is(s, '/', end - start);
            assert(s.skip(start as int) =~= cs@.subrange(start as int, end as int));
        }
        if start < end && !span_is(&cs, start, end, ".") {
            if span_is(&cs, start, end, "..") {
                return None;
            }
            return Some(string_of(&cs, start, end));
        } else if start > 0 {
            proof {
                assert(s.take(start - 1) =~= cs@.take(start - 1));
            }
            end = start - 1;
        } else {
            return None;
        }
    }
}

/// `dir` and `name` joined as `Path::join` joins them: an absolute name
/// replaces the directory; otherwise one `/` goes between them unless `dir` is
/// empty or already ends with `/`.
pub open spec fn join_path(dir: Seq<char>, name: Seq<char>) -> Seq<char> {
    if name.len() > 0 && name[0] == '/' {
        name
    } else if dir.len() == 0 {
        name
    } else if dir.last() == '/' {
        dir + name
    } else {
        dir + seq!['/'] + name
    }
}

/// The path of `name` inside `dir`.
pub fn join(dir: &str, name: &str) -> (r: String)
    ensures
        r@ == join_path(dir@, name@),
{
    let ns = chars_of(name);
    if ns.len() > 0 && ns[0] == '/' {
        return String::from_str(name);
    }
    let cs = chars_of(dir);
    let mut out = String::from_str(dir);
    if cs.len() > 0 && cs[cs.len() - 1] != '/' {
        out.append("/");
        proof {
            reveal_strlit("/");
        }
    }
    out.append(name);
    out
}

} // verus!
