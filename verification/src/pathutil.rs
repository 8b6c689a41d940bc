//! Path helpers: volume-mount conflict detection and splitting a config
//! file argument into project path and file name.

use vstd::prelude::*;

use crate::strutil::{push_char, str_starts_with};

verus! {

/// `p` terminated by a slash: unchanged if it already ends in one.
pub open spec fn with_slash(p: Seq<char>) -> Seq<char> {
    if p.len() > 0 && p.last() == '/' {
        p
    } else {
        p.push('/')
    }
}

/// Whether two mount paths conflict: one is the other, or a parent or child
/// of the other, compared component-wise by slash-terminated prefixes.
pub open spec fn spec_paths_overlap(a: Seq<char>, b: Seq<char>) -> bool {
    with_slash(a).is_prefix_of(with_slash(b)) || with_slash(b).is_prefix_of(with_slash(a))
}

fn slash_terminate(p: &str) -> (r: String)
    ensures
        r@ == with_slash(p@),
{
    let len = p.unicode_len();
    if len > 0 && p.get_char(len - 1) == '/' {
        p.to_owned()
    } else {
        let mut s = p.to_owned();
        push_char(&mut s, '/');
        s
    }
}

/// Whether two paths conflict (one is a parent or child of the other, or
/// they are the same).
pub fn paths_overlap(path1: &str, path2: &str) -> (r: bool)
    ensures
        r == spec_paths_overlap(path1@, path2@),
{
    let a = slash_terminate(path1);
    let b = slash_terminate(path2);
    str_starts_with(b.as_str(), a.as_str()) || str_starts_with(a.as_str(), b.as_str())
}

/// The position of the last slash in `s`, if any.
pub open spec fn spec_last_slash(s: Seq<char>) -> Option<int>
    decreases s.len(),
{
    if s.len() == 0 {
        None
    } else if s[s.len() - 1] == '/' {
        Some(s.len() - 1)
    } else {
        spec_last_slash(s.subrange(0, s.len() - 1))
    }
}

proof fn lemma_last_slash_at(s: Seq<char>, i: int)
    requires
        0 <= i < s.len(),
        s[i] == '/',
        forall|k: int| i < k < s.len() ==> s[k] != '/',
    ensures
        spec_last_slash(s) == Some(i),
    decreases s.len(),
{
    if i < s.len() - 1 {
        lemma_last_slash_at(s.subrange(0, s.len() - 1), i);
    }
}

proof fn lemma_no_slash(s: Seq<char>)
    requires
        forall|k: int| 0 <= k < s.len() ==> s[k] != '/',
    ensures
        spec_last_slash(s) is None,
    decreases s.len(),
{
    if s.len() > 0 {
        lemma_no_slash(s.subrange(0, s.len() - 1));
    }
}

/// `s` with every trailing slash removed.
pub open spec fn spec_strip_slashes(s: Seq<char>) -> Seq<char>
    decreases s.len(),
{
    if s.len() > 0 && s.last() == '/' {
        spec_strip_slashes(s.subrange(0, s.len() - 1))
    } else {
        s
    }
}

proof fn lemma_strip_slashes_at(s: Seq<char>, e: int)
    requires
        0 <= e <= s.len(),
        forall|k: int| e <= k < s.len() ==> s[k] == '/',
        e > 0 ==> s[e - 1] != '/',
    ensures
        spec_strip_slashes(s) == s.subrange(0, e),
    decreases s.len() - e,
{
    if e < s.len() {
        lemma_strip_slashes_at(s.subrange(0, s.len() - 1), e);
        assert(s.subrange(0, s.len() - 1).subrange(0, e) =~= s.subrange(0, e));
    } else {
        assert(s.subrange(0, e) =~= s);
    }
}

/// Splits a config file argument into project path and config file name,
/// with the path semantics of the standard library's `Path`.
///
/// A directory (`is_dir`) is the project path itself. Otherwise trailing
/// slashes are ignored; the text after the last remaining slash is the file
/// name and what precedes it is the project path — the root for a path like
/// `/name`, the current directory `.` when no slash (or no name) is left.
pub fn parse_file_path(file: Option<String>, is_dir: bool) -> (r: (
    Option<String>,
    Option<String>,
))
    ensures
        file is None ==> r.0 is None && r.1 is None,
        file is Some && is_dir ==> (r.0 matches Some(q) && q@ == file->0@) && r.1 is None,
        file is Some && !is_dir ==> {
            let t = spec_strip_slashes(file->0@);
            &&& t.len() == 0 ==> (r.0 matches Some(q) && q@ == "."@) && r.1 is None
            &&& t.len() > 0 && spec_last_slash(t) is None
                ==> (r.0 matches Some(q) && q@ == "."@)
                    && (r.1 matches Some(n) && n@ == t)
            &&& t.len() > 0 ==> (spec_last_slash(t) matches Some(k) ==> {
                let parent = spec_strip_slashes(t.subrange(0, k));
                &&& r.1 matches Some(n) && n@ == t.subrange(k + 1, t.len() as int)
                &&& r.0 matches Some(q) && q@ == if parent.len() == 0 {
                    "/"@
                } else {
                    parent
                }
            })
        },
{
    let p = match file {
        None => {
            return (None, None);
        }
        Some(p) => p,
    };
    if is_dir {
        return (Some(p), None);
    }
    let s = p.as_str();
    let len = s.unicode_len();

    // Ignore trailing slashes.
    let mut end: usize = len;
    while end > 0 && s.get_char(end - 1) == '/'
        invariant
            end <= len,
            len == s@.len(),
            forall|k: int| end <= k < len ==> s@[k] == '/',
        decreases end,
    {
        end = end - 1;
    }
    proof {
        lemma_strip_slashes_at(s@, end as int);
    }
    let ghost t = s@.subrange(0, end as int);
    if end == 0 {
        return (Some(".".to_owned()), None);
    }

    // Find the last slash before the name.
    let mut i: usize = end;
    while i > 0 && s.get_char(i - 1) != '/'
        invariant
            i <= end,
            end <= len,
            len == s@.len(),
            forall|k: int| i <= k < end ==> s@[k] != '/',
        decreases i,
    {
        i = i - 1;
    }
    proof {
        assert(forall|k: int| i <= k < t.len() ==> t[k] != '/');
        if i == 0 {
            lemma_no_slash(t);
        } else {
            assert(t[i - 1] == '/');
            lemma_last_slash_at(t, i - 1);
        }
    }
    if i == 0 {
        let name = s.substring_char(0, end).to_owned();
        return (Some(".".to_owned()), Some(name));
    }
    let name = s.substring_char(i, end).to_owned();
    proof {
        assert(name@ == t.subrange(i as int, t.len() as int));
    }

    // Strip trailing slashes off the parent as well.
    let mut pe: usize = i - 1;
    while pe > 0 && s.get_char(pe - 1) == '/'
        invariant
            pe <= i - 1,
            i <= end,
            end <= len,
            len == s@.len(),
            forall|k: int| pe <= k < i - 1 ==> s@[k] == '/',
        decreases pe,
    {
        pe = pe - 1;
    }
    proof {
        assert(t.subrange(0, i - 1) =~= s@.subrange(0, i - 1));
        assert(forall|k: int| pe <= k < i - 1 ==> #[trigger] t.subrange(0, i - 1)[k] == '/');
        lemma_strip_slashes_at(t.subrange(0, i - 1), pe as int);
        assert(t.subrange(0, i - 1).subrange(0, pe as int) =~= s@.subrange(0, pe as int));
    }
    let parent = if pe == 0 {
        "/".to_owned()
    } else {
        s.substring_char(0, pe).to_owned()
    };
    (Some(parent), Some(name))
}

} // verus!
