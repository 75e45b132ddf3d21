//! Unix path arithmetic on strings: joining a relative path onto a base, and
//! the last component of a path.
use vstd::prelude::*;

use crate::text::{chars_of, push_char, string_from_chars};

verus! {

broadcast use vstd::string::group_string_axioms;

/// `base` joined with `rel` as `PathBuf::join` does on Unix: an absolute
/// `rel` replaces the base, otherwise one separator goes between them.
pub open spec fn join_spec(base: Seq<char>, rel: Seq<char>) -> Seq<char> {
    if rel.len() > 0 && rel[0] == '/' {
        rel
    } else if base.len() == 0 {
        rel
    } else if base.last() == '/' {
        base + rel
    } else {
        base + seq!['/'] + rel
    }
}

pub fn join_path(base: &str, rel: &str) -> (out: String)
    ensures
        out@ == join_spec(base@, rel@),
{
    let bs = chars_of(base);
    let rs = chars_of(rel);
    if rs.len() > 0 && rs[0] == '/' {
        return string_from_chars(&rs);
    }
    if bs.len() == 0 {
        return string_from_chars(&rs);
    }
    let mut out = string_from_chars(&bs);
    if bs[bs.len() - 1] != '/' {
        push_char(&mut out, '/');
    }
    out.append(rel);
    out
}

/// A path with trailing separators and trailing `.` components removed.
pub open spec fn strip_tail(s: Seq<char>) -> Seq<char>
    decreases s.len(),
{
    if s.len() > 0 && s.last() == '/' {
        strip_tail(s.drop_last())
    } else if s.len() >= 2 && s.last() == '.' && s[s.len() - 2] == '/' {
        strip_tail(s.drop_last())
    } else {
        s
    }
}

/// The text after the last separator.
pub open spec fn last_component(s: Seq<char>) -> Seq<char>
    decreases s.len(),
{
    if s.len() == 0 || s.last() == '/' {
        Seq::empty()
    } else {
        last_component(s.drop_last()).push(s.last())
    }
}

/// The final component of a path as `Path::file_name` gives it on Unix:
/// none for the root, an empty path, `.` or `..`.
pub open spec fn file_name_spec(s: Seq<char>) -> Option<Seq<char>> {
    let c = last_component(strip_tail(s));
    if c.len() == 0 || c == seq!['.'] || c == seq!['.', '.'] {
        None
    } else {
        Some(c)
    }
}

/// The display name of a directory: its last component, or `~` when it has
/// none.
pub open spec fn dir_name_spec(path: Seq<char>) -> Seq<char> {
    match file_name_spec(path) {
        Some(name) => name,
        None => seq!['~'],
    }
}

pub fn dir_name(path: &str) -> (out: String)
    ensures
        out@ == dir_name_spec(path@),
{
    let mut cs = chars_of(path);
    let mut k: usize = cs.len();
    assert(cs@.take(cs.len() as int) == cs@);
    loop
        invariant
            k <= cs.len(),
            cs@ == path@,
            strip_tail(cs@.take(k as int)) == strip_tail(path@),
        ensures
            cs@.take(k as int) == strip_tail(path@),
        decreases k,
    {
        let ghost t = cs@.take(k as int);
        if k > 0 && cs[k - 1] == '/' {
            assert(t.drop_last() == cs@.take(k - 1));
            k = k - 1;
        } else if k >= 2 && cs[k - 1] == '.' && cs[k - 2] == '/' {
            assert(t.drop_last() == cs@.take(k - 1));
            k = k - 1;
        } else {
            break;
        }
    }
    let ghost t = cs@.take(k as int);
    let mut j: usize = k;
    assert(t.subrange(k as int, k as int) =~= Seq::<char>::empty());
    assert(t.take(k as int) == t);
    while j > 0 && cs[j - 1] != '/'
        invariant
            j <= k <= cs.len(),
            t == cs@.take(k as int),
            last_component(t) == last_component(t.take(j as int)) + t.subrange(j as int, k as int),
        decreases j,
    {
        let ghost p = t.take(j as int);
        assert(p.drop_last() == t.take(j - 1));
        assert(t.subrange(j - 1, k as int) =~= seq![p.last()] + t.subrange(j as int, k as int));
        j = j - 1;
    }
    let mut name: Vec<char> = Vec::new();
    let mut i: usize = j;
    while i < k
        invariant
            j <= i <= k <= cs.len(),
            t == cs@.take(k as int),
            name@ == t.subrange(j as int, i as int),
        decreases k - i,
    {
        name.push(cs[i]);
        assert(t.subrange(j as int, i + 1) =~= t.subrange(j as int, i as int).push(t[i as int]));
        i = i + 1;
    }
    assert(last_component(t) =~= name@);
    let n = name.len();
    if n == 0 || (n == 1 && name[0] == '.') || (n == 2 && name[0] == '.' && name[1] == '.') {
        proof {
            if n == 1 {
                assert(name@ =~= seq!['.']);
            }
            if n == 2 {
                assert(name@ =~= seq!['.', '.']);
            }
        }
        let mut out = String::new();
        push_char(&mut out, '~');
        assert(out@ =~= seq!['~']);
        out
    } else {
        proof {
            if n == 1 {
                assert(name@ != seq!['.', '.']);
            }
        }
        string_from_chars(&name)
    }
}

} // verus!
