//! PATH search and path helpers.
//!
//! The search itself is pure: the caller supplies the directory list
//! (the PATH variable split at `:`) and, for each directory, whether
//! the candidate file exists there; the search returns the candidate of
//! the first directory, in listed order, that has one. Probing the
//! filesystem is the caller's business.

use vstd::prelude::*;
use crate::parser::push_char;

verus! {

/// Cuts `rest` at every `sep`, with `acc` the piece under construction
/// and `done` the pieces already cut.
pub open spec fn split_run(acc: Seq<char>, done: Seq<Seq<char>>, rest: Seq<char>, sep: char) -> Seq<
    Seq<char>,
>
    decreases rest.len(),
{
    if rest.len() == 0 {
        done.push(acc)
    } else if rest[0] == sep {
        split_run(Seq::empty(), done.push(acc), rest.subrange(1, rest.len() as int), sep)
    } else {
        split_run(acc.push(rest[0]), done, rest.subrange(1, rest.len() as int), sep)
    }
}

/// The pieces of `s` cut at every `sep`. Empty pieces are kept, and an
/// empty `s` is one empty piece.
pub open spec fn spec_split(s: Seq<char>, sep: char) -> Seq<Seq<char>> {
    split_run(Seq::empty(), Seq::empty(), s, sep)
}

/// Splits the value of the PATH variable at `:` into its ordered
/// directory list.
pub fn split_path_list(s: &str) -> (r: Vec<String>)
    ensures
        r.deep_view() == spec_split(s@, ':'),
{
    let n: usize = s.unicode_len();
    let mut out: Vec<String> = Vec::new();
    let mut cur = String::new();
    proof {
        assert(out.deep_view() =~= Seq::<Seq<char>>::empty());
        assert(s@.subrange(0, n as int) =~= s@);
    }
    let mut i: usize = 0;
    while i < n
        invariant
            i <= n,
            n == s@.len(),
            spec_split(s@, ':') == split_run(cur@, out.deep_view(), s@.subrange(i as int, n as int), ':'),
        decreases n - i,
    {
        let ghost rest = s@.subrange(i as int, n as int);
        proof {
            assert(rest[0] == s@[i as int]);
            assert(rest.subrange(1, rest.len() as int) =~= s@.subrange(i + 1, n as int));
        }
        let c = s.get_char(i);
        if c == ':' {
            let ghost prev = out.deep_view();
            let ghost piece_view = cur@;
            let piece = cur;
            out.push(piece);
            cur = String::new();
            proof {
                assert(out.deep_view() =~= prev.push(piece_view));
            }
        } else {
            push_char(&mut cur, c);
        }
        i += 1;
    }
    proof {
        assert(s@.subrange(n as int, n as int) =~= Seq::<char>::empty());
    }
    let ghost prev = out.deep_view();
    let ghost last = cur@;
    out.push(cur);
    proof {
        assert(out.deep_view() =~= prev.push(last));
    }
    out
}

/// The candidate file a directory contributes to a PATH search: the
/// directory, a `/` unless the directory already ends in one, then the
/// command name.
pub open spec fn spec_join_path(dir: Seq<char>, name: Seq<char>) -> Seq<char> {
    if dir.len() > 0 && dir.last() == '/' {
        dir + name
    } else {
        dir + seq!['/'] + name
    }
}

/// Joins a directory and a file name into one path.
pub fn join_path(dir: &str, name: &str) -> (r: String)
    ensures
        r@ == spec_join_path(dir@, name@),
{
    let mut r = dir.to_owned();
    let n: usize = dir.unicode_len();
    if n == 0 || dir.get_char(n - 1) != '/' {
        push_char(&mut r, '/');
        proof {
            assert(r@ =~= dir@ + seq!['/']);
        }
    }
    r.append(name);
    proof {
        if !(dir@.len() > 0 && dir@.last() == '/') {
            assert(r@ =~= dir@ + seq!['/'] + name@);
        }
    }
    r
}

/// Over directories `dirs`, of which the ones marked in `exists` hold a
/// file named `name`, returns the candidate path of the first marked
/// directory, in listed order, and nothing when none is marked.
pub fn find_in_path(name: &str, dirs: &Vec<String>, exists: &Vec<bool>) -> (r: Option<String>)
    requires
        dirs@.len() == exists@.len(),
    ensures
        r is Some <==> exists|k: int| 0 <= k < exists@.len() && exists@[k],
        r matches Some(p) ==> exists|k: int|
            {
                &&& 0 <= k < exists@.len()
                &&& exists@[k]
                &&& forall|j: int| 0 <= j < k ==> !exists@[j]
                &&& p@ == spec_join_path(dirs.deep_view()[k], name@)
            },
{
    let mut i: usize = 0;
    while i < dirs.len()
        invariant
            i <= dirs@.len(),
            dirs@.len() == exists@.len(),
            forall|j: int| 0 <= j < i ==> !exists@[j],
        decreases dirs@.len() - i,
    {
        if exists[i] {
            let p = join_path(dirs[i].as_str(), name);
            return Some(p);
        }
        i += 1;
    }
    None
}

/// The target of `cd` after tilde substitution: a leading `~` is
/// replaced by the home directory when one is known; otherwise the path
/// is unchanged.
pub open spec fn spec_expand_tilde(path: Seq<char>, home: Option<Seq<char>>) -> Seq<char> {
    if path.len() > 0 && path[0] == '~' && home is Some {
        home.unwrap() + path.subrange(1, path.len() as int)
    } else {
        path
    }
}

/// The view of an optional borrowed string.
pub open spec fn opt_view(o: Option<&String>) -> Option<Seq<char>> {
    match o {
        Some(s) => Some(s@),
        None => None,
    }
}

/// Substitutes the home directory for a leading `~` in `path`; when no
/// home directory is known, or the path does not start with `~`, the
/// path comes back unchanged.
pub fn expand_tilde(path: &str, home: Option<&String>) -> (r: String)
    ensures
        r@ == spec_expand_tilde(path@, opt_view(home)),
{
    match home {
        None => path.to_owned(),
        Some(h) => {
            let n: usize = path.unicode_len();
            if n > 0 && path.get_char(0) == '~' {
                let mut r = h.as_str().to_owned();
                r.append(path.substring_char(1, n));
                r
            } else {
                path.to_owned()
            }
        },
    }
}

} // verus!
