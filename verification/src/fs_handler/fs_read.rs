use vstd::prelude::*;
use crate::commun_utils::fs_strategies::{FsNode, strings_view};

verus! {

/// Why a walk of the sandbox stopped.
#[derive(Debug, PartialEq, Eq, Structural)]
pub enum ResolveError {
    /// A file's path is not valid UTF-8 ("file name not readable").
    InvalidFilename,
}

/// The paths of the files below a listing, depth first, or `None` when one
/// of them is not valid UTF-8.
pub open spec fn resolve_list(ns: Seq<FsNode>) -> Option<Seq<Seq<char>>>
    decreases ns,
{
    if ns.len() == 0 {
        Some(Seq::empty())
    } else {
        let last = ns[ns.len() - 1];
        match resolve_list(ns.subrange(0, ns.len() - 1)) {
            None => None,
            Some(acc) => match last {
                FsNode::File { path, utf8_path, .. } => if utf8_path {
                    Some(acc.push(path@))
                } else {
                    None
                },
                FsNode::Dir { children, .. } => {
                    proof {
                        assert(decreases_to!(ns => ns[ns.len() - 1]));
                    }
                    match resolve_list(children@) {
                        Some(sub) => Some(acc + sub),
                        None => None,
                    }
                }
            },
        }
    }
}

/// What a walk of the listing pushes before it stops: every path up to the
/// first unreadable one, where a subdirectory that holds an unreadable path
/// adds nothing.
pub open spec fn resolve_pushed(ns: Seq<FsNode>) -> Seq<Seq<char>>
    decreases ns,
{
    if ns.len() == 0 {
        Seq::empty()
    } else {
        let last = ns[ns.len() - 1];
        match resolve_list(ns.subrange(0, ns.len() - 1)) {
            None => resolve_pushed(ns.subrange(0, ns.len() - 1)),
            Some(acc) => match last {
                FsNode::File { path, utf8_path, .. } => if utf8_path {
                    acc.push(path@)
                } else {
                    acc
                },
                FsNode::Dir { children, .. } => {
                    proof {
                        assert(decreases_to!(ns => ns[ns.len() - 1]));
                    }
                    match resolve_list(children@) {
                        Some(sub) => acc + sub,
                        None => acc,
                    }
                }
            },
        }
    }
}

/// Walks a directory, pushing the paths of its files.
pub trait FileReader {
    fn recursive(path: &Vec<FsNode>, entries: &mut Vec<String>) -> (r: Result<(), ResolveError>)
        ensures
            r is Ok <==> resolve_list(path@) is Some,
            strings_view(final(entries)@) == strings_view(old(entries)@) + resolve_pushed(path@),
    ;
}

/// Walks a directory, returning the paths of its files.
pub trait DirReader {
    fn recursive(path: &Vec<FsNode>) -> (r: Result<Vec<String>, ResolveError>)
        ensures
            match r {
                Ok(v) => resolve_list(path@) == Some(strings_view(v@)),
                Err(_) => resolve_list(path@) is None,
            },
    ;
}

/// Once a prefix of the listing fails, the whole listing fails, and the walk
/// pushes nothing after it.
pub proof fn lemma_failure_sticks(ns: Seq<FsNode>, k: nat)
    requires
        k <= ns.len(),
        resolve_list(ns.subrange(0, k as int)) is None,
    ensures
        resolve_list(ns) is None,
        resolve_pushed(ns) == resolve_pushed(ns.subrange(0, k as int)),
    decreases ns.len() - k,
{
    if k < ns.len() {
        let next = ns.subrange(0, k as int + 1);
        assert(next.subrange(0, next.len() - 1) == ns.subrange(0, k as int));
        assert(resolve_list(next) is None);
        lemma_failure_sticks(ns, (k + 1) as nat);
    } else {
        assert(ns.subrange(0, k as int) == ns);
    }
}

/// Once the walk succeeds it has pushed exactly the files of the listing.
pub proof fn lemma_pushed_when_resolved(ns: Seq<FsNode>)
    ensures
        resolve_list(ns) matches Some(all) ==> resolve_pushed(ns) == all,
    decreases ns,
{
    if ns.len() > 0 {
        lemma_pushed_when_resolved(ns.subrange(0, ns.len() - 1));
    }
}

} // verus!
