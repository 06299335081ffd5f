use vstd::prelude::*;
use crate::commun_utils::fs_strategies::{FsNode, strings_view};
use crate::fs_handler::fs_read::{DirReader, FileReader, ResolveError, resolve_list, resolve_pushed};

verus! {

/// Walks the sandbox's directories.
pub struct Resolve;

impl FileReader for Resolve {
    fn recursive(path: &Vec<FsNode>, entries: &mut Vec<String>) -> (r: Result<(), ResolveError>)
        decreases path@, 0nat,
    {
        let ghost start = strings_view(entries@);
        let mut i: usize = 0;
        while i < path.len()
            invariant
                i <= path@.len(),
                start == strings_view(old(entries)@),
                resolve_list(path@.subrange(0, i as int)) is Some,
                strings_view(entries@) == start + resolve_pushed(path@.subrange(0, i as int)),
            decreases path@.len() - i,
        {
            let ghost pre = path@.subrange(0, i as int);
            let ghost next = path@.subrange(0, i + 1);
            assert(next.subrange(0, next.len() - 1) == pre);
            assert(next[next.len() - 1] == path@[i as int]);
            let ghost before = strings_view(entries@);
            proof {
                crate::fs_handler::fs_read::lemma_pushed_when_resolved(pre);
            }
            match &path[i] {
                FsNode::File { path: file_path, utf8_path, .. } => {
                    if *utf8_path {
                        entries.push(file_path.clone());
                        assert(strings_view(entries@) == before.push(file_path@));
                    } else {
                        assert(resolve_pushed(next) == resolve_pushed(pre));
                        proof {
                            crate::fs_handler::fs_read::lemma_failure_sticks(path@, (i + 1) as nat);
                            assert(path@.subrange(0, (i + 1) as nat as int) == next);
                            assert(resolve_pushed(path@) == resolve_pushed(pre));
                            assert(strings_view(entries@) == start + resolve_pushed(pre));
                        }
                        return Err(ResolveError::InvalidFilename);
                    }
                },
                FsNode::Dir { children, .. } => {
                    proof {
                        assert(decreases_to!(path@ => path@[i as int]));
                    }
                    let value = <Resolve as DirReader>::recursive(children);
                    match value {
                        Ok(v) => {
                            let mut v = v;
                            let ghost added = strings_view(v@);
                            entries.append(&mut v);
                            assert(strings_view(entries@) == before + added);
                        },
                        Err(e) => {
                            assert(resolve_pushed(next) == resolve_pushed(pre));
                            proof {
                            crate::fs_handler::fs_read::lemma_failure_sticks(path@, (i + 1) as nat);
                            assert(path@.subrange(0, (i + 1) as nat as int) == next);
                            assert(resolve_pushed(path@) == resolve_pushed(pre));
                            assert(strings_view(entries@) == start + resolve_pushed(pre));
                        }
                            return Err(e);
                        },
                    }
                },
            }
            i += 1;
        }
        assert(path@.subrange(0, path@.len() as int) == path@);
        Ok(())
    }
}

impl DirReader for Resolve {
    fn recursive(path: &Vec<FsNode>) -> (r: Result<Vec<String>, ResolveError>)
        decreases path@, 1nat,
    {
        let mut directories: Vec<String> = Vec::new();
        <Resolve as FileReader>::recursive(path, &mut directories)?;
        proof {
            crate::fs_handler::fs_read::lemma_pushed_when_resolved(path@);
            assert(strings_view(Seq::<String>::empty()) == Seq::<Seq<char>>::empty());
            assert(Seq::<Seq<char>>::empty() + resolve_pushed(path@) == resolve_pushed(path@));
        }
        Ok(directories)
    }
}

} // verus!
