//! A fingerprint of a set of files: their paths and their bytes, hashed
//! together.
use vstd::prelude::*;
use vstd::string::*;
use vstd::utf8::encode_utf8;
use crate::commun_utils::fs_strategies::{
    FileReader, buffers_view, concat_buffers, lemma_concat_buffers_push,
    lemma_flush_preserves_content, strategy_buffers,
};
use crate::text::{bytes_to_hex, hex_lower};
use crate::third_party::{blake3_digest, blake3_hash};

verus! {

/// The bytes hashed for the first `n` files: for each, the UTF-8 bytes of
/// its path, then its contents.
pub open spec fn snapshot_input(files: Seq<FileReader<String>>, contents: Seq<Seq<u8>>, n: nat) -> Seq<u8>
    decreases n,
{
    if n == 0 {
        Seq::empty()
    } else {
        snapshot_input(files, contents, (n - 1) as nat) + encode_utf8(files[n - 1].inner()@) + contents[n - 1]
    }
}

/// The bytes hashed for a file are the UTF-8 bytes of its path followed by
/// all of its contents, whatever strategy it is read with: adding a file
/// adds exactly those bytes at the end.
pub proof fn lemma_snapshot_appends_whole_file(files: Seq<FileReader<String>>, contents: Seq<Seq<u8>>, n: nat)
    ensures
        snapshot_input(files, contents, n + 1)
            == snapshot_input(files, contents, n) + encode_utf8(files[n as int].inner()@) + contents[n as int],
        snapshot_input(files, contents, n + 1).len() == snapshot_input(files, contents, n).len()
            + encode_utf8(files[n as int].inner()@).len() + contents[n as int].len(),
{
    assert((n + 1 - 1) as nat == n);
}

/// How many bytes are hashed for the first `n` files depends only on the
/// files and the lengths of their contents.
pub proof fn lemma_snapshot_len(files: Seq<FileReader<String>>, c1: Seq<Seq<u8>>, c2: Seq<Seq<u8>>, n: nat)
    requires
        forall|k: int| 0 <= k < n ==> (#[trigger] c1[k]).len() == c2[k].len(),
    ensures
        snapshot_input(files, c1, n).len() == snapshot_input(files, c2, n).len(),
    decreases n,
{
    if n > 0 {
        lemma_snapshot_len(files, c1, c2, (n - 1) as nat);
        assert(c1[n - 1].len() == c2[n - 1].len());
    }
}

/// Every byte of every file is hashed: contents of the same lengths give
/// the same hashed bytes exactly when they are the same contents, so two
/// snapshots of the same paths differing in any byte of any file hash
/// different inputs.
pub proof fn lemma_snapshot_distinguishes_contents(
    files: Seq<FileReader<String>>,
    c1: Seq<Seq<u8>>,
    c2: Seq<Seq<u8>>,
    n: nat,
)
    requires
        forall|k: int| 0 <= k < n ==> (#[trigger] c1[k]).len() == c2[k].len(),
    ensures
        snapshot_input(files, c1, n) == snapshot_input(files, c2, n)
            <==> (forall|k: int| 0 <= k < n ==> #[trigger] c1[k] == c2[k]),
    decreases n,
{
    if n > 0 {
        let m = (n - 1) as nat;
        lemma_snapshot_distinguishes_contents(files, c1, c2, m);
        lemma_snapshot_len(files, c1, c2, m);
        let a1 = snapshot_input(files, c1, m);
        let a2 = snapshot_input(files, c2, m);
        let p = encode_utf8(files[m as int].inner()@);
        let s1 = snapshot_input(files, c1, n);
        let s2 = snapshot_input(files, c2, n);
        assert(s1 == a1 + p + c1[m as int]);
        assert(s2 == a2 + p + c2[m as int]);
        assert(c1[m as int].len() == c2[m as int].len());
        if s1 == s2 {
            assert(a1 =~= s1.subrange(0, a1.len() as int));
            assert(a2 =~= s2.subrange(0, a2.len() as int));
            assert(c1[m as int] =~= s1.subrange((a1.len() + p.len()) as int, s1.len() as int));
            assert(c2[m as int] =~= s2.subrange((a2.len() + p.len()) as int, s2.len() as int));
            assert forall|k: int| 0 <= k < n implies #[trigger] c1[k] == c2[k] by {
                if k < m {
                    assert(c1[k] == c2[k]);
                }
            }
        }
        if forall|k: int| 0 <= k < n ==> #[trigger] c1[k] == c2[k] {
            assert forall|k: int| 0 <= k < m implies #[trigger] c1[k] == c2[k] by {
                assert(c1[k] == c2[k]);
            }
            assert(c1[m as int] == c2[m as int]);
        }
    }
}

/// Appends the bytes of `buffers`, in order, to `out`.
fn append_buffers(out: &mut Vec<u8>, buffers: &Vec<Vec<u8>>)
    ensures
        final(out)@ == old(out)@ + concat_buffers(buffers_view(buffers@)),
{
    let mut i: usize = 0;
    while i < buffers.len()
        invariant
            i <= buffers@.len(),
            out@ == old(out)@ + concat_buffers(buffers_view(buffers@).take(i as int)),
        decreases buffers@.len() - i,
    {
        let ghost before = out@;
        let mut j: usize = 0;
        while j < buffers[i].len()
            invariant
                i < buffers@.len(),
                j <= buffers@[i as int]@.len(),
                out@ == before + buffers@[i as int]@.take(j as int),
            decreases buffers@[i as int]@.len() - j,
        {
            out.push(buffers[i][j]);
            assert(buffers@[i as int]@.take(j + 1) =~= buffers@[i as int]@.take(j as int).push(buffers@[i as int]@[j as int]));
            j += 1;
        }
        proof {
            assert(buffers@[i as int]@.take(j as int) =~= buffers@[i as int]@);
            assert(buffers_view(buffers@).take(i + 1) =~= buffers_view(buffers@).take(i as int).push(buffers@[i as int]@));
            lemma_concat_buffers_push(buffers_view(buffers@).take(i as int), buffers@[i as int]@);
            assert(out@ =~= old(out)@ + concat_buffers(buffers_view(buffers@).take(i + 1)));
        }
        i += 1;
    }
    assert(buffers_view(buffers@).take(buffers@.len() as int) =~= buffers_view(buffers@));
}

/// The fingerprint of the files, `contents[i]` holding the bytes of the
/// i-th: each file is read as its strategy reads it, and its path and
/// buffers are hashed in turn with BLAKE3; the hash is written in
/// lowercase hexadecimal.
pub fn snapshot_digest(files: &Vec<FileReader<String>>, contents: &Vec<Vec<u8>>) -> (r: String)
    requires
        contents.len() == files.len(),
    ensures
        r@ == hex_lower(blake3_digest(snapshot_input(files@, buffers_view(contents@), files.len() as nat))),
{
    let mut input: Vec<u8> = Vec::new();
    let mut i: usize = 0;
    while i < files.len()
        invariant
            i <= files@.len(),
            contents.len() == files.len(),
            input@ == snapshot_input(files@, buffers_view(contents@), i as nat),
        decreases files@.len() - i,
    {
        let file = &files[i];
        let mut buffers: Vec<Vec<u8>> = Vec::new();
        file.flush_data(&contents[i], &mut buffers);
        let url = file.get_string_lossy_url();
        let bytes = url.as_bytes();
        let mut k: usize = 0;
        let ghost before = input@;
        while k < bytes.len()
            invariant
                k <= bytes@.len(),
                input@ == before + bytes@.take(k as int),
            decreases bytes@.len() - k,
        {
            input.push(bytes[k]);
            assert(bytes@.take(k + 1) =~= bytes@.take(k as int).push(bytes@[k as int]));
            k += 1;
        }
        proof {
            assert(bytes@.take(k as int) =~= bytes@);
            assert(buffers_view(buffers@) =~= strategy_buffers(file.strategy(), contents@[i as int]@));
            lemma_flush_preserves_content(file.strategy(), contents@[i as int]@);
        }
        append_buffers(&mut input, &buffers);
        proof {
            assert(buffers_view(contents@)[i as int] == contents@[i as int]@);
            assert(input@ =~= snapshot_input(files@, buffers_view(contents@), (i + 1) as nat));
        }
        i += 1;
    }
    let digest = blake3_hash(input.as_slice());
    bytes_to_hex(&digest)
}

} // verus!
