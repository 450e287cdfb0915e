//! Fingerprints of recording folders, used to recognise a recording that was
//! already imported. Each file contributes its relative path and its contents,
//! each framed by its length as eight big-endian bytes, so that no two
//! different folders feed the same bytes to the hash.

use vstd::prelude::*;

use sha2::Digest;

use super::model::{ThreadMetadata, ThreadStatus};

verus! {

/// The SHA-256 hash of `bytes`.
pub uninterp spec fn sha256_of(bytes: Seq<u8>) -> Seq<u8>;

/// Calls `sha2::Sha256::digest`. Trusted: the result is `sha256_of` the bytes
/// (SHA-256 depends on its input alone) and is 32 bytes long, the output
/// size the `sha2` source declares for `Sha256`.
#[verifier::external_body]
fn sha256(bytes: &[u8]) -> (r: Vec<u8>)
    ensures
        r@ == sha256_of(bytes@),
        r@.len() == 32,
{
    sha2::Sha256::digest(bytes).to_vec()
}

/// `256^width`.
pub open spec fn pow256(width: nat) -> nat
    decreases width,
{
    if width == 0 {
        1
    } else {
        256 * pow256((width - 1) as nat)
    }
}

/// The last `width` bytes of `n` in big-endian order.
pub open spec fn be_bytes(n: nat, width: nat) -> Seq<u8>
    decreases width,
{
    if width == 0 {
        Seq::empty()
    } else {
        be_bytes(n / 256, (width - 1) as nat).push((n % 256) as u8)
    }
}

/// `bytes` preceded by its length as eight big-endian bytes.
pub open spec fn frame(bytes: Seq<u8>) -> Seq<u8> {
    be_bytes(bytes.len(), 8) + bytes
}

/// The frames of `parts`, one after the other.
pub open spec fn frames(parts: Seq<Seq<u8>>) -> Seq<u8>
    decreases parts.len(),
{
    if parts.len() == 0 {
        Seq::empty()
    } else {
        frame(parts[0]) + frames(parts.drop_first())
    }
}

/// A file of a recording folder: its path relative to the folder, and the
/// bytes that stand for it in the fingerprint (its contents; for the thread's
/// metadata, the metadata normalised by `normalize_for_fingerprint`).
#[derive(Clone, Debug, PartialEq, Eq)]
pub struct TreeFile {
    pub relative_path: Vec<u8>,
    pub contents: Vec<u8>,
}

pub struct TreeFileView {
    pub relative_path: Seq<u8>,
    pub contents: Seq<u8>,
}

impl View for TreeFile {
    type V = TreeFileView;

    open spec fn view(&self) -> TreeFileView {
        TreeFileView { relative_path: self.relative_path@, contents: self.contents@ }
    }
}

pub open spec fn tree_views(files: Seq<TreeFile>) -> Seq<TreeFileView> {
    files.map_values(|f: TreeFile| f@)
}

/// The byte strings a folder contributes: each file's path, then its contents.
pub open spec fn file_parts(files: Seq<TreeFileView>) -> Seq<Seq<u8>>
    decreases files.len(),
{
    if files.len() == 0 {
        Seq::empty()
    } else {
        seq![files[0].relative_path, files[0].contents] + file_parts(files.drop_first())
    }
}

/// What the fingerprint of a folder with `files` (in path order) hashes.
pub open spec fn fingerprint_input(files: Seq<TreeFileView>) -> Seq<u8> {
    frames(file_parts(files))
}

pub proof fn lemma_be_bytes_len(n: nat, width: nat)
    ensures
        be_bytes(n, width).len() == width,
    decreases width,
{
    if width > 0 {
        lemma_be_bytes_len(n / 256, (width - 1) as nat);
    }
}

proof fn lemma_div_bound(a: nat, p: nat)
    requires
        a < 256 * p,
    ensures
        a / 256 < p,
{
    assert(a / 256 < p) by (nonlinear_arith)
        requires
            a < 256 * p,
    ;
}

/// Numbers below `256^width` have distinct `width`-byte encodings.
pub proof fn lemma_be_bytes_injective(a: nat, b: nat, width: nat)
    requires
        a < pow256(width),
        b < pow256(width),
        be_bytes(a, width) == be_bytes(b, width),
    ensures
        a == b,
    decreases width,
{
    if width > 0 {
        let w = (width - 1) as nat;
        assert(be_bytes(a, width).last() == (a % 256) as u8);
        assert(be_bytes(b, width).last() == (b % 256) as u8);
        assert(be_bytes(a, width).drop_last() =~= be_bytes(a / 256, w));
        assert(be_bytes(b, width).drop_last() =~= be_bytes(b / 256, w));
        lemma_div_bound(a, pow256(w));
        lemma_div_bound(b, pow256(w));
        lemma_be_bytes_injective(a / 256, b / 256, w);
    }
}

proof fn lemma_pow256_8()
    ensures
        pow256(8) == 0x1_0000_0000_0000_0000,
{
    reveal_with_fuel(pow256, 9);
}

/// Framing can be undone: different lists of byte strings (each shorter than
/// `2^64`) have different framed forms.
pub proof fn lemma_frames_injective(a: Seq<Seq<u8>>, b: Seq<Seq<u8>>)
    requires
        forall|i: int| 0 <= i < a.len() ==> (#[trigger] a[i]).len() < 0x1_0000_0000_0000_0000,
        forall|i: int| 0 <= i < b.len() ==> (#[trigger] b[i]).len() < 0x1_0000_0000_0000_0000,
        frames(a) == frames(b),
    ensures
        a == b,
    decreases a.len(),
{
    if a.len() == 0 && b.len() == 0 {
    } else if a.len() == 0 {
        lemma_be_bytes_len(b[0].len(), 8);
        assert(frames(b).len() >= 8);
    } else if b.len() == 0 {
        lemma_be_bytes_len(a[0].len(), 8);
        assert(frames(a).len() >= 8);
    } else {
        let fa = frames(a);
        lemma_be_bytes_len(a[0].len(), 8);
        lemma_be_bytes_len(b[0].len(), 8);
        lemma_pow256_8();
        assert(fa.take(8) =~= be_bytes(a[0].len(), 8));
        assert(frames(b).take(8) =~= be_bytes(b[0].len(), 8));
        lemma_be_bytes_injective(a[0].len(), b[0].len(), 8);
        let n = a[0].len() as int;
        assert(fa.subrange(8, 8 + n) =~= a[0]);
        assert(frames(b).subrange(8, 8 + n) =~= b[0]);
        assert(fa.skip(8 + n) =~= frames(a.drop_first()));
        assert(frames(b).skip(8 + n) =~= frames(b.drop_first()));
        lemma_frames_injective(a.drop_first(), b.drop_first());
        assert(a =~= seq![a[0]] + a.drop_first());
        assert(b =~= seq![b[0]] + b.drop_first());
    }
}

proof fn lemma_file_parts_injective(a: Seq<TreeFileView>, b: Seq<TreeFileView>)
    requires
        file_parts(a) == file_parts(b),
    ensures
        a == b,
    decreases a.len(),
{
    if a.len() == 0 && b.len() == 0 {
    } else if a.len() == 0 {
        assert(file_parts(b).len() >= 2);
    } else if b.len() == 0 {
        assert(file_parts(a).len() >= 2);
    } else {
        assert(file_parts(a)[0] == file_parts(b)[0]);
        assert(file_parts(a)[1] == file_parts(b)[1]);
        assert(file_parts(a).skip(2) =~= file_parts(a.drop_first()));
        assert(file_parts(b).skip(2) =~= file_parts(b.drop_first()));
        lemma_file_parts_injective(a.drop_first(), b.drop_first());
        assert(a =~= seq![a[0]] + a.drop_first());
        assert(b =~= seq![b[0]] + b.drop_first());
    }
}

proof fn lemma_file_parts_bounded(files: Seq<TreeFileView>)
    requires
        forall|i: int|
            0 <= i < files.len() ==> (#[trigger] files[i]).relative_path.len() < 0x1_0000_0000_0000_0000
                && files[i].contents.len() < 0x1_0000_0000_0000_0000,
    ensures
        forall|i: int|
            0 <= i < file_parts(files).len() ==> (#[trigger] file_parts(files)[i]).len()
                < 0x1_0000_0000_0000_0000,
    decreases files.len(),
{
    if files.len() > 0 {
        lemma_file_parts_bounded(files.drop_first());
        assert forall|i: int| 0 <= i < file_parts(files).len() implies (#[trigger] file_parts(
            files,
        )[i]).len() < 0x1_0000_0000_0000_0000 by {
            if i >= 2 {
                assert(file_parts(files)[i] == file_parts(files.drop_first())[i - 2]);
            }
        }
    }
}

/// File boundaries are part of the fingerprint: folders that differ in any
/// file's path, contents, or in where one file ends and the next begins never
/// hash the same bytes.
pub proof fn distinct_folders_hash_distinct_bytes(a: Seq<TreeFileView>, b: Seq<TreeFileView>)
    requires
        forall|i: int|
            0 <= i < a.len() ==> (#[trigger] a[i]).relative_path.len() < 0x1_0000_0000_0000_0000
                && a[i].contents.len() < 0x1_0000_0000_0000_0000,
        forall|i: int|
            0 <= i < b.len() ==> (#[trigger] b[i]).relative_path.len() < 0x1_0000_0000_0000_0000
                && b[i].contents.len() < 0x1_0000_0000_0000_0000,
        a != b,
    ensures
        fingerprint_input(a) != fingerprint_input(b),
{
    lemma_file_parts_bounded(a);
    lemma_file_parts_bounded(b);
    if fingerprint_input(a) == fingerprint_input(b) {
        lemma_frames_injective(file_parts(a), file_parts(b));
        lemma_file_parts_injective(a, b);
    }
}

fn be_vec(n: u64, width: u64) -> (v: Vec<u8>)
    ensures
        v@ == be_bytes(n as nat, width as nat),
    decreases width,
{
    if width == 0 {
        Vec::new()
    } else {
        let mut v = be_vec(n / 256, width - 1);
        v.push((n % 256) as u8);
        v
    }
}

/// Appends the frame of `bytes` to `out`.
fn push_frame(out: &mut Vec<u8>, bytes: &Vec<u8>)
    ensures
        final(out)@ == old(out)@ + frame(bytes@),
{
    let len = be_vec(bytes.len() as u64, 8);
    let ghost start = out@;
    let mut i: usize = 0;
    while i < len.len()
        invariant
            i <= len@.len(),
            out@ == start + len@.take(i as int),
        decreases len@.len() - i,
    {
        out.push(len[i]);
        proof {
            assert(len@.take(i + 1) =~= len@.take(i as int).push(len@[i as int]));
        }
        i = i + 1;
    }
    let ghost mid = out@;
    let mut j: usize = 0;
    while j < bytes.len()
        invariant
            j <= bytes@.len(),
            out@ == mid + bytes@.take(j as int),
        decreases bytes@.len() - j,
    {
        out.push(bytes[j]);
        proof {
            assert(bytes@.take(j + 1) =~= bytes@.take(j as int).push(bytes@[j as int]));
        }
        j = j + 1;
    }
    proof {
        assert(len@.take(i as int) =~= len@);
        assert(bytes@.take(j as int) =~= bytes@);
        assert(out@ =~= start + frame(bytes@));
    }
}

proof fn lemma_file_parts_push(files: Seq<TreeFileView>, f: TreeFileView)
    ensures
        frames(file_parts(files.push(f))) == frames(file_parts(files)) + frame(f.relative_path)
            + frame(f.contents),
    decreases files.len(),
{
    if files.len() == 0 {
        assert(files.push(f) =~= seq![f]);
        assert(seq![f].drop_first() =~= Seq::<TreeFileView>::empty());
        assert(file_parts(Seq::<TreeFileView>::empty()) =~= Seq::<Seq<u8>>::empty());
        assert(file_parts(seq![f]) =~= seq![f.relative_path, f.contents]);
        let two = seq![f.relative_path, f.contents];
        assert(two.drop_first() =~= seq![f.contents]);
        assert(seq![f.contents].drop_first() =~= Seq::<Seq<u8>>::empty());
        assert(frames(Seq::<Seq<u8>>::empty()) =~= Seq::<u8>::empty());
        assert(frames(seq![f.contents]) =~= frame(f.contents));
        assert(frames(two) =~= frame(f.relative_path) + frame(f.contents));
        assert(files =~= Seq::<TreeFileView>::empty());
        assert(frames(file_parts(files)) =~= Seq::<u8>::empty());
    } else {
        lemma_file_parts_push(files.drop_first(), f);
        assert(files.push(f).drop_first() =~= files.drop_first().push(f));
        let head = seq![files[0].relative_path, files[0].contents];
        assert(head.drop_first() =~= seq![files[0].contents]);
        assert(seq![files[0].contents].drop_first() =~= Seq::<Seq<u8>>::empty());
        lemma_frames_append(head, file_parts(files.drop_first()));
        lemma_frames_append(head, file_parts(files.drop_first().push(f)));
    }
}

proof fn lemma_frames_append(a: Seq<Seq<u8>>, b: Seq<Seq<u8>>)
    ensures
        frames(a + b) == frames(a) + frames(b),
    decreases a.len(),
{
    if a.len() == 0 {
        assert(a + b =~= b);
    } else {
        assert((a + b).drop_first() =~= a.drop_first() + b);
        lemma_frames_append(a.drop_first(), b);
    }
}

/// The bytes the fingerprint of a folder with `files` (in path order) hashes.
pub fn fingerprint_bytes(files: &Vec<TreeFile>) -> (r: Vec<u8>)
    ensures
        r@ == fingerprint_input(tree_views(files@)),
{
    let mut out: Vec<u8> = Vec::new();
    let mut i: usize = 0;
    while i < files.len()
        invariant
            i <= files@.len(),
            out@ == fingerprint_input(tree_views(files@).take(i as int)),
        decreases files@.len() - i,
    {
        proof {
            lemma_file_parts_push(tree_views(files@).take(i as int), files@[i as int]@);
            assert(tree_views(files@).take(i + 1) =~= tree_views(files@).take(i as int).push(
                files@[i as int]@,
            ));
        }
        push_frame(&mut out, &files[i].relative_path);
        push_frame(&mut out, &files[i].contents);
        i = i + 1;
    }
    proof {
        assert(tree_views(files@).take(i as int) =~= tree_views(files@));
    }
    out
}

/// The fingerprint of a folder with `files` (in path order).
pub fn tree_digest(files: &Vec<TreeFile>) -> (r: Vec<u8>)
    ensures
        r@ == sha256_of(fingerprint_input(tree_views(files@))),
        r@.len() == 32,
{
    let bytes = fingerprint_bytes(files);
    sha256(bytes.as_slice())
}

/// Whether two folders have the same fingerprint.
pub fn trees_match(left: &Vec<TreeFile>, right: &Vec<TreeFile>) -> (r: bool)
    ensures
        r == (sha256_of(fingerprint_input(tree_views(left@))) == sha256_of(
            fingerprint_input(tree_views(right@)),
        )),
{
    let a = tree_digest(left);
    let b = tree_digest(right);
    let mut i: usize = 0;
    while i < 32
        invariant
            i <= 32,
            a@.len() == 32,
            b@.len() == 32,
            a@ == sha256_of(fingerprint_input(tree_views(left@))),
            b@ == sha256_of(fingerprint_input(tree_views(right@))),
            forall|j: int| 0 <= j < i ==> a@[j] == b@[j],
        decreases 32 - i,
    {
        if a[i] != b[i] {
            proof {
                assert(a@[i as int] != b@[i as int]);
                assert(a@ != b@);
            }
            return false;
        }
        i = i + 1;
    }
    proof {
        assert(a@ =~= b@);
    }
    true
}

/// A thread's metadata as it counts toward a fingerprint: without its id and
/// with an idle status, so a copy under another id, or one interrupted while
/// recording, still matches.
pub fn normalize_for_fingerprint(metadata: &mut ThreadMetadata)
    ensures
        final(metadata).id@ == Seq::<char>::empty(),
        final(metadata).status == ThreadStatus::Idle,
        final(metadata).title == old(metadata).title,
        final(metadata).created_at_ms == old(metadata).created_at_ms,
        final(metadata).updated_at_ms == old(metadata).updated_at_ms,
        final(metadata).retrieval_readiness == old(metadata).retrieval_readiness,
        final(metadata).duration_ms == old(metadata).duration_ms,
        final(metadata).calendar == old(metadata).calendar,
{
    metadata.id = String::new();
    metadata.status = ThreadStatus::Idle;
}

} // verus!
