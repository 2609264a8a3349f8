//! Content-addressed promise identity with Dewey-path child derivation.
//!
//! A `PromiseId` is a 32-byte root hash plus a path of sequence numbers: the
//! root pins the execution, the path encodes the position in the call tree.
//! The root hash is derived from length-prefixed fields so that adjacent
//! variable-length fields can never collide by concatenation.

use vstd::prelude::*;

use crate::digest::{hex_of, hex_lower, sha256, sha256_of};
use crate::text::{dec_of, u64_to_string};
use crate::util::copy_vec;

verus! {

use vstd::string::StringExecFns;
use vstd::utf8::encode_utf8;

/// Maximum depth of the call tree: `child` fails beyond this many segments.
pub const MAX_CALL_DEPTH: usize = 64;

/// Domain-level failures of the identity layer.
#[derive(Clone, Copy, Debug, PartialEq, Eq, Structural)]
pub enum DomainError {
    /// `child` was asked to extend a path that already has the maximum
    /// number of segments.
    MaxCallDepthExceeded { max: usize },
}

/// Mathematical value of a [`PromiseId`]: root hash bytes and path segments.
#[verifier::ext_equal]
pub struct PidView {
    pub root: Seq<u8>,
    pub path: Seq<u32>,
}

/// Encodes position in the call tree using Dewey notation.
///
/// `root` is a SHA-256 hash identifying the execution; `path` is the
/// sequence of child operations at each depth.
#[derive(Debug, PartialEq, Eq, Hash)]
pub struct PromiseId {
    root: [u8; 32],
    path: Vec<u32>,
}

/// A `PromiseId` that identifies a whole execution.
pub type ExecutionId = PromiseId;

impl View for PromiseId {
    type V = PidView;

    closed spec fn view(&self) -> PidView {
        PidView { root: self.root@, path: self.path@ }
    }
}

impl DeepView for PromiseId {
    type V = PidView;

    open spec fn deep_view(&self) -> PidView {
        self.view()
    }
}

impl Clone for PromiseId {
    fn clone(&self) -> (r: Self)
        ensures
            r@ == self@,
    {
        PromiseId { root: self.root, path: copy_vec(&self.path) }
    }
}

/// A u32 as four little-endian bytes.
pub open spec fn le32(n: u32) -> Seq<u8> {
    seq![
        (n & 0xff) as u8,
        ((n >> 8) & 0xff) as u8,
        ((n >> 16) & 0xff) as u8,
        ((n >> 24) & 0xff) as u8,
    ]
}

/// Path segments as consecutive little-endian u32 blocks.
pub open spec fn le_segments(path: Seq<u32>) -> Seq<u8>
    decreases path.len(),
{
    if path.len() == 0 {
        Seq::empty()
    } else {
        le32(path[0]) + le_segments(path.drop_first())
    }
}

/// The parent block of the root preimage: length-prefixed parent root bytes
/// followed by the length-prefixed parent path segments.
pub open spec fn parent_block(parent: PidView) -> Seq<u8> {
    le32(parent.root.len() as u32) + parent.root + le32(parent.path.len() as u32) + le_segments(
        parent.path,
    )
}

/// The byte string hashed by [`PromiseId::promise_root`]: every
/// variable-length field is length-prefixed with a little-endian u32, and the
/// parent block is present exactly when a parent is supplied.
pub open spec fn root_preimage(
    component_digest: Seq<u8>,
    key_bytes: Seq<u8>,
    parent: Option<PidView>,
) -> Seq<u8> {
    le32(component_digest.len() as u32) + component_digest + (match parent {
        Option::Some(p) => parent_block(p),
        Option::None => Seq::empty(),
    }) + le32(key_bytes.len() as u32) + key_bytes
}

/// Display form of a path: `.seg` per segment, in order.
pub open spec fn path_display(path: Seq<u32>) -> Seq<char>
    decreases path.len(),
{
    if path.len() == 0 {
        Seq::empty()
    } else {
        path_display(path.drop_last()) + "."@ + dec_of(path.last() as nat)
    }
}

/// Display form of a promise id: hex of the first 4 root bytes, then `.seg`
/// per path element.
pub open spec fn pid_display(v: PidView) -> Seq<char> {
    hex_of(v.root.take(4)) + path_display(v.path)
}

/// Push the four little-endian bytes of `n`.
fn push_le32(out: &mut Vec<u8>, n: u32)
    ensures
        final(out)@ == old(out)@ + le32(n),
{
    out.push((n & 0xff) as u8);
    out.push(((n >> 8) & 0xff) as u8);
    out.push(((n >> 16) & 0xff) as u8);
    out.push(((n >> 24) & 0xff) as u8);
    proof {
        assert(out@ =~= old(out)@ + le32(n));
    }
}

impl PromiseId {
    /// Root-level promise (empty path) from a pre-computed hash.
    pub fn new(root: [u8; 32]) -> (r: Self)
        ensures
            r@ == (PidView { root: root@, path: Seq::empty() }),
    {
        Self { root, path: Vec::new() }
    }

    /// Derive a deterministic execution root from its defining inputs.
    ///
    /// The hash input is `root_preimage`: length-prefixed component digest,
    /// then the parent's root and path (only when a parent is supplied),
    /// then the length-prefixed key bytes.
    pub fn promise_root(
        component_digest: &[u8],
        idempotency_key: &str,
        parent_id: Option<&PromiseId>,
    ) -> (r: Self)
        ensures
            r@.path.len() == 0,
            r@.root == sha256_of(
                root_preimage(
                    component_digest@,
                    encode_utf8(idempotency_key@),
                    match parent_id {
                        Option::Some(p) => Option::Some(p@),
                        Option::None => Option::None,
                    },
                ),
            ),
    {
        let mut preimage: Vec<u8> = Vec::new();

        #[verifier::truncate]
        let digest_len = component_digest.len() as u32;
        push_le32(&mut preimage, digest_len);
        crate::util::append_copies(&mut preimage, component_digest);

        match parent_id {
            Option::Some(pid) => {
                push_le32(&mut preimage, 32);
                crate::util::append_copies(&mut preimage, pid.root.as_slice());
                #[verifier::truncate]
                let path_len = pid.path.len() as u32;
                push_le32(&mut preimage, path_len);
                let ghost mid = preimage@;
                let mut i: usize = 0;
                while i < pid.path.len()
                    invariant
                        i <= pid.path.len(),
                        preimage@ == mid + le_segments(pid.path@.take(i as int)),
                    decreases pid.path.len() - i,
                {
                    proof {
                        lemma_le_segments_snoc(pid.path@.take(i as int + 1));
                        assert(pid.path@.take(i as int + 1).drop_last() =~= pid.path@.take(
                            i as int,
                        ));
                    }
                    push_le32(&mut preimage, pid.path[i]);
                    i = i + 1;
                }
                proof {
                    assert(pid.path@.take(pid.path.len() as int) =~= pid.path@);
                    assert(preimage@ =~= le32(digest_len) + component_digest@ + parent_block(
                        pid@,
                    ));
                }
            },
            Option::None => {},
        }

        let key_bytes = idempotency_key.as_bytes();
        #[verifier::truncate]
        let key_len = key_bytes.len() as u32;
        push_le32(&mut preimage, key_len);
        crate::util::append_copies(&mut preimage, key_bytes);

        proof {
            assert(preimage@ =~= root_preimage(
                component_digest@,
                encode_utf8(idempotency_key@),
                match parent_id {
                    Option::Some(p) => Option::Some(p@),
                    Option::None => Option::None,
                },
            ));
        }

        let hash = sha256(preimage.as_slice());
        let mut root: [u8; 32] = [0u8; 32];
        let mut i: usize = 0;
        while i < 32
            invariant
                i <= 32,
                hash@.len() == 32,
                hash@ == sha256_of(
                    root_preimage(
                        component_digest@,
                        encode_utf8(idempotency_key@),
                        match parent_id {
                            Option::Some(p) => Option::Some(p@),
                            Option::None => Option::None,
                        },
                    ),
                ),
                forall|j: int| 0 <= j < i ==> root@[j] == hash@[j],
            decreases 32 - i,
        {
            root[i] = hash[i];
            i = i + 1;
        }
        proof {
            assert(root@ =~= hash@);
        }
        Self::new(root)
    }

    /// Create a child promise by appending a sequence number to the path.
    ///
    /// Fails with `MaxCallDepthExceeded` when the path already has
    /// `MAX_CALL_DEPTH` segments.
    pub fn child(&self, seq: u32) -> (r: Result<Self, DomainError>)
        ensures
            match r {
                Result::Ok(c) => self@.path.len() < MAX_CALL_DEPTH && c@ == (PidView {
                    root: self@.root,
                    path: self@.path.push(seq),
                }),
                Result::Err(e) => self@.path.len() >= MAX_CALL_DEPTH && e
                    == (DomainError::MaxCallDepthExceeded { max: MAX_CALL_DEPTH }),
            },
    {
        if self.path.len() >= MAX_CALL_DEPTH {
            return Result::Err(DomainError::MaxCallDepthExceeded { max: MAX_CALL_DEPTH });
        }
        let mut new_path = copy_vec(&self.path);
        new_path.push(seq);
        Result::Ok(Self { root: self.root, path: new_path })
    }

    /// Return the parent promise (one level up), or `None` at the root.
    pub fn parent(&self) -> (r: Option<Self>)
        ensures
            match r {
                Option::Some(p) => self@.path.len() > 0 && p@ == (PidView {
                    root: self@.root,
                    path: self@.path.drop_last(),
                }),
                Option::None => self@.path.len() == 0,
            },
    {
        if self.path.len() == 0 {
            return Option::None;
        }
        let mut parent_path = copy_vec(&self.path);
        parent_path.pop();
        Option::Some(Self { root: self.root, path: parent_path })
    }

    /// Whether this is a root-level promise (empty path, depth 0).
    pub fn is_root(&self) -> (r: bool)
        ensures
            r == (self@.path.len() == 0),
    {
        self.path.len() == 0
    }

    /// Depth in the call tree (0 for root).
    pub fn depth(&self) -> (r: usize)
        ensures
            r == self@.path.len(),
    {
        self.path.len()
    }

    /// The raw 32-byte root hash.
    pub fn root_bytes(&self) -> (r: &[u8; 32])
        ensures
            r@ == self@.root,
    {
        &self.root
    }

    /// The path segments (sequence numbers at each depth).
    pub fn path(&self) -> (r: &[u32])
        ensures
            r@ == self@.path,
    {
        self.path.as_slice()
    }

    /// Stable display form: hex of the first 4 root bytes, then `.seg` per
    /// path element.
    pub fn display_string(&self) -> (r: String)
        ensures
            r@ == pid_display(self@),
    {
        let mut first4: Vec<u8> = Vec::new();
        first4.push(self.root[0]);
        first4.push(self.root[1]);
        first4.push(self.root[2]);
        first4.push(self.root[3]);
        proof {
            assert(first4@ =~= self@.root.take(4));
        }
        let mut out = hex_lower(first4.as_slice());
        let mut i: usize = 0;
        while i < self.path.len()
            invariant
                i <= self.path.len(),
                out@ == hex_of(self@.root.take(4)) + path_display(self@.path.take(i as int)),
            decreases self.path.len() - i,
        {
            out.append(".");
            let seg = u64_to_string(self.path[i] as u64);
            out.append(seg.as_str());
            proof {
                assert(self@.path.take(i as int + 1).drop_last() =~= self@.path.take(i as int));
                assert(self@.path.take(i as int + 1).last() == self@.path[i as int]);
            }
            i = i + 1;
        }
        proof {
            assert(self@.path.take(self.path.len() as int) =~= self@.path);
        }
        out
    }

    /// Whether two promise ids denote the same promise: equal roots and
    /// equal paths.
    pub fn same_id(&self, other: &PromiseId) -> (r: bool)
        ensures
            r == (self@ == other@),
    {
        let mut i: usize = 0;
        while i < 32
            invariant
                i <= 32,
                forall|j: int| 0 <= j < i ==> self@.root[j] == other@.root[j],
            decreases 32 - i,
        {
            if self.root[i] != other.root[i] {
                return false;
            }
            i = i + 1;
        }
        if self.path.len() != other.path.len() {
            proof {
                assert(self@.path.len() != other@.path.len());
            }
            return false;
        }
        let mut k: usize = 0;
        while k < self.path.len()
            invariant
                k <= self.path.len(),
                self@.path.len() == other@.path.len(),
                forall|j: int| 0 <= j < k ==> self@.path[j] == other@.path[j],
            decreases self.path.len() - k,
        {
            if self.path[k] != other.path[k] {
                return false;
            }
            k = k + 1;
        }
        proof {
            assert(self@.root =~= other@.root);
            assert(self@.path =~= other@.path);
            assert(self@ =~= other@);
        }
        true
    }
}

/// Copy a vector of promise ids element by element.
pub fn clone_pids(v: &Vec<PromiseId>) -> (r: Vec<PromiseId>)
    ensures
        r.deep_view() == v.deep_view(),
{
    let mut r: Vec<PromiseId> = Vec::new();
    let mut i: usize = 0;
    while i < v.len()
        invariant
            i <= v.len(),
            r@.len() == i,
            forall|j: int| 0 <= j < i ==> r@[j]@ == v@[j]@,
        decreases v.len() - i,
    {
        let c = v[i].clone();
        r.push(c);
        i = i + 1;
    }
    proof {
        assert forall|j: int| 0 <= j < v@.len() implies r.deep_view()[j] == v.deep_view()[j] by {
            assert(r@[j]@ == v@[j]@);
        }
        assert(r.deep_view() =~= v.deep_view());
    }
    r
}

/// `le_segments` over a non-empty path ends with the last segment's block.
pub proof fn lemma_le_segments_snoc(path: Seq<u32>)
    requires
        path.len() > 0,
    ensures
        le_segments(path) == le_segments(path.drop_last()) + le32(path.last()),
    decreases path.len(),
{
    if path.len() == 1 {
        assert(path.drop_last() =~= Seq::<u32>::empty());
        assert(le_segments(path) =~= le32(path[0]) + le_segments(path.drop_first()));
        assert(path.drop_first() =~= Seq::<u32>::empty());
        assert(le_segments(path) =~= le_segments(path.drop_last()) + le32(path.last()));
    } else {
        lemma_le_segments_snoc(path.drop_first());
        assert(path.drop_first().drop_last() =~= path.drop_last().drop_first());
        assert(path.drop_first().last() == path.last());
        assert(le_segments(path) == le32(path[0]) + le_segments(path.drop_first()));
        assert(le_segments(path.drop_last()) == le32(path.drop_last()[0]) + le_segments(
            path.drop_last().drop_first(),
        ));
        assert(path.drop_last()[0] == path[0]);
        assert(le_segments(path) =~= le_segments(path.drop_last()) + le32(path.last()));
    }
}


/// Four little-endian bytes determine the u32 they encode.
proof fn lemma_le32_inj(a: u32, b: u32)
    requires
        le32(a) == le32(b),
    ensures
        a == b,
{
    assert(le32(a)[0] == le32(b)[0]);
    assert(le32(a)[1] == le32(b)[1]);
    assert(le32(a)[2] == le32(b)[2]);
    assert(le32(a)[3] == le32(b)[3]);
    assert(a == b) by (bit_vector)
        requires
            (a & 0xff) as u8 == (b & 0xff) as u8,
            ((a >> 8) & 0xff) as u8 == ((b >> 8) & 0xff) as u8,
            ((a >> 16) & 0xff) as u8 == ((b >> 16) & 0xff) as u8,
            ((a >> 24) & 0xff) as u8 == ((b >> 24) & 0xff) as u8,
    ;
}

/// Equal concatenations with equally long heads have equal parts.
proof fn lemma_concat_inj(a1: Seq<u8>, b1: Seq<u8>, a2: Seq<u8>, b2: Seq<u8>)
    requires
        a1 + b1 == a2 + b2,
        a1.len() == a2.len(),
    ensures
        a1 == a2,
        b1 == b2,
{
    assert(a1 =~= (a1 + b1).take(a1.len() as int));
    assert(a2 =~= (a2 + b2).take(a2.len() as int));
    assert(b1 =~= (a1 + b1).skip(a1.len() as int));
    assert(b2 =~= (a2 + b2).skip(a2.len() as int));
}

/// A path's little-endian block is four bytes per segment.
proof fn lemma_le_segments_len(path: Seq<u32>)
    ensures
        le_segments(path).len() == 4 * path.len(),
    decreases path.len(),
{
    if path.len() > 0 {
        lemma_le_segments_len(path.drop_first());
    }
}

/// Equally long paths with equal little-endian blocks are equal.
proof fn lemma_le_segments_inj(path1: Seq<u32>, path2: Seq<u32>)
    requires
        path1.len() == path2.len(),
        le_segments(path1) == le_segments(path2),
    ensures
        path1 == path2,
    decreases path1.len(),
{
    if path1.len() > 0 {
        lemma_concat_inj(
            le32(path1[0]),
            le_segments(path1.drop_first()),
            le32(path2[0]),
            le_segments(path2.drop_first()),
        );
        lemma_le32_inj(path1[0], path2[0]);
        lemma_le_segments_inj(path1.drop_first(), path2.drop_first());
        assert(path1 =~= path2) by {
            assert(path1 == seq![path1[0]] + path1.drop_first());
            assert(path2 == seq![path2[0]] + path2.drop_first());
        }
    } else {
        assert(path1 =~= path2);
    }
}

/// Law (collision resistance of the identity encoding): the hashed byte
/// string determines every field that went into it, parent presence
/// included. Two root derivations collide only if the SHA-256 of distinct
/// byte strings collides, because the length prefixes make the encoding
/// injective.
#[verifier::rlimit(50)]
pub proof fn lemma_root_preimage_injective(
    d1: Seq<u8>,
    k1: Seq<u8>,
    p1: Option<PidView>,
    d2: Seq<u8>,
    k2: Seq<u8>,
    p2: Option<PidView>,
)
    requires
        d1.len() < 0x1_0000_0000,
        d2.len() < 0x1_0000_0000,
        k1.len() < 0x1_0000_0000,
        k2.len() < 0x1_0000_0000,
        p1 matches Option::Some(pp) ==> pp.root.len() == 32 && pp.path.len() < 0x1_0000_0000,
        p2 matches Option::Some(pp) ==> pp.root.len() == 32 && pp.path.len() < 0x1_0000_0000,
        root_preimage(d1, k1, p1) == root_preimage(d2, k2, p2),
    ensures
        d1 == d2,
        k1 == k2,
        p1 == p2,
{
    let mid1 = match p1 {
        Option::Some(pp) => parent_block(pp),
        Option::None => Seq::empty(),
    };
    let mid2 = match p2 {
        Option::Some(pp) => parent_block(pp),
        Option::None => Seq::empty(),
    };
    let tail1 = mid1 + le32(k1.len() as u32) + k1;
    let tail2 = mid2 + le32(k2.len() as u32) + k2;
    assert(root_preimage(d1, k1, p1) =~= le32(d1.len() as u32) + (d1 + tail1));
    assert(root_preimage(d2, k2, p2) =~= le32(d2.len() as u32) + (d2 + tail2));
    lemma_concat_inj(
        le32(d1.len() as u32),
        d1 + tail1,
        le32(d2.len() as u32),
        d2 + tail2,
    );
    lemma_le32_inj(d1.len() as u32, d2.len() as u32);
    assert(d1.len() == d2.len());
    lemma_concat_inj(d1, tail1, d2, tail2);
    if p1 is Some {
        lemma_le_segments_len(p1->Some_0.path);
    }
    if p2 is Some {
        lemma_le_segments_len(p2->Some_0.path);
    }
    match (p1, p2) {
        (Option::None, Option::None) => {
            lemma_concat_inj(le32(k1.len() as u32), k1, le32(k2.len() as u32), k2);
            assert(tail1 =~= le32(k1.len() as u32) + k1);
            assert(tail2 =~= le32(k2.len() as u32) + k2);
        },
        (Option::Some(pp1), Option::None) => {
            // The parent block opens with the parent root length, 32; without
            // a parent the same four bytes hold the key length. The key would
            // have to be 32 bytes long, but then the two encodings differ in
            // length: the parent block alone is 40 bytes or more.
            assert(tail1 =~= le32(32u32) + (pp1.root + le32(pp1.path.len() as u32) + le_segments(
                pp1.path,
            ) + le32(k1.len() as u32) + k1));
            assert(tail2 =~= le32(k2.len() as u32) + k2);
            lemma_concat_inj(
                le32(32u32),
                pp1.root + le32(pp1.path.len() as u32) + le_segments(pp1.path) + le32(
                    k1.len() as u32,
                ) + k1,
                le32(k2.len() as u32),
                k2,
            );
            lemma_le32_inj(32u32, k2.len() as u32);
            assert(k2.len() == 32);
            assert(tail2.len() == 36);
            assert(tail1.len() >= 44);
            assert(false);
        },
        (Option::None, Option::Some(pp2)) => {
            assert(tail2 =~= le32(32u32) + (pp2.root + le32(pp2.path.len() as u32) + le_segments(
                pp2.path,
            ) + le32(k2.len() as u32) + k2));
            assert(tail1 =~= le32(k1.len() as u32) + k1);
            lemma_concat_inj(
                le32(k1.len() as u32),
                k1,
                le32(32u32),
                pp2.root + le32(pp2.path.len() as u32) + le_segments(pp2.path) + le32(
                    k2.len() as u32,
                ) + k2,
            );
            lemma_le32_inj(k1.len() as u32, 32u32);
            assert(k1.len() == 32);
            assert(tail1.len() == 36);
            assert(tail2.len() >= 44);
            assert(false);
        },
        (Option::Some(pp1), Option::Some(pp2)) => {
            assert(tail1 =~= le32(32u32) + (pp1.root + (le32(pp1.path.len() as u32) + (le_segments(
                pp1.path,
            ) + (le32(k1.len() as u32) + k1)))));
            assert(tail2 =~= le32(32u32) + (pp2.root + (le32(pp2.path.len() as u32) + (le_segments(
                pp2.path,
            ) + (le32(k2.len() as u32) + k2)))));
            lemma_concat_inj(
                le32(32u32),
                pp1.root + (le32(pp1.path.len() as u32) + (le_segments(pp1.path) + (le32(
                    k1.len() as u32,
                ) + k1))),
                le32(32u32),
                pp2.root + (le32(pp2.path.len() as u32) + (le_segments(pp2.path) + (le32(
                    k2.len() as u32,
                ) + k2))),
            );
            lemma_concat_inj(
                pp1.root,
                le32(pp1.path.len() as u32) + (le_segments(pp1.path) + (le32(k1.len() as u32)
                    + k1)),
                pp2.root,
                le32(pp2.path.len() as u32) + (le_segments(pp2.path) + (le32(k2.len() as u32)
                    + k2)),
            );
            lemma_concat_inj(
                le32(pp1.path.len() as u32),
                le_segments(pp1.path) + (le32(k1.len() as u32) + k1),
                le32(pp2.path.len() as u32),
                le_segments(pp2.path) + (le32(k2.len() as u32) + k2),
            );
            lemma_le32_inj(pp1.path.len() as u32, pp2.path.len() as u32);
            assert(pp1.path.len() == pp2.path.len());
            lemma_concat_inj(
                le_segments(pp1.path),
                le32(k1.len() as u32) + k1,
                le_segments(pp2.path),
                le32(k2.len() as u32) + k2,
            );
            lemma_le_segments_inj(pp1.path, pp2.path);
            lemma_concat_inj(le32(k1.len() as u32), k1, le32(k2.len() as u32), k2);
            lemma_le32_inj(k1.len() as u32, k2.len() as u32);
            assert(pp1 =~= pp2);
        },
    }
}

} // verus!
