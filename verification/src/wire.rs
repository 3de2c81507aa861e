use crate::error::CommsError;
use crate::messages::{CameraFrame, CameraFrameView};
use vstd::prelude::*;

verus! {

/// The variable-length encoding of an unsigned integer on the wire: seven bits
/// per byte, least significant group first, the high bit set on every byte
/// but the last.
pub open spec fn varint(n: nat) -> Seq<u8>
    decreases n,
{
    if n < 128 {
        seq![n as u8]
    } else {
        seq![(n % 128 + 128) as u8] + varint(n / 128)
    }
}

/// The bytes of a camera frame on the wire: the four header fields as
/// varints, then the pixel data prefixed by its length as a varint.
pub open spec fn camera_wire(v: CameraFrameView) -> Seq<u8> {
    varint(v.width as nat) + (varint(v.height as nat) + (varint(v.fourcc as nat) + (varint(
        v.sequence as nat,
    ) + (varint(v.data.len()) + v.data))))
}

/// Whether `bytes` begins with the wire form of `v`.
pub open spec fn starts_with_frame(bytes: Seq<u8>, v: CameraFrameView) -> bool {
    exists|rest: Seq<u8>| bytes == #[trigger] (camera_wire(v) + rest)
}

/// The frame whose wire form begins `bytes`, if there is one.
pub open spec fn camera_wire_decoded(bytes: Seq<u8>) -> Option<CameraFrameView> {
    if exists|v: CameraFrameView| #[trigger] starts_with_frame(bytes, v) {
        Some(choose|v: CameraFrameView| #[trigger] starts_with_frame(bytes, v))
    } else {
        None
    }
}

proof fn lemma_varint_first_byte(n: nat)
    ensures
        varint(n).len() >= 1,
        (varint(n)[0] < 128) == (n < 128),
        n < 128 ==> varint(n) == seq![n as u8],
        n >= 128 ==> varint(n)[0] == (n % 128 + 128) as u8,
{
}

/// Two varints followed by anything are equal only if the numbers and the
/// rests are equal: the encoding is prefix-free.
pub proof fn lemma_varint_unique(a: nat, b: nat, r1: Seq<u8>, r2: Seq<u8>)
    requires
        varint(a) + r1 == varint(b) + r2,
    ensures
        a == b,
        r1 == r2,
    decreases a,
{
    let x = varint(a) + r1;
    lemma_varint_first_byte(a);
    lemma_varint_first_byte(b);
    assert(x[0] == varint(a)[0]);
    assert(x[0] == varint(b)[0]);
    if a < 128 {
        assert(b < 128);
        assert(r1 =~= x.drop_first());
        assert(r2 =~= x.drop_first());
    } else {
        assert(b >= 128);
        let ta = varint(a / 128);
        let tb = varint(b / 128);
        assert(varint(a) == seq![(a % 128 + 128) as u8] + ta);
        assert(varint(b) == seq![(b % 128 + 128) as u8] + tb);
        assert(x.drop_first() =~= ta + r1);
        assert(x.drop_first() =~= tb + r2);
        lemma_varint_unique(a / 128, b / 128, r1, r2);
        assert(a % 128 == b % 128);
    }
}

/// Two frames followed by anything are equal only if the frames and the
/// rests are equal: a frame's wire form can be read back unambiguously.
pub proof fn lemma_camera_wire_unique(v1: CameraFrameView, v2: CameraFrameView, r1: Seq<u8>, r2: Seq<u8>)
    requires
        camera_wire(v1) + r1 == camera_wire(v2) + r2,
    ensures
        v1 == v2,
        r1 == r2,
{
    let d1 = varint(v1.data.len()) + v1.data;
    let d2 = varint(v2.data.len()) + v2.data;
    let s1 = varint(v1.sequence as nat) + d1;
    let s2 = varint(v2.sequence as nat) + d2;
    let f1 = varint(v1.fourcc as nat) + s1;
    let f2 = varint(v2.fourcc as nat) + s2;
    let h1 = varint(v1.height as nat) + f1;
    let h2 = varint(v2.height as nat) + f2;
    assert(camera_wire(v1) + r1 =~= varint(v1.width as nat) + (h1 + r1));
    assert(camera_wire(v2) + r2 =~= varint(v2.width as nat) + (h2 + r2));
    lemma_varint_unique(v1.width as nat, v2.width as nat, h1 + r1, h2 + r2);
    assert(h1 + r1 =~= varint(v1.height as nat) + (f1 + r1));
    assert(h2 + r2 =~= varint(v2.height as nat) + (f2 + r2));
    lemma_varint_unique(v1.height as nat, v2.height as nat, f1 + r1, f2 + r2);
    assert(f1 + r1 =~= varint(v1.fourcc as nat) + (s1 + r1));
    assert(f2 + r2 =~= varint(v2.fourcc as nat) + (s2 + r2));
    lemma_varint_unique(v1.fourcc as nat, v2.fourcc as nat, s1 + r1, s2 + r2);
    assert(s1 + r1 =~= varint(v1.sequence as nat) + (d1 + r1));
    assert(s2 + r2 =~= varint(v2.sequence as nat) + (d2 + r2));
    lemma_varint_unique(v1.sequence as nat, v2.sequence as nat, d1 + r1, d2 + r2);
    assert(d1 + r1 =~= varint(v1.data.len()) + (v1.data + r1));
    assert(d2 + r2 =~= varint(v2.data.len()) + (v2.data + r2));
    lemma_varint_unique(v1.data.len(), v2.data.len(), v1.data + r1, v2.data + r2);
    let t = v1.data + r1;
    assert(v1.data =~= t.subrange(0, v1.data.len() as int));
    assert(v2.data =~= t.subrange(0, v1.data.len() as int));
    assert(r1 =~= t.subrange(v1.data.len() as int, t.len() as int));
    assert(r2 =~= t.subrange(v1.data.len() as int, t.len() as int));
}

/// Reading back what was written: the wire form of a frame, followed by any
/// further bytes, decodes to that frame.
pub proof fn lemma_camera_wire_round_trip(v: CameraFrameView, rest: Seq<u8>)
    ensures
        camera_wire_decoded(camera_wire(v) + rest) == Some(v),
{
    let bytes = camera_wire(v) + rest;
    assert(starts_with_frame(bytes, v));
    let w = choose|w: CameraFrameView| #[trigger] starts_with_frame(bytes, w);
    let r = choose|r: Seq<u8>| bytes == #[trigger] (camera_wire(w) + r);
    lemma_camera_wire_unique(v, w, rest, r);
}

/// Whether `bytes` begins with a varint of exactly `len` bytes whose value is
/// `n`: every byte but the last has its high bit set, and the low seven bits
/// of the bytes, least significant group first, make up `n`. Unlike
/// [`varint`], redundant high groups of zero bits are allowed.
pub open spec fn varint_prefix(bytes: Seq<u8>, n: nat, len: nat) -> bool
    decreases len,
{
    if len == 0 || bytes.len() < len {
        false
    } else if len == 1 {
        bytes[0] < 128 && n == bytes[0]
    } else {
        &&& bytes[0] >= 128
        &&& n % 128 == bytes[0] - 128
        &&& varint_prefix(bytes.drop_first(), n / 128, (len - 1) as nat)
    }
}

/// How the fields of a frame can lie at the start of `bytes` for postcard's
/// decoder: the four `u32` fields as varints of `lw`, `lh`, `lf` and `ls`
/// bytes (at most five each), the data length as a varint of `ll` bytes (at
/// most ten), then the data.
pub open spec fn loose_layout(
    bytes: Seq<u8>,
    v: CameraFrameView,
    lw: nat,
    lh: nat,
    lf: nat,
    ls: nat,
    ll: nat,
) -> bool {
    let b1 = bytes.skip(lw as int);
    let b2 = b1.skip(lh as int);
    let b3 = b2.skip(lf as int);
    let b4 = b3.skip(ls as int);
    let b5 = b4.skip(ll as int);
    &&& lw <= 5 && lh <= 5 && lf <= 5 && ls <= 5 && ll <= 10
    &&& varint_prefix(bytes, v.width as nat, lw)
    &&& varint_prefix(b1, v.height as nat, lh)
    &&& varint_prefix(b2, v.fourcc as nat, lf)
    &&& varint_prefix(b3, v.sequence as nat, ls)
    &&& varint_prefix(b4, v.data.len(), ll)
    &&& v.data.len() <= b5.len()
    &&& b5.take(v.data.len() as int) == v.data
}

/// Whether `bytes` begins with a form of `v` that postcard's decoder reads:
/// the wire form, possibly with redundant continuation bytes in the varints.
pub open spec fn loosely_starts_with_frame(bytes: Seq<u8>, v: CameraFrameView) -> bool {
    exists|lw: nat, lh: nat, lf: nat, ls: nat, ll: nat|
        #[trigger] loose_layout(bytes, v, lw, lh, lf, ls, ll)
}

/// A loose layout that postcard's decoder reads on this target: a length
/// varint longer than five bytes is read only where `usize` has 64 bits.
pub open spec fn read_layout(
    bytes: Seq<u8>,
    v: CameraFrameView,
    lw: nat,
    lh: nat,
    lf: nat,
    ls: nat,
    ll: nat,
) -> bool {
    &&& loose_layout(bytes, v, lw, lh, lf, ls, ll)
    &&& (ll <= 5 || usize::BITS == 64)
}

/// Whether `bytes` begins with a layout of `v` that postcard's decoder reads
/// on this target.
pub open spec fn postcard_reads_frame(bytes: Seq<u8>, v: CameraFrameView) -> bool {
    exists|lw: nat, lh: nat, lf: nat, ls: nat, ll: nat|
        #[trigger] read_layout(bytes, v, lw, lh, lf, ls, ll)
}

/// A byte sequence begins with at most one varint: its length and value are
/// fixed by the bytes.
pub proof fn lemma_varint_prefix_unique(b: Seq<u8>, n1: nat, l1: nat, n2: nat, l2: nat)
    requires
        varint_prefix(b, n1, l1),
        varint_prefix(b, n2, l2),
    ensures
        n1 == n2,
        l1 == l2,
    decreases l1,
{
    if l1 > 1 && l2 > 1 {
        lemma_varint_prefix_unique(
            b.drop_first(),
            n1 / 128,
            (l1 - 1) as nat,
            n2 / 128,
            (l2 - 1) as nat,
        );
        assert(n1 == 128 * (n1 / 128) + n1 % 128);
        assert(n2 == 128 * (n2 / 128) + n2 % 128);
    }
}

/// A byte sequence begins with at most one loose layout of a frame: the
/// frame and the varint lengths are fixed by the bytes.
pub proof fn lemma_loose_layout_unique(
    b: Seq<u8>,
    v1: CameraFrameView,
    v2: CameraFrameView,
    lw1: nat,
    lh1: nat,
    lf1: nat,
    ls1: nat,
    ll1: nat,
    lw2: nat,
    lh2: nat,
    lf2: nat,
    ls2: nat,
    ll2: nat,
)
    requires
        loose_layout(b, v1, lw1, lh1, lf1, ls1, ll1),
        loose_layout(b, v2, lw2, lh2, lf2, ls2, ll2),
    ensures
        v1 == v2,
        lw1 == lw2 && lh1 == lh2 && lf1 == lf2 && ls1 == ls2 && ll1 == ll2,
{
    lemma_varint_prefix_unique(b, v1.width as nat, lw1, v2.width as nat, lw2);
    let b1 = b.skip(lw1 as int);
    lemma_varint_prefix_unique(b1, v1.height as nat, lh1, v2.height as nat, lh2);
    let b2 = b1.skip(lh1 as int);
    lemma_varint_prefix_unique(b2, v1.fourcc as nat, lf1, v2.fourcc as nat, lf2);
    let b3 = b2.skip(lf1 as int);
    lemma_varint_prefix_unique(b3, v1.sequence as nat, ls1, v2.sequence as nat, ls2);
    let b4 = b3.skip(ls1 as int);
    lemma_varint_prefix_unique(b4, v1.data.len(), ll1, v2.data.len(), ll2);
    let b5 = b4.skip(ll1 as int);
    assert(v1.data =~= v2.data);
}

/// `128` to the power `k`.
pub open spec fn pow128(k: nat) -> nat
    decreases k,
{
    if k == 0 {
        1
    } else {
        128 * pow128((k - 1) as nat)
    }
}

proof fn lemma_varint_is_prefix(n: nat, rest: Seq<u8>)
    ensures
        varint_prefix(varint(n) + rest, n, varint(n).len()),
    decreases n,
{
    lemma_varint_first_byte(n);
    let x = varint(n) + rest;
    if n >= 128 {
        lemma_varint_is_prefix(n / 128, rest);
        assert(varint(n) == seq![(n % 128 + 128) as u8] + varint(n / 128));
        assert(x.drop_first() =~= varint(n / 128) + rest);
        assert(x[0] == varint(n)[0]);
    } else {
        assert(x[0] == varint(n)[0]);
    }
}

proof fn lemma_varint_len_bound(n: nat, k: nat)
    requires
        k >= 1,
        n < pow128(k),
    ensures
        varint(n).len() <= k,
    decreases k,
{
    lemma_varint_first_byte(n);
    if n >= 128 {
        assert(k >= 2) by {
            if k == 1 {
                assert(pow128(1) == 128 * pow128(0));
            }
        }
        let p = pow128((k - 1) as nat);
        assert(n / 128 < p) by (nonlinear_arith)
            requires
                n < 128 * p,
        ;
        lemma_varint_len_bound(n / 128, (k - 1) as nat);
        assert(varint(n) == seq![(n % 128 + 128) as u8] + varint(n / 128));
    }
}

/// Every frame that postcard writes lies within what its decoder reads: the
/// wire form of a frame (in a buffer that fits in memory) is one of the loose
/// layouts, with varints of at most five bytes for the `u32` fields and at
/// most ten for the data length.
pub proof fn lemma_wire_form_is_loose(bytes: Seq<u8>, v: CameraFrameView)
    requires
        starts_with_frame(bytes, v),
        bytes.len() <= usize::MAX,
    ensures
        loosely_starts_with_frame(bytes, v),
        postcard_reads_frame(bytes, v),
{
    let rest = choose|rest: Seq<u8>| bytes == #[trigger] (camera_wire(v) + rest);
    assert(pow128(5) == 34359738368) by {
        reveal_with_fuel(pow128, 6);
    }
    assert(pow128(10) == 1180591620717411303424) by {
        reveal_with_fuel(pow128, 11);
    }
    let vw = varint(v.width as nat);
    let vh = varint(v.height as nat);
    let vf = varint(v.fourcc as nat);
    let vs = varint(v.sequence as nat);
    let vl = varint(v.data.len());
    lemma_varint_len_bound(v.width as nat, 5);
    lemma_varint_len_bound(v.height as nat, 5);
    lemma_varint_len_bound(v.fourcc as nat, 5);
    lemma_varint_len_bound(v.sequence as nat, 5);
    assert(v.data.len() <= bytes.len());
    lemma_varint_len_bound(v.data.len(), 10);
    let x5 = v.data + rest;
    let x4 = vl + x5;
    let x3 = vs + x4;
    let x2 = vf + x3;
    let x1 = vh + x2;
    assert(bytes =~= vw + x1);
    lemma_varint_is_prefix(v.width as nat, x1);
    lemma_varint_is_prefix(v.height as nat, x2);
    lemma_varint_is_prefix(v.fourcc as nat, x3);
    lemma_varint_is_prefix(v.sequence as nat, x4);
    lemma_varint_is_prefix(v.data.len(), x5);
    let b1 = bytes.skip(vw.len() as int);
    assert(b1 =~= x1);
    let b2 = b1.skip(vh.len() as int);
    assert(b2 =~= x2);
    let b3 = b2.skip(vf.len() as int);
    assert(b3 =~= x3);
    let b4 = b3.skip(vs.len() as int);
    assert(b4 =~= x4);
    let b5 = b4.skip(vl.len() as int);
    assert(b5 =~= x5);
    assert(b5.take(v.data.len() as int) =~= v.data);
    assert(loose_layout(bytes, v, vw.len(), vh.len(), vf.len(), vs.len(), vl.len()));
    if usize::BITS != 64 {
        assert(v.data.len() < pow128(5));
        lemma_varint_len_bound(v.data.len(), 5);
    }
    assert(read_layout(bytes, v, vw.len(), vh.len(), vf.len(), vs.len(), vl.len()));
}

/// `postcard::to_allocvec` on the tuple of a frame's fields. Postcard writes
/// each `u32` as a varint, and the byte vector as its length (a varint) then
/// its bytes; pushing onto a growable vector never fails. The result is
/// therefore always `Ok`, holding exactly [`camera_wire`] of the fields. The
/// tuple is laid out as the derived `Serialize` of a struct with these fields
/// in this order.
#[verifier::external_body]
fn postcard_encode_frame(
    width: u32,
    height: u32,
    fourcc: u32,
    sequence: u32,
    data: &Vec<u8>,
) -> (r: Result<Vec<u8>, postcard::Error>)
    ensures
        r is Ok,
        r->Ok_0@ == camera_wire((CameraFrameView { width, height, fourcc, sequence, data: data@ })),
{
    postcard::to_allocvec(&(width, height, fourcc, sequence, data))
}

/// The frame made of a tuple of fields.
pub open spec fn fields_view(t: (u32, u32, u32, u32, Vec<u8>)) -> CameraFrameView {
    CameraFrameView { width: t.0, height: t.1, fourcc: t.2, sequence: t.3, data: t.4@ }
}

/// `postcard::from_bytes` into the tuple of a frame's fields. Whenever the
/// input begins with the wire form that postcard writes for some fields, it
/// reads exactly those fields (bytes after them are ignored). Whatever it
/// reads lies at the start of the input in one of the loose layouts: each
/// `u32` is a varint of at most five bytes, the data length one of at most
/// ten (five on 32-bit targets), each read byte by byte, then the data bytes
/// in order; otherwise it fails. Conversely it reads every such layout, the
/// length varint being read as a `usize` (at most ten bytes on 64-bit
/// targets, five on 32-bit ones); redundant zero groups do not change a
/// value. Which error it reports is left unsaid.
#[verifier::external_body]
fn postcard_decode_frame(bytes: &[u8]) -> (r: Result<(u32, u32, u32, u32, Vec<u8>), postcard::Error>)
    ensures
        forall|v: CameraFrameView| #[trigger]
            starts_with_frame(bytes@, v) ==> (r is Ok && fields_view(r->Ok_0) == v),
        r is Ok ==> loosely_starts_with_frame(bytes@, fields_view(r->Ok_0)),
        forall|v: CameraFrameView| #[trigger]
            postcard_reads_frame(bytes@, v) ==> (r is Ok && fields_view(r->Ok_0) == v),
{
    postcard::from_bytes::<(u32, u32, u32, u32, Vec<u8>)>(bytes)
}

/// Encodes a camera frame for the camera topic.
pub fn encode_camera_frame(frame: &CameraFrame) -> (r: Result<Vec<u8>, CommsError>)
    ensures
        r matches Ok(bytes) && bytes@ == camera_wire(frame@),
{
    match postcard_encode_frame(frame.width, frame.height, frame.fourcc, frame.sequence, &frame.data) {
        Ok(bytes) => Ok(bytes),
        Err(e) => Err(CommsError::Serialization(e)),
    }
}

/// Decodes a camera frame received on the camera topic. Whenever the payload
/// begins with the wire form of a frame, that frame is returned; a frame is
/// returned exactly when the payload begins with a loose layout of it that
/// postcard reads (redundant continuation bytes allowed), and any other
/// payload yields a serialization error.
pub fn decode_camera_frame(payload: &[u8]) -> (r: Result<CameraFrame, CommsError>)
    ensures
        camera_wire_decoded(payload@) matches Some(v) ==> (r matches Ok(frame) && frame@ == v),
        r matches Ok(frame) ==> loosely_starts_with_frame(payload@, frame@),
        forall|v: CameraFrameView| #[trigger]
            postcard_reads_frame(payload@, v) ==> (r is Ok && r->Ok_0@ == v),
        r matches Err(e) ==> e is Serialization,
{
    match postcard_decode_frame(payload) {
        Ok(t) => {
            let (width, height, fourcc, sequence, data) = t;
            Ok(CameraFrame { width, height, fourcc, sequence, data })
        },
        Err(e) => Err(CommsError::Serialization(e)),
    }
}

} // verus!
