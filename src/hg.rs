//! The "HG" block stream: framing, names, and the typed block decoders.
//!
//! Decoded blocks borrow their names, vertex bytes and the stream itself from
//! the input buffer. Single-precision floats of the format are kept as their
//! IEEE-754 bit patterns (`f32::from_bits` turns one into its value).

pub mod vertex;
pub mod wire;

pub use vertex::{VertexFeatures, VertexMask};

use vstd::prelude::*;
use vstd::slice::slice_subrange;
use vstd::string::*;
use vstd::utf8::valid_utf8;

use vertex::stride_of;
use wire::{le_u16, le_u32, read_u16, read_u32};

verus! {

/// Why a block could not be decoded.
#[derive(Debug, Clone, Copy, PartialEq, Eq, Structural)]
pub enum DecodeErrorKind {
    /// A declared size or a field runs past the bytes that are there.
    TruncatedBlock,
    /// A block header declares a size below the header's own 8 bytes.
    InvalidBlockSize,
    /// A name's bytes are not UTF-8.
    InvalidEncoding,
    /// A name has no zero terminator within its block.
    UnterminatedName,
}

/// A decoding failure and the byte offset of the block header where it arose.
#[derive(Debug, Clone, Copy, PartialEq, Eq, Structural)]
pub struct DecodeError {
    pub offset: usize,
    pub kind: DecodeErrorKind,
}

/// Position, rotation and scale, each three floats held as bit patterns.
#[derive(Debug, Clone, Copy, PartialEq, Eq)]
pub struct TRS3d {
    pub pos: [u32; 3],
    pub rot: [u32; 3],
    pub scale: [u32; 3],
}

/// Primitive topology of an index group.
#[derive(Debug, Clone, Copy, PartialEq, Eq, Structural)]
pub enum PTEnum {
    TriangleList,
    TriangleStrip,
    TriangleFan,
    Unknown,
}

/// The topology that the stored tag `v` stands for.
pub open spec fn topology_of(v: u32) -> PTEnum {
    if v == 0 {
        PTEnum::TriangleList
    } else if v == 1 {
        PTEnum::TriangleStrip
    } else if v == 2 {
        PTEnum::TriangleFan
    } else {
        PTEnum::Unknown
    }
}

impl From<u32> for PTEnum {
    fn from(value: u32) -> (r: PTEnum) {
        match value {
            0 => PTEnum::TriangleList,
            1 => PTEnum::TriangleStrip,
            2 => PTEnum::TriangleFan,
            _ => PTEnum::Unknown,
        }
    }
}

impl vstd::std_specs::convert::FromSpecImpl<u32> for PTEnum {
    open spec fn obeys_from_spec() -> bool {
        true
    }

    open spec fn from_spec(v: u32) -> PTEnum {
        topology_of(v)
    }
}

/// One primitive group of a geometry block: its topology and its 16-bit vertex indices.
#[derive(Debug, PartialEq, Eq)]
pub struct GeometryBlockInner {
    pub typ: PTEnum,
    pub words: Vec<u16>,
}

/// A mesh. Without `bool6` it carries a vertex buffer and index groups;
/// with it, all of those are absent.
#[derive(Debug, PartialEq, Eq)]
pub struct GeometryBlock<'a> {
    pub name: &'a str,
    pub coords: [u32; 4],
    pub bool4: bool,
    pub vertex_bitmask: VertexMask,
    pub bool6: bool,
    pub idk: Vec<GeometryBlockInner>,
    pub vertex_num: Option<u32>,
    pub vertex_size: Option<usize>,
    pub vertex_data: Option<&'a [u8]>,
}

/// A named position, rotation and scale.
#[derive(Debug, PartialEq, Eq)]
pub struct TransformBlock<'a> {
    pub name: &'a str,
    pub idk: u32,
    pub coords: TRS3d,
}

/// A named bone: the stored 3x3 matrix and the 4x4 affine matrix built from it.
#[derive(Debug, PartialEq, Eq)]
pub struct BoneBlock<'a> {
    pub name: &'a str,
    pub idk: u32,
    pub coords: [[u32; 3]; 3],
    pub matrix: [[u32; 4]; 4],
}

/// One decoded block; the kinds without a payload are reserved and never produced.
#[derive(Debug, PartialEq, Eq)]
pub enum Block<'a> {
    Geometry(GeometryBlock<'a>),
    Shader,
    Shape,
    Texture,
    Transform(TransformBlock<'a>),
    Animator,
    AnimationData,
    AnimationSet,
    Hierarchy,
    Bone(BoneBlock<'a>),
}

/// The index of the first zero byte of `p` at or after `i`, or `p.len()` if none.
pub open spec fn first_zero(p: Seq<u8>, i: int) -> int
    decreases p.len() - i,
{
    if i < 0 || i >= p.len() {
        p.len() as int
    } else if p[i] == 0 {
        i
    } else {
        first_zero(p, i + 1)
    }
}

/// The length of the name at the start of `p`.
pub open spec fn name_len(p: Seq<u8>) -> int {
    first_zero(p, 0)
}

/// The bytes a name of `len` bytes takes with its terminator and padding.
pub open spec fn name_skip(len: int) -> int {
    4 * (len / 4) + 4
}

/// How reading the name at the start of `p` fails, if it does.
pub open spec fn name_error(p: Seq<u8>) -> Option<DecodeErrorKind> {
    if name_len(p) >= p.len() {
        Some(DecodeErrorKind::UnterminatedName)
    } else if !valid_utf8(p.subrange(0, name_len(p))) {
        Some(DecodeErrorKind::InvalidEncoding)
    } else {
        None
    }
}

/// Whether `s` is the name stored at the start of `p`.
pub open spec fn is_name_of(p: Seq<u8>, s: &str) -> bool {
    s.spec_bytes() == p.subrange(0, name_len(p))
}

/// Relies on std::str::from_utf8: it accepts exactly the valid UTF-8 byte
/// strings and returns a string slice over the same bytes.
#[verifier::external_body]
fn utf8_str<'a>(b: &'a [u8]) -> (r: Option<&'a str>)
    ensures
        r is Some <==> valid_utf8(b@),
        r is Some ==> r->0.spec_bytes() == b@,
{
    std::str::from_utf8(b).ok()
}

/// The bytes a name of `len` bytes takes: the name, its zero terminator, and
/// padding up to a multiple of four.
pub fn padded_name_len(len: usize) -> (r: usize)
    requires
        len <= usize::MAX - 4,
    ensures
        r == name_skip(len as int),
{
    4 * (len / 4) + 4
}

/// Reads the zero-terminated name at the start of `src`; returns it and the
/// number of bytes up to the field that follows it.
pub fn read_str<'a>(src: &'a [u8]) -> (r: Result<(&'a str, usize), DecodeErrorKind>)
    requires
        src@.len() <= usize::MAX - 4,
    ensures
        match r {
            Ok((s, skip)) => name_error(src@) is None && is_name_of(src@, s) && skip == name_skip(
                name_len(src@),
            ),
            Err(k) => name_error(src@) == Some(k),
        },
{
    let mut size: usize = 0;
    while size < src.len() && src[size] != 0
        invariant
            size <= src@.len(),
            first_zero(src@, 0) == first_zero(src@, size as int),
        decreases src@.len() - size,
    {
        size = size + 1;
    }
    if size == src.len() {
        return Err(DecodeErrorKind::UnterminatedName);
    }
    let skip = padded_name_len(size);
    match utf8_str(slice_subrange(src, 0, size)) {
        Some(s) => Ok((s, skip)),
        None => Err(DecodeErrorKind::InvalidEncoding),
    }
}

/// A name takes its length plus the terminator, rounded up to a multiple of four.
pub proof fn lemma_name_skip_rounds_up(len: int)
    requires
        0 <= len,
    ensures
        name_skip(len) == 4 * ((len + 1 + 3) / 4),
        name_skip(len) % 4 == 0,
        len + 1 <= name_skip(len) < len + 1 + 4,
{
    assert(4 * (len / 4) + 4 == 4 * ((len + 1 + 3) / 4)) by (nonlinear_arith)
        requires
            0 <= len,
    ;
    assert(name_skip(len) % 4 == 0) by (nonlinear_arith)
        requires
            name_skip(len) == 4 * (len / 4) + 4,
    ;
    assert(len - 3 <= 4 * (len / 4) <= len) by (nonlinear_arith)
        requires
            0 <= len,
    ;
}

/// The bit pattern of the float `1.0`.
pub const F32_ONE: u32 = 0x3f80_0000;

/// Three little-endian words from offset `at`.
pub open spec fn words3_at(p: Seq<u8>, at: int) -> Seq<u32> {
    seq![le_u32(p, at), le_u32(p, at + 4), le_u32(p, at + 8)]
}

/// Where the fields after the name of `p` start.
pub open spec fn body_start(p: Seq<u8>) -> int {
    name_skip(name_len(p))
}

/// How decoding `p` fails when its name is followed by a fixed body of `len` bytes.
pub open spec fn fixed_block_error(p: Seq<u8>, len: int) -> Option<DecodeErrorKind> {
    match name_error(p) {
        Some(k) => Some(k),
        None => if body_start(p) + len > p.len() {
            Some(DecodeErrorKind::TruncatedBlock)
        } else {
            None
        },
    }
}

/// How decoding a transform payload fails, if it does.
pub open spec fn transform_error(p: Seq<u8>) -> Option<DecodeErrorKind> {
    fixed_block_error(p, 40)
}

/// Whether `t` is the transform stored in payload `p`.
pub open spec fn transform_decoded(p: Seq<u8>, t: TransformBlock) -> bool {
    let s = body_start(p);
    &&& is_name_of(p, t.name)
    &&& t.idk == le_u32(p, s)
    &&& t.coords.pos@ == words3_at(p, s + 4)
    &&& t.coords.rot@ == words3_at(p, s + 16)
    &&& t.coords.scale@ == words3_at(p, s + 28)
}

/// How decoding a bone payload fails, if it does.
pub open spec fn bone_error(p: Seq<u8>) -> Option<DecodeErrorKind> {
    fixed_block_error(p, 40)
}

/// Entry `(row, col)` of the affine matrix of a bone whose stored rows are `c`:
/// stored row `k` becomes column `k`, and the last row and column are those
/// of the identity.
pub open spec fn affine_entry(c: [[u32; 3]; 3], row: int, col: int) -> u32 {
    if row < 3 && col < 3 {
        c[col][row]
    } else if row == 3 && col == 3 {
        F32_ONE
    } else {
        0
    }
}

/// Whether `m` is the affine matrix built from the stored rows `c`.
pub open spec fn is_affine_of(c: [[u32; 3]; 3], m: [[u32; 4]; 4]) -> bool {
    forall|row: int, col: int|
        0 <= row < 4 && 0 <= col < 4 ==> #[trigger] m[row][col] == affine_entry(c, row, col)
}

/// Whether `b` is the bone stored in payload `p`.
pub open spec fn bone_decoded(p: Seq<u8>, b: BoneBlock) -> bool {
    let s = body_start(p);
    &&& is_name_of(p, b.name)
    &&& b.idk == le_u32(p, s)
    &&& b.coords[0]@ == words3_at(p, s + 4)
    &&& b.coords[1]@ == words3_at(p, s + 16)
    &&& b.coords[2]@ == words3_at(p, s + 28)
    &&& is_affine_of(b.coords, b.matrix)
}

fn read_words3(p: &[u8], at: usize) -> (r: [u32; 3])
    requires
        at + 12 <= p@.len() <= usize::MAX,
    ensures
        r@ == words3_at(p@, at as int),
{
    let r = [read_u32(p, at), read_u32(p, at + 4), read_u32(p, at + 8)];
    assert(r@ =~= words3_at(p@, at as int));
    r
}

/// Builds the 4x4 affine matrix of a bone from its three stored rows of floats
/// (as bit patterns): the rows become columns 0 to 2 with a zero fourth entry,
/// and column 3 is `(0, 0, 0, 1)`.
pub fn affine_from(c: [[u32; 3]; 3]) -> (m: [[u32; 4]; 4])
    ensures
        is_affine_of(c, m),
{
    [
        [c[0][0], c[1][0], c[2][0], 0],
        [c[0][1], c[1][1], c[2][1], 0],
        [c[0][2], c[1][2], c[2][2], 0],
        [0, 0, 0, F32_ONE],
    ]
}

/// Decodes a transform payload: name, one opaque word, then position,
/// rotation and scale.
pub fn read_transform<'a>(p: &'a [u8]) -> (r: Result<TransformBlock<'a>, DecodeErrorKind>)
    requires
        p@.len() <= usize::MAX - 4,
    ensures
        match r {
            Ok(t) => transform_error(p@) is None && transform_decoded(p@, t),
            Err(k) => transform_error(p@) == Some(k),
        },
{
    let (name, s) = match read_str(p) {
        Ok(x) => x,
        Err(k) => return Err(k),
    };
    if s > p.len() || p.len() - s < 40 {
        return Err(DecodeErrorKind::TruncatedBlock);
    }
    let idk = read_u32(p, s);
    let coords = TRS3d {
        pos: read_words3(p, s + 4),
        rot: read_words3(p, s + 16),
        scale: read_words3(p, s + 28),
    };
    Ok(TransformBlock { name, idk, coords })
}

/// Decodes a bone payload: name, one opaque word, then nine floats, stored
/// row after row.
pub fn read_bone<'a>(p: &'a [u8]) -> (r: Result<BoneBlock<'a>, DecodeErrorKind>)
    requires
        p@.len() <= usize::MAX - 4,
    ensures
        match r {
            Ok(b) => bone_error(p@) is None && bone_decoded(p@, b),
            Err(k) => bone_error(p@) == Some(k),
        },
{
    let (name, s) = match read_str(p) {
        Ok(x) => x,
        Err(k) => return Err(k),
    };
    if s > p.len() || p.len() - s < 40 {
        return Err(DecodeErrorKind::TruncatedBlock);
    }
    let idk = read_u32(p, s);
    let coords = [read_words3(p, s + 4), read_words3(p, s + 16), read_words3(p, s + 28)];
    let matrix = affine_from(coords);
    Ok(BoneBlock { name, idk, coords, matrix })
}

/// The 16-bit indices of a group: `n` little-endian words from offset `at`.
pub open spec fn words_at(p: Seq<u8>, at: int, n: nat) -> Seq<u16> {
    Seq::new(n, |i: int| le_u16(p, at + 2 * i))
}

/// The offset just past the group stored at `at`.
pub open spec fn group_end(p: Seq<u8>, at: int) -> int {
    at + 8 + 2 * le_u32(p, at + 4)
}

/// Whether `count` groups stored from `at` all lie within `p`.
pub open spec fn groups_fit(p: Seq<u8>, at: int, count: nat) -> bool
    decreases count,
{
    count == 0 || (at + 8 <= p.len() && group_end(p, at) <= p.len() && groups_fit(
        p,
        group_end(p, at),
        (count - 1) as nat,
    ))
}

/// Whether `gs` are the `count` groups stored from `at`, in stream order.
pub open spec fn groups_decoded(
    p: Seq<u8>,
    at: int,
    count: nat,
    gs: Seq<GeometryBlockInner>,
) -> bool
    decreases count,
{
    if count == 0 {
        gs.len() == 0
    } else {
        &&& gs.len() > 0
        &&& gs[0].typ == topology_of(le_u32(p, at))
        &&& gs[0].words@ == words_at(p, at + 8, le_u32(p, at + 4) as nat)
        &&& groups_decoded(p, group_end(p, at), (count - 1) as nat, gs.drop_first())
    }
}

/// The vertex feature mask of a geometry payload.
pub open spec fn geometry_mask(p: Seq<u8>) -> u32 {
    le_u32(p, body_start(p) + 20)
}

/// Whether a geometry payload declares itself empty (`bool6`).
pub open spec fn geometry_is_proxy(p: Seq<u8>) -> bool {
    le_u32(p, body_start(p) + 24) != 0
}

/// The vertex count of a geometry payload that carries vertices.
pub open spec fn geometry_vertex_num(p: Seq<u8>) -> u32 {
    le_u32(p, body_start(p) + 28)
}

/// Where the vertex buffer of a geometry payload ends.
pub open spec fn vertex_end(p: Seq<u8>) -> int {
    body_start(p) + 32 + geometry_vertex_num(p) * stride_of(geometry_mask(p))
}

/// Whether every field of a geometry payload after its name lies within it.
pub open spec fn geometry_fits(p: Seq<u8>) -> bool {
    &&& body_start(p) + 28 <= p.len()
    &&& !geometry_is_proxy(p) ==> {
        &&& body_start(p) + 32 <= p.len()
        &&& vertex_end(p) + 4 <= p.len()
        &&& groups_fit(p, vertex_end(p) + 4, le_u32(p, vertex_end(p)) as nat)
    }
}

/// How decoding a geometry payload fails, if it does.
pub open spec fn geometry_error(p: Seq<u8>) -> Option<DecodeErrorKind> {
    match name_error(p) {
        Some(k) => Some(k),
        None => if !geometry_fits(p) {
            Some(DecodeErrorKind::TruncatedBlock)
        } else {
            None
        },
    }
}

/// Whether `g` is the geometry stored in payload `p`.
pub open spec fn geometry_decoded(p: Seq<u8>, g: GeometryBlock) -> bool {
    let s = body_start(p);
    &&& is_name_of(p, g.name)
    &&& g.coords@ == words3_at(p, s).push(le_u32(p, s + 12))
    &&& g.bool4 == (le_u32(p, s + 16) != 0)
    &&& g.vertex_bitmask.mask == geometry_mask(p)
    &&& g.bool6 == geometry_is_proxy(p)
    &&& if g.bool6 {
        &&& g.idk@.len() == 0
        &&& g.vertex_num is None
        &&& g.vertex_size is None
        &&& g.vertex_data is None
    } else {
        &&& g.vertex_num == Some(geometry_vertex_num(p))
        &&& g.vertex_size == Some(stride_of(geometry_mask(p)) as usize)
        &&& g.vertex_data is Some
        &&& g.vertex_data->0@ == p.subrange(s + 32, vertex_end(p))
        &&& groups_decoded(p, vertex_end(p) + 4, le_u32(p, vertex_end(p)) as nat, g.idk@)
    }
}

/// Reads `n` little-endian 16-bit words from offset `at`.
fn read_words(p: &[u8], at: usize, n: usize) -> (r: Vec<u16>)
    requires
        at + 2 * n <= p@.len() <= usize::MAX,
    ensures
        r@ == words_at(p@, at as int, n as nat),
{
    let mut words: Vec<u16> = Vec::with_capacity(n);
    let mut j: usize = 0;
    while j < n
        invariant
            j <= n,
            at + 2 * n <= p@.len() <= usize::MAX,
            words@ == words_at(p@, at as int, j as nat),
        decreases n - j,
    {
        words.push(read_u16(p, at + 2 * j));
        j = j + 1;
        assert(words@ =~= words_at(p@, at as int, j as nat));
    }
    words
}

/// Reads the `count` primitive groups stored from `start`.
fn read_groups(p: &[u8], start: usize, count: u32) -> (r: Option<Vec<GeometryBlockInner>>)
    requires
        start <= p@.len() <= usize::MAX,
    ensures
        r is Some <==> groups_fit(p@, start as int, count as nat),
        r is Some ==> groups_decoded(p@, start as int, count as nat, r->0@),
{
    let mut groups: Vec<GeometryBlockInner> = Vec::new();
    let mut at: usize = start;
    let mut k: u32 = 0;
    while k < count
        invariant
            k <= count,
            at <= p@.len() <= usize::MAX,
            groups_fit(p@, start as int, count as nat) == groups_fit(
                p@,
                at as int,
                (count - k) as nat,
            ),
            forall|rest: Seq<GeometryBlockInner>|
                groups_decoded(p@, at as int, (count - k) as nat, rest) ==> groups_decoded(
                    p@,
                    start as int,
                    count as nat,
                    groups@ + rest,
                ),
        decreases count - k,
    {
        if p.len() - at < 8 {
            return None;
        }
        let typ = read_u32(p, at);
        let n = read_u32(p, at + 4);
        if (p.len() - at - 8) / 2 < n as usize {
            return None;
        }
        let words = read_words(p, at + 8, n as usize);
        let g = GeometryBlockInner { typ: PTEnum::from(typ), words };
        let ghost old_at = at as int;
        let ghost old_groups = groups@;
        let ghost left = (count - k) as nat;
        groups.push(g);
        at = at + 8 + 2 * (n as usize);
        k = k + 1;
        proof {
            assert(group_end(p@, old_at) == at);
            assert forall|rest: Seq<GeometryBlockInner>|
                groups_decoded(p@, at as int, (count - k) as nat, rest) implies groups_decoded(
                p@,
                start as int,
                count as nat,
                groups@ + rest,
            ) by {
                let here = seq![g] + rest;
                assert(here.drop_first() =~= rest);
                assert(groups_decoded(p@, old_at, left, here));
                assert(old_groups + here =~= groups@ + rest);
            }
        }
    }
    proof {
        assert(groups_decoded(p@, at as int, 0, Seq::empty()));
        assert(groups@ + Seq::<GeometryBlockInner>::empty() =~= groups@);
    }
    Some(groups)
}

/// Decodes a geometry payload: name, four opaque floats, the `bool4` word,
/// the vertex feature mask and the `bool6` word; unless `bool6` is set, then
/// the vertex count, the vertex buffer, and the primitive groups.
pub fn read_geometry<'a>(p: &'a [u8]) -> (r: Result<GeometryBlock<'a>, DecodeErrorKind>)
    requires
        p@.len() <= usize::MAX - 4,
    ensures
        match r {
            Ok(g) => geometry_error(p@) is None && geometry_decoded(p@, g),
            Err(k) => geometry_error(p@) == Some(k),
        },
{
    let (name, s) = match read_str(p) {
        Ok(x) => x,
        Err(k) => return Err(k),
    };
    if s > p.len() || p.len() - s < 28 {
        return Err(DecodeErrorKind::TruncatedBlock);
    }
    let c3 = read_words3(p, s);
    let coords: [u32; 4] = [c3[0], c3[1], c3[2], read_u32(p, s + 12)];
    assert(coords@ =~= words3_at(p@, s as int).push(le_u32(p@, s + 12)));
    let bool4 = read_u32(p, s + 16) != 0;
    let vertex_bitmask = VertexMask { mask: read_u32(p, s + 20) };
    let bool6 = read_u32(p, s + 24) != 0;
    if bool6 {
        return Ok(
            GeometryBlock {
                name,
                coords,
                bool4,
                vertex_bitmask,
                bool6,
                idk: Vec::new(),
                vertex_num: None,
                vertex_size: None,
                vertex_data: None,
            },
        );
    }
    if p.len() - s < 32 {
        return Err(DecodeErrorKind::TruncatedBlock);
    }
    let vertex_num = read_u32(p, s + 28);
    let stride = vertex_bitmask.stride();
    assert(vertex_num as int * stride as int <= 0xffff_ffff * 304) by (nonlinear_arith)
        requires
            vertex_num <= 0xffff_ffff,
            stride <= 304,
    ;
    let bytes: u64 = vertex_num as u64 * stride as u64;
    let room: u64 = (p.len() - s - 32) as u64;
    if bytes > room || room - bytes < 4 {
        return Err(DecodeErrorKind::TruncatedBlock);
    }
    let vend: usize = s + 32 + bytes as usize;
    assert(vend == vertex_end(p@));
    let vertex_data = slice_subrange(p, s + 32, vend);
    let count = read_u32(p, vend);
    let idk = match read_groups(p, vend + 4, count) {
        Some(gs) => gs,
        None => return Err(DecodeErrorKind::TruncatedBlock),
    };
    Ok(
        GeometryBlock {
            name,
            coords,
            bool4,
            vertex_bitmask,
            bool6,
            idk,
            vertex_num: Some(vertex_num),
            vertex_size: Some(stride),
            vertex_data: Some(vertex_data),
        },
    )
}

/// Tag of a geometry block.
pub const TAG_GEOMETRY: u32 = 0;

/// Tag of a transform block.
pub const TAG_TRANSFORM: u32 = 4;

/// Tag of a bone block; also the highest tag, and any larger one ends the stream.
pub const TAG_BONE: u32 = 11;

/// Whether a block with tag `typ` yields a decoded block.
pub open spec fn is_decoded_tag(typ: u32) -> bool {
    typ == TAG_GEOMETRY || typ == TAG_TRANSFORM || typ == TAG_BONE
}

/// How decoding payload `p` of a block tagged `typ` fails, if it does;
/// reserved tags never fail.
pub open spec fn payload_error(typ: u32, p: Seq<u8>) -> Option<DecodeErrorKind> {
    if typ == TAG_GEOMETRY {
        geometry_error(p)
    } else if typ == TAG_TRANSFORM {
        transform_error(p)
    } else if typ == TAG_BONE {
        bone_error(p)
    } else {
        None
    }
}

/// Whether `b` is the block that payload `p` of a block tagged `typ` holds.
pub open spec fn block_decoded(typ: u32, p: Seq<u8>, b: Block) -> bool {
    match b {
        Block::Geometry(g) => typ == TAG_GEOMETRY && geometry_decoded(p, g),
        Block::Transform(t) => typ == TAG_TRANSFORM && transform_decoded(p, t),
        Block::Bone(x) => typ == TAG_BONE && bone_decoded(p, x),
        _ => false,
    }
}

/// The tag of the block header at `pos`.
pub open spec fn tag_at(buf: Seq<u8>, pos: int) -> u32 {
    le_u32(buf, pos)
}

/// The declared size, header included, of the block at `pos`.
pub open spec fn size_at(buf: Seq<u8>, pos: int) -> u32 {
    le_u32(buf, pos + 4)
}

/// The payload of the block at `pos`.
pub open spec fn payload_at(buf: Seq<u8>, pos: int) -> Seq<u8> {
    buf.subrange(pos + 8, pos + size_at(buf, pos))
}

/// Whether the stream ends at `pos`: fewer than 8 bytes are left, or the tag
/// there is above the highest one.
pub open spec fn stream_ends_at(buf: Seq<u8>, pos: int) -> bool {
    pos + 8 > buf.len() || tag_at(buf, pos) > TAG_BONE
}

/// The first error met when decoding the stream from `pos`, if any.
pub open spec fn stream_error(buf: Seq<u8>, pos: int) -> Option<DecodeError>
    decreases buf.len() - pos,
{
    if pos < 0 || stream_ends_at(buf, pos) {
        None
    } else if size_at(buf, pos) < 8 {
        Some(DecodeError { offset: pos as usize, kind: DecodeErrorKind::InvalidBlockSize })
    } else if pos + size_at(buf, pos) > buf.len() {
        Some(DecodeError { offset: pos as usize, kind: DecodeErrorKind::TruncatedBlock })
    } else {
        match payload_error(tag_at(buf, pos), payload_at(buf, pos)) {
            Some(k) => Some(DecodeError { offset: pos as usize, kind: k }),
            None => stream_error(buf, pos + size_at(buf, pos)),
        }
    }
}

/// Whether `blocks` are, in order, the blocks decoded from the stream from
/// `pos` to its end.
pub open spec fn stream_decodes(buf: Seq<u8>, pos: int, blocks: Seq<Block>) -> bool
    decreases buf.len() - pos,
{
    if pos < 0 {
        false
    } else if stream_ends_at(buf, pos) {
        blocks.len() == 0
    } else if size_at(buf, pos) < 8 || pos + size_at(buf, pos) > buf.len() {
        false
    } else {
        let typ = tag_at(buf, pos);
        let p = payload_at(buf, pos);
        let next = pos + size_at(buf, pos);
        if payload_error(typ, p) is Some {
            false
        } else if is_decoded_tag(typ) {
            &&& blocks.len() > 0
            &&& block_decoded(typ, p, blocks[0])
            &&& stream_decodes(buf, next, blocks.drop_first())
        } else {
            stream_decodes(buf, next, blocks)
        }
    }
}

/// Decodes the block stream in `src`: one block per geometry, transform or
/// bone frame, in stream order; reserved tags are skipped. The stream ends
/// without error when fewer than 8 bytes are left or at a tag above the
/// highest one.
pub fn read_blocks<'a>(src: &'a [u8]) -> (r: Result<Vec<Block<'a>>, DecodeError>)
    ensures
        match r {
            Ok(v) => stream_error(src@, 0) is None && stream_decodes(src@, 0, v@),
            Err(e) => stream_error(src@, 0) == Some(e),
        },
{
    let mut ret: Vec<Block<'a>> = Vec::new();
    let mut pos: usize = 0;
    assert(ret@ + Seq::<Block<'a>>::empty() =~= ret@);
    loop
        invariant
            pos <= src@.len(),
            src@.len() == src.len(),
            stream_error(src@, 0) == stream_error(src@, pos as int),
            forall|rest: Seq<Block<'a>>|
                stream_decodes(src@, pos as int, rest) ==> stream_decodes(src@, 0, ret@ + rest),
        ensures
            stream_error(src@, 0) is None,
            stream_decodes(src@, 0, ret@),
        decreases src@.len() - pos,
    {
        if src.len() - pos < 8 {
            assert(stream_decodes(src@, pos as int, Seq::empty()));
            assert(ret@ + Seq::<Block<'a>>::empty() =~= ret@);
            break ;
        }
        let typ = read_u32(src, pos);
        let size = read_u32(src, pos + 4);
        if typ > TAG_BONE {
            assert(stream_decodes(src@, pos as int, Seq::empty()));
            assert(ret@ + Seq::<Block<'a>>::empty() =~= ret@);
            break ;
        }
        if size < 8 {
            return Err(DecodeError { offset: pos, kind: DecodeErrorKind::InvalidBlockSize });
        }
        if size as usize > src.len() - pos {
            return Err(DecodeError { offset: pos, kind: DecodeErrorKind::TruncatedBlock });
        }
        let end: usize = pos + size as usize;
        let payload = slice_subrange(src, pos + 8, end);
        assert(payload@ == payload_at(src@, pos as int));
        let ghost old_ret = ret@;
        let decoded = if typ == TAG_GEOMETRY {
            match read_geometry(payload) {
                Ok(g) => Ok(Some(Block::Geometry(g))),
                Err(k) => Err(k),
            }
        } else if typ == TAG_TRANSFORM {
            match read_transform(payload) {
                Ok(t) => Ok(Some(Block::Transform(t))),
                Err(k) => Err(k),
            }
        } else if typ == TAG_BONE {
            match read_bone(payload) {
                Ok(b) => Ok(Some(Block::Bone(b))),
                Err(k) => Err(k),
            }
        } else {
            Ok(None)
        };
        match decoded {
            Err(k) => {
                return Err(DecodeError { offset: pos, kind: k });
            },
            Ok(Some(b)) => {
                ret.push(b);
                proof {
                    assert forall|rest: Seq<Block<'a>>|
                        stream_decodes(src@, end as int, rest) implies stream_decodes(
                        src@,
                        0,
                        ret@ + rest,
                    ) by {
                        let here = seq![b] + rest;
                        assert(here.drop_first() =~= rest);
                        assert(stream_decodes(src@, pos as int, here));
                        assert(old_ret + here =~= ret@ + rest);
                    }
                }
            },
            Ok(None) => {
                assert forall|rest: Seq<Block<'a>>|
                    stream_decodes(src@, end as int, rest) implies stream_decodes(
                    src@,
                    pos as int,
                    rest,
                ) by {}
            },
        }
        pos = end;
    }
    Ok(ret)
}

/// A frame whose tag is above the highest one ends the stream: no error and
/// no block come from it or from anything after it.
pub proof fn lemma_sentinel_ends_stream(buf: Seq<u8>, pos: int)
    requires
        0 <= pos,
        pos + 8 <= buf.len(),
        tag_at(buf, pos) > TAG_BONE,
    ensures
        stream_error(buf, pos) is None,
        stream_decodes(buf, pos, Seq::empty()),
        forall|blocks: Seq<Block>| stream_decodes(buf, pos, blocks) ==> blocks.len() == 0,
{
}

/// Whether the frames from `pos` are all well-formed and the last one ends
/// exactly at the end of `buf`.
pub open spec fn frames_fill(buf: Seq<u8>, pos: int) -> bool
    decreases buf.len() - pos,
{
    if pos < 0 || pos > buf.len() {
        false
    } else if pos == buf.len() {
        true
    } else if stream_ends_at(buf, pos) || size_at(buf, pos) < 8 || pos + size_at(buf, pos)
        > buf.len() {
        false
    } else {
        frames_fill(buf, pos + size_at(buf, pos))
    }
}

/// Fewer than 8 bytes after the last frame of a stream change nothing: the
/// same blocks, or the same error, come out, and no block comes from them.
pub proof fn lemma_trailing_bytes_ignored(buf: Seq<u8>, tail: Seq<u8>, pos: int)
    requires
        frames_fill(buf, pos),
        tail.len() < 8,
    ensures
        stream_error(buf + tail, pos) == stream_error(buf, pos),
        forall|blocks: Seq<Block>|
            stream_decodes(buf + tail, pos, blocks) == stream_decodes(buf, pos, blocks),
    decreases buf.len() - pos,
{
    let whole = buf + tail;
    if pos < buf.len() {
        assert(whole.subrange(pos, pos + 8) =~= buf.subrange(pos, pos + 8));
        assert(forall|i: int| pos <= i < pos + 8 ==> whole[i] == buf[i]);
        assert(tag_at(whole, pos) == tag_at(buf, pos));
        assert(size_at(whole, pos) == size_at(buf, pos));
        assert(payload_at(whole, pos) =~= payload_at(buf, pos));
        lemma_trailing_bytes_ignored(buf, tail, pos + size_at(buf, pos));
    }
    assert forall|blocks: Seq<Block>|
        stream_decodes(whole, pos, blocks) == stream_decodes(buf, pos, blocks) by {
        if pos < buf.len() {
            assert(stream_decodes(whole, pos + size_at(buf, pos), blocks.drop_first())
                == stream_decodes(buf, pos + size_at(buf, pos), blocks.drop_first()));
            assert(stream_decodes(whole, pos + size_at(buf, pos), blocks) == stream_decodes(
                buf,
                pos + size_at(buf, pos),
                blocks,
            ));
        }
    }
}

} // verus!
