//! Per-vertex feature masks and the vertex layout they define.

use vstd::prelude::*;
use vstd::string::*;

verus! {

/// Number of named per-vertex features.
pub const FEATURE_COUNT: u32 = 19;

/// One optional per-vertex attribute; its bit in a [`VertexMask`] is `1 << bit_index`.
#[derive(Debug, Clone, Copy, PartialEq, Eq, Structural)]
pub enum VertexFeatures {
    Position,
    Normal,
    Tangent,
    Binormal,
    Color0,
    Color1,
    Weight0,
    Weight1,
    Weight2,
    Weight3,
    WeightIndices,
    TexCoordinate0,
    TexCoordinate1,
    TexCoordinate2,
    TexCoordinate3,
    TexCoordinate4,
    TexCoordinate5,
    TexCoordinate6,
    TexCoordinate7,
}

/// The byte size of the feature at bit `i`.
pub open spec fn feature_size(i: int) -> nat {
    if i < 4 {
        12
    } else if i < 6 {
        16
    } else if i < 10 {
        4
    } else if i == 10 {
        16
    } else {
        8
    }
}

/// The display name of the feature at bit `i`.
pub open spec fn feature_name(i: int) -> Seq<char> {
    if i == 0 {
        "VertexFeatures::Position"@
    } else if i == 1 {
        "VertexFeatures::Normal"@
    } else if i == 2 {
        "VertexFeatures::Tangent"@
    } else if i == 3 {
        "VertexFeatures::Binormal"@
    } else if i == 4 {
        "VertexFeatures::Color0"@
    } else if i == 5 {
        "VertexFeatures::Color1"@
    } else if i == 6 {
        "VertexFeatures::Weight0"@
    } else if i == 7 {
        "VertexFeatures::Weight1"@
    } else if i == 8 {
        "VertexFeatures::Weight2"@
    } else if i == 9 {
        "VertexFeatures::Weight3"@
    } else if i == 10 {
        "VertexFeatures::WeightIndices"@
    } else if i == 11 {
        "VertexFeatures::TexCoordinate0"@
    } else if i == 12 {
        "VertexFeatures::TexCoordinate1"@
    } else if i == 13 {
        "VertexFeatures::TexCoordinate2"@
    } else if i == 14 {
        "VertexFeatures::TexCoordinate3"@
    } else if i == 15 {
        "VertexFeatures::TexCoordinate4"@
    } else if i == 16 {
        "VertexFeatures::TexCoordinate5"@
    } else if i == 17 {
        "VertexFeatures::TexCoordinate6"@
    } else {
        "VertexFeatures::TexCoordinate7"@
    }
}

impl VertexFeatures {
    /// The bit that this feature occupies in a mask.
    pub open spec fn bit_index(self) -> int {
        match self {
            VertexFeatures::Position => 0,
            VertexFeatures::Normal => 1,
            VertexFeatures::Tangent => 2,
            VertexFeatures::Binormal => 3,
            VertexFeatures::Color0 => 4,
            VertexFeatures::Color1 => 5,
            VertexFeatures::Weight0 => 6,
            VertexFeatures::Weight1 => 7,
            VertexFeatures::Weight2 => 8,
            VertexFeatures::Weight3 => 9,
            VertexFeatures::WeightIndices => 10,
            VertexFeatures::TexCoordinate0 => 11,
            VertexFeatures::TexCoordinate1 => 12,
            VertexFeatures::TexCoordinate2 => 13,
            VertexFeatures::TexCoordinate3 => 14,
            VertexFeatures::TexCoordinate4 => 15,
            VertexFeatures::TexCoordinate5 => 16,
            VertexFeatures::TexCoordinate6 => 17,
            VertexFeatures::TexCoordinate7 => 18,
        }
    }

    /// The bit that this feature occupies in a mask.
    pub fn index(&self) -> (r: u32)
        ensures
            r == self.bit_index(),
    {
        match self {
            VertexFeatures::Position => 0,
            VertexFeatures::Normal => 1,
            VertexFeatures::Tangent => 2,
            VertexFeatures::Binormal => 3,
            VertexFeatures::Color0 => 4,
            VertexFeatures::Color1 => 5,
            VertexFeatures::Weight0 => 6,
            VertexFeatures::Weight1 => 7,
            VertexFeatures::Weight2 => 8,
            VertexFeatures::Weight3 => 9,
            VertexFeatures::WeightIndices => 10,
            VertexFeatures::TexCoordinate0 => 11,
            VertexFeatures::TexCoordinate1 => 12,
            VertexFeatures::TexCoordinate2 => 13,
            VertexFeatures::TexCoordinate3 => 14,
            VertexFeatures::TexCoordinate4 => 15,
            VertexFeatures::TexCoordinate5 => 16,
            VertexFeatures::TexCoordinate6 => 17,
            VertexFeatures::TexCoordinate7 => 18,
        }
    }

    /// The feature at bit `i`.
    pub fn at(i: u32) -> (r: VertexFeatures)
        requires
            i < FEATURE_COUNT,
        ensures
            r.bit_index() == i,
    {
        match i {
            0 => VertexFeatures::Position,
            1 => VertexFeatures::Normal,
            2 => VertexFeatures::Tangent,
            3 => VertexFeatures::Binormal,
            4 => VertexFeatures::Color0,
            5 => VertexFeatures::Color1,
            6 => VertexFeatures::Weight0,
            7 => VertexFeatures::Weight1,
            8 => VertexFeatures::Weight2,
            9 => VertexFeatures::Weight3,
            10 => VertexFeatures::WeightIndices,
            11 => VertexFeatures::TexCoordinate0,
            12 => VertexFeatures::TexCoordinate1,
            13 => VertexFeatures::TexCoordinate2,
            14 => VertexFeatures::TexCoordinate3,
            15 => VertexFeatures::TexCoordinate4,
            16 => VertexFeatures::TexCoordinate5,
            17 => VertexFeatures::TexCoordinate6,
            _ => VertexFeatures::TexCoordinate7,
        }
    }

    /// The display name of this feature.
    pub fn name(&self) -> (r: &'static str)
        ensures
            r@ == feature_name(self.bit_index()),
    {
        match self {
            VertexFeatures::Position => "VertexFeatures::Position",
            VertexFeatures::Normal => "VertexFeatures::Normal",
            VertexFeatures::Tangent => "VertexFeatures::Tangent",
            VertexFeatures::Binormal => "VertexFeatures::Binormal",
            VertexFeatures::Color0 => "VertexFeatures::Color0",
            VertexFeatures::Color1 => "VertexFeatures::Color1",
            VertexFeatures::Weight0 => "VertexFeatures::Weight0",
            VertexFeatures::Weight1 => "VertexFeatures::Weight1",
            VertexFeatures::Weight2 => "VertexFeatures::Weight2",
            VertexFeatures::Weight3 => "VertexFeatures::Weight3",
            VertexFeatures::WeightIndices => "VertexFeatures::WeightIndices",
            VertexFeatures::TexCoordinate0 => "VertexFeatures::TexCoordinate0",
            VertexFeatures::TexCoordinate1 => "VertexFeatures::TexCoordinate1",
            VertexFeatures::TexCoordinate2 => "VertexFeatures::TexCoordinate2",
            VertexFeatures::TexCoordinate3 => "VertexFeatures::TexCoordinate3",
            VertexFeatures::TexCoordinate4 => "VertexFeatures::TexCoordinate4",
            VertexFeatures::TexCoordinate5 => "VertexFeatures::TexCoordinate5",
            VertexFeatures::TexCoordinate6 => "VertexFeatures::TexCoordinate6",
            VertexFeatures::TexCoordinate7 => "VertexFeatures::TexCoordinate7",
        }
    }

    /// The number of bytes this feature takes in each vertex.
    pub fn size(&self) -> (r: usize)
        ensures
            r == feature_size(self.bit_index()),
    {
        match self {
            VertexFeatures::Position => 12,
            VertexFeatures::Normal => 12,
            VertexFeatures::Tangent => 12,
            VertexFeatures::Binormal => 12,
            VertexFeatures::Color0 => 16,
            VertexFeatures::Color1 => 16,
            VertexFeatures::Weight0 => 4,
            VertexFeatures::Weight1 => 4,
            VertexFeatures::Weight2 => 4,
            VertexFeatures::Weight3 => 4,
            VertexFeatures::WeightIndices => 16,
            VertexFeatures::TexCoordinate0 => 8,
            VertexFeatures::TexCoordinate1 => 8,
            VertexFeatures::TexCoordinate2 => 8,
            VertexFeatures::TexCoordinate3 => 8,
            VertexFeatures::TexCoordinate4 => 8,
            VertexFeatures::TexCoordinate5 => 8,
            VertexFeatures::TexCoordinate6 => 8,
            VertexFeatures::TexCoordinate7 => 8,
        }
    }
}

/// Whether bit `i` of `mask` is set.
pub open spec fn has_bit(mask: u32, i: int) -> bool {
    (mask >> (i as u32)) & 1 == 1
}

/// The total size of the features set among the first `n` bits of `mask`.
pub open spec fn stride_upto(mask: u32, n: int) -> nat
    decreases n,
{
    if n <= 0 {
        0
    } else {
        stride_upto(mask, n - 1) + if has_bit(mask, n - 1) {
            feature_size(n - 1)
        } else {
            0
        }
    }
}

/// The per-vertex byte stride that `mask` selects.
pub open spec fn stride_of(mask: u32) -> nat {
    stride_upto(mask, FEATURE_COUNT as int)
}

/// The names of the features set among the first `n` bits of `mask`, in bit order.
pub open spec fn set_names(mask: u32, n: int) -> Seq<Seq<char>>
    decreases n,
{
    if n <= 0 {
        Seq::empty()
    } else if has_bit(mask, n - 1) {
        set_names(mask, n - 1).push(feature_name(n - 1))
    } else {
        set_names(mask, n - 1)
    }
}

/// `parts` joined with `" | "` between neighbours.
pub open spec fn join_bar(parts: Seq<Seq<char>>) -> Seq<char>
    decreases parts.len(),
{
    if parts.len() == 0 {
        Seq::empty()
    } else if parts.len() == 1 {
        parts[0]
    } else {
        join_bar(parts.drop_last()) + " | "@ + parts.last()
    }
}

/// The text of a mask: the names of its set features joined by `" | "`,
/// or `"()"` when no bit at all is set.
pub open spec fn mask_text(mask: u32) -> Seq<char> {
    join_bar(set_names(mask, FEATURE_COUNT as int)) + if mask == 0 {
        "()"@
    } else {
        Seq::empty()
    }
}

/// A 32-bit set of [`VertexFeatures`]; the bits above the named ones are kept
/// but select nothing.
#[derive(Debug, Clone, Copy, PartialEq, Eq, Structural)]
pub struct VertexMask {
    pub mask: u32,
}

impl VertexMask {
    /// Whether `f` is set.
    pub fn contains(&self, f: VertexFeatures) -> (r: bool)
        ensures
            r == has_bit(self.mask, f.bit_index()),
    {
        let i = f.index();
        (self.mask >> i) & 1 == 1
    }

    /// Whether no bit at all is set.
    pub fn is_none(&self) -> (r: bool)
        ensures
            r == (self.mask == 0),
    {
        self.mask == 0
    }

    /// The number of bytes each vertex takes under this mask.
    pub fn stride(&self) -> (r: usize)
        ensures
            r == stride_of(self.mask),
            r <= 16 * FEATURE_COUNT,
    {
        let mut total: usize = 0;
        let mut i: u32 = 0;
        while i < FEATURE_COUNT
            invariant
                i <= FEATURE_COUNT,
                total == stride_upto(self.mask, i as int),
                total <= 16 * i,
            decreases FEATURE_COUNT - i,
        {
            if (self.mask >> i) & 1 == 1 {
                total = total + VertexFeatures::at(i).size();
            }
            i = i + 1;
        }
        total
    }

    /// The names of the set features, joined by `" | "`; `"()"` for an empty mask.
    pub fn to_string(&self) -> (r: String)
        ensures
            r@ == mask_text(self.mask),
    {
        let mut out = String::new();
        let mut first = true;
        let mut i: u32 = 0;
        while i < FEATURE_COUNT
            invariant
                i <= FEATURE_COUNT,
                out@ == join_bar(set_names(self.mask, i as int)),
                first == (set_names(self.mask, i as int).len() == 0),
            decreases FEATURE_COUNT - i,
        {
            if (self.mask >> i) & 1 == 1 {
                if !first {
                    out.append(" | ");
                }
                out.append(VertexFeatures::at(i).name());
                first = false;
                proof {
                    let names = set_names(self.mask, i as int + 1);
                    assert(names.drop_last() =~= set_names(self.mask, i as int));
                    assert(names.len() == 1 ==> names[0] == feature_name(i as int));
                }
            }
            i = i + 1;
        }
        if self.mask == 0 {
            out.append("()");
        }
        out
    }
}

/// A mask with no bit set has stride zero.
pub proof fn lemma_empty_mask_stride()
    ensures
        stride_of(0) == 0,
{
    assert(forall|i: u32| #![auto] (0u32 >> i) & 1 != 1) by (bit_vector);
    assert forall|n: int| 0 <= n <= 19 implies stride_upto(0, n) == 0 by {
        lemma_stride_upto_zero(n);
    }
}

proof fn lemma_stride_upto_zero(n: int)
    requires
        0 <= n,
        forall|i: u32| #![auto] (0u32 >> i) & 1 != 1,
    ensures
        stride_upto(0, n) == 0,
    decreases n,
{
    if n > 0 {
        lemma_stride_upto_zero(n - 1);
        assert(!has_bit(0, n - 1));
    }
}

/// The stride of two masks with no bit in common is the sum of their strides:
/// every set feature adds its own size and nothing else.
pub proof fn lemma_stride_disjoint_union(a: u32, b: u32)
    requires
        a & b == 0,
    ensures
        stride_of(a | b) == stride_of(a) + stride_of(b),
{
    lemma_stride_upto_union(a, b, FEATURE_COUNT as int);
}

proof fn lemma_stride_upto_union(a: u32, b: u32, n: int)
    requires
        a & b == 0,
        0 <= n <= 32,
    ensures
        stride_upto(a | b, n) == stride_upto(a, n) + stride_upto(b, n),
    decreases n,
{
    if n > 0 {
        lemma_stride_upto_union(a, b, n - 1);
        let s = (n - 1) as u32;
        assert(((a | b) >> s) & 1 == 1 <==> ((a >> s) & 1 == 1 || (b >> s) & 1 == 1))
            by (bit_vector);
        assert(a & b == 0 ==> !((a >> s) & 1 == 1 && (b >> s) & 1 == 1)) by (bit_vector);
    }
}

/// A mask holding the single feature at bit `i` has that feature's size as stride.
pub proof fn lemma_stride_single(i: u32)
    requires
        i < FEATURE_COUNT,
    ensures
        stride_of(1u32 << i) == feature_size(i as int),
{
    lemma_stride_upto_single(i, FEATURE_COUNT as int);
}

proof fn lemma_stride_upto_single(i: u32, n: int)
    requires
        i < 32,
        0 <= n <= 32,
    ensures
        stride_upto(1u32 << i, n) == if i < n {
            feature_size(i as int)
        } else {
            0
        },
    decreases n,
{
    if n > 0 {
        lemma_stride_upto_single(i, n - 1);
        let s = (n - 1) as u32;
        assert(i < 32 && s < 32 ==> ((((1u32 << i) >> s) & 1 == 1) <==> i == s)) by (bit_vector);
    }
}

} // verus!
