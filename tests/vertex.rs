use osaka_sim_re::hg::{VertexFeatures, VertexMask};

const ALL: [VertexFeatures; 19] = [
    VertexFeatures::Position,
    VertexFeatures::Normal,
    VertexFeatures::Tangent,
    VertexFeatures::Binormal,
    VertexFeatures::Color0,
    VertexFeatures::Color1,
    VertexFeatures::Weight0,
    VertexFeatures::Weight1,
    VertexFeatures::Weight2,
    VertexFeatures::Weight3,
    VertexFeatures::WeightIndices,
    VertexFeatures::TexCoordinate0,
    VertexFeatures::TexCoordinate1,
    VertexFeatures::TexCoordinate2,
    VertexFeatures::TexCoordinate3,
    VertexFeatures::TexCoordinate4,
    VertexFeatures::TexCoordinate5,
    VertexFeatures::TexCoordinate6,
    VertexFeatures::TexCoordinate7,
];

const SIZES: [usize; 19] = [12, 12, 12, 12, 16, 16, 4, 4, 4, 4, 16, 8, 8, 8, 8, 8, 8, 8, 8];

#[test]
fn empty_mask_has_zero_stride() {
    assert_eq!(VertexMask { mask: 0 }.stride(), 0);
}

#[test]
fn single_feature_strides_follow_table() {
    for (i, f) in ALL.iter().enumerate() {
        assert_eq!(f.index() as usize, i);
        assert_eq!(VertexMask { mask: 1 << i }.stride(), SIZES[i]);
    }
}

#[test]
fn full_mask_stride_is_sum_of_table() {
    assert_eq!(VertexMask { mask: (1 << 19) - 1 }.stride(), 176);
}

#[test]
fn stride_sums_set_bits_only() {
    let mask = 1 | (1 << 1) | (1 << 11);
    assert_eq!(VertexMask { mask }.stride(), 32);
    let mask = (1 << 4) | (1 << 10) | (1 << 18);
    assert_eq!(VertexMask { mask }.stride(), 40);
}

#[test]
fn stride_ignores_bits_above_features() {
    assert_eq!(VertexMask { mask: 1 << 20 }.stride(), 0);
    assert_eq!(VertexMask { mask: (1 << 31) | 1 }.stride(), 12);
}

#[test]
fn mask_contains_and_is_none() {
    let m = VertexMask { mask: 0b11 };
    assert!(m.contains(VertexFeatures::Position));
    assert!(m.contains(VertexFeatures::Normal));
    assert!(!m.contains(VertexFeatures::Tangent));
    assert!(!m.is_none());
    assert!(VertexMask { mask: 0 }.is_none());
}

#[test]
fn mask_text_lists_set_features() {
    assert_eq!(VertexMask { mask: 0 }.to_string(), "()");
    assert_eq!(
        VertexMask { mask: 0b11 }.to_string(),
        "VertexFeatures::Position | VertexFeatures::Normal"
    );
    assert_eq!(
        VertexMask { mask: (1 << 10) | (1 << 18) }.to_string(),
        "VertexFeatures::WeightIndices | VertexFeatures::TexCoordinate7"
    );
    assert_eq!(VertexMask { mask: 1 << 25 }.to_string(), "");
}
