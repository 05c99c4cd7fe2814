use scene_assets::data::{Color, Uv, VertexData};
use scene_assets::interleave::{interleave_vertex_data, InterleaveError};
use scene_assets::layout::{
    calculate_stride, determine_layouts, Layout, StrideError, FLOAT, UNSIGNED_SHORT,
};

fn bits3(v: [f32; 3]) -> [u32; 3] {
    v.map(|x| x.to_bits())
}

fn positions_only(n: usize) -> VertexData {
    VertexData {
        positions: (0..n).map(|i| bits3([i as f32, 0.0, 0.0])).collect(),
        normals: None,
        tangents: None,
        texcoords: Vec::new(),
        colors: Vec::new(),
        joints: None,
        weights: None,
    }
}

fn full(n: usize) -> VertexData {
    VertexData {
        positions: (0..n).map(|i| bits3([i as f32, 1.0, 2.0])).collect(),
        normals: Some((0..n).map(|_| bits3([0.0, 0.0, 1.0])).collect()),
        tangents: Some((0..n).map(|_| [1.0f32.to_bits(), 0, 0, 1.0f32.to_bits()]).collect()),
        texcoords: vec![
            Uv((0..n).map(|i| [i as u32, 100]).collect()),
            Uv((0..n).map(|i| [i as u32, 200]).collect()),
        ],
        colors: vec![
            Color::Rgb((0..n).map(|i| [7, 8, i as u32]).collect()),
            Color::Rgba((0..n).map(|i| [1, 2, 3, i as u32]).collect()),
        ],
        joints: None,
        weights: None,
    }
}

#[test]
fn layouts_of_positions_only() {
    let layouts = determine_layouts(&positions_only(4));
    assert_eq!(layouts, vec![Layout::new(0, 3, FLOAT, false, 0)]);
    assert_eq!(calculate_stride(&layouts), Ok(12));
}

#[test]
fn layouts_follow_fixed_order_and_running_offsets() {
    let layouts = determine_layouts(&full(2));
    let expected = vec![
        Layout::new(0, 3, FLOAT, false, 0),
        Layout::new(1, 3, FLOAT, false, 12),
        Layout::new(2, 4, FLOAT, false, 24),
        Layout::new(3, 2, FLOAT, false, 40),
        Layout::new(4, 2, FLOAT, false, 48),
        Layout::new(5, 3, FLOAT, false, 56),
        Layout::new(6, 4, FLOAT, false, 68),
    ];
    assert_eq!(layouts, expected);
    assert_eq!(calculate_stride(&layouts), Ok(84));
}

#[test]
fn layouts_include_skinning_at_their_widths() {
    let mut vd = positions_only(1);
    vd.joints = Some(vec![[0, 1, 2, 3]]);
    vd.weights = Some(vec![[0; 4]]);
    let layouts = determine_layouts(&vd);
    assert_eq!(
        layouts,
        vec![
            Layout::new(0, 3, FLOAT, false, 0),
            Layout::new(1, 4, UNSIGNED_SHORT, false, 12),
            Layout::new(2, 4, FLOAT, false, 20),
        ]
    );
    assert_eq!(calculate_stride(&layouts), Ok(36));
    assert_eq!(calculate_stride(&layouts[..2]), Ok(20));
}

#[test]
fn determine_layout_is_deterministic() {
    let a = determine_layouts(&full(3));
    let b = determine_layouts(&full(7));
    assert_eq!(a, b);
    let offsets_a: Vec<usize> = a.iter().map(|l| l.offset).collect();
    let offsets_b: Vec<usize> = determine_layouts(&full(3)).iter().map(|l| l.offset).collect();
    assert_eq!(offsets_a, offsets_b);
}

#[test]
fn stride_errors() {
    assert_eq!(calculate_stride(&[]), Err(StrideError::NoLayouts));
    assert_eq!(
        calculate_stride(&[Layout::new(0, 3, 0x1400, false, 0)]),
        Err(StrideError::UnsupportedType)
    );
    assert_eq!(
        calculate_stride(&[Layout::new(0, -1, FLOAT, false, 0)]),
        Err(StrideError::OutOfRange)
    );
    assert_eq!(
        calculate_stride(&[Layout::new(0, 4, FLOAT, false, i32::MAX as usize)]),
        Err(StrideError::OutOfRange)
    );
}

#[test]
fn interleave_positions_only() {
    let vd = positions_only(3);
    let out = interleave_vertex_data(&vd).unwrap();
    let expected: Vec<u32> = [0.0f32, 0.0, 0.0, 1.0, 0.0, 0.0, 2.0, 0.0, 0.0]
        .iter()
        .map(|x| x.to_bits())
        .collect();
    assert_eq!(out, expected);
}

#[test]
fn interleave_emits_one_record_per_vertex_in_slot_order() {
    let vd = full(2);
    let out = interleave_vertex_data(&vd).unwrap();
    let one = 1.0f32.to_bits();
    let two = 2.0f32.to_bits();
    let row0 = vec![
        0, one, two, 0, 0, one, one, 0, 0, one, 0, 100, 0, 200, 7, 8, 0, 1, 2, 3, 0,
    ];
    let row1 = vec![
        one, one, two, 0, 0, one, one, 0, 0, one, 1, 100, 1, 200, 7, 8, 1, 1, 2, 3, 1,
    ];
    let mut expected = row0;
    expected.extend(row1);
    assert_eq!(out, expected);
}

#[test]
fn interleaved_length_is_vertices_times_stride() {
    for n in [0usize, 1, 5, 17] {
        for vd in [positions_only(n), full(n)] {
            let stride = calculate_stride(&determine_layouts(&vd)).unwrap() as usize;
            let out = interleave_vertex_data(&vd).unwrap();
            assert_eq!(out.len(), n * stride / 4);
        }
    }
}

#[test]
fn interleave_refuses_skinning() {
    let mut vd = positions_only(2);
    vd.joints = Some(vec![[0; 4], [1; 4]]);
    assert_eq!(interleave_vertex_data(&vd), Err(InterleaveError::SkinningUnsupported));
    let mut vd = positions_only(0);
    vd.weights = Some(Vec::new());
    assert_eq!(interleave_vertex_data(&vd), Err(InterleaveError::SkinningUnsupported));
}

#[test]
fn interleave_refuses_short_streams() {
    let mut vd = positions_only(3);
    vd.normals = Some(vec![bits3([0.0, 0.0, 1.0])]);
    assert_eq!(interleave_vertex_data(&vd), Err(InterleaveError::StreamLengthMismatch));
    let mut vd = positions_only(2);
    vd.colors = vec![Color::Rgb(vec![[0; 3]])];
    assert_eq!(interleave_vertex_data(&vd), Err(InterleaveError::StreamLengthMismatch));
}
