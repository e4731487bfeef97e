use raytracer::bvh::{
    BvhBuildNode, BvhNodeKind, BvhTraversal, LinearBvhNode, SplitMethod, TraversalStep,
    flatten_bvh_tree, layout_is_wf, partition_primitives,
};
use raytracer::color::{ColorU8, GAMMA_LUT_LEN, get_gamma_lut};
use raytracer::dithering::{BayerDithering, BlueNoiseDithering, WhiteNoiseDithering};
use raytracer::error::SceneError;
use raytracer::image::{ImageType, decimal_bytes, encode_image, encode_ppm, samples_of};
use raytracer::mesh::{MeshIndices, reverse_winding};

#[test]
fn gamma_lut_matches_the_formula() {
    let lut = get_gamma_lut();
    assert_eq!(lut.len(), GAMMA_LUT_LEN);
    assert_eq!(lut[0], 0);
    assert_eq!(lut[4095], 255);
    for (i, &v) in lut.iter().enumerate() {
        let expected = (255.99 * (i as f64 / 4095.0).powf(1.0 / 2.2)) as u8;
        assert_eq!(v, expected, "entry {i}");
        // The same table computed in single precision.
        let single = ((i as f32 / 4095.0).powf(1.0 / 2.2) * 255.99) as u8;
        assert_eq!(v, single, "entry {i} in single precision");
    }
    // The table rises with its index.
    assert!(lut.windows(2).all(|w| w[0] <= w[1]));
}

#[test]
fn decimal_digits() {
    assert_eq!(decimal_bytes(0), b"0".to_vec());
    assert_eq!(decimal_bytes(7), b"7".to_vec());
    assert_eq!(decimal_bytes(1920), b"1920".to_vec());
    assert_eq!(decimal_bytes(4294967295), b"4294967295".to_vec());
}

#[test]
fn ppm_has_header_then_samples() {
    let pixels = [1u8, 2, 3, 4, 5, 6];
    let bytes = encode_ppm(2, 1, &pixels);
    let mut expected = b"P6\n2 1\n255\n".to_vec();
    expected.extend_from_slice(&pixels);
    assert_eq!(bytes, expected);
    let big = encode_ppm(1920, 1080, &[]);
    assert_eq!(big, b"P6\n1920 1080\n255\n".to_vec());
}

#[test]
fn ppm_size_reads_back() {
    let bytes = encode_ppm(640, 480, &[]);
    let text = String::from_utf8(bytes).unwrap();
    let mut lines = text.lines();
    assert_eq!(lines.next(), Some("P6"));
    let size: Vec<u16> = lines.next().unwrap().split(' ').map(|n| n.parse().unwrap()).collect();
    assert_eq!(size, vec![640, 480]);
}

#[test]
fn samples_follow_the_colors() {
    let colors = [ColorU8 { red: 1, green: 2, blue: 3 }, ColorU8 { red: 4, green: 5, blue: 6 }];
    assert_eq!(samples_of(&colors), vec![1, 2, 3, 4, 5, 6]);
    assert_eq!(samples_of(&[]), Vec::<u8>::new());
}

#[test]
fn png_encodes_and_decodes_back() {
    let pixels: Vec<u8> = (0..2 * 3 * 3).map(|i| i as u8 * 10).collect();
    let bytes = match encode_image(ImageType::Png, 2, 3, &pixels) {
        Ok(b) => b,
        Err(e) => panic!("{e:?}"),
    };
    assert_ne!(bytes, pixels);
    assert_eq!(&bytes[..8], b"\x89PNG\r\n\x1a\n");
    let decoder = png::Decoder::new(std::io::Cursor::new(bytes));
    let mut reader = decoder.read_info().unwrap();
    let mut buf = vec![0; reader.output_buffer_size().unwrap()];
    let info = reader.next_frame(&mut buf).unwrap();
    assert_eq!((info.width, info.height), (2, 3));
    assert_eq!(&buf[..info.buffer_size()], &pixels[..]);
}

#[test]
fn png_refuses_a_wrong_sample_count() {
    assert!(matches!(encode_image(ImageType::Png, 2, 2, &[0; 11]), Err(SceneError::PngEncoding(_))));
    assert!(matches!(encode_image(ImageType::Png, 0, 2, &[]), Err(SceneError::PngEncoding(_))));
}

#[test]
fn ppm_through_encode_image() {
    match encode_image(ImageType::Ppm, 1, 1, &[9, 8, 7]) {
        Ok(b) => assert_eq!(b, b"P6\n1 1\n255\n\x09\x08\x07".to_vec()),
        Err(e) => panic!("{e:?}"),
    }
}

#[test]
fn bayer_thresholds_tile_the_plane() {
    let matrix = [[0, 8, 2, 10], [12, 4, 14, 6], [3, 11, 1, 9], [15, 7, 13, 5]];
    let mut seen = [false; 16];
    for r in 0..4 {
        for c in 0..4 {
            let t = BayerDithering::threshold(r, c);
            assert_eq!(t, matrix[r][c]);
            assert_eq!(BayerDithering::threshold(r + 4, c + 8), t);
            seen[t as usize] = true;
        }
    }
    assert!(seen.iter().all(|&s| s));
    let _ = WhiteNoiseDithering;
}

#[test]
fn blue_noise_takes_the_red_channel() {
    // A 3 by 2 RGBA image whose red values are 10, 20, ..., 60.
    let rgba: Vec<u8> = (0..6).flat_map(|i| [10 * (i + 1) as u8, 1, 2, 3]).collect();
    let d = BlueNoiseDithering::from_rgba(&rgba, 3, 2).unwrap();
    assert_eq!((d.width(), d.height()), (3, 2));
    assert_eq!(d.threshold(0, 0), 10);
    assert_eq!(d.threshold(0, 2), 30);
    assert_eq!(d.threshold(1, 0), 40);
    assert_eq!(d.threshold(2, 3), 10);
    assert_eq!(d.threshold(3, 4), 50);
    assert!(BlueNoiseDithering::from_rgba(&rgba, 0, 2).is_none());
    assert!(BlueNoiseDithering::from_rgba(&rgba[..23], 3, 2).is_none());
}

#[test]
fn blue_noise_from_png() {
    let rgba: Vec<u8> = (0..4).flat_map(|i| [50 * (i + 1) as u8, 0, 0, 255]).collect();
    let mut bytes = Vec::new();
    {
        let mut encoder = png::Encoder::new(&mut bytes, 2, 2);
        encoder.set_color(png::ColorType::Rgba);
        encoder.set_depth(png::BitDepth::Eight);
        let mut writer = encoder.write_header().unwrap();
        writer.write_image_data(&rgba).unwrap();
    }
    let d = BlueNoiseDithering::from_png(&bytes).unwrap();
    assert_eq!((d.width(), d.height()), (2, 2));
    assert_eq!(d.threshold(1, 1), 200);
    assert_eq!(d.threshold(0, 1), 100);
    assert!(BlueNoiseDithering::from_png(b"not a png").is_none());
    // An RGB image has too few samples per pixel.
    let mut rgb_png = Vec::new();
    {
        let mut encoder = png::Encoder::new(&mut rgb_png, 2, 2);
        encoder.set_color(png::ColorType::Rgb);
        encoder.set_depth(png::BitDepth::Eight);
        let mut writer = encoder.write_header().unwrap();
        writer.write_image_data(&[0; 12]).unwrap();
    }
    assert!(BlueNoiseDithering::from_png(&rgb_png).is_none());
}

#[test]
fn winding_reverses_and_back() {
    let before = vec![0u32, 1, 2, 3, 4, 5];
    let mut v = before.clone();
    reverse_winding(&mut v);
    assert_eq!(v, vec![0, 2, 1, 3, 5, 4]);
    reverse_winding(&mut v);
    assert_eq!(v, before);
}

#[test]
fn obj_indices_default_and_reverse() {
    let (m, n) = MeshIndices::from_obj(vec![0, 1, 2, 2, 1, 3], vec![], vec![], false, true).unwrap();
    assert_eq!(n, 2);
    assert_eq!(m.vertex_indices, vec![0, 2, 1, 2, 3, 1]);
    assert_eq!(m.normal_indices, Vec::<u32>::new());
    assert_eq!(m.uvcoord_indices, vec![0; 6]);
    let (m, _) = MeshIndices::from_obj(vec![0, 1, 2], vec![5, 6, 7], vec![8, 9, 10], true, false)
        .unwrap();
    assert_eq!(m.normal_indices, vec![5, 6, 7]);
    assert_eq!(m.uvcoord_indices, vec![8, 9, 10]);
    assert_eq!(m.triangle_count(), 1);
    let c = m.corners(0);
    assert_eq!((c.v, c.n, c.uv), ([0, 1, 2], [5, 6, 7], [8, 9, 10]));
    assert!(MeshIndices::from_obj(vec![0, 1], vec![], vec![], false, false).is_none());
}

#[test]
fn inline_mesh_defaults_uvs() {
    let m = MeshIndices::inline(vec![0, 1, 2, 0, 2, 3], vec![0, 0, 0, 0, 0, 0], None, 2);
    assert_eq!(m.uvcoord_indices, vec![0; 6]);
    assert_eq!(m.triangle_count(), 2);
    let m = MeshIndices::inline(vec![0, 1, 2], vec![0, 0, 0], Some(vec![1, 2, 3]), 1);
    assert_eq!(m.uvcoord_indices, vec![1, 2, 3]);
    // Without normals no triangle is complete.
    let m = MeshIndices::inline(vec![0, 1, 2], vec![], None, 1);
    assert_eq!(m.triangle_count(), 0);
}

fn leaf(first: usize, n: usize, b: u32) -> Box<BvhBuildNode<u32>> {
    Box::new(BvhBuildNode::new_leaf(first, n, b))
}

/// root(axis 0) -> [leaf 0..2, inner(axis 1) -> [leaf 2..3, leaf 3..5]]
fn sample_tree() -> BvhBuildNode<u32> {
    let inner = BvhBuildNode::new_interior(1, leaf(2, 1, 20), leaf(3, 2, 30), 23);
    BvhBuildNode::new_interior(0, leaf(0, 2, 10), Box::new(inner), 123)
}

fn sample_layout() -> Vec<LinearBvhNode<u32>> {
    let mut nodes = Vec::new();
    let mut offset = 0;
    let root = flatten_bvh_tree(&sample_tree(), &mut offset, &mut nodes);
    assert_eq!(root, 0);
    assert_eq!(offset, 5);
    nodes
}

#[test]
fn flattening_lays_nodes_out_depth_first() {
    let nodes = sample_layout();
    let summary: Vec<(u32, u32, u16, u8)> =
        nodes.iter().map(|n| (*n.bounds(), n.offset, n.num_prims, n.axis)).collect();
    assert_eq!(
        summary,
        vec![(123, 2, 0, 0), (10, 0, 2, 0), (23, 4, 0, 1), (20, 2, 1, 0), (30, 3, 2, 0)]
    );
    match sample_tree().kind {
        BvhNodeKind::Interior { split_axis, .. } => assert_eq!(split_axis, 0),
        BvhNodeKind::Leaf { .. } => panic!("root is interior"),
    }
    assert_eq!(SplitMethod::Sah, SplitMethod::Sah);
}

/// Runs a traversal where `hit` decides each bounds test, and lists the leaves' ranges.
fn visit(nodes: &Vec<LinearBvhNode<u32>>, hit: impl Fn(u32) -> bool, neg: [bool; 3]) -> Vec<(usize, usize)> {
    let mut t = BvhTraversal::new();
    let mut ranges = Vec::new();
    loop {
        let h = hit(*nodes[t.current_node()].bounds());
        match t.advance(nodes, 5, h, neg) {
            TraversalStep::Visit { start, end, finished } => {
                ranges.push((start, end));
                if finished {
                    break;
                }
            },
            TraversalStep::Descend => {},
            TraversalStep::Finished => break,
        }
    }
    ranges
}

#[test]
fn traversal_visits_every_hit_leaf() {
    let nodes = sample_layout();
    assert_eq!(visit(&nodes, |_| true, [false; 3]), vec![(0, 2), (2, 3), (3, 5)]);
    // Rays running towards negative x visit the second child of the root first.
    assert_eq!(visit(&nodes, |_| true, [true, false, false]), vec![(2, 3), (3, 5), (0, 2)]);
    assert_eq!(visit(&nodes, |_| true, [true, true, false]), vec![(3, 5), (2, 3), (0, 2)]);
    // A missed node hides its whole subtree.
    assert_eq!(visit(&nodes, |b| b != 23, [false; 3]), vec![(0, 2)]);
    assert_eq!(visit(&nodes, |b| b != 123, [false; 3]), vec![]);
    assert_eq!(visit(&nodes, |b| b != 20, [false; 3]), vec![(0, 2), (3, 5)]);
}

#[test]
fn partition_moves_the_low_buckets_to_the_front() {
    let mut items = [10, 11, 12, 13, 14];
    let mid = partition_primitives(&mut items, &[5, 1, 7, 0, 3], 3);
    assert_eq!(mid, 3);
    // The kept ones keep their order; the others come in the order the swaps leave them.
    assert_eq!(items, [11, 13, 14, 10, 12]);
}

#[test]
fn partition_edge_cases() {
    let mut none: [u8; 0] = [];
    assert_eq!(partition_primitives(&mut none, &[], 0), 0);
    let mut all = [1, 2, 3];
    assert_eq!(partition_primitives(&mut all, &[0, 0, 0], 0), 3);
    assert_eq!(all, [1, 2, 3]);
    let mut nothing_kept = [1, 2, 3];
    assert_eq!(partition_primitives(&mut nothing_kept, &[4, 5, 6], 3), 0);
    assert_eq!(nothing_kept, [1, 2, 3]);
}

#[test]
fn partition_loses_no_item() {
    let mut items = [7, 3, 9, 1, 4, 8, 2];
    let buckets = [9, 0, 11, 2, 5, 1, 7];
    let mid = partition_primitives(&mut items, &buckets, 4);
    assert_eq!(mid, 3);
    assert_eq!(&items[..3], &[3, 1, 8]);
    let mut back = items[3..].to_vec();
    back.sort();
    assert_eq!(back, vec![2, 4, 7, 9]);
}

/// How many steps a traversal takes until it is finished.
fn steps_until_finished(nodes: &Vec<LinearBvhNode<u32>>, hit: impl Fn(u32) -> bool) -> usize {
    let mut t = BvhTraversal::new();
    let mut steps = 0;
    loop {
        let h = hit(*nodes[t.current_node()].bounds());
        steps += 1;
        match t.advance(nodes, 5, h, [false; 3]) {
            TraversalStep::Visit { finished: true, .. } | TraversalStep::Finished => return steps,
            _ => {},
        }
    }
}

#[test]
fn traversal_ends_after_one_step_per_tested_node() {
    let nodes = sample_layout();
    // Every node is tested once when every bounds test hits.
    assert_eq!(steps_until_finished(&nodes, |_| true), 5);
    // A missed interior node is tested, its subtree is not.
    assert_eq!(steps_until_finished(&nodes, |b| b != 23), 3);
    assert_eq!(steps_until_finished(&nodes, |b| b != 123), 1);
}

#[test]
fn png_succeeds_on_every_well_sized_image() {
    for (w, h) in [(1u16, 1u16), (3, 1), (1, 5), (300, 200)] {
        let pixels = vec![128u8; 3 * w as usize * h as usize];
        assert!(encode_image(ImageType::Png, w, h, &pixels).is_ok(), "{w}x{h}");
    }
}

#[test]
fn gamma_never_darkens() {
    let lut = get_gamma_lut();
    for (i, &v) in lut.iter().enumerate() {
        let linear = (25599 * i / 409500) as u8;
        assert!(v >= linear, "entry {i}");
        assert!(v >= ((i as f32 / 4095.0) * 255.99) as u8, "entry {i} in single precision");
    }
}

#[test]
fn layout_check_accepts_flattened_and_refuses_broken() {
    let mut nodes = sample_layout();
    assert!(layout_is_wf(&nodes, 5));
    // Too few primitives for the last leaf.
    assert!(!layout_is_wf(&nodes, 4));
    // An interior node whose second child lies outside the layout.
    nodes[0].offset = 9;
    assert!(!layout_is_wf(&nodes, 5));
    assert!(layout_is_wf(&Vec::<LinearBvhNode<u32>>::new(), 0));
}
