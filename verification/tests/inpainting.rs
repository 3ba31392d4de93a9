use flint_ai::device::Device;
use flint_ai::images::{Contour, GrayImage, RgbImage};
use flint_ai::lama::{
    boxes_from_contours, boxes_from_mask, can_find_regions, ceil_modulo, check_sizes, crop_box,
    crop_image, crop_mask, mask_bounds, padded_crop, symmetric_index, symmetric_indices,
    LamaRustScript,
};

fn mask(width: u32, height: u32, lit: &[(u32, u32)]) -> GrayImage {
    let mut data = vec![0u8; width as usize * height as usize];
    for (x, y) in lit {
        data[*y as usize * width as usize + *x as usize] = 255;
    }
    GrayImage { width, height, data }
}

fn block(left: u32, top: u32, right: u32, bottom: u32) -> Vec<(u32, u32)> {
    (top..bottom).flat_map(|y| (left..right).map(move |x| (x, y))).collect()
}

#[test]
fn sizes_go_up_to_multiples() {
    assert_eq!(ceil_modulo(0, 8), 0);
    assert_eq!(ceil_modulo(8, 8), 8);
    assert_eq!(ceil_modulo(9, 8), 16);
    assert_eq!(ceil_modulo(15, 8), 16);
    assert_eq!(ceil_modulo(0, 0), 0);
}

#[test]
fn mirroring_repeats_the_last_item() {
    let mirrored: Vec<u32> = (0..8).map(|i| symmetric_index(i, 3)).collect();
    assert_eq!(mirrored, [0, 1, 2, 2, 1, 0, 0, 1]);
    assert_eq!(symmetric_indices(3).unwrap(), [0, 1, 2, 2, 1, 0, 0, 1]);
    assert!(symmetric_indices(16).is_none());
    assert_eq!(symmetric_indices(9).unwrap().len(), 16);
}

#[test]
fn crops_are_moved_into_the_image() {
    assert_eq!(crop_box(1000, 1000, [500, 500, 510, 510]), [372, 372, 638, 638]);
    assert_eq!(crop_box(1000, 1000, [0, 0, 10, 10]), [0, 0, 266, 266]);
    assert_eq!(crop_box(1000, 1000, [990, 990, 1000, 1000]), [734, 734, 1000, 1000]);
    assert_eq!(crop_box(100, 900, [10, 10, 20, 20]), [0, 0, 100, 266]);
}

#[test]
fn a_crop_holds_its_box() {
    for b in [[3, 5, 9, 11], [0, 0, 900, 20], [880, 700, 900, 720]] {
        let [left, top, right, bottom] = crop_box(900, 720, b);
        assert!(left <= b[0] && top <= b[1] && b[2] <= right && b[3] <= bottom);
        assert!(right <= 900 && bottom <= 720);
    }
}

#[test]
fn bounds_surround_the_mask() {
    assert!(mask_bounds(&mask(4, 3, &[])).is_none());
    assert_eq!(mask_bounds(&mask(8, 6, &[(2, 1), (5, 4)])), Some([2, 1, 6, 5]));
    let mut faint = mask(2, 2, &[]);
    faint.data[3] = 127;
    assert!(mask_bounds(&faint).is_none());
    faint.data[3] = 128;
    assert_eq!(mask_bounds(&faint), Some([1, 1, 2, 2]));
}

#[test]
fn a_padded_crop_has_a_dark_frame() {
    let crop = padded_crop(&mask(8, 6, &[(2, 1), (3, 2)]), [2, 1, 4, 3]);
    assert_eq!((crop.width, crop.height), (4, 4));
    assert_eq!(
        crop.data,
        [0, 0, 0, 0, 0, 255, 0, 0, 0, 0, 255, 0, 0, 0, 0, 0]
    );
}

#[test]
fn only_outermost_borders_become_boxes() {
    let contour = |outer: bool, parent: Option<usize>| Contour {
        outer,
        parent,
        points: vec![(3, 4), (1, 2), (5, 3)],
    };
    let boxes = boxes_from_contours(
        &vec![contour(true, None), contour(false, None), contour(true, Some(0))],
        10,
        20,
        100,
        100,
    );
    assert_eq!(boxes, [[10, 21, 15, 24]]);
}

#[test]
fn each_region_has_a_box() {
    let mut lit = block(10, 20, 14, 23);
    lit.extend(block(30, 40, 31, 45));
    let mut boxes = boxes_from_mask(&mask(64, 64, &lit));
    boxes.sort();
    assert_eq!(boxes, [[10, 20, 14, 23], [30, 40, 31, 45]]);
    assert!(boxes_from_mask(&mask(64, 64, &[])).is_empty());
}

#[test]
fn a_hole_has_no_box_of_its_own() {
    let mut lit = block(5, 5, 15, 15);
    lit.retain(|(x, y)| !(8..12).contains(x) || !(8..12).contains(y));
    assert_eq!(boxes_from_mask(&mask(20, 20, &lit)), [[5, 5, 15, 15]]);
}

fn gray(width: u32, height: u32, value: u8) -> RgbImage {
    RgbImage { width, height, data: vec![value; width as usize * height as usize * 3] }
}

#[test]
fn sizes_must_agree() {
    assert_eq!(
        check_sizes(&gray(3, 2, 0), &mask(2, 3, &[])).unwrap_err(),
        "image and mask dimensions differ: image=(3, 2), mask=(2, 3)"
    );
    assert_eq!(
        check_sizes(&gray(0, 2, 0), &mask(0, 2, &[])).unwrap_err(),
        "image dimensions must be non-zero"
    );
    assert!(check_sizes(&gray(3, 2, 0), &mask(3, 2, &[])).is_ok());
}

#[test]
fn a_small_image_is_worked_on_whole() {
    let lama = LamaRustScript::new(Device::Cpu, "graph");
    let out = lama
        .inference("w.safetensors", gray(4, 2, 9), &mask(4, 2, &[]), |graph, device, path, part, lit| {
            assert_eq!((*graph, device, path), ("graph", Device::Cpu, "w.safetensors"));
            assert_eq!(part.data, gray(4, 2, 9).data);
            assert_eq!(lit.data, [0; 8]);
            Ok(gray(4, 2, 7))
        })
        .unwrap();
    assert_eq!(out.data, vec![7u8; 24]);
    let failed = lama.inference("w", gray(4, 2, 9), &mask(4, 2, &[]), |_, _, _, _, _| {
        Err("no graph".to_string())
    });
    assert_eq!(failed.err().unwrap(), "no graph");
}

#[test]
fn a_large_image_changes_in_the_crops_alone() {
    let lama = LamaRustScript::new(Device::Cpu, ());
    let (width, height) = (900u32, 10u32);
    let mut picture = gray(width, height, 9);
    picture.data[(3 * width as usize + 300) * 3 + 1] = 77;
    let lit = mask(width, height, &block(400, 4, 410, 6));
    let out = lama
        .inference("w", picture, &lit, |_, _, _, part, lit| {
            assert_eq!((part.width, part.height), (266, 10));
            assert_eq!((lit.width, lit.height), (266, 10));
            assert_eq!(part.data.iter().filter(|byte| **byte == 77).count(), 1);
            assert_eq!(part.data[(3 * 266 + 28) * 3 + 1], 77);
            assert_eq!(lit.data.iter().filter(|byte| **byte == 255).count(), 20);
            assert_eq!(lit.data[4 * 266 + 128], 255);
            Ok(gray(part.width, part.height, 7))
        })
        .unwrap();
    let [left, top, right, bottom] = crop_box(width, height, [400, 4, 410, 6]);
    assert_eq!([left, top, right, bottom], [272, 0, 538, 10]);
    for y in 0..height {
        for x in 0..width {
            let inside = left <= x && x < right && top <= y && y < bottom;
            let at = (y * width + x) as usize * 3;
            assert_eq!(out.data[at..at + 3], [if inside { 7 } else { 9 }; 3]);
        }
    }
}

#[test]
fn parts_are_taken_from_the_image_as_it_was() {
    let lama = LamaRustScript::new(Device::Cpu, ());
    let mut lit = block(100, 2, 110, 4);
    lit.extend(block(150, 2, 160, 4));
    let seen = std::cell::Cell::new(0);
    let out = lama
        .inference("w", gray(900, 10, 9), &mask(900, 10, &lit), |_, _, _, part, _| {
            assert!(part.data.iter().all(|byte| *byte == 9));
            seen.set(seen.get() + 1);
            Ok(gray(part.width, part.height, 7))
        })
        .unwrap();
    assert_eq!(seen.get(), 2);
    assert_eq!(out.data[100 * 3], 7);
    assert_eq!(out.data[899 * 3], 9);
}

#[test]
fn a_crop_that_is_put_back_changes_nothing() {
    let lama = LamaRustScript::new(Device::Cpu, ());
    let mut picture = gray(900, 4, 0);
    for (at, byte) in picture.data.iter_mut().enumerate() {
        *byte = (at % 251) as u8;
    }
    let before = picture.data.clone();
    let out = lama
        .inference("w", picture, &mask(900, 4, &[(450, 2)]), |_, _, _, part, _| {
            Ok(RgbImage { width: part.width, height: part.height, data: part.data.clone() })
        })
        .unwrap();
    assert_eq!(out.data, before);
}

#[test]
fn crops_are_cut_from_their_rows() {
    let picture = RgbImage { width: 3, height: 2, data: (0..18).collect() };
    let part = crop_image(&picture, [1, 0, 3, 2]);
    assert_eq!((part.width, part.height), (2, 2));
    assert_eq!(part.data, [3, 4, 5, 6, 7, 8, 12, 13, 14, 15, 16, 17]);
    let lit = GrayImage { width: 3, height: 3, data: (0..9).collect() };
    assert_eq!(crop_mask(&lit, [0, 1, 2, 3]).data, [3, 4, 6, 7]);
    assert!(can_find_regions(&lit));
    assert!(can_find_regions(&mask(5, 5, &[(1, 1)])));
}

#[test]
fn a_large_image_without_a_mask_stays() {
    let lama = LamaRustScript::new(Device::Cpu, ());
    let out = lama
        .inference("w", gray(801, 1, 9), &mask(801, 1, &[]), |_, _, _, _, _| {
            panic!("nothing to work on")
        })
        .unwrap();
    assert_eq!(out.data, gray(801, 1, 9).data);
}

#[test]
fn a_failed_crop_fails_the_image() {
    let lama = LamaRustScript::new(Device::Cpu, ());
    let r = lama.inference(
        "w",
        gray(900, 2, 9),
        &mask(900, 2, &[(5, 1)]),
        |_, _, _, _, _| Err("broken".to_string()),
    );
    assert_eq!(r.err().unwrap(), "broken");
}
