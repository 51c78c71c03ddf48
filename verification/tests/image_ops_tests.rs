use img2pdf::image_ops::{minimum_blend, neutralize_black_ink, RgbBuffer};

fn filled(width: u32, height: u32, rgb: [u8; 3]) -> RgbBuffer {
    let mut data = Vec::new();
    for _ in 0..(width * height) {
        data.extend_from_slice(&rgb);
    }
    RgbBuffer { width, height, data }
}

fn put(image: &mut RgbBuffer, x: u32, y: u32, rgb: [u8; 3]) {
    let i = ((y * image.width + x) * 3) as usize;
    image.data[i..i + 3].copy_from_slice(&rgb);
}

fn get(image: &RgbBuffer, x: u32, y: u32) -> [u8; 3] {
    let i = ((y * image.width + x) * 3) as usize;
    [image.data[i], image.data[i + 1], image.data[i + 2]]
}

#[test]
fn minimum_15_darkens_only_near_dark_pixels() {
    let mut input = filled(3, 3, [255, 255, 255]);
    put(&mut input, 1, 1, [0, 0, 0]);
    let output = minimum_blend(&input, 15);
    assert_eq!(get(&output, 1, 1), [0, 0, 0]);
    assert_eq!(get(&output, 0, 0), [217, 217, 217]);
}

#[test]
fn minimum_zero_is_identity() {
    let input = filled(2, 2, [10, 20, 30]);
    let output = minimum_blend(&input, 0);
    assert_eq!(output.width, input.width);
    assert_eq!(output.height, input.height);
    assert_eq!(output.data, input.data);
}

#[test]
fn minimum_blend_never_brightens() {
    let mut input = filled(4, 3, [200, 100, 50]);
    put(&mut input, 2, 1, [10, 250, 0]);
    let output = minimum_blend(&input, 60);
    for (a, b) in output.data.iter().zip(input.data.iter()) {
        assert!(a <= b);
    }
    // a pixel far from the dark one keeps its value under a full blend of its own neighbourhood
    let full = minimum_blend(&input, 100);
    assert_eq!(get(&full, 0, 0), [200, 100, 50]);
    assert_eq!(get(&full, 1, 0), [10, 100, 0]);
}

#[test]
fn ink_neutralization_removes_fringe_next_to_black_but_preserves_blue() {
    let mut input = filled(11, 7, [255, 255, 255]);
    put(&mut input, 2, 3, [35, 34, 36]);
    put(&mut input, 3, 3, [95, 70, 140]);
    put(&mut input, 8, 3, [20, 75, 190]);

    let output = neutralize_black_ink(&input, 100);
    let fringe = get(&output, 3, 3);
    let chroma = *fringe.iter().max().unwrap() - *fringe.iter().min().unwrap();
    assert!(chroma < 15);
    assert_eq!(get(&output, 8, 3), [20, 75, 190]);
}

#[test]
fn ink_neutralization_zero_is_identity() {
    let input = filled(2, 2, [40, 50, 80]);
    let output = neutralize_black_ink(&input, 0);
    assert_eq!(output.data, input.data);
}
