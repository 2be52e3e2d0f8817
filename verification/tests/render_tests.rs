use fractal::growth::Growth;
use fractal::render::{
    center_x, center_y, colorize, img_height, img_width, linear_to_coord, pixel_offsets,
};

#[test]
fn image_is_square_and_four_times_the_scale() {
    assert_eq!(img_width(1), 4);
    assert_eq!(img_height(1), 4);
    assert_eq!(img_width(500), 2000);
    assert_eq!(img_height(500), 2000);
    assert_eq!(center_x(500), 1000);
    assert_eq!(center_y(500), 1000);
}

#[test]
fn linear_index_maps_row_major() {
    assert_eq!(linear_to_coord(0, 4), (0, 0));
    assert_eq!(linear_to_coord(3, 4), (3, 0));
    assert_eq!(linear_to_coord(4, 4), (0, 1));
    assert_eq!(linear_to_coord(10, 4), (2, 2));
    assert_eq!(linear_to_coord(15, 4), (3, 3));
}

#[test]
fn offsets_center_on_the_middle_pixel() {
    assert_eq!(pixel_offsets(0, 1), (-2, -2));
    assert_eq!(pixel_offsets(3, 1), (1, -2));
    assert_eq!(pixel_offsets(10, 1), (0, 0));
    assert_eq!(pixel_offsets(15, 1), (1, 1));
}

#[test]
fn colorize_lays_out_three_bytes_per_pixel() {
    let palette = vec![[1, 2, 3], [4, 5, 6]];
    let stable = [7, 8, 9];
    let growths = vec![
        Growth::Stable,
        Growth::After(0),
        Growth::After(4),
        Growth::After(8),
    ];
    let data = colorize(&growths, stable, &palette);
    assert_eq!(
        data,
        vec![7, 8, 9, 1, 2, 3, 4, 5, 6, 1, 2, 3],
    );
}

#[test]
fn colorize_of_nothing_is_empty() {
    let palette = vec![[1, 2, 3]];
    let growths: Vec<Growth> = Vec::new();
    let data = colorize(&growths, [0, 0, 0], &palette);
    assert!(data.is_empty());
}
