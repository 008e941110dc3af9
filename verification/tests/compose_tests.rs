use visusta::artifact::{CharImage, LumaAImage, RgbaImage};
use visusta::compose::{overlay_all_char, overlay_all_luma, overlay_all_rgba, overlay_layers, overlay_two};
use visusta::pipeline::LayerOutput;

fn rgba1(px: [u8; 4]) -> RgbaImage {
    RgbaImage { width: 1, height: 1, data: px.to_vec() }
}

fn luma1(px: [u8; 2]) -> LumaAImage {
    LumaAImage { width: 1, height: 1, data: px.to_vec() }
}

fn grid1(c: char) -> CharImage {
    CharImage { width: 1, height: 1, data: vec![c] }
}

#[test]
fn single_opaque_raster_layer_is_returned_unchanged() {
    let layer = RgbaImage {
        width: 2,
        height: 1,
        data: vec![10, 20, 30, 255, 200, 100, 50, 255],
    };
    let out = overlay_all_rgba(&vec![layer.clone()]);
    assert_eq!(out, layer);
}

#[test]
fn fully_transparent_top_layer_changes_nothing() {
    let bottom = RgbaImage {
        width: 2,
        height: 1,
        data: vec![10, 20, 30, 255, 200, 100, 50, 128],
    };
    let clear = RgbaImage { width: 2, height: 1, data: vec![9, 9, 9, 0, 7, 7, 7, 0] };
    let with_top = overlay_all_rgba(&vec![bottom.clone(), clear]);
    let without = overlay_all_rgba(&vec![bottom]);
    assert_eq!(with_top, without);
}

#[test]
fn two_layer_composite_matches_overlay_two() {
    let bottom = rgba1([255, 0, 0, 255]);
    let top = rgba1([0, 255, 0, 128]);
    let folded = overlay_all_rgba(&vec![bottom.clone(), top.clone()]);
    let pair = overlay_two(&bottom, &top);
    assert_eq!(pair, folded);
}

#[test]
fn half_transparent_green_over_opaque_red() {
    let bottom = rgba1([255, 0, 0, 255]);
    let top = rgba1([0, 255, 0, 128]);
    let out = overlay_two(&bottom, &top);
    // n = 255*128 + 255*127 = 65025; red = 255*255*127/n = 127;
    // green = 255*255*128/n = 128; alpha = n/255 = 255.
    assert_eq!(out, rgba1([127, 128, 0, 255]));
}

#[test]
fn transparent_bottom_pixels_leave_their_colour_out() {
    // A transparent pixel contributes nothing, whatever its colour bytes.
    let bottom = rgba1([200, 50, 50, 0]);
    let top = rgba1([0, 0, 255, 255]);
    let out = overlay_all_rgba(&vec![bottom, top]);
    assert_eq!(out, rgba1([0, 0, 255, 255]));
}

#[test]
fn all_transparent_stack_composes_to_transparent() {
    let a = rgba1([40, 0, 0, 0]);
    let b = rgba1([0, 50, 0, 0]);
    let out = overlay_all_rgba(&vec![a, b]);
    assert_eq!(out, rgba1([0, 0, 0, 0]));
}

#[test]
fn luma_composite_applies_the_same_over_rule() {
    let bottom = luma1([255, 255]);
    let top = luma1([0, 128]);
    let out = overlay_all_luma(&vec![bottom, top]);
    // Same arithmetic as the raster rule on one channel: 127, alpha 255.
    assert_eq!(out, luma1([127, 255]));
}

#[test]
fn char_composite_takes_topmost_drawn_glyph() {
    let out = overlay_all_char(&vec![grid1(' '), grid1(' '), grid1('X')]);
    assert_eq!(out, grid1('X'));
}

#[test]
fn char_composite_of_empty_cells_stays_empty() {
    let out = overlay_all_char(&vec![grid1(' '), grid1(' ')]);
    assert_eq!(out, grid1(' '));
}

#[test]
fn char_composite_skips_empty_top_cells() {
    let out = overlay_all_char(&vec![grid1('a'), grid1('b'), grid1(' ')]);
    assert_eq!(out, grid1('b'));
}

#[test]
fn zero_sized_rasters_compose_to_a_zero_sized_raster() {
    let empty = RgbaImage { width: 0, height: 0, data: Vec::new() };
    let out = overlay_all_rgba(&vec![empty.clone(), empty.clone()]);
    assert_eq!(out, empty);
}

#[test]
fn overlay_layers_merges_luminance_artifacts() {
    let outputs = vec![
        LayerOutput::LumaA(luma1([255, 255])),
        LayerOutput::LumaA(luma1([0, 128])),
    ];
    match overlay_layers(&outputs) {
        Some(LayerOutput::LumaA(img)) => assert_eq!(img, luma1([127, 255])),
        _ => panic!("expected a luminance result"),
    }
}

#[test]
fn overlay_layers_rejects_empty_input() {
    let outputs: Vec<LayerOutput> = Vec::new();
    assert!(overlay_layers(&outputs).is_none());
}

#[test]
fn overlay_layers_rejects_mixed_shapes() {
    let outputs = vec![
        LayerOutput::Rgba(rgba1([1, 2, 3, 255])),
        LayerOutput::Char(grid1('x')),
    ];
    assert!(overlay_layers(&outputs).is_none());
}

#[test]
fn overlay_layers_merges_same_shape_artifacts() {
    let outputs = vec![
        LayerOutput::Rgba(rgba1([255, 0, 0, 255])),
        LayerOutput::Rgba(rgba1([0, 255, 0, 128])),
    ];
    match overlay_layers(&outputs) {
        Some(LayerOutput::Rgba(img)) => assert_eq!(img, rgba1([127, 128, 0, 255])),
        other => panic!("expected a raster result, got {:?}", other.is_some()),
    }
}

#[test]
fn overlay_layers_merges_char_grids() {
    let outputs = vec![
        LayerOutput::Char(grid1(' ')),
        LayerOutput::Char(grid1(' ')),
        LayerOutput::Char(grid1('X')),
    ];
    match overlay_layers(&outputs) {
        Some(LayerOutput::Char(grid)) => assert_eq!(grid, grid1('X')),
        _ => panic!("expected a char grid result"),
    }
}
