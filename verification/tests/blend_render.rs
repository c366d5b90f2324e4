use silica::composite::{blend_mode_from_id, layer_blend, layer_clip, render, BlendMode};
use silica::document::{SilicaGroup, SilicaLayer, SilicaLayers};
use silica::raster::Image;

fn one_pixel(r: u8, g: u8, b: u8, a: u8) -> Image {
    Image { width: 1, height: 1, data: vec![r, g, b, a] }
}

fn solid_layer(rgba: [u8; 4], opacity: u8, blend: u32, clipped: bool, hidden: bool) -> SilicaLayers {
    SilicaLayers::Layer(SilicaLayer {
        blend,
        clipped,
        hidden,
        mask: None,
        name: None,
        opacity,
        size_width: 1,
        size_height: 1,
        uuid: "layer".to_string(),
        version: 1,
        image: Some(one_pixel(rgba[0], rgba[1], rgba[2], rgba[3])),
    })
}

fn root(children: Vec<SilicaLayers>) -> SilicaGroup {
    SilicaGroup { hidden: false, children, name: "ROOT".to_string() }
}

#[test]
fn blend_mode_ids_route_as_documented() {
    assert_eq!(blend_mode_from_id(1), BlendMode::Multiply);
    assert_eq!(blend_mode_from_id(2), BlendMode::Screen);
    assert_eq!(blend_mode_from_id(11), BlendMode::Overlay);
    assert_eq!(blend_mode_from_id(0), BlendMode::Normal);
    assert_eq!(blend_mode_from_id(3), BlendMode::Normal);
    assert_eq!(blend_mode_from_id(99), BlendMode::Normal);
}

#[test]
fn normal_blend_over_transparent_copies_source() {
    let mut dst = one_pixel(0, 0, 0, 0);
    let src = one_pixel(200, 100, 50, 255);
    layer_blend(&mut dst, &src, 255, BlendMode::Normal);
    assert_eq!(dst.data, vec![200, 100, 50, 255]);
}

#[test]
fn multiply_blend_exact_value() {
    // blended color 200*100/255 = 78, fully opaque over fully opaque
    let mut dst = one_pixel(100, 100, 100, 255);
    let src = one_pixel(200, 200, 200, 255);
    layer_blend(&mut dst, &src, 255, BlendMode::Multiply);
    assert_eq!(dst.data, vec![78, 78, 78, 255]);
}

#[test]
fn screen_blend_exact_value() {
    // 255 - (55 * 155) / 255 = 255 - 33 = 222
    let mut dst = one_pixel(100, 100, 100, 255);
    let src = one_pixel(200, 200, 200, 255);
    layer_blend(&mut dst, &src, 255, BlendMode::Screen);
    assert_eq!(dst.data, vec![222, 222, 222, 255]);
}

#[test]
fn overlay_blend_exact_values_both_branches() {
    // dark destination (100 < 128): 2*200*100/255 = 156
    let mut dark = one_pixel(100, 100, 100, 255);
    let src = one_pixel(200, 200, 200, 255);
    layer_blend(&mut dark, &src, 255, BlendMode::Overlay);
    assert_eq!(dark.data, vec![156, 156, 156, 255]);
    // light destination (200 >= 128): 255 - 2*55*55/255 = 255 - 23 = 232
    let mut light = one_pixel(200, 200, 200, 255);
    layer_blend(&mut light, &src, 255, BlendMode::Overlay);
    assert_eq!(light.data, vec![232, 232, 232, 255]);
}

#[test]
fn opacity_scales_source_alpha() {
    // a_s = 255*128/255 = 128, t = 255*127/255 = 127, ao = 255
    // color = (200*128 + 100*127)/255 = 38300/255 = 150
    let mut dst = one_pixel(100, 100, 100, 255);
    let src = one_pixel(200, 200, 200, 255);
    layer_blend(&mut dst, &src, 128, BlendMode::Normal);
    assert_eq!(dst.data, vec![150, 150, 150, 255]);
}

#[test]
fn alpha_accumulates_by_over_composition() {
    // a_s = 128, dst alpha 100: out = 128 + 100*127/255 = 128 + 49 = 177
    let mut dst = one_pixel(0, 0, 0, 100);
    let src = one_pixel(0, 0, 0, 128);
    layer_blend(&mut dst, &src, 255, BlendMode::Normal);
    assert_eq!(dst.data[3], 177);
}

#[test]
fn clip_restricts_alpha_to_mask_footprint() {
    let src = one_pixel(10, 20, 30, 200);
    let mask = one_pixel(0, 0, 0, 128);
    // mask opacity 255: scaled mask alpha 128, new alpha 200*128/255 = 100
    let clipped = layer_clip(&src, &mask, 255);
    assert_eq!(clipped.data, vec![10, 20, 30, 100]);
    // mask opacity 128: scaled mask alpha 128*128/255 = 64, new alpha 200*64/255 = 50
    let clipped2 = layer_clip(&src, &mask, 128);
    assert_eq!(clipped2.data, vec![10, 20, 30, 50]);
}

#[test]
fn unrecognized_blend_ids_render_like_normal() {
    let mut via_zero = one_pixel(0, 0, 0, 0);
    let mut via_seven = one_pixel(0, 0, 0, 0);
    let mut via_normal = one_pixel(0, 0, 0, 0);
    render(&mut via_zero, &root(vec![solid_layer([9, 8, 7, 250], 200, 0, false, false)]));
    render(&mut via_seven, &root(vec![solid_layer([9, 8, 7, 250], 200, 7, false, false)]));
    render(&mut via_normal, &root(vec![solid_layer([9, 8, 7, 250], 200, 0, false, false)]));
    assert_eq!(via_zero.data, via_seven.data);
    assert_eq!(via_zero.data, via_normal.data);
}

#[test]
fn hidden_layer_contributes_nothing() {
    let mut with_hidden = one_pixel(0, 0, 0, 0);
    let mut without = one_pixel(0, 0, 0, 0);
    render(
        &mut with_hidden,
        &root(vec![
            solid_layer([50, 60, 70, 255], 255, 0, false, false),
            solid_layer([200, 0, 0, 255], 255, 0, false, true),
        ]),
    );
    render(&mut without, &root(vec![solid_layer([50, 60, 70, 255], 255, 0, false, false)]));
    assert_eq!(with_hidden.data, without.data);
}

#[test]
fn hidden_group_contributes_nothing() {
    let subtree = SilicaLayers::Group(SilicaGroup {
        hidden: true,
        children: vec![solid_layer([200, 0, 0, 255], 255, 0, false, false)],
        name: "hid".to_string(),
    });
    let mut with_hidden = one_pixel(0, 0, 0, 0);
    let mut without = one_pixel(0, 0, 0, 0);
    render(
        &mut with_hidden,
        &root(vec![solid_layer([50, 60, 70, 255], 255, 0, false, false), subtree]),
    );
    render(&mut without, &root(vec![solid_layer([50, 60, 70, 255], 255, 0, false, false)]));
    assert_eq!(with_hidden.data, without.data);
}

#[test]
fn children_render_in_reverse_stored_order() {
    // index 0 is topmost: an opaque normal layer at index 0 wins
    let mut canvas = one_pixel(0, 0, 0, 0);
    render(
        &mut canvas,
        &root(vec![
            solid_layer([1, 2, 3, 255], 255, 0, false, false),
            solid_layer([200, 200, 200, 255], 255, 0, false, false),
        ]),
    );
    assert_eq!(canvas.data, vec![1, 2, 3, 255]);
}

#[test]
fn clipped_layer_without_source_renders_as_unclipped() {
    let mut clipped = one_pixel(0, 0, 0, 0);
    let mut unclipped = one_pixel(0, 0, 0, 0);
    render(&mut clipped, &root(vec![solid_layer([10, 20, 30, 255], 255, 0, true, false)]));
    render(&mut unclipped, &root(vec![solid_layer([10, 20, 30, 255], 255, 0, false, false)]));
    assert_eq!(clipped.data, unclipped.data);
}

#[test]
fn clipped_layer_uses_preceding_unclipped_sibling() {
    // bottom (index 1): unclipped mask with alpha 128, opacity 255
    // top (index 0): clipped opaque red; its alpha becomes 255*128/255 = 128
    let mut canvas = one_pixel(0, 0, 0, 0);
    render(
        &mut canvas,
        &root(vec![
            solid_layer([255, 0, 0, 255], 255, 0, true, false),
            solid_layer([0, 0, 255, 128], 255, 0, false, false),
        ]),
    );
    // first pass: blue at alpha 128; second: red clipped to alpha 128 over it
    // a_s = 128, t = 128*127/255 = 63, ao = 191
    // red channel: (255*128 + 0*63)/191 = 32640/191 = 170
    // blue channel: (0*128 + 255*63)/191 = 16065/191 = 84
    assert_eq!(canvas.data, vec![170, 0, 84, 191]);
}

#[test]
fn rendering_twice_is_byte_identical() {
    let doc = root(vec![
        solid_layer([3, 1, 4, 159], 255, 2, false, false),
        solid_layer([2, 7, 1, 255], 200, 1, true, false),
        solid_layer([50, 60, 70, 220], 255, 11, false, false),
    ]);
    let mut first = one_pixel(0, 0, 0, 0);
    let mut second = one_pixel(0, 0, 0, 0);
    render(&mut first, &doc);
    render(&mut second, &doc);
    assert_eq!(first.data, second.data);
}

#[test]
fn blending_is_clipped_to_overlap() {
    // 2x1 canvas, 1x1 source: the second pixel is untouched
    let mut dst = Image { width: 2, height: 1, data: vec![1, 2, 3, 4, 5, 6, 7, 8] };
    let src = one_pixel(200, 100, 50, 255);
    layer_blend(&mut dst, &src, 255, BlendMode::Normal);
    assert_eq!(&dst.data[4..], &[5, 6, 7, 8]);
    assert_eq!(&dst.data[..4], &[200, 100, 50, 255]);
}
