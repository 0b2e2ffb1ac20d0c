//! Exact values, limits and rejections.

use scene_append::{
    max_size, remap_paint, translated_bbox, AppendSceneError, ClipPath, LayerKind, Node, Paint,
    PaintSource, RecordedDraw, RectU16, Scene, SizeU16, Strip, ALPHA_IDX_END, TILE_HEIGHT,
    TILE_WIDTH,
};
use vello_common::color::palette::css;
use vello_common::encode::{EncodeExt, EncodedPaint};
use vello_common::kurbo::{Affine, Point, Rect};
use vello_common::paint::PremulColor;
use vello_common::peniko::{BlendMode, ColorStop, ColorStops, Gradient};
use vello_common::record::LayerProps;
use vello_common::strip_generator::{GenerationMode, StripStorage};

fn color() -> PaintSource {
    PaintSource::Solid(PremulColor::from_alpha_color(css::CRIMSON))
}

fn encoded() -> EncodedPaint {
    let gradient = Gradient::new_linear(Point::new(0.0, 0.0), Point::new(64.0, 0.0)).with_stops(
        ColorStops(
            [
                ColorStop::from((0.0, css::RED)),
                ColorStop::from((1.0, css::BLUE)),
            ]
            .into_iter()
            .collect(),
        ),
    );
    let mut paints = Vec::new();
    gradient.encode_into(&mut paints, Affine::IDENTITY, None);
    paints.remove(0)
}

fn props() -> LayerProps {
    LayerProps {
        blend_mode: BlendMode::default(),
        opacity: 1.0,
        mask: None,
        clip_path: None,
    }
}

fn strip(x: u16, y: u16, alpha_idx: u32, fill_gap: bool) -> Strip {
    Strip {
        x,
        y,
        alpha_idx,
        fill_gap,
    }
}

fn rect(x0: u16, y0: u16, x1: u16, y1: u16) -> RectU16 {
    RectU16 { x0, y0, x1, y1 }
}

fn scene() -> Scene {
    Scene::new(64, 32)
}

/// One row of two tiles with a gap between them, and a sentinel.
fn row() -> (Vec<Strip>, Vec<u8>) {
    (
        vec![
            strip(4, 8, 0, false),
            strip(20, 8, 16, true),
            strip(u16::MAX, 8, 32, false),
        ],
        (0..32).collect(),
    )
}

fn with_row() -> Scene {
    let mut scene = scene();
    let (strips, alphas) = row();
    scene.fill_path(&strips, &alphas, color());
    scene
}

fn with_rect(paint: PaintSource) -> Scene {
    let mut scene = scene();
    scene.fill_rect(Rect::new(1.5, 2.0, 3.0, 4.0), Vec::new(), paint);
    scene
}

/// The moves of the rectangle that is drawn first.
fn moves_of(scene: &Scene) -> Vec<(u16, u16)> {
    match &scene.recorder.draws[0] {
        RecordedDraw::Rect(rect) => rect.moves.clone(),
        RecordedDraw::Path(_) => panic!("no rectangle is drawn first"),
    }
}

fn with_layer(bbox: RectU16) -> Scene {
    let mut scene = scene();
    scene.push_layer(props(), false, None);
    scene.fill_rect(Rect::new(1.0, 2.0, 3.0, 4.0), Vec::new(), color());
    scene.pop_layer(bbox);
    scene
}

fn with_clip(bbox: RectU16) -> Scene {
    let mut scene = scene();
    let (strips, alphas) = row();
    scene.push_layer(
        props(),
        false,
        Some(ClipPath {
            strips,
            alphas,
            bbox,
        }),
    );
    scene.pop_layer(rect(0, 0, 4, 4));
    scene
}

fn stored(storage: &StripStorage) -> Vec<(u16, u16, u32, bool)> {
    storage
        .strips
        .iter()
        .map(|strip| (strip.x, strip.y, strip.alpha_idx(), strip.fill_gap()))
        .collect()
}

fn nodes(nodes: &[Node]) -> Vec<(u32, u32, Option<u32>)> {
    nodes
        .iter()
        .map(|node| (node.draws.start, node.draws.end, node.layer))
        .collect()
}

fn text(scene: &Scene) -> String {
    format!("{scene:?}")
}

/// `donor` is rejected with `error`, and `target` does not change.
fn rejects(
    target: &mut Scene,
    donor: Scene,
    translate: Option<(u16, u16)>,
    error: AppendSceneError,
) {
    let before = text(target);
    assert_eq!(target.append_scene(donor, translate), Err(error));
    assert_eq!(text(target), before);
}

#[test]
fn messages() {
    let expected = [
        (
            AppendSceneError::ViewportMismatch,
            "appended scenes must share viewport dimensions",
        ),
        (
            AppendSceneError::OpenLayers,
            "both scenes must have balanced layers before appending",
        ),
        (
            AppendSceneError::UnsupportedFilterLayers,
            "appending scenes with filter layers is unsupported",
        ),
        (
            AppendSceneError::UnsupportedThreadedClips,
            "appending scenes with non-default thread-local clip storage is unsupported",
        ),
        (
            AppendSceneError::UnalignedTranslation,
            "translation must be tile-granular (multiples of Tile::WIDTH / Tile::HEIGHT)",
        ),
        (
            AppendSceneError::Overflow,
            "appending would overflow an index or coordinate",
        ),
    ];
    for (error, message) in expected {
        assert_eq!(error.message(), message);
    }
}

#[test]
fn the_tile_grid_is_that_of_the_outside_crate() {
    assert_eq!(TILE_WIDTH, vello_common::tile::Tile::WIDTH);
    assert_eq!(TILE_HEIGHT, vello_common::tile::Tile::HEIGHT);
}

#[test]
fn translated_bounds_snap_outward() {
    assert_eq!(
        translated_bbox(rect(5, 3, 9, 7), 0, 0),
        Some(rect(4, 0, 12, 8))
    );
    assert_eq!(
        translated_bbox(rect(5, 3, 9, 7), 3, 2),
        Some(rect(8, 4, 12, 12))
    );
    assert_eq!(
        translated_bbox(rect(4, 8, 12, 16), 8, 4),
        Some(rect(12, 12, 20, 20))
    );
}

#[test]
fn translated_empty_bounds_collapse() {
    assert_eq!(
        translated_bbox(rect(8, 8, 12, 8), 0, 0),
        Some(rect(8, 8, 8, 8))
    );
    assert_eq!(
        translated_bbox(rect(5, 6, 5, 65535), 1, 0),
        Some(rect(4, 4, 4, 4))
    );
    assert_eq!(
        translated_bbox(rect(0, 0, 0, 0), 8, 4),
        Some(rect(8, 4, 8, 4))
    );
}

#[test]
fn translated_bounds_stop_at_the_last_tile() {
    assert_eq!(
        translated_bbox(rect(0, 0, 65528, 65528), 4, 4),
        Some(rect(4, 4, 65532, 65532))
    );
    assert_eq!(translated_bbox(rect(0, 0, 65533, 4), 0, 0), None);
    assert_eq!(translated_bbox(rect(0, 0, 4, 65533), 0, 0), None);
    assert_eq!(translated_bbox(rect(65532, 0, 0, 0), 4, 0), None);
    assert_eq!(translated_bbox(rect(0, 65532, 0, 0), 0, 4), None);
    assert_eq!(translated_bbox(rect(0, 0, 65532, 4), 4, 0), None);
    assert_eq!(translated_bbox(rect(0, 0, 4, 65532), 0, 4), None);
}

#[test]
fn the_larger_size_holds_both() {
    let wide = Some(SizeU16 {
        width: 9,
        height: 2,
    });
    let high = Some(SizeU16 {
        width: 3,
        height: 7,
    });
    assert_eq!(
        max_size(wide, high),
        Some(SizeU16 {
            width: 9,
            height: 7
        })
    );
    assert_eq!(max_size(wide, None), wide);
    assert_eq!(max_size(None, high), high);
    assert_eq!(max_size(None, None), None);
}

#[test]
fn paints_are_reindexed() {
    let mut paint = Paint::Indexed(3);
    assert_eq!(remap_paint(&mut paint, 4), Ok(()));
    assert!(matches!(paint, Paint::Indexed(7)));
    let mut paint = Paint::Indexed(u32::MAX - 1);
    assert_eq!(remap_paint(&mut paint, 1), Ok(()));
    assert!(matches!(paint, Paint::Indexed(u32::MAX)));
    assert_eq!(
        remap_paint(&mut paint, 1),
        Err(AppendSceneError::Overflow)
    );
    let mut paint = Paint::Solid(PremulColor::from_alpha_color(css::CRIMSON));
    let before = format!("{paint:?}");
    assert_eq!(remap_paint(&mut paint, usize::MAX), Ok(()));
    assert_eq!(format!("{paint:?}"), before);
}

#[test]
fn strips_move_and_sentinels_stay() {
    let mut target = with_row();
    target
        .append_scene(with_row(), Some((8, 4)))
        .expect("append succeeds");
    assert_eq!(
        stored(&target.strip_storage),
        vec![
            (4, 8, 0, false),
            (20, 8, 16, true),
            (u16::MAX, 8, 32, false),
            (12, 12, 32, false),
            (28, 12, 48, true),
            (u16::MAX, 12, 64, false),
        ]
    );
    let bytes: Vec<u8> = (0..32).chain(0..32).collect();
    assert_eq!(target.strip_storage.alphas, bytes);
    let ranges: Vec<_> = target
        .recorder
        .draws
        .iter()
        .map(|draw| match draw {
            RecordedDraw::Path(path) => path.strips.clone(),
            RecordedDraw::Rect(_) => 0..0,
        })
        .collect();
    assert_eq!(ranges, vec![0..3, 3..6]);
}

#[test]
fn moved_strips_keep_their_widths() {
    let mut target = with_row();
    target
        .append_scene(with_row(), Some((8, 4)))
        .expect("append succeeds");
    let strips = &target.strip_storage.strips;
    for i in 0..2 {
        assert_eq!(
            strips[i].width_to(&strips[i + 1]),
            strips[i + 3].width_to(&strips[i + 4])
        );
        assert_eq!(
            strips[i].strip_y() == strips[i + 1].strip_y(),
            strips[i + 3].strip_y() == strips[i + 4].strip_y()
        );
    }
}

#[test]
fn rectangles_keep_their_corners_and_list_their_moves() {
    let mut target = with_rect(color());
    target
        .append_scene(with_rect(color()), Some((8, 4)))
        .expect("append succeeds");
    let mut outer = scene();
    outer
        .append_scene(target, Some((4, 4)))
        .expect("append succeeds");
    let moves: Vec<_> = outer
        .recorder
        .draws
        .iter()
        .map(|draw| match draw {
            RecordedDraw::Rect(rect) => (rect.rect, rect.moves.clone()),
            RecordedDraw::Path(_) => (Rect::ZERO, Vec::new()),
        })
        .collect();
    let corners = Rect::new(1.5, 2.0, 3.0, 4.0);
    assert_eq!(
        moves,
        vec![(corners, vec![(4, 4)]), (corners, vec![(8, 4), (4, 4)])]
    );
}

#[test]
fn an_append_in_place_is_a_move_by_nothing() {
    let mut target = scene();
    target
        .append_scene(with_rect(color()), None)
        .expect("append succeeds");
    assert_eq!(moves_of(&target), vec![(0, 0)]);
}

#[test]
fn moves_round_one_after_the_other() {
    let corner = 1.25 * 2.0_f64.powi(-50);
    let donor = || {
        let mut scene = scene();
        scene.fill_rect(Rect::new(corner, 0.0, 4.0, 4.0), Vec::new(), color());
        scene
    };
    let mut once = scene();
    once.append_scene(donor(), Some((8, 0)))
        .expect("append succeeds");
    let mut inner = scene();
    inner
        .append_scene(donor(), Some((4, 0)))
        .expect("append succeeds");
    let mut twice = scene();
    twice
        .append_scene(inner, Some((4, 0)))
        .expect("append succeeds");
    let place = |scene: &Scene| {
        moves_of(scene)
            .iter()
            .fold(corner, |x, (dx, _)| x + f64::from(*dx))
    };
    assert_eq!(place(&twice), 8.0);
    assert_eq!(place(&once), 8.0 + 2.0_f64.powi(-49));
}

#[test]
fn the_target_keeps_its_generation_mode() {
    for (mode, other) in [
        (GenerationMode::Replace, GenerationMode::Append),
        (GenerationMode::Append, GenerationMode::Replace),
    ] {
        let mut target = with_row();
        target.strip_storage.set_generation_mode(mode);
        let mut donor = with_row();
        donor.strip_storage.set_generation_mode(other);
        target
            .append_scene(donor, Some((8, 4)))
            .expect("append succeeds");
        assert_eq!(target.strip_storage.generation_mode(), mode);
    }
    assert_eq!(
        scene().strip_storage.generation_mode(),
        GenerationMode::Append
    );
}

#[test]
fn indexed_paints_follow_their_table() {
    let mut target = with_rect(PaintSource::Encoded(encoded()));
    target
        .append_scene(with_rect(PaintSource::Encoded(encoded())), None)
        .expect("append succeeds");
    assert_eq!(target.encoded_paints.len(), 2);
    let indices: Vec<_> = target
        .recorder
        .draws
        .iter()
        .map(|draw| match draw {
            RecordedDraw::Rect(rect) => match rect.paint {
                Paint::Indexed(index) => Some(index),
                Paint::Solid(_) => None,
            },
            RecordedDraw::Path(_) => None,
        })
        .collect();
    assert_eq!(indices, vec![Some(0), Some(1)]);
}

#[test]
fn an_open_batch_goes_on_into_the_donor() {
    let mut target = with_rect(color());
    target
        .append_scene(with_rect(color()), None)
        .expect("append succeeds");
    assert_eq!(nodes(&target.recorder.nodes), vec![(0, 2, None)]);
    target
        .append_scene(with_layer(rect(0, 0, 4, 4)), None)
        .expect("append succeeds");
    assert_eq!(nodes(&target.recorder.nodes), vec![(0, 2, Some(0))]);
    assert_eq!(
        nodes(&target.recorder.layers[0].nodes),
        vec![(2, 3, None)]
    );
    target
        .append_scene(with_rect(color()), None)
        .expect("append succeeds");
    assert_eq!(
        nodes(&target.recorder.nodes),
        vec![(0, 2, Some(0)), (3, 4, None)]
    );
}

#[test]
fn a_closed_batch_is_followed_by_the_donor() {
    let mut target = with_layer(rect(0, 0, 4, 4));
    target
        .append_scene(with_layer(rect(4, 4, 8, 8)), Some((4, 0)))
        .expect("append succeeds");
    assert_eq!(
        nodes(&target.recorder.nodes),
        vec![(0, 0, Some(0)), (1, 1, Some(1))]
    );
    assert_eq!(nodes(&target.recorder.layers[1].nodes), vec![(1, 2, None)]);
    assert_eq!(target.recorder.layers[0].bbox, rect(0, 0, 4, 4));
    assert_eq!(target.recorder.layers[1].bbox, rect(8, 4, 12, 8));
}

#[test]
fn appending_nothing_changes_nothing() {
    let mut target = with_clip(rect(4, 8, 24, 12));
    let before = text(&target);
    target
        .append_scene(scene(), Some((8, 8)))
        .expect("append succeeds");
    assert_eq!(text(&target), before);
}

#[test]
fn appending_to_nothing_in_place_gives_the_donor() {
    let mut target = scene();
    let donor = with_clip(rect(4, 8, 24, 12));
    let expected = text(&donor);
    target.append_scene(donor, None).expect("append succeeds");
    assert_eq!(text(&target), expected);
}

#[test]
fn clip_paths_move() {
    let mut target = with_row();
    target
        .append_scene(with_clip(rect(4, 8, 24, 12)), Some((4, 8)))
        .expect("append succeeds");
    let clip = target.recorder.layers[0]
        .clip_path
        .as_ref()
        .expect("the layer is clipped");
    assert_eq!(clip.strip_range, 3..6);
    assert_eq!(clip.thread_idx, 0);
    assert_eq!(clip.bbox, rect(8, 16, 28, 20));
}

#[test]
fn empty_clipped_bounds_collapse_in_place() {
    let mut target = scene();
    target
        .append_scene(with_layer(rect(8, 8, 12, 8)), None)
        .expect("append succeeds");
    assert_eq!(target.recorder.layers[0].bbox, rect(8, 8, 8, 8));
}

#[test]
fn provisions_grow() {
    let mut donor = scene();
    donor.push_layer(props(), true, None);
    donor.push_layer(props(), false, None);
    donor.pop_layer(rect(0, 0, 4, 16));
    donor.pop_layer(rect(0, 0, 4, 4));
    let mut target = with_layer(rect(0, 0, 8, 4));
    target.append_scene(donor, None).expect("append succeeds");
    assert_eq!(target.recorder.max_layer_depth, 2);
    assert!(target.recorder.root_is_blend_target);
    assert!(target.recorder.has_non_default_blend);
    assert_eq!(
        target.recorder.largest_layer_size,
        Some(SizeU16 {
            width: 8,
            height: 16
        })
    );
    assert_eq!(target.recorder.largest_filter_layer_size, None);

    let before = (
        target.recorder.max_layer_depth,
        target.recorder.largest_layer_size,
    );
    target
        .append_scene(with_layer(rect(0, 0, 4, 4)), None)
        .expect("append succeeds");
    assert_eq!(
        before,
        (
            target.recorder.max_layer_depth,
            target.recorder.largest_layer_size
        )
    );
    assert!(target.recorder.root_is_blend_target);
    assert!(target.recorder.has_non_default_blend);
}

#[test]
fn a_nested_blend_does_not_target_the_root() {
    let mut scene = scene();
    scene.push_layer(props(), false, None);
    scene.push_layer(props(), true, None);
    assert!(!scene.recorder.root_is_blend_target);
    assert!(scene.recorder.has_non_default_blend);
    assert_eq!(scene.recorder.max_layer_depth, 2);
}

#[test]
fn sub_tile_translations_are_rejected() {
    for translate in [(1, 0), (2, 4), (4, 2), (0, 3), (65535, 0), (0, 65535)] {
        rejects(
            &mut with_row(),
            with_row(),
            Some(translate),
            AppendSceneError::UnalignedTranslation,
        );
    }
}

#[test]
fn other_viewports_are_rejected() {
    rejects(
        &mut with_row(),
        Scene::new(64, 36),
        None,
        AppendSceneError::ViewportMismatch,
    );
    rejects(
        &mut with_row(),
        Scene::new(60, 32),
        None,
        AppendSceneError::ViewportMismatch,
    );
}

#[test]
fn open_layers_are_rejected_on_either_side() {
    let open = || {
        let mut open = scene();
        open.push_layer(props(), false, None);
        open
    };
    rejects(&mut with_row(), open(), None, AppendSceneError::OpenLayers);
    rejects(&mut open(), with_row(), None, AppendSceneError::OpenLayers);
}

#[test]
fn filter_layers_are_rejected_on_the_donor_alone() {
    let filtered = || {
        let mut filtered = with_layer(rect(0, 0, 4, 4));
        filtered.recorder.filter_layers.push(0);
        filtered
    };
    rejects(
        &mut with_row(),
        filtered(),
        None,
        AppendSceneError::UnsupportedFilterLayers,
    );
    assert_eq!(filtered().append_scene(with_row(), None), Ok(()));
}

#[test]
fn threaded_clips_are_rejected() {
    let mut threaded = with_clip(rect(4, 8, 24, 12));
    if let Some(clip) = &mut threaded.recorder.layers[0].clip_path {
        clip.thread_idx = 1;
    }
    rejects(
        &mut with_row(),
        threaded,
        None,
        AppendSceneError::UnsupportedThreadedClips,
    );
}

#[test]
fn the_first_reason_is_reported() {
    let mut donor = Scene::new(4, 4);
    donor.push_layer(props(), false, None);
    donor.recorder.filter_layers.push(0);
    let mut target = with_row();
    assert_eq!(
        target.append_scene(donor, Some((1, 1))),
        Err(AppendSceneError::UnalignedTranslation)
    );
    let mut donor = Scene::new(4, 4);
    donor.push_layer(props(), false, None);
    donor.recorder.filter_layers.push(0);
    assert_eq!(
        target.append_scene(donor, None),
        Err(AppendSceneError::ViewportMismatch)
    );
    let mut donor = scene();
    donor.push_layer(props(), false, None);
    donor.recorder.filter_layers.push(0);
    assert_eq!(
        target.append_scene(donor, None),
        Err(AppendSceneError::OpenLayers)
    );
}

#[test]
fn strips_past_the_last_pixel_overflow() {
    let at = |x: u16, y: u16| {
        let mut scene = scene();
        scene.fill_path(&vec![strip(x, y, 0, false)], &vec![0; 16], color());
        scene
    };
    assert_eq!(scene().append_scene(at(65528, 0), Some((4, 0))), Ok(()));
    assert_eq!(scene().append_scene(at(0, 65528), Some((0, 4))), Ok(()));
    rejects(
        &mut with_row(),
        at(65532, 0),
        Some((4, 0)),
        AppendSceneError::Overflow,
    );
    rejects(
        &mut with_row(),
        at(0, 65532),
        Some((0, 4)),
        AppendSceneError::Overflow,
    );
    assert_eq!(scene().append_scene(at(u16::MAX, 0), Some((4, 0))), Ok(()));
}

#[test]
fn alpha_indices_past_the_flag_bit_overflow() {
    let high = |alpha_idx: u32| {
        let mut scene = scene();
        scene
            .strip_storage
            .strips
            .push(vello_common::strip::Strip::new(0, 0, alpha_idx, true));
        scene
    };
    let mut target = with_row();
    rejects(
        &mut target,
        high(ALPHA_IDX_END - 32),
        None,
        AppendSceneError::Overflow,
    );
    assert_eq!(target.append_scene(high(ALPHA_IDX_END - 33), None), Ok(()));
    assert_eq!(
        stored(&target.strip_storage)[3],
        (0, 0, ALPHA_IDX_END - 1, true)
    );
}

#[test]
fn indices_past_their_types_overflow() {
    let mut donor = with_row();
    if let RecordedDraw::Path(path) = &mut donor.recorder.draws[0] {
        path.strips = 0..usize::MAX;
    }
    rejects(&mut with_row(), donor, None, AppendSceneError::Overflow);

    let mut donor = with_rect(color());
    if let RecordedDraw::Rect(rect) = &mut donor.recorder.draws[0] {
        rect.paint = Paint::Indexed(u32::MAX);
    }
    rejects(
        &mut with_rect(PaintSource::Encoded(encoded())),
        donor,
        None,
        AppendSceneError::Overflow,
    );

    let mut donor = with_rect(color());
    donor.recorder.nodes[0].draws = 0..u32::MAX;
    rejects(&mut with_row(), donor, None, AppendSceneError::Overflow);

    let mut donor = with_layer(rect(0, 0, 4, 4));
    donor.recorder.nodes[0].layer = Some(u32::MAX);
    rejects(
        &mut with_layer(rect(0, 0, 4, 4)),
        donor,
        None,
        AppendSceneError::Overflow,
    );

    let mut donor = with_layer(rect(0, 0, 4, 4));
    donor.recorder.layers[0].nodes[0].draws = 0..u32::MAX;
    rejects(&mut with_row(), donor, None, AppendSceneError::Overflow);

    let mut donor = with_clip(rect(4, 8, 24, 12));
    if let Some(clip) = &mut donor.recorder.layers[0].clip_path {
        clip.strip_range = 0..usize::MAX;
    }
    rejects(&mut with_row(), donor, None, AppendSceneError::Overflow);
}

#[test]
fn bounds_past_the_last_tile_overflow() {
    rejects(
        &mut with_row(),
        with_layer(rect(0, 0, 65532, 4)),
        Some((4, 0)),
        AppendSceneError::Overflow,
    );
    rejects(
        &mut with_row(),
        with_layer(rect(0, 0, 4, 65534)),
        None,
        AppendSceneError::Overflow,
    );
    rejects(
        &mut with_row(),
        with_clip(rect(0, 0, 4, 65532)),
        Some((0, 4)),
        AppendSceneError::Overflow,
    );
    assert_eq!(
        scene().append_scene(with_layer(rect(0, 0, 65528, 4)), Some((4, 0))),
        Ok(())
    );
}

#[test]
fn a_layer_moves_with_everything_in_it() {
    let (strips, alphas) = row();
    let mut donor = scene();
    donor.push_layer(
        props(),
        false,
        Some(ClipPath {
            strips,
            alphas,
            bbox: rect(0, 0, 4, 4),
        }),
    );
    donor.fill_rect(Rect::new(1.0, 2.0, 3.0, 4.0), Vec::new(), color());
    donor.push_layer(props(), false, None);
    donor.pop_layer(rect(0, 0, 0, 0));
    donor.fill_rect(Rect::new(1.0, 2.0, 3.0, 4.0), Vec::new(), color());
    donor.pop_layer(rect(4, 4, 8, 12));

    let mut target = with_layer(rect(0, 0, 4, 4));
    let (strips, alphas) = row();
    target.fill_path(&strips, &alphas, color());
    target
        .append_scene(donor, Some((4, 8)))
        .expect("append succeeds");
    assert_eq!(
        nodes(&target.recorder.nodes),
        vec![(0, 0, Some(0)), (1, 2, Some(1))]
    );
    let layer = &target.recorder.layers[1];
    assert_eq!(nodes(&layer.nodes), vec![(2, 3, Some(2)), (3, 4, None)]);
    let clip = layer.clip_path.as_ref().expect("the layer is clipped");
    assert_eq!(clip.strip_range, 3..6);
    assert_eq!(clip.bbox, rect(4, 8, 8, 12));
    assert_eq!(layer.bbox, rect(8, 12, 12, 20));
    assert_eq!(layer.depth, 1);
    assert!(matches!(layer.kind, LayerKind::Regular));
    assert_eq!(target.recorder.layers[2].bbox, rect(4, 8, 4, 8));
    assert_eq!(target.recorder.layers[2].depth, 2);
}

#[test]
fn recording_batches_draws_between_layers() {
    let mut scene = scene();
    scene.fill_rect(Rect::new(0.0, 0.0, 1.0, 1.0), Vec::new(), color());
    scene.fill_rect(Rect::new(0.0, 0.0, 1.0, 1.0), Vec::new(), color());
    scene.push_layer(props(), false, None);
    scene.fill_rect(Rect::new(0.0, 0.0, 1.0, 1.0), Vec::new(), color());
    scene.pop_layer(rect(0, 0, 4, 4));
    scene.fill_rect(Rect::new(0.0, 0.0, 1.0, 1.0), Vec::new(), color());
    assert_eq!(
        nodes(&scene.recorder.nodes),
        vec![(0, 2, Some(0)), (3, 4, None)]
    );
    assert_eq!(nodes(&scene.recorder.layers[0].nodes), vec![(2, 3, None)]);
    assert_eq!(
        scene.recorder.largest_layer_size,
        Some(SizeU16 {
            width: 4,
            height: 4
        })
    );
}

#[test]
fn a_path_without_strips_stores_its_alpha_bytes() {
    let mut scene = with_row();
    scene.fill_path(&Vec::new(), &vec![7, 8], color());
    assert_eq!(stored(&scene.strip_storage).len(), 3);
    assert_eq!(scene.strip_storage.alphas[32..], [7, 8]);
    assert!(matches!(
        &scene.recorder.draws[1],
        RecordedDraw::Path(path) if path.strips == (3..3)
    ));
}
