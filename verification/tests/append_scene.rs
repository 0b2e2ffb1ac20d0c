//! Appending what `vello_common` records.

use scene_append::{
    AppendSceneError, ClipPath, CommandRecorder, LayerClip, LayerKind, Node, Paint, PaintSource,
    RecordedDraw, RecordedLayer, RecordedPath, RecordedRect, RectU16, Scene, SizeU16, Strip,
};
use vello_common::color::palette::css;
use vello_common::encode::{EncodeExt, EncodedPaint};
use vello_common::fearless_simd::Level;
use vello_common::filter::FilterData;
use vello_common::filter_effects::{EdgeMode, Filter, FilterPrimitive};
use vello_common::geometry;
use vello_common::kurbo::{Affine, BezPath, Point, Rect, Vec2};
use vello_common::peniko::{BlendMode, ColorStop, ColorStops, Fill, Gradient};
use vello_common::record::{self, Drawable, LayerProps};
use vello_common::strip_generator::{GenerationMode, StripGenerator, StripStorage};
use vello_common::util::{strip_bbox, RectExt};

const W: u16 = 128;
const H: u16 = 128;

#[derive(Debug)]
enum Draw {
    Path(std::ops::Range<usize>, vello_common::paint::Paint),
    Rect(Rect, vello_common::paint::Paint),
}

fn rect_bbox(rect: &Rect) -> geometry::RectU16 {
    let snapped = rect.snap_to_tile_coordinates();
    geometry::RectU16::new(
        snapped.x0 as u16,
        snapped.y0 as u16,
        snapped.x1 as u16,
        snapped.y1 as u16,
    )
}

impl Drawable for Draw {
    fn bbox(&self, strips: &[vello_common::strip::Strip]) -> Option<geometry::RectU16> {
        match self {
            Draw::Path(range, _) => strip_bbox(&strips[range.clone()]),
            Draw::Rect(rect, _) => Some(rect_bbox(rect)),
        }
    }
}

#[derive(Clone)]
enum Brush {
    Color(vello_common::color::AlphaColor<vello_common::color::Srgb>),
    Gradient(Gradient),
}

/// What tests record into.
trait Canvas {
    fn set_color(&mut self, color: vello_common::color::AlphaColor<vello_common::color::Srgb>);
    fn set_gradient(&mut self, gradient: Gradient);
    fn fill_rect(&mut self, rect: &Rect);
    fn fill_path(&mut self, path: &BezPath);
    fn push_opacity_layer(&mut self, opacity: f32);
    fn push_clip_layer(&mut self, path: &BezPath);
    fn pop_layer(&mut self);
}

fn coverage(generator: &mut StripGenerator, path: &BezPath, storage: &mut StripStorage) {
    generator.generate_filled_path(
        path.iter(),
        Fill::NonZero,
        Affine::IDENTITY,
        None,
        storage,
        None,
    );
}

fn props(opacity: f32) -> LayerProps {
    LayerProps {
        blend_mode: BlendMode::default(),
        opacity,
        mask: None,
        clip_path: None,
    }
}

/// Records with the recorder and the strip generator of `vello_common` throughout.
struct Recording {
    width: u16,
    height: u16,
    generator: StripGenerator,
    strip_storage: StripStorage,
    encoded_paints: Vec<EncodedPaint>,
    recorder: record::CommandRecorder<Draw>,
    open: Vec<u32>,
    brush: Brush,
}

impl Recording {
    fn new(width: u16, height: u16) -> Self {
        Recording {
            width,
            height,
            generator: StripGenerator::new(width, height, Level::baseline()),
            strip_storage: StripStorage::new(GenerationMode::Append),
            encoded_paints: Vec::new(),
            recorder: record::CommandRecorder::new(width, height),
            open: Vec::new(),
            brush: Brush::Color(css::BLACK),
        }
    }

    fn paint(&mut self) -> vello_common::paint::Paint {
        match &self.brush {
            Brush::Color(color) => vello_common::paint::Paint::from(*color),
            Brush::Gradient(gradient) => {
                gradient.encode_into(&mut self.encoded_paints, Affine::IDENTITY, None)
            }
        }
    }

    fn push_layer(&mut self, props: LayerProps, filter: Option<FilterData>) {
        self.open.push(self.recorder.layers.len() as u32);
        self.recorder.push_layer(props, filter);
    }

    fn push_filter_layer(&mut self, filter: Filter) {
        self.push_layer(props(1.0), Some(FilterData::new(filter, Affine::IDENTITY)));
    }

    /// The library's scene with the same tables.
    fn into_scene(self) -> Scene {
        assert_eq!(self.recorder.has_layers(), !self.open.is_empty());
        let recorder = self.recorder;
        Scene {
            width: self.width,
            height: self.height,
            strip_storage: self.strip_storage,
            encoded_paints: self.encoded_paints,
            recorder: CommandRecorder {
                nodes: recorder.nodes.iter().map(node).collect(),
                draws: recorder.draws.into_iter().map(draw).collect(),
                layers: recorder.layers.into_iter().map(layer).collect(),
                filter_layers: recorder.filter_layers,
                root_is_blend_target: recorder.root_is_blend_target,
                max_layer_depth: recorder.max_layer_depth,
                largest_layer_size: recorder.largest_layer_size.map(size),
                largest_filter_layer_size: recorder.largest_filter_layer_size.map(size),
                has_non_default_blend: recorder.has_non_default_blend,
                layer_stack: self.open,
            },
        }
    }
}

impl Canvas for Recording {
    fn set_color(&mut self, color: vello_common::color::AlphaColor<vello_common::color::Srgb>) {
        self.brush = Brush::Color(color);
    }

    fn set_gradient(&mut self, gradient: Gradient) {
        self.brush = Brush::Gradient(gradient);
    }

    fn fill_rect(&mut self, rect: &Rect) {
        let paint = self.paint();
        self.recorder
            .push_draw(Draw::Rect(*rect, paint), &self.strip_storage.strips);
    }

    fn fill_path(&mut self, path: &BezPath) {
        let start = self.strip_storage.strips.len();
        coverage(&mut self.generator, path, &mut self.strip_storage);
        let range = start..self.strip_storage.strips.len();
        let paint = self.paint();
        self.recorder
            .push_draw(Draw::Path(range, paint), &self.strip_storage.strips);
    }

    fn push_opacity_layer(&mut self, opacity: f32) {
        self.push_layer(props(opacity), None);
    }

    fn push_clip_layer(&mut self, path: &BezPath) {
        let start = self.strip_storage.strips.len();
        coverage(&mut self.generator, path, &mut self.strip_storage);
        let strip_range = start..self.strip_storage.strips.len();
        let bbox = strip_bbox(&self.strip_storage.strips[strip_range.clone()])
            .unwrap_or(geometry::RectU16::ZERO);
        let mut props = props(1.0);
        props.clip_path = Some(record::LayerClip {
            strip_range,
            thread_idx: 0,
            bbox,
        });
        self.push_layer(props, None);
    }

    fn pop_layer(&mut self) {
        self.open.pop();
        self.recorder.pop_layer();
    }
}

/// Records into the library's scene, with coverage of the strip generator of `vello_common`.
struct Direct {
    scene: Scene,
    generator: StripGenerator,
    brush: Brush,
    /// For each open layer what was drawn into it, and its clip.
    open: Vec<(geometry::RectU16, Option<geometry::RectU16>)>,
}

impl Direct {
    fn new(width: u16, height: u16) -> Self {
        Direct {
            scene: Scene::new(width, height),
            generator: StripGenerator::new(width, height, Level::baseline()),
            brush: Brush::Color(css::BLACK),
            open: Vec::new(),
        }
    }

    fn source(&self) -> PaintSource {
        match &self.brush {
            Brush::Color(color) => match vello_common::paint::Paint::from(*color) {
                vello_common::paint::Paint::Solid(color) => PaintSource::Solid(color),
                other => panic!("{other:?} is not a color"),
            },
            Brush::Gradient(gradient) => {
                let mut paints = Vec::new();
                gradient.encode_into(&mut paints, Affine::IDENTITY, None);
                PaintSource::Encoded(paints.remove(0))
            }
        }
    }

    fn strips(&mut self, path: &BezPath) -> (Vec<Strip>, Vec<u8>, geometry::RectU16) {
        let mut storage = StripStorage::new(GenerationMode::Append);
        coverage(&mut self.generator, path, &mut storage);
        let bbox = strip_bbox(&storage.strips).unwrap_or(geometry::RectU16::ZERO);
        (storage.strips.iter().map(strip).collect(), storage.alphas, bbox)
    }

    fn cover(&mut self, bbox: geometry::RectU16) {
        if let Some((covered, _)) = self.open.last_mut() {
            if !bbox.is_empty() {
                covered.union(bbox);
            }
        }
    }
}

impl Canvas for Direct {
    fn set_color(&mut self, color: vello_common::color::AlphaColor<vello_common::color::Srgb>) {
        self.brush = Brush::Color(color);
    }

    fn set_gradient(&mut self, gradient: Gradient) {
        self.brush = Brush::Gradient(gradient);
    }

    fn fill_rect(&mut self, rect: &Rect) {
        let source = self.source();
        self.scene.fill_rect(*rect, Vec::new(), source);
        self.cover(rect_bbox(rect));
    }

    fn fill_path(&mut self, path: &BezPath) {
        let (strips, alphas, bbox) = self.strips(path);
        let source = self.source();
        self.scene.fill_path(&strips, &alphas, source);
        self.cover(bbox);
    }

    fn push_opacity_layer(&mut self, opacity: f32) {
        self.scene.push_layer(props(opacity), false, None);
        self.open.push((geometry::RectU16::INVERTED, None));
    }

    fn push_clip_layer(&mut self, path: &BezPath) {
        let (strips, alphas, bbox) = self.strips(path);
        let clip = ClipPath {
            strips,
            alphas,
            bbox: rect(bbox),
        };
        self.scene.push_layer(props(1.0), false, Some(clip));
        self.open.push((geometry::RectU16::INVERTED, Some(bbox)));
    }

    fn pop_layer(&mut self) {
        let (covered, clip) = self.open.pop().expect("a layer is open");
        let mut bbox = if covered.is_empty() {
            geometry::RectU16::ZERO
        } else {
            covered
        };
        if let Some(clip) = clip {
            bbox = bbox.intersect(clip);
        }
        self.scene.pop_layer(rect(bbox));
        self.cover(bbox);
    }
}

fn strip(strip: &vello_common::strip::Strip) -> Strip {
    Strip {
        x: strip.x,
        y: strip.y,
        alpha_idx: strip.alpha_idx(),
        fill_gap: strip.fill_gap(),
    }
}

fn rect(rect: geometry::RectU16) -> RectU16 {
    RectU16 {
        x0: rect.x0,
        y0: rect.y0,
        x1: rect.x1,
        y1: rect.y1,
    }
}

fn size(size: geometry::SizeU16) -> SizeU16 {
    SizeU16 {
        width: size.width(),
        height: size.height(),
    }
}

fn node(node: &record::Node) -> Node {
    Node {
        draws: node.draws.clone(),
        layer: node.layer,
    }
}

fn paint(paint: vello_common::paint::Paint) -> Paint {
    match paint {
        vello_common::paint::Paint::Solid(color) => Paint::Solid(color),
        vello_common::paint::Paint::Indexed(indexed) => Paint::Indexed(indexed.index() as u32),
    }
}

fn draw(draw: Draw) -> RecordedDraw {
    match draw {
        Draw::Path(strips, color) => RecordedDraw::Path(RecordedPath {
            strips,
            paint: paint(color),
        }),
        Draw::Rect(rect, color) => RecordedDraw::Rect(RecordedRect {
            rect,
            moves: Vec::new(),
            paint: paint(color),
        }),
    }
}

fn layer(mut layer: record::RecordedLayer) -> RecordedLayer {
    let clip_path = layer.props.clip_path.take().map(|clip| LayerClip {
        strip_range: clip.strip_range,
        thread_idx: clip.thread_idx,
        bbox: rect(clip.bbox),
    });
    RecordedLayer {
        props: layer.props,
        clip_path,
        nodes: layer.nodes.iter().map(node).collect(),
        kind: match layer.kind {
            record::RecordedLayerKind::Regular => LayerKind::Regular,
            record::RecordedLayerKind::Filter {
                filter_data,
                placement,
            } => LayerKind::Filter {
                filter_data,
                placement,
            },
        },
        depth: layer.depth,
        bbox: rect(layer.bbox),
    }
}

fn tri(offset: Vec2) -> BezPath {
    let mut p = BezPath::new();
    p.move_to(Point::new(10.0, 40.0) + offset);
    p.line_to(Point::new(40.0, 10.0) + offset);
    p.curve_to(
        Point::new(50.0, 30.0) + offset,
        Point::new(45.0, 38.0) + offset,
        Point::new(12.0, 41.0) + offset,
    );
    p.close_path();
    p
}

fn gradient() -> Gradient {
    Gradient::new_linear(Point::new(0.0, 0.0), Point::new(64.0, 0.0)).with_stops(ColorStops(
        [
            ColorStop::from((0.0, css::RED)),
            ColorStop::from((1.0, css::BLUE)),
        ]
        .into_iter()
        .collect(),
    ))
}

/// Content block A: a solid rect and a filled path.
fn record_a(scene: &mut impl Canvas) {
    scene.set_color(css::DARK_SLATE_GRAY);
    scene.fill_rect(&Rect::new(4.0, 4.0, 60.0, 24.0));
    scene.set_color(css::GOLDENROD);
    scene.fill_path(&tri(Vec2::ZERO));
}

/// Content block B, at `offset`: a gradient rect (exercises the encoded-paint index remap), an
/// opacity layer, and a clip layer (exercises layers, nodes, and clip strip ranges).
fn record_b(scene: &mut impl Canvas, offset: Vec2) {
    scene.set_gradient(gradient());
    scene.fill_rect(&(Rect::new(20.0, 50.0, 84.0, 70.0) + offset));

    scene.push_opacity_layer(0.5);
    scene.set_color(css::CRIMSON);
    scene.fill_rect(&(Rect::new(30.0, 60.0, 90.0, 92.0) + offset));
    scene.pop_layer();

    scene.push_clip_layer(&(Affine::translate(offset) * tri(Vec2::new(40.0, 55.0))));
    scene.set_color(css::SEA_GREEN);
    scene.fill_rect(&(Rect::new(40.0, 55.0, 100.0, 110.0) + offset));
    scene.pop_layer();
}

/// Content block B without layers, for the translated comparison.
fn record_b_flat(scene: &mut impl Canvas, offset: Vec2) {
    scene.set_gradient(gradient());
    scene.fill_rect(&(Rect::new(20.0, 50.0, 84.0, 70.0) + offset));
    scene.set_color(css::CRIMSON);
    scene.fill_path(&(Affine::translate(offset) * tri(Vec2::new(30.0, 52.0))));
}

/// The draws, with each rectangle where it is drawn.
fn resolved_draws(scene: &Scene) -> String {
    let mut text = String::new();
    for draw in &scene.recorder.draws {
        text += &match draw {
            RecordedDraw::Path(path) => format!("{path:?};"),
            RecordedDraw::Rect(rect) => {
                let moved = rect.moves.iter().fold(rect.rect, |corners, (dx, dy)| {
                    corners + Vec2::new(f64::from(*dx), f64::from(*dy))
                });
                format!("{moved:?} {:?};", rect.paint)
            }
        };
    }
    text
}

fn recorder_fingerprint(scene: &Scene) -> (String, String, String, usize) {
    (
        resolved_draws(scene),
        format!("{:?}", scene.recorder.nodes),
        format!("{:?}", scene.recorder.layers),
        scene.encoded_paints.len(),
    )
}

/// What a scene says about itself beside its tables.
fn summary(scene: &Scene) -> String {
    let recorder = &scene.recorder;
    format!(
        "{:?}",
        (
            &recorder.filter_layers,
            recorder.root_is_blend_target,
            recorder.max_layer_depth,
            recorder.largest_layer_size,
            recorder.largest_filter_layer_size,
            recorder.has_non_default_blend,
            &recorder.layer_stack,
        )
    )
}

fn storages_equal(a: &Scene, b: &Scene) -> bool {
    a.strip_storage == b.strip_storage
}

fn recording(record: impl Fn(&mut Recording)) -> Scene {
    let mut recording = Recording::new(W, H);
    record(&mut recording);
    recording.into_scene()
}

fn direct(record: impl Fn(&mut Direct)) -> Scene {
    let mut direct = Direct::new(W, H);
    record(&mut direct);
    direct.scene
}

/// `record A; record B` in one scene must equal `record A` + `append(record B)` across every
/// retained table: strips, alphas, draws, nodes, layers, and paint indices.
#[test]
fn append_in_place_matches_direct_recording() {
    let reference = recording(|scene| {
        record_a(scene);
        record_b(scene, Vec2::ZERO);
    });

    let mut target = recording(|scene| record_a(scene));
    let donor = recording(|scene| record_b(scene, Vec2::ZERO));
    target.append_scene(donor, None).expect("append succeeds");

    assert!(
        storages_equal(&reference, &target),
        "strip and alpha storage must match the direct recording byte for byte"
    );
    assert_eq!(
        recorder_fingerprint(&reference),
        recorder_fingerprint(&target),
        "draws, nodes, layers, and paint count must match the direct recording"
    );
    assert_eq!(summary(&reference), summary(&target));
}

/// Appending with an integer translation must equal recording the same geometry pre-translated:
/// strip generation commutes with integer translation.
#[test]
fn append_translated_matches_pretranslated_recording() {
    let offset = Vec2::new(4.0, 8.0);

    let reference = recording(|scene| {
        record_a(scene);
        record_b_flat(scene, offset);
    });

    let mut target = recording(|scene| record_a(scene));
    let donor = recording(|scene| record_b_flat(scene, Vec2::ZERO));
    target
        .append_scene(donor, Some((4, 8)))
        .expect("append succeeds");

    {
        let r = &reference.strip_storage;
        let t = &target.strip_storage;
        if *r != *t {
            let mut diag = format!(
                "strips: ref {} vs got {}; alphas: ref {} vs got {}",
                r.strips.len(),
                t.strips.len(),
                r.alphas.len(),
                t.alphas.len()
            );
            for (i, (a, b)) in r.strips.iter().zip(t.strips.iter()).enumerate() {
                if a != b {
                    diag += &format!("; first differing strip [{i}]: ref {a:?} vs got {b:?}");
                    break;
                }
            }
            for (i, (a, b)) in r.alphas.iter().zip(t.alphas.iter()).enumerate() {
                if a != b {
                    diag += &format!("; first differing alpha [{i}]: ref {a} vs got {b}");
                    break;
                }
            }
            panic!("integer-translated strips must match pre-translated recording: {diag}");
        }
    }
    assert_eq!(
        recorder_fingerprint(&reference),
        recorder_fingerprint(&target),
        "translated draws must match the pre-translated recording"
    );
}

/// Repeated appends of the same content at different offsets: the tile-cache shape. Each append
/// lands after the previous in painter order.
#[test]
fn repeated_appends_accumulate_in_painter_order() {
    let reference = recording(|scene| {
        record_b_flat(scene, Vec2::ZERO);
        record_b_flat(scene, Vec2::new(4.0, 4.0));
        record_b_flat(scene, Vec2::new(8.0, 8.0));
    });

    let mut target = recording(|scene| record_b_flat(scene, Vec2::ZERO));
    for (dx, dy) in [(4, 4), (8, 8)] {
        let donor = recording(|scene| record_b_flat(scene, Vec2::ZERO));
        target
            .append_scene(donor, Some((dx, dy)))
            .expect("append succeeds");
    }

    assert!(storages_equal(&reference, &target));
    assert_eq!(
        recorder_fingerprint(&reference),
        recorder_fingerprint(&target)
    );
}

#[test]
fn rejections_leave_the_target_untouched() {
    let mut target = recording(|scene| record_a(scene));
    let before_strips = target.strip_storage.strips.len();
    let before = recorder_fingerprint(&target);
    let before_summary = summary(&target);

    // Unaligned y translation.
    let donor = recording(|scene| record_b_flat(scene, Vec2::ZERO));
    assert_eq!(
        target.append_scene(donor, Some((0, 3))),
        Err(AppendSceneError::UnalignedTranslation)
    );

    // Viewport mismatch.
    let mut small = Recording::new(64, 64);
    record_b_flat(&mut small, Vec2::ZERO);
    assert_eq!(
        target.append_scene(small.into_scene(), None),
        Err(AppendSceneError::ViewportMismatch)
    );

    // Open layer on the donor.
    let open = recording(|scene| scene.push_opacity_layer(0.5));
    assert_eq!(
        target.append_scene(open, None),
        Err(AppendSceneError::OpenLayers)
    );

    // Filter layer on the donor.
    let filtered = recording(|scene| {
        scene.push_filter_layer(Filter::from_primitive(FilterPrimitive::GaussianBlur {
            std_deviation: 0.5,
            edge_mode: EdgeMode::None,
        }));
        scene.set_color(css::CRIMSON);
        scene.fill_rect(&Rect::new(10.0, 10.0, 30.0, 30.0));
        scene.pop_layer();
    });
    assert_eq!(
        target.append_scene(filtered, None),
        Err(AppendSceneError::UnsupportedFilterLayers)
    );

    assert_eq!(target.strip_storage.strips.len(), before_strips);
    assert_eq!(recorder_fingerprint(&target), before);
    assert_eq!(summary(&target), before_summary);
}

/// The library records every table as the recorder of `vello_common` does.
#[test]
fn direct_recording_matches_the_outside_recorder() {
    let outside = recording(|scene| {
        record_a(scene);
        record_b(scene, Vec2::ZERO);
        record_b(scene, Vec2::new(8.0, 4.0));
    });
    let library = direct(|scene| {
        record_a(scene);
        record_b(scene, Vec2::ZERO);
        record_b(scene, Vec2::new(8.0, 4.0));
    });
    assert!(storages_equal(&outside, &library));
    assert_eq!(
        recorder_fingerprint(&outside),
        recorder_fingerprint(&library)
    );
    assert_eq!(summary(&outside), summary(&library));
}

/// Layers in layers, with draws before, between and after them.
fn record_nested(scene: &mut impl Canvas) {
    scene.push_opacity_layer(0.25);
    scene.set_color(css::CRIMSON);
    scene.fill_path(&tri(Vec2::new(3.0, 1.0)));
    scene.push_clip_layer(&tri(Vec2::new(10.0, 10.0)));
    scene.push_opacity_layer(0.75);
    scene.set_gradient(gradient());
    scene.fill_path(&tri(Vec2::new(12.0, 9.0)));
    scene.fill_rect(&Rect::new(1.0, 2.0, 30.0, 40.0));
    scene.pop_layer();
    scene.pop_layer();
    scene.set_color(css::GOLDENROD);
    scene.fill_rect(&Rect::new(8.0, 8.0, 16.0, 16.0));
    scene.pop_layer();
    scene.fill_rect(&Rect::new(60.0, 60.0, 70.0, 70.0));
    scene.push_opacity_layer(0.1);
    scene.pop_layer();
}

#[test]
fn nested_layers_are_recorded_and_appended_alike() {
    let outside = recording(|scene| record_nested(scene));
    let library = direct(|scene| record_nested(scene));
    assert!(storages_equal(&outside, &library));
    assert_eq!(
        recorder_fingerprint(&outside),
        recorder_fingerprint(&library)
    );
    assert_eq!(summary(&outside), summary(&library));

    let reference = recording(|scene| {
        record_b(scene, Vec2::ZERO);
        record_nested(scene);
        record_a(scene);
        record_nested(scene);
    });
    let mut target = direct(|scene| record_b(scene, Vec2::ZERO));
    for donor in [
        recording(|scene| record_nested(scene)),
        recording(|scene| record_a(scene)),
        direct(|scene| record_nested(scene)),
    ] {
        target.append_scene(donor, None).expect("append succeeds");
    }
    assert!(storages_equal(&reference, &target));
    assert_eq!(
        recorder_fingerprint(&reference),
        recorder_fingerprint(&target)
    );
    assert_eq!(summary(&reference), summary(&target));
}

/// A target with filter layers takes a donor without them.
#[test]
fn a_filtered_target_takes_a_plain_donor() {
    let record_filtered = |scene: &mut Recording| {
        scene.push_filter_layer(Filter::from_primitive(FilterPrimitive::GaussianBlur {
            std_deviation: 0.5,
            edge_mode: EdgeMode::None,
        }));
        scene.set_color(css::CRIMSON);
        scene.fill_rect(&Rect::new(10.0, 10.0, 30.0, 30.0));
        scene.pop_layer();
    };
    let reference = recording(|scene| {
        record_filtered(scene);
        record_b(scene, Vec2::ZERO);
    });
    let mut target = recording(record_filtered);
    let donor = recording(|scene| record_b(scene, Vec2::ZERO));
    target.append_scene(donor, None).expect("append succeeds");
    assert!(storages_equal(&reference, &target));
    assert_eq!(
        recorder_fingerprint(&reference),
        recorder_fingerprint(&target)
    );
    assert_eq!(summary(&reference), summary(&target));
}

/// Layers that hold something, moved by whole tiles, come out as if recorded there.
#[test]
fn translated_layers_match_pretranslated_recording() {
    let reference = recording(|scene| {
        record_a(scene);
        record_b(scene, Vec2::new(8.0, 12.0));
    });
    let mut target = recording(|scene| record_a(scene));
    let donor = recording(|scene| record_b(scene, Vec2::ZERO));
    target
        .append_scene(donor, Some((8, 12)))
        .expect("append succeeds");
    assert!(storages_equal(&reference, &target));
    assert_eq!(
        recorder_fingerprint(&reference),
        recorder_fingerprint(&target)
    );
    assert_eq!(summary(&reference), summary(&target));
}

/// Composing a composed scene is composing its parts, the inner one by both translations.
#[test]
fn composed_scenes_compose() {
    let part = || recording(|scene| record_b_flat(scene, Vec2::ZERO));
    let mut inner = recording(|scene| record_a(scene));
    inner.append_scene(part(), Some((4, 8))).expect("append succeeds");
    let mut nested = recording(|scene| record_a(scene));
    nested.append_scene(inner, Some((12, 4))).expect("append succeeds");

    let mut flat = recording(|scene| record_a(scene));
    flat.append_scene(recording(|scene| record_a(scene)), Some((12, 4)))
        .expect("append succeeds");
    flat.append_scene(part(), Some((16, 12))).expect("append succeeds");
    assert!(storages_equal(&nested, &flat));
    assert_eq!(recorder_fingerprint(&nested), recorder_fingerprint(&flat));
}

fn assert_nodes_valid(nodes: &[Node], draws: usize, layers: usize) {
    for (i, node) in nodes.iter().enumerate() {
        assert!(node.draws.start <= node.draws.end);
        assert!(node.draws.end as usize <= draws);
        match node.layer {
            Some(layer) => assert!((layer as usize) < layers),
            None => assert_eq!(i + 1, nodes.len()),
        }
    }
}

/// Everything points into its table, and the root batches all draws that no layer holds.
fn assert_well_formed(scene: &Scene) {
    let recorder = &scene.recorder;
    let draws = recorder.draws.len();
    let layers = recorder.layers.len();
    let strips = scene.strip_storage.strips.len();
    assert_nodes_valid(&recorder.nodes, draws, layers);
    assert_eq!(recorder.nodes.first().map_or(0, |node| node.draws.start), 0);
    if let Some(last) = recorder.nodes.last() {
        assert!(last.layer.is_some() || last.draws.end as usize == draws);
    }
    for strip in &scene.strip_storage.strips {
        assert!(strip.alpha_idx() as usize <= scene.strip_storage.alphas.len());
    }
    for draw in &recorder.draws {
        let paint = match draw {
            RecordedDraw::Path(path) => {
                assert!(path.strips.start <= path.strips.end && path.strips.end <= strips);
                &path.paint
            }
            RecordedDraw::Rect(rect) => &rect.paint,
        };
        if let Paint::Indexed(index) = paint {
            assert!((*index as usize) < scene.encoded_paints.len());
        }
    }
    for layer in &recorder.layers {
        assert_nodes_valid(&layer.nodes, draws, layers);
        if let Some(clip) = &layer.clip_path {
            assert!(clip.strip_range.start <= clip.strip_range.end);
            assert!(clip.strip_range.end <= strips);
        }
    }
}

#[test]
fn scenes_stay_well_formed() {
    let mut target = direct(|scene| record_nested(scene));
    assert_well_formed(&target);
    for (i, donor) in [
        recording(|scene| record_a(scene)),
        direct(|scene| record_b(scene, Vec2::ZERO)),
        recording(|scene| record_nested(scene)),
        recording(|_| {}),
        direct(|scene| record_a(scene)),
    ]
    .into_iter()
    .enumerate()
    {
        assert_well_formed(&donor);
        let step = 4 * i as u16;
        target
            .append_scene(donor, Some((step, step)))
            .expect("append succeeds");
        assert_well_formed(&target);
    }
}

/// What the donor's draws point to is found again behind the target's tables.
#[test]
fn moved_indices_find_the_same() {
    let donor = || recording(|scene| record_b(scene, Vec2::ZERO));
    let unmoved = donor();
    let mut target = recording(|scene| record_a(scene));
    let draws = target.recorder.draws.len();
    target
        .append_scene(donor(), Some((8, 4)))
        .expect("append succeeds");
    for (before, after) in unmoved
        .recorder
        .draws
        .iter()
        .zip(&target.recorder.draws[draws..])
    {
        let paints = match (before, after) {
            (RecordedDraw::Path(before), RecordedDraw::Path(after)) => {
                assert_eq!(before.strips.len(), after.strips.len());
                (&before.paint, &after.paint)
            }
            (RecordedDraw::Rect(before), RecordedDraw::Rect(after)) => {
                assert_eq!(before.rect, after.rect);
                assert_eq!(after.moves, vec![(8, 4)]);
                (&before.paint, &after.paint)
            }
            _ => panic!("a draw changed its kind"),
        };
        match paints {
            (Paint::Indexed(before), Paint::Indexed(after)) => assert_eq!(
                format!("{:?}", unmoved.encoded_paints[*before as usize]),
                format!("{:?}", target.encoded_paints[*after as usize])
            ),
            (before, after) => assert_eq!(format!("{before:?}"), format!("{after:?}")),
        }
    }
    let clip = |scene: &Scene, id: usize| {
        scene.recorder.layers[id]
            .clip_path
            .as_ref()
            .expect("the layer is clipped")
            .strip_range
            .clone()
    };
    let before = &unmoved.strip_storage.strips[clip(&unmoved, 1)];
    let after = &target.strip_storage.strips[clip(&target, 1)];
    assert_eq!(before.len(), after.len());
    for (before, after) in before.iter().zip(after) {
        assert_eq!(after.y, before.y + 4);
        assert_eq!(after.is_sentinel(), before.is_sentinel());
        assert_eq!(
            unmoved.strip_storage.alphas[before.alpha_idx() as usize..],
            target.strip_storage.alphas[after.alpha_idx() as usize..]
        );
    }
}

/// A layer in which nothing is drawn, and which has no clip path, is recorded with zero bounds
/// wherever it lies; an append moves them, as it moves all bounds.
#[test]
fn empty_bounds_move_with_an_append() {
    let empty = |scene: &mut Recording| {
        scene.push_opacity_layer(0.5);
        scene.pop_layer();
    };
    let zero = RectU16 {
        x0: 0,
        y0: 0,
        x1: 0,
        y1: 0,
    };
    let reference = recording(|scene| {
        record_a(scene);
        empty(scene);
    });
    let last = reference.recorder.layers.len() - 1;
    assert_eq!(reference.recorder.layers[last].bbox, zero);

    let mut in_place = recording(|scene| record_a(scene));
    in_place
        .append_scene(recording(empty), None)
        .expect("append succeeds");
    assert_eq!(
        recorder_fingerprint(&reference),
        recorder_fingerprint(&in_place)
    );

    let mut moved = recording(|scene| record_a(scene));
    moved
        .append_scene(recording(empty), Some((4, 8)))
        .expect("append succeeds");
    assert_eq!(
        moved.recorder.layers[last].bbox,
        RectU16 {
            x0: 4,
            y0: 8,
            x1: 4,
            y1: 8
        }
    );
    moved.recorder.layers[last].bbox = zero;
    assert_eq!(
        recorder_fingerprint(&reference),
        recorder_fingerprint(&moved)
    );
    assert_eq!(summary(&reference), summary(&moved));
}

/// Content beside the clip path of its layer leaves bounds without a width, which an append
/// collapses onto a corner.
#[test]
fn bounds_beside_a_clip_collapse() {
    let beside = |scene: &mut Recording| {
        scene.push_clip_layer(&tri(Vec2::ZERO));
        scene.fill_rect(&Rect::new(80.0, 12.0, 100.0, 24.0));
        scene.pop_layer();
    };
    let reference = recording(beside);
    let line = RectU16 {
        x0: 80,
        y0: 12,
        x1: 80,
        y1: 24,
    };
    assert_eq!(reference.recorder.layers[0].bbox, line);

    let mut target = recording(|_| {});
    target
        .append_scene(recording(beside), None)
        .expect("append succeeds");
    assert_eq!(
        target.recorder.layers[0].bbox,
        RectU16 { y1: 12, ..line }
    );
    target.recorder.layers[0].bbox = line;
    assert_eq!(
        recorder_fingerprint(&reference),
        recorder_fingerprint(&target)
    );
    assert_eq!(summary(&reference), summary(&target));
}
