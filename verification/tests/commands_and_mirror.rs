use canvas::brush::stroke::{StrokeManager, StrokePositionalData};
use canvas::command::{
    handle_pan, handle_zoom, process_canvas_input, CanvasChange, CanvasInput, PointerEvent,
};
use canvas::input::{GestureEvent, InputEvent, InputEventSink, InputSendError, TabletEvent};
use canvas::mirror::{quad, GpuCommand, Mirror, MirrorError, Vertex, QUAD_VERTICES};
use canvas::widget::{locate, CanvasState, WidgetEvent};
use canvas::{Canvas, Point, Rectangle};

fn event(x: i32, y: i32) -> PointerEvent {
    PointerEvent { pos_x: x, pos_y: y, pressure: 1000 }
}

#[test]
fn pointer_event_becomes_a_stroke_sample() {
    let sample = StrokePositionalData::from(PointerEvent { pos_x: 3, pos_y: -4, pressure: 250 });
    assert_eq!(sample, StrokePositionalData { x: 3, y: -4, pressure: 250 });
}

#[test]
fn zoom_command_sets_the_clamped_zoom() {
    let mut canvas = Canvas::new(4, 4);
    let mut manager = StrokeManager::new();
    let before = canvas.pixels().clone();
    let change = process_canvas_input(CanvasInput::ZoomCanvas { zoom: 2000 }, &mut canvas, &mut manager);
    assert_eq!(change, CanvasChange::View);
    assert_eq!(canvas.zoom(), 2000);
    let change = process_canvas_input(CanvasInput::ZoomCanvas { zoom: 90_000 }, &mut canvas, &mut manager);
    assert_eq!(change, CanvasChange::View);
    assert_eq!(canvas.zoom(), 5000);
    assert_eq!(canvas.pixels(), &before);
    assert!(!manager.is_stroking());
}

#[test]
fn pan_command_sets_the_offset() {
    let mut canvas = Canvas::new(4, 4);
    let mut manager = StrokeManager::new();
    let change = process_canvas_input(
        CanvasInput::PanCanvas { offset_x: 12_000, offset_y: -3_000 },
        &mut canvas,
        &mut manager,
    );
    assert_eq!(change, CanvasChange::View);
    assert_eq!(canvas.offset(), Point::new(12_000, -3_000));
}

#[test]
fn zoom_and_pan_handlers() {
    let mut canvas = Canvas::new(4, 4);
    handle_zoom(100, &mut canvas);
    assert_eq!(canvas.zoom(), 300);
    handle_pan(1, 2, &mut canvas);
    assert_eq!(canvas.offset(), Point::new(1, 2));
}

#[test]
fn stroke_commands_drive_the_manager() {
    let mut canvas = Canvas::new(64, 64);
    let mut manager = StrokeManager::new();
    let clean = canvas.pixels().clone();

    let change = process_canvas_input(CanvasInput::ContinueStroke(event(9_000, 9_000)), &mut canvas, &mut manager);
    assert_eq!(change, CanvasChange::Nothing);
    let change = process_canvas_input(CanvasInput::EndStroke(event(9_000, 9_000)), &mut canvas, &mut manager);
    assert_eq!(change, CanvasChange::Nothing);
    assert_eq!(canvas.pixels(), &clean);

    let change = process_canvas_input(CanvasInput::BeginStroke(event(20_000, 20_000)), &mut canvas, &mut manager);
    assert_eq!(change, CanvasChange::Pixels);
    assert!(manager.is_stroking());
    assert_ne!(canvas.pixels(), &clean);

    let after_begin = canvas.pixels().clone();
    let change = process_canvas_input(CanvasInput::ContinueStroke(event(20_500, 20_000)), &mut canvas, &mut manager);
    assert_eq!(change, CanvasChange::Nothing);
    assert_eq!(canvas.pixels(), &after_begin);
    assert_eq!(manager.current_stroke().unwrap().accumulated_distance(), 500);

    let change = process_canvas_input(CanvasInput::ContinueStroke(event(23_500, 20_000)), &mut canvas, &mut manager);
    assert_eq!(change, CanvasChange::Pixels);
    assert_eq!(manager.current_stroke().unwrap().points().len(), 4);
    assert_eq!(manager.current_stroke().unwrap().accumulated_distance(), 500);
    assert_eq!(
        manager.current_stroke().unwrap().last_sample(),
        StrokePositionalData { x: 23_500, y: 20_000, pressure: 1000 }
    );

    let change = process_canvas_input(CanvasInput::EndStroke(event(40_000, 40_000)), &mut canvas, &mut manager);
    assert_eq!(change, CanvasChange::Pixels);
    assert!(!manager.is_stroking());
    let i = (40 * 64 + 40) * 4;
    assert_eq!(&canvas.pixels()[i..i + 4], &[0, 0, 0, 255]);
}

#[test]
fn mirror_before_attach_has_nothing_to_do() {
    let canvas = Canvas::new(8, 4);
    let mut mirror = Mirror::new(800, 600);
    assert!(!mirror.is_attached());
    assert_eq!(mirror.render(), vec![]);
    assert_eq!(mirror.update_view(800, 600), vec![]);
    assert_eq!(mirror.update_pixels(&canvas), Ok(vec![]));
    assert!(!mirror.is_attached());
}

#[test]
fn attach_creates_uploads_and_writes_the_uniform() {
    let canvas = Canvas::new(8, 4);
    let mut mirror = Mirror::new(800, 600);
    assert_eq!(
        mirror.attach(&canvas),
        Ok(vec![
            GpuCommand::CreateTexture { width: 8, height: 4 },
            GpuCommand::UploadPixels { bytes_per_row: 32, rows_per_image: 4 },
            GpuCommand::WriteUniform { viewport_width: 800, viewport_height: 600 },
        ])
    );
    assert!(mirror.is_attached());
    assert_eq!(QUAD_VERTICES, 6);
    assert_eq!(mirror.render(), vec![GpuCommand::Draw { vertices: 6 }]);
}

#[test]
fn update_pixels_uploads_the_whole_buffer() {
    let canvas = Canvas::new(8, 4);
    let mut mirror = Mirror::new(800, 600);
    mirror.attach(&canvas).unwrap();
    assert_eq!(
        mirror.update_pixels(&canvas),
        Ok(vec![GpuCommand::UploadPixels { bytes_per_row: 32, rows_per_image: 4 }])
    );
}

#[test]
fn a_canvas_of_another_size_gets_a_new_texture() {
    let canvas = Canvas::new(8, 4);
    let mut mirror = Mirror::new(800, 600);
    mirror.attach(&canvas).unwrap();
    let other = Canvas::new(4, 8);
    assert_eq!(
        mirror.update_pixels(&other),
        Ok(vec![
            GpuCommand::CreateTexture { width: 4, height: 8 },
            GpuCommand::UploadPixels { bytes_per_row: 16, rows_per_image: 8 },
        ])
    );
    assert_eq!(
        mirror.update_pixels(&other),
        Ok(vec![GpuCommand::UploadPixels { bytes_per_row: 16, rows_per_image: 8 }])
    );
}

#[test]
fn resize_configures_the_surface_only() {
    let canvas = Canvas::new(8, 4);
    let mut mirror = Mirror::new(0, 600);
    assert_eq!(mirror.resize(1024, 0), vec![GpuCommand::ConfigureSurface { width: 1024, height: 1 }]);
    assert!(!mirror.is_attached());
    assert_eq!(
        mirror.attach(&canvas),
        Ok(vec![
            GpuCommand::CreateTexture { width: 8, height: 4 },
            GpuCommand::UploadPixels { bytes_per_row: 32, rows_per_image: 4 },
            GpuCommand::WriteUniform { viewport_width: 1024, viewport_height: 1 },
        ])
    );
    assert_eq!(mirror.resize(640, 480), vec![GpuCommand::ConfigureSurface { width: 640, height: 480 }]);
    assert_eq!(
        mirror.update_pixels(&canvas),
        Ok(vec![GpuCommand::UploadPixels { bytes_per_row: 32, rows_per_image: 4 }])
    );
}

#[test]
fn new_mirror_never_has_an_empty_surface() {
    let canvas = Canvas::new(1, 1);
    let mut mirror = Mirror::new(0, 0);
    assert_eq!(
        mirror.attach(&canvas),
        Ok(vec![
            GpuCommand::CreateTexture { width: 1, height: 1 },
            GpuCommand::UploadPixels { bytes_per_row: 4, rows_per_image: 1 },
            GpuCommand::WriteUniform { viewport_width: 1, viewport_height: 1 },
        ])
    );
}

#[test]
fn update_view_writes_the_uniform() {
    let canvas = Canvas::new(8, 4);
    let mut mirror = Mirror::new(800, 600);
    mirror.attach(&canvas).unwrap();
    assert_eq!(
        mirror.update_view(320, 200),
        vec![GpuCommand::WriteUniform { viewport_width: 320, viewport_height: 200 }]
    );
}

#[test]
fn a_canvas_too_wide_for_a_texture_is_refused() {
    if usize::MAX as u128 > u32::MAX as u128 {
        let wide = Canvas::new(0x4000_0000, 0);
        let mut mirror = Mirror::new(800, 600);
        assert_eq!(mirror.attach(&wide), Err(MirrorError::CanvasTooLarge));
        assert!(!mirror.is_attached());
        let small = Canvas::new(2, 2);
        mirror.attach(&small).unwrap();
        assert_eq!(mirror.update_pixels(&wide), Err(MirrorError::CanvasTooLarge));
        assert_eq!(
            mirror.update_pixels(&small),
            Ok(vec![GpuCommand::UploadPixels { bytes_per_row: 8, rows_per_image: 2 }])
        );
        let widest = Canvas::new(0x3fff_ffff, 0);
        assert_eq!(
            mirror.update_pixels(&widest),
            Ok(vec![
                GpuCommand::CreateTexture { width: 0x3fff_ffff, height: 0 },
                GpuCommand::UploadPixels { bytes_per_row: 0xffff_fffc, rows_per_image: 0 },
            ])
        );
    }
}

#[test]
fn canvas_state_remembers_painting() {
    let mut state = CanvasState::default();
    assert!(!state.is_painting());
    state.set_is_painting(true);
    assert!(state.is_painting());
    state.set_is_painting(false);
    assert!(!state.is_painting());
}

struct Full;

impl InputEventSink for Full {
    fn try_send(&self, _event: InputEvent) -> Result<(), InputSendError> {
        Err(InputSendError::FailedSend)
    }
}

#[test]
fn a_sink_may_refuse_an_event() {
    let sink = Full;
    let event = InputEvent::Gesture(GestureEvent::PanGesture { dx: 1000, dy: -1000 });
    assert_eq!(sink.try_send(event), Err(InputSendError::FailedSend));
    let event = InputEvent::Tablet(TabletEvent::TabletReleased);
    assert_eq!(sink.try_send(event), Err(InputSendError::FailedSend));
}

#[test]
fn change_size_configures_and_rewrites_the_uniform() {
    let canvas = Canvas::new(8, 4);
    let mut mirror = Mirror::new(800, 600);
    assert_eq!(
        mirror.change_size(0, 300),
        vec![GpuCommand::ConfigureSurface { width: 1, height: 300 }]
    );
    mirror.attach(&canvas).unwrap();
    assert_eq!(
        mirror.redraw(&canvas).unwrap()[1],
        GpuCommand::WriteUniform { viewport_width: 1, viewport_height: 300 }
    );
    assert_eq!(
        mirror.change_size(0, 200),
        vec![
            GpuCommand::ConfigureSurface { width: 1, height: 200 },
            GpuCommand::WriteUniform { viewport_width: 1, viewport_height: 200 },
        ]
    );
}

#[test]
fn redraw_syncs_and_draws() {
    let canvas = Canvas::new(8, 4);
    let mut mirror = Mirror::new(800, 600);
    assert_eq!(mirror.redraw(&canvas), Ok(vec![]));
    mirror.attach(&canvas).unwrap();
    assert_eq!(
        mirror.redraw(&canvas),
        Ok(vec![
            GpuCommand::UploadPixels { bytes_per_row: 32, rows_per_image: 4 },
            GpuCommand::WriteUniform { viewport_width: 800, viewport_height: 600 },
            GpuCommand::Draw { vertices: 6 },
        ])
    );
    let other = Canvas::new(2, 3);
    assert_eq!(
        mirror.redraw(&other),
        Ok(vec![
            GpuCommand::CreateTexture { width: 2, height: 3 },
            GpuCommand::UploadPixels { bytes_per_row: 8, rows_per_image: 3 },
            GpuCommand::WriteUniform { viewport_width: 800, viewport_height: 600 },
            GpuCommand::Draw { vertices: 6 },
        ])
    );
}

#[test]
fn quad_covers_the_canvas_with_two_triangles() {
    let top_right = Vertex { x: 500, y: 0, u: 1, v: 0 };
    let top_left = Vertex { x: 0, y: 0, u: 0, v: 0 };
    let bottom_left = Vertex { x: 0, y: 300, u: 0, v: 1 };
    let bottom_right = Vertex { x: 500, y: 300, u: 1, v: 1 };
    assert_eq!(
        quad(500, 300),
        vec![top_right, top_left, bottom_left, top_right, bottom_left, bottom_right]
    );
    assert_eq!(quad(500, 300).len() as u32, QUAD_VERTICES);
}

#[test]
fn locate_finds_the_pixel_under_a_point() {
    let canvas = Canvas::new(4, 3);
    assert_eq!(locate(&canvas, Point::new(1, 1)), Some((0, 0)));
    assert_eq!(locate(&canvas, Point::new(3_999, 2_999)), Some((3, 2)));
    assert_eq!(locate(&canvas, Point::new(1_500, 2_000)), Some((1, 2)));
    assert_eq!(locate(&canvas, Point::new(0, 1_000)), None);
    assert_eq!(locate(&canvas, Point::new(1_000, 0)), None);
    assert_eq!(locate(&canvas, Point::new(-1, 1_000)), None);
    assert_eq!(locate(&canvas, Point::new(4_000, 1_000)), None);
    assert_eq!(locate(&canvas, Point::new(1_000, 3_000)), None);
    assert_eq!(locate(&canvas, Point::new(i32::MAX, i32::MAX)), None);
    assert_eq!(locate(&canvas, Point::new(i32::MIN, i32::MIN)), None);
}

#[test]
fn widget_paints_from_press_to_release() {
    let mut canvas = Canvas::new(4, 3);
    let clean = canvas.pixels().clone();
    let mut state = CanvasState::default();
    let ink = [0u8, 0, 0, 255];
    let at = |canvas: &Canvas, x: usize, y: usize| {
        let i = (y * 4 + x) * 4;
        [canvas.pixels()[i], canvas.pixels()[i + 1], canvas.pixels()[i + 2], canvas.pixels()[i + 3]]
    };

    assert!(!state.update(&mut canvas, WidgetEvent::CursorMoved, Some((1, 1))));
    assert!(!state.update(&mut canvas, WidgetEvent::Other, Some((1, 1))));
    assert_eq!(canvas.pixels(), &clean);
    assert!(!state.is_painting());

    assert!(state.update(&mut canvas, WidgetEvent::ButtonPressed, None));
    assert!(!state.is_painting());
    assert_eq!(canvas.pixels(), &clean);

    assert!(state.update(&mut canvas, WidgetEvent::ButtonPressed, Some((1, 1))));
    assert!(state.is_painting());
    assert_eq!(at(&canvas, 1, 1), ink);

    assert!(state.update(&mut canvas, WidgetEvent::CursorMoved, Some((2, 1))));
    assert_eq!(at(&canvas, 2, 1), ink);
    let painted = canvas.pixels().clone();
    assert!(state.update(&mut canvas, WidgetEvent::CursorMoved, None));
    assert_eq!(canvas.pixels(), &painted);
    assert!(state.is_painting());

    assert!(state.update(&mut canvas, WidgetEvent::ButtonReleased, Some((3, 2))));
    assert!(!state.is_painting());
    assert!(!state.update(&mut canvas, WidgetEvent::CursorMoved, Some((3, 2))));
    assert_eq!(canvas.pixels(), &painted);
    assert_eq!(
        painted.chunks(4).filter(|p| *p == ink).count(),
        2
    );
}

#[test]
fn window_event_places_the_widget() {
    let mut canvas = Canvas::new(4, 3);
    let mut state = CanvasState::default();
    let bounds = Rectangle { x: 10_000, y: 20_000, width: 800_000, height: 500_000 };
    assert!(state.update(&mut canvas, WidgetEvent::Window { bounds }, None));
    assert_eq!(canvas.bounds(), Some(bounds));
    assert!(!state.is_painting());
    assert!(canvas.is_within_bounds(Point::new(10_000, 20_000)));
}
