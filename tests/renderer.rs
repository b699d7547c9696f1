use voxel_engine::clock::AnimationClock;
use voxel_engine::error::RenderError;
use voxel_engine::frame::{
    resolve_draw, Action, CullMode, DepthTest, DrawItem, DrawState, FrameCommand, FrameLoop,
    Phase, PresentResult, WindowEvent,
};
use voxel_engine::geometry::GeometryStore;
use voxel_engine::pipeline::{BufferHandle, ProgramCache, ProgramHandle};
use voxel_engine::transform::{perspective, view, Vec3, WideVec3};

fn v(x: i16, y: i16, z: i16) -> Vec3 {
    Vec3 { x, y, z }
}

fn w(x: i128, y: i128, z: i128) -> WideVec3 {
    WideVec3 { x, y, z }
}

fn depth_state() -> DrawState {
    DrawState { depth_test: DepthTest::Enabled, depth_write: true, cull: CullMode::Off }
}

#[test]
fn view_rejects_direction_equal_to_up() {
    let r = view(v(0, 0, 0), v(0, 1, 0), v(0, 1, 0));
    assert!(matches!(r, Err(RenderError::DegenerateBasis)));
}

#[test]
fn view_rejects_parallel_pairs() {
    assert!(matches!(view(v(1, 2, 3), v(2, 4, 6), v(-1, -2, -3)), Err(RenderError::DegenerateBasis)));
    assert!(matches!(view(v(1, 2, 3), v(0, 0, 0), v(0, 1, 0)), Err(RenderError::DegenerateBasis)));
    assert!(matches!(view(v(1, 2, 3), v(0, 0, 5), v(0, 0, 0)), Err(RenderError::DegenerateBasis)));
}

#[test]
fn view_of_demo_camera_is_exact_and_orthogonal() {
    let b = view(v(2, -1, 1), v(-2, 1, 1), v(0, 1, 0)).unwrap();
    assert_eq!(b.forward, w(-2, 1, 1));
    assert_eq!(b.right, w(1, 0, 2));
    assert_eq!(b.up, w(2, 5, -1));
    assert_eq!(b.translation, w(-4, 2, 4));
    let dot = |a: WideVec3, c: WideVec3| a.x * c.x + a.y * c.y + a.z * c.z;
    assert_eq!(dot(b.right, b.up), 0);
    assert_eq!(dot(b.right, b.forward), 0);
    assert_eq!(dot(b.up, b.forward), 0);
}

#[test]
fn view_at_extreme_components_does_not_overflow() {
    let b = view(v(i16::MIN, i16::MAX, i16::MIN), v(i16::MIN, i16::MIN, i16::MAX), v(i16::MAX, i16::MIN, 1)).unwrap();
    assert_eq!(b.forward, w(-32768, -32768, 32767));
    let dot = |a: WideVec3, c: WideVec3| a.x * c.x + a.y * c.y + a.z * c.z;
    assert_eq!(dot(b.up, b.forward), 0);
    assert_eq!(dot(b.right, b.up), 0);
}

#[test]
fn perspective_maps_near_and_far_to_unit_depth() {
    let p = perspective(800, 600, 1, 10240).unwrap();
    let (scale, offset, div) = p.depth_terms();
    assert_eq!((scale, offset, div), (10241, -20480, 10239));
    // device depth of z is (scale·z + offset) / (div·z)
    let near = 1i128;
    let far = 10240i128;
    assert_eq!(scale * near + offset, -(div * near));
    assert_eq!(scale * far + offset, div * far);
    let mid = 5000i128;
    let num = scale * mid + offset;
    assert!(-(div * mid) < num && num < div * mid);
}

#[test]
fn perspective_rejects_bad_inputs() {
    assert!(matches!(perspective(0, 600, 1, 100), Err(RenderError::InvalidDimensions)));
    assert!(matches!(perspective(800, 0, 1, 100), Err(RenderError::InvalidDimensions)));
    assert!(matches!(perspective(0, 0, 0, 0), Err(RenderError::InvalidDimensions)));
    assert!(matches!(perspective(800, 600, 0, 100), Err(RenderError::InvalidDepthRange)));
    assert!(matches!(perspective(800, 600, 100, 100), Err(RenderError::InvalidDepthRange)));
    assert!(matches!(perspective(800, 600, 100, 99), Err(RenderError::InvalidDepthRange)));
}

#[test]
fn clock_after_ten_thousand_ticks_is_exact() {
    let mut c = AnimationClock::new(2);
    for _ in 0..10_000 {
        c.advance();
    }
    assert_eq!(c.ticks(), 10_000);
    assert_eq!(c.time(), 20_000);
    let seconds = c.time() as f64 / 100.0;
    assert!((seconds - 10_000.0 * 0.02).abs() < 1e-5);
}

#[test]
fn clock_starts_at_zero() {
    let c = AnimationClock::new(7);
    assert_eq!((c.ticks(), c.step(), c.time()), (0, 7, 0));
}

#[test]
fn compile_twice_returns_cached_handle() {
    let mut cache: ProgramCache<u32> = ProgramCache::new();
    let vs = String::from("void main() {}");
    let fs = String::from("out vec4 c; void main() { c = vec4(1.0); }");
    let mut backend_calls = 0;
    for _ in 0..2 {
        if cache.lookup(&vs, &fs).is_none() {
            backend_calls += 1;
            let h = cache.compile(vs.clone(), fs.clone(), Ok(41)).unwrap();
            assert_eq!(h, ProgramHandle(0));
        }
    }
    assert_eq!(backend_calls, 1);
    assert_eq!(cache.len(), 1);
    let again = cache.compile(vs.clone(), fs.clone(), Ok(99)).unwrap();
    assert_eq!(again, ProgramHandle(0));
    assert_eq!(cache.len(), 1);
    assert_eq!(*cache.get(again).unwrap(), 41);
    let other = cache.compile(vs.clone(), String::from("void main() {}"), Ok(7)).unwrap();
    assert_eq!(other, ProgramHandle(1));
    assert_eq!(cache.lookup(&vs, &fs), Some(ProgramHandle(0)));
}

#[test]
fn compile_failure_surfaces_diagnostic() {
    let mut cache: ProgramCache<u32> = ProgramCache::new();
    let r = cache.compile(String::from("bad"), String::from("src"), Err(String::from("0:1 syntax error")));
    match r {
        Err(RenderError::ShaderCompile(d)) => assert_eq!(d, "0:1 syntax error"),
        other => panic!("unexpected {:?}", other),
    }
    assert_eq!(cache.len(), 0);
    assert_eq!(cache.lookup(&String::from("bad"), &String::from("src")), None);
    assert!(matches!(cache.get(ProgramHandle(0)), Err(RenderError::HandleInvalid)));
}

#[test]
fn geometry_upload_is_idempotent_and_dispose_invalidates() {
    let mut store: GeometryStore<&str> = GeometryStore::new();
    let a = store.upload(10, "left");
    let b = store.upload(11, "right");
    assert_eq!((a, b), (BufferHandle(0), BufferHandle(1)));
    assert_eq!(store.upload(10, "other"), a);
    assert_eq!(*store.bind(a).unwrap(), "left");
    assert_eq!(store.find(11), Some(b));
    assert!(store.dispose(a).is_ok());
    assert!(matches!(store.bind(a), Err(RenderError::HandleInvalid)));
    assert!(matches!(store.dispose(a), Err(RenderError::HandleInvalid)));
    assert_eq!(store.find(10), None);
    let c = store.upload(10, "again");
    assert_eq!(c, BufferHandle(2));
    assert!(matches!(store.bind(a), Err(RenderError::HandleInvalid)));
    assert!(matches!(store.bind(BufferHandle(9)), Err(RenderError::HandleInvalid)));
    assert_eq!(*store.bind(c).unwrap(), "again");
}

fn square_loop() -> (FrameLoop, DrawItem, DrawItem) {
    let mut fl = FrameLoop::new(800, 600, 2);
    let first = DrawItem { geometry: BufferHandle(0), program: ProgramHandle(0), state: depth_state() };
    let second = DrawItem { geometry: BufferHandle(1), program: ProgramHandle(0), state: depth_state() };
    fl.register(first);
    fl.register(second);
    fl.start();
    (fl, first, second)
}

#[test]
fn unit_square_frame_clears_then_draws_both_triangles() {
    let (mut fl, first, second) = square_loop();
    match fl.on_event(WindowEvent::RedrawRequested) {
        Action::Render { tick, commands } => {
            assert_eq!(tick, 1);
            assert_eq!(
                commands,
                vec![
                    FrameCommand::Clear { depth: true },
                    FrameCommand::Draw(first),
                    FrameCommand::Draw(second),
                    FrameCommand::Present
                ]
            );
        }
        other => panic!("unexpected {:?}", other),
    }
    assert_eq!(fl.phase(), Phase::InFrame);
    fl.end_frame(PresentResult::Presented);
    assert_eq!(fl.phase(), Phase::Running);
    assert_eq!(fl.counts(), (1, 0));
    assert_eq!(fl.clock().time(), 2);
}

#[test]
fn clear_skips_depth_when_no_draw_tests_depth() {
    let mut fl = FrameLoop::new(10, 10, 1);
    let flat = DrawState { depth_test: DepthTest::Disabled, depth_write: false, cull: CullMode::Back };
    let item = DrawItem { geometry: BufferHandle(0), program: ProgramHandle(0), state: flat };
    fl.register(item);
    assert_eq!(fl.plan(), vec![FrameCommand::Clear { depth: false }, FrameCommand::Draw(item), FrameCommand::Present]);
    let empty = FrameLoop::new(10, 10, 1);
    assert_eq!(empty.plan(), vec![FrameCommand::Clear { depth: false }, FrameCommand::Present]);
}

#[test]
fn zero_sized_target_skips_frames() {
    let (mut fl, _, _) = square_loop();
    assert!(matches!(fl.on_event(WindowEvent::Resized(0, 600)), Action::Resize(0, 600)));
    assert!(matches!(fl.on_event(WindowEvent::RedrawRequested), Action::SkipFrame));
    assert!(matches!(fl.on_event(WindowEvent::Resized(800, 0)), Action::Resize(800, 0)));
    assert!(matches!(fl.on_event(WindowEvent::RedrawRequested), Action::SkipFrame));
    assert_eq!(fl.phase(), Phase::Running);
    assert_eq!(fl.clock().ticks(), 0);
    assert_eq!(fl.size(), (800, 0));
    fl.on_event(WindowEvent::Resized(640, 480));
    assert!(matches!(fl.on_event(WindowEvent::RedrawRequested), Action::Render { tick: 1, .. }));
}

#[test]
fn present_failures_and_close() {
    let (mut fl, _, _) = square_loop();
    fl.on_event(WindowEvent::RedrawRequested);
    assert!(matches!(fl.on_event(WindowEvent::RedrawRequested), Action::Nothing));
    fl.end_frame(PresentResult::Failed);
    assert_eq!(fl.counts(), (0, 1));
    assert_eq!(fl.phase(), Phase::Running);
    fl.end_frame(PresentResult::Presented);
    assert_eq!(fl.counts(), (0, 1));
    fl.on_event(WindowEvent::RedrawRequested);
    fl.end_frame(PresentResult::ContextLost);
    assert_eq!(fl.phase(), Phase::Closed);
    assert!(matches!(fl.on_event(WindowEvent::RedrawRequested), Action::Nothing));
    assert_eq!(fl.clock().ticks(), 2);
}

#[test]
fn close_request_stops_the_loop() {
    let mut fl = FrameLoop::new(1, 1, 1);
    assert!(matches!(fl.on_event(WindowEvent::RedrawRequested), Action::Nothing));
    fl.start();
    assert!(matches!(fl.on_event(WindowEvent::CloseRequested), Action::Exit));
    assert_eq!(fl.phase(), Phase::Closed);
    assert!(matches!(fl.on_event(WindowEvent::Resized(5, 5)), Action::Nothing));
    assert_eq!(fl.size(), (1, 1));
    fl.start();
    assert_eq!(fl.phase(), Phase::Closed);
}

#[test]
fn resolve_draw_checks_both_handles() {
    let mut store: GeometryStore<u8> = GeometryStore::new();
    let mut cache: ProgramCache<u8> = ProgramCache::new();
    let g = store.upload(1, 5);
    let p = cache.compile(String::from("v"), String::from("f"), Ok(6)).unwrap();
    let ok = DrawItem { geometry: g, program: p, state: depth_state() };
    let (b, q) = resolve_draw(&ok, &store, &cache).unwrap();
    assert_eq!((*b, *q), (5, 6));
    let bad_program = DrawItem { program: ProgramHandle(3), ..ok };
    assert!(matches!(resolve_draw(&bad_program, &store, &cache), Err(RenderError::HandleInvalid)));
    store.dispose(g).unwrap();
    assert!(matches!(resolve_draw(&ok, &store, &cache), Err(RenderError::HandleInvalid)));
}

#[test]
fn identity_camera_gives_identity_basis() {
    let b = view(v(0, 0, 0), v(0, 0, 1), v(0, 1, 0)).unwrap();
    assert_eq!(b.right, w(1, 0, 0));
    assert_eq!(b.up, w(0, 1, 0));
    assert_eq!(b.forward, w(0, 0, 1));
    assert_eq!(b.translation, w(0, 0, 0));
}
