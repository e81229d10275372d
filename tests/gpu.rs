use raytracer_rust::gpu::{dispatch_size, workgroup_count, GPURenderer};
use raytracer_rust::scene::SceneFile;

#[test]
fn test_gpu_renderer_compiles() {
    let _ = GPURenderer::new();
}

#[test]
fn test_gpu_renderer_stub_fails_correctly() {
    let result = GPURenderer::new();
    assert!(result.is_err());
    let err = result.err().unwrap();
    assert!(err.contains("GPU support not compiled"));
}

#[test]
fn gpu_render_is_refused() {
    let r = GPURenderer.render(&SceneFile::new());
    assert_eq!(r.err(), Some("GPU support not compiled".to_string()));
}

#[test]
fn workgroups_round_up() {
    assert_eq!(workgroup_count(0), 0);
    assert_eq!(workgroup_count(1), 1);
    assert_eq!(workgroup_count(8), 1);
    assert_eq!(workgroup_count(9), 2);
    assert_eq!(workgroup_count(u32::MAX), 536_870_912);
}

#[test]
fn dispatch_covers_the_image() {
    assert_eq!(dispatch_size(200, 200), (25, 25, 1));
    assert_eq!(dispatch_size(201, 7), (26, 1, 1));
    assert_eq!(dispatch_size(800, 600), (100, 75, 1));
}
