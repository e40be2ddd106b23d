use dash_viewer::bake::{bake_args, bake_frames, bake_manifest, frame_file_name, BakeArgs};

fn text(v: &[char]) -> String {
    v.iter().collect()
}

fn chars(s: &str) -> Vec<char> {
    s.chars().collect()
}

fn args(a: &[&str]) -> Vec<String> {
    a.iter().map(|s| s.to_string()).collect()
}

#[test]
fn bake_renders_at_least_one_frame() {
    assert_eq!(bake_frames(0), 1);
    assert_eq!(bake_frames(1), 1);
    assert_eq!(bake_frames(24), 24);
    assert_eq!(bake_frames(u32::MAX), u32::MAX);
}

#[test]
fn frame_files_are_zero_padded() {
    assert_eq!(text(&frame_file_name(0)), "frame_0000.png");
    assert_eq!(text(&frame_file_name(7)), "frame_0007.png");
    assert_eq!(text(&frame_file_name(123)), "frame_0123.png");
    assert_eq!(text(&frame_file_name(9999)), "frame_9999.png");
    assert_eq!(text(&frame_file_name(12345)), "frame_12345.png");
    assert_eq!(text(&frame_file_name(u32::MAX)), format!("frame_{:04}.png", u32::MAX));
}

#[test]
fn manifest_is_one_json_line() {
    assert_eq!(
        text(&bake_manifest(8, 1280, 720, 41333)),
        "{\"frames\":8,\"width\":1280,\"height\":720,\"gaussians\":41333}\n"
    );
    assert_eq!(
        text(&bake_manifest(1, 0, 10, u32::MAX)),
        format!("{{\"frames\":1,\"width\":0,\"height\":10,\"gaussians\":{}}}\n", u32::MAX)
    );
}

#[test]
fn bake_args_defaults() {
    assert_eq!(
        bake_args(&args(&[])),
        BakeArgs { model: None, out: chars("web/baked"), frames: 24, orbit: vec![] }
    );
}

#[test]
fn bake_args_separate_and_joined_values() {
    let a = bake_args(&args(&["--model", "/m", "--out", "/o", "--frames", "8", "--orbit", "0.5"]));
    assert_eq!(
        a,
        BakeArgs {
            model: Some(chars("/m")),
            out: chars("/o"),
            frames: 8,
            orbit: vec![chars("0.5")],
        }
    );
    let b = bake_args(&args(&["--model=/m2", "--out=/o2", "--frames=+12", "--orbit=2", "extra"]));
    assert_eq!(
        b,
        BakeArgs {
            model: Some(chars("/m2")),
            out: chars("/o2"),
            frames: 12,
            orbit: vec![chars("2")],
        }
    );
}

#[test]
fn bake_args_bad_frames_keep_previous() {
    let a = bake_args(&args(&["--frames", "10", "--frames", "ten", "--frames=-3", "--frames=4294967296"]));
    assert_eq!(a.frames, 10);
    let b = bake_args(&args(&["--frames=4294967295"]));
    assert_eq!(b.frames, u32::MAX);
}

#[test]
fn bake_args_value_taken_whatever_it_is() {
    let a = bake_args(&args(&["--model", "--out", "x"]));
    assert_eq!(a.model, Some(chars("--out")));
    assert_eq!(a.out, chars("web/baked"));
    let b = bake_args(&args(&["--model=/m", "--model"]));
    assert_eq!(b.model, None);
    let c = bake_args(&args(&["--out", "/o", "--out"]));
    assert_eq!(c.out, chars("/o"));
    let d = bake_args(&args(&["--orbit", "x", "--orbit=1.5", "--orbit"]));
    assert_eq!(d.orbit, vec![chars("x"), chars("1.5")]);
}

#[test]
fn frames_get_distinct_files() {
    let mut seen = std::collections::HashSet::new();
    for i in (0..2000u32).chain([9999, 10000, 99999, 100000, u32::MAX]) {
        assert!(seen.insert(text(&frame_file_name(i))));
    }
    assert_ne!(text(&frame_file_name(12)), text(&frame_file_name(112)));
}
