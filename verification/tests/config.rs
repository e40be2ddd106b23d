use dash_viewer::dash::ConfigError;
use dash_viewer::{DashSessionConfig, GAUSSIAN3D_STRIDE};

#[test]
fn abi_stride_is_240() {
    assert_eq!(GAUSSIAN3D_STRIDE, 240);
}

#[test]
fn config_new_has_defaults() {
    let c = DashSessionConfig::new(
        "/tmp/model",
        "/tmp/dash",
        "/tmp/dash/sidecar/dash_sidecar.py",
    );
    assert_eq!(c.iteration, -1);
    assert_eq!(c.mask_mode, "ply_dynamic");
    assert_eq!(c.python, "python3");
    assert_eq!(c.expected_stride, GAUSSIAN3D_STRIDE);
}

#[test]
fn config_new_keeps_paths() {
    let c = DashSessionConfig::new("/m", "/r", "/r/s.py");
    assert_eq!(c.model_dir, b"/m".to_vec());
    assert_eq!(c.dash_root, b"/r".to_vec());
    assert_eq!(c.sidecar_script, b"/r/s.py".to_vec());
    let raw = DashSessionConfig::from_path_bytes(b"/m\xff", b"/r", b"/s");
    assert_eq!(raw.model_dir, b"/m\xff".to_vec());
    assert_eq!(raw.python, "python3");
}

#[test]
fn config_from_env_reads_vars() {
    // DASH_ROOT=/tmp, DASH_ITERATION=-2, DASH_MASK_MODE=all
    let c = DashSessionConfig::from_env_values(
        b"/tmp/model",
        Some(b"/tmp".to_vec()),
        None,
        Some(b"/work/sidecar/dash_sidecar.py".to_vec()),
        Some("-2".to_string()),
        Some("all".to_string()),
    )
    .unwrap();
    assert_eq!(c.iteration, -2);
    assert_eq!(c.mask_mode, "all");
    assert_eq!(c.dash_root, b"/tmp".to_vec());
    assert_eq!(c.model_dir, b"/tmp/model".to_vec());
}

#[test]
fn config_from_env_defaults() {
    let c = DashSessionConfig::from_env_values(
        b"/m",
        Some(b"/r".to_vec()),
        None,
        Some(b"/w/sidecar/dash_sidecar.py".to_vec()),
        None,
        None,
    )
    .unwrap();
    assert_eq!(c.python, "python3");
    assert_eq!(c.iteration, -1);
    assert_eq!(c.mask_mode, "ply_dynamic");
    assert_eq!(c.sidecar_script, b"/w/sidecar/dash_sidecar.py".to_vec());
    assert_eq!(c.expected_stride, 240);
}

#[test]
fn config_from_env_python_override() {
    let c = DashSessionConfig::from_env_values(
        b"/m",
        Some(b"/r".to_vec()),
        Some("/venv/bin/python".to_string()),
        Some(b"/s.py".to_vec()),
        Some("+7".to_string()),
        None,
    )
    .unwrap();
    assert_eq!(c.python, "/venv/bin/python");
    assert_eq!(c.iteration, 7);
}

#[test]
fn config_from_env_errors() {
    let missing_root = DashSessionConfig::from_env_values(b"/m", None, None, None, Some("x".into()), None);
    assert!(matches!(missing_root, Err(ConfigError::MissingDashRoot)));
    let no_cwd = DashSessionConfig::from_env_values(b"/m", Some(b"/r".to_vec()), None, None, Some("x".into()), None);
    assert!(matches!(no_cwd, Err(ConfigError::NoCurrentDir)));
    for bad in ["x", "", "-", "+", "1.5", "2147483648", "-2147483649", " 1"] {
        let r = DashSessionConfig::from_env_values(
            b"/m",
            Some(b"/r".to_vec()),
            None,
            Some(b"/s.py".to_vec()),
            Some(bad.to_string()),
            None,
        );
        assert!(matches!(r, Err(ConfigError::InvalidIteration)), "{bad}");
    }
    for (good, v) in [("2147483647", i32::MAX), ("-2147483648", i32::MIN), ("-0", 0), ("007", 7)] {
        let r = DashSessionConfig::from_env_values(
            b"/m",
            Some(b"/r".to_vec()),
            None,
            Some(b"/s.py".to_vec()),
            Some(good.to_string()),
            None,
        )
        .unwrap();
        assert_eq!(r.iteration, v);
    }
}
