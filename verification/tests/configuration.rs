use edf::config::{get_search_paths, get_sys_search_paths, update_config_by_user, Config, RawConfig};
use edf::resolve::EDF;
use edf::smap::StrMap;
use edf::SarusError;

fn smap(pairs: &[(&str, &str)]) -> StrMap {
    let mut m = StrMap::new();
    for (k, v) in pairs {
        m.insert(k.to_string(), v.to_string());
    }
    m
}

fn edf_with_annotations(annos: StrMap) -> EDF {
    EDF {
        annotations: annos,
        devices: vec![],
        entrypoint: true,
        env: StrMap::new(),
        image: "img".to_string(),
        mounts: vec![],
        parallax_enable: true,
        parallax_imagestore: "".to_string(),
        parallax_mount_program: "".to_string(),
        parallax_path: "parallax".to_string(),
        perfmon: false,
        podman_module: "hpc".to_string(),
        podman_path: "podman".to_string(),
        podman_tmp_path: "/dev/shm".to_string(),
        workdir: "".to_string(),
        writable: true,
    }
}

#[test]
fn config_defaults_from_empty_raw() {
    let c = Config::from_raw(RawConfig::default());
    assert_eq!(c.edf_system_search_path, "/etc/edf");
    assert_eq!(c.parallax_imagestore, "");
    assert_eq!(c.parallax_mount_program, "");
    assert_eq!(c.parallax_path, "parallax");
    assert_eq!(c.perfmon, false);
    assert_eq!(c.podman_module, "hpc");
    assert_eq!(c.podman_path, "podman");
    assert_eq!(c.podman_tmp_path, "/dev/shm");
    assert_eq!(c.runtime_path, "crun");
    assert_eq!(c.skybox_enabled, false);
    assert_eq!(c.tracking_enabled, false);
    assert_eq!(c.tracking_tool, "");
}

#[test]
fn raw_config_extend_is_right_biased() {
    let mut a = RawConfig::default();
    a.podman_path = Some("first".to_string());
    a.runtime_path = Some("keep".to_string());
    let mut b = RawConfig::default();
    b.podman_path = Some("second".to_string());
    b.perfmon = Some(true);
    a.extend(&b);
    assert_eq!(a.podman_path.unwrap(), "second");
    assert_eq!(a.runtime_path.unwrap(), "keep");
    assert_eq!(a.perfmon.unwrap(), true);
}

#[test]
fn raw_config_expand_fields_with_failure_becomes_empty() {
    let mut r = RawConfig::default();
    r.podman_path = Some("/opt/$TOOL".to_string());
    r.runtime_path = Some("$MISSING".to_string());
    let env = smap(&[("TOOL", "podman5")]);
    r.expand_fields(&Some(env));
    assert_eq!(r.podman_path.unwrap(), "/opt/podman5");
    assert_eq!(r.runtime_path.unwrap(), "");
}

#[test]
fn merge_config_and_edf_annotations() {
    let mut cfg = Config::from_raw(RawConfig::default());
    let annos = smap(&[
        ("com.sarus.parallax_imagestore", "parallax_imagestore_edf"),
        ("com.sarus.parallax_mount_program", "parallax_mount_program_edf"),
        ("com.sarus.parallax_path", "parallax_path_edf"),
        ("com.sarus.perfmon", "true"),
        ("com.sarus.podman_module", "hpc_edf"),
        ("com.sarus.podman_path", "podman_path_edf"),
        ("com.sarus.podman_tmp_path", "podman_tmp_path_edf"),
        ("com.sarus.runtime_path", "crun_edf"),
        ("com.sarus.skybox_enabled", "not-a-bool"),
        ("com.sarus.tracking_tool", "tracking_tool_edf"),
    ]);
    update_config_by_user(&mut cfg, edf_with_annotations(annos));
    assert_eq!(cfg.parallax_imagestore, "parallax_imagestore_edf");
    assert_eq!(cfg.parallax_mount_program, "parallax_mount_program_edf");
    assert_eq!(cfg.parallax_path, "parallax_path_edf");
    assert_eq!(cfg.perfmon, true);
    assert_eq!(cfg.podman_module, "hpc_edf");
    assert_eq!(cfg.podman_path, "podman_path_edf");
    assert_eq!(cfg.podman_tmp_path, "podman_tmp_path_edf");
    assert_eq!(cfg.runtime_path, "crun_edf");
    // A value that is neither "true" nor "false" leaves the toggle alone.
    assert_eq!(cfg.skybox_enabled, false);
    assert_eq!(cfg.tracking_enabled, false);
    assert_eq!(cfg.tracking_tool, "tracking_tool_edf");
    // The search path is never overridden by annotations.
    assert_eq!(cfg.edf_system_search_path, "/etc/edf");
}

#[test]
fn sys_search_paths_split_on_colons() {
    let mut raw = RawConfig::default();
    raw.edf_system_search_path = Some("/etc/edf:/opt/edf".to_string());
    let cfg = Config::from_raw(raw);
    let sp = get_sys_search_paths(&cfg);
    assert_eq!(sp, vec!["/etc/edf".to_string(), "/opt/edf".to_string()]);
}

#[test]
fn sys_search_paths_empty_setting_gives_none() {
    let mut raw = RawConfig::default();
    raw.edf_system_search_path = Some("".to_string());
    let cfg = Config::from_raw(raw);
    assert_eq!(get_sys_search_paths(&cfg).len(), 0);
}

#[test]
fn search_paths_user_before_system() {
    let cfg = Config::from_raw(RawConfig::default());
    let sp = get_search_paths(vec!["/home/u/.edf".to_string()], &cfg);
    assert_eq!(sp, vec!["/home/u/.edf".to_string(), "/etc/edf".to_string()]);
}

#[test]
fn error_message_rendering() {
    let e = SarusError::new(7, "missing image specification".to_string());
    assert_eq!(e.render_message(), "Error 007: missing image specification");
    let e2 = SarusError::at_path(6, "x.toml".to_string(), "not found".to_string());
    assert_eq!(e2.render_message(), "Error 006 on x.toml: not found");
    let e3 = SarusError::new(123, "big".to_string());
    assert_eq!(e3.render_message(), "Error 123: big");
}
