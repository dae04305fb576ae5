use edf::resolve::{
    edf_from_raw, render, render_from_search_paths, AnnoVal, Annotations, BaseEnvironment,
    DocStore, RawEDF, ResolveHalt,
};
use edf::smap::StrMap;

fn smap(pairs: &[(&str, &str)]) -> StrMap {
    let mut m = StrMap::new();
    for (k, v) in pairs {
        m.insert(k.to_string(), v.to_string());
    }
    m
}

fn doc_with_image(image: &str) -> RawEDF {
    let mut d = RawEDF::default();
    d.image = Some(image.to_string());
    d
}

fn store(docs: Vec<(&str, RawEDF)>) -> DocStore {
    DocStore {
        search_paths: vec!["sp".to_string()],
        docs: docs.into_iter().map(|(k, v)| (k.to_string(), v)).collect(),
    }
}

#[test]
fn render_file_not_found() {
    let st = store(vec![]);
    let result = render(String::from("src/toml/not_found.toml"), &st);
    assert!(result.is_err());
}

#[test]
fn render_not_a_toml_file() {
    let st = store(vec![]);
    let result = render(String::from("src/toml/plain.txt"), &st);
    assert!(result.is_err());
}

#[test]
fn render_single_doc_applies_defaults() {
    let st = store(vec![("sp/simple.toml", doc_with_image("ubuntu:simple"))]);
    let e = render("simple".to_string(), &st).unwrap();
    assert_eq!(e.image, "ubuntu:simple");
    assert_eq!(e.entrypoint, true);
    assert_eq!(e.parallax_enable, true);
    assert_eq!(e.perfmon, false);
    assert_eq!(e.writable, true);
    assert_eq!(e.podman_module, "hpc");
    assert_eq!(e.podman_path, "podman");
    assert_eq!(e.podman_tmp_path, "/dev/shm");
    assert_eq!(e.parallax_path, "parallax");
    assert_eq!(e.parallax_imagestore, "");
    assert_eq!(e.workdir, "");
    assert_eq!(e.devices.len(), 0);
    assert_eq!(e.mounts.len(), 0);
}

#[test]
fn render_missing_image_fails() {
    let st = store(vec![("sp/noimg.toml", RawEDF::default())]);
    match render("noimg".to_string(), &st) {
        Err(ResolveHalt::Fail(e)) => assert_eq!(e.code, 7),
        _ => panic!("expected a missing-image failure"),
    }
}

#[test]
fn render_no_base_equals_expanded_document() {
    let mut d = doc_with_image("img");
    d.devices = Some(vec!["/dev/$N".to_string(), "/dev/d0".to_string()]);
    d.workdir = Some("/home/$N".to_string());
    let st = store(vec![("sp/plain.toml", d)]);
    let env = smap(&[("N", "d0")]);
    let e = render_from_search_paths(
        "plain".to_string(),
        vec!["sp".to_string()],
        &Some(env),
        &st,
    )
    .unwrap();
    assert_eq!(e.devices, vec!["/dev/d0".to_string()]);
    assert_eq!(e.workdir, "/home/d0");
}

#[test]
fn render_annotation_merge_is_right_biased() {
    let mut base = doc_with_image("img-base");
    base.annotations = Some(Annotations::TypeHashMap(smap(&[("a", "1"), ("b", "2")])));
    let mut child = RawEDF::default();
    child.base_environment = Some(BaseEnvironment::TypeString("B".to_string()));
    child.annotations = Some(Annotations::TypeHashMap(smap(&[("b", "3")])));
    let st = store(vec![("sp/B.toml", base), ("sp/C.toml", child)]);
    let e = render("C".to_string(), &st).unwrap();
    assert_eq!(e.annotations.get("a").unwrap(), "1");
    assert_eq!(e.annotations.get("b").unwrap(), "3");
    assert_eq!(e.image, "img-base");
}

#[test]
fn render_scalar_priority_child_wins() {
    let base = doc_with_image("img-base");
    let mut child = doc_with_image("img-child");
    child.base_environment = Some(BaseEnvironment::TypeString("B".to_string()));
    let st = store(vec![("sp/B.toml", base), ("sp/C.toml", child)]);
    let e = render("C".to_string(), &st).unwrap();
    assert_eq!(e.image, "img-child");
}

#[test]
fn render_multi_base_later_wins() {
    let mut b1 = doc_with_image("img-1");
    b1.env = Some(smap(&[("quick", "maths"), ("x", "1")]));
    let mut b2 = doc_with_image("img-2");
    b2.env = Some(smap(&[("quick", "counting")]));
    let mut child = RawEDF::default();
    child.base_environment = Some(BaseEnvironment::TypeVec(vec![
        "B1".to_string(),
        "B2".to_string(),
    ]));
    let st = store(vec![("sp/B1.toml", b1), ("sp/B2.toml", b2), ("sp/C.toml", child)]);
    let e = render("C".to_string(), &st).unwrap();
    assert_eq!(e.image, "img-2");
    assert_eq!(e.env.get("quick").unwrap(), "counting");
    assert_eq!(e.env.get("x").unwrap(), "1");
}

#[test]
fn render_devices_concatenate_and_deduplicate() {
    let mut base = doc_with_image("img");
    base.devices = Some(vec!["dev1".to_string(), "dev2".to_string()]);
    let mut child = RawEDF::default();
    child.base_environment = Some(BaseEnvironment::TypeString("B".to_string()));
    child.devices = Some(vec!["dev2".to_string(), "dev3".to_string()]);
    let st = store(vec![("sp/B.toml", base), ("sp/C.toml", child)]);
    let e = render("C".to_string(), &st).unwrap();
    assert_eq!(
        e.devices,
        vec!["dev1".to_string(), "dev2".to_string(), "dev3".to_string()]
    );
}

#[test]
fn render_self_reference_is_too_deep() {
    let mut d = doc_with_image("img");
    d.base_environment = Some(BaseEnvironment::TypeString("R".to_string()));
    let st = store(vec![("sp/R.toml", d)]);
    match render("R".to_string(), &st) {
        Err(ResolveHalt::Fail(e)) => assert_eq!(e.code, 5),
        _ => panic!("expected a depth failure"),
    }
}

fn chain_store(n: usize) -> DocStore {
    let mut docs = Vec::new();
    for i in 0..n {
        let mut d = doc_with_image(&format!("img-{}", i));
        if i + 1 < n {
            d.base_environment = Some(BaseEnvironment::TypeString(format!("L{}", i + 1)));
        }
        docs.push((format!("sp/L{}.toml", i), d));
    }
    DocStore {
        search_paths: vec!["sp".to_string()],
        docs,
    }
}

#[test]
fn render_chain_of_ten_succeeds() {
    let st = chain_store(10);
    let e = render("L0".to_string(), &st).unwrap();
    assert_eq!(e.image, "img-0");
}

#[test]
fn render_chain_of_eleven_is_too_deep() {
    let st = chain_store(11);
    match render("L0".to_string(), &st) {
        Err(ResolveHalt::Fail(e)) => assert_eq!(e.code, 5),
        _ => panic!("expected a depth failure"),
    }
}

#[test]
fn base_named_by_path_resolves_from_store() {
    let mut child = doc_with_image("img");
    child.base_environment = Some(BaseEnvironment::TypeString("sp/base.toml".to_string()));
    let st = store(vec![("sp/C.toml", child), ("sp/base.toml", doc_with_image("x"))]);
    let e = render("C".to_string(), &st).unwrap();
    assert_eq!(e.image, "img");
}

#[test]
fn render_unknown_base_name_not_found() {
    let mut child = doc_with_image("img");
    child.base_environment = Some(BaseEnvironment::TypeString("nowhere".to_string()));
    let st = store(vec![("sp/C.toml", child)]);
    match render("C".to_string(), &st) {
        Err(ResolveHalt::Fail(e)) => assert_eq!(e.code, 6),
        _ => panic!("expected a not-found failure"),
    }
}

#[test]
fn nested_annotation_tables_flatten_with_dots() {
    let tree = vec![(
        "com".to_string(),
        AnnoVal::Table(vec![(
            "sarus".to_string(),
            AnnoVal::Table(vec![("perfmon".to_string(), AnnoVal::Str("true".to_string()))]),
        )]),
    )];
    let mut d = doc_with_image("img");
    d.annotations = Some(Annotations::TypeMap(tree));
    let st = store(vec![("sp/A.toml", d)]);
    let e = render("A".to_string(), &st).unwrap();
    assert_eq!(e.annotations.get("com.sarus.perfmon").unwrap(), "true");
}

#[test]
fn finalize_compiles_mounts_and_deduplicates() {
    let mut d = doc_with_image("img");
    d.mounts = Some(vec![
        "/aaa:/bbb".to_string(),
        "/aaa:/bbb".to_string(),
        "tmpfs:/x".to_string(),
    ]);
    let e = edf_from_raw(d, &Some(StrMap::new())).unwrap();
    assert_eq!(e.mounts.len(), 2);
    assert_eq!(e.mounts[0].source, "/aaa");
    assert_eq!(e.mounts[0].flags, "x-create=auto,rbind");
    assert_eq!(e.mounts[1].source, "tmpfs");
}

#[test]
fn expansion_failure_in_base_aborts_resolution() {
    let mut base = doc_with_image("img");
    base.workdir = Some("$(evil)".to_string());
    let mut child = RawEDF::default();
    child.base_environment = Some(BaseEnvironment::TypeString("B".to_string()));
    let st = store(vec![("sp/B.toml", base), ("sp/C.toml", child)]);
    let env = smap(&[]);
    match render_from_search_paths("C".to_string(), vec!["sp".to_string()], &Some(env), &st) {
        Err(ResolveHalt::Fail(e)) => assert_eq!(e.code, 18),
        _ => panic!("expected a banned-expansion failure"),
    }
}

#[test]
fn render_self_reference_by_path_is_too_deep() {
    let mut d = doc_with_image("img");
    d.base_environment = Some(BaseEnvironment::TypeString("./self.toml".to_string()));
    let st = store(vec![("./self.toml", d)]);
    match render("./self.toml".to_string(), &st) {
        Err(ResolveHalt::Fail(e)) => assert_eq!(e.code, 5),
        _ => panic!("expected a depth failure"),
    }
}

#[test]
fn render_empty_image_fails() {
    let st = store(vec![("sp/empty.toml", doc_with_image(""))]);
    match render("empty".to_string(), &st) {
        Err(ResolveHalt::Fail(e)) => assert_eq!(e.code, 7),
        _ => panic!("expected a missing-image failure"),
    }
}
