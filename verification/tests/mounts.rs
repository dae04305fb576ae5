use edf::mount::{sarus_mounts_from_strings, SarusMount};
use edf::smap::StrMap;

fn empty_env() -> Option<StrMap> {
    Some(StrMap::new())
}

#[test]
fn compile_bind_mount() {
    let m = SarusMount::try_new("./a:./b".to_string(), &empty_env()).unwrap();
    assert_eq!(m.source, "./a");
    assert_eq!(m.target, "./b");
    assert_eq!(m.flags, "x-create=auto,rbind");
}

#[test]
fn compile_tmpfs_mount() {
    let m = SarusMount::try_new("tmpfs:/x".to_string(), &empty_env()).unwrap();
    assert_eq!(m.source, "tmpfs");
    assert_eq!(m.target, "/x");
    assert_eq!(m.flags, "x-create=dir");
}

#[test]
fn compile_umount_mount() {
    let m = SarusMount::try_new("umount:/y".to_string(), &empty_env()).unwrap();
    assert_eq!(m.source, "umount");
    assert_eq!(m.flags, "x-detach");
}

#[test]
fn compile_invalid_source() {
    let e = SarusMount::try_new("a:b".to_string(), &empty_env()).unwrap_err();
    assert_eq!(e.code, 12);
}

#[test]
fn compile_invalid_target() {
    let e = SarusMount::try_new("./a:b".to_string(), &empty_env()).unwrap_err();
    assert_eq!(e.code, 13);
}

#[test]
fn compile_malformed_specs() {
    let e = SarusMount::try_new("abc".to_string(), &empty_env()).unwrap_err();
    assert_eq!(e.code, 8);
    let e = SarusMount::try_new("a:b:c:d".to_string(), &empty_env()).unwrap_err();
    assert_eq!(e.code, 8);
}

#[test]
fn compile_user_flags_appended() {
    let m = SarusMount::try_new("/eee:./fff:ggg".to_string(), &empty_env()).unwrap();
    assert_eq!(m.source, "/eee");
    assert_eq!(m.target, "./fff");
    assert_eq!(m.flags, "x-create=auto,rbind,ggg");
}

#[test]
fn compile_flags_deduplicated() {
    let m = SarusMount::try_new("./a:./b:rbind".to_string(), &empty_env()).unwrap();
    assert_eq!(m.flags, "x-create=auto,rbind");
}

#[test]
fn compile_plus_becomes_comma_in_flags() {
    let m = SarusMount::try_new("./a:./b:ro+noexec".to_string(), &empty_env()).unwrap();
    assert_eq!(m.flags, "x-create=auto,rbind,ro,noexec");
}

#[test]
fn compile_escapes_spaces() {
    let m = SarusMount::try_new("./a b:./c".to_string(), &empty_env()).unwrap();
    assert_eq!(m.source, "./a\\040b");
    assert_eq!(m.target, "./c");
}

#[test]
fn compile_expands_source_and_target() {
    let mut env = StrMap::new();
    env.insert("SUB".to_string(), "x".to_string());
    let m = SarusMount::try_new("/data/$SUB:./out-$SUB".to_string(), &Some(env)).unwrap();
    assert_eq!(m.source, "/data/x");
    assert_eq!(m.target, "./out-x");
}

#[test]
fn compile_classifies_source_before_expansion() {
    let mut env = StrMap::new();
    env.insert("ROOT".to_string(), "/data".to_string());
    // "$ROOT..." does not start with . or / and is no keyword, and the
    // classification looks at the text before any expansion.
    let e = SarusMount::try_new("$ROOT/in:/out".to_string(), &Some(env)).unwrap_err();
    assert_eq!(e.code, 12);
}

#[test]
fn mounts_list_deduplicates_by_triple() {
    let input = vec![
        "./a:./b".to_string(),
        "./a:./b".to_string(),
        "tmpfs:/x".to_string(),
    ];
    let ms = sarus_mounts_from_strings(input, &empty_env()).unwrap();
    assert_eq!(ms.len(), 2);
    assert_eq!(ms[0].source, "./a");
    assert_eq!(ms[1].source, "tmpfs");
}

#[test]
fn mounts_list_propagates_first_error() {
    let input = vec!["./a:./b".to_string(), "bad".to_string()];
    let e = sarus_mounts_from_strings(input, &empty_env()).unwrap_err();
    assert_eq!(e.code, 8);
}

#[test]
fn volume_string_forms() {
    let m = SarusMount::try_new("tmpfs:/x".to_string(), &empty_env()).unwrap();
    assert_eq!(m.to_volume_string(), "tmpfs:/x:x-create=dir");
    let bare = SarusMount {
        source: "a".to_string(),
        target: "b".to_string(),
        flags: "".to_string(),
    };
    assert_eq!(bare.to_volume_string(), "a:b");
}

#[test]
fn sqsh_source_must_be_path() {
    let e = SarusMount::try_new("a:/y:sqsh".to_string(), &empty_env()).unwrap_err();
    assert_eq!(e.code, 10);
}

#[test]
fn sqsh_missing_source() {
    let e = SarusMount::try_new(
        "/no/such/file/anywhere.sqsh:/y:sqsh".to_string(),
        &empty_env(),
    )
    .unwrap_err();
    assert_eq!(e.code, 14);
}

#[test]
fn sqsh_source_must_be_regular() {
    // The filesystem root exists but is no regular file.
    let e = SarusMount::try_new("/:/y:sqsh".to_string(), &empty_env()).unwrap_err();
    assert_eq!(e.code, 16);
}
