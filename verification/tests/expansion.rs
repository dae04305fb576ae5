use edf::common::expand_vars_string;
use edf::smap::StrMap;

fn test_env() -> StrMap {
    let mut env = StrMap::new();
    env.insert("XXX".to_string(), "111".to_string());
    env
}

fn check_expand_vars_string(input: &str, expected: &str) -> bool {
    let env = test_env();
    match expand_vars_string(input.to_string(), &Some(env)) {
        Ok(s) => {
            println!("{}", s);
            s == expected
        },
        Err(_) => false,
    }
}

#[test]
fn expand_vars_normal_strs() {
    assert!(check_expand_vars_string(r#"xxx-$XXX-xxx"#, r#"xxx-111-xxx"#));
    assert!(check_expand_vars_string(r#"xxx-${XXX}-xxx"#, r#"xxx-111-xxx"#));
    assert!(check_expand_vars_string(r#"xxx-${XXX:1}-xxx"#, r#"xxx-11-xxx"#));
    assert!(check_expand_vars_string(r#"xxx-\$(XXX)-xxx"#, r#"xxx-$(XXX)-xxx"#));
    assert!(check_expand_vars_string(r#"xxx-$\(XXX)-xxx"#, r#"xxx-$\(XXX)-xxx"#));
    assert!(check_expand_vars_string(r#"xxx-\`XXX\`-xxx"#, r#"xxx-`XXX`-xxx"#));
    assert!(check_expand_vars_string(r#"xxx--xxx\;"#, r#"xxx--xxx\;"#));
    assert!(check_expand_vars_string(r#"\"xxx--xxx\""#, r#""xxx--xxx""#));
}

#[test]
fn expand_vars_unknown_var() {
    assert!(!check_expand_vars_string(r#"xxx-${YYY}-xxx"#, r#"xxx--xxx"#));
    assert!(check_expand_vars_string(r#"xxx-${YYY:-222}-xxx"#, r#"xxx-222-xxx"#));
}

#[test]
fn expand_vars_banned_strs() {
    assert!(!check_expand_vars_string(r#"xxx-$(XXX)-xxx"#, ""));
    assert!(!check_expand_vars_string(r#"xxx-`XXX`-xxx"#, ""));
    assert!(!check_expand_vars_string(r#"xxx-"-xxx"#, ""));
    assert!(!check_expand_vars_string(r#"xxx--xxx;"#, ""));
    assert!(!check_expand_vars_string(r#"$(XXX)xxx--xxx"#, ""));
    assert!(!check_expand_vars_string(r#"`XXX`xxx--xxx"#, ""));
    assert!(!check_expand_vars_string(r#""xxx--xxx"#, ""));
    assert!(!check_expand_vars_string(r#"; xxx--xxx"#, ""));
    assert!(!check_expand_vars_string(r#"" >/tmp/file"#, ""));
}

#[test]
fn expand_simple_reference() {
    let mut env = StrMap::new();
    env.insert("X".to_string(), "1".to_string());
    let r = expand_vars_string("a-$X-b".to_string(), &Some(env)).unwrap();
    assert_eq!(r, "a-1-b");
}

#[test]
fn expand_command_substitution_is_banned() {
    let mut env = StrMap::new();
    env.insert("X".to_string(), "1".to_string());
    let e = expand_vars_string("a-$(ls)-b".to_string(), &Some(env)).unwrap_err();
    assert_eq!(e.code, 18);
    assert!(e.file_path.is_none());
}

#[test]
fn expand_unbound_variable_code() {
    let env = StrMap::new();
    let e = expand_vars_string("a-$MISSING-b".to_string(), &Some(env)).unwrap_err();
    assert_eq!(e.code, 17);
}

#[test]
fn expand_unclosed_brace_is_invalid() {
    let env = test_env();
    let e = expand_vars_string("a-${XXX-b".to_string(), &Some(env)).unwrap_err();
    assert_eq!(e.code, 18);
}

#[test]
fn expand_default_used_only_when_unset_or_empty() {
    let mut env = test_env();
    env.insert("EMPTY".to_string(), "".to_string());
    assert_eq!(
        expand_vars_string("${XXX:-fallback}".to_string(), &Some(env.duplicate())).unwrap(),
        "111"
    );
    assert_eq!(
        expand_vars_string("${EMPTY:-fallback}".to_string(), &Some(env.duplicate())).unwrap(),
        "fallback"
    );
    assert_eq!(
        expand_vars_string("${NOPE:-fallback}".to_string(), &Some(env)).unwrap(),
        "fallback"
    );
}

#[test]
fn expand_offset_beyond_length_is_empty() {
    let env = test_env();
    assert_eq!(expand_vars_string("${XXX:9}".to_string(), &Some(env)).unwrap(), "");
}

#[test]
fn expand_plain_dollar_stays() {
    let env = test_env();
    assert_eq!(expand_vars_string("cost: 5$".to_string(), &Some(env)).unwrap(), "cost: 5$");
}

#[test]
fn expand_vars_vec_expands_each_element() {
    let mut env = StrMap::new();
    env.insert("D".to_string(), "dev".to_string());
    let v = vec!["/x/$D".to_string(), "plain".to_string()];
    let r = edf::common::expand_vars_vec(v, &Some(env)).unwrap();
    assert_eq!(r, vec!["/x/dev".to_string(), "plain".to_string()]);
}

#[test]
fn expand_vars_hashmap_expands_values_keeps_keys() {
    let mut env = StrMap::new();
    env.insert("V".to_string(), "42".to_string());
    let mut h = StrMap::new();
    h.insert("k1".to_string(), "a-$V".to_string());
    h.insert("k2".to_string(), "b".to_string());
    let r = edf::common::expand_vars_hashmap(h, &Some(env)).unwrap();
    assert_eq!(r.get("k1").unwrap(), "a-42");
    assert_eq!(r.get("k2").unwrap(), "b");
}

#[test]
fn ambient_expansion_leaves_plain_text() {
    let r = expand_vars_string("plain text".to_string(), &None).unwrap();
    assert_eq!(r, "plain text");
}

#[test]
fn ambient_expansion_consults_the_process_environment() {
    match expand_vars_string("$HOME".to_string(), &None) {
        Ok(s) => assert_ne!(s, "$HOME"),
        Err(e) => assert_eq!(e.code, 17),
    }
}
