use regex::Regex;

use uuid_guard::config::{Language, LineEnding, Newline};
use uuid_guard::guard::{fold_token, generate_guard, render_guard};

fn extract_uuids(text: &str) -> Vec<String> {
    let re =
        Regex::new(r"[0-9A-F]{8}_[0-9A-F]{4}_[0-9A-F]{4}_[0-9A-F]{4}_[0-9A-F]{12}").unwrap();

    re.find_iter(text)
        .map(|mat| mat.as_str().to_string())
        .collect()
}

#[test]
fn test_generate_guard_default() {
    let result = generate_guard("TEST".to_string(), None, Language::Plain, LineEnding::Lf);

    let uuids = extract_uuids(result.as_str());

    assert!(uuids.len() == 3);
    assert!(uuids[0] == uuids[1]);
    assert!(uuids[1] == uuids[2]);

    let uuid = &uuids[0];
    assert!(result.contains(format!("#ifndef TEST_{}", uuid).as_str()));
    assert!(result.contains(format!("#define TEST_{}", uuid).as_str()));
    assert!(result.contains(format!("#endif /* TEST_{} */", uuid).as_str()));
}

#[test]
fn test_generate_guard_with_suffix() {
    let result = generate_guard(
        "TEST".to_string(),
        Some("SUFFIX".to_string()),
        Language::Cxx,
        LineEnding::Lf,
    );

    let uuids = extract_uuids(result.as_str());

    assert!(uuids.len() == 3);
    assert!(uuids[0] == uuids[1]);
    assert!(uuids[1] == uuids[2]);

    let uuid = &uuids[0];
    assert!(result.contains(format!("#ifndef TEST_{}_SUFFIX", uuid).as_str()));
    assert!(result.contains(format!("#define TEST_{}_SUFFIX", uuid).as_str()));
    assert!(result.contains(format!("#endif /* TEST_{}_SUFFIX */", uuid).as_str()));
}

#[test]
fn test_generate_guard_with_c_compatibility() {
    let result = generate_guard("TEST".to_string(), None, Language::C, LineEnding::Lf);

    let uuids = extract_uuids(result.as_str());

    assert!(uuids.len() == 3);
    assert!(uuids[0] == uuids[1]);
    assert!(uuids[1] == uuids[2]);

    let uuid = &uuids[0];
    assert!(result.contains(format!("#ifndef TEST_{}", uuid).as_str()));
    assert!(result.contains(format!("#define TEST_{}", uuid).as_str()));
    assert!(result.contains(format!("#endif /* TEST_{} */", uuid).as_str()));

    assert!(result.contains("#ifdef __cplusplus"));
    assert!(result.contains("extern \"C\" {"));
    assert!(result.contains("} /* extern \"C\" */"));
}

#[test]
fn full_shape_without_suffix() {
    let result = generate_guard("TEST".to_string(), None, Language::Plain, LineEnding::Lf);

    let uuids = extract_uuids(result.as_str());
    assert_eq!(uuids.len(), 3);
    let uuid = &uuids[0];
    let expected = format!(
        "#ifndef TEST_{u}\n#define TEST_{u}\n#endif /* TEST_{u} */\n",
        u = uuid
    );
    assert_eq!(result, expected);
}

#[test]
fn cxx_mode_adds_no_linkage_block() {
    let result = generate_guard(
        "TEST".to_string(),
        Some("SUFFIX".to_string()),
        Language::Cxx,
        LineEnding::Lf,
    );
    assert!(!result.contains("#ifdef __cplusplus"));
    assert!(!result.contains("extern \"C\" {"));
    assert!(!result.contains("} /* extern \"C\" */"));

    let plain = generate_guard("TEST".to_string(), None, Language::Plain, LineEnding::Lf);
    assert!(!plain.contains("#ifdef __cplusplus"));
    assert!(!plain.contains("extern \"C\" {"));
    assert!(!plain.contains("} /* extern \"C\" */"));
}

#[test]
fn linkage_block_sits_between_define_and_endif() {
    let result = generate_guard("TEST".to_string(), None, Language::C, LineEnding::Lf);
    let lines: Vec<&str> = result.split('\n').collect();
    assert_eq!(lines.len(), 13);
    assert!(lines[0].starts_with("#ifndef TEST_"));
    assert!(lines[1].starts_with("#define TEST_"));
    assert_eq!(lines[2], "");
    assert_eq!(lines[3], "#ifdef __cplusplus");
    assert_eq!(lines[4], "extern \"C\" {");
    assert_eq!(lines[5], "#endif /* __cplusplus */");
    assert_eq!(lines[6], "");
    assert_eq!(lines[7], "#ifdef __cplusplus");
    assert_eq!(lines[8], "} /* extern \"C\" */");
    assert_eq!(lines[9], "#endif /* __cplusplus */");
    assert_eq!(lines[10], "");
    assert!(lines[11].starts_with("#endif /* TEST_"));
    assert_eq!(lines[12], "");
}

#[test]
fn lf_output_has_no_carriage_return() {
    let result = generate_guard("TEST".to_string(), None, Language::C, LineEnding::Lf);
    assert!(!result.contains('\r'));
    assert_eq!(result.matches('\n').count(), 12);
}

#[test]
fn crlf_output_pairs_every_separator() {
    let result = generate_guard(
        "TEST".to_string(),
        Some("SUFFIX".to_string()),
        Language::Plain,
        LineEnding::Crlf,
    );
    assert_eq!(result.matches("\r\n").count(), 3);
    assert_eq!(result.matches('\r').count(), 3);
    assert_eq!(result.matches('\n').count(), 3);
}

#[test]
fn two_invocations_use_distinct_tokens() {
    let first = generate_guard("TEST".to_string(), None, Language::Plain, LineEnding::Lf);
    let second = generate_guard("TEST".to_string(), None, Language::Plain, LineEnding::Lf);
    let t1 = extract_uuids(first.as_str());
    let t2 = extract_uuids(second.as_str());
    assert_eq!(t1.len(), 3);
    assert_eq!(t2.len(), 3);
    assert_ne!(t1[0], t2[0]);
}

#[test]
fn fold_token_uppercases_and_replaces_hyphens() {
    let folded = fold_token("01809424-3e59-7c05-9219-566f82fff672");
    assert_eq!(folded, "01809424_3E59_7C05_9219_566F82FFF672");
}

#[test]
fn render_guard_is_deterministic() {
    let token = "01809424_3E59_7C05_9219_566F82FFF672";
    let a = render_guard("TEST", token, &None, Language::Plain, Newline::Lf);
    let b = render_guard("TEST", token, &None, Language::Plain, Newline::Lf);
    assert_eq!(a, b);
    assert_eq!(
        a,
        "#ifndef TEST_01809424_3E59_7C05_9219_566F82FFF672\n\
         #define TEST_01809424_3E59_7C05_9219_566F82FFF672\n\
         #endif /* TEST_01809424_3E59_7C05_9219_566F82FFF672 */\n"
    );
}

#[test]
fn empty_prefix_still_yields_a_guard() {
    let result = generate_guard(String::new(), None, Language::Plain, LineEnding::Lf);
    let uuids = extract_uuids(result.as_str());
    assert_eq!(uuids.len(), 3);
    let uuid = &uuids[0];
    assert!(result.starts_with(format!("#ifndef _{}", uuid).as_str()));
}

#[test]
fn empty_suffix_still_appends_an_underscore() {
    let token = "01809424_3E59_7C05_9219_566F82FFF672";
    let r = render_guard(
        "TEST",
        token,
        &Some(String::new()),
        Language::Plain,
        Newline::Lf,
    );
    assert!(r.starts_with("#ifndef TEST_01809424_3E59_7C05_9219_566F82FFF672_\n"));
}

#[test]
fn render_guard_with_suffix_and_crlf() {
    let token = "01809424_3E59_7C05_9219_566F82FFF672";
    let r = render_guard(
        "TEST",
        token,
        &Some("SUFFIX".to_string()),
        Language::Cxx,
        Newline::Crlf,
    );
    assert_eq!(
        r,
        "#ifndef TEST_01809424_3E59_7C05_9219_566F82FFF672_SUFFIX\r\n\
         #define TEST_01809424_3E59_7C05_9219_566F82FFF672_SUFFIX\r\n\
         #endif /* TEST_01809424_3E59_7C05_9219_566F82FFF672_SUFFIX */\r\n"
    );
}
