use angelsuite_installer::install::Install;
use angelsuite_installer::store::{parse_install, render_install};

fn chars(s: &str) -> Vec<char> {
    s.chars().collect()
}

fn text(v: &[char]) -> String {
    v.iter().collect()
}

#[test]
fn fresh_empty_store_round_trips() {
    let store = Install::new();
    let saved = render_install(&store);
    assert_eq!(text(&saved), "{\"products\":{}}");
    let loaded = parse_install(&saved).expect("the rendered empty store must parse");
    assert_eq!(loaded.len(), 0);
    // saving the loaded store writes the identical file again
    assert_eq!(text(&render_install(&loaded)), text(&saved));
}

#[test]
fn populated_store_round_trips() {
    let mut store = Install::new();
    {
        let rec = store.get_mut_product_or_default("alpha".to_string());
        rec.name = "Alpha".to_string();
        rec.description = "first \"quoted\" \\ and\nnewline\ttabbed".to_string();
        rec.version = Some("1.2.3-beta.1".to_string());
        rec.main_executable = Some("/opt/alpha/bin/alpha".to_string());
        rec.execute_working_directory = Some("/opt/alpha".to_string());
        rec.use_prerelease = true;
    }
    {
        let rec = store.get_mut_product_or_default("beta".to_string());
        rec.name = "Beta".to_string();
    }
    let saved = render_install(&store);
    let loaded = parse_install(&saved).expect("the rendered store must parse");
    assert_eq!(loaded.len(), 2);
    let a = loaded.get("alpha").unwrap();
    assert_eq!(a.name, "Alpha");
    assert_eq!(a.description, "first \"quoted\" \\ and\nnewline\ttabbed");
    assert_eq!(a.version, Some("1.2.3-beta.1".to_string()));
    assert_eq!(a.main_executable, Some("/opt/alpha/bin/alpha".to_string()));
    assert_eq!(a.execute_working_directory, Some("/opt/alpha".to_string()));
    assert!(a.use_prerelease);
    let b = loaded.get("beta").unwrap();
    assert_eq!(b.name, "Beta");
    assert_eq!(b.version, None);
    assert!(!b.use_prerelease);
    assert_eq!(text(&render_install(&loaded)), text(&saved));
}

#[test]
fn parser_accepts_whitespace_and_any_member_order() {
    let doc = chars(
        "{ \"products\" : { \"p\" : {\n  \"use_prerelease\": true ,\n  \"version\": \"2.0.0\",\n  \"name\": \"P\"\n} } }",
    );
    let loaded = parse_install(&doc).expect("lenient document must parse");
    let p = loaded.get("p").unwrap();
    assert_eq!(p.name, "P");
    assert_eq!(p.version, Some("2.0.0".to_string()));
    assert!(p.use_prerelease);
    // absent members take their defaults
    assert_eq!(p.description, "");
    assert_eq!(p.main_executable, None);
    assert_eq!(p.execute_working_directory, None);
}

#[test]
fn parser_reads_the_writer_format_of_other_tools() {
    let doc = chars(
        "{\"products\":{\"p\":{\"name\":\"N\",\"description\":\"D\",\"version\":null,\"execute_working_directory\":null,\"main_executable\":null,\"use_prerelease\":false}}}",
    );
    let loaded = parse_install(&doc).expect("canonical document must parse");
    let p = loaded.get("p").unwrap();
    assert_eq!(p.name, "N");
    assert_eq!(p.description, "D");
    assert_eq!(p.version, None);
}

#[test]
fn parser_skips_unknown_primitive_members() {
    let doc = chars(
        "{\"products\":{\"p\":{\"name\":\"N\",\"future_count\":42,\"future_flag\":true,\"future_text\":\"x\",\"future_gap\":null}}}",
    );
    let loaded = parse_install(&doc).expect("unknown primitive members are skipped");
    assert_eq!(loaded.get("p").unwrap().name, "N");
}

#[test]
fn parser_decodes_escapes() {
    let doc = chars("{\"products\":{\"p\":{\"name\":\"\\u0041\\n\\t\\\\\\\"\\u000a\"}}}");
    let loaded = parse_install(&doc).expect("escapes must parse");
    assert_eq!(loaded.get("p").unwrap().name, "A\n\t\\\"\n");
}

#[test]
fn corrupt_documents_are_refused() {
    assert!(parse_install(&chars("")).is_none());
    assert!(parse_install(&chars("{")).is_none());
    assert!(parse_install(&chars("{\"products\":{}")).is_none());
    assert!(parse_install(&chars("{\"products\":{}}trailing")).is_none());
    assert!(parse_install(&chars("{\"other\":{}}")).is_none());
    assert!(parse_install(&chars("{\"products\":{\"p\":{\"name\":\"unterminated}}}")).is_none());
    // a member value nesting an object is out of this format
    assert!(parse_install(&chars("{\"products\":{\"p\":{\"name\":{}}}}")).is_none());
    // a surrogate escape is not a character
    assert!(parse_install(&chars("{\"products\":{\"p\":{\"name\":\"\\ud800\"}}}")).is_none());
}

#[test]
fn duplicate_product_ids_are_refused() {
    let doc = chars("{\"products\":{\"p\":{\"name\":\"A\"},\"p\":{\"name\":\"B\"}}}");
    assert!(parse_install(&doc).is_none());
}
