use rust_repos::data::{is_simple_key, record_row, Repo};
use rust_repos::state_json::{parse_state_doc, render_state_doc, StateEntry};

fn entry(platform: &str, last_id: u64) -> StateEntry {
    StateEntry { platform: String::from(platform), last_id }
}

#[test]
fn empty_document_renders_as_an_empty_object() {
    assert_eq!(render_state_doc(&Vec::new()), "{}\n");
    let parsed = parse_state_doc("{}\n").expect("the empty object parses");
    assert!(parsed.is_empty());
}

#[test]
fn documents_parse_back_to_their_entries() {
    let entries = vec![entry("github", 250158), entry("gitlab", 0), entry("x y-z", 18446744073709551615)];
    let doc = render_state_doc(&entries);
    let parsed = parse_state_doc(&doc).expect("a rendered document parses");
    assert_eq!(parsed, entries);
}

#[test]
fn parser_refuses_what_the_renderer_never_writes() {
    assert!(parse_state_doc("").is_none());
    assert!(parse_state_doc("{}").is_none());
    assert!(parse_state_doc("{\"a\": 1}\n").is_none());
    assert!(parse_state_doc("{\n  \"a\": \n}\n").is_none());
    assert!(parse_state_doc("{\n  'a': 1\n}\n").is_none());
    assert!(parse_state_doc("{\n  \"a\": 12x\n}\n").is_none());
}

#[test]
fn parser_reads_the_largest_cursor_and_refuses_beyond_it() {
    let doc = "{\n  \"p\": 18446744073709551615\n}\n";
    let parsed = parse_state_doc(doc).unwrap();
    assert_eq!(parsed[0].last_id, u64::MAX);
    assert!(parse_state_doc("{\n  \"p\": 18446744073709551616\n}\n").is_none());
}

#[test]
fn simple_keys_exclude_json_metacharacters() {
    assert!(is_simple_key("github"));
    assert!(is_simple_key("with space and punct!"));
    assert!(!is_simple_key("quo\"te"));
    assert!(!is_simple_key("back\\slash"));
    assert!(!is_simple_key("new\nline"));
    assert!(!is_simple_key("tab\there"));
}

#[test]
fn rows_quote_only_when_needed() {
    let plain = record_row(&Repo {
        id: String::from("MDEw"),
        name: String::from("octo/widget"),
        has_cargo_toml: true,
        has_cargo_lock: false,
    });
    assert_eq!(plain, "MDEw,octo/widget,true,false\n");
    let quoted = record_row(&Repo {
        id: String::from("a,b"),
        name: String::from("say \"hi\""),
        has_cargo_toml: false,
        has_cargo_lock: true,
    });
    assert_eq!(quoted, "\"a,b\",\"say \"\"hi\"\"\",false,true\n");
}
