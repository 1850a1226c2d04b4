use rust_repos::data::{Data, DataError, Repo};

fn repo(id: &str, name: &str, has_a: bool, has_b: bool) -> Repo {
    Repo {
        id: String::from(id),
        name: String::from(name),
        has_cargo_toml: has_a,
        has_cargo_lock: has_b,
    }
}

#[test]
fn cursor_round_trip_through_durable_document() {
    let mut d = Data::new();
    let doc = d.set_last_id("platformA", 42).expect("plain names are storable");
    let mut fresh = Data::new();
    fresh.load_state(&doc).expect("a rendered document loads back");
    assert_eq!(fresh.get_last_id("platformA"), Some(42));

    let doc = fresh.set_last_id("platformA", 43).expect("plain names are storable");
    let mut fresh2 = Data::new();
    fresh2.load_state(&doc).expect("a rendered document loads back");
    assert_eq!(fresh2.get_last_id("platformA"), Some(43));
    assert_eq!(fresh2.get_last_id("platformB"), None);
}

#[test]
fn durable_document_is_pretty_printed_json() {
    let mut d = Data::new();
    let _ = d.set_last_id("github", 42).unwrap();
    let doc = d.set_last_id("gitlab", 7).unwrap();
    assert_eq!(doc, "{\n  \"github\": 42,\n  \"gitlab\": 7\n}\n");
    // an independent JSON reader agrees with what was written
    let v: serde_json::Value = serde_json::from_str(&doc).expect("the document is valid JSON");
    assert_eq!(v.get("github").and_then(|x| x.as_u64()), Some(42));
    assert_eq!(v.get("gitlab").and_then(|x| x.as_u64()), Some(7));
    assert_eq!(doc, format!("{}\n", serde_json::to_string_pretty(&v).unwrap()));
}

#[test]
fn empty_state_renders_and_reloads() {
    let d = Data::new();
    let mut e = Data::new();
    assert_eq!(e.load_state("{}\n"), Ok(()));
    assert_eq!(e.get_last_id("anything"), None);
    assert_eq!(d.get_last_id("anything"), None);
}

#[test]
fn corrupt_documents_are_refused() {
    let mut d = Data::new();
    assert_eq!(d.load_state(""), Err(DataError::CorruptState));
    assert_eq!(d.load_state("{"), Err(DataError::CorruptState));
    assert_eq!(d.load_state("[]\n"), Err(DataError::CorruptState));
    assert_eq!(d.load_state("{\n  \"a\": x\n}\n"), Err(DataError::CorruptState));
    assert_eq!(d.load_state("{\n  \"a\": 1\n"), Err(DataError::CorruptState));
    // a value beyond the cursor range is refused, not truncated
    assert_eq!(
        d.load_state("{\n  \"a\": 99999999999999999999999\n}\n"),
        Err(DataError::CorruptState)
    );
    // a duplicated key cannot be a well-formed state
    assert_eq!(
        d.load_state("{\n  \"a\": 1,\n  \"a\": 2\n}\n"),
        Err(DataError::CorruptState)
    );
}

#[test]
fn unstorable_platform_name_is_refused_and_state_kept() {
    let mut d = Data::new();
    let _ = d.set_last_id("ok", 5).unwrap();
    assert_eq!(d.set_last_id("bad\nname", 9), Err(DataError::UnstorablePlatform));
    assert_eq!(d.set_last_id("bad\"name", 9), Err(DataError::UnstorablePlatform));
    assert_eq!(d.get_last_id("ok"), Some(5));
    assert_eq!(d.get_last_id("bad\nname"), None);
}

#[test]
fn updating_one_platform_leaves_others_alone() {
    let mut d = Data::new();
    let _ = d.set_last_id("a", 1).unwrap();
    let _ = d.set_last_id("b", 2).unwrap();
    let doc = d.set_last_id("a", 10).unwrap();
    assert_eq!(d.get_last_id("a"), Some(10));
    assert_eq!(d.get_last_id("b"), Some(2));
    let mut fresh = Data::new();
    fresh.load_state(&doc).unwrap();
    assert_eq!(fresh.get_last_id("a"), Some(10));
    assert_eq!(fresh.get_last_id("b"), Some(2));
}

#[test]
fn appended_records_build_header_then_rows_in_order() {
    let mut d = Data::new();
    let first = d.store_repo("platA", repo("1", "r1", true, false));
    assert!(first.created);
    assert_eq!(
        first.chunk,
        "id,name,has_cargo_toml,has_cargo_lock\n1,r1,true,false\n"
    );
    let second = d.store_repo("platA", repo("2", "r2", false, true));
    assert!(!second.created);
    assert_eq!(second.chunk, "2,r2,false,true\n");

    let contents = d.outputs.iter().find(|f| f.platform == "platA").unwrap().contents.clone();
    assert_eq!(
        contents,
        "id,name,has_cargo_toml,has_cargo_lock\n1,r1,true,false\n2,r2,false,true\n"
    );

    // a third append preserves the first two rows unchanged
    let third = d.store_repo("platA", repo("3", "r3", true, true));
    assert!(!third.created);
    let after = d.outputs.iter().find(|f| f.platform == "platA").unwrap().contents.clone();
    assert!(after.starts_with(&contents));
    assert_eq!(after, format!("{}3,r3,true,true\n", contents));
}

#[test]
fn outputs_are_kept_per_platform() {
    let mut d = Data::new();
    let _ = d.store_repo("one", repo("1", "r1", true, false));
    let _ = d.store_repo("two", repo("2", "r2", false, false));
    let one = d.outputs.iter().find(|f| f.platform == "one").unwrap();
    let two = d.outputs.iter().find(|f| f.platform == "two").unwrap();
    assert!(one.contents.contains("1,r1,true,false"));
    assert!(!one.contents.contains("2,r2"));
    assert!(two.contents.contains("2,r2,false,false"));
}

#[test]
fn fields_are_quoted_the_way_a_csv_reader_expects() {
    let mut d = Data::new();
    let out = d.store_repo(
        "p",
        repo("7", "odd,\"name\"\nhere", false, true),
    );
    let expected_row = "7,\"odd,\"\"name\"\"\nhere\",false,true\n";
    assert_eq!(
        out.chunk,
        format!("id,name,has_cargo_toml,has_cargo_lock\n{}", expected_row)
    );

    // an independent CSV writer produces the same bytes for that record
    let mut w = csv::WriterBuilder::new().from_writer(Vec::new());
    w.write_record(&["id", "name", "has_cargo_toml", "has_cargo_lock"]).unwrap();
    w.write_record(&["7", "odd,\"name\"\nhere", "false", "true"]).unwrap();
    let bytes = w.into_inner().unwrap();
    assert_eq!(String::from_utf8(bytes).unwrap(), out.chunk);
}
