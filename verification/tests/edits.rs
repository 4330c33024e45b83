use ttipc::edits::{migrated_file, place_rendered, splice, Edit};
use ttipc::findings::{header, Findings};

fn edit(start: usize, end: usize, text: &str) -> Edit {
    Edit { start, end, text: text.as_bytes().to_vec() }
}

#[test]
fn splice_replaces_ranges_and_keeps_everything_else() {
    let src = b"fn a() { old(); } // keep\nfn b() { older(); }\n".to_vec();
    // Out of source order on purpose.
    let edits = vec![edit(35, 40, "newer"), edit(9, 12, "new")];
    let out = splice(&src, &edits);
    assert_eq!(String::from_utf8(out).unwrap(), "fn a() { new(); } // keep\nfn b() { newer(); }\n");
}

#[test]
fn splice_without_edits_is_byte_identical() {
    let src = b"// a comment\r\nfn main() {}\n".to_vec();
    assert_eq!(splice(&src, &Vec::new()), src);
}

#[test]
fn splice_can_replace_the_whole_file_or_grow_it() {
    let src = b"abc".to_vec();
    assert_eq!(splice(&src, &vec![edit(0, 3, "xyz!")]), b"xyz!".to_vec());
    assert_eq!(splice(&src, &vec![edit(1, 2, "")]), b"ac".to_vec());
}

#[test]
fn placed_expression_drops_into_its_column() {
    let rendered = "fn __wrap() {\n    foo(\n        a,\n    )\n}\n";
    assert_eq!(place_rendered(rendered, 8), "foo(\n            a,\n        )");
    let one_line = "fn __wrap() {\n    Event::Tick.emit(&h)\n}\n";
    assert_eq!(place_rendered(one_line, 4), "Event::Tick.emit(&h)");
}

#[test]
fn placing_stops_at_the_closing_brace_and_handles_crlf() {
    let rendered = "fn __wrap() {\r\n    x\r\n}\r\n// trailing\r\n";
    assert_eq!(place_rendered(rendered, 2), "x");
    assert_eq!(place_rendered("", 4), "");
    assert_eq!(place_rendered("fn __wrap() {", 4), "");
}

#[test]
fn an_untouched_file_comes_back_byte_identical() {
    let src = "// a comment\r\nfn main() {}  // é\n";
    assert_eq!(migrated_file(src, &Vec::new(), &Findings::none()), src.as_bytes().to_vec());
}

#[test]
fn a_migrated_file_is_the_header_then_the_spliced_source() {
    let src = "fn a() { old(); }\n";
    let mut findings = Findings::none();
    findings.transformed = true;
    findings.alias_dropped = true;
    let out = migrated_file(src, &vec![edit(9, 12, "new")], &findings);
    let expected = format!("{}fn a() {{ new(); }}\n", header(&findings));
    assert!(header(&findings).starts_with("// Migrated from TauRPC"));
    assert_eq!(String::from_utf8(out).unwrap(), expected);
}
