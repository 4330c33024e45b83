use ttipc::sources::{parse_project, procedures_item};

fn file(path: &str, src: &str) -> (String, String) {
    (path.to_string(), src.to_string())
}

#[test]
fn a_project_parses_whole() {
    let files = vec![file("a.rs", "fn a() {}"), file("b.rs", "// only a comment\n")];
    let parsed = parse_project(&files).ok().expect("both files parse");
    assert_eq!(parsed.len(), 2);
    assert_eq!(parsed[0].items.len(), 1);
    assert!(parsed[1].items.is_empty());
}

#[test]
fn a_file_that_does_not_parse_stops_the_project() {
    let bad = "fn a( {";
    let files = vec![file("a.rs", "fn a() {}"), file("b.rs", bad), file("c.rs", "struct {")];
    let err = parse_project(&files).err().expect("b.rs does not parse");
    let expected = syn::parse_str::<syn::File>(bad).err().expect("invalid").to_string();
    assert_eq!(err, expected);
}

#[test]
fn an_empty_project_parses() {
    assert!(parse_project(&Vec::new()).ok().expect("nothing to parse").is_empty());
}

#[test]
fn the_procedures_item_must_be_a_trait() {
    let item: proc_macro2::TokenStream = "trait Greeter { fn greet(&self, name: String) -> String; }".parse().unwrap();
    let parsed = procedures_item(item).ok().expect("a trait parses");
    assert_eq!(parsed.ident.to_string(), "Greeter");
    let not_a_trait: proc_macro2::TokenStream = "struct Greeter;".parse().unwrap();
    assert!(procedures_item(not_a_trait).is_err());
}
