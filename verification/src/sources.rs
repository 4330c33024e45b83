//! Rust sources as the migration and the macros read them: parsed by `syn`.
//! A project is parsed whole before anything is migrated, so a file that does
//! not parse stops the migration before any output exists.

use vstd::prelude::*;

verus! {

/// `syn::File`, a parsed Rust source file. Opaque here: only `syn` reads it.
#[verifier::external_type_specification]
#[verifier::external_body]
pub struct ExSynFile(syn::File);

/// `syn::ItemTrait`, a parsed trait definition. Opaque here.
#[verifier::external_type_specification]
#[verifier::external_body]
pub struct ExSynItemTrait(syn::ItemTrait);

/// `syn::Error`, a parse failure located in the tokens. Opaque here.
#[verifier::external_type_specification]
#[verifier::external_body]
pub struct ExSynError(syn::Error);

/// `proc_macro2::TokenStream`, the tokens a macro receives. Opaque here.
#[verifier::external_type_specification]
#[verifier::external_body]
pub struct ExTokenStream(proc_macro2::TokenStream);

/// Why `src` is not a Rust source file: `None` when `syn` parses it as a
/// `syn::File`, otherwise the message of syn's error.
pub uninterp spec fn rust_parse_error(src: Seq<char>) -> Option<Seq<char>>;

/// Parses a Rust source file (`syn::parse_str::<syn::File>`); a failure comes
/// back as the message of syn's error. Which sources parse is named, not
/// stated.
#[verifier::external_body]
fn parse_rust_file(src: &str) -> (r: Result<syn::File, String>)
    ensures
        match r {
            Ok(_) => rust_parse_error(src@) is None,
            Err(m) => rust_parse_error(src@) == Some(m@),
        },
{
    match syn::parse_str::<syn::File>(src) {
        Ok(file) => Ok(file),
        Err(error) => Err(error.to_string()),
    }
}

/// Parses the trait a `#[procedures]` attribute is applied to
/// (`syn::parse2::<syn::ItemTrait>`). Tokens are opaque here, so nothing is
/// stated of the outcome.
#[verifier::external_body]
fn parse_item_trait(item: proc_macro2::TokenStream) -> Result<syn::ItemTrait, syn::Error> {
    syn::parse2::<syn::ItemTrait>(item)
}

/// Parses every file of a project, in order: `(path, source)` pairs in, the
/// parsed files out, one per pair. The first source that does not parse stops
/// the whole project with its message, so a project is migrated whole or not
/// at all.
pub fn parse_project(files: &Vec<(String, String)>) -> (r: Result<Vec<syn::File>, String>)
    ensures
        r is Err <==> exists|i: int| 0 <= i < files@.len() && #[trigger] rust_parse_error(files@[i].1@) is Some,
        r matches Err(m) ==> exists|i: int| 0 <= i < files@.len()
            && (forall|k: int| 0 <= k < i ==> #[trigger] rust_parse_error(files@[k].1@) is None)
            && #[trigger] rust_parse_error(files@[i].1@) == Some(m@),
        r matches Ok(parsed) ==> parsed@.len() == files@.len(),
{
    let mut parsed: Vec<syn::File> = Vec::new();
    let mut i: usize = 0;
    while i < files.len()
        invariant
            i <= files@.len(),
            parsed@.len() == i,
            forall|k: int| 0 <= k < i ==> #[trigger] rust_parse_error(files@[k].1@) is None,
        decreases files.len() - i,
    {
        match parse_rust_file(files[i].1.as_str()) {
            Ok(file) => parsed.push(file),
            Err(m) => {
                assert(rust_parse_error(files@[i as int].1@) == Some(m@));
                return Err(m);
            },
        }
        i += 1;
    }
    Ok(parsed)
}

/// The trait a `#[procedures]` attribute is applied to, parsed from the
/// tokens of the annotated item; the parse error, located in those tokens,
/// when they are not a trait definition.
pub fn procedures_item(item: proc_macro2::TokenStream) -> Result<syn::ItemTrait, syn::Error> {
    parse_item_trait(item)
}

} // verus!
