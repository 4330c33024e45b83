//! JSON Schema contracts, compiled by `jsonschema` from their JSON text and
//! consulted on JSON text. What `jsonschema` decides (which schemas compile,
//! which instances they accept, what they report) takes pages to state, so it
//! is named here as a function of the texts. The crate is built without its
//! remote and file resolvers, so nothing but the texts enters a verdict.
//! That `jsonschema` returns on every schema and instance it is handed is
//! taken from its documentation, which names no input it panics on; its
//! source was not shown to be free of panics.

use vstd::prelude::*;

verus! {

/// Why `text` is not a JSON document: `None` when `serde_json::from_str`
/// parses it into a `serde_json::Value`, otherwise serde_json's error text.
pub uninterp spec fn json_parse_failure(text: Seq<char>) -> Option<Seq<char>>;

/// Why the JSON Schema document `schema` does not compile: `None` when
/// `jsonschema::validator_for` accepts it, otherwise its error text.
pub uninterp spec fn schema_compile_failure(schema: Seq<char>) -> Option<Seq<char>>;

/// Whether the schema compiled from `schema` accepts the JSON document
/// `instance` (`jsonschema::Validator::is_valid`).
pub uninterp spec fn schema_accepts(schema: Seq<char>, instance: Seq<char>) -> bool;

/// The first violation the schema compiled from `schema` reports for the JSON
/// document `instance` (`jsonschema::Validator::iter_errors`, its first
/// item's text), or `None` when it reports none.
pub uninterp spec fn schema_first_violation(schema: Seq<char>, instance: Seq<char>) -> Option<Seq<char>>;

/// Why `text` is not a JSON document (`serde_json::from_str` into a
/// `serde_json::Value`): `None` when it parses, otherwise serde_json's error
/// text.
#[verifier::external_body]
pub(crate) fn json_syntax_error(text: &str) -> (r: Option<String>)
    ensures
        match r {
            Some(m) => json_parse_failure(text@) == Some(m@),
            None => json_parse_failure(text@) is None,
        },
{
    match serde_json::from_str::<serde_json::Value>(text) {
        Ok(_) => None,
        Err(error) => Some(error.to_string()),
    }
}

/// A compiled `jsonschema::Validator`, held opaquely. The outside type shares
/// its name with this crate's `Validator`, which rules out declaring it for
/// Verus directly, so it is wrapped here instead.
#[verifier::external_body]
struct Compiled {
    inner: jsonschema::Validator,
}

/// A JSON Schema contract: the schema's JSON text and the validator compiled
/// from it. Only `compile_contract` makes one, so the two always belong
/// together.
pub struct Contract {
    source: String,
    compiled: Compiled,
}

impl Contract {
    /// The JSON text of the schema this contract was compiled from.
    pub closed spec fn source(&self) -> Seq<char> {
        self.source@
    }
}

/// Compiles the JSON Schema document `source` (parsed by
/// `serde_json::from_str`, then `jsonschema::validator_for`). A schema that
/// does not compile comes back as jsonschema's error text; which schemas
/// compile is named, not stated.
#[verifier::external_body]
pub(crate) fn compile_contract(source: String) -> (r: Result<Contract, String>)
    requires
        json_parse_failure(source@) is None,
    ensures
        match r {
            Ok(c) => c.source() == source@ && schema_compile_failure(source@) is None,
            Err(m) => schema_compile_failure(source@) == Some(m@),
        },
{
    let schema = serde_json::from_str::<serde_json::Value>(&source).unwrap();
    match jsonschema::validator_for(&schema) {
        Ok(inner) => Ok(Contract { source, compiled: Compiled { inner } }),
        Err(error) => Err(error.to_string()),
    }
}

/// Whether `contract` accepts the JSON document `instance` (parsed by
/// `serde_json::from_str`, then `jsonschema::Validator::is_valid`); the
/// verdict is named, not stated.
#[verifier::external_body]
pub(crate) fn contract_accepts(contract: &Contract, instance: &str) -> (r: bool)
    requires
        json_parse_failure(instance@) is None,
    ensures
        r == schema_accepts(contract.source(), instance@),
{
    let value = serde_json::from_str::<serde_json::Value>(instance).unwrap();
    contract.compiled.inner.is_valid(&value)
}

/// The first violation `contract` reports for the JSON document `instance`
/// (parsed by `serde_json::from_str`, then the first item of
/// `jsonschema::Validator::iter_errors`, as text); what it reports is named,
/// not stated.
#[verifier::external_body]
pub(crate) fn contract_first_violation(contract: &Contract, instance: &str) -> (r: Option<String>)
    requires
        json_parse_failure(instance@) is None,
    ensures
        match r {
            Some(m) => schema_first_violation(contract.source(), instance@) == Some(m@),
            None => schema_first_violation(contract.source(), instance@) is None,
        },
{
    let value = serde_json::from_str::<serde_json::Value>(instance).unwrap();
    let first = match contract.compiled.inner.iter_errors(&value).next() {
        Some(error) => Some(error.to_string()),
        None => None,
    };
    first
}

} // verus!
