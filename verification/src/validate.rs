//! Runtime payload validation: compiled per-command argument contracts,
//! consulted before dispatch. A command the validator does not cover passes;
//! routing, not validation, decides whether an unknown command is an error.

use vstd::prelude::*;
use crate::text::{concat2, owned, push_decimal, push_str, same_text, decimal_spec, lemma_decimal_injective};
use crate::naming::command_wire_name;
use crate::signature::{plan_trait_spec, TraitShape};
use crate::json::{Json, member, member_of, render, render_json};
use crate::contract::{
    compile_contract, contract_accepts, contract_first_violation, json_parse_failure, json_syntax_error,
    schema_accepts, schema_compile_failure, schema_first_violation, Contract,
};

verus! {

/// What `{:?}` renders for a string: the string quoted, with std's escapes.
pub uninterp spec fn debug_text(s: Seq<char>) -> Seq<char>;

/// The string's `Debug` rendering (`format!("{s:?}")`): a function of the
/// string alone, named here rather than spelled out.
#[verifier::external_body]
fn debug_quoted(s: &str) -> (out: String)
    ensures
        out@ == debug_text(s@),
{
    format!("{s:?}")
}

/// The name of the synthesized definition holding the arguments of the
/// procedure at `index`: `TtipcArgs{index}`.
pub open spec fn args_definition_spec(index: nat) -> Seq<char> {
    "TtipcArgs"@ + decimal_spec(index)
}

/// The name of the synthesized definition holding the arguments of the
/// procedure at `index`; unique per procedure, so it cannot collide.
pub fn args_definition(index: usize) -> (out: String)
    ensures
        out@ == args_definition_spec(index as nat),
{
    let mut out = owned("TtipcArgs");
    push_decimal(&mut out, index);
    out
}

/// The wire names of a set's procedures under its optional namespace.
pub open spec fn wire_names_of(namespace: Option<Seq<char>>, names: Seq<String>) -> Seq<Seq<char>> {
    names.map_values(|n: String| match namespace {
        Some(ns) => ns + seq!['.'] + n@,
        None => n@,
    })
}

/// The view of an optional string slice.
pub open spec fn opt_str(o: Option<&str>) -> Option<Seq<char>> {
    match o {
        Some(s) => Some(s@),
        None => None,
    }
}

/// Failure assembling a `Validator` from a procedure set: the contract's
/// JSON Schema could not be built or compiled. Structural, so it is raised
/// once when the validator is assembled, never per call.
pub enum ValidatorError {
    /// The JSON Schema could not be built: its text is not a JSON document
    /// (or, where the document is read from text, that text is not).
    Schema(String),
    /// The rendered schema could not be compiled into a validator.
    Compile(String),
}

/// The display text of a `ValidatorError`.
pub open spec fn validator_error_text(e: ValidatorError) -> Seq<char> {
    match e {
        ValidatorError::Schema(m) => "building the JSON Schema contract failed: "@ + m@,
        ValidatorError::Compile(m) => "compiling the validator failed: "@ + m@,
    }
}

impl ValidatorError {
    /// The display text of this failure.
    pub fn message(&self) -> (m: String)
        ensures
            m@ == validator_error_text(*self),
    {
        match self {
            ValidatorError::Schema(m) => concat2("building the JSON Schema contract failed: ", m.as_str()),
            ValidatorError::Compile(m) => concat2("compiling the validator failed: ", m.as_str()),
        }
    }
}

/// A payload that failed its command's contract, rejected at the boundary
/// before dispatch.
pub struct ValidationError {
    /// The wire command whose arguments failed.
    pub command: String,
    /// The first schema violation, as a human-readable message.
    pub message: String,
}

/// The display text of a `ValidationError`:
/// `invalid payload for {command:?}: {message}`.
pub open spec fn validation_error_text(e: ValidationError) -> Seq<char> {
    "invalid payload for "@ + debug_text(e.command@) + ": "@ + e.message@
}

/// The message a rejection carries when the validator reports no violation
/// of its own.
pub open spec fn no_violation_text() -> Seq<char> {
    "does not match the schema"@
}

impl ValidationError {
    /// The display text of this rejection.
    pub fn to_message(&self) -> (m: String)
        ensures
            m@ == validation_error_text(*self),
    {
        let mut out = owned("invalid payload for ");
        let quoted = debug_quoted(self.command.as_str());
        push_str(&mut out, quoted.as_str());
        push_str(&mut out, ": ");
        push_str(&mut out, self.message.as_str());
        out
    }

    /// The rejection of `command`'s payload, carrying the first violation the
    /// schema reported, or a generic message when it reported none.
    pub fn rejecting(command: &str, first_violation: Option<String>) -> (e: ValidationError)
        ensures
            e.command@ == command@,
            e.message@ == match first_violation {
                Some(v) => v@,
                None => no_violation_text(),
            },
    {
        let message = match first_violation {
            Some(v) => v,
            None => owned("does not match the schema"),
        };
        ValidationError { command: owned(command), message }
    }
}

/// Whether the commands of `commands` are pairwise distinct.
pub open spec fn keys_unique(commands: Seq<(String, Contract)>) -> bool {
    forall|i: int, j: int|
        0 <= i < j < commands.len() ==> #[trigger] commands[i].0@ != #[trigger] commands[j].0@
}

/// Whether the JSON text `schema` parses and compiles into a contract.
pub open spec fn contract_builds(schema: Seq<char>) -> bool {
    json_parse_failure(schema) is None && schema_compile_failure(schema) is None
}

/// The schema text each command of `commands` is held to.
pub open spec fn contract_map(commands: Seq<(String, Contract)>) -> Map<Seq<char>, Seq<char>> {
    Map::new(
        |k: Seq<char>| exists|i: int| 0 <= i < commands.len() && commands[i].0@ == k,
        |k: Seq<char>| commands[choose|i: int| 0 <= i < commands.len() && commands[i].0@ == k].1.source(),
    )
}

/// With distinct commands, the command at `i` is held to its own contract.
proof fn lemma_contract_at(commands: Seq<(String, Contract)>, i: int)
    requires
        keys_unique(commands),
        0 <= i < commands.len(),
    ensures
        contract_map(commands).dom().contains(commands[i].0@),
        contract_map(commands)[commands[i].0@] == commands[i].1.source(),
{
    let k = commands[i].0@;
    assert(contract_map(commands).dom().contains(k));
    let j = choose|j: int| 0 <= j < commands.len() && commands[j].0@ == k;
    if j < i {
        assert(commands[j].0@ != commands[i].0@);
    } else if i < j {
        assert(commands[i].0@ != commands[j].0@);
    }
}

/// The contracts after registering `texts[k]` under `wires[k]` for each
/// `k < n`, in order, over `start`; a later registration of the same command
/// replaces an earlier one.
pub open spec fn registered(
    start: Map<Seq<char>, Seq<char>>,
    wires: Seq<Seq<char>>,
    texts: Seq<Seq<char>>,
    n: nat,
) -> Map<Seq<char>, Seq<char>>
    decreases n,
{
    if n == 0 {
        start
    } else {
        registered(start, wires, texts, (n - 1) as nat).insert(wires[n - 1], texts[n - 1])
    }
}

/// The JSON Schema text of the contract of the procedure at `index`: the
/// draft-07 dialect, a reference to the definition `TtipcArgs{index}`, and
/// the exported `definitions` (JSON text) that every reference resolves in.
pub open spec fn contract_text(index: nat, definitions: Seq<char>) -> Seq<char> {
    "{\"$schema\":\"http://json-schema.org/draft-07/schema#\",\"$ref\":\"#/definitions/"@
        + args_definition_spec(index) + "\",\"definitions\":"@ + definitions + "}"@
}

/// The JSON text of the exported document's `definitions` member, or of an
/// empty object when it has none.
pub open spec fn definitions_text(document: Json) -> Seq<char> {
    match member_of(document, "definitions"@) {
        Some(d) => render_json(d),
        None => "{}"@,
    }
}

/// The contract texts of `n` procedures over the same definitions.
pub open spec fn contract_texts(n: nat, definitions: Seq<char>) -> Seq<Seq<char>> {
    Seq::new(n, |i: int| contract_text(i as nat, definitions))
}

/// Whether `e` is the failure that building a contract from `schema` meets:
/// a text that does not parse fails with `Schema`, one that does not compile
/// with `Compile`, each carrying the outside error text.
pub open spec fn fails_with(schema: Seq<char>, e: ValidatorError) -> bool {
    match e {
        ValidatorError::Schema(m) => json_parse_failure(schema) == Some(m@),
        ValidatorError::Compile(m) => json_parse_failure(schema) is None && schema_compile_failure(schema) == Some(m@),
    }
}

/// Whether a payload whose JSON text is `instance` satisfies the contract
/// `schema`: it parses and the schema accepts it.
pub open spec fn payload_accepted(schema: Seq<char>, instance: Seq<char>) -> bool {
    json_parse_failure(instance) is None && schema_accepts(schema, instance)
}

/// The message a rejected payload carries: the parser's error for a text that
/// does not parse, otherwise the schema's first violation, or a generic
/// message when it reports none.
pub open spec fn rejection_text(schema: Seq<char>, instance: Seq<char>) -> Seq<char> {
    match json_parse_failure(instance) {
        Some(m) => m,
        None => match schema_first_violation(schema, instance) {
            Some(v) => v,
            None => no_violation_text(),
        },
    }
}

/// Registration over `start` covers what `start` covered and every
/// registered command.
pub proof fn lemma_registered_covers(
    start: Map<Seq<char>, Seq<char>>,
    wires: Seq<Seq<char>>,
    texts: Seq<Seq<char>>,
    n: nat,
)
    requires
        n <= wires.len(),
    ensures
        registered(start, wires, texts, n).dom() == start.dom() + wires.take(n as int).to_set(),
    decreases n,
{
    if n == 0 {
        assert(wires.take(0).to_set() =~= Set::<Seq<char>>::empty());
        assert(start.dom() + Set::<Seq<char>>::empty() =~= start.dom());
    } else {
        lemma_registered_covers(start, wires, texts, (n - 1) as nat);
        assert(wires.take(n as int) =~= wires.take(n - 1).push(wires[n - 1]));
        wires.take(n - 1).lemma_push_to_set_commute(wires[n - 1]);
        assert(registered(start, wires, texts, n).dom() =~= start.dom() + wires.take(n as int).to_set());
    }
}

/// When the registered commands are distinct, each is held to its own
/// contract text.
pub proof fn lemma_registered_own_contract(
    start: Map<Seq<char>, Seq<char>>,
    wires: Seq<Seq<char>>,
    texts: Seq<Seq<char>>,
    n: nat,
    i: int,
)
    requires
        n <= wires.len(),
        0 <= i < n,
        forall|a: int, b: int| 0 <= a < b < n ==> #[trigger] wires[a] != #[trigger] wires[b],
    ensures
        registered(start, wires, texts, n)[wires[i]] == texts[i],
    decreases n,
{
    if i < n - 1 {
        lemma_registered_own_contract(start, wires, texts, (n - 1) as nat, i);
        assert(wires[i] != wires[n - 1]);
    }
}

/// Compiled per-command argument contracts, keyed by wire command name
/// (namespaced when the set is). No command is held twice, and every contract
/// held compiled.
pub struct Validator {
    commands: Vec<(String, Contract)>,
}

impl Validator {
    #[verifier::type_invariant]
    spec fn well_formed(self) -> bool {
        &&& keys_unique(self.commands@)
        &&& forall|i: int| 0 <= i < self.commands@.len() ==> #[trigger] contract_builds(self.commands@[i].1.source())
    }

    /// The schema text each covered command is held to.
    pub closed spec fn contracts(&self) -> Map<Seq<char>, Seq<char>> {
        contract_map(self.commands@)
    }

    /// The wire commands this validator covers.
    pub open spec fn covered(&self) -> Set<Seq<char>> {
        self.contracts().dom()
    }

    /// An empty validator that passes every command.
    pub fn new() -> (v: Self)
        ensures
            v.contracts() == Map::<Seq<char>, Seq<char>>::empty(),
    {
        let v = Validator { commands: Vec::new() };
        assert(contract_map(v.commands@) =~= Map::<Seq<char>, Seq<char>>::empty());
        v
    }

    /// The position of `command` among the held commands.
    fn position(&self, command: &str) -> (r: Option<usize>)
        ensures
            match r {
                Some(i) => i < self.commands@.len() && self.commands@[i as int].0@ == command@,
                None => !self.covered().contains(command@),
            },
    {
        let mut i: usize = 0;
        while i < self.commands.len()
            invariant
                i <= self.commands@.len(),
                forall|k: int| 0 <= k < i ==> self.commands@[k].0@ != command@,
            decreases self.commands.len() - i,
        {
            if same_text(self.commands[i].0.as_str(), command) {
                return Some(i);
            }
            i += 1;
        }
        None
    }

    /// Whether this validator covers `command`.
    pub fn covers(&self, command: &str) -> (r: bool)
        ensures
            r == self.covered().contains(command@),
    {
        match self.position(command) {
            Some(i) => {
                assert(contract_map(self.commands@).dom().contains(command@));
                true
            },
            None => false,
        }
    }

    /// Holds `command` to `contract`, replacing any earlier contract of it.
    fn insert(&mut self, command: String, contract: Contract)
        requires
            contract_builds(contract.source()),
        ensures
            final(self).contracts() == old(self).contracts().insert(command@, contract.source()),
    {
        proof {
            use_type_invariant(&*self);
        }
        let ghost before = self.commands@;
        let ghost key = command@;
        let ghost source = contract.source();
        let found = self.position(command.as_str());
        let mut commands: Vec<(String, Contract)> = Vec::new();
        std::mem::swap(&mut commands, &mut self.commands);
        match found {
            Some(i) => {
                commands.set(i, (command, contract));
                proof {
                    assert forall|a: int| 0 <= a < commands@.len() implies #[trigger] commands@[a].0@ == before[a].0@ by {}
                    assert(keys_unique(commands@));
                    lemma_contract_at(commands@, i as int);
                    assert forall|k: Seq<char>| k != key implies
                        (#[trigger] contract_map(commands@).dom().contains(k) == contract_map(before).dom().contains(k))
                        && (contract_map(before).dom().contains(k) ==> contract_map(commands@)[k] == contract_map(before)[k]) by {
                        if contract_map(before).dom().contains(k) {
                            let j = choose|j: int| 0 <= j < before.len() && before[j].0@ == k;
                            lemma_contract_at(before, j);
                            lemma_contract_at(commands@, j);
                        }
                        if contract_map(commands@).dom().contains(k) {
                            let j = choose|j: int| 0 <= j < commands@.len() && commands@[j].0@ == k;
                            assert(before[j].0@ == k);
                        }
                    }
                    assert(contract_map(commands@) =~= contract_map(before).insert(key, source));
                }
                self.commands = commands;
            },
            None => {
                commands.push((command, contract));
                proof {
                    assert forall|a: int, b: int| 0 <= a < b < commands@.len() implies
                        #[trigger] commands@[a].0@ != #[trigger] commands@[b].0@ by {
                        assert(commands@[a] == before[a]);
                        if b == before.len() {
                            assert(contract_map(before).dom().contains(before[a].0@));
                        } else {
                            assert(commands@[b] == before[b]);
                        }
                    }
                    lemma_contract_at(commands@, before.len() as int);
                    assert forall|k: Seq<char>| k != key implies
                        (#[trigger] contract_map(commands@).dom().contains(k) == contract_map(before).dom().contains(k))
                        && (contract_map(before).dom().contains(k) ==> contract_map(commands@)[k] == contract_map(before)[k]) by {
                        if contract_map(before).dom().contains(k) {
                            let j = choose|j: int| 0 <= j < before.len() && before[j].0@ == k;
                            lemma_contract_at(before, j);
                            assert(commands@[j] == before[j]);
                            lemma_contract_at(commands@, j);
                        }
                        if contract_map(commands@).dom().contains(k) {
                            let j = choose|j: int| 0 <= j < commands@.len() && commands@[j].0@ == k;
                            assert(j < before.len());
                            assert(before[j].0@ == k);
                        }
                    }
                    assert(contract_map(commands@) =~= contract_map(before).insert(key, source));
                }
                self.commands = commands;
            },
        }
    }

    /// Compiles a contract for every procedure of a set from the JSON Schema
    /// document exported for it, and holds each under its wire command name
    /// (`ns.name` when the set is namespaced). The contract of the procedure
    /// at `index` is the draft-07 schema that refers to its arguments'
    /// definition `TtipcArgs{index}` among the document's `definitions`.
    /// Registration stops at the first contract that does not build: a text
    /// that does not parse fails with `Schema`, a schema that does not compile
    /// with `Compile`. Both are structural, so they surface once, when the
    /// validator is assembled.
    pub fn register(self, namespace: Option<&str>, procedures: &Vec<String>, document: &Json) -> (r: Result<Validator, ValidatorError>)
        ensures
            ({
                let texts = contract_texts(procedures@.len(), definitions_text(*document));
                &&& (r is Ok <==> forall|i: int| 0 <= i < procedures@.len() ==> #[trigger] contract_builds(texts[i]))
                &&& (r matches Err(e) ==> exists|i: int| 0 <= i < procedures@.len()
                        && (forall|k: int| 0 <= k < i ==> #[trigger] contract_builds(texts[k]))
                        && fails_with(#[trigger] texts[i], e))
                &&& (r matches Ok(v) ==> v.contracts() == registered(
                        self.contracts(), wire_names_of(opt_str(namespace), procedures@), texts, procedures@.len()))
            }),
            r matches Ok(v) ==> v.covered() == self.covered() + wire_names_of(opt_str(namespace), procedures@).to_set(),
    {
        let definitions = match member(document, "definitions") {
            Some(d) => render(d),
            None => owned("{}"),
        };
        let ghost defs = definitions_text(*document);
        assert(definitions@ == defs);
        let ghost texts = contract_texts(procedures@.len(), defs);
        let ghost wires = wire_names_of(opt_str(namespace), procedures@);
        let ghost start = self.contracts();
        let mut this = self;
        let mut i: usize = 0;
        while i < procedures.len()
            invariant
                i <= procedures@.len(),
                definitions@ == defs,
                defs == definitions_text(*document),
                texts == contract_texts(procedures@.len(), defs),
                wires == wire_names_of(opt_str(namespace), procedures@),
                forall|k: int| 0 <= k < i ==> #[trigger] contract_builds(texts[k]),
                this.contracts() == registered(start, wires, texts, i as nat),
            decreases procedures.len() - i,
        {
            let wire = command_wire_name(namespace, procedures[i].as_str());
            let text = contract_text_of(i, definitions.as_str());
            assert(text@ == texts[i as int]);
            match json_syntax_error(text.as_str()) {
                Some(m) => {
                    assert(fails_with(texts[i as int], ValidatorError::Schema(m)));
                    assert(!contract_builds(texts[i as int]));
                    return Err(ValidatorError::Schema(m));
                },
                None => {},
            }
            let contract = match compile_contract(text) {
                Ok(c) => c,
                Err(m) => {
                    assert(fails_with(texts[i as int], ValidatorError::Compile(m)));
                    assert(!contract_builds(texts[i as int]));
                    return Err(ValidatorError::Compile(m));
                },
            };
            assert(wire@ == wires[i as int]);
            this.insert(wire, contract);
            i += 1;
        }
        proof {
            lemma_registered_covers(start, wires, texts, procedures@.len());
            assert(wires.take(procedures@.len() as int) =~= wires);
        }
        Ok(this)
    }

    /// Validates a call's JSON arguments against the command's contract.
    /// `Ok(())` for a command this validator does not cover; otherwise the
    /// contract decides, on the arguments' JSON text, and a rejection names
    /// the command and carries the schema's first violation.
    pub fn validate(&self, command: &str, args: &Json) -> (r: Result<(), ValidationError>)
        ensures
            !self.covered().contains(command@) ==> r is Ok,
            self.covered().contains(command@)
                ==> (r is Ok <==> payload_accepted(self.contracts()[command@], render_json(*args))),
            r matches Err(e) ==> e.command@ == command@
                && e.message@ == rejection_text(self.contracts()[command@], render_json(*args)),
    {
        proof {
            use_type_invariant(self);
        }
        let i = match self.position(command) {
            None => return Ok(()),
            Some(i) => i,
        };
        proof {
            lemma_contract_at(self.commands@, i as int);
        }
        let contract = &self.commands[i].1;
        let text = render(args);
        match json_syntax_error(text.as_str()) {
            Some(m) => return Err(ValidationError::rejecting(command, Some(m))),
            None => {},
        }
        let accepted = contract_accepts(contract, text.as_str());
        let violation = if accepted {
            None
        } else {
            contract_first_violation(contract, text.as_str())
        };
        verdict(command, accepted, violation)
    }
}

/// The JSON Schema text of the contract of the procedure at `index`, over the
/// exported definitions' JSON text.
pub fn contract_text_of(index: usize, definitions: &str) -> (out: String)
    ensures
        out@ == contract_text(index as nat, definitions@),
{
    let mut out = owned("{\"$schema\":\"http://json-schema.org/draft-07/schema#\",\"$ref\":\"#/definitions/");
    let name = args_definition(index);
    push_str(&mut out, name.as_str());
    push_str(&mut out, "\",\"definitions\":");
    push_str(&mut out, definitions);
    push_str(&mut out, "}");
    out
}

/// The outcome of validating `command`'s payload, given the schema's verdict
/// and, for a rejected payload, the first violation it reported: accepted
/// payloads pass; a rejection names the command and carries the violation, or
/// a generic message when none was reported.
pub fn verdict(command: &str, accepted: bool, violation: Option<String>) -> (r: Result<(), ValidationError>)
    ensures
        accepted ==> r is Ok,
        !accepted ==> (r matches Err(e) && e.command@ == command@ && e.message@ == match violation {
            Some(v) => v@,
            None => no_violation_text(),
        }),
{
    if accepted {
        Ok(())
    } else {
        Err(ValidationError::rejecting(command, violation))
    }
}

impl Default for Validator {
    fn default() -> (v: Self)
        ensures
            v.contracts() == Map::<Seq<char>, Seq<char>>::empty(),
    {
        Self::new()
    }
}

/// The synthesized argument definitions of distinct procedures have distinct
/// names, so no two commands' contracts can collide in the shared schema
/// document.
pub proof fn lemma_args_definitions_distinct(a: nat, b: nat)
    requires
        a != b,
    ensures
        args_definition_spec(a) != args_definition_spec(b),
{
    let p = "TtipcArgs"@;
    if args_definition_spec(a) == args_definition_spec(b) {
        assert((p + decimal_spec(a)).skip(p.len() as int) =~= decimal_spec(a));
        assert((p + decimal_spec(b)).skip(p.len() as int) =~= decimal_spec(b));
        lemma_decimal_injective(a, b);
    }
}

/// A validator registered from a planned procedure set keys each contract by
/// exactly the wire command the handler routes: the set's wire names, in
/// order, namespaced the same way.
pub proof fn lemma_validator_keys_match_routing(t: TraitShape, namespace: Option<&str>, names: Seq<String>)
    requires
        plan_trait_spec(t, opt_str(namespace)) is Ok,
        names.len() == plan_trait_spec(t, opt_str(namespace))->Ok_0.procedures.len(),
        forall|i: int| 0 <= i < names.len()
            ==> #[trigger] names[i]@ == plan_trait_spec(t, opt_str(namespace))->Ok_0.procedures[i].name@,
    ensures
        wire_names_of(opt_str(namespace), names) == plan_trait_spec(t, opt_str(namespace))->Ok_0.wire_names,
{
    let s = plan_trait_spec(t, opt_str(namespace))->Ok_0;
    assert(wire_names_of(opt_str(namespace), names) =~= s.wire_names);
}

} // verus!
