use ttipc::arg_types::{inline_leaf, prepare_args, ArgType};

fn describe(t: &ArgType) -> String {
    match t {
        ArgType::Inline(inner) => format!("inline({})", describe(inner)),
        ArgType::Named(n) => format!("named#{n}"),
        ArgType::List { item, rest } => format!("list#{rest}({})", describe(item)),
        ArgType::Dict { key, value, rest } => format!("map#{rest}({}, {})", describe(key), describe(value)),
        ArgType::Tuple { elements, rest } => {
            format!("tuple#{rest}({})", elements.iter().map(describe).collect::<Vec<_>>().join(", "))
        }
        ArgType::Nullable(inner) => format!("nullable({})", describe(inner)),
        ArgType::Intersection(parts) => format!("all({})", parts.iter().map(describe).collect::<Vec<_>>().join(", ")),
        ArgType::Leaf(n) => format!("leaf#{n}"),
    }
}

fn inline(t: ArgType) -> ArgType {
    ArgType::Inline(Box::new(t))
}

#[test]
fn a_bare_primitive_is_unwrapped() {
    // `name: String` arrives as a named reference inlining the primitive.
    assert_eq!(describe(&inline_leaf(inline(ArgType::Leaf(0)))), "leaf#0");
    assert_eq!(describe(&inline_leaf(inline(inline(ArgType::Named(3))))), "named#3");
}

#[test]
fn container_elements_are_unwrapped_recursively() {
    // `values: Vec<u32>`, `Option<String>`, `(String, Progress)`, `HashMap<String, u8>`.
    let list = ArgType::List { item: Box::new(inline(ArgType::Leaf(1))), rest: 7 };
    assert_eq!(describe(&inline_leaf(list)), "list#7(leaf#1)");
    let nullable = ArgType::Nullable(Box::new(inline(ArgType::Leaf(2))));
    assert_eq!(describe(&inline_leaf(nullable)), "nullable(leaf#2)");
    let tuple = ArgType::Tuple { elements: vec![inline(ArgType::Leaf(0)), ArgType::Named(5)], rest: 9 };
    assert_eq!(describe(&inline_leaf(tuple)), "tuple#9(leaf#0, named#5)");
    let map = ArgType::Dict { key: Box::new(inline(ArgType::Leaf(0))), value: Box::new(inline(ArgType::Leaf(4))), rest: 1 };
    assert_eq!(describe(&inline_leaf(map)), "map#1(leaf#0, leaf#4)");
    let both = ArgType::Intersection(vec![inline(ArgType::Leaf(0)), ArgType::List { item: Box::new(inline(ArgType::Leaf(1))), rest: 2 }]);
    assert_eq!(describe(&inline_leaf(both)), "all(leaf#0, list#2(leaf#1))");
}

#[test]
fn genuine_named_types_stay_references() {
    assert_eq!(describe(&inline_leaf(ArgType::Named(8))), "named#8");
    assert_eq!(describe(&inline_leaf(ArgType::Leaf(8))), "leaf#8");
    // Preparing twice changes nothing.
    let once = inline_leaf(ArgType::List { item: Box::new(inline(ArgType::Leaf(1))), rest: 0 });
    let text = describe(&once);
    assert_eq!(describe(&inline_leaf(once)), text);
}

#[test]
fn argument_fields_keep_their_names() {
    let fields = prepare_args(vec![
        (String::from("name"), inline(ArgType::Leaf(0))),
        (String::from("values"), ArgType::List { item: Box::new(inline(ArgType::Leaf(1))), rest: 3 }),
    ]);
    assert_eq!(fields.len(), 2);
    assert_eq!(fields[0].0, "name");
    assert_eq!(describe(&fields[0].1), "leaf#0");
    assert_eq!(fields[1].0, "values");
    assert_eq!(describe(&fields[1].1), "list#3(leaf#1)");
}
