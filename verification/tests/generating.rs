use bottles_plugins::interfaces::{
    collect_variants, interface_exports, interfaces_source, write_source,
};

fn pair(first: &str, second: &str) -> (String, String) {
    (first.to_owned(), second.to_owned())
}

#[test]
fn interfaces_become_an_enumeration_in_the_order_of_their_names() {
    let exports = vec![
        pair("demo:plugin/library-provider@0.1.0", "library-provider"),
        pair("demo:plugin/account-provider@0.1.0", "account-provider"),
        pair("demo:plugin/library-provider@0.1.0", "library-provider"),
    ];
    let expected = [
        "/// Known exported interfaces, generated from the SDK's WIT worlds.",
        "#[derive(Clone, Copy, Debug, Eq, PartialEq)]",
        "pub enum PluginInterface {",
        "    AccountProvider,",
        "    LibraryProvider,",
        "}",
        "impl PluginInterface {",
        "    pub const fn as_str(self) -> &'static str {",
        "        match self {",
        "            Self::AccountProvider => \"demo:plugin/account-provider@0.1.0\",",
        "            Self::LibraryProvider => \"demo:plugin/library-provider@0.1.0\",",
        "        }",
        "    }",
        "}",
        "",
    ]
    .join("\n");
    assert_eq!(interfaces_source(&exports), expected);
}

#[test]
fn generated_names_are_escaped() {
    let source = interfaces_source(&vec![pair("a\"b", "x")]);
    assert!(source.contains("            Self::X => \"a\\\"b\",\n"), "{source}");
}

#[test]
fn later_variants_take_the_place_of_earlier_ones() {
    let variants = collect_variants(&vec![pair("b", "B"), pair("a", "A"), pair("b", "C")]);
    assert_eq!(variants.len(), 2);
    assert_eq!(*variants.at(0), pair("a", "A"));
    assert_eq!(*variants.at(1), pair("b", "C"));
}

#[test]
fn empty_enumeration_is_written() {
    let source = write_source(&vec![]);
    assert!(source.ends_with("pub enum PluginInterface {\n}\nimpl PluginInterface {\n    pub const fn as_str(self) -> &'static str {\n        match self {\n        }\n    }\n}\n"));
    let source = write_source(&vec![pair("\"x\"", "X")]);
    assert!(source.contains("    X,\n"));
    assert!(source.contains("            Self::X => \"x\",\n"));
}

#[test]
fn order_of_the_exports_does_not_matter() {
    let a = pair("demo:plugin/a", "a-provider");
    let b = pair("demo:plugin/b", "b-provider");
    assert_eq!(
        interfaces_source(&vec![a.clone(), b.clone()]),
        interfaces_source(&vec![b, a])
    );
}

#[test]
fn only_interfaces_are_picked() {
    let items = vec![
        ("demo:plugin/b".to_owned(), Some("b".to_owned())),
        ("run".to_owned(), None),
        ("demo:plugin/a".to_owned(), Some("a".to_owned())),
    ];
    assert_eq!(
        interface_exports(&items),
        vec![pair("demo:plugin/b", "b"), pair("demo:plugin/a", "a")]
    );
}
