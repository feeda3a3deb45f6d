use bottles_plugins::ids::{staging_name, PluginId};
use bottles_plugins::text::{
    appended, chars_of, comes_before, copy_texts, decimal_text, joined, replace_char, same_text,
    trim, white_space,
};

const VALUE: u128 = 0x67e5_5044_10b1_426f_9247_bb68_0e5f_e0c8;
const TEXT: &str = "67e55044-10b1-426f-9247-bb680e5fe0c8";

#[test]
fn identity_is_written_hyphenated() {
    assert_eq!(PluginId::new(VALUE).unwrap().text(), TEXT);
    assert_eq!(
        PluginId::new(1).unwrap().text(),
        "00000000-0000-0000-0000-000000000001"
    );
}

#[test]
fn written_identity_reads_back() {
    let id = PluginId::parse(TEXT).unwrap();
    assert_eq!(id.get(), VALUE);
    assert_eq!(PluginId::parse(&id.text()).unwrap().get(), VALUE);
}

#[test]
fn identity_reads_every_spelling_of_a_uuid() {
    for text in [
        "67E55044-10B1-426F-9247-BB680E5FE0C8",
        "67e5504410b1426f9247bb680e5fe0c8",
        "{67e55044-10b1-426f-9247-bb680e5fe0c8}",
        "urn:uuid:67e55044-10b1-426f-9247-bb680e5fe0c8",
    ] {
        assert_eq!(PluginId::parse(text).map(|id| id.get()), Some(VALUE), "{text}");
    }
}

#[test]
fn other_texts_are_no_identity() {
    for text in [
        "",
        "plugin",
        "67e55044-10b1-426f-9247-bb680e5fe0c",
        "67e55044-10b1-426f-9247-bb680e5fe0cg",
        "67e5504410b1-426f-9247-bb680e5fe0c8",
        " 67e55044-10b1-426f-9247-bb680e5fe0c8",
    ] {
        assert!(PluginId::parse(text).is_none(), "{text}");
    }
}

#[test]
fn nil_uuid_is_no_identity() {
    assert!(PluginId::new(0).is_none());
    assert!(PluginId::parse("00000000-0000-0000-0000-000000000000").is_none());
}

#[test]
fn identities_are_compared_by_value() {
    let id = PluginId::new(VALUE).unwrap();
    assert!(id.same(&PluginId::parse(TEXT).unwrap()));
    assert!(!id.same(&PluginId::new(VALUE + 1).unwrap()));
}

#[test]
fn staging_names_are_random_uuids() {
    let name = staging_name();
    assert_eq!(name.len(), 36);
    assert_eq!(&name[14..15], "4");
    assert!(["8", "9", "a", "b"].contains(&&name[19..20]));
    assert_eq!(PluginId::parse(&name).unwrap().text(), name);
    assert_ne!(name, staging_name());
}

#[test]
fn texts_are_compared_and_ordered() {
    assert!(same_text("grün", "grün"));
    assert!(!same_text("a", "ab"));
    assert!(!same_text("ab", "ac"));
    assert!(comes_before("", "a"));
    assert!(comes_before("a", "ab"));
    assert!(comes_before("Z", "a"));
    assert!(!comes_before("a", "a"));
    assert!(!comes_before("b", "ab"));
    assert_eq!(chars_of("añ"), vec!['a', 'ñ']);
}

#[test]
fn texts_are_edited() {
    assert_eq!(replace_char("my-own-plugin", '-', '_'), "my_own_plugin");
    assert_eq!(replace_char("plain", '-', '_'), "plain");
    assert_eq!(trim(" \t/lib/target\u{2003}\r\n"), "/lib/target");
    assert_eq!(trim(" \n "), "");
    assert_eq!(trim("a b"), "a b");
    assert_eq!(appended("a", "b"), "ab");
    assert_eq!(joined("a", "b", "c"), "abc");
    assert_eq!(
        copy_texts(&vec!["a".to_owned(), "b".to_owned()]),
        vec!["a".to_owned(), "b".to_owned()]
    );
}

#[test]
fn white_space_is_that_of_unicode() {
    for value in 0..0x11_0000u32 {
        if let Some(c) = char::from_u32(value) {
            assert_eq!(white_space(c), c.is_whitespace(), "{value:x}");
        }
    }
}

#[test]
fn numbers_are_written_in_decimal() {
    assert_eq!(decimal_text(0), "0");
    assert_eq!(decimal_text(9), "9");
    assert_eq!(decimal_text(10), "10");
    assert_eq!(decimal_text(65535), "65535");
    assert_eq!(decimal_text(u64::MAX), "18446744073709551615");
}
