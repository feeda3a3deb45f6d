use bottles_plugins::error::Error;
use bottles_plugins::ids::PluginId;
use bottles_plugins::inspection::{exported_interfaces, interfaces_of, Section};
use bottles_plugins::package::{
    artifact_of, check_version, find_version, parse_api_version, source_target_name,
    validate_component, validate_package, PackageManifest,
};
use bottles_plugins::version::Version;

const HEADER: [u8; 8] = [0x00, 0x61, 0x73, 0x6d, 0x0d, 0x00, 0x01, 0x00];

fn section(id: u8, content: &[u8]) -> Vec<u8> {
    let mut out = vec![id, content.len() as u8];
    out.extend_from_slice(content);
    out
}

fn custom(name: &str, data: &[u8]) -> Vec<u8> {
    let mut content = vec![name.len() as u8];
    content.extend_from_slice(name.as_bytes());
    content.extend_from_slice(data);
    section(0, &content)
}

fn version_section(data: &[u8]) -> Vec<u8> {
    custom("bottles:api-version", data)
}

fn exported_instance(name: &str) -> Vec<u8> {
    let mut out = section(5, &[1, 1, 0]);
    let mut content = vec![1, 0, name.len() as u8];
    content.extend_from_slice(name.as_bytes());
    content.extend_from_slice(&[5, 0, 0]);
    out.extend(section(11, &content));
    out
}

fn component(sections: &[Vec<u8>]) -> Vec<u8> {
    let mut out = HEADER.to_vec();
    for section in sections {
        out.extend_from_slice(section);
    }
    out
}

fn manifest(api_version: Version) -> PackageManifest {
    PackageManifest {
        id: PluginId::new(7).unwrap(),
        name: "Demo".to_owned(),
        api_version,
        storefront_account: false,
    }
}

#[test]
fn api_version_is_three_big_endian_numbers() {
    let version = parse_api_version(&[0, 1, 2, 3, 0xff, 0xfe]).unwrap();
    assert!(version.same(&Version::new(1, 515, 65534)));
    assert_eq!(version.text(), "1.515.65534");
}

#[test]
fn api_version_of_another_length_is_refused() {
    for bytes in [&[][..], &[0, 1, 0, 2, 0], &[0, 1, 0, 2, 0, 3, 0]] {
        match parse_api_version(bytes) {
            Err(Error::InvalidComponent(text)) => assert_eq!(
                text,
                "bottles:api-version must contain three big-endian u16 values"
            ),
            _ => panic!("expected a complaint"),
        }
    }
}

#[test]
fn versions_are_read_and_written() {
    let version = Version::parse("1.2.3-rc.1+build5").unwrap();
    assert_eq!((version.major, version.minor, version.patch), (1, 2, 3));
    assert_eq!(version.pre, "rc.1");
    assert_eq!(version.build, "build5");
    assert_eq!(version.text(), "1.2.3-rc.1+build5");
    assert!(!version.same(&Version::new(1, 2, 3)));
    assert_eq!(Version::new(0, 4, 10).text(), "0.4.10");
    let error = Version::parse("1.2").unwrap_err();
    assert_eq!(error, "unexpected end of input while parsing minor version number");
}

#[test]
fn matching_component_is_accepted() {
    let bytes = component(&[version_section(&[0, 0, 0, 4, 0, 1])]);
    let version = Version::new(0, 4, 1);
    assert!(validate_component(&manifest(Version::new(0, 4, 1)), &bytes, &version).is_ok());
    let package =
        validate_package(manifest(Version::new(0, 4, 1)), bytes.clone(), &version).unwrap();
    assert_eq!(package.component, bytes);
    assert_eq!(package.manifest.name, "Demo");
}

#[test]
fn component_of_another_version_than_its_manifest_is_refused() {
    let bytes = component(&[version_section(&[0, 0, 0, 4, 0, 1])]);
    let supported = Version::new(0, 4, 1);
    match validate_package(manifest(Version::new(0, 5, 0)), bytes, &supported) {
        Err(Error::ApiVersion { actual, expected }) => {
            assert_eq!(actual, "0.4.1");
            assert_eq!(expected, "0.5.0");
        }
        _ => panic!("expected another version"),
    }
}

#[test]
fn component_of_another_version_than_the_host_is_refused() {
    let bytes = component(&[version_section(&[0, 0, 0, 4, 0, 1])]);
    let supported = Version::new(0, 6, 0);
    match validate_component(&manifest(Version::new(0, 4, 1)), &bytes, &supported) {
        Err(Error::ApiVersion { actual, expected }) => {
            assert_eq!(actual, "0.4.1");
            assert_eq!(expected, "0.6.0");
        }
        _ => panic!("expected another version"),
    }
}

#[test]
fn component_without_a_version_is_refused() {
    let bytes = component(&[custom("producers", &[1, 2, 3])]);
    let supported = Version::new(0, 4, 1);
    match validate_component(&manifest(Version::new(0, 4, 1)), &bytes, &supported) {
        Err(Error::InvalidComponent(text)) => {
            assert_eq!(text, "missing bottles:api-version custom section")
        }
        _ => panic!("expected a complaint"),
    }
}

#[test]
fn malformed_component_is_refused() {
    let supported = Version::new(0, 4, 1);
    let mut bytes = component(&[version_section(&[0, 0, 0, 4, 0, 1])]);
    bytes.push(0);
    for bytes in [bytes, b"no component".to_vec()] {
        match validate_component(&manifest(Version::new(0, 4, 1)), &bytes, &supported) {
            Err(Error::InvalidComponent(text)) => assert!(text.contains("at offset"), "{text}"),
            _ => panic!("expected a complaint"),
        }
    }
}

#[test]
fn last_version_section_counts() {
    let supported = Version::new(0, 4, 1);
    let bytes = component(&[
        version_section(&[0, 9, 0, 9, 0, 9]),
        version_section(&[0, 0, 0, 4, 0, 1]),
        custom("producers", &[]),
    ]);
    assert!(validate_component(&manifest(Version::new(0, 4, 1)), &bytes, &supported).is_ok());
    let bytes = component(&[
        version_section(&[0, 9]),
        version_section(&[0, 0, 0, 4, 0, 1]),
    ]);
    assert!(matches!(
        validate_component(&manifest(Version::new(0, 4, 1)), &bytes, &supported),
        Err(Error::InvalidComponent(_))
    ));
}

#[test]
fn version_search_goes_through_the_sections() {
    let sections = vec![
        Ok(Section::Other),
        Ok(Section::Custom("bottles:api-version".to_owned(), vec![0, 1, 0, 2, 0, 3])),
        Ok(Section::End),
    ];
    assert!(find_version(&sections).unwrap().unwrap().same(&Version::new(1, 2, 3)));
    assert!(find_version(&vec![Ok(Section::Other)]).unwrap().is_none());
    match find_version(&vec![Err("broken".to_owned())]) {
        Err(Error::InvalidComponent(text)) => assert_eq!(text, "broken"),
        _ => panic!("expected a complaint"),
    }
}

#[test]
fn failed_version_search_is_the_verdict() {
    let version = Version::new(1, 0, 0);
    let found = Err(Error::InvalidComponent("broken".to_owned()));
    match check_version(found, &manifest(Version::new(1, 0, 0)), &version) {
        Err(Error::InvalidComponent(text)) => assert_eq!(text, "broken"),
        _ => panic!("expected a complaint"),
    }
    let found = Ok(Some(Version::new(1, 0, 0)));
    assert!(check_version(found, &manifest(Version::new(1, 0, 0)), &version).is_ok());
}

#[test]
fn exported_instances_are_interfaces() {
    let bytes = component(&[exported_instance("demo:plugin/library")]);
    assert_eq!(
        exported_interfaces(&bytes).unwrap(),
        vec!["demo:plugin/library".to_owned()]
    );
    assert!(exported_interfaces(&HEADER).unwrap().is_empty());
}

#[test]
fn nested_exports_are_no_interfaces() {
    let nested = component(&[exported_instance("demo:plugin/inner")]);
    let module = vec![0x00, 0x61, 0x73, 0x6d, 0x01, 0x00, 0x00, 0x00];
    let bytes = component(&[
        section(4, &nested),
        section(1, &module),
        exported_instance("demo:plugin/outer"),
    ]);
    assert_eq!(
        exported_interfaces(&bytes).unwrap(),
        vec!["demo:plugin/outer".to_owned()]
    );
}

#[test]
fn malformed_components_have_no_interfaces() {
    let mut bytes = component(&[exported_instance("demo:plugin/library")]);
    bytes.push(11);
    match exported_interfaces(&bytes) {
        Err(Error::InvalidComponent(text)) => assert!(text.contains("at offset"), "{text}"),
        _ => panic!("expected a complaint"),
    }
}

#[test]
fn interfaces_are_the_instances_at_the_root() {
    let sections = vec![
        Ok(Section::Exports(vec![
            Ok(("a".to_owned(), "instance".to_owned())),
            Ok(("b".to_owned(), "func".to_owned())),
        ])),
        Ok(Section::Component),
        Ok(Section::Module),
        Ok(Section::Exports(vec![Err("unread".to_owned())])),
        Ok(Section::End),
        Ok(Section::Exports(vec![Ok(("c".to_owned(), "instance".to_owned()))])),
        Ok(Section::End),
        Ok(Section::Exports(vec![Ok(("d".to_owned(), "instance".to_owned()))])),
        Ok(Section::End),
        Ok(Section::Exports(vec![Ok(("e".to_owned(), "instance".to_owned()))])),
    ];
    assert_eq!(
        interfaces_of(&sections).unwrap(),
        vec!["a".to_owned(), "d".to_owned(), "e".to_owned()]
    );
    let sections = vec![
        Ok(Section::Exports(vec![
            Ok(("a".to_owned(), "instance".to_owned())),
            Err("unread".to_owned()),
        ])),
        Err("later".to_owned()),
    ];
    match interfaces_of(&sections) {
        Err(Error::InvalidComponent(text)) => assert_eq!(text, "unread"),
        _ => panic!("expected a complaint"),
    }
}

#[test]
fn artifact_is_named_after_the_package() {
    let source = "[package]\nname = \"my-own-plugin\"\nversion = \"0.1.0\"\n";
    assert_eq!(source_target_name(source).unwrap(), "my_own_plugin");
}

#[test]
fn cargo_manifest_without_a_package_name_is_refused() {
    for source in [
        "",
        "[workspace]\nmembers = []\n",
        "[package]\nversion = \"0.1.0\"\n",
        "[package]\nname = 5\n",
        "package = \"name\"\n",
    ] {
        match source_target_name(source) {
            Err(Error::Host(text)) => assert_eq!(text, "Cargo.toml has no package name"),
            _ => panic!("expected a complaint"),
        }
    }
}

#[test]
fn malformed_cargo_manifest_is_refused() {
    match source_target_name("[package") {
        Err(Error::Host(text)) => assert!(text.contains("TOML parse error"), "{text}"),
        _ => panic!("expected a complaint"),
    }
    match artifact_of(Err("broken".to_owned())) {
        Err(Error::Host(text)) => assert_eq!(text, "broken"),
        _ => panic!("expected a complaint"),
    }
    assert_eq!(artifact_of(Ok(Some("a-b".to_owned()))).unwrap(), "a_b");
}

#[test]
fn claimed_number_of_exports_is_not_believed() {
    let mut bytes = HEADER.to_vec();
    bytes.extend_from_slice(&[11, 5, 0xff, 0xff, 0xff, 0xff, 0x0f]);
    assert!(matches!(exported_interfaces(&bytes), Err(Error::InvalidComponent(_))));
    let version = Version::new(0, 4, 1);
    match validate_component(&manifest(Version::new(0, 4, 1)), &bytes, &version) {
        Err(Error::InvalidComponent(text)) => {
            assert_eq!(text, "missing bottles:api-version custom section")
        }
        _ => panic!("expected a complaint"),
    }
    bytes.extend(version_section(&[0, 0, 0, 4, 0, 1]));
    assert!(validate_component(&manifest(Version::new(0, 4, 1)), &bytes, &version).is_ok());
}

#[test]
fn other_exports_are_no_interfaces() {
    let mut bytes = HEADER.to_vec();
    bytes.extend_from_slice(&[7, 2, 1, 0x7f]);
    bytes.extend_from_slice(&[5, 3, 1, 1, 0]);
    bytes.extend_from_slice(&[11, 16, 2, 0, 3, b'a', b'p', b'i', 5, 0, 0]);
    bytes.extend_from_slice(&[0, 2, b't', b'y', 3, 0, 0]);
    assert_eq!(exported_interfaces(&bytes).unwrap(), vec!["api".to_owned()]);
}
