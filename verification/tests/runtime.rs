use bottles_plugins::error::PluginError;
use bottles_plugins::runtime::{
    component_interfaces, instances_among, runtime_outcome, ExportKind, Runtime, INVOCATION_FUEL,
    YIELD_INTERVAL,
};

const HEADER: [u8; 8] = [0x00, 0x61, 0x73, 0x6d, 0x0d, 0x00, 0x01, 0x00];

fn two_exports() -> Vec<u8> {
    let mut out = HEADER.to_vec();
    // One type, one instance without exports.
    out.extend_from_slice(&[7, 2, 1, 0x7f]);
    out.extend_from_slice(&[5, 3, 1, 1, 0]);
    // The instance as `api`, the type as `ty`.
    out.extend_from_slice(&[11, 16, 2, 0, 3, b'a', b'p', b'i', 5, 0, 0]);
    out.extend_from_slice(&[0, 2, b't', b'y', 3, 0, 0]);
    out
}

#[test]
fn runtime_initializes_with_selected_wasmtime_features() {
    Runtime::new().expect("Wasmtime engine must initialize");
}

#[test]
fn runtime_compiles_components() {
    let runtime = Runtime::new().unwrap();
    let component = runtime.compile(&two_exports()).unwrap();
    assert_eq!(component_interfaces(&component), vec!["api".to_owned()]);
    let component = runtime.compile(&HEADER).unwrap();
    assert!(component_interfaces(&component).is_empty());
}

#[test]
fn runtime_reports_what_it_cannot_compile() {
    let runtime = Runtime::new().unwrap();
    match runtime.compile(b"no component") {
        Err(PluginError::Runtime(text)) => assert!(!text.is_empty()),
        _ => panic!("expected a runtime error"),
    }
}

#[test]
fn runtime_meters_its_guests() {
    let runtime = Runtime::new().unwrap();
    let mut store = wasmtime::Store::new(runtime.engine(), ());
    store.set_fuel(INVOCATION_FUEL).unwrap();
    assert_eq!(store.get_fuel().unwrap(), 1_000_000_000);
    store.fuel_async_yield_interval(Some(YIELD_INTERVAL)).unwrap();
    assert_eq!(YIELD_INTERVAL, 100_000);
}

#[test]
fn only_instances_are_interfaces() {
    let exports = vec![
        ("f".to_owned(), ExportKind::Function),
        ("a".to_owned(), ExportKind::Instance),
        ("c".to_owned(), ExportKind::CoreFunction),
        ("m".to_owned(), ExportKind::Module),
        ("n".to_owned(), ExportKind::Component),
        ("b".to_owned(), ExportKind::Instance),
        ("t".to_owned(), ExportKind::Type),
        ("r".to_owned(), ExportKind::Resource),
    ];
    assert_eq!(instances_among(&exports), vec!["a".to_owned(), "b".to_owned()]);
}

#[test]
fn runtime_errors_keep_their_message() {
    assert!(matches!(runtime_outcome(Ok(5)), Ok(5)));
    let failed: Result<u32, String> = Err("why".to_owned());
    match runtime_outcome(failed) {
        Err(PluginError::Runtime(text)) => assert_eq!(text, "why"),
        _ => panic!("expected a runtime error"),
    }
}

#[test]
fn components_keep_the_engine_that_compiled_them() {
    let runtime = Runtime::new().unwrap();
    let component = runtime.compile(&HEADER).unwrap();
    assert!(wasmtime::Engine::same(component.engine(), runtime.engine()));
}
