//! The component runtime: the shared compiler and the components it makes.

use vstd::prelude::*;

use wasmtime::component::types::ComponentItem;
use wasmtime::component::Component;
use wasmtime::{Config, Engine};

use crate::error::PluginError;

verus! {

broadcast use vstd::string::group_string_axioms;

/// The fuel that one invocation of a guest may use up.
pub const INVOCATION_FUEL: u64 = 1_000_000_000;

/// The fuel after which a running guest yields.
pub const YIELD_INTERVAL: u64 = 100_000;

/// The compiler and its settings.
#[verifier::external_type_specification]
#[verifier::external_body]
pub struct ExEngine(Engine);

/// A compiled component.
#[verifier::external_type_specification]
#[verifier::external_body]
pub struct ExComponent(Component);

/// What an exported item is.
#[derive(Clone, Copy, Debug, PartialEq, Eq, Structural)]
pub enum ExportKind {
    Function,
    CoreFunction,
    Module,
    Component,
    Instance,
    Type,
    Resource,
}

/// Names the settings that an engine was made with: whether guests consume
/// fuel, and whether components may use the asynchronous calling convention.
pub uninterp spec fn engine_settings(engine: Engine) -> (bool, bool);

/// Names whether an engine was made, but for these settings, with a default
/// configuration: no feature that the runtime supports only in part is on.
pub uninterp spec fn is_plain(engine: Engine) -> bool;

/// Names the engine that a component was compiled by.
pub uninterp spec fn component_engine(component: Component) -> Engine;

/// The settings of the engine that a component was compiled by.
pub open spec fn component_settings(component: Component) -> (bool, bool) {
    engine_settings(component_engine(component))
}

/// Names the exports that a compiled component holds, in order.
pub uninterp spec fn component_exports(component: Component) -> Seq<(Seq<char>, ExportKind)>;

/// Names the exports that the component in a binary declares.
pub uninterp spec fn binary_exports(bytes: Seq<u8>) -> Seq<(Seq<char>, ExportKind)>;

/// `Engine::new`, on a default `Config` after `consume_fuel` and
/// `wasm_component_model_async`: an engine it makes has these settings and is
/// plain otherwise. Whether it makes one depends on the machine, and the error's
/// message is left open.
#[verifier::external_body]
fn new_engine(consume_fuel: bool, component_model_async: bool) -> (out: Result<Engine, String>)
    ensures
        out matches Ok(engine) ==> engine_settings(engine) == (consume_fuel, component_model_async),
        out matches Ok(engine) ==> is_plain(engine),
{
    let mut config = Config::new();
    config.consume_fuel(consume_fuel);
    config.wasm_component_model_async(component_model_async);
    Engine::new(&config).map_err(|error| error.to_string())
}

/// `Component::from_binary` compiles the component in a binary: what it makes
/// exports what the binary declares and keeps the engine that compiled it.
/// Which binaries it accepts depends on the engine and its host, and the
/// error's message is left open. On an engine with further features on it may
/// panic.
#[verifier::external_body]
fn compile_binary(engine: &Engine, bytes: &[u8]) -> (out: Result<Component, String>)
    requires
        is_plain(*engine),
    ensures
        out matches Ok(component) ==> component_exports(component) == binary_exports(bytes@),
        out matches Ok(component) ==> component_engine(component) == *engine,
{
    Component::from_binary(engine, bytes).map_err(|error| error.to_string())
}

/// What a list of exports holds.
pub open spec fn exports_view(exports: Seq<(String, ExportKind)>) -> Seq<(Seq<char>, ExportKind)> {
    exports.map_values(|export: (String, ExportKind)| (export.0@, export.1))
}

/// `component_type` and its `exports` tell the name and the type of each export
/// of a compiled component, in order. They panic on some types that only an
/// engine with further features on lets through.
#[verifier::external_body]
fn read_exports(component: &Component) -> (out: Vec<(String, ExportKind)>)
    requires
        is_plain(component_engine(*component)),
    ensures
        exports_view(out@) == component_exports(*component),
{
    let kind = |item: ComponentItem| match item {
        ComponentItem::ComponentFunc(_) => ExportKind::Function,
        ComponentItem::CoreFunc(_) => ExportKind::CoreFunction,
        ComponentItem::Module(_) => ExportKind::Module,
        ComponentItem::Component(_) => ExportKind::Component,
        ComponentItem::ComponentInstance(_) => ExportKind::Instance,
        ComponentItem::Type(_) => ExportKind::Type,
        ComponentItem::Resource(_) => ExportKind::Resource,
    };
    let ty = component.component_type();
    ty.exports(component.engine()).map(|(name, e)| (name.to_owned(), kind(e.ty))).collect()
}

/// The names of the exported instances, in order.
pub open spec fn instance_exports(exports: Seq<(Seq<char>, ExportKind)>) -> Seq<Seq<char>>
    decreases exports.len(),
{
    if exports.len() == 0 {
        seq![]
    } else {
        let before = instance_exports(exports.drop_last());
        if exports.last().1 == ExportKind::Instance {
            before.push(exports.last().0)
        } else {
            before
        }
    }
}

/// Picks the names of the instances out of a list of exports.
pub fn instances_among(exports: &Vec<(String, ExportKind)>) -> (out: Vec<String>)
    ensures
        crate::text::texts(out@) == instance_exports(exports_view(exports@)),
{
    let ghost views = exports_view(exports@);
    let mut out: Vec<String> = Vec::new();
    let mut i: usize = 0;
    assert(crate::text::texts(out@) =~= seq![]);
    while i < exports.len()
        invariant
            i <= exports.len(),
            views == exports_view(exports@),
            crate::text::texts(out@) == instance_exports(views.take(i as int)),
        decreases exports.len() - i,
    {
        let ghost before = out@;
        assert(views.take(i + 1).drop_last() =~= views.take(i as int));
        assert(views.take(i + 1).last() == (exports@[i as int].0@, exports@[i as int].1));
        if exports[i].1 == ExportKind::Instance {
            out.push(exports[i].0.clone());
            assert(crate::text::texts(out@) =~= crate::text::texts(before).push(
                exports@[i as int].0@,
            ));
        }
        i = i + 1;
    }
    assert(views.take(views.len() as int) =~= views);
    out
}

/// The interfaces that a compiled component exports: the names of the instances
/// among its exports.
pub fn component_interfaces(component: &Component) -> (out: Vec<String>)
    requires
        is_plain(component_engine(*component)),
    ensures
        crate::text::texts(out@) == instance_exports(component_exports(*component)),
{
    instances_among(&read_exports(component))
}

/// What a step of the runtime comes to: its error's message is kept.
pub fn runtime_outcome<T>(outcome: Result<T, String>) -> (out: Result<T, PluginError>)
    ensures
        match outcome {
            Ok(value) => out == Ok::<T, PluginError>(value),
            Err(error) => out == Err::<T, PluginError>(PluginError::Runtime(error)),
        },
{
    match outcome {
        Ok(value) => Ok(value),
        Err(error) => Err(PluginError::Runtime(error)),
    }
}

/// Whether a component was compiled by a runtime, from a binary: it has the
/// runtime's own engine, which is metered and otherwise plain, and exports what
/// the binary declares.
pub open spec fn is_compiled_by(runtime: Runtime, bytes: Seq<u8>, component: Component) -> bool {
    &&& component_engine(component) == runtime.compiler()
    &&& component_settings(component) == (true, true)
    &&& is_plain(component_engine(component))
    &&& component_exports(component) == binary_exports(bytes)
}

/// The shared compiler. To compile runs no guest code.
pub struct Runtime {
    engine: Engine,
}

impl Runtime {
    /// The settings of every runtime's engine.
    #[verifier::type_invariant]
    closed spec fn is_metered(self) -> bool {
        engine_settings(self.engine) == (true, true) && is_plain(self.engine)
    }

    /// The engine that compiles.
    pub closed spec fn compiler(self) -> Engine {
        self.engine
    }

    /// Makes a compiler whose guests consume fuel and may use the asynchronous
    /// calling convention.
    pub fn new() -> (out: Result<Runtime, PluginError>)
        ensures
            match out {
                Ok(runtime) => engine_settings(runtime.compiler()) == (true, true) && is_plain(
                    runtime.compiler(),
                ),
                Err(error) => error is Runtime,
            },
    {
        match runtime_outcome(new_engine(true, true)) {
            Ok(engine) => Ok(Runtime { engine }),
            Err(error) => Err(error),
        }
    }

    /// The engine that compiles.
    pub fn engine(&self) -> (out: &Engine)
        ensures
            *out == self.compiler(),
            engine_settings(*out) == (true, true),
            is_plain(*out),
    {
        proof {
            use_type_invariant(self);
        }
        &self.engine
    }

    /// Compiles the component in a binary.
    pub fn compile(&self, bytes: &[u8]) -> (out: Result<Component, PluginError>)
        ensures
            match out {
                Ok(component) => is_compiled_by(*self, bytes@, component),
                Err(error) => error is Runtime,
            },
    {
        proof {
            use_type_invariant(self);
        }
        runtime_outcome(compile_binary(&self.engine, bytes))
    }
}

/// The interfaces of a component are the names of all the instances that it
/// exports and of nothing else, in the order in which it exports them.
pub proof fn law_interfaces_are_all_instances(exports: Seq<(Seq<char>, ExportKind)>) -> (places:
    Seq<int>)
    ensures
        crate::ordered::are_all_places(
            exports,
            |export: (Seq<char>, ExportKind)| export.1 == ExportKind::Instance,
            places,
        ),
        instance_exports(exports).len() == places.len(),
        forall|k: int|
            0 <= k < places.len() ==> #[trigger] instance_exports(exports)[k]
                == exports[places[k]].0,
    decreases exports.len(),
{
    let wanted = |export: (Seq<char>, ExportKind)| export.1 == ExportKind::Instance;
    if exports.len() == 0 {
        seq![]
    } else {
        let before = law_interfaces_are_all_instances(exports.drop_last());
        let places = crate::ordered::lemma_places_with_one_more(exports, wanted, before);
        assert forall|k: int| 0 <= k < places.len() implies #[trigger] instance_exports(exports)[k]
            == exports[places[k]].0 by {
            if k < before.len() {
                assert(instance_exports(exports.drop_last())[k]
                    == exports.drop_last()[before[k]].0);
            }
        }
        places
    }
}

/// What a list of exports shows stands in the same places, each with its name
/// and its kind.
pub proof fn law_exports_show_what_they_hold(exports: Seq<(String, ExportKind)>)
    ensures
        exports_view(exports).len() == exports.len(),
        forall|i: int|
            0 <= i < exports.len() ==> #[trigger] exports_view(exports)[i] == (
                exports[i].0@,
                exports[i].1,
            ),
{
}

/// Code that a runtime has compiled is metered, was made by that runtime's own
/// engine, and exports exactly what the whole binary declares: code from
/// binaries that declare different exports is never the same.
pub proof fn law_compiled_code_exports_what_its_binary_declares(
    runtime: Runtime,
    first: Seq<u8>,
    second: Seq<u8>,
    component: Component,
)
    requires
        is_compiled_by(runtime, first, component),
        is_compiled_by(runtime, second, component),
    ensures
        component_engine(component) == runtime.compiler(),
        engine_settings(component_engine(component)) == (true, true),
        component_exports(component) == binary_exports(first),
        binary_exports(first) == binary_exports(second),
{
}

}
