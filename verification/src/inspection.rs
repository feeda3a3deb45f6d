//! Reading a component's sections without compiling or running it.

use vstd::prelude::*;
use wasmparser::{Parser, Payload};

use crate::error::Error;
use crate::text::same_text;

verus! {

broadcast use vstd::string::group_string_axioms;

/// What describes an exported instance.
pub const INSTANCE: &'static str = "instance";

/// One step through a component's binary form.
pub enum Section {
    /// A core module begins; what follows up to its end lies inside it.
    Module,
    /// A nested component begins; what follows up to its end lies inside it.
    Component,
    /// The innermost module or component ends.
    End,
    /// A custom section with its name and its contents.
    Custom(String, Vec<u8>),
    /// The exports of a component: each with its name and what describes it, or
    /// why it could not be read.
    Exports(Vec<Result<(String, String), String>>),
    /// Any other section.
    Other,
}

/// What a [`Section`] holds.
pub enum SectionView {
    Module,
    Component,
    End,
    Custom(Seq<char>, Seq<u8>),
    Exports(Seq<Result<(Seq<char>, Seq<char>), Seq<char>>>),
    Other,
}

/// What one read of an export gave.
pub open spec fn export_view(export: Result<(String, String), String>) -> Result<
    (Seq<char>, Seq<char>),
    Seq<char>,
> {
    match export {
        Ok(export) => Ok((export.0@, export.1@)),
        Err(error) => Err(error@),
    }
}

impl View for Section {
    type V = SectionView;

    open spec fn view(&self) -> SectionView {
        match self {
            Section::Module => SectionView::Module,
            Section::Component => SectionView::Component,
            Section::End => SectionView::End,
            Section::Custom(name, data) => SectionView::Custom(name@, data@),
            Section::Exports(exports) => SectionView::Exports(
                exports@.map_values(|e: Result<(String, String), String>| export_view(e)),
            ),
            Section::Other => SectionView::Other,
        }
    }
}

/// What one read of a section gave.
pub open spec fn section_view(section: Result<Section, String>) -> Result<SectionView, Seq<char>> {
    match section {
        Ok(section) => Ok(section@),
        Err(error) => Err(error@),
    }
}

/// Names the steps that `wasmparser::Parser::parse_all` takes through a binary,
/// each a section or the message of the error at which it stops.
pub uninterp spec fn component_sections(bytes: Seq<u8>) -> Seq<Result<SectionView, Seq<char>>>;

/// `wasmparser::Parser::parse_all` walks through a binary section by section,
/// into nested modules and components and out again, and stops at the first
/// error. An export section reads its entries the same way, and
/// `ComponentExternalKind::desc` describes what each one is. The binary format
/// is left to the name.
#[verifier::external_body]
pub(crate) fn read_sections(bytes: &[u8]) -> (out: Vec<Result<Section, String>>)
    ensures
        out@.map_values(|s: Result<Section, String>| section_view(s)) == component_sections(bytes@),
{
    Parser::new(0).parse_all(bytes).map(|payload| Ok(match payload.map_err(|e| e.to_string())? {
        Payload::ModuleSection { .. } => Section::Module,
        Payload::ComponentSection { .. } => Section::Component,
        Payload::End(_) => Section::End,
        Payload::CustomSection(s) => Section::Custom(s.name().to_owned(), s.data().to_vec()),
        Payload::ComponentExportSection(s) => Section::Exports(
            // Unlike `map`, this reserves nothing for the number that the section claims.
            s.into_iter().map_while(|export| Some(export.map(
                |e| (e.name.name.to_owned(), e.kind.desc().to_owned()),
            ).map_err(|e| e.to_string()))).collect(),
        ),
        _ => Section::Other,
    })).collect()
}

/// One step of the walk for instance names: the depth of nesting and the names
/// found, or the message of an error.
pub type Walk = Result<(nat, Seq<Seq<char>>), Seq<char>>;

/// The names of the instances among a list of exports, in order, or the first
/// export's error.
pub open spec fn instance_names(exports: Seq<Result<(Seq<char>, Seq<char>), Seq<char>>>) -> Result<
    Seq<Seq<char>>,
    Seq<char>,
>
    decreases exports.len(),
{
    if exports.len() == 0 {
        Ok(seq![])
    } else {
        match (instance_names(exports.drop_last()), exports.last()) {
            (Err(error), _) => Err(error),
            (Ok(_), Err(error)) => Err(error),
            (Ok(names), Ok(export)) => if export.1 == INSTANCE@ {
                Ok(names.push(export.0))
            } else {
                Ok(names)
            },
        }
    }
}

/// Takes one section into a walk: modules and components deepen it, ends
/// bring it back up, and exports count at the root alone.
pub open spec fn walk_step(walk: Walk, section: Result<SectionView, Seq<char>>) -> Walk {
    match (walk, section) {
        (Err(error), _) => Err(error),
        (Ok(_), Err(error)) => Err(error),
        (Ok((depth, names)), Ok(section)) => match section {
            SectionView::Module => Ok((depth + 1, names)),
            SectionView::Component => Ok((depth + 1, names)),
            SectionView::End => if depth > 0 {
                Ok(((depth - 1) as nat, names))
            } else {
                Ok((depth, names))
            },
            SectionView::Exports(exports) => if depth == 0 {
                match instance_names(exports) {
                    Ok(found) => Ok((depth, names + found)),
                    Err(error) => Err(error),
                }
            } else {
                Ok((depth, names))
            },
            _ => Ok((depth, names)),
        },
    }
}

/// Takes a sequence of sections into a walk.
pub open spec fn walked(walk: Walk, sections: Seq<Result<SectionView, Seq<char>>>) -> Walk
    decreases sections.len(),
{
    if sections.len() == 0 {
        walk
    } else {
        walk_step(walked(walk, sections.drop_last()), sections.last())
    }
}

/// The names of the instances that a component exports at its root, in order,
/// or the first error met on the way.
pub open spec fn root_interfaces(sections: Seq<Result<SectionView, Seq<char>>>) -> Result<
    Seq<Seq<char>>,
    Seq<char>,
> {
    match walked(Ok((0, seq![])), sections) {
        Ok((_, names)) => Ok(names),
        Err(error) => Err(error),
    }
}

fn collect_instance_names(exports: &Vec<Result<(String, String), String>>) -> (out: Result<
    Vec<String>,
    String,
>)
    ensures
        match (
            out,
            instance_names(
                exports@.map_values(|e: Result<(String, String), String>| export_view(e)),
            ),
        ) {
            (Ok(names), Ok(expected)) => crate::text::texts(names@) == expected,
            (Err(error), Err(expected)) => error@ == expected,
            _ => false,
        },
{
    let ghost views = exports@.map_values(|e: Result<(String, String), String>| export_view(e));
    let mut names: Vec<String> = Vec::new();
    let mut i: usize = 0;
    assert(crate::text::texts(names@) =~= seq![]);
    while i < exports.len()
        invariant
            i <= exports.len(),
            views == exports@.map_values(|e: Result<(String, String), String>| export_view(e)),
            instance_names(views.take(i as int)) == Ok::<Seq<Seq<char>>, Seq<char>>(
                crate::text::texts(names@),
            ),
        decreases exports.len() - i,
    {
        proof {
            assert(views.take(i + 1).drop_last() =~= views.take(i as int));
            assert(views.take(i + 1).last() == export_view(exports@[i as int]));
        }
        match &exports[i] {
            Ok(export) => {
                if same_text(&export.1, INSTANCE) {
                    let ghost before = names@;
                    names.push(export.0.clone());
                    assert(crate::text::texts(names@) =~= crate::text::texts(before).push(
                        export.0@,
                    ));
                }
            },
            Err(error) => {
                proof {
                    lemma_failed_export_stays(views, i + 1);
                }
                return Err(error.clone());
            },
        }
        i = i + 1;
    }
    assert(views.take(views.len() as int) =~= views);
    Ok(names)
}

proof fn lemma_failed_export_stays(
    exports: Seq<Result<(Seq<char>, Seq<char>), Seq<char>>>,
    count: int,
)
    requires
        0 <= count <= exports.len(),
        instance_names(exports.take(count)) is Err,
    ensures
        instance_names(exports) == instance_names(exports.take(count)),
    decreases exports.len(),
{
    if count < exports.len() {
        assert(exports.drop_last().take(count) =~= exports.take(count));
        lemma_failed_export_stays(exports.drop_last(), count);
    } else {
        assert(exports.take(count) =~= exports);
    }
}

proof fn lemma_failed_walk_stays(
    walk: Walk,
    sections: Seq<Result<SectionView, Seq<char>>>,
    count: int,
)
    requires
        0 <= count <= sections.len(),
        walked(walk, sections.take(count)) is Err,
    ensures
        walked(walk, sections) == walked(walk, sections.take(count)),
    decreases sections.len(),
{
    if count < sections.len() {
        assert(sections.drop_last().take(count) =~= sections.take(count));
        lemma_failed_walk_stays(walk, sections.drop_last(), count);
    } else {
        assert(sections.take(count) =~= sections);
    }
}

/// The names of the instances that the sections export at the root, given what
/// reading the component gave.
pub fn interfaces_of(sections: &Vec<Result<Section, String>>) -> (out: Result<Vec<String>, Error>)
    ensures
        match (
            out,
            root_interfaces(sections@.map_values(|s: Result<Section, String>| section_view(s))),
        ) {
            (Ok(names), Ok(expected)) => crate::text::texts(names@) == expected,
            (Err(Error::InvalidComponent(error)), Err(expected)) => error@ == expected,
            _ => false,
        },
{
    let ghost views = sections@.map_values(|s: Result<Section, String>| section_view(s));
    let ghost start: Walk = Ok((0, seq![]));
    let mut depth: usize = 0;
    let mut interfaces: Vec<String> = Vec::new();
    let mut i: usize = 0;
    assert(crate::text::texts(interfaces@) =~= seq![]);
    while i < sections.len()
        invariant
            i <= sections.len(),
            depth <= i,
            start == Ok::<(nat, Seq<Seq<char>>), Seq<char>>((0, seq![])),
            views == sections@.map_values(|s: Result<Section, String>| section_view(s)),
            walked(start, views.take(i as int)) == Ok::<(nat, Seq<Seq<char>>), Seq<char>>(
                (depth as nat, crate::text::texts(interfaces@)),
            ),
        decreases sections.len() - i,
    {
        proof {
            assert(views.take(i + 1).drop_last() =~= views.take(i as int));
            assert(views.take(i + 1).last() == section_view(sections@[i as int]));
        }
        match &sections[i] {
            Err(error) => {
                proof {
                    lemma_failed_walk_stays(start, views, i + 1);
                }
                return Err(Error::InvalidComponent(error.clone()));
            },
            Ok(section) => match section {
                Section::Module => {
                    depth = depth + 1;
                },
                Section::Component => {
                    depth = depth + 1;
                },
                Section::End => {
                    if depth > 0 {
                        depth = depth - 1;
                    }
                },
                Section::Exports(exports) => {
                    if depth == 0 {
                        match collect_instance_names(exports) {
                            Ok(mut found) => {
                                let ghost before = interfaces@;
                                let ghost added = found@;
                                interfaces.append(&mut found);
                                assert(crate::text::texts(interfaces@) =~= crate::text::texts(
                                    before,
                                ) + crate::text::texts(added));
                            },
                            Err(error) => {
                                proof {
                                    lemma_failed_walk_stays(start, views, i + 1);
                                }
                                return Err(Error::InvalidComponent(error));
                            },
                        }
                    }
                },
                _ => {},
            },
        }
        i = i + 1;
    }
    assert(views.take(views.len() as int) =~= views);
    Ok(interfaces)
}

/// Reads the names of the instances that a component exports at its root,
/// without compiling or running it.
pub fn exported_interfaces(bytes: &[u8]) -> (out: Result<Vec<String>, Error>)
    ensures
        match (out, root_interfaces(component_sections(bytes@))) {
            (Ok(names), Ok(expected)) => crate::text::texts(names@) == expected,
            (Err(Error::InvalidComponent(error)), Err(expected)) => error@ == expected,
            _ => false,
        },
{
    let sections = read_sections(bytes);
    interfaces_of(&sections)
}

/// How much deeper a sequence of sections leads: beginnings less ends.
pub open spec fn rise(sections: Seq<Result<SectionView, Seq<char>>>) -> int
    decreases sections.len(),
{
    if sections.len() == 0 {
        0
    } else {
        rise(sections.drop_last()) + match sections.last() {
            Ok(SectionView::Module) => 1,
            Ok(SectionView::Component) => 1,
            Ok(SectionView::End) => -1,
            _ => 0int,
        }
    }
}

/// Whether sections are the inside of one module or component: all readable,
/// never leading above where they began, and ending there.
pub open spec fn is_inside(sections: Seq<Result<SectionView, Seq<char>>>) -> bool {
    &&& forall|i: int| 0 <= i < sections.len() ==> (#[trigger] sections[i]) is Ok
    &&& forall|i: int| 0 <= i <= sections.len() ==> rise(#[trigger] sections.take(i)) >= 0
    &&& rise(sections) == 0
}

proof fn lemma_walk_in_two_parts(
    walk: Walk,
    first: Seq<Result<SectionView, Seq<char>>>,
    second: Seq<Result<SectionView, Seq<char>>>,
)
    ensures
        walked(walk, first + second) == walked(walked(walk, first), second),
    decreases second.len(),
{
    if second.len() == 0 {
        assert(first + second =~= first);
    } else {
        assert((first + second).drop_last() =~= first + second.drop_last());
        lemma_walk_in_two_parts(walk, first, second.drop_last());
    }
}

proof fn lemma_walk_inside(
    depth: nat,
    names: Seq<Seq<char>>,
    sections: Seq<Result<SectionView, Seq<char>>>,
    count: int,
)
    requires
        0 <= count <= sections.len(),
        is_inside(sections),
        depth > 0,
    ensures
        walked(Ok((depth, names)), sections.take(count)) == Ok::<
            (nat, Seq<Seq<char>>),
            Seq<char>,
        >(((depth + rise(sections.take(count))) as nat, names)),
    decreases count,
{
    let part = sections.take(count);
    if count > 0 {
        lemma_walk_inside(depth, names, sections, count - 1);
        assert(part.drop_last() =~= sections.take(count - 1));
        assert(rise(sections.take(count - 1)) >= 0);
        assert(part.last() == sections[count - 1]);
    }
}

/// What lies inside a nested module or component has no part in a component's
/// own interfaces: it may be left out.
pub proof fn law_nested_sections_do_not_count(
    before: Seq<Result<SectionView, Seq<char>>>,
    begin: SectionView,
    inside: Seq<Result<SectionView, Seq<char>>>,
    after: Seq<Result<SectionView, Seq<char>>>,
)
    requires
        begin == SectionView::Module || begin == SectionView::Component,
        is_inside(inside),
    ensures
        root_interfaces(
            before + seq![Ok::<SectionView, Seq<char>>(begin)] + inside + seq![
                Ok::<SectionView, Seq<char>>(SectionView::End),
            ] + after,
        ) == root_interfaces(before + after),
{
    let start: Walk = Ok((0, seq![]));
    let first = seq![Ok::<SectionView, Seq<char>>(begin)];
    let last = seq![Ok::<SectionView, Seq<char>>(SectionView::End)];
    lemma_walk_in_two_parts(start, before + first + inside + last, after);
    lemma_walk_in_two_parts(start, before + first + inside, last);
    lemma_walk_in_two_parts(start, before + first, inside);
    lemma_walk_in_two_parts(start, before, first);
    lemma_walk_in_two_parts(start, before, after);
    let reached = walked(start, before);
    reveal_with_fuel(walked, 2);
    assert(first.drop_last() =~= seq![]);
    assert(last.drop_last() =~= seq![]);
    match reached {
        Ok((depth, names)) => {
            lemma_walk_inside(depth + 1, names, inside, inside.len() as int);
            assert(inside.take(inside.len() as int) =~= inside);
        },
        Err(_) => {
            lemma_failed_walk_stays(reached, inside, 0);
            assert(inside.take(0) =~= seq![]);
        },
    }
}

/// Reading the exports of a section succeeds exactly if each of them can be
/// read, and fails with the first that cannot. It gives the names of all the
/// instances among them and of nothing else, in their order.
pub proof fn law_names_are_all_instances(
    exports: Seq<Result<(Seq<char>, Seq<char>), Seq<char>>>,
) -> (places: Seq<int>)
    ensures
        match instance_names(exports) {
            Ok(names) => {
                &&& forall|i: int| 0 <= i < exports.len() ==> (#[trigger] exports[i]) is Ok
                &&& crate::ordered::are_all_places(
                    exports,
                    |export: Result<(Seq<char>, Seq<char>), Seq<char>>|
                        export matches Ok(export) && export.1 == "instance"@,
                    places,
                )
                &&& names.len() == places.len()
                &&& forall|k: int|
                    0 <= k < places.len() ==> #[trigger] names[k] == exports[places[k]]->Ok_0.0
            },
            Err(error) => exists|i: int|
                0 <= i < exports.len() && #[trigger] exports[i] == Err::<
                    (Seq<char>, Seq<char>),
                    Seq<char>,
                >(error) && forall|j: int| 0 <= j < i ==> (#[trigger] exports[j]) is Ok,
        },
    decreases exports.len(),
{
    let wanted = |export: Result<(Seq<char>, Seq<char>), Seq<char>>|
        export matches Ok(export) && export.1 == "instance"@;
    if exports.len() == 0 {
        seq![]
    } else {
        let shorter = exports.drop_last();
        let before = law_names_are_all_instances(shorter);
        match instance_names(shorter) {
            Err(error) => {
                let i = choose|i: int|
                    0 <= i < shorter.len() && #[trigger] shorter[i] == Err::<
                        (Seq<char>, Seq<char>),
                        Seq<char>,
                    >(error) && forall|j: int| 0 <= j < i ==> (#[trigger] shorter[j]) is Ok;
                assert(exports[i] == shorter[i]);
                assert forall|j: int| 0 <= j < i implies (#[trigger] exports[j]) is Ok by {
                    assert(shorter[j] is Ok);
                }
                before
            },
            Ok(names) => {
                assert forall|j: int| 0 <= j < shorter.len() implies (#[trigger] exports[j])
                    is Ok by {
                    assert(shorter[j] is Ok);
                }
                assert(exports.last() == exports[exports.len() - 1]);
                let places = crate::ordered::lemma_places_with_one_more(exports, wanted, before);
                if let Ok(found) = instance_names(exports) {
                    assert forall|k: int| 0 <= k < places.len() implies #[trigger] found[k]
                        == exports[places[k]]->Ok_0.0 by {
                        if k < before.len() {
                            assert(names[k] == shorter[before[k]]->Ok_0.0);
                        }
                    }
                }
                places
            },
        }
    }
}

/// Whether a section stands at the root: every module and component that began
/// before it has ended.
pub open spec fn is_at_root(sections: Seq<Result<SectionView, Seq<char>>>, at: int) -> bool {
    forall|i: int|
        0 <= i <= at ==> rise(sections.take(at)) <= rise(#[trigger] sections.take(i))
}

proof fn lemma_depth_of_walk(sections: Seq<Result<SectionView, Seq<char>>>)
    requires
        walked(Ok((0, seq![])), sections) is Ok,
    ensures
        ({
            let depth = walked(Ok((0, seq![])), sections)->Ok_0.0;
            &&& forall|i: int|
                0 <= i <= sections.len() ==> rise(sections) - rise(#[trigger] sections.take(i))
                    <= depth
            &&& exists|i: int|
                0 <= i <= sections.len() && rise(sections) - rise(#[trigger] sections.take(i))
                    == depth
        }),
    decreases sections.len(),
{
    let n = sections.len() as int;
    let depth = walked(Ok((0, seq![])), sections)->Ok_0.0;
    assert(sections.take(n) =~= sections);
    if n > 0 {
        let shorter = sections.drop_last();
        lemma_depth_of_walk(shorter);
        let before = walked(Ok((0, seq![])), shorter)->Ok_0.0;
        let deepest = choose|i: int|
            0 <= i <= shorter.len() && rise(shorter) - rise(#[trigger] shorter.take(i)) == before;
        assert(sections.take(deepest) =~= shorter.take(deepest));
        assert forall|i: int| 0 <= i <= n implies rise(sections) - rise(
            #[trigger] sections.take(i),
        ) <= depth by {
            if i < n {
                assert(sections.take(i) =~= shorter.take(i));
            }
        }
        if rise(sections) - rise(sections.take(deepest)) != depth {
            assert(rise(sections) - rise(sections.take(n)) == depth);
        }
    }
}

proof fn lemma_root_is_depth_zero(sections: Seq<Result<SectionView, Seq<char>>>)
    requires
        walked(Ok((0, seq![])), sections) is Ok,
    ensures
        is_at_root(sections, sections.len() as int) <==> walked(
            Ok((0, seq![])),
            sections,
        )->Ok_0.0 == 0,
{
    lemma_depth_of_walk(sections);
    let depth = walked(Ok((0, seq![])), sections)->Ok_0.0;
    assert(sections.take(sections.len() as int) =~= sections);
    let deepest = choose|i: int|
        0 <= i <= sections.len() && rise(sections) - rise(#[trigger] sections.take(i)) == depth;
    assert(rise(sections) - rise(sections.take(deepest)) == depth);
}

/// What the exports of a section at the root hold; nothing for any other
/// section.
pub open spec fn root_exports(
    sections: Seq<Result<SectionView, Seq<char>>>,
    at: int,
) -> Seq<Result<(Seq<char>, Seq<char>), Seq<char>>> {
    match sections[at] {
        Ok(SectionView::Exports(exports)) => if is_at_root(sections, at) {
            exports
        } else {
            seq![]
        },
        _ => seq![],
    }
}

/// Whether an export is an instance that a section at the root exports under a
/// name.
pub open spec fn is_root_instance(
    sections: Seq<Result<SectionView, Seq<char>>>,
    place: (int, int),
    name: Seq<char>,
) -> bool {
    &&& 0 <= place.0 < sections.len()
    &&& 0 <= place.1 < root_exports(sections, place.0).len()
    &&& root_exports(sections, place.0)[place.1] == Ok::<(Seq<char>, Seq<char>), Seq<char>>(
        (name, "instance"@),
    )
}

/// Whether a place among the exports of the sections comes before another.
pub open spec fn is_earlier(first: (int, int), second: (int, int)) -> bool {
    first.0 < second.0 || (first.0 == second.0 && first.1 < second.1)
}

proof fn lemma_root_exports_of_prefix(
    sections: Seq<Result<SectionView, Seq<char>>>,
    count: int,
    at: int,
)
    requires
        0 <= at < count <= sections.len(),
    ensures
        root_exports(sections.take(count), at) == root_exports(sections, at),
{
    let part = sections.take(count);
    assert(part.take(at) =~= sections.take(at));
    assert forall|i: int| 0 <= i <= at implies #[trigger] part.take(i) == sections.take(i) by {
        assert(part.take(i) =~= sections.take(i));
    }
    if is_at_root(sections, at) {
        assert forall|i: int| 0 <= i <= at implies rise(part.take(at)) <= rise(
            #[trigger] part.take(i),
        ) by {
            assert(rise(sections.take(at)) <= rise(sections.take(i)));
        }
    }
    if is_at_root(part, at) {
        assert forall|i: int| 0 <= i <= at implies rise(sections.take(at)) <= rise(
            #[trigger] sections.take(i),
        ) by {
            assert(rise(part.take(at)) <= rise(part.take(i)));
        }
    }
}

/// Whether names are those of all the instances that the sections export at the
/// root, each from its own place, in the order of these places.
pub open spec fn are_root_instances(
    sections: Seq<Result<SectionView, Seq<char>>>,
    names: Seq<Seq<char>>,
    places: Seq<(int, int)>,
) -> bool {
    &&& names.len() == places.len()
    &&& forall|k: int|
        0 <= k < places.len() ==> is_root_instance(sections, #[trigger] places[k], names[k])
    &&& forall|k: int, l: int|
        0 <= k < l < places.len() ==> is_earlier(#[trigger] places[k], #[trigger] places[l])
    &&& forall|place: (int, int), name: Seq<char>| #[trigger]
        is_root_instance(sections, place, name) ==> exists|k: int|
            0 <= k < places.len() && #[trigger] places[k] == place
}

/// A component's interfaces are the names of all the instances that it exports
/// at its root and of nothing else: as many as there are such exports, in their
/// order, from whatever number of sections. They can be told exactly if every
/// section, and every export at the root, can be read.
pub proof fn law_interfaces_are_all_root_instances(
    sections: Seq<Result<SectionView, Seq<char>>>,
) -> (places: Seq<(int, int)>)
    ensures
        root_interfaces(sections) matches Ok(names) ==> are_root_instances(sections, names, places),
        root_interfaces(sections) is Ok <==> {
            &&& forall|i: int| 0 <= i < sections.len() ==> (#[trigger] sections[i]) is Ok
            &&& forall|i: int, j: int|
                0 <= i < sections.len() && 0 <= j < root_exports(sections, i).len() ==> (
                #[trigger] root_exports(sections, i)[j]) is Ok
        },
    decreases sections.len(),
{
    let start: Walk = Ok((0, seq![]));
    if sections.len() == 0 {
        seq![]
    } else {
        let last = sections.len() - 1;
        let shorter = sections.drop_last();
        assert(shorter =~= sections.take(last));
        let before = law_interfaces_are_all_root_instances(shorter);
        assert forall|i: int| 0 <= i < last implies #[trigger] root_exports(sections, i)
            == root_exports(shorter, i) && sections[i] == shorter[i] by {
            lemma_root_exports_of_prefix(sections, last, i);
        }
        assert(sections.last() == sections[last]);
        if root_interfaces(shorter) is Err {
            if forall|i: int| 0 <= i < sections.len() ==> (#[trigger] sections[i]) is Ok {
                assert(forall|i: int| 0 <= i < shorter.len() ==> shorter[i] == sections[i]);
                let (i, j) = choose|i: int, j: int|
                    0 <= i < shorter.len() && 0 <= j < root_exports(shorter, i).len() && !((
                    #[trigger] root_exports(shorter, i)[j]) is Ok);
                assert(root_exports(sections, i)[j] == root_exports(shorter, i)[j]);
            }
            seq![]
        } else {
            lemma_root_is_depth_zero(shorter);
            let names = root_interfaces(shorter)->Ok_0;
            let exports = root_exports(sections, last);
            assert(is_at_root(sections, last) <==> is_at_root(shorter, last)) by {
                assert forall|i: int| 0 <= i <= last implies #[trigger] shorter.take(i)
                    == sections.take(i) by {
                    assert(shorter.take(i) =~= sections.take(i));
                }
                if is_at_root(sections, last) {
                    assert forall|i: int| 0 <= i <= last implies rise(shorter.take(last)) <= rise(
                        #[trigger] shorter.take(i),
                    ) by {
                        assert(rise(sections.take(last)) <= rise(sections.take(i)));
                    }
                }
                if is_at_root(shorter, last) {
                    assert forall|i: int| 0 <= i <= last implies rise(sections.take(last))
                        <= rise(#[trigger] sections.take(i)) by {
                        assert(rise(shorter.take(last)) <= rise(shorter.take(i)));
                    }
                }
            }
            let inner = law_names_are_all_instances(exports);
            assert forall|i: int| 0 <= i < last implies (#[trigger] sections[i]) is Ok by {
                assert(shorter[i] is Ok);
            }
            assert forall|i: int, j: int|
                0 <= i < last && 0 <= j < root_exports(sections, i).len() implies (
            #[trigger] root_exports(sections, i)[j]) is Ok by {
                assert(root_exports(shorter, i)[j] is Ok);
            }
            if instance_names(exports) is Err {
                let j = choose|j: int|
                    0 <= j < exports.len() && !((#[trigger] exports[j]) is Ok);
                assert(!(root_exports(sections, last)[j] is Ok));
            }
            if root_interfaces(sections) is Ok {
                let found = instance_names(exports)->Ok_0;
                let all = root_interfaces(sections)->Ok_0;
                assert(all =~= names + found);
                let added = Seq::new(inner.len(), |k: int| (last, inner[k]));
                let places = before + added;
                assert forall|i: int, j: int|
                    0 <= i < sections.len() && 0 <= j < root_exports(
                        sections,
                        i,
                    ).len() implies (#[trigger] root_exports(sections, i)[j]) is Ok by {
                    if i == last {
                        assert(exports[j] is Ok);
                    }
                }
                assert forall|k: int| 0 <= k < places.len() implies is_root_instance(
                    sections,
                    #[trigger] places[k],
                    all[k],
                ) by {
                    if k < before.len() {
                        assert(places[k] == before[k]);
                        assert(is_root_instance(shorter, before[k], names[k]));
                    } else {
                        let l = k - before.len();
                        assert(added[l] == (last, inner[l]));
                        assert(found[l] == exports[inner[l]]->Ok_0.0);
                    }
                }
                assert forall|k: int, l: int| 0 <= k < l < places.len() implies is_earlier(
                    #[trigger] places[k],
                    #[trigger] places[l],
                ) by {
                    if l < before.len() {
                        assert(is_earlier(before[k], before[l]));
                    } else if k < before.len() {
                        assert(is_root_instance(shorter, before[k], names[k]));
                    } else {
                        assert(inner[k - before.len()] < inner[l - before.len()]);
                    }
                }
                assert forall|place: (int, int), name: Seq<char>| #[trigger]
                    is_root_instance(sections, place, name) implies exists|k: int|
                    0 <= k < places.len() && #[trigger] places[k] == place by {
                    if place.0 < last {
                        assert(is_root_instance(shorter, place, name));
                        let k = choose|k: int|
                            0 <= k < before.len() && #[trigger] before[k] == place;
                        assert(places[k] == place);
                    } else {
                        assert(exports[place.1] == Ok::<(Seq<char>, Seq<char>), Seq<char>>(
                            (name, "instance"@),
                        ));
                        let l = choose|l: int|
                            0 <= l < inner.len() && #[trigger] inner[l] == place.1;
                        assert(places[before.len() + l] == place);
                    }
                }
                places
            } else {
                seq![]
            }
        }
    }
}

/// What cannot be told is told as the first error on the way: whatever comes
/// after it does not count.
pub proof fn law_first_unreadable_part_is_reported(
    before: Seq<Result<SectionView, Seq<char>>>,
    unreadable: Result<SectionView, Seq<char>>,
    after: Seq<Result<SectionView, Seq<char>>>,
    error: Seq<char>,
)
    requires
        root_interfaces(before) is Ok,
        match unreadable {
            Err(found) => found == error,
            Ok(SectionView::Exports(exports)) => is_at_root(before, before.len() as int) && exists|
                i: int,
            |
                0 <= i < exports.len() && #[trigger] exports[i] == Err::<
                    (Seq<char>, Seq<char>),
                    Seq<char>,
                >(error) && forall|j: int| 0 <= j < i ==> (#[trigger] exports[j]) is Ok,
            _ => false,
        },
    ensures
        root_interfaces(before + seq![unreadable] + after) == Err::<Seq<Seq<char>>, Seq<char>>(
            error,
        ),
{
    let start: Walk = Ok((0, seq![]));
    let all = before + seq![unreadable] + after;
    let count = before.len() + 1;
    let part = all.take(count as int);
    assert(part.drop_last() =~= before);
    assert(part.last() == unreadable);
    lemma_root_is_depth_zero(before);
    if let Ok(SectionView::Exports(exports)) = unreadable {
        let _ = law_names_are_all_instances(exports);
        let i = choose|i: int|
            0 <= i < exports.len() && #[trigger] exports[i] == Err::<
                (Seq<char>, Seq<char>),
                Seq<char>,
            >(error) && forall|j: int| 0 <= j < i ==> (#[trigger] exports[j]) is Ok;
        assert(exports[i] is Err);
    }
    lemma_failed_walk_stays(start, all, count as int);
}

/// A section shows all that it holds: the name and every byte of a custom
/// section, and every export in its place, with its name and what describes it
/// or why it could not be read.
pub proof fn law_section_shows_what_it_holds(section: Section)
    ensures
        match (section, section@) {
            (Section::Module, SectionView::Module) => true,
            (Section::Component, SectionView::Component) => true,
            (Section::End, SectionView::End) => true,
            (Section::Custom(name, data), SectionView::Custom(shown, bytes)) => shown == name@
                && bytes == data@,
            (Section::Exports(exports), SectionView::Exports(shown)) => {
                &&& shown.len() == exports@.len()
                &&& forall|i: int|
                    0 <= i < shown.len() ==> match (exports@[i], #[trigger] shown[i]) {
                        (Ok(export), Ok(seen)) => seen.0 == export.0@ && seen.1 == export.1@,
                        (Err(error), Err(seen)) => seen == error@,
                        _ => false,
                    }
            },
            (Section::Other, SectionView::Other) => true,
            _ => false,
        },
        section_view(Ok(section)) == Ok::<SectionView, Seq<char>>(section@),
        forall|error: String| #[trigger]
            section_view(Err(error)) == Err::<SectionView, Seq<char>>(error@),
{
}

}
