//! Generates the enumeration of the interfaces that plugins may export.

use vstd::prelude::*;

use heck::ToUpperCamelCase;

use crate::ordered::TextMap;
use crate::text::to_quoted;

verus! {

broadcast use vstd::string::group_string_axioms;

/// Names what `ToUpperCamelCase::to_upper_camel_case` makes of a text.
pub uninterp spec fn upper_camel(text: Seq<char>) -> Seq<char>;

/// `ToUpperCamelCase::to_upper_camel_case` joins the words of a text, each with
/// a capital first. Where words begin and end is left to the name.
#[verifier::external_body]
fn to_upper_camel(text: &str) -> (out: String)
    ensures
        out@ == upper_camel(text@),
{
    text.to_upper_camel_case()
}

/// A sequence of pairs of strings, as texts.
pub open spec fn pair_texts(pairs: Seq<(String, String)>) -> Seq<(Seq<char>, Seq<char>)> {
    pairs.map_values(|pair: (String, String)| (pair.0@, pair.1@))
}

/// What a world exports, as texts: the full name of each item and, if it is an
/// interface, its own name.
pub open spec fn item_texts(items: Seq<(String, Option<String>)>) -> Seq<
    (Seq<char>, Option<Seq<char>>),
> {
    items.map_values(
        |item: (String, Option<String>)|
            (
                item.0@,
                match item.1 {
                    Some(name) => Some(name@),
                    None => None,
                },
            ),
    )
}

/// The interfaces among what a world exports, in order.
pub open spec fn interfaces_among(items: Seq<(Seq<char>, Option<Seq<char>>)>) -> Seq<
    (Seq<char>, Seq<char>),
>
    decreases items.len(),
{
    if items.len() == 0 {
        seq![]
    } else {
        let before = interfaces_among(items.drop_last());
        match items.last().1 {
            Some(name) => before.push((items.last().0, name)),
            None => before,
        }
    }
}

/// Picks the interfaces out of what a world exports: the full name of each item
/// and, if it is an interface, its own name.
pub fn interface_exports(items: &Vec<(String, Option<String>)>) -> (out: Vec<(String, String)>)
    ensures
        pair_texts(out@) == interfaces_among(item_texts(items@)),
{
    let ghost all = item_texts(items@);
    let mut out: Vec<(String, String)> = Vec::new();
    let mut i: usize = 0;
    assert(pair_texts(out@) =~= seq![]);
    while i < items.len()
        invariant
            i <= items.len(),
            all == item_texts(items@),
            pair_texts(out@) == interfaces_among(all.take(i as int)),
        decreases items.len() - i,
    {
        let ghost before = out@;
        assert(all.take(i + 1).drop_last() =~= all.take(i as int));
        assert(all.take(i + 1).last() == all[i as int]);
        if let Some(name) = &items[i].1 {
            out.push((items[i].0.clone(), name.clone()));
            assert(pair_texts(out@) =~= pair_texts(before).push((items@[i as int].0@, name@)));
        }
        i = i + 1;
    }
    assert(all.take(all.len() as int) =~= all);
    out
}

/// The variants that stand under each interface's full name after a sequence of
/// full names with variants. Of those with the same full name the last counts.
pub open spec fn collected(variants: Seq<(Seq<char>, Seq<char>)>) -> Map<Seq<char>, Seq<char>>
    decreases variants.len(),
{
    if variants.len() == 0 {
        Map::empty()
    } else {
        collected(variants.drop_last()).insert(variants.last().0, variants.last().1)
    }
}

/// What a map holds, as texts.
pub open spec fn value_texts(map: Map<Seq<char>, String>) -> Map<Seq<char>, Seq<char>> {
    map.map_values(|value: String| value@)
}

/// Collects the variants under the full names of their interfaces, in the order
/// of these names.
pub fn collect_variants(variants: &Vec<(String, String)>) -> (out: TextMap<String>)
    ensures
        value_texts(out@) == collected(pair_texts(variants@)),
{
    let ghost all = pair_texts(variants@);
    let mut out: TextMap<String> = TextMap::new();
    let mut i: usize = 0;
    assert(value_texts(out@) =~= Map::empty());
    while i < variants.len()
        invariant
            i <= variants.len(),
            all == pair_texts(variants@),
            value_texts(out@) == collected(all.take(i as int)),
        decreases variants.len() - i,
    {
        let ghost before = out@;
        out.insert(variants[i].0.clone(), variants[i].1.clone());
        proof {
            let pair = variants@[i as int];
            assert(all.take(i + 1).drop_last() =~= all.take(i as int));
            assert(all.take(i + 1).last() == (pair.0@, pair.1@));
            assert(value_texts(out@) =~= value_texts(before).insert(pair.0@, pair.1@));
        }
        i = i + 1;
    }
    assert(all.take(all.len() as int) =~= all);
    out
}

/// The lines that declare a sequence of variants.
pub open spec fn declarations(lines: Seq<(Seq<char>, Seq<char>)>) -> Seq<char>
    decreases lines.len(),
{
    if lines.len() == 0 {
        seq![]
    } else {
        declarations(lines.drop_last()) + "    "@ + lines.last().1 + ",\n"@
    }
}

/// The lines that give the full names of a sequence of variants.
pub open spec fn match_arms(lines: Seq<(Seq<char>, Seq<char>)>) -> Seq<char>
    decreases lines.len(),
{
    if lines.len() == 0 {
        seq![]
    } else {
        match_arms(lines.drop_last()) + "            Self::"@ + lines.last().1 + " => "@
            + lines.last().0 + ",\n"@
    }
}

/// What precedes the variants.
pub const SOURCE_HEAD: &'static str = "/// Known exported interfaces, generated from the SDK's WIT worlds.\n#[derive(Clone, Copy, Debug, Eq, PartialEq)]\npub enum PluginInterface {\n";

/// What stands between the variants and their full names.
pub const SOURCE_MIDDLE: &'static str = "}\nimpl PluginInterface {\n    pub const fn as_str(self) -> &'static str {\n        match self {\n";

/// What follows the full names.
pub const SOURCE_TAIL: &'static str = "        }\n    }\n}\n";

/// The source of an enumeration, for the string literal of each full name and
/// its variant.
pub open spec fn source_text(lines: Seq<(Seq<char>, Seq<char>)>) -> Seq<char> {
    SOURCE_HEAD@ + declarations(lines) + SOURCE_MIDDLE@ + match_arms(lines) + SOURCE_TAIL@
}

/// Writes the source of an enumeration, for the string literal of each full name
/// and its variant.
pub fn write_source(lines: &Vec<(String, String)>) -> (out: String)
    ensures
        out@ == source_text(pair_texts(lines@)),
{
    let ghost all = pair_texts(lines@);
    let mut out = SOURCE_HEAD.to_owned();
    let mut i: usize = 0;
    assert(out@ =~= SOURCE_HEAD@ + declarations(all.take(0)));
    while i < lines.len()
        invariant
            i <= lines.len(),
            all == pair_texts(lines@),
            out@ == SOURCE_HEAD@ + declarations(all.take(i as int)),
        decreases lines.len() - i,
    {
        out.append("    ");
        out.append(&lines[i].1);
        out.append(",\n");
        assert(all.take(i + 1).drop_last() =~= all.take(i as int));
        assert(out@ =~= SOURCE_HEAD@ + declarations(all.take(i + 1)));
        i = i + 1;
    }
    out.append(SOURCE_MIDDLE);
    let ghost head = out@;
    let mut j: usize = 0;
    assert(out@ =~= head + match_arms(all.take(0)));
    while j < lines.len()
        invariant
            j <= lines.len(),
            all == pair_texts(lines@),
            out@ == head + match_arms(all.take(j as int)),
        decreases lines.len() - j,
    {
        out.append("            Self::");
        out.append(&lines[j].1);
        out.append(" => ");
        out.append(&lines[j].0);
        out.append(",\n");
        assert(all.take(j + 1).drop_last() =~= all.take(j as int));
        assert(out@ =~= head + match_arms(all.take(j + 1)));
        j = j + 1;
    }
    out.append(SOURCE_TAIL);
    assert(all.take(all.len() as int) =~= all);
    assert(out@ =~= source_text(all));
    out
}

/// The full names and variants of a sequence of exports, each an interface's
/// full name and its own name.
pub open spec fn variants_of(exports: Seq<(Seq<char>, Seq<char>)>) -> Seq<(Seq<char>, Seq<char>)> {
    exports.map_values(|export: (Seq<char>, Seq<char>)| (export.0, upper_camel(export.1)))
}

/// The string literals and variants of interfaces in some order.
pub open spec fn lines_of(order: Seq<Seq<char>>, variants: Map<Seq<char>, Seq<char>>) -> Seq<
    (Seq<char>, Seq<char>),
> {
    order.map_values(|name: Seq<char>| (crate::text::quoted(name), variants[name]))
}

/// Writes the source of the enumeration of the interfaces that are exported,
/// each an interface's full name and its own name. The variants stand in the
/// order of the full names.
pub fn interfaces_source(exports: &Vec<(String, String)>) -> (out: String)
    ensures
        exists|order: Seq<Seq<char>>|
            {
                &&& #[trigger] crate::ordered::ascending(order)
                &&& order.to_set() == collected(variants_of(pair_texts(exports@))).dom()
                &&& out@ == source_text(
                    lines_of(order, collected(variants_of(pair_texts(exports@)))),
                )
            },
{
    let ghost all = variants_of(pair_texts(exports@));
    let mut named: Vec<(String, String)> = Vec::new();
    let mut i: usize = 0;
    while i < exports.len()
        invariant
            i <= exports.len(),
            all == variants_of(pair_texts(exports@)),
            pair_texts(named@) == all.take(i as int),
        decreases exports.len() - i,
    {
        let ghost before = named@;
        let variant = to_upper_camel(&exports[i].1);
        named.push((exports[i].0.clone(), variant));
        assert(pair_texts(named@) =~= pair_texts(before).push((exports@[i as int].0@, variant@)));
        assert(all.take(i + 1) =~= all.take(i as int).push(all[i as int]));
        i = i + 1;
    }
    assert(all.take(all.len() as int) =~= all);
    let interfaces = collect_variants(&named);
    let ghost variants = collected(all);
    let count: usize = interfaces.len();
    let ghost order = interfaces.order();
    let mut lines: Vec<(String, String)> = Vec::new();
    let mut j: usize = 0;
    while j < count
        invariant
            j <= count == order.len(),
            order == interfaces.order(),
            value_texts(interfaces@) == variants,
            pair_texts(lines@) == lines_of(order, variants).take(j as int),
        decreases count - j,
    {
        let ghost before = lines@;
        let entry = interfaces.at(j);
        let literal = to_quoted(&entry.0);
        lines.push((literal, entry.1.clone()));
        proof {
            assert(variants[entry.0@] == entry.1@);
            assert(pair_texts(lines@) =~= pair_texts(before).push((literal@, entry.1@)));
            assert(lines_of(order, variants).take(j + 1) =~= lines_of(order, variants).take(
                j as int,
            ).push(lines_of(order, variants)[j as int]));
        }
        j = j + 1;
    }
    proof {
        assert(lines_of(order, variants).take(count as int) =~= lines_of(order, variants));
        assert(interfaces@.dom() =~= variants.dom()) by {
            assert(value_texts(interfaces@).dom() =~= interfaces@.dom());
        }
        assert(crate::ordered::ascending(order));
    }
    write_source(&lines)
}

/// The variants have only one order, so that the same exports always give the
/// same source.
pub proof fn law_source_is_determined(
    exports: Seq<(Seq<char>, Seq<char>)>,
    first: Seq<Seq<char>>,
    second: Seq<Seq<char>>,
)
    requires
        crate::ordered::ascending(first),
        crate::ordered::ascending(second),
        first.to_set() == collected(variants_of(exports)).dom(),
        second.to_set() == collected(variants_of(exports)).dom(),
    ensures
        source_text(lines_of(first, collected(variants_of(exports)))) == source_text(
            lines_of(second, collected(variants_of(exports))),
        ),
{
    crate::ordered::law_texts_have_one_order(first, second);
}

/// The interfaces among what a world exports are all its items that are
/// interfaces and nothing else, in their order, each with its full name and its
/// own name.
pub proof fn law_interfaces_are_all_picked(items: Seq<(Seq<char>, Option<Seq<char>>)>) -> (places:
    Seq<int>)
    ensures
        crate::ordered::are_all_places(
            items,
            |item: (Seq<char>, Option<Seq<char>>)| item.1 is Some,
            places,
        ),
        interfaces_among(items).len() == places.len(),
        forall|k: int|
            0 <= k < places.len() ==> #[trigger] interfaces_among(items)[k] == (
                items[places[k]].0,
                items[places[k]].1->0,
            ),
    decreases items.len(),
{
    let wanted = |item: (Seq<char>, Option<Seq<char>>)| item.1 is Some;
    if items.len() == 0 {
        seq![]
    } else {
        let before = law_interfaces_are_all_picked(items.drop_last());
        let places = crate::ordered::lemma_places_with_one_more(items, wanted, before);
        assert forall|k: int| 0 <= k < places.len() implies #[trigger] interfaces_among(items)[k]
            == (items[places[k]].0, items[places[k]].1->0) by {
            if k < before.len() {
                assert(interfaces_among(items.drop_last())[k] == (
                    items.drop_last()[before[k]].0,
                    items.drop_last()[before[k]].1->0,
                ));
            }
        }
        places
    }
}

/// Of several variants with the same full name the last one counts, whatever
/// stands before it and whatever variants of other names follow.
pub proof fn law_last_variant_counts(
    variants: Seq<(Seq<char>, Seq<char>)>,
    name: Seq<char>,
    at: int,
)
    requires
        0 <= at < variants.len(),
        variants[at].0 == name,
        forall|i: int| at < i < variants.len() ==> (#[trigger] variants[i]).0 != name,
    ensures
        collected(variants).contains_key(name),
        collected(variants)[name] == variants[at].1,
    decreases variants.len(),
{
    let shorter = variants.drop_last();
    let last = variants.len() - 1;
    assert(variants.last() == variants[last]);
    if at < last {
        assert forall|i: int| at < i < shorter.len() implies (#[trigger] shorter[i]).0
            != name by {
            assert(shorter[i] == variants[i]);
        }
        law_last_variant_counts(shorter, name, at);
    }
}

/// A full name that does not occur has no variant.
pub proof fn law_no_variant_is_made_up(variants: Seq<(Seq<char>, Seq<char>)>, name: Seq<char>)
    requires
        forall|i: int| 0 <= i < variants.len() ==> (#[trigger] variants[i]).0 != name,
    ensures
        !collected(variants).contains_key(name),
    decreases variants.len(),
{
    if variants.len() > 0 {
        let shorter = variants.drop_last();
        assert(variants.last() == variants[variants.len() - 1]);
        assert forall|i: int| 0 <= i < shorter.len() implies (#[trigger] shorter[i]).0 != name by {
            assert(shorter[i] == variants[i]);
        }
        law_no_variant_is_made_up(shorter, name);
    }
}

/// Every export gets the variant that its own name is made into, in its place
/// and under its full name; and every line has the literal of a full name and
/// the variant that stands under it, in the given order.
pub proof fn law_exports_become_lines(
    exports: Seq<(Seq<char>, Seq<char>)>,
    order: Seq<Seq<char>>,
    variants: Map<Seq<char>, Seq<char>>,
)
    ensures
        variants_of(exports).len() == exports.len(),
        forall|i: int|
            0 <= i < exports.len() ==> #[trigger] variants_of(exports)[i] == (
                exports[i].0,
                upper_camel(exports[i].1),
            ),
        lines_of(order, variants).len() == order.len(),
        forall|i: int|
            0 <= i < order.len() ==> #[trigger] lines_of(order, variants)[i] == (
                crate::text::quoted(order[i]),
                variants[order[i]],
            ),
{
}

/// The source declares each variant and gives each its literal, one line for
/// each and in the same order: one more line adds its declaration behind the
/// declarations before it, and its literal behind the literals.
pub proof fn law_source_has_every_line(
    lines: Seq<(Seq<char>, Seq<char>)>,
    literal: Seq<char>,
    variant: Seq<char>,
)
    ensures
        declarations(seq![]) == Seq::<char>::empty(),
        match_arms(seq![]) == Seq::<char>::empty(),
        declarations(lines.push((literal, variant))) == declarations(lines) + ("    "@ + variant
            + ",\n"@),
        match_arms(lines.push((literal, variant))) == match_arms(lines) + ("            Self::"@
            + variant + " => "@ + literal + ",\n"@),
        source_text(lines) == SOURCE_HEAD@ + declarations(lines) + SOURCE_MIDDLE@ + match_arms(
            lines,
        ) + SOURCE_TAIL@,
{
    let more = lines.push((literal, variant));
    assert(more.drop_last() =~= lines);
    assert(declarations(more) =~= declarations(lines) + ("    "@ + variant + ",\n"@));
    assert(match_arms(more) =~= match_arms(lines) + ("            Self::"@ + variant + " => "@
        + literal + ",\n"@));
}

/// What pairs and items show stands in the same places, each with all its parts.
pub proof fn law_items_show_what_they_hold(
    pairs: Seq<(String, String)>,
    items: Seq<(String, Option<String>)>,
)
    ensures
        pair_texts(pairs).len() == pairs.len(),
        forall|i: int|
            0 <= i < pairs.len() ==> #[trigger] pair_texts(pairs)[i] == (pairs[i].0@, pairs[i].1@),
        item_texts(items).len() == items.len(),
        forall|i: int|
            0 <= i < items.len() ==> (#[trigger] item_texts(items)[i]).0 == items[i].0@ && match (
                items[i].1,
                item_texts(items)[i].1,
            ) {
                (Some(name), Some(shown)) => shown == name@,
                (None, None) => true,
                _ => false,
            },
{
}

}
