//! Plugin identifiers: UUIDs that are not nil, and the texts that denote them.

use vstd::prelude::*;

verus! {

broadcast use vstd::string::group_string_axioms;

/// The lower-case hexadecimal digit of a number below sixteen.
pub open spec fn hex_digit(d: nat) -> char {
    if d < 10 {
        ('0' as u32 + d) as char
    } else {
        ('a' as u32 + (d - 10)) as char
    }
}

/// The last `count` hexadecimal digits of `value`, most significant first.
pub open spec fn hex_digits(value: nat, count: nat) -> Seq<char>
    decreases count,
{
    if count == 0 {
        seq![]
    } else {
        hex_digits(value / 16, (count - 1) as nat).push(hex_digit(value % 16))
    }
}

/// A UUID as thirty-two hexadecimal digits.
pub open spec fn simple(value: u128) -> Seq<char> {
    hex_digits(value as nat, 32)
}

/// A UUID in five groups of hexadecimal digits joined by hyphens.
pub open spec fn hyphenated(value: u128) -> Seq<char> {
    let digits = simple(value);
    digits.subrange(0, 8) + seq!['-'] + digits.subrange(8, 12) + seq!['-'] + digits.subrange(12, 16)
        + seq!['-'] + digits.subrange(16, 20) + seq!['-'] + digits.subrange(20, 32)
}

/// A character with ASCII capitals made small.
pub open spec fn ascii_lower(c: char) -> char {
    if 'A' <= c <= 'Z' {
        (c as u32 + 32) as char
    } else {
        c
    }
}

/// Whether a text denotes a UUID: its digits alone, its hyphenated form, the
/// hyphenated form in braces, or that form behind `urn:uuid:`; capitals count
/// as small letters.
pub open spec fn denotes_uuid(text: Seq<char>, value: u128) -> bool {
    let lower = text.map_values(|c: char| ascii_lower(c));
    ||| lower == simple(value)
    ||| lower == hyphenated(value)
    ||| lower == seq!['{'] + hyphenated(value) + seq!['}']
    ||| lower == seq!['u', 'r', 'n', ':', 'u', 'u', 'i', 'd', ':'] + hyphenated(value)
}

/// `uuid::Uuid::parse_str` reads the four spellings of a UUID that
/// `denotes_uuid` lists and refuses every other text.
#[verifier::external_body]
pub(crate) fn parse_uuid(text: &str) -> (out: Option<u128>)
    ensures
        match out {
            Some(value) => denotes_uuid(text@, value),
            None => forall|value: u128| !denotes_uuid(text@, value),
        },
{
    match uuid::Uuid::parse_str(text) {
        Ok(value) => Some(value.as_u128()),
        Err(_) => None,
    }
}

/// The `Display` of `uuid::Uuid` is its hyphenated form in small letters.
#[verifier::external_body]
pub(crate) fn uuid_text(value: u128) -> (out: String)
    ensures
        out@ == hyphenated(value),
{
    uuid::Uuid::from_u128(value).to_string()
}

/// Whether a UUID carries the marks of version 4 and of its variant.
pub open spec fn is_random_uuid(value: u128) -> bool {
    &&& (value >> 76) & 0xf == 4
    &&& (value >> 62) & 0x3 == 2
}

/// `uuid::Uuid::new_v4` draws a UUID from the system's random source. Nothing
/// is said of which one, nor that two draws differ.
#[verifier::external_body]
pub(crate) fn random_uuid() -> (out: u128)
    ensures
        is_random_uuid(out),
{
    uuid::Uuid::new_v4().as_u128()
}

/// The hexadecimal digits of a number that they suffice for determine it.
proof fn lemma_hex_digits_injective(a: nat, b: nat, count: nat)
    requires
        hex_digits(a, count) == hex_digits(b, count),
        a < vstd::arithmetic::power::pow(16, count),
        b < vstd::arithmetic::power::pow(16, count),
    ensures
        a == b,
    decreases count,
{
    reveal(vstd::arithmetic::power::pow);
    if count > 0 {
        let x = hex_digits(a, count);
        let y = hex_digits(b, count);
        assert(x.last() == hex_digit(a % 16));
        assert(y.last() == hex_digit(b % 16));
        assert(x.drop_last() =~= hex_digits(a / 16, (count - 1) as nat));
        assert(y.drop_last() =~= hex_digits(b / 16, (count - 1) as nat));
        lemma_hex_digits_injective(a / 16, b / 16, (count - 1) as nat);
    }
}

proof fn lemma_hex_digits_len(value: nat, count: nat)
    ensures
        hex_digits(value, count).len() == count,
        forall|i: int|
            0 <= i < count ==> exists|d: nat|
                d < 16 && #[trigger] hex_digit(d) == #[trigger] hex_digits(value, count)[i],
    decreases count,
{
    if count > 0 {
        lemma_hex_digits_len(value / 16, (count - 1) as nat);
        let shorter = hex_digits(value / 16, (count - 1) as nat);
        assert forall|i: int| 0 <= i < count implies exists|d: nat|
            d < 16 && #[trigger] hex_digit(d) == #[trigger] hex_digits(value, count)[i] by {
            if i < count - 1 {
                assert(hex_digits(value, count)[i] == shorter[i]);
                let d = choose|d: nat| d < 16 && #[trigger] hex_digit(d) == shorter[i];
                assert(hex_digit(d) == hex_digits(value, count)[i]);
            } else {
                assert(hex_digit(value % 16) == hex_digits(value, count)[i]);
            }
        }
    }
}

/// Different UUIDs have different hyphenated forms.
pub proof fn law_hyphenated_is_injective(a: u128, b: u128)
    requires
        hyphenated(a) == hyphenated(b),
    ensures
        a == b,
{
    lemma_hex_digits_len(a as nat, 32);
    lemma_hex_digits_len(b as nat, 32);
    let x = hyphenated(a);
    let y = hyphenated(b);
    let strip = |h: Seq<char>|
        h.subrange(0, 8) + h.subrange(9, 13) + h.subrange(14, 18) + h.subrange(19, 23)
            + h.subrange(24, 36);
    assert(strip(x) =~= simple(a));
    assert(strip(y) =~= simple(b));
    lemma_simple_is_injective(a, b);
}

proof fn lemma_simple_is_injective(a: u128, b: u128)
    requires
        simple(a) == simple(b),
    ensures
        a == b,
{
    assert(vstd::arithmetic::power::pow(16, 32) == 0x1_0000_0000_0000_0000_0000_0000_0000_0000int)
        by {
        reveal_with_fuel(vstd::arithmetic::power::pow, 33);
    }
    lemma_hex_digits_injective(a as nat, b as nat, 32);
}

proof fn lemma_hyphenated_is_lower(value: u128)
    ensures
        hyphenated(value).len() == 36,
        hyphenated(value).map_values(|c: char| ascii_lower(c)) == hyphenated(value),
{
    lemma_hex_digits_len(value as nat, 32);
    let digits = simple(value);
    let text = hyphenated(value);
    assert forall|i: int| 0 <= i < 36 implies ascii_lower(#[trigger] text[i]) == text[i] by {
        let k = if i < 8 {
            i
        } else if i < 13 {
            i - 1
        } else if i < 18 {
            i - 2
        } else if i < 23 {
            i - 3
        } else {
            i - 4
        };
        if i != 8 && i != 13 && i != 18 && i != 23 {
            assert(text[i] == digits[k]);
            let d = choose|d: nat| d < 16 && #[trigger] hex_digit(d) == digits[k];
            assert(hex_digit(d) == digits[k]);
        }
    }
    assert(text.map_values(|c: char| ascii_lower(c)) =~= text);
}

/// A text denotes at most one UUID.
pub proof fn law_text_denotes_one_uuid(text: Seq<char>, a: u128, b: u128)
    requires
        denotes_uuid(text, a),
        denotes_uuid(text, b),
    ensures
        a == b,
{
    lemma_hex_digits_len(a as nat, 32);
    lemma_hex_digits_len(b as nat, 32);
    let lower = text.map_values(|c: char| ascii_lower(c));
    let urn = seq!['u', 'r', 'n', ':', 'u', 'u', 'i', 'd', ':'];
    if lower.len() == 32 {
        lemma_simple_is_injective(a, b);
    } else if lower.len() == 36 {
        law_hyphenated_is_injective(a, b);
    } else if lower.len() == 38 {
        assert(lower.subrange(1, 37) =~= hyphenated(a));
        assert(lower.subrange(1, 37) =~= hyphenated(b));
        law_hyphenated_is_injective(a, b);
    } else {
        assert(lower.subrange(9, 45) =~= hyphenated(a));
        assert(lower.subrange(9, 45) =~= hyphenated(b));
        law_hyphenated_is_injective(a, b);
    }
}

/// The text written for a UUID denotes it.
pub proof fn law_written_uuid_denotes_itself(value: u128)
    ensures
        denotes_uuid(hyphenated(value), value),
{
    lemma_hyphenated_is_lower(value);
}

/// The identity of a managed plugin: a UUID other than the nil one.
#[derive(Clone, Copy, Debug, PartialEq, Eq, Structural, Hash)]
pub struct PluginId {
    value: u128,
}

impl PluginId {
    #[verifier::type_invariant]
    closed spec fn not_nil(self) -> bool {
        self.value != 0
    }

    /// The UUID as a number.
    pub closed spec fn value(self) -> u128 {
        self.value
    }

    /// The identity with this number; the nil UUID is none.
    pub fn new(value: u128) -> (out: Option<PluginId>)
        ensures
            value == 0 <==> out is None,
            out matches Some(id) ==> id.value() == value,
    {
        if value == 0 {
            None
        } else {
            Some(PluginId { value })
        }
    }

    /// The identity's number.
    pub fn get(&self) -> (out: u128)
        ensures
            out == self.value(),
            out != 0,
    {
        proof {
            use_type_invariant(self);
        }
        self.value
    }

    /// Reads the identity that a text denotes.
    pub fn parse(text: &str) -> (out: Option<PluginId>)
        ensures
            match out {
                Some(id) => id.value() != 0 && denotes_uuid(text@, id.value()),
                None => forall|value: u128| value != 0 ==> !denotes_uuid(text@, value),
            },
    {
        match parse_uuid(text) {
            Some(value) => {
                proof {
                    assert forall|other: u128| denotes_uuid(text@, other) implies other == value by {
                        law_text_denotes_one_uuid(text@, other, value);
                    }
                }
                PluginId::new(value)
            },
            None => None,
        }
    }

    /// Writes the identity in its hyphenated form.
    pub fn text(&self) -> (out: String)
        ensures
            out@ == hyphenated(self.value()),
    {
        uuid_text(self.value)
    }

    /// Whether two identities are the same.
    pub fn same(&self, other: &PluginId) -> (out: bool)
        ensures
            out == (self.value() == other.value()),
            out == (*self == *other),
    {
        self.value == other.value
    }
}

/// A fresh name for a directory under the staging root: a random UUID,
/// hyphenated. Which one it is, and that two names differ, is left to chance.
pub fn staging_name() -> (out: String)
    ensures
        exists|value: u128| is_random_uuid(value) && out@ == #[trigger] hyphenated(value),
{
    let value: u128 = random_uuid();
    uuid_text(value)
}

/// The hyphenated form has five groups of hexadecimal digits in small letters,
/// eight, four, four, four and twelve, with hyphens between them.
pub proof fn law_hyphenated_has_five_groups(value: u128)
    ensures
        hyphenated(value).len() == 36,
        forall|i: int|
            0 <= i < 36 ==> if i == 8 || i == 13 || i == 18 || i == 23 {
                #[trigger] hyphenated(value)[i] == '-'
            } else {
                '0' <= hyphenated(value)[i] <= '9' || 'a' <= hyphenated(value)[i] <= 'f'
            },
{
    lemma_hex_digits_len(value as nat, 32);
    let digits = simple(value);
    let text = hyphenated(value);
    assert forall|i: int| 0 <= i < 36 implies if i == 8 || i == 13 || i == 18 || i == 23 {
        #[trigger] text[i] == '-'
    } else {
        '0' <= text[i] <= '9' || 'a' <= text[i] <= 'f'
    } by {
        let k = if i < 8 {
            i
        } else if i < 13 {
            i - 1
        } else if i < 18 {
            i - 2
        } else if i < 23 {
            i - 3
        } else {
            i - 4
        };
        if i != 8 && i != 13 && i != 18 && i != 23 {
            assert(text[i] == digits[k]);
            let d = choose|d: nat| d < 16 && #[trigger] hex_digit(d) == digits[k];
            assert(hex_digit(d) == digits[k]);
        }
    }
}

/// Which UUID a text denotes does not depend on the case of its letters.
pub proof fn law_case_does_not_matter(first: Seq<char>, second: Seq<char>, value: u128)
    requires
        first.len() == second.len(),
        forall|i: int|
            0 <= i < first.len() ==> ascii_lower(#[trigger] first[i]) == ascii_lower(second[i]),
    ensures
        denotes_uuid(first, value) <==> denotes_uuid(second, value),
{
    assert(first.map_values(|c: char| ascii_lower(c)) =~= second.map_values(
        |c: char| ascii_lower(c),
    ));
}

}
