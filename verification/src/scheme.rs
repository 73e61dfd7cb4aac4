//! The Material 3 scheme variants and their names.
use vstd::prelude::*;
use crate::text::{ascii_lowercase_chars, is_snake_name, lemma_snake_name_is_normal, lowercase_chars, push_str, replace_char, replace_char_chars, str_eq, to_lowercase, trim_chars, trim_to_string};

verus! {

/// The seven Material 3 scheme variants.
#[derive(Debug, Clone, Copy, PartialEq, Eq, Hash, Structural)]
pub enum SchemeVariant {
    TonalSpot,
    Vibrant,
    Expressive,
    Fidelity,
    Content,
    Monochrome,
    Neutral,
}

/// The variant a normalized name denotes, aliases included.
pub open spec fn scheme_variant_named(n: Seq<char>) -> Option<SchemeVariant> {
    if n == "tonalspot"@ || n == "tonal_spot"@ || n == "default"@ {
        Some(SchemeVariant::TonalSpot)
    } else if n == "vibrant"@ {
        Some(SchemeVariant::Vibrant)
    } else if n == "expressive"@ {
        Some(SchemeVariant::Expressive)
    } else if n == "fidelity"@ {
        Some(SchemeVariant::Fidelity)
    } else if n == "content"@ {
        Some(SchemeVariant::Content)
    } else if n == "monochrome"@ || n == "mono"@ || n == "grayscale"@ {
        Some(SchemeVariant::Monochrome)
    } else if n == "neutral"@ {
        Some(SchemeVariant::Neutral)
    } else {
        None
    }
}

/// The canonical snake_case name of a variant.
pub open spec fn scheme_variant_name(v: SchemeVariant) -> Seq<char> {
    match v {
        SchemeVariant::TonalSpot => "tonal_spot"@,
        SchemeVariant::Vibrant => "vibrant"@,
        SchemeVariant::Expressive => "expressive"@,
        SchemeVariant::Fidelity => "fidelity"@,
        SchemeVariant::Content => "content"@,
        SchemeVariant::Monochrome => "monochrome"@,
        SchemeVariant::Neutral => "neutral"@,
    }
}

/// Every canonical variant name is a snake_case name.
proof fn lemma_variant_names_are_snake(v: SchemeVariant)
    ensures
        is_snake_name(scheme_variant_name(v)),
{
    reveal_strlit("tonal_spot");
    reveal_strlit("vibrant");
    reveal_strlit("expressive");
    reveal_strlit("fidelity");
    reveal_strlit("content");
    reveal_strlit("monochrome");
    reveal_strlit("neutral");
}

/// A name as parsing compares it: trimmed, lowercased, `-` read as `_`.
pub open spec fn normalized_variant_name(s: Seq<char>) -> Seq<char> {
    replace_char_chars(lowercase_chars(trim_chars(s)), '-', '_')
}

/// The normalized name of text whose trimmed form is ASCII, where
/// lowercasing maps `A`-`Z` to `a`-`z` and nothing else.
pub open spec fn ascii_normalized_variant_name(s: Seq<char>) -> Seq<char> {
    replace_char_chars(ascii_lowercase_chars(trim_chars(s)), '-', '_')
}

impl SchemeVariant {
    /// The variant that a normalized name (trimmed, lowercase, snake_case)
    /// denotes.
    pub fn from_normalized_name(n: &str) -> (v: Option<SchemeVariant>)
        ensures
            v == scheme_variant_named(n@),
    {
        if str_eq(n, "tonalspot") || str_eq(n, "tonal_spot") || str_eq(n, "default") {
            Some(SchemeVariant::TonalSpot)
        } else if str_eq(n, "vibrant") {
            Some(SchemeVariant::Vibrant)
        } else if str_eq(n, "expressive") {
            Some(SchemeVariant::Expressive)
        } else if str_eq(n, "fidelity") {
            Some(SchemeVariant::Fidelity)
        } else if str_eq(n, "content") {
            Some(SchemeVariant::Content)
        } else if str_eq(n, "monochrome") || str_eq(n, "mono") || str_eq(n, "grayscale") {
            Some(SchemeVariant::Monochrome)
        } else if str_eq(n, "neutral") {
            Some(SchemeVariant::Neutral)
        } else {
            None
        }
    }

    /// Parses a variant name, ignoring case and surrounding whitespace and
    /// accepting `-` for `_`; an unknown name is an error that quotes it.
    pub fn parse(s: &str) -> (r: Result<SchemeVariant, String>)
        ensures
            r matches Ok(v) ==> scheme_variant_named(normalized_variant_name(s@)) == Some(v),
            r matches Err(m) ==> scheme_variant_named(normalized_variant_name(s@)) is None && m@
                == "Unknown scheme variant: '"@ + s@ + "'"@,
            forall|v: SchemeVariant| #[trigger] scheme_variant_name(v) == s@ ==> r == Ok::<
                SchemeVariant,
                String,
            >(v),
            vstd::utf8::is_ascii_chars(trim_chars(s@)) ==> normalized_variant_name(s@)
                == ascii_normalized_variant_name(s@),
    {
        let trimmed = trim_to_string(s);
        let lower = to_lowercase(trimmed.as_str());
        let normalized = replace_char(lower.as_str(), '-', '_');
        proof {
            assert forall|v: SchemeVariant| #[trigger] scheme_variant_name(v) == s@ implies normalized@
                == s@ && scheme_variant_named(s@) == Some(v) by {
                lemma_variant_names_are_snake(v);
                lemma_snake_name_is_normal(s@);
                law_variant_name_round_trip(v);
            }
        }
        match Self::from_normalized_name(normalized.as_str()) {
            Some(v) => Ok(v),
            None => {
                let mut m = String::new();
                push_str(&mut m, "Unknown scheme variant: '");
                push_str(&mut m, s);
                push_str(&mut m, "'");
                Err(m)
            },
        }
    }

    /// The canonical snake_case name, such as `tonal_spot`.
    pub fn to_string(&self) -> (s: String)
        ensures
            s@ == scheme_variant_name(*self),
    {
        let mut s = String::new();
        match self {
            SchemeVariant::TonalSpot => push_str(&mut s, "tonal_spot"),
            SchemeVariant::Vibrant => push_str(&mut s, "vibrant"),
            SchemeVariant::Expressive => push_str(&mut s, "expressive"),
            SchemeVariant::Fidelity => push_str(&mut s, "fidelity"),
            SchemeVariant::Content => push_str(&mut s, "content"),
            SchemeVariant::Monochrome => push_str(&mut s, "monochrome"),
            SchemeVariant::Neutral => push_str(&mut s, "neutral"),
        }
        s
    }
}

impl Default for SchemeVariant {
    /// Tonal spot, Material 3's default.
    fn default() -> (v: SchemeVariant)
        ensures
            v == SchemeVariant::TonalSpot,
    {
        SchemeVariant::TonalSpot
    }
}

impl std::str::FromStr for SchemeVariant {
    type Err = String;

    /// Parses a variant name as `SchemeVariant::parse` does.
    fn from_str(s: &str) -> (r: Result<SchemeVariant, String>)
        ensures
            r matches Ok(v) ==> scheme_variant_named(normalized_variant_name(s@)) == Some(v),
            r matches Err(m) ==> scheme_variant_named(normalized_variant_name(s@)) is None && m@
                == "Unknown scheme variant: '"@ + s@ + "'"@,
            forall|v: SchemeVariant| #[trigger] scheme_variant_name(v) == s@ ==> r == Ok::<
                SchemeVariant,
                String,
            >(v),
            vstd::utf8::is_ascii_chars(trim_chars(s@)) ==> normalized_variant_name(s@)
                == ascii_normalized_variant_name(s@),
    {
        SchemeVariant::parse(s)
    }
}

/// Every variant's canonical name parses back to that variant.
pub proof fn law_variant_name_round_trip(v: SchemeVariant)
    ensures
        scheme_variant_named(scheme_variant_name(v)) == Some(v),
{
    reveal_strlit("tonal_spot");
    reveal_strlit("tonalspot");
    reveal_strlit("default");
    reveal_strlit("vibrant");
    reveal_strlit("expressive");
    reveal_strlit("fidelity");
    reveal_strlit("content");
    reveal_strlit("monochrome");
    reveal_strlit("mono");
    reveal_strlit("grayscale");
    reveal_strlit("neutral");
    match v {
        SchemeVariant::TonalSpot => {},
        SchemeVariant::Vibrant => {
                    assert(!("vibrant"@ =~= "tonal_spot"@));
            assert("vibrant"@[0] != "default"@[0]);
            assert(!("vibrant"@ =~= "default"@));
        },
        SchemeVariant::Expressive => {
            assert(!("expressive"@ =~= "tonalspot"@));
            assert("expressive"@[0] != "tonal_spot"@[0]);
            assert(!("expressive"@ =~= "tonal_spot"@));
            assert(!("expressive"@ =~= "default"@));
            assert(!("expressive"@ =~= "vibrant"@));
        },
        SchemeVariant::Fidelity => {
            assert(!("fidelity"@ =~= "tonalspot"@));
            assert(!("fidelity"@ =~= "tonal_spot"@));
            assert(!("fidelity"@ =~= "default"@));
            assert(!("fidelity"@ =~= "vibrant"@));
            assert(!("fidelity"@ =~= "expressive"@));
        },
        SchemeVariant::Content => {
            assert(!("content"@ =~= "tonalspot"@));
            assert(!("content"@ =~= "tonal_spot"@));
            assert("content"@[0] != "default"@[0]);
            assert(!("content"@ =~= "default"@));
            assert("content"@[0] != "vibrant"@[0]);
            assert(!("content"@ =~= "vibrant"@));
            assert(!("content"@ =~= "expressive"@));
            assert(!("content"@ =~= "fidelity"@));
        },
        SchemeVariant::Monochrome => {
            assert(!("monochrome"@ =~= "tonalspot"@));
            assert("monochrome"@[0] != "tonal_spot"@[0]);
            assert(!("monochrome"@ =~= "tonal_spot"@));
            assert(!("monochrome"@ =~= "default"@));
            assert(!("monochrome"@ =~= "vibrant"@));
            assert("monochrome"@[0] != "expressive"@[0]);
            assert(!("monochrome"@ =~= "expressive"@));
            assert(!("monochrome"@ =~= "fidelity"@));
            assert(!("monochrome"@ =~= "content"@));
        },
        SchemeVariant::Neutral => {
            assert(!("neutral"@ =~= "tonalspot"@));
            assert(!("neutral"@ =~= "tonal_spot"@));
            assert("neutral"@[0] != "default"@[0]);
            assert(!("neutral"@ =~= "default"@));
            assert("neutral"@[0] != "vibrant"@[0]);
            assert(!("neutral"@ =~= "vibrant"@));
            assert(!("neutral"@ =~= "expressive"@));
            assert(!("neutral"@ =~= "fidelity"@));
            assert("neutral"@[0] != "content"@[0]);
            assert(!("neutral"@ =~= "content"@));
            assert(!("neutral"@ =~= "monochrome"@));
            assert(!("neutral"@ =~= "mono"@));
            assert(!("neutral"@ =~= "grayscale"@));
        },
    }
}

/// Every normalized name of a scheme variant, aliases included, with the variant it denotes.
pub open spec fn scheme_variant_names() -> Seq<(Seq<char>, SchemeVariant)> {
    seq![
        ("tonalspot"@, SchemeVariant::TonalSpot),
        ("tonal_spot"@, SchemeVariant::TonalSpot),
        ("default"@, SchemeVariant::TonalSpot),
        ("vibrant"@, SchemeVariant::Vibrant),
        ("expressive"@, SchemeVariant::Expressive),
        ("fidelity"@, SchemeVariant::Fidelity),
        ("content"@, SchemeVariant::Content),
        ("monochrome"@, SchemeVariant::Monochrome),
        ("mono"@, SchemeVariant::Monochrome),
        ("grayscale"@, SchemeVariant::Monochrome),
        ("neutral"@, SchemeVariant::Neutral),
    ]
}

/// A normalized variant name denotes the variant the name table gives it (`tonalspot` and `default` for tonal spot, `mono` and `grayscale` for monochrome), and no other name denotes one.
pub proof fn law_scheme_variant_names(t: Seq<char>)
    ensures
        forall|i: int|
            #![trigger scheme_variant_names()[i]]
            0 <= i < scheme_variant_names().len() ==> scheme_variant_named(scheme_variant_names()[i].0) == Some(scheme_variant_names()[i].1),
        scheme_variant_named(t) is Some ==> exists|i: int|
            #![trigger scheme_variant_names()[i]]
            0 <= i < scheme_variant_names().len() && scheme_variant_names()[i].0 == t && Some(scheme_variant_names()[i].1) == scheme_variant_named(t),
{
    reveal_strlit("tonalspot");
    reveal_strlit("tonal_spot");
    reveal_strlit("default");
    reveal_strlit("vibrant");
    reveal_strlit("expressive");
    reveal_strlit("fidelity");
    reveal_strlit("content");
    reveal_strlit("monochrome");
    reveal_strlit("mono");
    reveal_strlit("grayscale");
    reveal_strlit("neutral");
    assert("tonalspot"@.len() != "tonal_spot"@.len());
    assert("tonalspot"@.len() != "default"@.len());
    assert("tonalspot"@.len() != "vibrant"@.len());
    assert("tonalspot"@.len() != "expressive"@.len());
    assert("tonalspot"@.len() != "fidelity"@.len());
    assert("tonalspot"@.len() != "content"@.len());
    assert("tonalspot"@.len() != "monochrome"@.len());
    assert("tonalspot"@.len() != "mono"@.len());
    assert("tonalspot"@[0] != "grayscale"@[0]);
    assert("tonalspot"@.len() != "neutral"@.len());
    assert("tonal_spot"@.len() != "default"@.len());
    assert("tonal_spot"@.len() != "vibrant"@.len());
    assert("tonal_spot"@[0] != "expressive"@[0]);
    assert("tonal_spot"@.len() != "fidelity"@.len());
    assert("tonal_spot"@.len() != "content"@.len());
    assert("tonal_spot"@[0] != "monochrome"@[0]);
    assert("tonal_spot"@.len() != "mono"@.len());
    assert("tonal_spot"@.len() != "grayscale"@.len());
    assert("tonal_spot"@.len() != "neutral"@.len());
    assert("default"@[0] != "vibrant"@[0]);
    assert("default"@.len() != "expressive"@.len());
    assert("default"@.len() != "fidelity"@.len());
    assert("default"@[0] != "content"@[0]);
    assert("default"@.len() != "monochrome"@.len());
    assert("default"@.len() != "mono"@.len());
    assert("default"@.len() != "grayscale"@.len());
    assert("default"@[0] != "neutral"@[0]);
    assert("vibrant"@.len() != "expressive"@.len());
    assert("vibrant"@.len() != "fidelity"@.len());
    assert("vibrant"@[0] != "content"@[0]);
    assert("vibrant"@.len() != "monochrome"@.len());
    assert("vibrant"@.len() != "mono"@.len());
    assert("vibrant"@.len() != "grayscale"@.len());
    assert("vibrant"@[0] != "neutral"@[0]);
    assert("expressive"@.len() != "fidelity"@.len());
    assert("expressive"@.len() != "content"@.len());
    assert("expressive"@[0] != "monochrome"@[0]);
    assert("expressive"@.len() != "mono"@.len());
    assert("expressive"@.len() != "grayscale"@.len());
    assert("expressive"@.len() != "neutral"@.len());
    assert("fidelity"@.len() != "content"@.len());
    assert("fidelity"@.len() != "monochrome"@.len());
    assert("fidelity"@.len() != "mono"@.len());
    assert("fidelity"@.len() != "grayscale"@.len());
    assert("fidelity"@.len() != "neutral"@.len());
    assert("content"@.len() != "monochrome"@.len());
    assert("content"@.len() != "mono"@.len());
    assert("content"@.len() != "grayscale"@.len());
    assert("content"@[0] != "neutral"@[0]);
    assert("monochrome"@.len() != "mono"@.len());
    assert("monochrome"@.len() != "grayscale"@.len());
    assert("monochrome"@.len() != "neutral"@.len());
    assert("mono"@.len() != "grayscale"@.len());
    assert("mono"@.len() != "neutral"@.len());
    assert("grayscale"@.len() != "neutral"@.len());
    let tbl = scheme_variant_names();
    assert(tbl.len() == 11);
    assert forall|i: int| 0 <= i < tbl.len() implies #[trigger] scheme_variant_named(tbl[i].0) == Some(tbl[i].1) by {
        if i == 0 {
            assert(tbl[0] == ("tonalspot"@, SchemeVariant::TonalSpot));
            assert(scheme_variant_named("tonalspot"@) == Some(SchemeVariant::TonalSpot));
        } else if i == 1 {
            assert(tbl[1] == ("tonal_spot"@, SchemeVariant::TonalSpot));
            assert(scheme_variant_named("tonal_spot"@) == Some(SchemeVariant::TonalSpot));
        } else if i == 2 {
            assert(tbl[2] == ("default"@, SchemeVariant::TonalSpot));
            assert(scheme_variant_named("default"@) == Some(SchemeVariant::TonalSpot));
        } else if i == 3 {
            assert(tbl[3] == ("vibrant"@, SchemeVariant::Vibrant));
            assert(scheme_variant_named("vibrant"@) == Some(SchemeVariant::Vibrant));
        } else if i == 4 {
            assert(tbl[4] == ("expressive"@, SchemeVariant::Expressive));
            assert(scheme_variant_named("expressive"@) == Some(SchemeVariant::Expressive));
        } else if i == 5 {
            assert(tbl[5] == ("fidelity"@, SchemeVariant::Fidelity));
            assert(scheme_variant_named("fidelity"@) == Some(SchemeVariant::Fidelity));
        } else if i == 6 {
            assert(tbl[6] == ("content"@, SchemeVariant::Content));
            assert(scheme_variant_named("content"@) == Some(SchemeVariant::Content));
        } else if i == 7 {
            assert(tbl[7] == ("monochrome"@, SchemeVariant::Monochrome));
            assert(scheme_variant_named("monochrome"@) == Some(SchemeVariant::Monochrome));
        } else if i == 8 {
            assert(tbl[8] == ("mono"@, SchemeVariant::Monochrome));
            assert(scheme_variant_named("mono"@) == Some(SchemeVariant::Monochrome));
        } else if i == 9 {
            assert(tbl[9] == ("grayscale"@, SchemeVariant::Monochrome));
            assert(scheme_variant_named("grayscale"@) == Some(SchemeVariant::Monochrome));
        } else if i == 10 {
            assert(tbl[10] == ("neutral"@, SchemeVariant::Neutral));
            assert(scheme_variant_named("neutral"@) == Some(SchemeVariant::Neutral));
        }
    }
    if t == "tonalspot"@ {
        assert(tbl[0] == ("tonalspot"@, SchemeVariant::TonalSpot));
    } else if t == "tonal_spot"@ {
        assert(tbl[1] == ("tonal_spot"@, SchemeVariant::TonalSpot));
    } else if t == "default"@ {
        assert(tbl[2] == ("default"@, SchemeVariant::TonalSpot));
    } else if t == "vibrant"@ {
        assert(tbl[3] == ("vibrant"@, SchemeVariant::Vibrant));
    } else if t == "expressive"@ {
        assert(tbl[4] == ("expressive"@, SchemeVariant::Expressive));
    } else if t == "fidelity"@ {
        assert(tbl[5] == ("fidelity"@, SchemeVariant::Fidelity));
    } else if t == "content"@ {
        assert(tbl[6] == ("content"@, SchemeVariant::Content));
    } else if t == "monochrome"@ {
        assert(tbl[7] == ("monochrome"@, SchemeVariant::Monochrome));
    } else if t == "mono"@ {
        assert(tbl[8] == ("mono"@, SchemeVariant::Monochrome));
    } else if t == "grayscale"@ {
        assert(tbl[9] == ("grayscale"@, SchemeVariant::Monochrome));
    } else if t == "neutral"@ {
        assert(tbl[10] == ("neutral"@, SchemeVariant::Neutral));
    }
}

} // verus!
