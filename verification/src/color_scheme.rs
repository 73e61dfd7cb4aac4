//! The Material 3 color scheme: every color role of a theme, by name.
use vstd::prelude::*;
use vstd::hash_map::StringHashMap;
use crate::color::Color;
use crate::text::{ascii_lowercase_chars, is_snake_name, is_unicode_whitespace, lemma_snake_name_is_normal, lowercase_chars, trim_end_chars, trim_start_chars, replace_char, replace_char_chars, to_lowercase, trim_chars, trim_to_string, str_eq};

verus! {

/// Material 3 color scheme: the colors of all 49 roles.
#[derive(Debug, Clone, Copy, PartialEq, Eq, Structural)]
pub struct ColorScheme {
    // Primary Group
    pub primary: Color,
    pub on_primary: Color,
    pub primary_container: Color,
    pub on_primary_container: Color,
    pub inverse_primary: Color,
    pub primary_fixed: Color,
    pub primary_fixed_dim: Color,
    pub on_primary_fixed: Color,
    pub on_primary_fixed_variant: Color,

    // Secondary Group
    pub secondary: Color,
    pub on_secondary: Color,
    pub secondary_container: Color,
    pub on_secondary_container: Color,
    pub secondary_fixed: Color,
    pub secondary_fixed_dim: Color,
    pub on_secondary_fixed: Color,
    pub on_secondary_fixed_variant: Color,

    // Tertiary Group
    pub tertiary: Color,
    pub on_tertiary: Color,
    pub tertiary_container: Color,
    pub on_tertiary_container: Color,
    pub tertiary_fixed: Color,
    pub tertiary_fixed_dim: Color,
    pub on_tertiary_fixed: Color,
    pub on_tertiary_fixed_variant: Color,

    // Error Group
    pub error: Color,
    pub on_error: Color,
    pub error_container: Color,
    pub on_error_container: Color,

    // Surface & Background Group
    pub surface: Color,
    pub on_surface: Color,
    pub surface_dim: Color,
    pub surface_bright: Color,
    pub surface_container_lowest: Color,
    pub surface_container_low: Color,
    pub surface_container: Color,
    pub surface_container_high: Color,
    pub surface_container_highest: Color,
    pub surface_variant: Color,
    pub on_surface_variant: Color,
    pub background: Color,
    pub on_background: Color,

    // Outlines & Tint
    pub outline: Color,
    pub outline_variant: Color,
    pub surface_tint: Color,

    // Inverse & Scrim Group
    pub inverse_surface: Color,
    pub inverse_on_surface: Color,
    pub shadow: Color,
    pub scrim: Color,
}

/// The roles of a scheme, by snake_case name, in their canonical order.
pub open spec fn roles(cs: ColorScheme) -> Seq<(Seq<char>, Color)> {
    seq![
        ("primary"@, cs.primary),
        ("on_primary"@, cs.on_primary),
        ("primary_container"@, cs.primary_container),
        ("on_primary_container"@, cs.on_primary_container),
        ("inverse_primary"@, cs.inverse_primary),
        ("primary_fixed"@, cs.primary_fixed),
        ("primary_fixed_dim"@, cs.primary_fixed_dim),
        ("on_primary_fixed"@, cs.on_primary_fixed),
        ("on_primary_fixed_variant"@, cs.on_primary_fixed_variant),
        ("secondary"@, cs.secondary),
        ("on_secondary"@, cs.on_secondary),
        ("secondary_container"@, cs.secondary_container),
        ("on_secondary_container"@, cs.on_secondary_container),
        ("secondary_fixed"@, cs.secondary_fixed),
        ("secondary_fixed_dim"@, cs.secondary_fixed_dim),
        ("on_secondary_fixed"@, cs.on_secondary_fixed),
        ("on_secondary_fixed_variant"@, cs.on_secondary_fixed_variant),
        ("tertiary"@, cs.tertiary),
        ("on_tertiary"@, cs.on_tertiary),
        ("tertiary_container"@, cs.tertiary_container),
        ("on_tertiary_container"@, cs.on_tertiary_container),
        ("tertiary_fixed"@, cs.tertiary_fixed),
        ("tertiary_fixed_dim"@, cs.tertiary_fixed_dim),
        ("on_tertiary_fixed"@, cs.on_tertiary_fixed),
        ("on_tertiary_fixed_variant"@, cs.on_tertiary_fixed_variant),
        ("error"@, cs.error),
        ("on_error"@, cs.on_error),
        ("error_container"@, cs.error_container),
        ("on_error_container"@, cs.on_error_container),
        ("surface"@, cs.surface),
        ("on_surface"@, cs.on_surface),
        ("surface_dim"@, cs.surface_dim),
        ("surface_bright"@, cs.surface_bright),
        ("surface_container_lowest"@, cs.surface_container_lowest),
        ("surface_container_low"@, cs.surface_container_low),
        ("surface_container"@, cs.surface_container),
        ("surface_container_high"@, cs.surface_container_high),
        ("surface_container_highest"@, cs.surface_container_highest),
        ("surface_variant"@, cs.surface_variant),
        ("on_surface_variant"@, cs.on_surface_variant),
        ("background"@, cs.background),
        ("on_background"@, cs.on_background),
        ("outline"@, cs.outline),
        ("outline_variant"@, cs.outline_variant),
        ("surface_tint"@, cs.surface_tint),
        ("inverse_surface"@, cs.inverse_surface),
        ("inverse_on_surface"@, cs.inverse_on_surface),
        ("shadow"@, cs.shadow),
        ("scrim"@, cs.scrim),
    ]
}

/// The color of the first role named `name` in `rs`.
pub open spec fn role_lookup(rs: Seq<(Seq<char>, Color)>, name: Seq<char>) -> Option<Color>
    decreases rs.len(),
{
    if rs.len() == 0 {
        None
    } else if rs[0].0 == name {
        Some(rs[0].1)
    } else {
        role_lookup(rs.drop_first(), name)
    }
}

/// The name a lookup compares: trimmed, lowercased, with `-` read as `_`.
pub open spec fn normalized_role_name(name: Seq<char>) -> Seq<char> {
    replace_char_chars(lowercase_chars(trim_chars(name)), '-', '_')
}

/// The map from every role name, in snake_case and in kebab-case, to its
/// color.
pub open spec fn role_map(rs: Seq<(Seq<char>, Color)>) -> Map<Seq<char>, Color>
    decreases rs.len(),
{
    if rs.len() == 0 {
        Map::empty()
    } else {
        let (n, c) = rs.last();
        role_map(rs.drop_last()).insert(n, c).insert(replace_char_chars(n, '_', '-'), c)
    }
}

impl ColorScheme {
    /// All 49 roles with their colors, in canonical order.
    pub fn iter(&self) -> (v: Vec<(&'static str, Color)>)
        ensures
            v@.map_values(|p: (&'static str, Color)| (p.0@, p.1)) == roles(*self),
    {
        let mut v: Vec<(&'static str, Color)> = Vec::new();
        v.push(("primary", self.primary));
        v.push(("on_primary", self.on_primary));
        v.push(("primary_container", self.primary_container));
        v.push(("on_primary_container", self.on_primary_container));
        v.push(("inverse_primary", self.inverse_primary));
        v.push(("primary_fixed", self.primary_fixed));
        v.push(("primary_fixed_dim", self.primary_fixed_dim));
        v.push(("on_primary_fixed", self.on_primary_fixed));
        v.push(("on_primary_fixed_variant", self.on_primary_fixed_variant));
        v.push(("secondary", self.secondary));
        v.push(("on_secondary", self.on_secondary));
        v.push(("secondary_container", self.secondary_container));
        v.push(("on_secondary_container", self.on_secondary_container));
        v.push(("secondary_fixed", self.secondary_fixed));
        v.push(("secondary_fixed_dim", self.secondary_fixed_dim));
        v.push(("on_secondary_fixed", self.on_secondary_fixed));
        v.push(("on_secondary_fixed_variant", self.on_secondary_fixed_variant));
        v.push(("tertiary", self.tertiary));
        v.push(("on_tertiary", self.on_tertiary));
        v.push(("tertiary_container", self.tertiary_container));
        v.push(("on_tertiary_container", self.on_tertiary_container));
        v.push(("tertiary_fixed", self.tertiary_fixed));
        v.push(("tertiary_fixed_dim", self.tertiary_fixed_dim));
        v.push(("on_tertiary_fixed", self.on_tertiary_fixed));
        v.push(("on_tertiary_fixed_variant", self.on_tertiary_fixed_variant));
        v.push(("error", self.error));
        v.push(("on_error", self.on_error));
        v.push(("error_container", self.error_container));
        v.push(("on_error_container", self.on_error_container));
        v.push(("surface", self.surface));
        v.push(("on_surface", self.on_surface));
        v.push(("surface_dim", self.surface_dim));
        v.push(("surface_bright", self.surface_bright));
        v.push(("surface_container_lowest", self.surface_container_lowest));
        v.push(("surface_container_low", self.surface_container_low));
        v.push(("surface_container", self.surface_container));
        v.push(("surface_container_high", self.surface_container_high));
        v.push(("surface_container_highest", self.surface_container_highest));
        v.push(("surface_variant", self.surface_variant));
        v.push(("on_surface_variant", self.on_surface_variant));
        v.push(("background", self.background));
        v.push(("on_background", self.on_background));
        v.push(("outline", self.outline));
        v.push(("outline_variant", self.outline_variant));
        v.push(("surface_tint", self.surface_tint));
        v.push(("inverse_surface", self.inverse_surface));
        v.push(("inverse_on_surface", self.inverse_on_surface));
        v.push(("shadow", self.shadow));
        v.push(("scrim", self.scrim));
        proof {
            assert(v@.map_values(|p: (&'static str, Color)| (p.0@, p.1)) =~= roles(*self));
        }
        v
    }

    /// The color of the role named `name`, already normalized (snake_case,
    /// lowercase, trimmed).
    pub fn role_by_normalized_name(&self, name: &str) -> (c: Option<Color>)
        ensures
            c == role_lookup(roles(*self), name@),
    {
        let rs = self.iter();
        let ghost view = rs@.map_values(|p: (&'static str, Color)| (p.0@, p.1));
        proof {
            assert(view.skip(0) =~= view);
        }
        let mut i: usize = 0;
        while i < rs.len()
            invariant
                i <= rs.len(),
                view == rs@.map_values(|p: (&'static str, Color)| (p.0@, p.1)),
                view == roles(*self),
                role_lookup(roles(*self), name@) == role_lookup(view.skip(i as int), name@),
            decreases rs.len() - i,
        {
            let (n, c) = rs[i];
            proof {
                assert(view.skip(i as int).drop_first() =~= view.skip(i + 1));
                assert(view.skip(i as int)[0] == (n@, c));
            }
            if str_eq(n, name) {
                return Some(c);
            }
            i += 1;
        }
        proof {
            assert(view.skip(i as int) =~= Seq::<(Seq<char>, Color)>::empty());
        }
        None
    }

    /// The color of a role by name, in snake_case or kebab-case, ignoring
    /// case and surrounding whitespace.
    pub fn get_by_name(&self, name: &str) -> (c: Option<Color>)
        ensures
            c == role_lookup(roles(*self), normalized_role_name(name@)),
            forall|k: int|
                0 <= k < roles(*self).len() && (name@ == #[trigger] roles(*self)[k].0 || name@
                    == kebab(roles(*self)[k].0)) ==> c == Some(roles(*self)[k].1),
    {
        let trimmed = trim_to_string(name);
        let lower = to_lowercase(trimmed.as_str());
        let normalized = replace_char(lower.as_str(), '-', '_');
        proof {
            let rs = roles(*self);
            lemma_roles_unique(*self);
            assert forall|k: int|
                0 <= k < rs.len() && (name@ == #[trigger] rs[k].0 || name@ == kebab(rs[k].0)) implies normalized@
                == rs[k].0 by {
                assert(is_snake_name(rs[k].0));
                lemma_snake_name_is_normal(rs[k].0);
                lemma_kebab_is_normal(rs[k].0);
            }
            assert forall|k: int| 0 <= k < rs.len() implies role_lookup(rs, #[trigger] rs[k].0) == Some(
                rs[k].1,
            ) by {
                lemma_role_lookup_at(rs, k);
            }
        }
        self.role_by_normalized_name(normalized.as_str())
    }

    /// A map from every role name, in snake_case and in kebab-case, to its
    /// color.
    pub fn to_map(&self) -> (m: StringHashMap<Color>)
        ensures
            m@ == role_map(roles(*self)),
            m@.dom().len() == 89,
    {
        proof {
            law_role_map_keys(*self);
        }
        let rs = self.iter();
        let ghost view = rs@.map_values(|p: (&'static str, Color)| (p.0@, p.1));
        let mut m: StringHashMap<Color> = StringHashMap::with_capacity(96);
        let mut i: usize = 0;
        while i < rs.len()
            invariant
                i <= rs.len(),
                view == rs@.map_values(|p: (&'static str, Color)| (p.0@, p.1)),
                m@ == role_map(view.take(i as int)),
            decreases rs.len() - i,
        {
            let (n, c) = rs[i];
            let snake = n.to_owned();
            let kebab = replace_char(n, '_', '-');
            m.insert(snake, c);
            m.insert(kebab, c);
            proof {
                assert(view.take(i + 1).drop_last() =~= view.take(i as int));
                assert(view.take(i + 1).last() == (n@, c));
            }
            i += 1;
        }
        proof {
            assert(view.take(rs.len() as int) =~= view);
        }
        m
    }
}


/// Where a role name stands in the canonical order, or -1 for any other text.
pub open spec fn role_index(n: Seq<char>) -> int {
    if n == "primary"@ {
        0
    } else if n == "on_primary"@ {
        1
    } else if n == "primary_container"@ {
        2
    } else if n == "on_primary_container"@ {
        3
    } else if n == "inverse_primary"@ {
        4
    } else if n == "primary_fixed"@ {
        5
    } else if n == "primary_fixed_dim"@ {
        6
    } else if n == "on_primary_fixed"@ {
        7
    } else if n == "on_primary_fixed_variant"@ {
        8
    } else if n == "secondary"@ {
        9
    } else if n == "on_secondary"@ {
        10
    } else if n == "secondary_container"@ {
        11
    } else if n == "on_secondary_container"@ {
        12
    } else if n == "secondary_fixed"@ {
        13
    } else if n == "secondary_fixed_dim"@ {
        14
    } else if n == "on_secondary_fixed"@ {
        15
    } else if n == "on_secondary_fixed_variant"@ {
        16
    } else if n == "tertiary"@ {
        17
    } else if n == "on_tertiary"@ {
        18
    } else if n == "tertiary_container"@ {
        19
    } else if n == "on_tertiary_container"@ {
        20
    } else if n == "tertiary_fixed"@ {
        21
    } else if n == "tertiary_fixed_dim"@ {
        22
    } else if n == "on_tertiary_fixed"@ {
        23
    } else if n == "on_tertiary_fixed_variant"@ {
        24
    } else if n == "error"@ {
        25
    } else if n == "on_error"@ {
        26
    } else if n == "error_container"@ {
        27
    } else if n == "on_error_container"@ {
        28
    } else if n == "surface"@ {
        29
    } else if n == "on_surface"@ {
        30
    } else if n == "surface_dim"@ {
        31
    } else if n == "surface_bright"@ {
        32
    } else if n == "surface_container_lowest"@ {
        33
    } else if n == "surface_container_low"@ {
        34
    } else if n == "surface_container"@ {
        35
    } else if n == "surface_container_high"@ {
        36
    } else if n == "surface_container_highest"@ {
        37
    } else if n == "surface_variant"@ {
        38
    } else if n == "on_surface_variant"@ {
        39
    } else if n == "background"@ {
        40
    } else if n == "on_background"@ {
        41
    } else if n == "outline"@ {
        42
    } else if n == "outline_variant"@ {
        43
    } else if n == "surface_tint"@ {
        44
    } else if n == "inverse_surface"@ {
        45
    } else if n == "inverse_on_surface"@ {
        46
    } else if n == "shadow"@ {
        47
    } else if n == "scrim"@ {
        48
    } else {
        -1
    }
}

/// Every role name is a snake_case name, and each stands at its own place in
/// the canonical order, so no two roles share a name.
proof fn lemma_role_names(cs: ColorScheme)
    ensures
        forall|k: int|
            0 <= k < roles(cs).len() ==> #[trigger] role_index(roles(cs)[k].0) == k && is_snake_name(
                roles(cs)[k].0,
            ),
{
    reveal_strlit("primary");
    reveal_strlit("on_primary");
    reveal_strlit("primary_container");
    reveal_strlit("on_primary_container");
    reveal_strlit("inverse_primary");
    reveal_strlit("primary_fixed");
    reveal_strlit("primary_fixed_dim");
    reveal_strlit("on_primary_fixed");
    reveal_strlit("on_primary_fixed_variant");
    reveal_strlit("secondary");
    reveal_strlit("on_secondary");
    reveal_strlit("secondary_container");
    reveal_strlit("on_secondary_container");
    reveal_strlit("secondary_fixed");
    reveal_strlit("secondary_fixed_dim");
    reveal_strlit("on_secondary_fixed");
    reveal_strlit("on_secondary_fixed_variant");
    reveal_strlit("tertiary");
    reveal_strlit("on_tertiary");
    reveal_strlit("tertiary_container");
    reveal_strlit("on_tertiary_container");
    reveal_strlit("tertiary_fixed");
    reveal_strlit("tertiary_fixed_dim");
    reveal_strlit("on_tertiary_fixed");
    reveal_strlit("on_tertiary_fixed_variant");
    reveal_strlit("error");
    reveal_strlit("on_error");
    reveal_strlit("error_container");
    reveal_strlit("on_error_container");
    reveal_strlit("surface");
    reveal_strlit("on_surface");
    reveal_strlit("surface_dim");
    reveal_strlit("surface_bright");
    reveal_strlit("surface_container_lowest");
    reveal_strlit("surface_container_low");
    reveal_strlit("surface_container");
    reveal_strlit("surface_container_high");
    reveal_strlit("surface_container_highest");
    reveal_strlit("surface_variant");
    reveal_strlit("on_surface_variant");
    reveal_strlit("background");
    reveal_strlit("on_background");
    reveal_strlit("outline");
    reveal_strlit("outline_variant");
    reveal_strlit("surface_tint");
    reveal_strlit("inverse_surface");
    reveal_strlit("inverse_on_surface");
    reveal_strlit("shadow");
    reveal_strlit("scrim");
    assert("primary"@[0] != "surface"@[0]);
    assert("primary"@[0] != "outline"@[0]);
    assert("on_primary"@[3] != "on_surface"@[3]);
    assert("on_primary"@[0] != "background"@[0]);
    assert("primary_container"@[8] != "primary_fixed_dim"@[8]);
    assert("primary_container"@[0] != "on_tertiary_fixed"@[0]);
    assert("primary_container"@[0] != "surface_container"@[0]);
    assert("inverse_primary"@[0] != "secondary_fixed"@[0]);
    assert("inverse_primary"@[0] != "error_container"@[0]);
    assert("inverse_primary"@[0] != "surface_variant"@[0]);
    assert("inverse_primary"@[0] != "outline_variant"@[0]);
    assert("inverse_primary"@[8] != "inverse_surface"@[8]);
    assert("primary_fixed"@[0] != "on_background"@[0]);
    assert("primary_fixed_dim"@[0] != "on_tertiary_fixed"@[0]);
    assert("primary_fixed_dim"@[0] != "surface_container"@[0]);
    assert("on_primary_fixed_variant"@[0] != "surface_container_lowest"@[0]);
    assert("on_secondary"@[0] != "surface_tint"@[0]);
    assert("secondary_container"@[10] != "secondary_fixed_dim"@[10]);
    assert("on_secondary_container"@[0] != "surface_container_high"@[0]);
    assert("secondary_fixed"@[0] != "error_container"@[0]);
    assert("secondary_fixed"@[1] != "surface_variant"@[1]);
    assert("secondary_fixed"@[0] != "outline_variant"@[0]);
    assert("secondary_fixed"@[0] != "inverse_surface"@[0]);
    assert("on_secondary_fixed"@[0] != "tertiary_container"@[0]);
    assert("on_secondary_fixed"@[0] != "tertiary_fixed_dim"@[0]);
    assert("on_secondary_fixed"@[3] != "on_error_container"@[3]);
    assert("on_secondary_fixed"@[4] != "on_surface_variant"@[4]);
    assert("on_secondary_fixed"@[0] != "inverse_on_surface"@[0]);
    assert("tertiary"@[0] != "on_error"@[0]);
    assert("on_tertiary"@[0] != "surface_dim"@[0]);
    assert("tertiary_container"@[9] != "tertiary_fixed_dim"@[9]);
    assert("tertiary_container"@[0] != "on_error_container"@[0]);
    assert("tertiary_container"@[0] != "on_surface_variant"@[0]);
    assert("tertiary_container"@[0] != "inverse_on_surface"@[0]);
    assert("on_tertiary_container"@[0] != "surface_container_low"@[0]);
    assert("tertiary_fixed"@[0] != "surface_bright"@[0]);
    assert("tertiary_fixed_dim"@[0] != "on_error_container"@[0]);
    assert("tertiary_fixed_dim"@[0] != "on_surface_variant"@[0]);
    assert("tertiary_fixed_dim"@[0] != "inverse_on_surface"@[0]);
    assert("on_tertiary_fixed"@[0] != "surface_container"@[0]);
    assert("on_tertiary_fixed_variant"@[0] != "surface_container_highest"@[0]);
    assert("error"@[0] != "scrim"@[0]);
    assert("error_container"@[0] != "surface_variant"@[0]);
    assert("error_container"@[0] != "outline_variant"@[0]);
    assert("error_container"@[0] != "inverse_surface"@[0]);
    assert("on_error_container"@[3] != "on_surface_variant"@[3]);
    assert("on_error_container"@[0] != "inverse_on_surface"@[0]);
    assert("surface"@[0] != "outline"@[0]);
    assert("on_surface"@[0] != "background"@[0]);
    assert("surface_variant"@[0] != "outline_variant"@[0]);
    assert("surface_variant"@[0] != "inverse_surface"@[0]);
    assert("on_surface_variant"@[0] != "inverse_on_surface"@[0]);
    assert("outline_variant"@[0] != "inverse_surface"@[0]);
    let rs = roles(cs);
    assert(rs.len() == 49);
    assert forall|k: int| 0 <= k < 49 implies role_index(rs[k].0) == k && is_snake_name(rs[k].0) by {
        if k == 0 {
            assert(rs[0].0 == "primary"@);
        } else if k == 1 {
            assert(rs[1].0 == "on_primary"@);
        } else if k == 2 {
            assert(rs[2].0 == "primary_container"@);
        } else if k == 3 {
            assert(rs[3].0 == "on_primary_container"@);
        } else if k == 4 {
            assert(rs[4].0 == "inverse_primary"@);
        } else if k == 5 {
            assert(rs[5].0 == "primary_fixed"@);
        } else if k == 6 {
            assert(rs[6].0 == "primary_fixed_dim"@);
        } else if k == 7 {
            assert(rs[7].0 == "on_primary_fixed"@);
        } else if k == 8 {
            assert(rs[8].0 == "on_primary_fixed_variant"@);
        } else if k == 9 {
            assert(rs[9].0 == "secondary"@);
        } else if k == 10 {
            assert(rs[10].0 == "on_secondary"@);
        } else if k == 11 {
            assert(rs[11].0 == "secondary_container"@);
        } else if k == 12 {
            assert(rs[12].0 == "on_secondary_container"@);
        } else if k == 13 {
            assert(rs[13].0 == "secondary_fixed"@);
        } else if k == 14 {
            assert(rs[14].0 == "secondary_fixed_dim"@);
        } else if k == 15 {
            assert(rs[15].0 == "on_secondary_fixed"@);
        } else if k == 16 {
            assert(rs[16].0 == "on_secondary_fixed_variant"@);
        } else if k == 17 {
            assert(rs[17].0 == "tertiary"@);
        } else if k == 18 {
            assert(rs[18].0 == "on_tertiary"@);
        } else if k == 19 {
            assert(rs[19].0 == "tertiary_container"@);
        } else if k == 20 {
            assert(rs[20].0 == "on_tertiary_container"@);
        } else if k == 21 {
            assert(rs[21].0 == "tertiary_fixed"@);
        } else if k == 22 {
            assert(rs[22].0 == "tertiary_fixed_dim"@);
        } else if k == 23 {
            assert(rs[23].0 == "on_tertiary_fixed"@);
        } else if k == 24 {
            assert(rs[24].0 == "on_tertiary_fixed_variant"@);
        } else if k == 25 {
            assert(rs[25].0 == "error"@);
        } else if k == 26 {
            assert(rs[26].0 == "on_error"@);
        } else if k == 27 {
            assert(rs[27].0 == "error_container"@);
        } else if k == 28 {
            assert(rs[28].0 == "on_error_container"@);
        } else if k == 29 {
            assert(rs[29].0 == "surface"@);
        } else if k == 30 {
            assert(rs[30].0 == "on_surface"@);
        } else if k == 31 {
            assert(rs[31].0 == "surface_dim"@);
        } else if k == 32 {
            assert(rs[32].0 == "surface_bright"@);
        } else if k == 33 {
            assert(rs[33].0 == "surface_container_lowest"@);
        } else if k == 34 {
            assert(rs[34].0 == "surface_container_low"@);
        } else if k == 35 {
            assert(rs[35].0 == "surface_container"@);
        } else if k == 36 {
            assert(rs[36].0 == "surface_container_high"@);
        } else if k == 37 {
            assert(rs[37].0 == "surface_container_highest"@);
        } else if k == 38 {
            assert(rs[38].0 == "surface_variant"@);
        } else if k == 39 {
            assert(rs[39].0 == "on_surface_variant"@);
        } else if k == 40 {
            assert(rs[40].0 == "background"@);
        } else if k == 41 {
            assert(rs[41].0 == "on_background"@);
        } else if k == 42 {
            assert(rs[42].0 == "outline"@);
        } else if k == 43 {
            assert(rs[43].0 == "outline_variant"@);
        } else if k == 44 {
            assert(rs[44].0 == "surface_tint"@);
        } else if k == 45 {
            assert(rs[45].0 == "inverse_surface"@);
        } else if k == 46 {
            assert(rs[46].0 == "inverse_on_surface"@);
        } else if k == 47 {
            assert(rs[47].0 == "shadow"@);
        } else if k == 48 {
            assert(rs[48].0 == "scrim"@);
        }
    }
}


/// The roles of `rs` have pairwise different names.
pub open spec fn names_unique(rs: Seq<(Seq<char>, Color)>) -> bool {
    forall|i: int, j: int|
        0 <= i < rs.len() && 0 <= j < rs.len() && #[trigger] rs[i].0 == #[trigger] rs[j].0 ==> i == j
}

/// Every role of `rs` has a snake_case name.
pub open spec fn all_snake(rs: Seq<(Seq<char>, Color)>) -> bool {
    forall|k: int| 0 <= k < rs.len() ==> is_snake_name(#[trigger] rs[k].0)
}

/// A name in kebab-case: `_` written as `-`.
pub open spec fn kebab(n: Seq<char>) -> Seq<char> {
    replace_char_chars(n, '_', '-')
}

/// How many names in `rs` hold a `_`, and so have a kebab-case form of their
/// own.
pub open spec fn underscored(rs: Seq<(Seq<char>, Color)>) -> nat
    decreases rs.len(),
{
    if rs.len() == 0 {
        0
    } else {
        underscored(rs.drop_last()) + if rs.last().0.contains('_') {
            1nat
        } else {
            0nat
        }
    }
}

/// Kebab-case tells snake_case names apart, and leaves alone exactly the
/// names without `_`.
proof fn lemma_kebab(a: Seq<char>, b: Seq<char>)
    requires
        is_snake_name(a),
        is_snake_name(b),
    ensures
        kebab(a) == kebab(b) ==> a == b,
        kebab(a) == b ==> a == b,
        kebab(a) == a <==> !a.contains('_'),
{
    if kebab(a) == kebab(b) {
        assert(b.len() == kebab(b).len());
        assert forall|i: int| 0 <= i < a.len() implies a[i] == b[i] by {
            assert(kebab(a)[i] == kebab(b)[i]);
            assert('a' <= a[i] <= 'z' || a[i] == '_');
            assert('a' <= b[i] <= 'z' || b[i] == '_');
        }
        assert(a =~= b);
    }
    if kebab(a) == b {
        assert(b.len() == a.len());
        assert forall|i: int| 0 <= i < a.len() implies a[i] == b[i] by {
            assert(kebab(a)[i] == b[i]);
            assert('a' <= b[i] <= 'z' || b[i] == '_');
        }
        assert(a =~= b);
    }
    if kebab(a) == a {
        assert forall|i: int| 0 <= i < a.len() implies a[i] != '_' by {
            assert(kebab(a)[i] == a[i]);
        }
    }
    if !a.contains('_') {
        assert forall|i: int| 0 <= i < a.len() implies kebab(a)[i] == a[i] by {
            assert(a[i] != '_');
        }
        assert(kebab(a) =~= a);
    }
    if a.contains('_') {
        let i = choose|i: int| 0 <= i < a.len() && a[i] == '_';
        assert(kebab(a)[i] == '-');
    }
}

proof fn lemma_role_map(rs: Seq<(Seq<char>, Color)>)
    requires
        names_unique(rs),
        all_snake(rs),
    ensures
        forall|k: int|
            0 <= k < rs.len() ==> {
                let m = role_map(rs);
                &&& m.contains_key(#[trigger] rs[k].0)
                &&& m[rs[k].0] == rs[k].1
                &&& m.contains_key(kebab(rs[k].0))
                &&& m[kebab(rs[k].0)] == rs[k].1
            },
        forall|x: Seq<char>|
            #[trigger] role_map(rs).contains_key(x) ==> exists|k: int|
                0 <= k < rs.len() && (x == rs[k].0 || x == kebab(rs[k].0)),
        role_map(rs).dom().finite(),
        role_map(rs).dom().len() == rs.len() + underscored(rs),
    decreases rs.len(),
{
    if rs.len() > 0 {
        let init = rs.drop_last();
        let (n, c) = rs.last();
        let last = rs.len() - 1;
        assert(rs[last] == (n, c));
        assert(names_unique(init)) by {
            assert forall|i: int, j: int|
                0 <= i < init.len() && 0 <= j < init.len() && #[trigger] init[i].0
                    == #[trigger] init[j].0 implies i == j by {
                assert(rs[i] == init[i] && rs[j] == init[j]);
            }
        }
        assert(all_snake(init)) by {
            assert forall|k: int| 0 <= k < init.len() implies is_snake_name(#[trigger] init[k].0) by {
                assert(rs[k] == init[k]);
            }
        }
        lemma_role_map(init);
        let m0 = role_map(init);
        let m1 = m0.insert(n, c);
        let kn = kebab(n);
        assert(role_map(rs) == m1.insert(kn, c));
        assert(is_snake_name(rs[last].0));
        lemma_kebab(n, n);
        assert forall|k: int| 0 <= k < last implies {
            &&& rs[k].0 != n
            &&& rs[k].0 != kn
            &&& kebab(rs[k].0) != n
            &&& kebab(rs[k].0) != kn
        } by {
            assert(rs[k] == init[k]);
            assert(is_snake_name(rs[k].0));
            lemma_kebab(n, rs[k].0);
            lemma_kebab(rs[k].0, n);
        }
        assert forall|k: int|
            0 <= k < rs.len() implies {
                let m = role_map(rs);
                &&& m.contains_key(#[trigger] rs[k].0)
                &&& m[rs[k].0] == rs[k].1
                &&& m.contains_key(kebab(rs[k].0))
                &&& m[kebab(rs[k].0)] == rs[k].1
            } by {
            if k < last {
                assert(rs[k] == init[k]);
            }
        }
        assert forall|x: Seq<char>| #[trigger] role_map(rs).contains_key(x) implies exists|k: int|
            0 <= k < rs.len() && (x == rs[k].0 || x == kebab(rs[k].0)) by {
            if x != n && x != kn {
                assert(m0.contains_key(x));
                let k = choose|k: int| 0 <= k < init.len() && (x == init[k].0 || x == kebab(init[k].0));
                assert(rs[k] == init[k]);
            } else {
                assert(x == rs[last].0 || x == kebab(rs[last].0));
            }
        }
        assert(!m0.contains_key(n)) by {
            if m0.contains_key(n) {
                let k = choose|k: int| 0 <= k < init.len() && (n == init[k].0 || n == kebab(init[k].0));
                assert(rs[k] == init[k]);
            }
        }
        assert(!m0.contains_key(kn)) by {
            if m0.contains_key(kn) {
                let k = choose|k: int| 0 <= k < init.len() && (kn == init[k].0 || kn == kebab(init[k].0));
                assert(rs[k] == init[k]);
            }
        }
        assert(m1.dom() == m0.dom().insert(n));
        assert(role_map(rs).dom() == m1.dom().insert(kn));
        assert(underscored(rs) == underscored(init) + if n.contains('_') {
            1nat
        } else {
            0nat
        });
    }
}

/// The first role named `rs[k].0` in `rs` is the one at `k` when no two
/// roles share a name.
proof fn lemma_role_lookup_at(rs: Seq<(Seq<char>, Color)>, k: int)
    requires
        names_unique(rs),
        0 <= k < rs.len(),
    ensures
        role_lookup(rs, rs[k].0) == Some(rs[k].1),
    decreases k,
{
    if k > 0 {
        let rest = rs.drop_first();
        assert(rs[0].0 != rs[k].0);
        assert(names_unique(rest)) by {
            assert forall|i: int, j: int|
                0 <= i < rest.len() && 0 <= j < rest.len() && #[trigger] rest[i].0
                    == #[trigger] rest[j].0 implies i == j by {
                assert(rs[i + 1] == rest[i] && rs[j + 1] == rest[j]);
            }
        }
        assert(rest[k - 1] == rs[k]);
        lemma_role_lookup_at(rest, k - 1);
    }
}

/// How many of the first `k` names in `rs` hold a `_`.
spec fn underscored_upto(rs: Seq<(Seq<char>, Color)>, k: nat) -> nat
    decreases k,
{
    if k == 0 {
        0
    } else {
        underscored_upto(rs, (k - 1) as nat) + if rs[k - 1].0.contains('_') {
            1nat
        } else {
            0nat
        }
    }
}

proof fn lemma_underscored_upto(rs: Seq<(Seq<char>, Color)>)
    ensures
        underscored(rs) == underscored_upto(rs, rs.len()),
    decreases rs.len(),
{
    if rs.len() > 0 {
        let init = rs.drop_last();
        lemma_underscored_upto(init);
        assert forall|k: nat| k <= init.len() implies #[trigger] underscored_upto(init, k)
            == underscored_upto(rs, k) by {
            lemma_underscored_upto_prefix(init, rs, k);
        }
        assert(rs[rs.len() - 1] == rs.last());
    }
}

proof fn lemma_underscored_upto_prefix(a: Seq<(Seq<char>, Color)>, b: Seq<(Seq<char>, Color)>, k: nat)
    requires
        k <= a.len(),
        a.len() <= b.len(),
        forall|i: int| 0 <= i < a.len() ==> a[i] == b[i],
    ensures
        underscored_upto(a, k) == underscored_upto(b, k),
    decreases k,
{
    if k > 0 {
        lemma_underscored_upto_prefix(a, b, (k - 1) as nat);
        assert(a[k - 1] == b[k - 1]);
    }
}

/// Of the role names, 40 hold a `_`.
proof fn lemma_role_underscores(cs: ColorScheme)
    ensures
        underscored(roles(cs)) == 40,
{
    reveal_strlit("primary");
    reveal_strlit("on_primary");
    reveal_strlit("primary_container");
    reveal_strlit("on_primary_container");
    reveal_strlit("inverse_primary");
    reveal_strlit("primary_fixed");
    reveal_strlit("primary_fixed_dim");
    reveal_strlit("on_primary_fixed");
    reveal_strlit("on_primary_fixed_variant");
    reveal_strlit("secondary");
    reveal_strlit("on_secondary");
    reveal_strlit("secondary_container");
    reveal_strlit("on_secondary_container");
    reveal_strlit("secondary_fixed");
    reveal_strlit("secondary_fixed_dim");
    reveal_strlit("on_secondary_fixed");
    reveal_strlit("on_secondary_fixed_variant");
    reveal_strlit("tertiary");
    reveal_strlit("on_tertiary");
    reveal_strlit("tertiary_container");
    reveal_strlit("on_tertiary_container");
    reveal_strlit("tertiary_fixed");
    reveal_strlit("tertiary_fixed_dim");
    reveal_strlit("on_tertiary_fixed");
    reveal_strlit("on_tertiary_fixed_variant");
    reveal_strlit("error");
    reveal_strlit("on_error");
    reveal_strlit("error_container");
    reveal_strlit("on_error_container");
    reveal_strlit("surface");
    reveal_strlit("on_surface");
    reveal_strlit("surface_dim");
    reveal_strlit("surface_bright");
    reveal_strlit("surface_container_lowest");
    reveal_strlit("surface_container_low");
    reveal_strlit("surface_container");
    reveal_strlit("surface_container_high");
    reveal_strlit("surface_container_highest");
    reveal_strlit("surface_variant");
    reveal_strlit("on_surface_variant");
    reveal_strlit("background");
    reveal_strlit("on_background");
    reveal_strlit("outline");
    reveal_strlit("outline_variant");
    reveal_strlit("surface_tint");
    reveal_strlit("inverse_surface");
    reveal_strlit("inverse_on_surface");
    reveal_strlit("shadow");
    reveal_strlit("scrim");
    let rs = roles(cs);
    lemma_underscored_upto(rs);
    assert(underscored_upto(rs, 0) == 0);
    assert(rs[0].0 == "primary"@ && !rs[0].0.contains('_'));
    assert(underscored_upto(rs, 1) == 0);
    assert(rs[1].0 == "on_primary"@ && rs[1].0[2] == '_');
    assert(underscored_upto(rs, 2) == 1);
    assert(rs[2].0 == "primary_container"@ && rs[2].0[7] == '_');
    assert(underscored_upto(rs, 3) == 2);
    assert(rs[3].0 == "on_primary_container"@ && rs[3].0[2] == '_');
    assert(underscored_upto(rs, 4) == 3);
    assert(rs[4].0 == "inverse_primary"@ && rs[4].0[7] == '_');
    assert(underscored_upto(rs, 5) == 4);
    assert(rs[5].0 == "primary_fixed"@ && rs[5].0[7] == '_');
    assert(underscored_upto(rs, 6) == 5);
    assert(rs[6].0 == "primary_fixed_dim"@ && rs[6].0[7] == '_');
    assert(underscored_upto(rs, 7) == 6);
    assert(rs[7].0 == "on_primary_fixed"@ && rs[7].0[2] == '_');
    assert(underscored_upto(rs, 8) == 7);
    assert(rs[8].0 == "on_primary_fixed_variant"@ && rs[8].0[2] == '_');
    assert(underscored_upto(rs, 9) == 8);
    assert(rs[9].0 == "secondary"@ && !rs[9].0.contains('_'));
    assert(underscored_upto(rs, 10) == 8);
    assert(rs[10].0 == "on_secondary"@ && rs[10].0[2] == '_');
    assert(underscored_upto(rs, 11) == 9);
    assert(rs[11].0 == "secondary_container"@ && rs[11].0[9] == '_');
    assert(underscored_upto(rs, 12) == 10);
    assert(rs[12].0 == "on_secondary_container"@ && rs[12].0[2] == '_');
    assert(underscored_upto(rs, 13) == 11);
    assert(rs[13].0 == "secondary_fixed"@ && rs[13].0[9] == '_');
    assert(underscored_upto(rs, 14) == 12);
    assert(rs[14].0 == "secondary_fixed_dim"@ && rs[14].0[9] == '_');
    assert(underscored_upto(rs, 15) == 13);
    assert(rs[15].0 == "on_secondary_fixed"@ && rs[15].0[2] == '_');
    assert(underscored_upto(rs, 16) == 14);
    assert(rs[16].0 == "on_secondary_fixed_variant"@ && rs[16].0[2] == '_');
    assert(underscored_upto(rs, 17) == 15);
    assert(rs[17].0 == "tertiary"@ && !rs[17].0.contains('_'));
    assert(underscored_upto(rs, 18) == 15);
    assert(rs[18].0 == "on_tertiary"@ && rs[18].0[2] == '_');
    assert(underscored_upto(rs, 19) == 16);
    assert(rs[19].0 == "tertiary_container"@ && rs[19].0[8] == '_');
    assert(underscored_upto(rs, 20) == 17);
    assert(rs[20].0 == "on_tertiary_container"@ && rs[20].0[2] == '_');
    assert(underscored_upto(rs, 21) == 18);
    assert(rs[21].0 == "tertiary_fixed"@ && rs[21].0[8] == '_');
    assert(underscored_upto(rs, 22) == 19);
    assert(rs[22].0 == "tertiary_fixed_dim"@ && rs[22].0[8] == '_');
    assert(underscored_upto(rs, 23) == 20);
    assert(rs[23].0 == "on_tertiary_fixed"@ && rs[23].0[2] == '_');
    assert(underscored_upto(rs, 24) == 21);
    assert(rs[24].0 == "on_tertiary_fixed_variant"@ && rs[24].0[2] == '_');
    assert(underscored_upto(rs, 25) == 22);
    assert(rs[25].0 == "error"@ && !rs[25].0.contains('_'));
    assert(underscored_upto(rs, 26) == 22);
    assert(rs[26].0 == "on_error"@ && rs[26].0[2] == '_');
    assert(underscored_upto(rs, 27) == 23);
    assert(rs[27].0 == "error_container"@ && rs[27].0[5] == '_');
    assert(underscored_upto(rs, 28) == 24);
    assert(rs[28].0 == "on_error_container"@ && rs[28].0[2] == '_');
    assert(underscored_upto(rs, 29) == 25);
    assert(rs[29].0 == "surface"@ && !rs[29].0.contains('_'));
    assert(underscored_upto(rs, 30) == 25);
    assert(rs[30].0 == "on_surface"@ && rs[30].0[2] == '_');
    assert(underscored_upto(rs, 31) == 26);
    assert(rs[31].0 == "surface_dim"@ && rs[31].0[7] == '_');
    assert(underscored_upto(rs, 32) == 27);
    assert(rs[32].0 == "surface_bright"@ && rs[32].0[7] == '_');
    assert(underscored_upto(rs, 33) == 28);
    assert(rs[33].0 == "surface_container_lowest"@ && rs[33].0[7] == '_');
    assert(underscored_upto(rs, 34) == 29);
    assert(rs[34].0 == "surface_container_low"@ && rs[34].0[7] == '_');
    assert(underscored_upto(rs, 35) == 30);
    assert(rs[35].0 == "surface_container"@ && rs[35].0[7] == '_');
    assert(underscored_upto(rs, 36) == 31);
    assert(rs[36].0 == "surface_container_high"@ && rs[36].0[7] == '_');
    assert(underscored_upto(rs, 37) == 32);
    assert(rs[37].0 == "surface_container_highest"@ && rs[37].0[7] == '_');
    assert(underscored_upto(rs, 38) == 33);
    assert(rs[38].0 == "surface_variant"@ && rs[38].0[7] == '_');
    assert(underscored_upto(rs, 39) == 34);
    assert(rs[39].0 == "on_surface_variant"@ && rs[39].0[2] == '_');
    assert(underscored_upto(rs, 40) == 35);
    assert(rs[40].0 == "background"@ && !rs[40].0.contains('_'));
    assert(underscored_upto(rs, 41) == 35);
    assert(rs[41].0 == "on_background"@ && rs[41].0[2] == '_');
    assert(underscored_upto(rs, 42) == 36);
    assert(rs[42].0 == "outline"@ && !rs[42].0.contains('_'));
    assert(underscored_upto(rs, 43) == 36);
    assert(rs[43].0 == "outline_variant"@ && rs[43].0[7] == '_');
    assert(underscored_upto(rs, 44) == 37);
    assert(rs[44].0 == "surface_tint"@ && rs[44].0[7] == '_');
    assert(underscored_upto(rs, 45) == 38);
    assert(rs[45].0 == "inverse_surface"@ && rs[45].0[7] == '_');
    assert(underscored_upto(rs, 46) == 39);
    assert(rs[46].0 == "inverse_on_surface"@ && rs[46].0[7] == '_');
    assert(underscored_upto(rs, 47) == 40);
    assert(rs[47].0 == "shadow"@ && !rs[47].0.contains('_'));
    assert(underscored_upto(rs, 48) == 40);
    assert(rs[48].0 == "scrim"@ && !rs[48].0.contains('_'));
    assert(underscored_upto(rs, 49) == 40);
}


/// No two roles share a name, and every role name is a snake_case name.
proof fn lemma_roles_unique(cs: ColorScheme)
    ensures
        names_unique(roles(cs)),
        all_snake(roles(cs)),
{
    lemma_role_names(cs);
    let rs = roles(cs);
    assert forall|i: int, j: int|
        0 <= i < rs.len() && 0 <= j < rs.len() && #[trigger] rs[i].0 == #[trigger] rs[j].0 implies i
        == j by {
        assert(role_index(rs[i].0) == i);
        assert(role_index(rs[j].0) == j);
    }
    assert forall|k: int| 0 <= k < rs.len() implies is_snake_name(#[trigger] rs[k].0) by {
        assert(role_index(rs[k].0) == k);
    }
}

/// The kebab-case form of a snake_case name is kept as it is by trimming and
/// by ASCII lowercasing, and reading `-` as `_` gives the name back.
proof fn lemma_kebab_is_normal(n: Seq<char>)
    requires
        is_snake_name(n),
    ensures
        trim_chars(kebab(n)) == kebab(n),
        vstd::utf8::is_ascii_chars(kebab(n)),
        ascii_lowercase_chars(kebab(n)) == kebab(n),
        replace_char_chars(kebab(n), '-', '_') == n,
{
    let k = kebab(n);
    assert forall|i: int| 0 <= i < k.len() implies ('a' <= #[trigger] k[i] <= 'z' || k[i] == '-') by {
        assert('a' <= n[i] <= 'z' || n[i] == '_');
    }
    assert(!is_unicode_whitespace(k[0]));
    assert(trim_start_chars(k) == k);
    assert(k.last() == k[k.len() - 1]);
    assert(trim_end_chars(k) == k);
    assert(ascii_lowercase_chars(k) =~= k);
    assert forall|i: int| 0 <= i < n.len() implies replace_char_chars(k, '-', '_')[i] == n[i] by {
        assert('a' <= n[i] <= 'z' || n[i] == '_');
    }
    assert(replace_char_chars(k, '-', '_') =~= n);
}

/// `to_map` holds every role under its snake_case name and under its
/// kebab-case name, and nothing else: of the 49 names, 40 hold a `_` and so
/// add a kebab-case key of their own, which makes 89 keys.
pub proof fn law_role_map_keys(cs: ColorScheme)
    ensures
        forall|k: int|
            0 <= k < roles(cs).len() ==> {
                let m = role_map(roles(cs));
                &&& m.contains_key(#[trigger] roles(cs)[k].0)
                &&& m[roles(cs)[k].0] == roles(cs)[k].1
                &&& m.contains_key(kebab(roles(cs)[k].0))
                &&& m[kebab(roles(cs)[k].0)] == roles(cs)[k].1
            },
        forall|x: Seq<char>|
            #[trigger] role_map(roles(cs)).contains_key(x) ==> exists|k: int|
                0 <= k < roles(cs).len() && (x == roles(cs)[k].0 || x == kebab(roles(cs)[k].0)),
        role_map(roles(cs)).dom().len() == 89,
{
    lemma_roles_unique(cs);
    lemma_role_map(roles(cs));
    lemma_role_underscores(cs);
}

/// Every role name finds the scheme's field of the same name: looking up
/// `primary` gives the primary color, `on_surface_variant` the color on
/// surface variants, and so on for all 49 roles.
pub proof fn law_roles_name_their_fields(cs: ColorScheme)
    ensures
        role_lookup(roles(cs), "primary"@) == Some(cs.primary),
        role_lookup(roles(cs), "on_primary"@) == Some(cs.on_primary),
        role_lookup(roles(cs), "primary_container"@) == Some(cs.primary_container),
        role_lookup(roles(cs), "on_primary_container"@) == Some(cs.on_primary_container),
        role_lookup(roles(cs), "inverse_primary"@) == Some(cs.inverse_primary),
        role_lookup(roles(cs), "primary_fixed"@) == Some(cs.primary_fixed),
        role_lookup(roles(cs), "primary_fixed_dim"@) == Some(cs.primary_fixed_dim),
        role_lookup(roles(cs), "on_primary_fixed"@) == Some(cs.on_primary_fixed),
        role_lookup(roles(cs), "on_primary_fixed_variant"@) == Some(cs.on_primary_fixed_variant),
        role_lookup(roles(cs), "secondary"@) == Some(cs.secondary),
        role_lookup(roles(cs), "on_secondary"@) == Some(cs.on_secondary),
        role_lookup(roles(cs), "secondary_container"@) == Some(cs.secondary_container),
        role_lookup(roles(cs), "on_secondary_container"@) == Some(cs.on_secondary_container),
        role_lookup(roles(cs), "secondary_fixed"@) == Some(cs.secondary_fixed),
        role_lookup(roles(cs), "secondary_fixed_dim"@) == Some(cs.secondary_fixed_dim),
        role_lookup(roles(cs), "on_secondary_fixed"@) == Some(cs.on_secondary_fixed),
        role_lookup(roles(cs), "on_secondary_fixed_variant"@) == Some(cs.on_secondary_fixed_variant),
        role_lookup(roles(cs), "tertiary"@) == Some(cs.tertiary),
        role_lookup(roles(cs), "on_tertiary"@) == Some(cs.on_tertiary),
        role_lookup(roles(cs), "tertiary_container"@) == Some(cs.tertiary_container),
        role_lookup(roles(cs), "on_tertiary_container"@) == Some(cs.on_tertiary_container),
        role_lookup(roles(cs), "tertiary_fixed"@) == Some(cs.tertiary_fixed),
        role_lookup(roles(cs), "tertiary_fixed_dim"@) == Some(cs.tertiary_fixed_dim),
        role_lookup(roles(cs), "on_tertiary_fixed"@) == Some(cs.on_tertiary_fixed),
        role_lookup(roles(cs), "on_tertiary_fixed_variant"@) == Some(cs.on_tertiary_fixed_variant),
        role_lookup(roles(cs), "error"@) == Some(cs.error),
        role_lookup(roles(cs), "on_error"@) == Some(cs.on_error),
        role_lookup(roles(cs), "error_container"@) == Some(cs.error_container),
        role_lookup(roles(cs), "on_error_container"@) == Some(cs.on_error_container),
        role_lookup(roles(cs), "surface"@) == Some(cs.surface),
        role_lookup(roles(cs), "on_surface"@) == Some(cs.on_surface),
        role_lookup(roles(cs), "surface_dim"@) == Some(cs.surface_dim),
        role_lookup(roles(cs), "surface_bright"@) == Some(cs.surface_bright),
        role_lookup(roles(cs), "surface_container_lowest"@) == Some(cs.surface_container_lowest),
        role_lookup(roles(cs), "surface_container_low"@) == Some(cs.surface_container_low),
        role_lookup(roles(cs), "surface_container"@) == Some(cs.surface_container),
        role_lookup(roles(cs), "surface_container_high"@) == Some(cs.surface_container_high),
        role_lookup(roles(cs), "surface_container_highest"@) == Some(cs.surface_container_highest),
        role_lookup(roles(cs), "surface_variant"@) == Some(cs.surface_variant),
        role_lookup(roles(cs), "on_surface_variant"@) == Some(cs.on_surface_variant),
        role_lookup(roles(cs), "background"@) == Some(cs.background),
        role_lookup(roles(cs), "on_background"@) == Some(cs.on_background),
        role_lookup(roles(cs), "outline"@) == Some(cs.outline),
        role_lookup(roles(cs), "outline_variant"@) == Some(cs.outline_variant),
        role_lookup(roles(cs), "surface_tint"@) == Some(cs.surface_tint),
        role_lookup(roles(cs), "inverse_surface"@) == Some(cs.inverse_surface),
        role_lookup(roles(cs), "inverse_on_surface"@) == Some(cs.inverse_on_surface),
        role_lookup(roles(cs), "shadow"@) == Some(cs.shadow),
        role_lookup(roles(cs), "scrim"@) == Some(cs.scrim),
{
    lemma_roles_unique(cs);
    let rs = roles(cs);
    assert(rs[0] == ("primary"@, cs.primary));
    lemma_role_lookup_at(rs, 0);
    assert(rs[1] == ("on_primary"@, cs.on_primary));
    lemma_role_lookup_at(rs, 1);
    assert(rs[2] == ("primary_container"@, cs.primary_container));
    lemma_role_lookup_at(rs, 2);
    assert(rs[3] == ("on_primary_container"@, cs.on_primary_container));
    lemma_role_lookup_at(rs, 3);
    assert(rs[4] == ("inverse_primary"@, cs.inverse_primary));
    lemma_role_lookup_at(rs, 4);
    assert(rs[5] == ("primary_fixed"@, cs.primary_fixed));
    lemma_role_lookup_at(rs, 5);
    assert(rs[6] == ("primary_fixed_dim"@, cs.primary_fixed_dim));
    lemma_role_lookup_at(rs, 6);
    assert(rs[7] == ("on_primary_fixed"@, cs.on_primary_fixed));
    lemma_role_lookup_at(rs, 7);
    assert(rs[8] == ("on_primary_fixed_variant"@, cs.on_primary_fixed_variant));
    lemma_role_lookup_at(rs, 8);
    assert(rs[9] == ("secondary"@, cs.secondary));
    lemma_role_lookup_at(rs, 9);
    assert(rs[10] == ("on_secondary"@, cs.on_secondary));
    lemma_role_lookup_at(rs, 10);
    assert(rs[11] == ("secondary_container"@, cs.secondary_container));
    lemma_role_lookup_at(rs, 11);
    assert(rs[12] == ("on_secondary_container"@, cs.on_secondary_container));
    lemma_role_lookup_at(rs, 12);
    assert(rs[13] == ("secondary_fixed"@, cs.secondary_fixed));
    lemma_role_lookup_at(rs, 13);
    assert(rs[14] == ("secondary_fixed_dim"@, cs.secondary_fixed_dim));
    lemma_role_lookup_at(rs, 14);
    assert(rs[15] == ("on_secondary_fixed"@, cs.on_secondary_fixed));
    lemma_role_lookup_at(rs, 15);
    assert(rs[16] == ("on_secondary_fixed_variant"@, cs.on_secondary_fixed_variant));
    lemma_role_lookup_at(rs, 16);
    assert(rs[17] == ("tertiary"@, cs.tertiary));
    lemma_role_lookup_at(rs, 17);
    assert(rs[18] == ("on_tertiary"@, cs.on_tertiary));
    lemma_role_lookup_at(rs, 18);
    assert(rs[19] == ("tertiary_container"@, cs.tertiary_container));
    lemma_role_lookup_at(rs, 19);
    assert(rs[20] == ("on_tertiary_container"@, cs.on_tertiary_container));
    lemma_role_lookup_at(rs, 20);
    assert(rs[21] == ("tertiary_fixed"@, cs.tertiary_fixed));
    lemma_role_lookup_at(rs, 21);
    assert(rs[22] == ("tertiary_fixed_dim"@, cs.tertiary_fixed_dim));
    lemma_role_lookup_at(rs, 22);
    assert(rs[23] == ("on_tertiary_fixed"@, cs.on_tertiary_fixed));
    lemma_role_lookup_at(rs, 23);
    assert(rs[24] == ("on_tertiary_fixed_variant"@, cs.on_tertiary_fixed_variant));
    lemma_role_lookup_at(rs, 24);
    assert(rs[25] == ("error"@, cs.error));
    lemma_role_lookup_at(rs, 25);
    assert(rs[26] == ("on_error"@, cs.on_error));
    lemma_role_lookup_at(rs, 26);
    assert(rs[27] == ("error_container"@, cs.error_container));
    lemma_role_lookup_at(rs, 27);
    assert(rs[28] == ("on_error_container"@, cs.on_error_container));
    lemma_role_lookup_at(rs, 28);
    assert(rs[29] == ("surface"@, cs.surface));
    lemma_role_lookup_at(rs, 29);
    assert(rs[30] == ("on_surface"@, cs.on_surface));
    lemma_role_lookup_at(rs, 30);
    assert(rs[31] == ("surface_dim"@, cs.surface_dim));
    lemma_role_lookup_at(rs, 31);
    assert(rs[32] == ("surface_bright"@, cs.surface_bright));
    lemma_role_lookup_at(rs, 32);
    assert(rs[33] == ("surface_container_lowest"@, cs.surface_container_lowest));
    lemma_role_lookup_at(rs, 33);
    assert(rs[34] == ("surface_container_low"@, cs.surface_container_low));
    lemma_role_lookup_at(rs, 34);
    assert(rs[35] == ("surface_container"@, cs.surface_container));
    lemma_role_lookup_at(rs, 35);
    assert(rs[36] == ("surface_container_high"@, cs.surface_container_high));
    lemma_role_lookup_at(rs, 36);
    assert(rs[37] == ("surface_container_highest"@, cs.surface_container_highest));
    lemma_role_lookup_at(rs, 37);
    assert(rs[38] == ("surface_variant"@, cs.surface_variant));
    lemma_role_lookup_at(rs, 38);
    assert(rs[39] == ("on_surface_variant"@, cs.on_surface_variant));
    lemma_role_lookup_at(rs, 39);
    assert(rs[40] == ("background"@, cs.background));
    lemma_role_lookup_at(rs, 40);
    assert(rs[41] == ("on_background"@, cs.on_background));
    lemma_role_lookup_at(rs, 41);
    assert(rs[42] == ("outline"@, cs.outline));
    lemma_role_lookup_at(rs, 42);
    assert(rs[43] == ("outline_variant"@, cs.outline_variant));
    lemma_role_lookup_at(rs, 43);
    assert(rs[44] == ("surface_tint"@, cs.surface_tint));
    lemma_role_lookup_at(rs, 44);
    assert(rs[45] == ("inverse_surface"@, cs.inverse_surface));
    lemma_role_lookup_at(rs, 45);
    assert(rs[46] == ("inverse_on_surface"@, cs.inverse_on_surface));
    lemma_role_lookup_at(rs, 46);
    assert(rs[47] == ("shadow"@, cs.shadow));
    lemma_role_lookup_at(rs, 47);
    assert(rs[48] == ("scrim"@, cs.scrim));
    lemma_role_lookup_at(rs, 48);
}

} // verus!
