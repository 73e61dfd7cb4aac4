//! The OS color scheme and accent color, as the base theme resolves them.
use vstd::prelude::*;
use crate::base::palette::AccentColors;
use crate::color::{color_from_text, normalized_hex_is_sliceable, Color};
use crate::text::{
    first_char_index, has_prefix, lemma_first_char_index, lemma_first_char_index_bounds,
    parse_u64_chars, parse_u64_range, range_has_prefix, text_lines, trim_range, without_cr,
    chars_of, lowercase_chars, push_str, str_eq, string_from_chars, to_lowercase, trim_chars, trim_to_string,
};

verus! {

/// Whether the OS is in light or dark mode.
#[derive(Debug, Clone, Copy, PartialEq, Eq, Structural)]
pub enum ColorScheme {
    Light,
    Dark,
}

impl Default for ColorScheme {
    /// Light mode.
    fn default() -> (s: ColorScheme)
        ensures
            s == ColorScheme::Light,
    {
        ColorScheme::Light
    }
}

/// The color scheme and accent colors resolved from the OS.
#[derive(Debug, Clone, Copy, PartialEq, Eq, Structural)]
pub struct SystemColors {
    pub scheme: ColorScheme,
    pub accent: AccentColors,
}

impl Default for SystemColors {
    /// Light mode with the default Fluent accent.
    fn default() -> (s: SystemColors)
        ensures
            s.scheme == ColorScheme::Light,
            s.accent == (AccentColors {
                normal: Color { r: 0, g: 120, b: 212, a: 255 },
                hover: Color { r: 16, g: 137, b: 227, a: 255 },
                pressed: Color { r: 0, g: 102, b: 180, a: 255 },
                disabled: Color { r: 189, g: 189, b: 189, a: 255 },
                on_accent: Color { r: 255, g: 255, b: 255, a: 255 },
            }),
    {
        SystemColors { scheme: ColorScheme::Light, accent: AccentColors::default() }
    }
}

/// `s` without leading and trailing `'` characters.
pub open spec fn trim_quotes(s: Seq<char>) -> Seq<char>
    decreases s.len(),
{
    if s.len() > 0 && s[0] == '\'' {
        trim_quotes(s.drop_first())
    } else if s.len() > 0 && s.last() == '\'' {
        trim_quotes(s.drop_last())
    } else {
        s
    }
}

/// The color of a GNOME accent-color name.
pub open spec fn gnome_accent_named(n: Seq<char>) -> Option<Color> {
    if n == "blue"@ {
        Some(Color { r: 0, g: 120, b: 212, a: 255 })
    } else if n == "teal"@ {
        Some(Color { r: 0, g: 160, b: 164, a: 255 })
    } else if n == "green"@ {
        Some(Color { r: 35, g: 171, b: 100, a: 255 })
    } else if n == "yellow"@ {
        Some(Color { r: 246, g: 198, b: 0, a: 255 })
    } else if n == "orange"@ {
        Some(Color { r: 230, g: 100, b: 0, a: 255 })
    } else if n == "red"@ {
        Some(Color { r: 196, g: 43, b: 28, a: 255 })
    } else if n == "pink"@ {
        Some(Color { r: 220, g: 68, b: 128, a: 255 })
    } else if n == "purple"@ {
        Some(Color { r: 119, g: 86, b: 178, a: 255 })
    } else if n == "slate"@ {
        Some(Color { r: 105, g: 119, b: 138, a: 255 })
    } else {
        None
    }
}

/// The accent color that `gsettings get org.gnome.desktop.interface
/// accent-color` printed: its trimmed, unquoted value names one of GNOME's
/// accent colors, or none.
pub fn gnome_accent_from_output(output: &str) -> (c: Option<Color>)
    ensures
        c == gnome_accent_named(trim_quotes(trim_chars(output@))),
{
    let trimmed = trim_to_string(output);
    let cs = chars_of(trimmed.as_str());
    let mut lo: usize = 0;
    let mut hi: usize = cs.len();
    proof {
        assert(cs@.subrange(0, cs.len() as int) =~= cs@);
    }
    while lo < hi && (cs[lo] == '\'' || cs[hi - 1] == '\'')
        invariant
            cs@ == trimmed@,
            lo <= hi <= cs.len(),
            trim_quotes(cs@) == trim_quotes(cs@.subrange(lo as int, hi as int)),
        decreases hi - lo,
    {
        proof {
            let s = cs@.subrange(lo as int, hi as int);
            assert(s.drop_first() =~= cs@.subrange(lo + 1, hi as int));
            assert(s.drop_last() =~= cs@.subrange(lo as int, hi - 1));
        }
        if cs[lo] == '\'' {
            lo += 1;
        } else {
            hi -= 1;
        }
    }
    proof {
        let s = cs@.subrange(lo as int, hi as int);
        assert(trim_quotes(s) == s);
    }
    let name = string_from_chars(&cs, lo, hi);
    let n = name.as_str();
    if str_eq(n, "blue") {
        Some(Color::from_rgb(0, 120, 212))
    } else if str_eq(n, "teal") {
        Some(Color::from_rgb(0, 160, 164))
    } else if str_eq(n, "green") {
        Some(Color::from_rgb(35, 171, 100))
    } else if str_eq(n, "yellow") {
        Some(Color::from_rgb(246, 198, 0))
    } else if str_eq(n, "orange") {
        Some(Color::from_rgb(230, 100, 0))
    } else if str_eq(n, "red") {
        Some(Color::from_rgb(196, 43, 28))
    } else if str_eq(n, "pink") {
        Some(Color::from_rgb(220, 68, 128))
    } else if str_eq(n, "purple") {
        Some(Color::from_rgb(119, 86, 178))
    } else if str_eq(n, "slate") {
        Some(Color::from_rgb(105, 119, 138))
    } else {
        None
    }
}

/// Whether `needle` occurs in `hay` as a contiguous run.
pub open spec fn contains_text(hay: Seq<char>, needle: Seq<char>) -> bool {
    exists|i: int| 0 <= i <= hay.len() - needle.len() && #[trigger] hay.subrange(i, i + needle.len()) == needle
}

/// Whether `needle` occurs in `hay`, as `str::contains` answers.
pub fn text_contains(hay: &str, needle: &str) -> (b: bool)
    ensures
        b == contains_text(hay@, needle@),
{
    let h = chars_of(hay);
    let n = chars_of(needle);
    if n.len() > h.len() {
        return false;
    }
    let mut i: usize = 0;
    while i <= h.len() - n.len()
        invariant
            h@ == hay@,
            n@ == needle@,
            n.len() <= h.len(),
            i <= h.len() - n.len() + 1,
            forall|k: int| 0 <= k < i ==> #[trigger] hay@.subrange(k, k + needle@.len()) != needle@,
        decreases h.len() - n.len() + 1 - i,
    {
        let mut j: usize = 0;
        while j < n.len() && h[i + j] == n[j]
            invariant
                h@ == hay@,
                n@ == needle@,
                i + n.len() <= h.len(),
                j <= n.len(),
                forall|k: int| 0 <= k < j ==> h@[i + k] == n@[k],
            decreases n.len() - j,
        {
            j += 1;
        }
        if j == n.len() {
            assert(hay@.subrange(i as int, i + needle@.len()) =~= needle@);
            return true;
        }
        assert(hay@.subrange(i as int, i + needle@.len())[j as int] != needle@[j as int]);
        i += 1;
    }
    false
}

/// A place the OS color scheme can be read from, in the order they are asked.
#[derive(Debug, Clone, Copy, PartialEq, Eq, Structural)]
pub enum SchemeProbe {
    /// The `QUICK_DARK_MODE` environment variable.
    QuickDarkMode,
    /// The `QUICK_LIGHT_MODE` environment variable.
    QuickLightMode,
    /// The `XDG_COLOR_SCHEME` environment variable.
    XdgColorScheme,
    /// The `GTK_THEME` environment variable.
    GtkTheme,
    /// What `gsettings get org.gnome.desktop.interface color-scheme` prints.
    GsettingsColorScheme,
    /// What `gsettings get org.gnome.desktop.interface gtk-theme` prints.
    GsettingsGtkTheme,
}

/// What to do after a probe: ask the next one, or the scheme is known.
#[derive(Debug, Clone, Copy, PartialEq, Eq, Structural)]
pub enum SchemeStep {
    Ask(SchemeProbe),
    Decided(ColorScheme),
}

/// The step after `probe` answered `answer` (`None`: the variable is unset
/// or the command did not run). An override of `1` decides; a value or
/// output containing `dark` (case-insensitively for theme names) means dark;
/// when every probe is exhausted the scheme is light.
pub open spec fn scheme_step(probe: SchemeProbe, answer: Option<Seq<char>>) -> SchemeStep {
    match probe {
        SchemeProbe::QuickDarkMode => if answer == Some("1"@) {
            SchemeStep::Decided(ColorScheme::Dark)
        } else {
            SchemeStep::Ask(SchemeProbe::QuickLightMode)
        },
        SchemeProbe::QuickLightMode => if answer == Some("1"@) {
            SchemeStep::Decided(ColorScheme::Light)
        } else {
            SchemeStep::Ask(SchemeProbe::XdgColorScheme)
        },
        SchemeProbe::XdgColorScheme => if answer matches Some(a) && contains_text(a, "dark"@) {
            SchemeStep::Decided(ColorScheme::Dark)
        } else {
            SchemeStep::Ask(SchemeProbe::GtkTheme)
        },
        SchemeProbe::GtkTheme => if answer matches Some(a) && contains_text(
            lowercase_chars(a),
            "dark"@,
        ) {
            SchemeStep::Decided(ColorScheme::Dark)
        } else {
            SchemeStep::Ask(SchemeProbe::GsettingsColorScheme)
        },
        SchemeProbe::GsettingsColorScheme => if answer matches Some(a) && contains_text(a, "dark"@) {
            SchemeStep::Decided(ColorScheme::Dark)
        } else {
            SchemeStep::Ask(SchemeProbe::GsettingsGtkTheme)
        },
        SchemeProbe::GsettingsGtkTheme => if answer matches Some(a) && contains_text(
            lowercase_chars(a),
            "dark"@,
        ) {
            SchemeStep::Decided(ColorScheme::Dark)
        } else {
            SchemeStep::Decided(ColorScheme::Light)
        },
    }
}

/// The probe to ask first.
pub fn first_scheme_probe() -> (p: SchemeProbe)
    ensures
        p == SchemeProbe::QuickDarkMode,
{
    SchemeProbe::QuickDarkMode
}

/// The step after `probe` answered `answer`, as `scheme_step` says.
pub fn next_scheme_step(probe: SchemeProbe, answer: Option<&str>) -> (step: SchemeStep)
    ensures
        step == scheme_step(
            probe,
            match answer {
                Some(a) => Some(a@),
                None => None,
            },
        ),
{
    match probe {
        SchemeProbe::QuickDarkMode => match answer {
            Some(a) if str_eq(a, "1") => SchemeStep::Decided(ColorScheme::Dark),
            _ => SchemeStep::Ask(SchemeProbe::QuickLightMode),
        },
        SchemeProbe::QuickLightMode => match answer {
            Some(a) if str_eq(a, "1") => SchemeStep::Decided(ColorScheme::Light),
            _ => SchemeStep::Ask(SchemeProbe::XdgColorScheme),
        },
        SchemeProbe::XdgColorScheme => match answer {
            Some(a) if text_contains(a, "dark") => SchemeStep::Decided(ColorScheme::Dark),
            _ => SchemeStep::Ask(SchemeProbe::GtkTheme),
        },
        SchemeProbe::GtkTheme => match answer {
            Some(a) if text_contains(to_lowercase(a).as_str(), "dark") => SchemeStep::Decided(
                ColorScheme::Dark,
            ),
            _ => SchemeStep::Ask(SchemeProbe::GsettingsColorScheme),
        },
        SchemeProbe::GsettingsColorScheme => match answer {
            Some(a) if text_contains(a, "dark") => SchemeStep::Decided(ColorScheme::Dark),
            _ => SchemeStep::Ask(SchemeProbe::GsettingsGtkTheme),
        },
        SchemeProbe::GsettingsGtkTheme => match answer {
            Some(a) if text_contains(to_lowercase(a).as_str(), "dark") => SchemeStep::Decided(
                ColorScheme::Dark,
            ),
            _ => SchemeStep::Decided(ColorScheme::Light),
        },
    }
}

/// What a `kdeglobals` file says of the accent color.
#[derive(Debug, Clone, Copy, PartialEq, Eq, Structural)]
pub enum KdeAccent {
    /// An `AccentColor=` line gave this color.
    Found(Color),
    /// An `AccentColor=` line had three comma-separated parts, one of which
    /// is not a byte: the search gives up.
    Invalid,
    /// No line decided: the next file is searched.
    Absent,
}

/// What one line of `kdeglobals` does to the search.
pub enum KdeLine {
    /// The line does not decide; read on.
    Skip,
    /// The line decides.
    Decide(KdeAccent),
    /// The line's color text would be sliced inside a character, which
    /// slicing a `str` refuses.
    Cut,
}

/// `s` without any run of `p` at its start, as `str::trim_start_matches` gives it.
pub open spec fn strip_prefix_runs(s: Seq<char>, p: Seq<char>) -> Seq<char>
    decreases s.len(),
{
    if p.len() > 0 && has_prefix(s, p) {
        strip_prefix_runs(s.skip(p.len() as int), p)
    } else {
        s
    }
}

/// The parts of `s` between commas.
pub open spec fn comma_parts(s: Seq<char>) -> Seq<Seq<char>>
    decreases s.len(),
{
    match first_char_index(s, ',') {
        Some(k) => {
            proof {
                lemma_first_char_index_bounds(s, ',');
            }
            seq![s.take(k)] + comma_parts(s.skip(k + 1))
        },
        None => seq![s],
    }
}

/// What `str::parse::<u8>` gives.
pub open spec fn parse_u8_chars(s: Seq<char>) -> Option<u8> {
    match parse_u64_chars(s) {
        Some(v) => if v <= 255 {
            Some(v as u8)
        } else {
            None
        },
        None => None,
    }
}

/// The color text of an `AccentColor=` line.
pub open spec fn accent_value(line: Seq<char>) -> Seq<char> {
    trim_chars(strip_prefix_runs(line, "AccentColor="@))
}

/// What one line of `kdeglobals` does: an `AccentColor=` line whose value
/// parses as a color decides on it; otherwise a value of three
/// comma-separated bytes `R,G,B` decides on that color, and three parts that
/// are not all bytes give up; any other line reads on.
pub open spec fn kde_line(line: Seq<char>) -> KdeLine {
    if !has_prefix(line, "AccentColor="@) {
        KdeLine::Skip
    } else {
        let hex = accent_value(line);
        if !normalized_hex_is_sliceable(lowercase_chars(trim_chars(hex))) {
            KdeLine::Cut
        } else {
            match color_from_text(hex) {
                Ok(c) => KdeLine::Decide(KdeAccent::Found(c)),
                Err(_) => {
                    let parts = comma_parts(hex);
                    if parts.len() == 3 {
                        match (
                            parse_u8_chars(trim_chars(parts[0])),
                            parse_u8_chars(trim_chars(parts[1])),
                            parse_u8_chars(trim_chars(parts[2])),
                        ) {
                            (Some(r), Some(g), Some(b)) => KdeLine::Decide(
                                KdeAccent::Found(Color { r, g, b, a: 255 }),
                            ),
                            _ => KdeLine::Decide(KdeAccent::Invalid),
                        }
                    } else {
                        KdeLine::Skip
                    }
                },
            }
        }
    }
}

/// The outcome of reading the lines in order: the first deciding line
/// decides; `None` when a line's color text would be cut.
pub open spec fn kde_lines(lines: Seq<Seq<char>>) -> Option<KdeAccent>
    decreases lines.len(),
{
    if lines.len() == 0 {
        Some(KdeAccent::Absent)
    } else {
        match kde_line(lines[0]) {
            KdeLine::Skip => kde_lines(lines.drop_first()),
            KdeLine::Decide(a) => Some(a),
            KdeLine::Cut => None,
        }
    }
}

/// The bytes of `cs[from..to]` split at commas, as (start, end) bounds.
fn comma_bounds(cs: &Vec<char>, from: usize, to: usize) -> (r: Vec<(usize, usize)>)
    requires
        from <= to <= cs.len(),
    ensures
        r.len() == comma_parts(cs@.subrange(from as int, to as int)).len(),
        forall|i: int|
            0 <= i < r.len() ==> from <= (#[trigger] r@[i]).0 <= r@[i].1 <= to && cs@.subrange(
                r@[i].0 as int,
                r@[i].1 as int,
            ) == comma_parts(cs@.subrange(from as int, to as int))[i],
{
    let mut out: Vec<(usize, usize)> = Vec::new();
    let mut start = from;
    loop
        invariant
            from <= start <= to <= cs.len(),
            forall|i: int|
                0 <= i < out.len() ==> from <= (#[trigger] out@[i]).0 <= out@[i].1 <= to
                    && cs@.subrange(out@[i].0 as int, out@[i].1 as int) == comma_parts(
                    cs@.subrange(from as int, to as int),
                )[i],
            comma_parts(cs@.subrange(from as int, to as int)) == Seq::new(
                out.len() as nat,
                |i: int| cs@.subrange(out@[i].0 as int, out@[i].1 as int),
            ) + comma_parts(cs@.subrange(start as int, to as int)),
        decreases to - start,
    {
        let ghost rest = cs@.subrange(start as int, to as int);
        let mut end = start;
        while end < to && cs[end] != ','
            invariant
                from <= start <= end <= to <= cs.len(),
                forall|j: int| start <= j < end ==> #[trigger] cs@[j] != ',',
            decreases to - end,
        {
            end += 1;
        }
        proof {
            assert forall|j: int| 0 <= j < end - start implies #[trigger] rest[j] != ',' by {
                assert(rest[j] == cs@[start + j]);
            }
            if end < to {
                assert(rest[end - start] == cs@[end as int]);
            }
            lemma_first_char_index(rest, ',', end - start);
        }
        let ghost before = out@;
        out.push((start, end));
        proof {
            let whole = comma_parts(cs@.subrange(from as int, to as int));
            let done = Seq::new(before.len() as nat, |i: int| cs@.subrange(before[i].0 as int, before[i].1 as int));
            let done2 = Seq::new(out.len() as nat, |i: int| cs@.subrange(out@[i].0 as int, out@[i].1 as int));
            assert(done2 =~= done.push(cs@.subrange(start as int, end as int)));
            if end < to {
                assert(rest.take(end - start) =~= cs@.subrange(start as int, end as int));
                assert(rest.skip(end - start + 1) =~= cs@.subrange(end + 1, to as int));
                assert(comma_parts(rest) == seq![cs@.subrange(start as int, end as int)] + comma_parts(
                    cs@.subrange(end + 1, to as int),
                ));
                assert(done + comma_parts(rest) =~= done2 + comma_parts(cs@.subrange(end + 1, to as int)));
            } else {
                assert(rest =~= cs@.subrange(start as int, end as int));
                assert(done + comma_parts(rest) =~= done2);
            }
            assert forall|i: int| 0 <= i < out.len() implies from <= (#[trigger] out@[i]).0 <= out@[i].1
                <= to && cs@.subrange(out@[i].0 as int, out@[i].1 as int) == whole[i] by {
                if i < before.len() {
                    assert(out@[i] == before[i]);
                } else {
                    assert(whole[i] == done2[i]);
                }
            }
        }
        if end == to {
            proof {
                let whole = comma_parts(cs@.subrange(from as int, to as int));
                let done2 = Seq::new(out.len() as nat, |i: int| cs@.subrange(out@[i].0 as int, out@[i].1 as int));
                assert(whole =~= done2);
            }
            return out;
        }
        start = end + 1;
    }
}

/// A byte `cs[from..to]` reads as, once trimmed.
fn trimmed_byte(cs: &Vec<char>, from: usize, to: usize) -> (r: Option<u8>)
    requires
        from <= to <= cs.len(),
    ensures
        r == parse_u8_chars(trim_chars(cs@.subrange(from as int, to as int))),
{
    let (a, b) = trim_range(cs, from, to);
    match parse_u64_range(cs, a, b) {
        Some(v) if v <= 255 => Some(v as u8),
        _ => None,
    }
}

/// What the line `cs[from..to]` does to the search, as `kde_line` says.
fn kde_line_in(cs: &Vec<char>, from: usize, to: usize) -> (r: KdeLine)
    requires
        from <= to <= cs.len(),
    ensures
        r == kde_line(cs@.subrange(from as int, to as int)),
{
    let ghost line = cs@.subrange(from as int, to as int);
    if !range_has_prefix(cs, from, to, "AccentColor=") {
        return KdeLine::Skip;
    }
    let p = chars_of("AccentColor=");
    let mut start = from;
    proof {
        reveal_strlit("AccentColor=");
        assert(line.skip(0) =~= line);
    }
    while p.len() <= to - start && range_has_prefix(cs, start, to, "AccentColor=")
        invariant
            from <= start <= to <= cs.len(),
            p@ == "AccentColor="@,
            p.len() > 0,
            line == cs@.subrange(from as int, to as int),
            strip_prefix_runs(line, "AccentColor="@) == strip_prefix_runs(
                cs@.subrange(start as int, to as int),
                "AccentColor="@,
            ),
        decreases to - start,
    {
        assert(cs@.subrange(start as int, to as int).skip(p.len() as int) =~= cs@.subrange(
            start + p.len(),
            to as int,
        ));
        start = start + p.len();
    }
    proof {
        if p.len() > to - start {
            assert(!has_prefix(cs@.subrange(start as int, to as int), "AccentColor="@));
        }
    }
    let (a, b) = trim_range(cs, start, to);
    let hex = string_from_chars(cs, a, b);
    match Color::checked_from_hex(hex.as_str()) {
        None => KdeLine::Cut,
        Some(Ok(c)) => KdeLine::Decide(KdeAccent::Found(c)),
        Some(Err(_)) => {
            let parts = comma_bounds(cs, a, b);
            if parts.len() == 3 {
                let r = trimmed_byte(cs, parts[0].0, parts[0].1);
                let g = trimmed_byte(cs, parts[1].0, parts[1].1);
                let bl = trimmed_byte(cs, parts[2].0, parts[2].1);
                match (r, g, bl) {
                    (Some(r), Some(g), Some(bl)) => KdeLine::Decide(
                        KdeAccent::Found(Color::from_rgb(r, g, bl)),
                    ),
                    _ => KdeLine::Decide(KdeAccent::Invalid),
                }
            } else {
                KdeLine::Skip
            }
        },
    }
}

/// What the text of a `kdeglobals` file says of the accent color, read line
/// by line as `kde_lines` says; `None` when a line's color text would be
/// sliced inside a character.
pub fn kde_accent_in(contents: &str) -> (r: Option<KdeAccent>)
    ensures
        r == kde_lines(text_lines(contents@)),
{
    let cs = chars_of(contents);
    let n = cs.len();
    let mut start: usize = 0;
    proof {
        assert(contents@.skip(0) =~= contents@);
    }
    while start < n
        invariant
            cs@ == contents@,
            n == cs.len(),
            start <= n,
            kde_lines(text_lines(contents@)) == kde_lines(text_lines(contents@.skip(start as int))),
        decreases n - start,
    {
        let ghost rest = contents@.skip(start as int);
        let mut end = start;
        while end < n && cs[end] != '\n'
            invariant
                cs@ == contents@,
                n == cs.len(),
                start <= end <= n,
                forall|j: int| start <= j < end ==> #[trigger] cs@[j] != '\n',
            decreases n - end,
        {
            end += 1;
        }
        proof {
            assert forall|j: int| 0 <= j < end - start implies #[trigger] rest[j] != '\n' by {
                assert(rest[j] == cs@[start + j]);
            }
            if end < n {
                assert(rest[end - start] == cs@[end as int]);
            }
            lemma_first_char_index(rest, '\n', end - start);
        }
        let line_end = if end < n && end > start && cs[end - 1] == '\r' {
            end - 1
        } else {
            end
        };
        let ghost line = cs@.subrange(start as int, line_end as int);
        proof {
            if end < n {
                assert(rest.take(end - start) =~= cs@.subrange(start as int, end as int));
                assert(line =~= without_cr(rest.take(end - start)));
                assert(rest.skip(end - start + 1) =~= contents@.skip(end + 1));
                let tail = text_lines(contents@.skip(end + 1));
                assert((seq![line] + tail)[0] == line);
                assert((seq![line] + tail).drop_first() =~= tail);
            } else {
                assert(line =~= rest);
                assert(seq![line][0] == line);
                assert(seq![line].drop_first() =~= Seq::<Seq<char>>::empty());
            }
        }
        match kde_line_in(&cs, start, line_end) {
            KdeLine::Decide(a) => return Some(a),
            KdeLine::Cut => return None,
            KdeLine::Skip => {},
        }
        if end == n {
            proof {
                assert(contents@.skip(n as int) =~= Seq::<char>::empty());
            }
            start = n;
        } else {
            start = end + 1;
        }
    }
    proof {
        assert(contents@.skip(start as int) =~= Seq::<char>::empty());
    }
    Some(KdeAccent::Absent)
}


/// A place the OS accent color can be read from, in the order they are asked.
#[derive(Debug, Clone)]
pub enum AccentProbe {
    /// The `QUICK_ACCENT_COLOR` environment variable.
    Override,
    /// The `HOME` environment variable, which locates the user's `kdeglobals`.
    Home,
    /// The contents of the user's `kdeglobals` file, at this path.
    UserKdeGlobals(String),
    /// The contents of `/etc/xdg/kdeglobals`.
    SystemKdeGlobals,
    /// What `gsettings get org.gnome.desktop.interface accent-color` prints.
    GnomeAccent,
}

/// `AccentProbe` as mathematical values.
pub enum AccentProbeModel {
    Override,
    Home,
    UserKdeGlobals(Seq<char>),
    SystemKdeGlobals,
    GnomeAccent,
}

impl AccentProbe {
    /// The probe as mathematical values.
    pub open spec fn model(&self) -> AccentProbeModel {
        match self {
            AccentProbe::Override => AccentProbeModel::Override,
            AccentProbe::Home => AccentProbeModel::Home,
            AccentProbe::UserKdeGlobals(path) => AccentProbeModel::UserKdeGlobals(path@),
            AccentProbe::SystemKdeGlobals => AccentProbeModel::SystemKdeGlobals,
            AccentProbe::GnomeAccent => AccentProbeModel::GnomeAccent,
        }
    }
}

/// What to do after an accent probe: ask the next one, take this color, or
/// stop because reading the answer would slice text inside a character.
#[derive(Debug, Clone)]
pub enum AccentStep {
    Ask(AccentProbe),
    Decided(Color),
    SlicesCharacter,
}

/// `AccentStep` as mathematical values.
pub enum AccentStepModel {
    Ask(AccentProbeModel),
    Decided(Color),
    SlicesCharacter,
}

impl AccentStep {
    /// The step as mathematical values.
    pub open spec fn model(&self) -> AccentStepModel {
        match self {
            AccentStep::Ask(p) => AccentStepModel::Ask(p.model()),
            AccentStep::Decided(c) => AccentStepModel::Decided(*c),
            AccentStep::SlicesCharacter => AccentStepModel::SlicesCharacter,
        }
    }
}

/// The Fluent default accent, taken when no source names one.
pub open spec fn default_accent() -> Color {
    Color { r: 0, g: 120, b: 212, a: 255 }
}

/// The step after a `kdeglobals` file answered `contents` (`None`: it could
/// not be read): a color found decides, an invalid color gives up on KDE,
/// and otherwise `otherwise` is next.
pub open spec fn kde_step(contents: Option<Seq<char>>, otherwise: AccentStepModel) -> AccentStepModel {
    match contents {
        None => otherwise,
        Some(text) => match kde_lines(text_lines(text)) {
            None => AccentStepModel::SlicesCharacter,
            Some(KdeAccent::Found(c)) => AccentStepModel::Decided(c),
            Some(KdeAccent::Invalid) => AccentStepModel::Ask(AccentProbeModel::GnomeAccent),
            Some(KdeAccent::Absent) => otherwise,
        },
    }
}

/// The step after `probe` answered `answer` (`None`: the variable is unset,
/// the file unreadable or the command did not run). The override is taken
/// when it parses as a color; then the user's and the system's `kdeglobals`,
/// then GNOME's accent name; the Fluent default is the last resort.
pub open spec fn accent_step(probe: AccentProbeModel, answer: Option<Seq<char>>) -> AccentStepModel {
    match probe {
        AccentProbeModel::Override => match answer {
            None => AccentStepModel::Ask(AccentProbeModel::Home),
            Some(hex) => if !normalized_hex_is_sliceable(lowercase_chars(trim_chars(hex))) {
                AccentStepModel::SlicesCharacter
            } else {
                match color_from_text(hex) {
                    Ok(c) => AccentStepModel::Decided(c),
                    Err(_) => AccentStepModel::Ask(AccentProbeModel::Home),
                }
            },
        },
        AccentProbeModel::Home => match answer {
            None => AccentStepModel::Ask(AccentProbeModel::GnomeAccent),
            Some(home) => AccentStepModel::Ask(
                AccentProbeModel::UserKdeGlobals(home + "/.config/kdeglobals"@),
            ),
        },
        AccentProbeModel::UserKdeGlobals(_) => kde_step(
            answer,
            AccentStepModel::Ask(AccentProbeModel::SystemKdeGlobals),
        ),
        AccentProbeModel::SystemKdeGlobals => kde_step(
            answer,
            AccentStepModel::Ask(AccentProbeModel::GnomeAccent),
        ),
        AccentProbeModel::GnomeAccent => match answer {
            Some(output) => match gnome_accent_named(trim_quotes(trim_chars(output))) {
                Some(c) => AccentStepModel::Decided(c),
                None => AccentStepModel::Decided(default_accent()),
            },
            None => AccentStepModel::Decided(default_accent()),
        },
    }
}

/// The accent probe to ask first.
pub fn first_accent_probe() -> (p: AccentProbe)
    ensures
        p.model() == AccentProbeModel::Override,
{
    AccentProbe::Override
}

fn kde_next(contents: Option<&str>, otherwise: AccentStep) -> (step: AccentStep)
    ensures
        step.model() == kde_step(
            match contents {
                Some(c) => Some(c@),
                None => None,
            },
            otherwise.model(),
        ),
{
    match contents {
        None => otherwise,
        Some(text) => match kde_accent_in(text) {
            None => AccentStep::SlicesCharacter,
            Some(KdeAccent::Found(c)) => AccentStep::Decided(c),
            Some(KdeAccent::Invalid) => AccentStep::Ask(AccentProbe::GnomeAccent),
            Some(KdeAccent::Absent) => otherwise,
        },
    }
}

/// The step after `probe` answered `answer`, as `accent_step` says.
pub fn next_accent_step(probe: &AccentProbe, answer: Option<&str>) -> (step: AccentStep)
    ensures
        step.model() == accent_step(
            probe.model(),
            match answer {
                Some(a) => Some(a@),
                None => None,
            },
        ),
{
    match probe {
        AccentProbe::Override => match answer {
            None => AccentStep::Ask(AccentProbe::Home),
            Some(hex) => match Color::checked_from_hex(hex) {
                None => AccentStep::SlicesCharacter,
                Some(Ok(c)) => AccentStep::Decided(c),
                Some(Err(_)) => AccentStep::Ask(AccentProbe::Home),
            },
        },
        AccentProbe::Home => match answer {
            None => AccentStep::Ask(AccentProbe::GnomeAccent),
            Some(home) => {
                let mut path = String::new();
                push_str(&mut path, home);
                push_str(&mut path, "/.config/kdeglobals");
                AccentStep::Ask(AccentProbe::UserKdeGlobals(path))
            },
        },
        AccentProbe::UserKdeGlobals(_) => kde_next(answer, AccentStep::Ask(AccentProbe::SystemKdeGlobals)),
        AccentProbe::SystemKdeGlobals => kde_next(answer, AccentStep::Ask(AccentProbe::GnomeAccent)),
        AccentProbe::GnomeAccent => match answer {
            Some(output) => match gnome_accent_from_output(output) {
                Some(c) => AccentStep::Decided(c),
                None => AccentStep::Decided(Color { r: 0, g: 120, b: 212, a: 255 }),
            },
            None => AccentStep::Decided(Color { r: 0, g: 120, b: 212, a: 255 }),
        },
    }
}

/// GNOME's accent-color names with the color each stands for.
pub open spec fn gnome_accent_names() -> Seq<(Seq<char>, Color)> {
    seq![
        ("blue"@, Color { r: 0, g: 120, b: 212, a: 255 }),
        ("teal"@, Color { r: 0, g: 160, b: 164, a: 255 }),
        ("green"@, Color { r: 35, g: 171, b: 100, a: 255 }),
        ("yellow"@, Color { r: 246, g: 198, b: 0, a: 255 }),
        ("orange"@, Color { r: 230, g: 100, b: 0, a: 255 }),
        ("red"@, Color { r: 196, g: 43, b: 28, a: 255 }),
        ("pink"@, Color { r: 220, g: 68, b: 128, a: 255 }),
        ("purple"@, Color { r: 119, g: 86, b: 178, a: 255 }),
        ("slate"@, Color { r: 105, g: 119, b: 138, a: 255 }),
    ]
}

/// Each GNOME accent name gives the color the name table gives it, and no other text names an accent.
pub proof fn law_gnome_accent_names(t: Seq<char>)
    ensures
        forall|i: int|
            #![trigger gnome_accent_names()[i]]
            0 <= i < gnome_accent_names().len() ==> gnome_accent_named(gnome_accent_names()[i].0) == Some(gnome_accent_names()[i].1),
        gnome_accent_named(t) is Some ==> exists|i: int|
            #![trigger gnome_accent_names()[i]]
            0 <= i < gnome_accent_names().len() && gnome_accent_names()[i].0 == t && Some(gnome_accent_names()[i].1) == gnome_accent_named(t),
{
    reveal_strlit("blue");
    reveal_strlit("teal");
    reveal_strlit("green");
    reveal_strlit("yellow");
    reveal_strlit("orange");
    reveal_strlit("red");
    reveal_strlit("pink");
    reveal_strlit("purple");
    reveal_strlit("slate");
    assert("blue"@[0] != "teal"@[0]);
    assert("blue"@.len() != "green"@.len());
    assert("blue"@.len() != "yellow"@.len());
    assert("blue"@.len() != "orange"@.len());
    assert("blue"@.len() != "red"@.len());
    assert("blue"@[0] != "pink"@[0]);
    assert("blue"@.len() != "purple"@.len());
    assert("blue"@.len() != "slate"@.len());
    assert("teal"@.len() != "green"@.len());
    assert("teal"@.len() != "yellow"@.len());
    assert("teal"@.len() != "orange"@.len());
    assert("teal"@.len() != "red"@.len());
    assert("teal"@[0] != "pink"@[0]);
    assert("teal"@.len() != "purple"@.len());
    assert("teal"@.len() != "slate"@.len());
    assert("green"@.len() != "yellow"@.len());
    assert("green"@.len() != "orange"@.len());
    assert("green"@.len() != "red"@.len());
    assert("green"@.len() != "pink"@.len());
    assert("green"@.len() != "purple"@.len());
    assert("green"@[0] != "slate"@[0]);
    assert("yellow"@[0] != "orange"@[0]);
    assert("yellow"@.len() != "red"@.len());
    assert("yellow"@.len() != "pink"@.len());
    assert("yellow"@[0] != "purple"@[0]);
    assert("yellow"@.len() != "slate"@.len());
    assert("orange"@.len() != "red"@.len());
    assert("orange"@.len() != "pink"@.len());
    assert("orange"@[0] != "purple"@[0]);
    assert("orange"@.len() != "slate"@.len());
    assert("red"@.len() != "pink"@.len());
    assert("red"@.len() != "purple"@.len());
    assert("red"@.len() != "slate"@.len());
    assert("pink"@.len() != "purple"@.len());
    assert("pink"@.len() != "slate"@.len());
    assert("purple"@.len() != "slate"@.len());
    let tbl = gnome_accent_names();
    assert(tbl.len() == 9);
    assert forall|i: int| 0 <= i < tbl.len() implies #[trigger] gnome_accent_named(tbl[i].0) == Some(tbl[i].1) by {
        if i == 0 {
            assert(tbl[0] == ("blue"@, Color { r: 0, g: 120, b: 212, a: 255 }));
            assert(gnome_accent_named("blue"@) == Some(Color { r: 0, g: 120, b: 212, a: 255 }));
        } else if i == 1 {
            assert(tbl[1] == ("teal"@, Color { r: 0, g: 160, b: 164, a: 255 }));
            assert(gnome_accent_named("teal"@) == Some(Color { r: 0, g: 160, b: 164, a: 255 }));
        } else if i == 2 {
            assert(tbl[2] == ("green"@, Color { r: 35, g: 171, b: 100, a: 255 }));
            assert(gnome_accent_named("green"@) == Some(Color { r: 35, g: 171, b: 100, a: 255 }));
        } else if i == 3 {
            assert(tbl[3] == ("yellow"@, Color { r: 246, g: 198, b: 0, a: 255 }));
            assert(gnome_accent_named("yellow"@) == Some(Color { r: 246, g: 198, b: 0, a: 255 }));
        } else if i == 4 {
            assert(tbl[4] == ("orange"@, Color { r: 230, g: 100, b: 0, a: 255 }));
            assert(gnome_accent_named("orange"@) == Some(Color { r: 230, g: 100, b: 0, a: 255 }));
        } else if i == 5 {
            assert(tbl[5] == ("red"@, Color { r: 196, g: 43, b: 28, a: 255 }));
            assert(gnome_accent_named("red"@) == Some(Color { r: 196, g: 43, b: 28, a: 255 }));
        } else if i == 6 {
            assert(tbl[6] == ("pink"@, Color { r: 220, g: 68, b: 128, a: 255 }));
            assert(gnome_accent_named("pink"@) == Some(Color { r: 220, g: 68, b: 128, a: 255 }));
        } else if i == 7 {
            assert(tbl[7] == ("purple"@, Color { r: 119, g: 86, b: 178, a: 255 }));
            assert(gnome_accent_named("purple"@) == Some(Color { r: 119, g: 86, b: 178, a: 255 }));
        } else if i == 8 {
            assert(tbl[8] == ("slate"@, Color { r: 105, g: 119, b: 138, a: 255 }));
            assert(gnome_accent_named("slate"@) == Some(Color { r: 105, g: 119, b: 138, a: 255 }));
        }
    }
    if t == "blue"@ {
        assert(tbl[0] == ("blue"@, Color { r: 0, g: 120, b: 212, a: 255 }));
    } else if t == "teal"@ {
        assert(tbl[1] == ("teal"@, Color { r: 0, g: 160, b: 164, a: 255 }));
    } else if t == "green"@ {
        assert(tbl[2] == ("green"@, Color { r: 35, g: 171, b: 100, a: 255 }));
    } else if t == "yellow"@ {
        assert(tbl[3] == ("yellow"@, Color { r: 246, g: 198, b: 0, a: 255 }));
    } else if t == "orange"@ {
        assert(tbl[4] == ("orange"@, Color { r: 230, g: 100, b: 0, a: 255 }));
    } else if t == "red"@ {
        assert(tbl[5] == ("red"@, Color { r: 196, g: 43, b: 28, a: 255 }));
    } else if t == "pink"@ {
        assert(tbl[6] == ("pink"@, Color { r: 220, g: 68, b: 128, a: 255 }));
    } else if t == "purple"@ {
        assert(tbl[7] == ("purple"@, Color { r: 119, g: 86, b: 178, a: 255 }));
    } else if t == "slate"@ {
        assert(tbl[8] == ("slate"@, Color { r: 105, g: 119, b: 138, a: 255 }));
    }
}

/// Reading the OS color scheme: a `QUICK_DARK_MODE` or `QUICK_LIGHT_MODE`
/// of `1` decides dark or light; an `XDG_COLOR_SCHEME` value or a
/// `gsettings` color-scheme output with `dark` anywhere in it means dark, as
/// does a GTK theme name with `dark` anywhere in its lowercase form; any other
/// answer, or none, moves on to the next source, and when the last one has
/// nothing to say the scheme is light.
pub proof fn law_scheme_probes(before: Seq<char>, after: Seq<char>, answer: Option<Seq<char>>)
    ensures
        scheme_step(SchemeProbe::QuickDarkMode, Some("1"@)) == SchemeStep::Decided(ColorScheme::Dark),
        scheme_step(SchemeProbe::QuickLightMode, Some("1"@)) == SchemeStep::Decided(ColorScheme::Light),
        answer != Some("1"@) ==> scheme_step(SchemeProbe::QuickDarkMode, answer) == SchemeStep::Ask(
            SchemeProbe::QuickLightMode,
        ),
        answer != Some("1"@) ==> scheme_step(SchemeProbe::QuickLightMode, answer) == SchemeStep::Ask(
            SchemeProbe::XdgColorScheme,
        ),
        scheme_step(SchemeProbe::XdgColorScheme, Some(before + "dark"@ + after)) == SchemeStep::Decided(
            ColorScheme::Dark,
        ),
        scheme_step(SchemeProbe::GsettingsColorScheme, Some(before + "dark"@ + after))
            == SchemeStep::Decided(ColorScheme::Dark),
        answer matches Some(a) && lowercase_chars(a) == before + "dark"@ + after ==> scheme_step(
            SchemeProbe::GtkTheme,
            answer,
        ) == SchemeStep::Decided(ColorScheme::Dark),
        answer matches Some(a) && lowercase_chars(a) == before + "dark"@ + after ==> scheme_step(
            SchemeProbe::GsettingsGtkTheme,
            answer,
        ) == SchemeStep::Decided(ColorScheme::Dark),
        scheme_step(SchemeProbe::XdgColorScheme, None) == SchemeStep::Ask(SchemeProbe::GtkTheme),
        scheme_step(SchemeProbe::GtkTheme, None) == SchemeStep::Ask(SchemeProbe::GsettingsColorScheme),
        scheme_step(SchemeProbe::GsettingsColorScheme, None) == SchemeStep::Ask(
            SchemeProbe::GsettingsGtkTheme,
        ),
        scheme_step(SchemeProbe::GsettingsGtkTheme, None) == SchemeStep::Decided(ColorScheme::Light),
        answer matches Some(a) && !contains_text(a, "dark"@) ==> scheme_step(
            SchemeProbe::XdgColorScheme,
            answer,
        ) == SchemeStep::Ask(SchemeProbe::GtkTheme) && scheme_step(
            SchemeProbe::GsettingsColorScheme,
            answer,
        ) == SchemeStep::Ask(SchemeProbe::GsettingsGtkTheme),
        answer matches Some(a) && !contains_text(lowercase_chars(a), "dark"@) ==> scheme_step(
            SchemeProbe::GtkTheme,
            answer,
        ) == SchemeStep::Ask(SchemeProbe::GsettingsColorScheme) && scheme_step(
            SchemeProbe::GsettingsGtkTheme,
            answer,
        ) == SchemeStep::Decided(ColorScheme::Light),
{
    reveal_strlit("dark");
    reveal_strlit("1");
    let s = before + "dark"@ + after;
    let k: int = before.len() as int;
    assert(s.subrange(k, k + 4) =~= "dark"@);
    assert(contains_text(s, "dark"@));
}

/// The accent color sources are asked in a fixed order: the override, then
/// the user's `kdeglobals` under `HOME`, then the system's, then GNOME's
/// accent name, then the Fluent default blue; a source that has nothing to
/// say hands over to the next one, a KDE color or a GNOME accent name decides.
pub proof fn law_accent_sources(home: Seq<char>, path: Seq<char>, output: Seq<char>)
    ensures
        accent_step(AccentProbeModel::Override, None) == AccentStepModel::Ask(AccentProbeModel::Home),
        accent_step(AccentProbeModel::Home, Some(home)) == AccentStepModel::Ask(
            AccentProbeModel::UserKdeGlobals(home + "/.config/kdeglobals"@),
        ),
        accent_step(AccentProbeModel::Home, None) == AccentStepModel::Ask(AccentProbeModel::GnomeAccent),
        accent_step(AccentProbeModel::UserKdeGlobals(path), None) == AccentStepModel::Ask(
            AccentProbeModel::SystemKdeGlobals,
        ),
        accent_step(AccentProbeModel::SystemKdeGlobals, None) == AccentStepModel::Ask(
            AccentProbeModel::GnomeAccent,
        ),
        accent_step(AccentProbeModel::GnomeAccent, None) == AccentStepModel::Decided(
            Color { r: 0, g: 120, b: 212, a: 255 },
        ),
        forall|i: int|
            #![trigger gnome_accent_names()[i]]
            0 <= i < gnome_accent_names().len() && trim_quotes(trim_chars(output))
                == gnome_accent_names()[i].0 ==> accent_step(AccentProbeModel::GnomeAccent, Some(output))
                == AccentStepModel::Decided(gnome_accent_names()[i].1),
        gnome_accent_named(trim_quotes(trim_chars(output))) is None ==> accent_step(
            AccentProbeModel::GnomeAccent,
            Some(output),
        ) == AccentStepModel::Decided(Color { r: 0, g: 120, b: 212, a: 255 }),
        kde_lines(text_lines(output)) is Some && kde_lines(text_lines(output)).unwrap() is Found ==> accent_step(
            AccentProbeModel::UserKdeGlobals(path),
            Some(output),
        ) == AccentStepModel::Decided(kde_lines(text_lines(output)).unwrap()->0) && accent_step(
            AccentProbeModel::SystemKdeGlobals,
            Some(output),
        ) == AccentStepModel::Decided(kde_lines(text_lines(output)).unwrap()->0),
        kde_lines(text_lines(output)) == Some(KdeAccent::Invalid) ==> accent_step(
            AccentProbeModel::UserKdeGlobals(path),
            Some(output),
        ) == AccentStepModel::Ask(AccentProbeModel::GnomeAccent),
        kde_lines(text_lines(output)) == Some(KdeAccent::Absent) ==> accent_step(
            AccentProbeModel::UserKdeGlobals(path),
            Some(output),
        ) == AccentStepModel::Ask(AccentProbeModel::SystemKdeGlobals) && accent_step(
            AccentProbeModel::SystemKdeGlobals,
            Some(output),
        ) == AccentStepModel::Ask(AccentProbeModel::GnomeAccent),
{
    law_gnome_accent_names(trim_quotes(trim_chars(output)));
}

/// Only `AccentColor=` lines of a `kdeglobals` file speak of the accent:
/// other lines are passed over, lines are read in order and the first one
/// that decides wins, and a file with no deciding line says nothing.
pub proof fn law_kde_lines_in_order(line: Seq<char>, a: Seq<Seq<char>>, b: Seq<Seq<char>>)
    ensures
        !has_prefix(line, "AccentColor="@) ==> kde_lines(seq![line] + b) == kde_lines(b),
        kde_line(line) matches KdeLine::Decide(d) ==> kde_lines(seq![line] + b) == Some(d),
        kde_lines(Seq::<Seq<char>>::empty()) == Some(KdeAccent::Absent),
        (forall|i: int| 0 <= i < a.len() ==> #[trigger] kde_line(a[i]) == KdeLine::Skip) ==> kde_lines(
            a + b,
        ) == kde_lines(b),
    decreases a.len(),
{
    let s = seq![line] + b;
    assert(s[0] == line);
    assert(s.drop_first() =~= b);
    if a.len() > 0 && (forall|i: int| 0 <= i < a.len() ==> #[trigger] kde_line(a[i]) == KdeLine::Skip) {
        let t = a + b;
        assert(t[0] == a[0]);
        assert(t.drop_first() =~= a.drop_first() + b);
        assert forall|i: int| 0 <= i < a.drop_first().len() implies #[trigger] kde_line(a.drop_first()[i])
            == KdeLine::Skip by {
            assert(a.drop_first()[i] == a[i + 1]);
        }
        law_kde_lines_in_order(line, a.drop_first(), b);
    } else if a.len() == 0 {
        assert(a + b =~= b);
    }
}

} // verus!
