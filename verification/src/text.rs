//! Character-level text helpers shared by the parsers: whitespace trimming,
//! lowercasing, and building `String`s from characters.
use vstd::prelude::*;
use vstd::string::*;
use vstd::utf8::*;

verus! {

/// Whether `c` has the Unicode `White_Space` property, which is what
/// `char::is_whitespace` and `str::trim` test.
pub open spec fn is_unicode_whitespace(c: char) -> bool {
    ||| ('\u{9}' <= c && c <= '\u{d}')
    ||| c == ' '
    ||| c == '\u{85}'
    ||| c == '\u{a0}'
    ||| c == '\u{1680}'
    ||| ('\u{2000}' <= c && c <= '\u{200a}')
    ||| c == '\u{2028}'
    ||| c == '\u{2029}'
    ||| c == '\u{202f}'
    ||| c == '\u{205f}'
    ||| c == '\u{3000}'
}

/// `s` without its leading whitespace.
pub open spec fn trim_start_chars(s: Seq<char>) -> Seq<char>
    decreases s.len(),
{
    if s.len() > 0 && is_unicode_whitespace(s[0]) {
        trim_start_chars(s.drop_first())
    } else {
        s
    }
}

/// `s` without its trailing whitespace.
pub open spec fn trim_end_chars(s: Seq<char>) -> Seq<char>
    decreases s.len(),
{
    if s.len() > 0 && is_unicode_whitespace(s.last()) {
        trim_end_chars(s.drop_last())
    } else {
        s
    }
}

/// `s` without leading and trailing whitespace.
pub open spec fn trim_chars(s: Seq<char>) -> Seq<char> {
    trim_end_chars(trim_start_chars(s))
}

/// What `str::to_lowercase` makes of a string: its Unicode lowercase mapping.
pub uninterp spec fn lowercase_chars(s: Seq<char>) -> Seq<char>;

/// A character with ASCII capitals mapped to lowercase.
pub open spec fn ascii_lower_char(c: char) -> char {
    if 'A' <= c && c <= 'Z' {
        ((c as u32) + 32) as char
    } else {
        c
    }
}

/// `s` with ASCII capitals mapped to lowercase.
pub open spec fn ascii_lowercase_chars(s: Seq<char>) -> Seq<char> {
    Seq::new(s.len(), |i: int| ascii_lower_char(s[i]))
}

/// Calls `str::to_lowercase`, which maps each character to its Unicode
/// lowercase form. The contract names the result; of it, it states only
/// that on ASCII text (where the Unicode mapping is the ASCII one) the
/// capitals `A`-`Z` become `a`-`z` and nothing else changes.
#[verifier::external_body]
pub fn to_lowercase(s: &str) -> (r: String)
    ensures
        r@ == lowercase_chars(s@),
        vstd::utf8::is_ascii_chars(s@) ==> r@ == ascii_lowercase_chars(s@),
{
    s.to_lowercase()
}

/// Calls `String::push`, which appends one character.
#[verifier::external_body]
pub fn push_char(s: &mut String, c: char)
    ensures
        final(s)@ == old(s)@.push(c),
{
    s.push(c)
}

/// The characters of `s`, in order.
pub fn chars_of(s: &str) -> (v: Vec<char>)
    ensures
        v@ == s@,
{
    let n = s.unicode_len();
    let mut v: Vec<char> = Vec::new();
    let mut i: usize = 0;
    while i < n
        invariant
            n == s@.len(),
            i <= n,
            v@ == s@.take(i as int),
        decreases n - i,
    {
        let c = s.get_char(i);
        v.push(c);
        proof {
            assert(s@.take(i + 1) =~= s@.take(i as int).push(c));
        }
        i += 1;
    }
    proof {
        assert(s@.take(n as int) =~= s@);
    }
    v
}

/// A `String` holding the characters `cs[from..to]`.
pub fn string_from_chars(cs: &Vec<char>, from: usize, to: usize) -> (s: String)
    requires
        from <= to <= cs.len(),
    ensures
        s@ == cs@.subrange(from as int, to as int),
{
    let mut s = String::new();
    let mut i: usize = from;
    while i < to
        invariant
            from <= i <= to <= cs.len(),
            s@ == cs@.subrange(from as int, i as int),
        decreases to - i,
    {
        push_char(&mut s, cs[i]);
        proof {
            assert(cs@.subrange(from as int, i + 1) =~= cs@.subrange(from as int, i as int).push(
                cs@[i as int],
            ));
        }
        i += 1;
    }
    s
}

/// Appends the characters of `t` to `s`.
pub fn push_str(s: &mut String, t: &str)
    ensures
        final(s)@ == old(s)@ + t@,
{
    let cs = chars_of(t);
    let mut i: usize = 0;
    while i < cs.len()
        invariant
            i <= cs.len(),
            cs@ == t@,
            s@ == old(s)@ + t@.take(i as int),
        decreases cs.len() - i,
    {
        push_char(s, cs[i]);
        proof {
            assert(t@.take(i + 1) =~= t@.take(i as int).push(cs@[i as int]));
            assert(old(s)@ + t@.take(i + 1) =~= (old(s)@ + t@.take(i as int)).push(cs@[i as int]));
        }
        i += 1;
    }
    proof {
        assert(t@.take(cs.len() as int) =~= t@);
    }
}

/// Whether `c` has the Unicode `White_Space` property.
pub fn is_whitespace(c: char) -> (b: bool)
    ensures
        b == is_unicode_whitespace(c),
{
    ('\u{9}' <= c && c <= '\u{d}') || c == ' ' || c == '\u{85}' || c == '\u{a0}' || c
        == '\u{1680}' || ('\u{2000}' <= c && c <= '\u{200a}') || c == '\u{2028}' || c
        == '\u{2029}' || c == '\u{202f}' || c == '\u{205f}' || c == '\u{3000}'
}

pub proof fn lemma_trim_start_is_suffix(s: Seq<char>)
    ensures
        exists|k: int|
            0 <= k <= s.len() && trim_start_chars(s) == s.subrange(k, s.len() as int) && (
            forall|j: int| 0 <= j < k ==> is_unicode_whitespace(#[trigger] s[j])) && (k
                < s.len() ==> !is_unicode_whitespace(s[k])),
    decreases s.len(),
{
    if s.len() > 0 && is_unicode_whitespace(s[0]) {
        lemma_trim_start_is_suffix(s.drop_first());
        let k = choose|k: int|
            0 <= k <= s.drop_first().len() && trim_start_chars(s.drop_first())
                == s.drop_first().subrange(k, s.drop_first().len() as int) && (forall|j: int|
                0 <= j < k ==> is_unicode_whitespace(#[trigger] s.drop_first()[j])) && (k
                < s.drop_first().len() ==> !is_unicode_whitespace(s.drop_first()[k]));
        assert(s.drop_first().subrange(k, s.drop_first().len() as int) =~= s.subrange(
            k + 1,
            s.len() as int,
        ));
        assert forall|j: int| 0 <= j < k + 1 implies is_unicode_whitespace(#[trigger] s[j]) by {
            if j > 0 {
                assert(s[j] == s.drop_first()[j - 1]);
            }
        }
        if k + 1 < s.len() {
            assert(s[k + 1] == s.drop_first()[k]);
        }
    } else {
        assert(s =~= s.subrange(0, s.len() as int));
    }
}

proof fn lemma_trim_end_is_prefix(s: Seq<char>)
    ensures
        exists|k: int|
            0 <= k <= s.len() && trim_end_chars(s) == s.subrange(0, k) && (forall|j: int|
                k <= j < s.len() ==> is_unicode_whitespace(#[trigger] s[j])) && (k > 0
                ==> !is_unicode_whitespace(s[k - 1])),
    decreases s.len(),
{
    if s.len() > 0 && is_unicode_whitespace(s.last()) {
        lemma_trim_end_is_prefix(s.drop_last());
        let k = choose|k: int|
            0 <= k <= s.drop_last().len() && trim_end_chars(s.drop_last())
                == s.drop_last().subrange(0, k) && (forall|j: int|
                k <= j < s.drop_last().len() ==> is_unicode_whitespace(
                    #[trigger] s.drop_last()[j],
                )) && (k > 0 ==> !is_unicode_whitespace(s.drop_last()[k - 1]));
        assert(s.drop_last().subrange(0, k) =~= s.subrange(0, k));
        assert forall|j: int| k <= j < s.len() implies is_unicode_whitespace(#[trigger] s[j]) by {
            if j < s.len() - 1 {
                assert(s[j] == s.drop_last()[j]);
            }
        }
        if k > 0 {
            assert(s[k - 1] == s.drop_last()[k - 1]);
        }
    } else {
        assert(s =~= s.subrange(0, s.len() as int));
    }
}

/// The bounds of `cs[from..to]` once its leading and trailing whitespace is dropped.
pub fn trim_range(cs: &Vec<char>, from: usize, to: usize) -> (r: (usize, usize))
    requires
        from <= to <= cs.len(),
    ensures
        from <= r.0 <= r.1 <= to,
        cs@.subrange(r.0 as int, r.1 as int) == trim_chars(cs@.subrange(from as int, to as int)),
{
    let ghost s = cs@.subrange(from as int, to as int);
    let mut start: usize = from;
    proof {
        lemma_trim_start_is_suffix(s);
    }
    while start < to && is_whitespace(cs[start])
        invariant
            from <= start <= to <= cs.len(),
            s == cs@.subrange(from as int, to as int),
            forall|j: int| 0 <= j < start - from ==> is_unicode_whitespace(#[trigger] s[j]),
        decreases to - start,
    {
        assert(s[start - from] == cs@[start as int]);
        start += 1;
    }
    proof {
        let k = choose|k: int|
            0 <= k <= s.len() && trim_start_chars(s) == s.subrange(k, s.len() as int) && (
            forall|j: int| 0 <= j < k ==> is_unicode_whitespace(#[trigger] s[j])) && (k
                < s.len() ==> !is_unicode_whitespace(s[k]));
        let e = start - from;
        if k < e {
            assert(is_unicode_whitespace(s[k]));
        }
        if e < k {
            assert(s[e] == cs@[start as int]);
            assert(is_unicode_whitespace(s[e]));
        }
        assert(k == e);
    }
    let ghost t = cs@.subrange(start as int, to as int);
    assert(t =~= trim_start_chars(s));
    let mut end: usize = to;
    proof {
        lemma_trim_end_is_prefix(t);
    }
    while end > start && is_whitespace(cs[end - 1])
        invariant
            from <= start <= end <= to <= cs.len(),
            t == cs@.subrange(start as int, to as int),
            forall|j: int| end - start <= j < t.len() ==> is_unicode_whitespace(#[trigger] t[j]),
        decreases end - start,
    {
        assert(t[end - 1 - start] == cs@[end - 1]);
        end -= 1;
    }
    proof {
        let k = choose|k: int|
            0 <= k <= t.len() && trim_end_chars(t) == t.subrange(0, k) && (forall|j: int|
                k <= j < t.len() ==> is_unicode_whitespace(#[trigger] t[j])) && (k > 0
                ==> !is_unicode_whitespace(t[k - 1]));
        let e = end - start;
        if k < e {
            assert(t[e - 1] == cs@[end - 1]);
            assert(is_unicode_whitespace(t[e - 1]));
        }
        if e < k {
            assert(is_unicode_whitespace(t[k - 1]));
        }
        assert(k == e);
        assert(t.subrange(0, k) =~= cs@.subrange(start as int, end as int));
    }
    (start, end)
}

/// The characters of `s` without leading and trailing whitespace.
pub fn trim_to_string(s: &str) -> (r: String)
    ensures
        r@ == trim_chars(s@),
{
    let cs = chars_of(s);
    proof {
        assert(cs@.subrange(0, cs@.len() as int) =~= s@);
    }
    let (start, end) = trim_range(&cs, 0, cs.len());
    string_from_chars(&cs, start, end)
}

/// Whether every character of `s` is an ASCII decimal digit.
pub open spec fn all_decimal_digits(s: Seq<char>) -> bool {
    forall|i: int| 0 <= i < s.len() ==> '0' <= #[trigger] s[i] && s[i] <= '9'
}

/// The number that a string of decimal digits spells.
pub open spec fn decimal_value(s: Seq<char>) -> nat
    decreases s.len(),
{
    if s.len() == 0 {
        0
    } else {
        decimal_value(s.drop_last()) * 10 + (s.last() as nat - '0' as nat) as nat
    }
}

/// The value of one or more decimal digits that fits in 64 bits.
pub open spec fn u64_digits_value(digits: Seq<char>) -> Option<u64> {
    if digits.len() == 0 || !all_decimal_digits(digits) || decimal_value(digits) > u64::MAX {
        None
    } else {
        Some(decimal_value(digits) as u64)
    }
}

/// What `str::parse::<u64>` gives: an optional `+`, then one or more decimal
/// digits whose value fits in 64 bits.
pub open spec fn parse_u64_chars(s: Seq<char>) -> Option<u64> {
    if s.len() > 0 && s[0] == '+' {
        u64_digits_value(s.drop_first())
    } else {
        u64_digits_value(s)
    }
}

proof fn lemma_decimal_value_grows(s: Seq<char>, k: int)
    requires
        all_decimal_digits(s),
        0 <= k <= s.len(),
    ensures
        decimal_value(s.take(k)) <= decimal_value(s),
    decreases s.len(),
{
    if k < s.len() {
        lemma_decimal_value_grows(s.drop_last(), k);
        assert(s.drop_last().take(k) =~= s.take(k));
    } else {
        assert(s.take(k) =~= s);
    }
}

/// Parses `cs[from..to]` as `str::parse::<u64>` does.
pub fn parse_u64_range(cs: &Vec<char>, from: usize, to: usize) -> (r: Option<u64>)
    requires
        from <= to <= cs.len(),
    ensures
        r == parse_u64_chars(cs@.subrange(from as int, to as int)),
{
    let ghost s = cs@.subrange(from as int, to as int);
    let mut start = from;
    if start < to && cs[start] == '+' {
        start += 1;
    }
    let ghost digits = cs@.subrange(start as int, to as int);
    proof {
        if s.len() > 0 {
            assert(s[0] == cs@[from as int]);
        }
        if s.len() > 0 && s[0] == '+' {
            assert(digits =~= s.drop_first());
        } else {
            assert(digits =~= s);
        }
    }
    if start == to {
        return None;
    }
    let mut value: u64 = 0;
    let mut i = start;
    while i < to
        invariant
            from <= start <= i <= to <= cs.len(),
            digits == cs@.subrange(start as int, to as int),
            parse_u64_chars(cs@.subrange(from as int, to as int)) == u64_digits_value(digits),
            all_decimal_digits(digits.take(i - start)),
            value == decimal_value(digits.take(i - start)),
        decreases to - i,
    {
        let c = cs[i];
        assert(digits[i - start] == c);
        assert(digits.take(i - start + 1).drop_last() =~= digits.take(i - start));
        if c < '0' || c > '9' {
            assert(!('0' <= digits[i - start] && digits[i - start] <= '9'));
            return None;
        }
        let d: u64 = (c as u32 - '0' as u32) as u64;
        let next = match value.checked_mul(10) {
            Some(v) => v.checked_add(d),
            None => None,
        };
        match next {
            Some(v) => {
                value = v;
            },
            None => {
                proof {
                    // the value so far already exceeds 64 bits, so the parse
                    // fails whether or not the rest are digits
                    if all_decimal_digits(digits) {
                        lemma_decimal_value_grows(digits, i - start + 1);
                    }
                }
                return None;
            },
        }
        i += 1;
    }
    assert(digits.take(i - start) =~= digits);
    Some(value)
}

/// Whether `a` and `b` hold the same characters.
pub fn str_eq(a: &str, b: &str) -> (r: bool)
    ensures
        r == (a@ == b@),
{
    let ca = chars_of(a);
    let cb = chars_of(b);
    if ca.len() != cb.len() {
        return false;
    }
    let mut i: usize = 0;
    while i < ca.len()
        invariant
            ca.len() == cb.len(),
            ca@ == a@,
            cb@ == b@,
            i <= ca.len(),
            forall|j: int| 0 <= j < i ==> ca@[j] == cb@[j],
        decreases ca.len() - i,
    {
        if ca[i] != cb[i] {
            return false;
        }
        i += 1;
    }
    assert(ca@ =~= cb@);
    true
}

/// The index of the first occurrence of `needle` in `haystack`.
pub open spec fn first_index_of(haystack: Seq<u8>, needle: u8) -> Option<usize>
    decreases haystack.len(),
{
    if haystack.len() == 0 {
        None
    } else if haystack[0] == needle {
        Some(0usize)
    } else {
        match first_index_of(haystack.drop_first(), needle) {
            Some(i) => Some((i + 1) as usize),
            None => None,
        }
    }
}

/// `memchr::memchr` returns the index of the first occurrence of `needle` in
/// `haystack`, or `None` when there is none.
pub assume_specification[ memchr::memchr ](needle: u8, haystack: &[u8]) -> (r: Option<usize>)
    ensures
        r == first_index_of(haystack@, needle),
;

proof fn lemma_first_index_of(haystack: Seq<u8>, needle: u8)
    requires
        haystack.len() <= usize::MAX,
    ensures
        match first_index_of(haystack, needle) {
            Some(i) => i < haystack.len() && haystack[i as int] == needle && forall|j: int|
                0 <= j < i ==> haystack[j] != needle,
            None => forall|j: int| 0 <= j < haystack.len() ==> haystack[j] != needle,
        },
    decreases haystack.len(),
{
    if haystack.len() > 0 && haystack[0] != needle {
        lemma_first_index_of(haystack.drop_first(), needle);
        match first_index_of(haystack.drop_first(), needle) {
            Some(i) => {
                assert forall|j: int| 0 <= j < i + 1 implies haystack[j] != needle by {
                    if j > 0 {
                        assert(haystack[j] == haystack.drop_first()[j - 1]);
                    }
                }
            },
            None => {
                assert forall|j: int| 0 <= j < haystack.len() implies haystack[j] != needle by {
                    if j > 0 {
                        assert(haystack[j] == haystack.drop_first()[j - 1]);
                    }
                }
            },
        }
    }
}

/// The text before and after the first occurrence of the ASCII byte
/// `needle` in the UTF-8 encoding of `s`.
pub open spec fn split_at_first_byte(s: Seq<char>, needle: u8) -> Option<(Seq<char>, Seq<char>)> {
    let b = encode_utf8(s);
    match first_index_of(b, needle) {
        Some(i) => Some(
            (
                decode_utf8(b.subrange(0, i as int)),
                decode_utf8(b.subrange(i + 1, b.len() as int)),
            ),
        ),
        None => None,
    }
}

/// Splits `s` around the first occurrence of the ASCII byte `needle`.
pub fn split_once_byte(s: &str, needle: u8) -> (r: Option<(&str, &str)>)
    requires
        needle < 128,
    ensures
        match r {
            Some((a, b)) => split_at_first_byte(s@, needle) == Some((a@, b@)),
            None => split_at_first_byte(s@, needle) is None,
        },
{
    let bytes = s.as_bytes();
    match memchr::memchr(needle, bytes) {
        Some(i) => {
            proof {
                broadcast use encode_utf8_valid_utf8, is_char_boundary_iff_not_is_continuation_byte;

                assert(bytes@.len() == bytes.len());
                lemma_first_index_of(bytes@, needle);
                assert(!is_continuation_byte(bytes@[i as int]));
                assert(is_char_boundary(bytes@, i as int));
            }
            let (before, rest) = s.split_at(i);
            proof {
                broadcast use encode_utf8_valid_utf8;

                let rb = rest.spec_bytes();
                assert(rb[0] == needle);
                assert(valid_utf8(rb));
                reveal_with_fuel(is_char_boundary, 2);
                assert(is_char_boundary(rb, 1));
            }
            let (_, after) = rest.split_at(1);
            proof {
                broadcast use encode_utf8_decode_utf8;

                assert(before@ == decode_utf8(encode_utf8(before@)));
                assert(after@ == decode_utf8(encode_utf8(after@)));
                assert(after.spec_bytes() =~= bytes@.subrange(i + 1, bytes@.len() as int));
            }
            Some((before, after))
        },
        None => None,
    }
}

/// Whether `n` is a non-empty run of lowercase ASCII letters and `_`.
pub open spec fn is_snake_name(n: Seq<char>) -> bool {
    n.len() > 0 && forall|i: int| 0 <= i < n.len() ==> ('a' <= #[trigger] n[i] <= 'z' || n[i] == '_')
}

/// A snake_case name is left as it is by trimming, by ASCII lowercasing and
/// by reading `-` as `_`.
pub proof fn lemma_snake_name_is_normal(n: Seq<char>)
    requires
        is_snake_name(n),
    ensures
        trim_chars(n) == n,
        is_ascii_chars(n),
        ascii_lowercase_chars(n) == n,
        replace_char_chars(n, '-', '_') == n,
{
    assert(!is_unicode_whitespace(n[0]));
    assert(trim_start_chars(n) == n);
    assert(n.last() == n[n.len() - 1]);
    assert(trim_end_chars(n) == n);
    assert(ascii_lowercase_chars(n) =~= n);
    assert(replace_char_chars(n, '-', '_') =~= n);
}

/// `s` with every `from` replaced by `to`.
pub open spec fn replace_char_chars(s: Seq<char>, from: char, to: char) -> Seq<char> {
    s.map_values(|c: char| if c == from { to } else { c })
}

/// `s` with every `from` replaced by `to`.
pub fn replace_char(s: &str, from: char, to: char) -> (r: String)
    ensures
        r@ == replace_char_chars(s@, from, to),
{
    let cs = chars_of(s);
    let mut r = String::new();
    let mut i: usize = 0;
    while i < cs.len()
        invariant
            cs@ == s@,
            i <= cs.len(),
            r@ == replace_char_chars(s@.take(i as int), from, to),
        decreases cs.len() - i,
    {
        let c = cs[i];
        push_char(&mut r, if c == from { to } else { c });
        proof {
            assert(replace_char_chars(s@.take(i + 1), from, to) =~= replace_char_chars(
                s@.take(i as int),
                from,
                to,
            ).push(if c == from { to } else { c }));
        }
        i += 1;
    }
    proof {
        assert(s@.take(cs.len() as int) =~= s@);
    }
    r
}
/// Whether `s` begins with `p`.
pub open spec fn has_prefix(s: Seq<char>, p: Seq<char>) -> bool {
    p.len() <= s.len() && s.take(p.len() as int) == p
}

/// Whether `cs[from..to]` begins with the characters of `prefix`.
pub fn range_has_prefix(cs: &Vec<char>, from: usize, to: usize, prefix: &str) -> (r: bool)
    requires
        from <= to <= cs.len(),
    ensures
        r == has_prefix(cs@.subrange(from as int, to as int), prefix@),
{
    let ghost s = cs@.subrange(from as int, to as int);
    let pc = chars_of(prefix);
    if pc.len() > to - from {
        return false;
    }
    let mut i: usize = 0;
    while i < pc.len()
        invariant
            from <= to <= cs.len(),
            pc@ == prefix@,
            pc.len() <= to - from,
            s == cs@.subrange(from as int, to as int),
            i <= pc.len(),
            forall|j: int| 0 <= j < i ==> #[trigger] s[j] == pc@[j],
        decreases pc.len() - i,
    {
        assert(s[i as int] == cs@[from + i]);
        if cs[from + i] != pc[i] {
            assert(s.take(pc.len() as int)[i as int] != prefix@[i as int]);
            return false;
        }
        i += 1;
    }
    assert(s.take(pc.len() as int) =~= prefix@);
    true
}

/// The position of the first `c` in `s`.
pub open spec fn first_char_index(s: Seq<char>, c: char) -> Option<int>
    decreases s.len(),
{
    if s.len() == 0 {
        None
    } else if s[0] == c {
        Some(0)
    } else {
        match first_char_index(s.drop_first(), c) {
            Some(i) => Some(i + 1),
            None => None,
        }
    }
}

/// The first `c` found by scanning: `k` is its position when `c` is there,
/// or the length when it is not.
pub proof fn lemma_first_char_index(s: Seq<char>, c: char, k: int)
    requires
        0 <= k <= s.len(),
        forall|j: int| 0 <= j < k ==> #[trigger] s[j] != c,
        k < s.len() ==> s[k] == c,
    ensures
        first_char_index(s, c) == (if k < s.len() {
            Some(k)
        } else {
            None::<int>
        }),
    decreases s.len(),
{
    if s.len() > 0 && k > 0 {
        assert forall|j: int| 0 <= j < k - 1 implies #[trigger] s.drop_first()[j] != c by {
            assert(s.drop_first()[j] == s[j + 1]);
        }
        lemma_first_char_index(s.drop_first(), c, k - 1);
    }
}

/// The bounds of a found position.
pub proof fn lemma_first_char_index_bounds(s: Seq<char>, c: char)
    ensures
        first_char_index(s, c) matches Some(i) ==> 0 <= i < s.len() && s[i] == c,
    decreases s.len(),
{
    if s.len() > 0 && s[0] != c {
        lemma_first_char_index_bounds(s.drop_first(), c);
    }
}

/// A line without the carriage return that ended it.
pub open spec fn without_cr(line: Seq<char>) -> Seq<char> {
    if line.len() > 0 && line.last() == '\r' {
        line.drop_last()
    } else {
        line
    }
}

/// The lines of `s` as `str::lines` gives them: split at `\n`, a `\r` before
/// the `\n` dropped, and no empty line after a final `\n`.
pub open spec fn text_lines(s: Seq<char>) -> Seq<Seq<char>>
    decreases s.len(),
{
    if s.len() == 0 {
        Seq::empty()
    } else {
        match first_char_index(s, '\n') {
            Some(i) => {
                proof {
                    lemma_first_char_index_bounds(s, '\n');
                }
                seq![without_cr(s.take(i))] + text_lines(s.skip(i + 1))
            },
            None => seq![s],
        }
    }
}

pub proof fn lemma_encode_utf8_concat(a: Seq<char>, b: Seq<char>)
    ensures
        encode_utf8(a + b) == encode_utf8(a) + encode_utf8(b),
    decreases a.len(),
{
    if a.len() == 0 {
        assert(a + b =~= b);
    } else {
        lemma_encode_utf8_concat(a.drop_first(), b);
        assert((a + b).drop_first() =~= a.drop_first() + b);
        assert((a + b)[0] == a[0]);
    }
}

proof fn lemma_encode_scalar_avoids(x: char, c: char)
    requires
        (c as u32) < 128,
        x != c,
    ensures
        forall|j: int|
            0 <= j < encode_scalar(x as u32).len() ==> #[trigger] encode_scalar(x as u32)[j] != c as u8,
{
    let v = x as u32;
    let w = c as u32;
    assert(w < 128 ==> (w as u8) as u32 == w) by (bit_vector);
    if has_width_1_encoding(v) {
        assert(v <= 0x7F ==> ((v & 0x7F) as u8) as u32 == v) by (bit_vector);
    } else {
        assert((0xC0u8 | ((v >> 6) & 0x1F) as u8) >= 0x80u8) by (bit_vector);
        assert((0xE0u8 | ((v >> 12) & 0x0F) as u8) >= 0x80u8) by (bit_vector);
        assert((0xF0u8 | ((v >> 18) & 0x7) as u8) >= 0x80u8) by (bit_vector);
        assert((0x80u8 | (v & 0x3F) as u8) >= 0x80u8) by (bit_vector);
        assert((0x80u8 | ((v >> 6) & 0x3F) as u8) >= 0x80u8) by (bit_vector);
        assert((0x80u8 | ((v >> 12) & 0x3F) as u8) >= 0x80u8) by (bit_vector);
    }
}

proof fn lemma_encode_utf8_avoids(a: Seq<char>, c: char)
    requires
        (c as u32) < 128,
        forall|i: int| 0 <= i < a.len() ==> #[trigger] a[i] != c,
    ensures
        forall|j: int| 0 <= j < encode_utf8(a).len() ==> #[trigger] encode_utf8(a)[j] != c as u8,
    decreases a.len(),
{
    if a.len() > 0 {
        let e = encode_scalar(a[0] as u32);
        let rest = a.drop_first();
        assert forall|i: int| 0 <= i < rest.len() implies #[trigger] rest[i] != c by {
            assert(rest[i] == a[i + 1]);
        }
        lemma_encode_utf8_avoids(rest, c);
        lemma_encode_scalar_avoids(a[0], c);
        assert forall|j: int| 0 <= j < encode_utf8(a).len() implies #[trigger] encode_utf8(a)[j]
            != c as u8 by {
            if j < e.len() {
                assert(encode_utf8(a)[j] == e[j]);
            } else {
                assert(encode_utf8(a)[j] == encode_utf8(rest)[j - e.len()]);
            }
        }
    }
}

/// For an ASCII character, splitting at its first byte in the UTF-8 encoding
/// is splitting at its first occurrence among the characters.
pub proof fn lemma_split_at_ascii(s: Seq<char>, c: char)
    requires
        (c as u32) < 128,
        encode_utf8(s).len() <= usize::MAX,
    ensures
        split_at_first_byte(s, c as u8) == (match first_char_index(s, c) {
            Some(k) => Some((s.take(k), s.skip(k + 1))),
            None => None::<(Seq<char>, Seq<char>)>,
        }),
{
    broadcast use encode_utf8_decode_utf8;

    let b = encode_utf8(s);
    let n = c as u8;
    let w = c as u32;
    assert(w < 128 ==> (w as u8) as u32 == w) by (bit_vector);
    assert(n == w as u8);
    lemma_first_char_index_bounds(s, c);
    lemma_first_index_of(b, n);
    match first_char_index(s, c) {
        Some(k) => {
            let front = s.take(k);
            let back = s.skip(k + 1);
            lemma_first_char_index_scan(s, c);
            assert(s =~= front + (seq![c] + back));
            lemma_encode_utf8_concat(front, seq![c] + back);
            lemma_encode_utf8_concat(seq![c], back);
            assert(seq![c].drop_first() =~= Seq::<char>::empty());
            assert(encode_utf8(seq![c]) =~= seq![n]) by {
                assert(w < 128 ==> (w & 0x7F) as u8 == w as u8) by (bit_vector);
                let one = seq![c];
                assert(one[0] == c);
                assert(one.drop_first() =~= Seq::<char>::empty());
                assert(encode_utf8(one.drop_first()) =~= Seq::<u8>::empty());
                assert(encode_scalar(w) =~= seq![n]);
                assert(encode_utf8(one) == encode_scalar(w) + encode_utf8(one.drop_first()));
            }
            let p = encode_utf8(front);
            assert(b =~= p + (seq![n] + encode_utf8(back)));
            lemma_encode_utf8_avoids(front, c);
            assert(b[p.len() as int] == n);
            match first_index_of(b, n) {
                Some(i) => {
                    if (i as int) < p.len() {
                        assert(b[i as int] == p[i as int]);
                    }
                    if (i as int) > p.len() {
                        assert(b[p.len() as int] != n);
                    }
                    assert(i as int == p.len());
                    assert(b.subrange(0, i as int) =~= p);
                    assert(b.subrange(i + 1, b.len() as int) =~= encode_utf8(back));
                },
                None => {
                    assert(b[p.len() as int] != n);
                },
            }
        },
        None => {
            lemma_first_char_index_scan(s, c);
            lemma_encode_utf8_avoids(s, c);
            if let Some(i) = first_index_of(b, n) {
                assert(b[i as int] == n);
            }
        },
    }
}

/// What a found position says of the characters before it.
pub proof fn lemma_first_char_index_scan(s: Seq<char>, c: char)
    ensures
        match first_char_index(s, c) {
            Some(k) => 0 <= k < s.len() && s[k] == c && forall|j: int| 0 <= j < k ==> #[trigger] s[j] != c,
            None => forall|j: int| 0 <= j < s.len() ==> #[trigger] s[j] != c,
        },
    decreases s.len(),
{
    if s.len() > 0 && s[0] != c {
        let t = s.drop_first();
        lemma_first_char_index_scan(t, c);
        match first_char_index(t, c) {
            Some(k) => {
                assert(s[k + 1] == t[k]);
                assert forall|j: int| 0 <= j < k + 1 implies #[trigger] s[j] != c by {
                    if j > 0 {
                        assert(s[j] == t[j - 1]);
                    }
                }
            },
            None => {
                assert forall|j: int| 0 <= j < s.len() implies #[trigger] s[j] != c by {
                    if j > 0 {
                        assert(s[j] == t[j - 1]);
                    }
                }
            },
        }
    }
}

/// Decimal reading: one digit reads as its value; a digit appended to a
/// number that reads multiplies it by ten and adds the digit, as long as the
/// result fits in 64 bits; a non-digit appended stops the text reading; one
/// leading `+` is allowed and changes nothing; empty text does not read.
pub proof fn law_decimal_parsing(s: Seq<char>, c: char)
    ensures
        '0' <= c <= '9' ==> parse_u64_chars(seq![c]) == Some((c as int - 48) as u64),
        '0' <= c <= '9' && parse_u64_chars(s) is Some && parse_u64_chars(s).unwrap() * 10 + (c as int
            - 48) <= u64::MAX ==> parse_u64_chars(s.push(c)) == Some(
            (parse_u64_chars(s).unwrap() * 10 + (c as int - 48)) as u64,
        ),
        !('0' <= c <= '9') ==> parse_u64_chars(s.push(c)) is None,
        (s.len() == 0 || s[0] != '+') ==> parse_u64_chars(seq!['+'] + s) == parse_u64_chars(s),
        parse_u64_chars(Seq::<char>::empty()) is None,
{
    assert((seq!['+'] + s).drop_first() =~= s);
    let one = seq![c];
    assert(one.drop_last() =~= Seq::<char>::empty());
    assert(one[0] == c && one.last() == c);
    if '0' <= c <= '9' {
        assert(all_decimal_digits(one));
        assert(decimal_value(one.drop_last()) == 0);
        assert(decimal_value(one) == (c as nat - '0' as nat) as nat);
    }
    let t = s.push(c);
    if s.len() > 0 {
        assert(t[0] == s[0]);
        assert(t.drop_first() =~= s.drop_first().push(c));
    }
    let digits = if s.len() > 0 && s[0] == '+' {
        s.drop_first()
    } else {
        s
    };
    let tdigits = digits.push(c);
    assert(tdigits.drop_last() =~= digits);
    assert(tdigits.last() == c);
    if s.len() == 0 {
        assert(t =~= one);
    }
    if !('0' <= c <= '9') {
        assert(tdigits[tdigits.len() - 1] == c);
        if s.len() == 0 && c == '+' {
            assert(t.drop_first() =~= Seq::<char>::empty());
        }
    } else {
        if all_decimal_digits(digits) {
            assert forall|i: int| 0 <= i < tdigits.len() implies '0' <= #[trigger] tdigits[i]
                && tdigits[i] <= '9' by {
                if i < digits.len() {
                    assert(tdigits[i] == digits[i]);
                }
            }
        }
    }
}

/// Text splits into lines at line feeds, a carriage return before the feed
/// dropped: the lines of `a` + line feed + `rest`, where `a` holds no line
/// feed, are `a` (without a trailing carriage return) followed by the lines
/// of `rest`; text without a line feed is one line.
pub proof fn law_text_lines(a: Seq<char>, rest: Seq<char>)
    requires
        !a.contains('\n'),
    ensures
        text_lines(a + seq!['\n'] + rest) == seq![without_cr(a)] + text_lines(rest),
        a.len() > 0 ==> text_lines(a) == seq![a],
        without_cr(a + seq!['\r']) == a,
{
    let s = a + seq!['\n'] + rest;
    assert forall|j: int| 0 <= j < a.len() implies #[trigger] s[j] != '\n' by {
        assert(s[j] == a[j]);
    }
    assert(s[a.len() as int] == '\n');
    lemma_first_char_index(s, '\n', a.len() as int);
    assert(s.take(a.len() as int) =~= a);
    assert(s.skip(a.len() as int + 1) =~= rest);
    assert forall|j: int| 0 <= j < a.len() implies #[trigger] a[j] != '\n' by {}
    lemma_first_char_index(a, '\n', a.len() as int);
    assert((a + seq!['\r']).drop_last() =~= a);
}

/// Trimming drops blanks at both ends and nothing else: blanks added around
/// a text change nothing, and a text that neither starts nor ends with a
/// blank is its own trimmed form.
pub proof fn law_trim(s: Seq<char>, b: char)
    requires
        is_unicode_whitespace(b),
    ensures
        trim_chars(seq![b] + s + seq![b]) == trim_chars(s),
        (s.len() == 0 || (!is_unicode_whitespace(s[0]) && !is_unicode_whitespace(s.last())))
            ==> trim_chars(s) == s,
{
    let t = seq![b] + s + seq![b];
    assert(t[0] == b);
    assert(t.drop_first() =~= s + seq![b]);
    lemma_trim_start_append_blank(s, b);
    lemma_trim_end_append_blank(trim_start_chars(s), b);
    if s.len() > 0 && !is_unicode_whitespace(s[0]) && !is_unicode_whitespace(s.last()) {
        assert(trim_start_chars(s) == s);
        assert(trim_end_chars(s) == s);
    }
}

proof fn lemma_trim_start_append_blank(s: Seq<char>, b: char)
    requires
        is_unicode_whitespace(b),
    ensures
        trim_start_chars(s + seq![b]) == if trim_start_chars(s).len() == 0 {
            Seq::<char>::empty()
        } else {
            trim_start_chars(s) + seq![b]
        },
    decreases s.len(),
{
    let t = s + seq![b];
    if s.len() == 0 {
        assert(t =~= seq![b]);
        assert(t[0] == b);
        assert(t.drop_first() =~= Seq::<char>::empty());
        assert(trim_start_chars(Seq::<char>::empty()) == Seq::<char>::empty());
        assert(trim_start_chars(t) == trim_start_chars(t.drop_first()));
    } else {
        assert(t[0] == s[0]);
        if is_unicode_whitespace(s[0]) {
            assert(t.drop_first() =~= s.drop_first() + seq![b]);
            lemma_trim_start_append_blank(s.drop_first(), b);
        }
    }
}

proof fn lemma_trim_end_append_blank(s: Seq<char>, b: char)
    requires
        is_unicode_whitespace(b),
    ensures
        trim_end_chars(s + seq![b]) == trim_end_chars(s),
        trim_end_chars(Seq::<char>::empty()) == Seq::<char>::empty(),
{
    let t = s + seq![b];
    assert(t.last() == b);
    assert(t.drop_last() =~= s);
}

} // verus!
