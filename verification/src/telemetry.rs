//! Process memory metrics read from a Linux `status` report, and a
//! monotonic benchmark timer.
use vstd::prelude::*;
use std::time::{Duration, Instant};
use crate::text::{
    chars_of, first_char_index, has_prefix, is_unicode_whitespace, lemma_first_char_index, parse_u64_chars, trim_end_chars, trim_start_chars,
    parse_u64_range, range_has_prefix, text_lines, trim_chars, trim_range, without_cr,
};

verus! {

/// Resident and virtual memory of a process, in kilobytes.
#[derive(Debug, Clone, Copy, PartialEq, Eq, Structural)]
pub struct ProcessMetrics {
    pub rss_kb: u64,
    pub virtual_kb: u64,
}

impl Default for ProcessMetrics {
    /// Both amounts zero.
    fn default() -> (m: ProcessMetrics)
        ensures
            m == (ProcessMetrics { rss_kb: 0, virtual_kb: 0 }),
    {
        ProcessMetrics { rss_kb: 0, virtual_kb: 0 }
    }
}

/// The amount in a status value such as `  123456 kB`: the trimmed text must
/// end in `kB`, and what comes before it, trimmed again, must parse as a `u64`.
pub open spec fn kb_amount(value: Seq<char>) -> Option<u64> {
    let t = trim_chars(value);
    if t.len() >= 2 && t[t.len() - 2] == 'k' && t[t.len() - 1] == 'B' {
        parse_u64_chars(trim_chars(t.take(t.len() - 2)))
    } else {
        None
    }
}

/// The metrics after one line of a status report: a `VmRSS:` line sets the
/// resident size and a `VmSize:` line the virtual size, when the amount reads;
/// any other line changes nothing.
pub open spec fn with_status_line(m: ProcessMetrics, line: Seq<char>) -> ProcessMetrics {
    if has_prefix(line, "VmRSS:"@) {
        match kb_amount(line.skip("VmRSS:"@.len() as int)) {
            Some(kb) => ProcessMetrics { rss_kb: kb, ..m },
            None => m,
        }
    } else if has_prefix(line, "VmSize:"@) {
        match kb_amount(line.skip("VmSize:"@.len() as int)) {
            Some(kb) => ProcessMetrics { virtual_kb: kb, ..m },
            None => m,
        }
    } else {
        m
    }
}

/// The metrics after the lines, in order, so a later line wins.
pub open spec fn with_status_lines(m: ProcessMetrics, lines: Seq<Seq<char>>) -> ProcessMetrics
    decreases lines.len(),
{
    if lines.len() == 0 {
        m
    } else {
        with_status_lines(with_status_line(m, lines[0]), lines.drop_first())
    }
}

/// The metrics a status report gives, starting from zero.
pub open spec fn status_metrics(status: Seq<char>) -> ProcessMetrics {
    with_status_lines(ProcessMetrics { rss_kb: 0, virtual_kb: 0 }, text_lines(status))
}

/// The amount in `cs[from..to]` read as `kb_amount` does.
fn kb_amount_in(cs: &Vec<char>, from: usize, to: usize) -> (r: Option<u64>)
    requires
        from <= to <= cs.len(),
    ensures
        r == kb_amount(cs@.subrange(from as int, to as int)),
{
    let (a, b) = trim_range(cs, from, to);
    let ghost t = cs@.subrange(a as int, b as int);
    if b - a >= 2 && cs[b - 2] == 'k' && cs[b - 1] == 'B' {
        assert(t[t.len() - 2] == cs@[b - 2] && t[t.len() - 1] == cs@[b - 1]);
        let (c, d) = trim_range(cs, a, b - 2);
        assert(cs@.subrange(a as int, b - 2) =~= t.take(t.len() - 2));
        parse_u64_range(cs, c, d)
    } else {
        proof {
            if t.len() >= 2 {
                assert(t[t.len() - 2] == cs@[b - 2] && t[t.len() - 1] == cs@[b - 1]);
            }
        }
        None
    }
}

impl ProcessMetrics {
    /// Reads the resident (`VmRSS:`) and virtual (`VmSize:`) sizes from the
    /// text of a Linux `/proc/<pid>/status` report; an amount that is missing
    /// or does not read as `<number> kB` stays zero.
    pub fn from_status(status: &str) -> (m: ProcessMetrics)
        ensures
            m == status_metrics(status@),
    {
        let cs = chars_of(status);
        let n = cs.len();
        let mut m = ProcessMetrics::default();
        let mut start: usize = 0;
        proof {
            assert(status@.skip(0) =~= status@);
        }
        while start < n
            invariant
                cs@ == status@,
                n == cs.len(),
                start <= n,
                status_metrics(status@) == with_status_lines(m, text_lines(status@.skip(start as int))),
            decreases n - start,
        {
            let ghost rest = status@.skip(start as int);
            let mut end = start;
            while end < n && cs[end] != '\n'
                invariant
                    cs@ == status@,
                    n == cs.len(),
                    start <= end <= n,
                    forall|j: int| start <= j < end ==> #[trigger] cs@[j] != '\n',
                decreases n - end,
            {
                end += 1;
            }
            proof {
                assert forall|j: int| 0 <= j < end - start implies #[trigger] rest[j] != '\n' by {
                    assert(rest[j] == cs@[start + j]);
                }
                if end < n {
                    assert(rest[end - start] == cs@[end as int]);
                }
                lemma_first_char_index(rest, '\n', end - start);
            }
            let line_end = if end < n && end > start && cs[end - 1] == '\r' {
                end - 1
            } else {
                end
            };
            let ghost line = cs@.subrange(start as int, line_end as int);
            proof {
                if end < n {
                    assert(rest.take(end - start) =~= cs@.subrange(start as int, end as int));
                    assert(line =~= without_cr(rest.take(end - start)));
                    assert(rest.skip(end - start + 1) =~= status@.skip(end + 1));
                } else {
                    assert(line =~= rest);
                }
            }
            m = with_line_in(&cs, start, line_end, m);
            if end == n {
                proof {
                    assert(text_lines(rest) == seq![line]);
                    assert(seq![line].drop_first() =~= Seq::<Seq<char>>::empty());
                    assert(status@.skip(n as int) =~= Seq::<char>::empty());
                }
                start = n;
            } else {
                proof {
                    let tail = text_lines(status@.skip(end + 1));
                    assert((seq![line] + tail)[0] == line);
                    assert((seq![line] + tail).drop_first() =~= tail);
                }
                start = end + 1;
            }
        }
        proof {
            assert(status@.skip(start as int) =~= Seq::<char>::empty());
        }
        m
    }
}

/// The metrics after the line `cs[from..to]`, as `with_status_line` says.
fn with_line_in(cs: &Vec<char>, from: usize, to: usize, m: ProcessMetrics) -> (r: ProcessMetrics)
    requires
        from <= to <= cs.len(),
    ensures
        r == with_status_line(m, cs@.subrange(from as int, to as int)),
{
    let ghost line = cs@.subrange(from as int, to as int);
    if range_has_prefix(cs, from, to, "VmRSS:") {
        let p = chars_of("VmRSS:");
        assert(line.skip(p.len() as int) =~= cs@.subrange(from + p.len(), to as int));
        match kb_amount_in(cs, from + p.len(), to) {
            Some(kb) => ProcessMetrics { rss_kb: kb, ..m },
            None => m,
        }
    } else if range_has_prefix(cs, from, to, "VmSize:") {
        let p = chars_of("VmSize:");
        assert(line.skip(p.len() as int) =~= cs@.subrange(from + p.len(), to as int));
        match kb_amount_in(cs, from + p.len(), to) {
            Some(kb) => ProcessMetrics { virtual_kb: kb, ..m },
            None => m,
        }
    } else {
        m
    }
}

#[verifier::external_type_specification]
#[verifier::external_body]
pub struct ExInstant(Instant);

/// Calls `Instant::now`; the reading comes from the clock, so nothing is stated of it.
#[verifier::external_body]
fn instant_now() -> Instant {
    Instant::now()
}

/// Calls `Instant::elapsed`; the time comes from the clock, so nothing is stated of it.
#[verifier::external_body]
fn elapsed_since(start: &Instant) -> Duration {
    start.elapsed()
}

/// Calls `Duration::as_nanos`, the whole number of nanoseconds in `d`;
/// nothing is stated of it, as a `Duration` is opaque here.
#[verifier::external_body]
fn duration_nanos(d: &Duration) -> u128 {
    d.as_nanos()
}

/// A named timer started at a moment of the monotonic clock.
pub struct BenchmarkTimer {
    start: Instant,
    name: &'static str,
}

impl BenchmarkTimer {
    /// The name the timer was started with.
    pub closed spec fn label(&self) -> Seq<char> {
        self.name@
    }

    /// Starts a timer now.
    pub fn start(name: &'static str) -> (t: BenchmarkTimer)
        ensures
            t.label() == name@,
    {
        BenchmarkTimer { start: instant_now(), name }
    }

    /// The name the timer was started with.
    pub fn name(&self) -> (s: &'static str)
        ensures
            s@ == self.label(),
    {
        self.name
    }

    /// Nanoseconds since the timer was started, read from the clock.
    pub fn elapsed_ns(&self) -> u128 {
        let elapsed = elapsed_since(&self.start);
        duration_nanos(&elapsed)
    }
}

/// A `VmRSS:` line sets the resident size and a `VmSize:` line the virtual
/// size to the amount after the colon, leaving the other size alone; a line
/// whose amount does not read changes nothing; and a report's lines apply in
/// order, so reading two parts one after the other is reading them together.
pub proof fn law_status_lines(m: ProcessMetrics, value: Seq<char>, a: Seq<Seq<char>>, b: Seq<Seq<char>>)
    ensures
        kb_amount(value) matches Some(kb) ==> with_status_line(m, "VmRSS:"@ + value) == (ProcessMetrics {
            rss_kb: kb,
            ..m
        }),
        kb_amount(value) matches Some(kb) ==> with_status_line(m, "VmSize:"@ + value) == (ProcessMetrics {
            virtual_kb: kb,
            ..m
        }),
        kb_amount(value) is None ==> with_status_line(m, "VmRSS:"@ + value) == m && with_status_line(
            m,
            "VmSize:"@ + value,
        ) == m,
        with_status_lines(m, a + b) == with_status_lines(with_status_lines(m, a), b),
{
    reveal_strlit("VmRSS:");
    reveal_strlit("VmSize:");
    let r = "VmRSS:"@ + value;
    let z = "VmSize:"@ + value;
    assert(r.take(6) =~= "VmRSS:"@);
    assert(r.skip(6) =~= value);
    assert(z.take(7) =~= "VmSize:"@);
    assert(z.skip(7) =~= value);
    assert(z.take(6)[2] != "VmRSS:"@[2]);
    lemma_status_lines_append(m, a, b);
}

proof fn lemma_status_lines_append(m: ProcessMetrics, a: Seq<Seq<char>>, b: Seq<Seq<char>>)
    ensures
        with_status_lines(m, a + b) == with_status_lines(with_status_lines(m, a), b),
    decreases a.len(),
{
    if a.len() > 0 {
        assert((a + b).drop_first() =~= a.drop_first() + b);
        assert((a + b)[0] == a[0]);
        lemma_status_lines_append(with_status_line(m, a[0]), a.drop_first(), b);
    } else {
        assert(a + b =~= b);
    }
}

proof fn lemma_trim_start_concat(n: Seq<char>, x: Seq<char>)
    requires
        x.len() > 0,
        !is_unicode_whitespace(x[0]),
    ensures
        trim_start_chars(n + x) == trim_start_chars(n) + x,
        trim_start_chars(trim_start_chars(n)) == trim_start_chars(n),
    decreases n.len(),
{
    if n.len() > 0 {
        let s = n + x;
        assert(s[0] == n[0]);
        if is_unicode_whitespace(n[0]) {
            assert(s.drop_first() =~= n.drop_first() + x);
            lemma_trim_start_concat(n.drop_first(), x);
        }
    } else {
        assert(n + x =~= x);
        assert(x[0] == x[0]);
    }
}

/// A status amount is the number before `kB`, blanks around it ignored:
/// `  123 kB` reads as 123.
pub proof fn law_kb_amounts(n: Seq<char>)
    ensures
        kb_amount(n + seq!['k', 'B']) == parse_u64_chars(trim_chars(n)),
{
    let kb = seq!['k', 'B'];
    lemma_trim_start_concat(n, kb);
    let t0 = trim_start_chars(n) + kb;
    assert(t0.last() == 'B');
    assert(trim_end_chars(t0) == t0);
    assert(t0[t0.len() - 2] == 'k');
    assert(t0.take(t0.len() - 2) =~= trim_start_chars(n));
}

} // verus!
