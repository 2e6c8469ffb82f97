use vstd::prelude::*;
use crate::record::{PackageRecord, records_view};
use crate::source::{Source, category_name, color};
use crate::text::{to_chars, from_chars};

verus! {

pub open spec fn bold() -> Seq<char> {
    "\x1B[1m"@
}

pub open spec fn reset() -> Seq<char> {
    "\x1B[0m"@
}

pub open spec fn digit(d: nat) -> char {
    if d == 0 { '0' }
    else if d == 1 { '1' }
    else if d == 2 { '2' }
    else if d == 3 { '3' }
    else if d == 4 { '4' }
    else if d == 5 { '5' }
    else if d == 6 { '6' }
    else if d == 7 { '7' }
    else if d == 8 { '8' }
    else { '9' }
}

/// `n` in decimal, without leading zeros.
pub open spec fn decimal(n: nat) -> Seq<char>
    decreases n,
{
    if n < 10 {
        seq![digit(n)]
    } else {
        decimal(n / 10).push(digit(n % 10))
    }
}

/// How a number of packages is written: `1 package`, else `<n> packages`.
pub open spec fn count_text(n: nat) -> Seq<char> {
    if n == 1 {
        "1 package"@
    } else {
        decimal(n) + " packages"@
    }
}

/// One entry of the summary line: the bold source name, then its count.
pub open spec fn summary_entry(s: Source, n: nat) -> Seq<char> {
    bold() + category_name(s) + ":"@ + reset() + " "@ + count_text(n)
}

/// The summary line and the blank line after it.
pub open spec fn summary(a: nat, b: nat, c: nat) -> Seq<char> {
    summary_entry(Source::System, a) + " | "@ + summary_entry(Source::User, b) + " | "@
        + summary_entry(Source::Sandboxed, c) + "\n\n"@
}

/// `n` equal signs.
pub open spec fn rule(n: nat) -> Seq<char> {
    Seq::new(n, |i: int| '=')
}

/// One record: its name bold and in the source's color, its description
/// indented by two spaces, then a blank line.
pub open spec fn block(s: Source, r: (Seq<char>, Seq<char>)) -> Seq<char> {
    bold() + color(s) + r.0 + reset() + "\n"@ + "  "@ + r.1 + "\n\n"@
}

/// The blocks of the first `k` records.
pub open spec fn blocks(s: Source, recs: Seq<(Seq<char>, Seq<char>)>, k: nat) -> Seq<char>
    decreases k,
{
    if k == 0 {
        Seq::empty()
    } else {
        blocks(s, recs, (k - 1) as nat) + block(s, recs[k - 1])
    }
}

/// The header of a source's section: bold `<name> Results:`, then a rule as
/// long as the name and nine more.
pub open spec fn section_head(s: Source) -> Seq<char> {
    bold() + category_name(s) + " Results:"@ + reset() + "\n"@ + rule(category_name(s).len() + 9)
        + "\n"@
}

/// A source's section: nothing where it found nothing.
pub open spec fn section(s: Source, recs: Seq<(Seq<char>, Seq<char>)>) -> Seq<char> {
    if recs.len() == 0 {
        Seq::empty()
    } else {
        section_head(s) + blocks(s, recs, recs.len())
    }
}

/// The report before its tildes are replaced.
pub open spec fn document(
    sys: Seq<(Seq<char>, Seq<char>)>,
    user: Seq<(Seq<char>, Seq<char>)>,
    sandboxed: Seq<(Seq<char>, Seq<char>)>,
) -> Seq<char> {
    summary(sys.len(), user.len(), sandboxed.len()) + section(Source::System, sys) + section(
        Source::User,
        user,
    ) + section(Source::Sandboxed, sandboxed)
}

/// Every `~` replaced by a space.
pub open spec fn scrub(s: Seq<char>) -> Seq<char> {
    s.map_values(|c: char| if c == '~' { ' ' } else { c })
}

/// The report as it is handed to the pager.
pub open spec fn rendered(
    sys: Seq<(Seq<char>, Seq<char>)>,
    user: Seq<(Seq<char>, Seq<char>)>,
    sandboxed: Seq<(Seq<char>, Seq<char>)>,
) -> Seq<char> {
    scrub(document(sys, user, sandboxed))
}

fn append_str(buf: &mut Vec<char>, s: &str)
    ensures
        final(buf)@ == old(buf)@ + s@,
{
    let mut v = to_chars(s);
    buf.append(&mut v);
}

fn digit_exec(d: usize) -> (r: char)
    requires
        d < 10,
    ensures
        r == digit(d as nat),
{
    if d == 0 { '0' }
    else if d == 1 { '1' }
    else if d == 2 { '2' }
    else if d == 3 { '3' }
    else if d == 4 { '4' }
    else if d == 5 { '5' }
    else if d == 6 { '6' }
    else if d == 7 { '7' }
    else if d == 8 { '8' }
    else { '9' }
}

fn push_decimal(buf: &mut Vec<char>, n: usize)
    ensures
        final(buf)@ == old(buf)@ + decimal(n as nat),
    decreases n,
{
    if n < 10 {
        buf.push(digit_exec(n));
        proof {
            assert(final(buf)@ =~= old(buf)@ + decimal(n as nat));
        }
    } else {
        push_decimal(buf, n / 10);
        buf.push(digit_exec(n % 10));
        proof {
            assert(final(buf)@ =~= old(buf)@ + decimal(n as nat));
        }
    }
}

fn push_count(buf: &mut Vec<char>, n: usize)
    ensures
        final(buf)@ == old(buf)@ + count_text(n as nat),
{
    if n == 1 {
        append_str(buf, "1 package");
    } else {
        push_decimal(buf, n);
        append_str(buf, " packages");
        proof {
            assert(final(buf)@ =~= old(buf)@ + count_text(n as nat));
        }
    }
}

/// How a number of packages is written in the summary.
pub fn format_package_count(count: usize) -> (r: String)
    ensures
        r@ == count_text(count as nat),
{
    let mut buf: Vec<char> = Vec::new();
    push_count(&mut buf, count);
    proof {
        assert(buf@ =~= count_text(count as nat));
    }
    from_chars(buf.as_slice())
}

fn push_summary_entry(buf: &mut Vec<char>, s: Source, n: usize)
    ensures
        final(buf)@ == old(buf)@ + summary_entry(s, n as nat),
{
    append_str(buf, "\x1B[1m");
    append_str(buf, s.category_name());
    append_str(buf, ":");
    append_str(buf, "\x1B[0m");
    append_str(buf, " ");
    push_count(buf, n);
    proof {
        assert(final(buf)@ =~= old(buf)@ + summary_entry(s, n as nat));
    }
}

fn push_rule(buf: &mut Vec<char>, n: usize)
    ensures
        final(buf)@ == old(buf)@ + rule(n as nat),
{
    let mut i: usize = 0;
    while i < n
        invariant
            i <= n,
            buf@ == old(buf)@ + rule(i as nat),
        decreases n - i,
    {
        buf.push('=');
        i = i + 1;
        assert(buf@ =~= old(buf)@ + rule(i as nat));
    }
}

fn push_block(buf: &mut Vec<char>, s: Source, r: &PackageRecord)
    ensures
        final(buf)@ == old(buf)@ + block(s, r@),
{
    append_str(buf, "\x1B[1m");
    append_str(buf, s.color());
    append_str(buf, r.name.as_str());
    append_str(buf, "\x1B[0m");
    append_str(buf, "\n");
    append_str(buf, "  ");
    append_str(buf, r.description.as_str());
    append_str(buf, "\n\n");
    proof {
        assert(final(buf)@ =~= old(buf)@ + block(s, r@));
    }
}

/// Appends the section of source `s` with records `recs`: nothing when
/// `recs` is empty.
pub fn push_section(buf: &mut Vec<char>, s: Source, recs: &Vec<PackageRecord>)
    ensures
        final(buf)@ == old(buf)@ + section(s, records_view(recs@)),
{
    let ghost rv = records_view(recs@);
    if recs.len() == 0 {
        proof {
            assert(final(buf)@ =~= old(buf)@ + section(s, rv));
        }
        return;
    }
    let name = s.category_name();
    append_str(buf, "\x1B[1m");
    append_str(buf, name);
    append_str(buf, " Results:");
    append_str(buf, "\x1B[0m");
    append_str(buf, "\n");
    let name_len = to_chars(name).len();
    push_rule(buf, name_len + 9);
    append_str(buf, "\n");
    proof {
        assert(buf@ =~= old(buf)@ + section_head(s));
    }
    let ghost head = buf@;
    let mut k: usize = 0;
    while k < recs.len()
        invariant
            k <= recs@.len(),
            rv == records_view(recs@),
            buf@ == head + blocks(s, rv, k as nat),
        decreases recs@.len() - k,
    {
        push_block(buf, s, &recs[k]);
        k = k + 1;
        proof {
            assert(rv[k - 1] == recs@[k - 1]@);
            assert(buf@ =~= head + blocks(s, rv, k as nat));
        }
    }
    proof {
        assert(final(buf)@ =~= old(buf)@ + section(s, rv));
    }
}

/// The whole report for the three lists, ready for the pager: summary line,
/// then the section of each source that found something, with every `~`
/// replaced by a space.
pub fn render_report(
    sys: &Vec<PackageRecord>,
    user: &Vec<PackageRecord>,
    sandboxed: &Vec<PackageRecord>,
) -> (r: String)
    ensures
        r@ == rendered(records_view(sys@), records_view(user@), records_view(sandboxed@)),
{
    let mut buf: Vec<char> = Vec::new();
    push_summary_entry(&mut buf, Source::System, sys.len());
    append_str(&mut buf, " | ");
    push_summary_entry(&mut buf, Source::User, user.len());
    append_str(&mut buf, " | ");
    push_summary_entry(&mut buf, Source::Sandboxed, sandboxed.len());
    append_str(&mut buf, "\n\n");
    push_section(&mut buf, Source::System, sys);
    push_section(&mut buf, Source::User, user);
    push_section(&mut buf, Source::Sandboxed, sandboxed);
    let ghost doc = document(records_view(sys@), records_view(user@), records_view(sandboxed@));
    proof {
        assert(buf@ =~= doc);
    }
    let mut i: usize = 0;
    while i < buf.len()
        invariant
            i <= buf@.len(),
            buf@.len() == doc.len(),
            forall|k: int| 0 <= k < i ==> buf@[k] == scrub(doc)[k],
            forall|k: int| i <= k < buf@.len() ==> buf@[k] == doc[k],
        decreases buf@.len() - i,
    {
        if buf[i] == '~' {
            buf.set(i, ' ');
        }
        i = i + 1;
    }
    proof {
        assert(buf@ =~= scrub(doc));
    }
    from_chars(buf.as_slice())
}

/// No `~` is left in the report handed to the pager.
pub proof fn rendered_has_no_tilde(
    sys: Seq<(Seq<char>, Seq<char>)>,
    user: Seq<(Seq<char>, Seq<char>)>,
    sandboxed: Seq<(Seq<char>, Seq<char>)>,
)
    ensures
        forall|i: int| 0 <= i < rendered(sys, user, sandboxed).len() ==> #[trigger] rendered(sys, user, sandboxed)[i] != '~',
{
}

/// A source's section is there exactly when it found something; it then
/// opens with its header, whose rule is `=` repeated nine more times than the
/// source's name is long.
pub proof fn section_present_iff_found(s: Source, recs: Seq<(Seq<char>, Seq<char>)>)
    ensures
        section(s, recs).len() > 0 <==> recs.len() > 0,
        recs.len() > 0 ==> section(s, recs).subrange(0, section_head(s).len() as int) == section_head(s),
        rule(category_name(s).len() + 9).len() == category_name(s).len() + 9,
        forall|i: int| 0 <= i < category_name(s).len() + 9 ==> #[trigger] rule(category_name(s).len() + 9)[i] == '=',
{
    if recs.len() > 0 {
        reveal_strlit("\x1B[1m");
        assert(section(s, recs).subrange(0, section_head(s).len() as int) =~= section_head(s));
    }
}

} // verus!
