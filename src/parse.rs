use vstd::prelude::*;
use crate::record::{PackageRecord, records_view, all_well_formed};
use crate::text::{
    to_chars, from_chars, trimmed, trim_bounds, index_of, lemma_index_of, find_char, slice_of,
    split_lines, lines_of, views,
};

verus! {

/// What stands in for a description that a source left blank.
pub open spec fn no_description() -> Seq<char> {
    "No description."@
}

/// A description line as it is kept: trimmed, or the placeholder when blank.
pub open spec fn describe(d: Seq<char>) -> Seq<char> {
    if trimmed(d).len() == 0 {
        no_description()
    } else {
        trimmed(d)
    }
}

/// The name in a `repo/name version...` header: after the first `/`, before the
/// next space. None where either split fails or the name is empty.
pub open spec fn header_name(h: Seq<char>) -> Option<Seq<char>> {
    let a = index_of(h, '/');
    if a < 0 {
        None
    } else {
        let rest = h.subrange(a + 1, h.len() as int);
        let b = index_of(rest, ' ');
        if b <= 0 {
            None
        } else {
            Some(rest.subrange(0, b))
        }
    }
}

pub open spec fn opt_seq<T>(o: Option<T>) -> Seq<T> {
    match o {
        Some(x) => seq![x],
        None => Seq::empty(),
    }
}

/// The record of a header line and its description line, if the header splits.
pub open spec fn pair_record(h: Seq<char>, d: Seq<char>) -> Option<(Seq<char>, Seq<char>)> {
    match header_name(h) {
        Some(n) => Some((n, describe(d))),
        None => None,
    }
}

/// The lines of `ls` that are not empty, in order.
pub open spec fn nonempty_lines(ls: Seq<Seq<char>>) -> Seq<Seq<char>>
    decreases ls.len(),
{
    if ls.len() == 0 {
        ls
    } else if ls.last().len() == 0 {
        nonempty_lines(ls.drop_last())
    } else {
        nonempty_lines(ls.drop_last()).push(ls.last())
    }
}

/// The records of the first `k` (header, description) pairs of `ls`.
pub open spec fn pair_records(ls: Seq<Seq<char>>, k: nat) -> Seq<(Seq<char>, Seq<char>)>
    decreases k,
{
    if k == 0 {
        Seq::empty()
    } else {
        pair_records(ls, (k - 1) as nat) + opt_seq(
            pair_record(ls[2 * k - 2], ls[2 * k - 1]),
        )
    }
}

/// The records in the output of a `-Ss` search: non-empty lines taken two by
/// two, a lone last line ignored.
pub open spec fn parse_pairs(text: Seq<char>) -> Seq<(Seq<char>, Seq<char>)> {
    let ls = nonempty_lines(lines_of(text));
    pair_records(ls, ls.len() / 2)
}

/// The kept form of a description.
pub fn describe_exec(d: &Vec<char>) -> (r: String)
    ensures
        r@ == describe(d@),
{
    let (a, b) = trim_bounds(d);
    if a == b {
        "No description.".to_owned()
    } else {
        let core = slice_of(d, a, b);
        from_chars(core.as_slice())
    }
}

/// The name in a package header line.
pub fn header_name_exec(h: &Vec<char>) -> (r: Option<Vec<char>>)
    ensures
        match r {
            Some(n) => header_name(h@) == Some(n@),
            None => header_name(h@) is None,
        },
{
    match find_char(h, '/') {
        None => None,
        Some(a) => {
            let hl = h.len();
            proof {
                lemma_index_of(h@, '/');
            }
            let rest = slice_of(h, a + 1, hl);
            match find_char(&rest, ' ') {
                None => None,
                Some(b) => {
                    if b == 0 {
                        None
                    } else {
                        proof {
                            lemma_index_of(rest@, ' ');
                        }
                        Some(slice_of(&rest, 0, b))
                    }
                },
            }
        },
    }
}

/// Keeps the non-empty lines.
pub fn keep_nonempty(ls: &Vec<Vec<char>>, from: usize) -> (r: Vec<Vec<char>>)
    requires
        from <= ls@.len(),
    ensures
        views(r@) == nonempty_lines(views(ls@).subrange(from as int, ls@.len() as int)),
{
    let mut r: Vec<Vec<char>> = Vec::new();
    let mut i: usize = from;
    proof {
        assert(views(ls@).subrange(from as int, from as int) =~= Seq::<Seq<char>>::empty());
        assert(views(r@) =~= Seq::<Seq<char>>::empty());
    }
    while i < ls.len()
        invariant
            from <= i <= ls@.len(),
            views(r@) == nonempty_lines(views(ls@).subrange(from as int, i as int)),
        decreases ls@.len() - i,
    {
        let ghost before = r@;
        proof {
            assert(views(ls@).subrange(from as int, i + 1).drop_last() =~= views(ls@).subrange(
                from as int,
                i as int,
            ));
            assert(views(ls@).subrange(from as int, i + 1).last() == ls@[i as int]@);
        }
        if ls[i].len() > 0 {
            r.push(ls[i].clone());
            proof {
                assert(views(r@) =~= views(before).push(ls@[i as int]@));
            }
        }
        i = i + 1;
    }
    r
}

/// Parses the output of `pacman -Ss` or `yay -Ss`: each header line
/// `repo/name version ...` followed by its description line gives one record;
/// pairs whose header does not split are skipped.
pub fn parse_pair_output(text: &str) -> (r: Vec<PackageRecord>)
    ensures
        records_view(r@) == parse_pairs(text@),
{
    let chars = to_chars(text);
    let all = split_lines(&chars);
    let ls = keep_nonempty(&all, 0);
    proof {
        assert(views(all@).subrange(0, all@.len() as int) =~= views(all@));
    }
    let ghost gl = views(ls@);
    let npairs: usize = ls.len() / 2;
    let mut r: Vec<PackageRecord> = Vec::new();
    let mut k: usize = 0;
    while k < npairs
        invariant
            npairs == ls@.len() / 2,
            k <= npairs,
            gl == views(ls@),
            records_view(r@) == pair_records(gl, k as nat),
        decreases npairs - k,
    {
        assert(2 * k + 1 < ls@.len()) by (nonlinear_arith)
            requires
                k < npairs,
                npairs == ls@.len() / 2,
        ;
        let h = &ls[2 * k];
        let d = &ls[2 * k + 1];
        let ghost before = r@;
        proof {
            assert(gl[2 * k] == h@);
            assert(gl[2 * k + 1] == d@);
        }
        match header_name_exec(h) {
            Some(n) => {
                let name = from_chars(n.as_slice());
                let description = describe_exec(d);
                r.push(PackageRecord::new(name, description));
                proof {
                    assert(records_view(r@) =~= records_view(before) + seq![(n@, describe(d@))]);
                }
            },
            None => {
                proof {
                    assert(records_view(r@) =~= records_view(before) + Seq::empty());
                }
            },
        }
        k = k + 1;
    }
    r
}

/// What `str::to_lowercase` makes of a string.
pub uninterp spec fn lower_of(s: Seq<char>) -> Seq<char>;

/// Relies on `str::to_lowercase`: Unicode lower case, a function of the characters alone.
#[verifier::external_body]
fn lowercase(s: &str) -> (r: String)
    ensures
        r@ == lower_of(s@),
{
    s.to_lowercase()
}

/// `needle` occurs in `hay` as a contiguous run.
pub open spec fn contains(hay: Seq<char>, needle: Seq<char>) -> bool {
    exists|i: int|
        0 <= i && i + needle.len() <= hay.len() && #[trigger] hay.subrange(i, i + needle.len())
            == needle
}

fn occurs_at(hay: &Vec<char>, needle: &Vec<char>, i: usize) -> (r: bool)
    requires
        i + needle@.len() <= hay@.len(),
    ensures
        r == (hay@.subrange(i as int, i + needle@.len()) == needle@),
{
    let hl = hay.len();
    let mut j: usize = 0;
    while j < needle.len()
        invariant
            hl == hay@.len(),
            i + needle@.len() <= hay@.len(),
            j <= needle@.len(),
            forall|k: int| 0 <= k < j ==> hay@[i + k] == needle@[k],
        decreases needle@.len() - j,
    {
        if hay[i + j] != needle[j] {
            proof {
                let w = hay@.subrange(i as int, i + needle@.len());
                assert(w[j as int] != needle@[j as int]);
            }
            return false;
        }
        j = j + 1;
    }
    proof {
        assert(hay@.subrange(i as int, i + needle@.len()) =~= needle@);
    }
    true
}

/// Whether a lowered package name holds the lowered search term.
pub fn name_matches(lower_name: &str, lower_term: &str) -> (r: bool)
    ensures
        r == contains(lower_name@, lower_term@),
{
    let hay = to_chars(lower_name);
    let needle = to_chars(lower_term);
    if needle.len() > hay.len() {
        return false;
    }
    let last: usize = hay.len() - needle.len();
    let mut i: usize = 0;
    loop
        invariant
            i <= last,
            last == hay@.len() - needle@.len(),
            hay@ == lower_name@,
            needle@ == lower_term@,
            forall|k: int|
                0 <= k < i ==> #[trigger] hay@.subrange(k, k + needle@.len()) != needle@,
        ensures
            forall|k: int|
                0 <= k <= last ==> #[trigger] hay@.subrange(k, k + needle@.len()) != needle@,
        decreases last - i,
    {
        if occurs_at(&hay, &needle, i) {
            return true;
        }
        if i == last {
            break;
        }
        i = i + 1;
    }
    false
}

/// The fields of a tab-separated line split at most twice: the name, and the
/// description where a third field is present. None where there is no tab.
pub open spec fn tab_fields(l: Seq<char>) -> Option<(Seq<char>, Option<Seq<char>>)> {
    let t1 = index_of(l, '\t');
    if t1 < 0 {
        None
    } else {
        let rest = l.subrange(t1 + 1, l.len() as int);
        let t2 = index_of(rest, '\t');
        if t2 < 0 {
            Some((l.subrange(0, t1), None))
        } else {
            Some((l.subrange(0, t1), Some(rest.subrange(t2 + 1, rest.len() as int))))
        }
    }
}

/// The record of one line of `flatpak search`, given the lowered search term:
/// present where the line has two fields, a name, and a name whose lower case
/// holds the term.
pub open spec fn sandboxed_record(l: Seq<char>, lterm: Seq<char>) -> Option<(Seq<char>, Seq<char>)> {
    match tab_fields(l) {
        None => None,
        Some((name, d)) => {
            if name.len() > 0 && contains(lower_of(name), lterm) {
                Some(
                    (
                        name,
                        match d {
                            Some(x) => describe(x),
                            None => no_description(),
                        },
                    ),
                )
            } else {
                None
            }
        },
    }
}

/// The records of the first `k` lines of `ls`.
pub open spec fn sandboxed_records(ls: Seq<Seq<char>>, lterm: Seq<char>, k: nat) -> Seq<(Seq<char>, Seq<char>)>
    decreases k,
{
    if k == 0 {
        Seq::empty()
    } else {
        sandboxed_records(ls, lterm, (k - 1) as nat) + opt_seq(sandboxed_record(ls[k - 1], lterm))
    }
}

/// The records in the output of `flatpak search` for `term`: the header line
/// dropped, then each non-empty line.
pub open spec fn parse_sandboxed(text: Seq<char>, term: Seq<char>) -> Seq<(Seq<char>, Seq<char>)> {
    let ls = lines_of(text);
    let body = nonempty_lines(if ls.len() == 0 { ls } else { ls.drop_first() });
    sandboxed_records(body, lower_of(term), body.len())
}

/// The name and the kept description of one line of `flatpak search`.
fn tab_fields_exec(l: &Vec<char>) -> (r: Option<(Vec<char>, String)>)
    ensures
        match r {
            None => tab_fields(l@) is None,
            Some((n, d)) => tab_fields(l@) matches Some((name, dd)) && name == n@ && d@ == match dd {
                Some(x) => describe(x),
                None => no_description(),
            },
        },
{
    let ll = l.len();
    match find_char(l, '\t') {
        None => None,
        Some(t1) => {
            proof {
                lemma_index_of(l@, '\t');
            }
            let name = slice_of(l, 0, t1);
            let rest = slice_of(l, t1 + 1, ll);
            let rl = rest.len();
            match find_char(&rest, '\t') {
                None => Some((name, "No description.".to_owned())),
                Some(t2) => {
                    proof {
                        lemma_index_of(rest@, '\t');
                    }
                    let third = slice_of(&rest, t2 + 1, rl);
                    Some((name, describe_exec(&third)))
                },
            }
        },
    }
}

/// Parses the output of `flatpak search` for `term`: the first line is a
/// header and is dropped; each other non-empty line `name<TAB>...<TAB>description`
/// gives a record where the name holds the term, both lowered.
pub fn parse_sandboxed_output(text: &str, term: &str) -> (r: Vec<PackageRecord>)
    ensures
        records_view(r@) == parse_sandboxed(text@, term@),
{
    let lterm = lowercase(term);
    let chars = to_chars(text);
    let all = split_lines(&chars);
    let from: usize = if all.len() == 0 { 0 } else { 1 };
    let ls = keep_nonempty(&all, from);
    proof {
        let v = views(all@);
        if v.len() == 0 {
            assert(v.subrange(0, 0) =~= v);
        } else {
            assert(v.subrange(1, v.len() as int) =~= v.drop_first());
        }
    }
    let ghost gl = views(ls@);
    let mut r: Vec<PackageRecord> = Vec::new();
    let mut k: usize = 0;
    while k < ls.len()
        invariant
            k <= ls@.len(),
            gl == views(ls@),
            lterm@ == lower_of(term@),
            records_view(r@) == sandboxed_records(gl, lterm@, k as nat),
        decreases ls@.len() - k,
    {
        let l = &ls[k];
        let ghost before = r@;
        proof {
            assert(gl[k as int] == l@);
        }
        match tab_fields_exec(l) {
            Some((n, d)) => {
                let name = from_chars(n.as_slice());
                let lname = lowercase(name.as_str());
                if n.len() > 0 && name_matches(lname.as_str(), lterm.as_str()) {
                    r.push(PackageRecord::new(name, d));
                    proof {
                        assert(records_view(r@) =~= records_view(before) + seq![(n@, d@)]);
                    }
                } else {
                    proof {
                        assert(records_view(r@) =~= records_view(before) + Seq::empty());
                    }
                }
            },
            None => {
                proof {
                    assert(records_view(r@) =~= records_view(before) + Seq::empty());
                }
            },
        }
        k = k + 1;
    }
    r
}

proof fn lemma_describe_nonempty(d: Seq<char>)
    ensures
        describe(d).len() > 0,
        no_description().len() > 0,
{
    reveal_strlit("No description.");
}

proof fn lemma_well_formed_concat(a: Seq<(Seq<char>, Seq<char>)>, o: Option<(Seq<char>, Seq<char>)>)
    requires
        all_well_formed(a),
        o matches Some(x) ==> x.0.len() > 0 && x.1.len() > 0,
    ensures
        all_well_formed(a + opt_seq(o)),
{
    let c = a + opt_seq(o);
    assert forall|i: int| 0 <= i < c.len() implies (#[trigger] c[i]).0.len() > 0 && c[i].1.len() > 0 by {
        if i < a.len() {
            assert(c[i] == a[i]);
        }
    }
}

proof fn lemma_pair_records_well_formed(ls: Seq<Seq<char>>, k: nat)
    requires
        2 * k <= ls.len(),
    ensures
        all_well_formed(pair_records(ls, k)),
    decreases k,
{
    if k > 0 {
        lemma_pair_records_well_formed(ls, (k - 1) as nat);
        let h = ls[2 * k - 2];
        let a = index_of(h, '/');
        if a >= 0 {
            lemma_index_of(h, '/');
            lemma_index_of(h.subrange(a + 1, h.len() as int), ' ');
        }
        lemma_describe_nonempty(ls[2 * k - 1]);
        lemma_well_formed_concat(pair_records(ls, (k - 1) as nat), pair_record(h, ls[2 * k - 1]));
    }
}

proof fn lemma_sandboxed_records_well_formed(ls: Seq<Seq<char>>, lterm: Seq<char>, k: nat)
    requires
        k <= ls.len(),
    ensures
        all_well_formed(sandboxed_records(ls, lterm, k)),
    decreases k,
{
    if k > 0 {
        lemma_sandboxed_records_well_formed(ls, lterm, (k - 1) as nat);
        let l = ls[k - 1];
        match tab_fields(l) {
            Some((_, Some(x))) => lemma_describe_nonempty(x),
            _ => lemma_describe_nonempty(l),
        }
        lemma_well_formed_concat(sandboxed_records(ls, lterm, (k - 1) as nat), sandboxed_record(l, lterm));
    }
}

/// Every record read from a `-Ss` search has a non-empty name and a non-empty
/// description.
pub proof fn pair_records_well_formed(text: Seq<char>)
    ensures
        all_well_formed(parse_pairs(text)),
{
    let ls = nonempty_lines(lines_of(text));
    lemma_pair_records_well_formed(ls, ls.len() / 2);
}

/// Every record read from a `flatpak search` has a non-empty name and a
/// non-empty description.
pub proof fn sandboxed_records_well_formed(text: Seq<char>, term: Seq<char>)
    ensures
        all_well_formed(parse_sandboxed(text, term)),
{
    let ls = lines_of(text);
    let body = nonempty_lines(if ls.len() == 0 { ls } else { ls.drop_first() });
    lemma_sandboxed_records_well_formed(body, lower_of(term), body.len());
}

} // verus!
