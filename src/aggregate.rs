use vstd::prelude::*;
use crate::record::{PackageRecord, records_view};
use crate::parse::{parse_pair_output, parse_pairs, parse_sandboxed_output, parse_sandboxed};
use crate::render::{render_report, rendered};
use crate::source::{Source, arguments, joined};

verus! {

/// Why a source produced no list.
#[derive(Clone, Copy, Debug, PartialEq, Eq, Structural)]
pub enum AdapterError {
    /// The search program could not be started.
    Launch,
    /// Its output could not be read.
    Io,
    /// The worker that ran it stopped abnormally.
    Panicked,
}

/// The records of each source, always in the order system, user, sandboxed.
#[derive(Clone, Debug, PartialEq, Eq)]
pub struct ResultTriple {
    pub system: Vec<PackageRecord>,
    pub user: Vec<PackageRecord>,
    pub sandboxed: Vec<PackageRecord>,
}

/// What a source contributes: its records, or nothing when it failed.
pub open spec fn slot(r: Result<Vec<PackageRecord>, AdapterError>) -> Seq<(Seq<char>, Seq<char>)> {
    match r {
        Ok(v) => records_view(v@),
        Err(_) => Seq::empty(),
    }
}

/// The packages that `pacman -Ss` printed.
pub fn search_pacman(output: &str) -> (r: Vec<PackageRecord>)
    ensures
        records_view(r@) == parse_pairs(output@),
{
    parse_pair_output(output)
}

/// The packages that `yay -Ss --aur` printed; its lines have the form of
/// `pacman`'s.
pub fn search_aur(output: &str) -> (r: Vec<PackageRecord>)
    ensures
        records_view(r@) == parse_pairs(output@),
{
    parse_pair_output(output)
}

/// The packages that `flatpak search` printed for `term`.
pub fn search_flatpak(output: &str, term: &str) -> (r: Vec<PackageRecord>)
    ensures
        records_view(r@) == parse_sandboxed(output@, term@),
{
    parse_sandboxed_output(output, term)
}

/// Puts the outcomes of the three sources in their fixed slots, system, user,
/// sandboxed; a failed source contributes an empty list and leaves the others
/// as they are.
pub fn search_packages(
    system: Result<Vec<PackageRecord>, AdapterError>,
    user: Result<Vec<PackageRecord>, AdapterError>,
    sandboxed: Result<Vec<PackageRecord>, AdapterError>,
) -> (r: ResultTriple)
    ensures
        records_view(r.system@) == slot(system),
        records_view(r.user@) == slot(user),
        records_view(r.sandboxed@) == slot(sandboxed),
{
    let system = match system {
        Ok(v) => v,
        Err(_) => Vec::new(),
    };
    let user = match user {
        Ok(v) => v,
        Err(_) => Vec::new(),
    };
    let sandboxed = match sandboxed {
        Ok(v) => v,
        Err(_) => Vec::new(),
    };
    proof {
        assert(records_view(Seq::<PackageRecord>::empty()) =~= Seq::empty());
    }
    ResultTriple { system, user, sandboxed }
}

impl ResultTriple {
    /// The report for these results, as handed to the pager.
    pub fn render(&self) -> (r: String)
        ensures
            r@ == rendered(
                records_view(self.system@),
                records_view(self.user@),
                records_view(self.sandboxed@),
            ),
    {
        render_report(&self.system, &self.user, &self.sandboxed)
    }
}

/// For a command line with at least one search word, every source is given,
/// as its last argument, exactly the words after the program's name joined by
/// single spaces.
pub proof fn term_reaches_every_source(argv: Seq<Seq<char>>, s: Source)
    requires
        argv.len() >= 2,
    ensures
        arguments(s, joined(argv, 1)).last() == joined(argv, 1),
{
}

} // verus!
