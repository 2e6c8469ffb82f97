use vstd::prelude::*;
use crate::text::{to_chars, from_chars};

verus! {

/// The three package sources, in the order in which results are shown.
#[derive(Clone, Copy, Debug, PartialEq, Eq, Structural)]
pub enum Source {
    /// The distribution's signed repositories, through `pacman`.
    System,
    /// The community recipe repository, through `yay`.
    User,
    /// Sandboxed applications, through `flatpak`.
    Sandboxed,
}

/// The heading that names a source in the report.
pub open spec fn category_name(s: Source) -> Seq<char> {
    match s {
        Source::System => "System"@,
        Source::User => "User"@,
        Source::Sandboxed => "Sandboxed"@,
    }
}

/// The ANSI color of a source's package names.
pub open spec fn color(s: Source) -> Seq<char> {
    match s {
        Source::System => "\x1B[34m"@,
        Source::User => "\x1B[31m"@,
        Source::Sandboxed => "\x1B[32m"@,
    }
}

/// The program that searches a source.
pub open spec fn program(s: Source) -> Seq<char> {
    match s {
        Source::System => "pacman"@,
        Source::User => "yay"@,
        Source::Sandboxed => "flatpak"@,
    }
}

/// The arguments that search a source for `term`.
pub open spec fn arguments(s: Source, term: Seq<char>) -> Seq<Seq<char>> {
    match s {
        Source::System => seq!["-Ss"@, term],
        Source::User => seq!["-Ss"@, "--aur"@, term],
        Source::Sandboxed => seq!["search"@, term],
    }
}

/// The contents of a list of strings.
pub open spec fn string_views(v: Seq<String>) -> Seq<Seq<char>> {
    v.map_values(|x: String| x@)
}

impl Source {
    pub fn category_name(&self) -> (r: &'static str)
        ensures
            r@ == category_name(*self),
            r@.len() <= 9,
    {
        proof {
            reveal_strlit("System");
            reveal_strlit("User");
            reveal_strlit("Sandboxed");
        }
        match self {
            Source::System => "System",
            Source::User => "User",
            Source::Sandboxed => "Sandboxed",
        }
    }

    pub fn color(&self) -> (r: &'static str)
        ensures
            r@ == color(*self),
    {
        match self {
            Source::System => "\x1B[34m",
            Source::User => "\x1B[31m",
            Source::Sandboxed => "\x1B[32m",
        }
    }

    pub fn program(&self) -> (r: &'static str)
        ensures
            r@ == program(*self),
    {
        match self {
            Source::System => "pacman",
            Source::User => "yay",
            Source::Sandboxed => "flatpak",
        }
    }

    /// The argument vector that searches this source for `term`; the term is
    /// passed unchanged as the last argument.
    pub fn arguments(&self, term: &str) -> (r: Vec<String>)
        ensures
            string_views(r@) == arguments(*self, term@),
    {
        let mut r: Vec<String> = Vec::new();
        match self {
            Source::System => {
                r.push("-Ss".to_owned());
            },
            Source::User => {
                r.push("-Ss".to_owned());
                r.push("--aur".to_owned());
            },
            Source::Sandboxed => {
                r.push("search".to_owned());
            },
        }
        r.push(term.to_owned());
        proof {
            assert(string_views(r@) =~= arguments(*self, term@));
        }
        r
    }
}

/// The words of `args` from position `from` on, joined by single spaces.
pub open spec fn joined(args: Seq<Seq<char>>, from: int) -> Seq<char>
    decreases args.len() - from,
{
    if from >= args.len() {
        Seq::empty()
    } else if from == args.len() - 1 {
        args[from]
    } else {
        args[from] + " "@ + joined(args, from + 1)
    }
}

/// The search term of a command line: every argument after the program's name,
/// joined by single spaces. None where there is no such argument.
pub fn search_term(argv: &Vec<String>) -> (r: Option<String>)
    ensures
        argv@.len() < 2 <==> r is None,
        r matches Some(t) ==> t@ == joined(string_views(argv@), 1),
{
    if argv.len() < 2 {
        return None;
    }
    let ghost a = string_views(argv@);
    let mut i: usize = argv.len() - 1;
    let mut acc: Vec<char> = to_chars(argv[i].as_str());
    proof {
        assert(a[i as int] == argv@[i as int]@);
    }
    while i > 1
        invariant
            1 <= i < argv@.len(),
            a == string_views(argv@),
            acc@ == joined(a, i as int),
        decreases i,
    {
        i = i - 1;
        let mut next = to_chars(argv[i].as_str());
        let mut sep = to_chars(" ");
        let ghost rest = acc@;
        next.append(&mut sep);
        next.append(&mut acc);
        acc = next;
        proof {
            assert(a[i as int] == argv@[i as int]@);
        }
    }
    Some(from_chars(acc.as_slice()))
}

} // verus!
