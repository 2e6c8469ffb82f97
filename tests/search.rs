use pd::aggregate::{search_aur, search_flatpak, search_packages, search_pacman, AdapterError};
use pd::parse::{name_matches, parse_pair_output, parse_sandboxed_output};
use pd::record::PackageRecord;
use pd::render::format_package_count;
use pd::source::{search_term, Source};

fn rec(name: &str, description: &str) -> PackageRecord {
    PackageRecord::new(name.to_string(), description.to_string())
}

fn words(v: &[&str]) -> Vec<String> {
    v.iter().map(|s| s.to_string()).collect()
}

#[test]
fn no_arguments_gives_no_term() {
    assert_eq!(search_term(&words(&["pd"])), None);
    assert_eq!(search_term(&words(&[])), None);
}

#[test]
fn term_joins_arguments_with_single_spaces() {
    assert_eq!(search_term(&words(&["pd", "foo"])), Some("foo".to_string()));
    assert_eq!(search_term(&words(&["pd", "foo", "bar", "baz"])), Some("foo bar baz".to_string()));
    assert_eq!(search_term(&words(&["pd", "a b", "c"])), Some("a b c".to_string()));
}

#[test]
fn every_source_gets_the_term_unchanged() {
    let term = search_term(&words(&["pd", "web", "browser"])).unwrap();
    assert_eq!(Source::System.program(), "pacman");
    assert_eq!(Source::System.arguments(&term), words(&["-Ss", "web browser"]));
    assert_eq!(Source::User.program(), "yay");
    assert_eq!(Source::User.arguments(&term), words(&["-Ss", "--aur", "web browser"]));
    assert_eq!(Source::Sandboxed.program(), "flatpak");
    assert_eq!(Source::Sandboxed.arguments(&term), words(&["search", "web browser"]));
}

#[test]
fn slots_keep_their_order() {
    let t = search_packages(
        Ok(vec![rec("a", "x")]),
        Ok(vec![rec("b", "y")]),
        Ok(vec![rec("c", "z"), rec("d", "w")]),
    );
    assert_eq!(t.system, vec![rec("a", "x")]);
    assert_eq!(t.user, vec![rec("b", "y")]);
    assert_eq!(t.sandboxed, vec![rec("c", "z"), rec("d", "w")]);
}

#[test]
fn failed_source_contributes_empty_list() {
    let t = search_packages(Ok(vec![rec("a", "x")]), Err(AdapterError::Launch), Ok(vec![rec("c", "z")]));
    assert_eq!(t.system, vec![rec("a", "x")]);
    assert!(t.user.is_empty());
    assert_eq!(t.sandboxed, vec![rec("c", "z")]);
    let t = search_packages(Err(AdapterError::Io), Err(AdapterError::Panicked), Ok(vec![rec("c", "z")]));
    assert!(t.system.is_empty());
    assert!(t.user.is_empty());
    assert_eq!(t.sandboxed, vec![rec("c", "z")]);
}

#[test]
fn pair_output_system_hit() {
    let r = parse_pair_output("core/foo 1.0-1\n    A foo.\n");
    assert_eq!(r, vec![rec("foo", "A foo.")]);
}

#[test]
fn pair_output_blank_description() {
    let r = parse_pair_output("core/foo 1.0-1\n   \n");
    assert_eq!(r, vec![rec("foo", "No description.")]);
}

#[test]
fn pair_output_skips_unsplittable_headers() {
    let text = "noslash 1.0\n  d1\ncore/nospace\n  d2\ncore/ 1.0\n  d3\nextra/bar 2.0 [installed]\n  d4\n";
    assert_eq!(parse_pair_output(text), vec![rec("bar", "d4")]);
}

#[test]
fn pair_output_ignores_lone_last_line_and_empty_lines() {
    let text = "core/a 1\n  da\n\ncore/b 2\n\n  db\ncore/c 3\n";
    assert_eq!(parse_pair_output(text), vec![rec("a", "da"), rec("b", "db")]);
    assert_eq!(parse_pair_output(""), vec![]);
}

#[test]
fn pair_output_handles_crlf_and_unicode_space() {
    let text = "core/foo 1.0\r\n\u{3000}wide\u{a0}\r\n";
    assert_eq!(parse_pair_output(text), vec![rec("foo", "wide")]);
}

#[test]
fn sandboxed_header_dropped() {
    let text = "Name\tApplication ID\tDescription\norg.x.Foo\tstable\tFoo app\n";
    assert_eq!(parse_sandboxed_output(text, "foo"), vec![rec("org.x.Foo", "Foo app")]);
    assert_eq!(parse_sandboxed_output(text, "bar"), vec![]);
}

#[test]
fn sandboxed_matching_ignores_case() {
    let text = "header\nOrg.X.FOO\tstable\tx\nother\tstable\ty\n";
    assert_eq!(parse_sandboxed_output(text, "Foo"), vec![rec("Org.X.FOO", "x")]);
}

#[test]
fn sandboxed_missing_or_blank_description() {
    let text = "header\nfoo.a\tstable\nfoo.b\tstable\t  \nfoo.c\n\nfoo.d\ts\tfirst\tsecond\n";
    assert_eq!(
        parse_sandboxed_output(text, "foo"),
        vec![rec("foo.a", "No description."), rec("foo.b", "No description."), rec("foo.d", "first\tsecond")]
    );
    assert_eq!(parse_sandboxed_output("", "foo"), vec![]);
    assert_eq!(parse_sandboxed_output("foo.a\tstable\tx\n", "foo"), vec![]);
}

#[test]
fn substring_test_on_lowered_names() {
    assert!(name_matches("org.x.foo", "foo"));
    assert!(name_matches("foo", "foo"));
    assert!(name_matches("abc", ""));
    assert!(!name_matches("fo", "foo"));
    assert!(!name_matches("org.x.bar", "foo"));
}

#[test]
fn output_read_per_source() {
    let pairs = "core/foo 1\n  d\n";
    assert_eq!(search_pacman(pairs), vec![rec("foo", "d")]);
    assert_eq!(search_aur(pairs), vec![rec("foo", "d")]);
    assert_eq!(search_flatpak("h\nfoo\ts\td\n", "foo"), vec![rec("foo", "d")]);
    assert_eq!(search_flatpak("h\nfoo\ts\td\n", "zzz"), vec![]);
}

#[test]
fn package_count_plural() {
    assert_eq!(format_package_count(0), "0 packages");
    assert_eq!(format_package_count(1), "1 package");
    assert_eq!(format_package_count(2), "2 packages");
    assert_eq!(format_package_count(10), "10 packages");
    assert_eq!(format_package_count(1234567), "1234567 packages");
}

#[test]
fn report_all_empty() {
    let t = search_packages(Ok(vec![]), Ok(vec![]), Ok(vec![]));
    let out = t.render();
    assert_eq!(
        out,
        "\x1B[1mSystem:\x1B[0m 0 packages | \x1B[1mUser:\x1B[0m 0 packages | \x1B[1mSandboxed:\x1B[0m 0 packages\n\n"
    );
    assert!(!out.contains("Results:"));
}

#[test]
fn report_system_only_hit() {
    let sys = parse_pair_output("core/foo 1.0-1\n    A foo.\n");
    let t = search_packages(Ok(sys), Ok(vec![]), Ok(vec![]));
    let expected = [
        "\x1B[1mSystem:\x1B[0m 1 package | \x1B[1mUser:\x1B[0m 0 packages | \x1B[1mSandboxed:\x1B[0m 0 packages\n\n",
        "\x1B[1mSystem Results:\x1B[0m\n",
        "===============\n",
        "\x1B[1m\x1B[34mfoo\x1B[0m\n",
        "  A foo.\n\n",
    ]
    .concat();
    assert_eq!(t.render(), expected);
}

#[test]
fn report_sections_in_order_with_colors() {
    let t = search_packages(
        Ok(vec![rec("s", "sd")]),
        Ok(vec![rec("u1", "ud1"), rec("u2", "ud2")]),
        Ok(vec![rec("f", "fd")]),
    );
    let expected = [
        "\x1B[1mSystem:\x1B[0m 1 package | \x1B[1mUser:\x1B[0m 2 packages | \x1B[1mSandboxed:\x1B[0m 1 package\n\n",
        "\x1B[1mSystem Results:\x1B[0m\n===============\n",
        "\x1B[1m\x1B[34ms\x1B[0m\n  sd\n\n",
        "\x1B[1mUser Results:\x1B[0m\n=============\n",
        "\x1B[1m\x1B[31mu1\x1B[0m\n  ud1\n\n",
        "\x1B[1m\x1B[31mu2\x1B[0m\n  ud2\n\n",
        "\x1B[1mSandboxed Results:\x1B[0m\n==================\n",
        "\x1B[1m\x1B[32mf\x1B[0m\n  fd\n\n",
    ]
    .concat();
    assert_eq!(t.render(), expected);
}

#[test]
fn report_omits_empty_middle_section() {
    let t = search_packages(Ok(vec![rec("s", "sd")]), Err(AdapterError::Io), Ok(vec![rec("f", "fd")]));
    let out = t.render();
    assert!(out.contains("System Results:"));
    assert!(!out.contains("User Results:"));
    assert!(out.contains("Sandboxed Results:"));
}

#[test]
fn report_scrubs_tildes() {
    let sys = parse_pair_output("core/x~y 1.0\n  a~b\n");
    assert_eq!(sys, vec![rec("x~y", "a~b")]);
    let t = search_packages(Ok(sys), Ok(vec![]), Ok(vec![]));
    let out = t.render();
    assert!(out.contains("a b"));
    assert!(out.contains("x y"));
    assert!(!out.contains('~'));
}
