use crate_lists::record::GitHubRepo;

fn repo(org: &str, name: &str) -> GitHubRepo {
    GitHubRepo {
        org: org.to_string(),
        name: name.to_string(),
    }
}

#[test]
fn slug_joins_org_and_name() {
    assert_eq!(repo("acme", "widget").slug(), "acme/widget");
}

#[test]
fn url_is_built_from_the_slug() {
    assert_eq!(
        repo("acme", "widget").url(),
        "https://github.com/acme/widget"
    );
}

#[test]
fn mirror_dir_joins_with_a_dot() {
    assert_eq!(repo("acme", "widget").mirror_dir(), "acme.widget");
}

#[test]
fn derivations_are_deterministic() {
    let r = repo("acme", "widget");
    assert_eq!(r.slug(), r.slug());
    assert_eq!(r.url(), r.url());
    assert_eq!(r.mirror_dir(), r.mirror_dir());
}

#[test]
fn mirror_dirs_of_distinct_identities_differ() {
    let a = repo("acme", "widget");
    let b = repo("acme", "gadget");
    let c = repo("other", "widget");
    assert_ne!(a.mirror_dir(), b.mirror_dir());
    assert_ne!(a.mirror_dir(), c.mirror_dir());
    assert_ne!(b.mirror_dir(), c.mirror_dir());
}

#[test]
fn parse_two_components() {
    let r = GitHubRepo::from_str("a/b").unwrap();
    assert_eq!(r.org, "a");
    assert_eq!(r.name, "b");
}

#[test]
fn parse_is_right_anchored_on_extra_segments() {
    let r = GitHubRepo::from_str("a/b/c").unwrap();
    assert_eq!(r.org, "b");
    assert_eq!(r.name, "c");
}

#[test]
fn parse_without_separator_fails_and_names_the_input() {
    let e = GitHubRepo::from_str("a").unwrap_err();
    assert_eq!(e.input, "a");
    let e = GitHubRepo::from_str("").unwrap_err();
    assert_eq!(e.input, "");
}

#[test]
fn parse_keeps_empty_trailing_components() {
    let r = GitHubRepo::from_str("a/").unwrap();
    assert_eq!(r.org, "a");
    assert_eq!(r.name, "");
}

#[test]
fn list_entry_parse_requires_exactly_two_nonempty_components() {
    let r = GitHubRepo::from_list_entry("acme/widget").unwrap();
    assert_eq!(r.org, "acme");
    assert_eq!(r.name, "widget");
    assert!(GitHubRepo::from_list_entry("acme").is_none());
    assert!(GitHubRepo::from_list_entry("a/b/c").is_none());
    assert!(GitHubRepo::from_list_entry("/widget").is_none());
    assert!(GitHubRepo::from_list_entry("acme/").is_none());
    assert!(GitHubRepo::from_list_entry("").is_none());
}

#[test]
fn identity_equality_is_over_the_pair() {
    assert_eq!(repo("a", "b"), repo("a", "b"));
    assert_ne!(repo("a", "b"), repo("a", "c"));
    assert_ne!(repo("a", "b"), repo("b", "a"));
}
