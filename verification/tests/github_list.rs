use crate_lists::errors::SourceFetchError;
use crate_lists::github::GitHubList;
use crate_lists::record::Crate;

fn fetch(body: &str) -> Result<Vec<Crate>, SourceFetchError> {
    let list = GitHubList::default();
    let bytes: Vec<u8> = body.as_bytes().to_vec();
    list.fetch(&bytes)
}

fn github_names(records: &[Crate]) -> Vec<(String, String)> {
    records
        .iter()
        .map(|c| match c {
            Crate::GitHub(r) => (r.org.clone(), r.name.clone()),
            Crate::Registry(_) => panic!("the GitHub list produced a registry record"),
        })
        .collect()
}

#[test]
fn end_to_end_keeps_only_fully_flagged_rows() {
    let records = fetch(
        "name,has_cargo_toml,has_cargo_lock\n\
         acme/widget,true,true\n\
         acme/broken,true,false\n",
    )
    .unwrap();
    assert_eq!(
        github_names(&records),
        vec![("acme".to_string(), "widget".to_string())]
    );
}

#[test]
fn filter_is_a_conjunction_not_a_disjunction() {
    let records = fetch(
        "name,has_cargo_toml,has_cargo_lock\n\
         a/only-toml,true,false\n\
         b/only-lock,false,true\n\
         c/neither,false,false\n\
         d/both,true,true\n",
    )
    .unwrap();
    assert_eq!(
        github_names(&records),
        vec![("d".to_string(), "both".to_string())]
    );
}

#[test]
fn malformed_names_are_skipped_without_failing_the_fetch() {
    let records = fetch(
        "name,has_cargo_toml,has_cargo_lock\n\
         justone,true,true\n\
         a/b/c,true,true\n\
         /noorg,true,true\n\
         noname/,true,true\n\
         good/name,true,true\n",
    )
    .unwrap();
    assert_eq!(
        github_names(&records),
        vec![("good".to_string(), "name".to_string())]
    );
}

#[test]
fn header_order_does_not_matter() {
    let records = fetch(
        "has_cargo_lock,name,has_cargo_toml\n\
         true,acme/widget,true\n\
         true,acme/other,false\n",
    )
    .unwrap();
    assert_eq!(
        github_names(&records),
        vec![("acme".to_string(), "widget".to_string())]
    );
}

#[test]
fn quoted_fields_are_unquoted_before_parsing() {
    let records = fetch(
        "name,has_cargo_toml,has_cargo_lock\n\
         \"acme/widget\",true,true\n",
    )
    .unwrap();
    assert_eq!(
        github_names(&records),
        vec![("acme".to_string(), "widget".to_string())]
    );
}

#[test]
fn header_only_payload_yields_no_records() {
    let records = fetch("name,has_cargo_toml,has_cargo_lock\n").unwrap();
    assert!(records.is_empty());
}

#[test]
fn missing_column_is_a_decode_error() {
    let r = fetch(
        "name,has_cargo_toml\n\
         acme/widget,true\n",
    );
    assert_eq!(r, Err(SourceFetchError::Decode));
}

#[test]
fn unreadable_flag_is_a_decode_error() {
    let r = fetch(
        "name,has_cargo_toml,has_cargo_lock\n\
         acme/widget,yes,true\n",
    );
    assert_eq!(r, Err(SourceFetchError::Decode));
}

#[test]
fn unreadable_flag_discards_rows_already_parsed() {
    let r = fetch(
        "name,has_cargo_toml,has_cargo_lock\n\
         acme/widget,true,true\n\
         acme/other,true,maybe\n",
    );
    assert_eq!(r, Err(SourceFetchError::Decode));
}

#[test]
fn ragged_row_is_a_decode_error() {
    let r = fetch(
        "name,has_cargo_toml,has_cargo_lock\n\
         acme/widget,true,true,extra\n",
    );
    assert_eq!(r, Err(SourceFetchError::Decode));
}

#[test]
fn empty_payload_is_a_decode_error() {
    assert_eq!(fetch(""), Err(SourceFetchError::Decode));
}

#[test]
fn flags_are_matched_exactly() {
    let r = fetch(
        "name,has_cargo_toml,has_cargo_lock\n\
         acme/widget,True,true\n",
    );
    assert_eq!(r, Err(SourceFetchError::Decode));
}

#[test]
fn default_source_is_the_curated_list_location() {
    let list = GitHubList::default();
    assert_eq!(
        list.source,
        "https://raw.githubusercontent.com/rust-ops/rust-repos/master/data/github.csv"
    );
    assert_eq!(list.name(), "github-oss");
}
