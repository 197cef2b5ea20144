//! The curated GitHub list source: decodes a CSV payload of repository
//! rows, keeps only the rows whose manifest and lockfile flags are both
//! set, and turns each well-formed `"org/name"` entry into a record.
//! Malformed entries are row-level skips; a payload that cannot be
//! decoded, a missing column or an unreadable flag is a source-level
//! failure.

use vstd::prelude::*;

use crate::errors::SourceFetchError;
use crate::record::{strict_parse, Crate, CrateView, GitHubRepo};
use crate::text::{first_index, lemma_first_index};

verus! {

/// What the csv crate decodes a payload into: the header row and the
/// data rows, each row a sequence of fields; or nothing, when the
/// payload is not well-formed CSV.  The result depends on the bytes
/// alone.
pub uninterp spec fn csv_table(bytes: Seq<u8>) -> Option<(Seq<Seq<char>>, Seq<Seq<Seq<char>>>)>;

/// Relies on csv::Reader (headers and records): decodes the payload
/// into its header row and data rows, failing on malformed CSV — ragged
/// rows or invalid encoding.
#[verifier::external_body]
fn decode_csv(bytes: &Vec<u8>) -> (r: Result<(Vec<String>, Vec<Vec<String>>), SourceFetchError>)
    ensures
        r is Ok <==> csv_table(bytes@) is Some,
        r is Ok ==> (r->Ok_0.0.deep_view(), r->Ok_0.1.deep_view()) == csv_table(bytes@)->Some_0,
        r is Err ==> r->Err_0 == SourceFetchError::Decode,
{
    let mut rdr = csv::Reader::from_reader(bytes.as_slice());
    let header = match rdr.headers() {
        Ok(h) => h.iter().map(|f| f.to_string()).collect(),
        Err(_) => return Err(SourceFetchError::Decode),
    };
    let mut rows = Vec::new();
    for rec in rdr.records() {
        match rec {
            Ok(row) => rows.push(row.iter().map(|f| f.to_string()).collect()),
            Err(_) => return Err(SourceFetchError::Decode),
        }
    }
    Ok((header, rows))
}

/// The boolean a flag field denotes, if any.
pub open spec fn flag_of(f: Seq<char>) -> Option<bool> {
    if f == "true"@ {
        Some(true)
    } else if f == "false"@ {
        Some(false)
    } else {
        None
    }
}

fn parse_flag(f: &String) -> (r: Option<bool>)
    ensures
        r == flag_of(f@),
{
    let t = String::from_str("true");
    if *f == t {
        Some(true)
    } else {
        let fa = String::from_str("false");
        if *f == fa {
            Some(false)
        } else {
            None
        }
    }
}

/// First position of `label` in the header, if the header has it.
fn find_column(header: &Vec<String>, label: &String) -> (r: Option<usize>)
    ensures
        match r {
            Some(c) => c == first_index(header.deep_view(), label@) && c < header.len(),
            None => first_index(header.deep_view(), label@) == header.deep_view().len(),
        },
{
    let ghost hdv = header.deep_view();
    let mut j: usize = 0;
    while j < header.len()
        invariant
            j <= header.len(),
            hdv == header.deep_view(),
            forall|k: int| 0 <= k < j ==> hdv[k] != label@,
        decreases header.len() - j,
    {
        if header[j] == *label {
            proof {
                lemma_first_index(hdv, label@);
                assert(hdv[j as int] == label@);
            }
            return Some(j);
        }
        j += 1;
    }
    proof {
        lemma_first_index(hdv, label@);
    }
    None
}

/// A row can be read at all: the three columns exist in it and both
/// flag fields denote booleans.  (The repository name may still be
/// malformed; that is a row-level skip, not a failure.)
pub open spec fn row_shape_ok(row: Seq<Seq<char>>, nc: int, tc: int, lc: int) -> bool {
    &&& 0 <= nc < row.len()
    &&& 0 <= tc < row.len()
    &&& 0 <= lc < row.len()
    &&& flag_of(row[tc]) is Some
    &&& flag_of(row[lc]) is Some
}

/// A row is imported: both flags are true — the filter is a
/// conjunction — and the name splits into exactly two non-empty
/// components.
pub open spec fn row_selected(row: Seq<Seq<char>>, nc: int, tc: int, lc: int) -> bool {
    &&& flag_of(row[tc]) == Some(true)
    &&& flag_of(row[lc]) == Some(true)
    &&& strict_parse(row[nc]) is Some
}

/// The record an imported row contributes.
pub open spec fn row_record(row: Seq<Seq<char>>, nc: int) -> CrateView {
    CrateView::GitHub(strict_parse(row[nc])->0)
}

/// The records the data rows yield, in row order: `None` when some row
/// cannot be read at all, else exactly the selected rows' records.
pub open spec fn import_rows_spec(rows: Seq<Seq<Seq<char>>>, nc: int, tc: int, lc: int) -> Option<
    Seq<CrateView>,
>
    decreases rows.len(),
{
    if rows.len() == 0 {
        Some(Seq::empty())
    } else if !row_shape_ok(rows[0], nc, tc, lc) {
        None
    } else {
        match import_rows_spec(rows.skip(1), nc, tc, lc) {
            None => None,
            Some(rest) => if row_selected(rows[0], nc, tc, lc) {
                Some(seq![row_record(rows[0], nc)] + rest)
            } else {
                Some(rest)
            },
        }
    }
}

/// Turns decoded data rows into records, given the three column
/// positions, exactly as `import_rows_spec` describes.
pub fn import_rows(rows: &Vec<Vec<String>>, nc: usize, tc: usize, lc: usize) -> (r: Result<
    Vec<Crate>,
    SourceFetchError,
>)
    ensures
        match r {
            Ok(list) => import_rows_spec(rows.deep_view(), nc as int, tc as int, lc as int)
                == Some(list.deep_view()),
            Err(e) => import_rows_spec(rows.deep_view(), nc as int, tc as int, lc as int) is None
                && e == SourceFetchError::Decode,
        },
{
    let ghost rdv = rows.deep_view();
    let mut out: Vec<Crate> = Vec::new();
    let mut i: usize = 0;
    proof {
        assert(rdv.skip(0) =~= rdv);
    }
    while i < rows.len()
        invariant
            i <= rows.len(),
            rdv == rows.deep_view(),
            match import_rows_spec(rdv.skip(i as int), nc as int, tc as int, lc as int) {
                Some(rest) => import_rows_spec(rdv, nc as int, tc as int, lc as int) == Some(
                    out.deep_view() + rest,
                ),
                None => import_rows_spec(rdv, nc as int, tc as int, lc as int) is None,
            },
        decreases rows.len() - i,
    {
        let ghost tail = rdv.skip(i as int);
        proof {
            assert(tail.len() == rdv.len() - i);
            assert(tail[0] == rdv[i as int]);
            assert(tail.skip(1) =~= rdv.skip(i as int + 1));
        }
        let row = &rows[i];
        proof {
            assert(row.deep_view() == rdv[i as int]);
        }
        if !(nc < row.len() && tc < row.len() && lc < row.len()) {
            proof {
                assert(!row_shape_ok(tail[0], nc as int, tc as int, lc as int));
            }
            return Err(SourceFetchError::Decode);
        }
        let has_toml = parse_flag(&row[tc]);
        let has_lock = parse_flag(&row[lc]);
        match (has_toml, has_lock) {
            (Some(toml), Some(lock)) => {
                proof {
                    assert(row_shape_ok(tail[0], nc as int, tc as int, lc as int));
                }
                if toml && lock {
                    match GitHubRepo::from_list_entry(row[nc].as_str()) {
                        Some(repo) => {
                            let ghost old_out = out.deep_view();
                            out.push(Crate::GitHub(repo));
                            proof {
                                assert(row_selected(tail[0], nc as int, tc as int, lc as int));
                                assert(out.deep_view() =~= old_out + seq![
                                    row_record(tail[0], nc as int),
                                ]);
                                if import_rows_spec(
                                    tail.skip(1),
                                    nc as int,
                                    tc as int,
                                    lc as int,
                                ) is Some {
                                    let rest = import_rows_spec(
                                        tail.skip(1),
                                        nc as int,
                                        tc as int,
                                        lc as int,
                                    )->0;
                                    assert(old_out + (seq![row_record(tail[0], nc as int)] + rest)
                                        =~= out.deep_view() + rest);
                                }
                            }
                        },
                        None => {
                            proof {
                                assert(!row_selected(tail[0], nc as int, tc as int, lc as int));
                            }
                        },
                    }
                } else {
                    proof {
                        assert(flag_of(tail[0][tc as int]) == Some(toml));
                        assert(flag_of(tail[0][lc as int]) == Some(lock));
                        assert(!row_selected(tail[0], nc as int, tc as int, lc as int));
                    }
                }
            },
            _ => {
                proof {
                    assert(!row_shape_ok(tail[0], nc as int, tc as int, lc as int));
                }
                return Err(SourceFetchError::Decode);
            },
        }
        i += 1;
    }
    proof {
        assert(rdv.skip(i as int) =~= Seq::<Seq<Seq<char>>>::empty());
        assert(import_rows_spec(rdv, nc as int, tc as int, lc as int) == Some(
            out.deep_view() + Seq::<CrateView>::empty(),
        ));
        assert(out.deep_view() + Seq::<CrateView>::empty() =~= out.deep_view());
    }
    Ok(out)
}

/// A readable row that is not selected contributes nothing: removing it
/// leaves the import — records and success alike — unchanged.
pub proof fn lemma_unselected_row_dropped(
    rows: Seq<Seq<Seq<char>>>,
    nc: int,
    tc: int,
    lc: int,
    i: int,
)
    requires
        0 <= i < rows.len(),
        row_shape_ok(rows[i], nc, tc, lc),
        !row_selected(rows[i], nc, tc, lc),
    ensures
        import_rows_spec(rows, nc, tc, lc) == import_rows_spec(rows.remove(i), nc, tc, lc),
    decreases i,
{
    if i == 0 {
        assert(rows.remove(0) =~= rows.skip(1));
    } else {
        let shorter = rows.remove(i);
        assert(shorter[0] == rows[0]);
        assert(shorter.skip(1) =~= rows.skip(1).remove(i - 1));
        assert(rows.skip(1)[i - 1] == rows[i]);
        lemma_unselected_row_dropped(rows.skip(1), nc, tc, lc, i - 1);
    }
}

/// The quality filter is a conjunction: a readable row with either flag
/// false is excluded from the import, which is otherwise unchanged.
pub proof fn lemma_flag_false_row_excluded(
    rows: Seq<Seq<Seq<char>>>,
    nc: int,
    tc: int,
    lc: int,
    i: int,
)
    requires
        0 <= i < rows.len(),
        row_shape_ok(rows[i], nc, tc, lc),
        flag_of(rows[i][tc]) == Some(false) || flag_of(rows[i][lc]) == Some(false),
    ensures
        import_rows_spec(rows, nc, tc, lc) == import_rows_spec(rows.remove(i), nc, tc, lc),
{
    lemma_unselected_row_dropped(rows, nc, tc, lc, i);
}

/// A readable row whose name does not split into exactly two non-empty
/// components is a row-level skip: it appears in no result, and it
/// raises no source-level failure — the import succeeds exactly when it
/// would succeed without that row.
pub proof fn lemma_malformed_name_row_skipped(
    rows: Seq<Seq<Seq<char>>>,
    nc: int,
    tc: int,
    lc: int,
    i: int,
)
    requires
        0 <= i < rows.len(),
        row_shape_ok(rows[i], nc, tc, lc),
        strict_parse(rows[i][nc]) is None,
    ensures
        import_rows_spec(rows, nc, tc, lc) == import_rows_spec(rows.remove(i), nc, tc, lc),
        import_rows_spec(rows, nc, tc, lc) is Some <==> import_rows_spec(
            rows.remove(i),
            nc,
            tc,
            lc,
        ) is Some,
{
    lemma_unselected_row_dropped(rows, nc, tc, lc, i);
}

/// The full import a CSV payload yields: `None` when the payload does
/// not decode, a required column is missing, or some row cannot be
/// read; else the selected rows' records in order.
pub open spec fn github_import(bytes: Seq<u8>) -> Option<Seq<CrateView>> {
    match csv_table(bytes) {
        None => None,
        Some(table) => {
            let header = table.0;
            let rows = table.1;
            let nc = first_index(header, "name"@);
            let tc = first_index(header, "has_cargo_toml"@);
            let lc = first_index(header, "has_cargo_lock"@);
            if nc == header.len() || tc == header.len() || lc == header.len() {
                None
            } else {
                import_rows_spec(rows, nc, tc, lc)
            }
        },
    }
}

/// The curated GitHub repository list.  `source` is the location the
/// caller retrieves the CSV payload from; decoding and filtering the
/// payload is this type's work.
pub struct GitHubList {
    pub source: String,
}

impl Default for GitHubList {
    /// The well-known curated list location.
    fn default() -> (r: Self)
        ensures
            r.source@ == "https://raw.githubusercontent.com/rust-ops/rust-repos/master/data/github.csv"@,
    {
        GitHubList {
            source: String::from_str(
                "https://raw.githubusercontent.com/rust-ops/rust-repos/master/data/github.csv",
            ),
        }
    }
}

impl GitHubList {
    /// The stable name of this source.
    pub fn name(&self) -> (r: &'static str)
        ensures
            r@ == "github-oss"@,
    {
        "github-oss"
    }

    /// Decodes a retrieved CSV payload into the records it carries, as
    /// `github_import` describes: `Ok` exactly when the payload decodes,
    /// has the three required columns, and every row's flags are
    /// readable; malformed repository names are skipped, not failures.
    pub fn fetch(&self, body: &Vec<u8>) -> (r: Result<Vec<Crate>, SourceFetchError>)
        ensures
            match r {
                Ok(list) => github_import(body@) == Some(list.deep_view()),
                Err(e) => github_import(body@) is None && e == SourceFetchError::Decode,
            },
    {
        let table = match decode_csv(body) {
            Ok(t) => t,
            Err(e) => {
                return Err(e);
            },
        };
        let (header, rows) = table;
        let name_lbl = String::from_str("name");
        let toml_lbl = String::from_str("has_cargo_toml");
        let lock_lbl = String::from_str("has_cargo_lock");
        let nc = find_column(&header, &name_lbl);
        let tc = find_column(&header, &toml_lbl);
        let lc = find_column(&header, &lock_lbl);
        match (nc, tc, lc) {
            (Some(nc), Some(tc), Some(lc)) => import_rows(&rows, nc, tc, lc),
            _ => {
                proof {
                    lemma_first_index(header.deep_view(), "name"@);
                    lemma_first_index(header.deep_view(), "has_cargo_toml"@);
                    lemma_first_index(header.deep_view(), "has_cargo_lock"@);
                }
                Err(SourceFetchError::Decode)
            },
        }
    }
}

} // verus!
