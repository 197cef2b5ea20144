//! The canonical record of a discovered package, and the identity scheme
//! of repository-backed records: slug, remote URL and mirror directory,
//! plus the two distinct ways a `"org/name"` string is parsed.

use vstd::prelude::*;

use crate::errors::IdentityParseError;
use crate::text::{first_index, lemma_first_index, split_char, split_on};

verus! {

/// Mathematical value of a repository identity: the two components of
/// its `"org/name"` pair.
pub ghost struct RepoView {
    pub org: Seq<char>,
    pub name: Seq<char>,
}

impl RepoView {
    /// The invariant list ingestion establishes: both components are
    /// non-empty and contain no separator.
    pub open spec fn wf(self) -> bool {
        &&& self.org.len() > 0
        &&& self.name.len() > 0
        &&& !self.org.contains('/')
        &&& !self.name.contains('/')
    }
}

/// A repository-backed package: its identity is the organization/name
/// pair, used consistently as database key and mirror directory name.
#[derive(Debug, Clone)]
pub struct GitHubRepo {
    pub org: String,
    pub name: String,
}

impl View for GitHubRepo {
    type V = RepoView;

    open spec fn view(&self) -> RepoView {
        RepoView { org: self.org@, name: self.name@ }
    }
}

impl DeepView for GitHubRepo {
    type V = RepoView;

    open spec fn deep_view(&self) -> RepoView {
        self@
    }
}

impl PartialEq for GitHubRepo {
    fn eq(&self, other: &Self) -> bool {
        self.org == other.org && self.name == other.name
    }
}

impl vstd::std_specs::cmp::PartialEqSpecImpl for GitHubRepo {
    open spec fn obeys_eq_spec() -> bool {
        true
    }

    open spec fn eq_spec(&self, other: &Self) -> bool {
        self@ == other@
    }
}

impl Eq for GitHubRepo {}

/// A registry-backed package reference; this module only carries it.
#[derive(Debug, Clone)]
pub struct RegistryCrate {
    pub name: String,
}

impl View for RegistryCrate {
    type V = Seq<char>;

    open spec fn view(&self) -> Seq<char> {
        self.name@
    }
}

impl DeepView for RegistryCrate {
    type V = Seq<char>;

    open spec fn deep_view(&self) -> Seq<char> {
        self@
    }
}

impl PartialEq for RegistryCrate {
    fn eq(&self, other: &Self) -> bool {
        self.name == other.name
    }
}

impl vstd::std_specs::cmp::PartialEqSpecImpl for RegistryCrate {
    open spec fn obeys_eq_spec() -> bool {
        true
    }

    open spec fn eq_spec(&self, other: &Self) -> bool {
        self@ == other@
    }
}

impl Eq for RegistryCrate {}

/// Mathematical value of a `Crate`.
pub ghost enum CrateView {
    GitHub(RepoView),
    Registry(Seq<char>),
}

/// The canonical tagged record every list source produces.
#[derive(Debug, Clone)]
pub enum Crate {
    GitHub(GitHubRepo),
    Registry(RegistryCrate),
}

impl View for Crate {
    type V = CrateView;

    open spec fn view(&self) -> CrateView {
        match self {
            Crate::GitHub(r) => CrateView::GitHub(r@),
            Crate::Registry(r) => CrateView::Registry(r@),
        }
    }
}

impl DeepView for Crate {
    type V = CrateView;

    open spec fn deep_view(&self) -> CrateView {
        self@
    }
}

impl PartialEq for Crate {
    fn eq(&self, other: &Self) -> bool {
        match (self, other) {
            (Crate::GitHub(a), Crate::GitHub(b)) => a == b,
            (Crate::Registry(a), Crate::Registry(b)) => a == b,
            _ => false,
        }
    }
}

impl vstd::std_specs::cmp::PartialEqSpecImpl for Crate {
    open spec fn obeys_eq_spec() -> bool {
        true
    }

    open spec fn eq_spec(&self, other: &Self) -> bool {
        self@ == other@
    }
}

impl Eq for Crate {}

/// The canonical `"org/name"` string of an identity.
pub open spec fn slug_of(org: Seq<char>, name: Seq<char>) -> Seq<char> {
    org + seq!['/'] + name
}

/// The canonical repository URL of an identity.
pub open spec fn url_of(org: Seq<char>, name: Seq<char>) -> Seq<char> {
    "https://github.com/"@ + org + seq!['/'] + name
}

/// The mirror directory name of an identity: organization and name
/// joined by a fixed `'.'` delimiter.
pub open spec fn mirror_dir_of(org: Seq<char>, name: Seq<char>) -> Seq<char> {
    org + seq!['.'] + name
}

/// Strict parse used during list ingestion: the input must split into
/// exactly two non-empty components.
pub open spec fn strict_parse(s: Seq<char>) -> Option<RepoView> {
    let p = split_on(s, '/');
    if p.len() == 2 && p[0].len() > 0 && p[1].len() > 0 {
        Some(RepoView { org: p[0], name: p[1] })
    } else {
        None
    }
}

/// Lenient, right-anchored parse used for directly supplied strings:
/// the last two components become organization and name; extra leading
/// segments are ignored, and components may be empty.
pub open spec fn lenient_parse(s: Seq<char>) -> Option<RepoView> {
    let p = split_on(s, '/');
    if p.len() >= 2 {
        Some(RepoView { org: p[p.len() - 2], name: p[p.len() - 1] })
    } else {
        None
    }
}

/// No piece of a split contains the separator it was split on.
pub proof fn lemma_split_on_sep_free(s: Seq<char>, sep: char)
    ensures
        forall|k: int|
            0 <= k < split_on(s, sep).len() ==> !(#[trigger] split_on(s, sep)[k]).contains(sep),
    decreases s.len(),
{
    lemma_first_index(s, sep);
    let i = first_index(s, sep);
    if i == s.len() {
        assert(!s.contains(sep)) by {
            assert(forall|j: int| 0 <= j < s.len() ==> s[j] != sep);
        }
    } else {
        lemma_split_on_sep_free(s.skip(i + 1), sep);
        assert(!s.take(i).contains(sep)) by {
            assert(forall|j: int| 0 <= j < i ==> s.take(i)[j] == s[j]);
        }
        assert forall|k: int|
            0 <= k < split_on(s, sep).len() implies !(#[trigger] split_on(s, sep)[k]).contains(
            sep,
        ) by {
            if k > 0 {
                assert(split_on(s, sep)[k] == split_on(s.skip(i + 1), sep)[k - 1]);
            }
        }
    }
}

impl GitHubRepo {
    /// The `"org/name"` slug, the stable identity string of the pair.
    pub fn slug(&self) -> (r: String)
        ensures
            r@ == slug_of(self@.org, self@.name),
    {
        proof {
            reveal_strlit("/");
        }
        let mut r = self.org.clone();
        r.append("/");
        r.append(self.name.as_str());
        proof {
            assert(r@ =~= slug_of(self@.org, self@.name));
        }
        r
    }

    /// The canonical remote URL the mirror is cloned from.
    pub fn url(&self) -> (r: String)
        ensures
            r@ == url_of(self@.org, self@.name),
    {
        proof {
            reveal_strlit("/");
        }
        let mut r = String::from_str("https://github.com/");
        r.append(self.org.as_str());
        r.append("/");
        r.append(self.name.as_str());
        proof {
            assert(r@ =~= url_of(self@.org, self@.name));
        }
        r
    }

    /// The directory name of the local mirror, relative to the mirrors
    /// root the caller keeps.
    pub fn mirror_dir(&self) -> (r: String)
        ensures
            r@ == mirror_dir_of(self@.org, self@.name),
    {
        proof {
            reveal_strlit(".");
        }
        let mut r = self.org.clone();
        r.append(".");
        r.append(self.name.as_str());
        proof {
            assert(r@ =~= mirror_dir_of(self@.org, self@.name));
        }
        r
    }

    /// Strict list-ingestion parse: `Some` exactly when the entry splits
    /// into two non-empty components, which then satisfy the record
    /// invariant.
    pub fn from_list_entry(s: &str) -> (r: Option<GitHubRepo>)
        ensures
            match strict_parse(s@) {
                Some(v) => r is Some && r->0@ == v && v.wf(),
                None => r is None,
            },
    {
        let parts = split_char(s, '/');
        proof {
            lemma_split_on_sep_free(s@, '/');
        }
        if parts.len() == 2 && !parts[0].as_str().is_empty() && !parts[1].as_str().is_empty() {
            let org = parts[0].clone();
            let name = parts[1].clone();
            Some(GitHubRepo { org, name })
        } else {
            None
        }
    }

    /// Lenient, right-anchored parse of a directly supplied string: the
    /// last two `/`-separated components become organization and name;
    /// an input with no separator at all is an `IdentityParseError`
    /// carrying that input.
    pub fn from_str(input: &str) -> (r: Result<GitHubRepo, IdentityParseError>)
        ensures
            match lenient_parse(input@) {
                Some(v) => r is Ok && r->Ok_0@ == v,
                None => r is Err && r->Err_0.input@ == input@,
            },
    {
        let parts = split_char(input, '/');
        if parts.len() >= 2 {
            let org = parts[parts.len() - 2].clone();
            let name = parts[parts.len() - 1].clone();
            Ok(GitHubRepo { org, name })
        } else {
            Err(IdentityParseError { input: String::from_str(input) })
        }
    }
}

/// The identity derivations are pure: equal identities yield equal
/// slugs, URLs and mirror directory names.
pub proof fn lemma_derivations_deterministic(a: RepoView, b: RepoView)
    requires
        a == b,
    ensures
        slug_of(a.org, a.name) == slug_of(b.org, b.name),
        url_of(a.org, a.name) == url_of(b.org, b.name),
        mirror_dir_of(a.org, a.name) == mirror_dir_of(b.org, b.name),
{
}

/// The mirror directory name is injective: two identities whose
/// organizations are free of the `'.'` delimiter collide only if they
/// are the same identity.
pub proof fn lemma_mirror_dir_injective(a: RepoView, b: RepoView)
    requires
        !a.org.contains('.'),
        !b.org.contains('.'),
        a != b,
    ensures
        mirror_dir_of(a.org, a.name) != mirror_dir_of(b.org, b.name),
{
    let m1 = mirror_dir_of(a.org, a.name);
    let m2 = mirror_dir_of(b.org, b.name);
    if m1 == m2 {
        if a.org.len() < b.org.len() {
            let i = a.org.len() as int;
            assert(m1[i] == '.');
            assert(m2[i] == b.org[i]);
            assert(b.org.contains('.'));
        } else if b.org.len() < a.org.len() {
            let i = b.org.len() as int;
            assert(m2[i] == '.');
            assert(m1[i] == a.org[i]);
            assert(a.org.contains('.'));
        } else {
            assert forall|j: int| 0 <= j < a.org.len() implies a.org[j] == b.org[j] by {
                assert(m1[j] == a.org[j]);
                assert(m2[j] == b.org[j]);
            }
            assert(a.org =~= b.org);
            assert(m1.len() == m2.len());
            assert forall|j: int| 0 <= j < a.name.len() implies a.name[j] == b.name[j] by {
                assert(m1[a.org.len() + 1 + j] == a.name[j]);
                assert(m2[b.org.len() + 1 + j] == b.name[j]);
            }
            assert(a.name =~= b.name);
            assert(a == b);
        }
    }
}

} // verus!
