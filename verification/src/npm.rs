//! Registry-side logic: the `Package` record, normalization of a
//! declared repository field to the canonical GitHub HTTPS form,
//! classification of a registry reply, fail-fast aggregation of bulk
//! resolutions, and selection of npm-prefixed entries from a parsed
//! bill of materials.

use vstd::prelude::*;
use crate::text::{is_prefix_of, is_suffix_of, starts_with_str, ends_with_str};

verus! {

/// One declared dependency: a registry package name (ecosystem prefix
/// already stripped) and an exact version string.
#[derive(Debug, Clone)]
pub struct Package {
    pub name: String,
    pub version: String,
}

/// Mathematical image of a `Package`: both fields as character sequences.
pub struct PackageView {
    pub name: Seq<char>,
    pub version: Seq<char>,
}

impl View for Package {
    type V = PackageView;

    open spec fn view(&self) -> PackageView {
        PackageView { name: self.name@, version: self.version@ }
    }
}

// ---------------------------------------------------------------------
// Repository-URL normalization
// ---------------------------------------------------------------------

/// Step 1: drop a leading version-control marker `git+`.
pub open spec fn spec_strip_git_plus(s: Seq<char>) -> Seq<char> {
    if is_prefix_of("git+"@, s) {
        s.subrange("git+"@.len() as int, s.len() as int)
    } else {
        s
    }
}

/// The first `:` of `s` becomes `/`; without a `:` the sequence is kept.
pub open spec fn spec_replace_first_colon(s: Seq<char>) -> Seq<char> {
    match s.index_of_first(':') {
        Some(i) => s.update(i, '/'),
        None => s,
    }
}

/// Step 2: drop a `git://` transport, or rewrite an SSH-style `git@host:path`
/// to `host/path` by substituting the first `:`.
pub open spec fn spec_strip_transport(s: Seq<char>) -> Seq<char> {
    if is_prefix_of("git://"@, s) {
        s.subrange("git://"@.len() as int, s.len() as int)
    } else if is_prefix_of("git@"@, s) {
        spec_replace_first_colon(s.subrange("git@"@.len() as int, s.len() as int))
    } else {
        s
    }
}

/// Step 3: drop a trailing `.git` repository suffix.
pub open spec fn spec_strip_git_suffix(s: Seq<char>) -> Seq<char> {
    if is_suffix_of(".git"@, s) {
        s.subrange(0, s.len() - ".git"@.len())
    } else {
        s
    }
}

/// Whether `s` carries an accepted scheme prefix.
pub open spec fn spec_has_scheme(s: Seq<char>) -> bool {
    is_prefix_of("https://"@, s) || is_prefix_of("http://"@, s)
}

/// Step 4: prepend `https://` when no scheme prefix remains.
pub open spec fn spec_add_scheme(s: Seq<char>) -> Seq<char> {
    if spec_has_scheme(s) {
        s
    } else {
        "https://"@ + s
    }
}

/// Length of the scheme prefix of `s` (meaningful when `spec_has_scheme(s)`).
pub open spec fn spec_scheme_len(s: Seq<char>) -> int {
    if is_prefix_of("https://"@, s) {
        "https://"@.len() as int
    } else {
        "http://"@.len() as int
    }
}

/// Index of the first `/` of `s` at or after `start`, or the length of `s`
/// when there is none: one past the end of the host component.
pub open spec fn spec_host_end(s: Seq<char>, start: int) -> int
    recommends
        0 <= start <= s.len(),
{
    match s.subrange(start, s.len() as int).index_of_first('/') {
        Some(i) => start + i,
        None => s.len() as int,
    }
}

/// The host component of a scheme-carrying URL.
pub open spec fn spec_host_of(s: Seq<char>) -> Seq<char> {
    s.subrange(spec_scheme_len(s), spec_host_end(s, spec_scheme_len(s)))
}

/// Step 5 (variant): collapse a `www.github.com` host to `github.com`,
/// keeping scheme and path.
pub open spec fn spec_collapse_www(s: Seq<char>) -> Seq<char> {
    s.subrange(0, spec_scheme_len(s)) + "github.com"@ + s.subrange(
        spec_host_end(s, spec_scheme_len(s)),
        s.len() as int,
    )
}

/// The whole normalization: strip `git+`, strip the transport, strip
/// `.git`, supply a scheme, and accept exactly the URLs whose host is
/// `github.com` or `www.github.com` (the latter collapsed).
pub open spec fn normalize_repo_url(s: Seq<char>) -> Option<Seq<char>> {
    let cleaned = spec_add_scheme(spec_strip_git_suffix(spec_strip_transport(spec_strip_git_plus(s))));
    if spec_host_of(cleaned) == "github.com"@ {
        Some(cleaned)
    } else if spec_host_of(cleaned) == "www.github.com"@ {
        Some(spec_collapse_www(cleaned))
    } else {
        None
    }
}

proof fn lemma_add_scheme_has_scheme(s: Seq<char>)
    ensures
        spec_has_scheme(spec_add_scheme(s)),
{
    if !spec_has_scheme(s) {
        assert(("https://"@ + s).subrange(0, "https://"@.len() as int) =~= "https://"@);
    }
}

/// Collapsing a `www.github.com` host keeps the scheme and leaves the
/// canonical `github.com` host in its place.
proof fn lemma_collapse_www(c: Seq<char>)
    requires
        spec_has_scheme(c),
    ensures
        spec_has_scheme(spec_collapse_www(c)),
        spec_scheme_len(spec_collapse_www(c)) == spec_scheme_len(c),
        spec_host_of(spec_collapse_www(c)) == "github.com"@,
{
    reveal_strlit("https://");
    reveal_strlit("http://");
    reveal_strlit("github.com");
    let gh = "github.com"@;
    assert(gh.len() == 10);
    assert(gh[0] == 'g');
    assert(gh[1] == 'i');
    assert(gh[2] == 't');
    assert(gh[3] == 'h');
    assert(gh[4] == 'u');
    assert(gh[5] == 'b');
    assert(gh[6] == '.');
    assert(gh[7] == 'c');
    assert(gh[8] == 'o');
    assert(gh[9] == 'm');
    let l = spec_scheme_len(c);
    let he = spec_host_end(c, l);
    let t = spec_collapse_www(c);
    let pre = c.subrange(0, l);
    let rest = c.subrange(he, c.len() as int);
    let sub_c = c.subrange(l, c.len() as int);
    sub_c.index_of_first_ensures('/');
    assert(l <= he <= c.len());
    assert(t == pre + gh + rest);
    assert(t.len() == l + 10 + rest.len());
    assert(forall|j: int| 0 <= j < l ==> t[j] == pre[j]);
    assert(forall|j: int| 0 <= j < 10 ==> t[l + j] == gh[j]);
    assert(forall|j: int| 0 <= j < rest.len() ==> t[l + 10 + j] == rest[j]);
    if is_prefix_of("https://"@, c) {
        assert(pre == "https://"@);
        assert(t.subrange(0, "https://"@.len() as int) =~= "https://"@);
        assert(is_prefix_of("https://"@, t));
        assert(spec_scheme_len(t) == l);
    } else {
        assert(pre == "http://"@);
        assert(t.subrange(0, "http://"@.len() as int) =~= "http://"@);
        assert(is_prefix_of("http://"@, t));
        if is_prefix_of("https://"@, t) {
            crate::text::lemma_prefix_index("https://"@, t, 4);
            assert(t[4] == 's');
            assert(t[4] == pre[4]);
            assert(false);
        }
        assert(spec_scheme_len(t) == l);
    }
    let sub_t = t.subrange(l, t.len() as int);
    assert(forall|j: int| 0 <= j < 10 ==> sub_t[j] == gh[j]);
    assert(forall|j: int| 0 <= j < 10 ==> sub_t[j] != '/');
    sub_t.index_of_first_ensures('/');
    if rest.len() == 0 {
        assert(sub_t.len() == 10);
        if sub_t.index_of_first('/') is Some {
            let k = sub_t.index_of_first('/')->Some_0;
            assert(sub_t[k] == '/');
            assert(false);
        }
        assert(spec_host_end(t, l) == t.len());
        assert(spec_host_of(t) =~= gh);
    } else {
        assert(he < c.len());
        assert(sub_c.index_of_first('/') is Some);
        let i = sub_c.index_of_first('/')->Some_0;
        assert(he == l + i);
        assert(sub_c[i] == '/');
        assert(rest[0] == c[he]);
        assert(sub_t[10] == rest[0]);
        assert(sub_t[10] == '/');
        assert(sub_t.contains('/')) by {
            assert(sub_t[10] == '/');
        }
        let k = sub_t.index_of_first('/')->Some_0;
        assert(sub_t[k] == '/');
        assert(k == 10);
        assert(spec_host_end(t, l) == l + 10);
        assert(spec_host_of(t) =~= gh);
    }
}

/// Every accepted normalization result carries an accepted scheme and
/// names exactly the host `github.com`: resolution never hands back a
/// repository URL pointing anywhere else.
pub proof fn lemma_normalized_host_is_github(s: Seq<char>)
    requires
        normalize_repo_url(s) is Some,
    ensures
        spec_has_scheme(normalize_repo_url(s)->Some_0),
        spec_host_of(normalize_repo_url(s)->Some_0) == "github.com"@,
{
    let stripped = spec_strip_git_suffix(spec_strip_transport(spec_strip_git_plus(s)));
    let cleaned = spec_add_scheme(stripped);
    lemma_add_scheme_has_scheme(stripped);
    if spec_host_of(cleaned) == "github.com"@ {
    } else {
        lemma_collapse_www(cleaned);
    }
}

/// Normalization is idempotent: running an already-canonical result
/// through the normalizer changes nothing. The one exception left out
/// here is a result that itself still ends in `.git`, which only a
/// doubled suffix in the declared field can produce.
pub proof fn lemma_normalize_idempotent(s: Seq<char>)
    requires
        normalize_repo_url(s) is Some,
        !is_suffix_of(".git"@, normalize_repo_url(s)->Some_0),
    ensures
        normalize_repo_url(normalize_repo_url(s)->Some_0) == normalize_repo_url(s),
{
    lemma_normalized_host_is_github(s);
    let t = normalize_repo_url(s)->Some_0;
    reveal_strlit("git+");
    reveal_strlit("git://");
    reveal_strlit("git@");
    reveal_strlit("https://");
    reveal_strlit("http://");
    if is_prefix_of("https://"@, t) {
        crate::text::lemma_prefix_index("https://"@, t, 0);
    } else {
        crate::text::lemma_prefix_index("http://"@, t, 0);
    }
    assert(t[0] == 'h');
    if is_prefix_of("git+"@, t) {
        crate::text::lemma_prefix_index("git+"@, t, 0);
        assert(false);
    }
    if is_prefix_of("git://"@, t) {
        crate::text::lemma_prefix_index("git://"@, t, 0);
        assert(false);
    }
    if is_prefix_of("git@"@, t) {
        crate::text::lemma_prefix_index("git@"@, t, 0);
        assert(false);
    }
    assert(spec_strip_git_plus(t) == t);
    assert(spec_strip_transport(t) == t);
    assert(spec_strip_git_suffix(t) == t);
    assert(spec_add_scheme(t) == t);
}

fn strip_git_plus(s: &str) -> (r: String)
    ensures
        r@ == spec_strip_git_plus(s@),
{
    if starts_with_str(s, "git+") {
        proof {
            reveal_strlit("git+");
        }
        let n = s.unicode_len();
        s.substring_char(4, n).to_owned()
    } else {
        s.to_owned()
    }
}

/// First occurrence of `c` in `s`, as `index_of_first` sees it.
fn find_char(s: &str, c: char) -> (r: Option<usize>)
    ensures
        match r {
            Some(i) => s@.index_of_first(c) == Some(i as int),
            None => s@.index_of_first(c) is None,
        },
{
    let n = s.unicode_len();
    let mut i: usize = 0;
    while i < n
        invariant
            0 <= i <= n,
            n == s@.len(),
            forall|j: int| 0 <= j < i ==> s@[j] != c,
        decreases n - i,
    {
        if s.get_char(i) == c {
            proof {
                s@.index_of_first_ensures(c);
                assert(s@.contains(c)) by {
                    assert(s@[i as int] == c);
                }
                let k = s@.index_of_first(c)->Some_0;
                assert(s@[k] == c);
                assert(k == i as int);
            }
            return Some(i);
        }
        i = i + 1;
    }
    proof {
        s@.index_of_first_ensures(c);
        if s@.index_of_first(c) is Some {
            let k = s@.index_of_first(c)->Some_0;
            assert(s@[k] == c);
            assert(false);
        }
    }
    None
}

fn replace_first_colon(s: &str) -> (r: String)
    ensures
        r@ == spec_replace_first_colon(s@),
{
    let n = s.unicode_len();
    match find_char(s, ':') {
        Some(i) => {
            proof {
                s@.index_of_first_ensures(':');
            }
            let mut out = s.substring_char(0, i).to_owned();
            out.append("/");
            out.append(s.substring_char(i + 1, n));
            proof {
                reveal_strlit("/");
                assert(("/")@ =~= seq!['/']);
                assert(out@ =~= s@.update(i as int, '/'));
            }
            out
        }
        None => s.to_owned(),
    }
}

fn strip_transport(s: &str) -> (r: String)
    ensures
        r@ == spec_strip_transport(s@),
{
    if starts_with_str(s, "git://") {
        proof {
            reveal_strlit("git://");
        }
        let n = s.unicode_len();
        s.substring_char(6, n).to_owned()
    } else if starts_with_str(s, "git@") {
        proof {
            reveal_strlit("git@");
        }
        let n = s.unicode_len();
        let tail = s.substring_char(4, n);
        replace_first_colon(tail)
    } else {
        s.to_owned()
    }
}

fn strip_git_suffix(s: &str) -> (r: String)
    ensures
        r@ == spec_strip_git_suffix(s@),
{
    if ends_with_str(s, ".git") {
        proof {
            reveal_strlit(".git");
        }
        let n = s.unicode_len();
        s.substring_char(0, n - 4).to_owned()
    } else {
        s.to_owned()
    }
}

fn add_scheme(s: &str) -> (r: String)
    ensures
        r@ == spec_add_scheme(s@),
        spec_has_scheme(r@),
{
    if starts_with_str(s, "https://") || starts_with_str(s, "http://") {
        s.to_owned()
    } else {
        let mut out = String::from_str("https://");
        out.append(s);
        proof {
            assert(out@.subrange(0, "https://"@.len() as int) =~= "https://"@);
        }
        out
    }
}

/// Index one past the host of `s`: the first `/` at or after `start`.
fn host_end_index(s: &str, start: usize) -> (r: usize)
    requires
        start <= s@.len(),
    ensures
        r == spec_host_end(s@, start as int),
        start <= r <= s@.len(),
{
    let ghost sub = s@.subrange(start as int, s@.len() as int);
    let n = s.unicode_len();
    let mut i: usize = start;
    while i < n
        invariant
            start <= i <= n,
            n == s@.len(),
            sub == s@.subrange(start as int, s@.len() as int),
            forall|j: int| start <= j < i ==> s@[j] != '/',
        decreases n - i,
    {
        if s.get_char(i) == '/' {
            proof {
                sub.index_of_first_ensures('/');
                assert(sub[i - start] == s@[i as int]);
                assert(sub.contains('/')) by {
                    assert(sub[i - start] == '/');
                }
                let k = sub.index_of_first('/')->Some_0;
                assert(sub[k] == '/');
                assert(forall|j: int| 0 <= j < i - start ==> sub[j] == s@[start + j]);
                assert(k == i - start);
            }
            return i;
        }
        i = i + 1;
    }
    proof {
        sub.index_of_first_ensures('/');
        if sub.index_of_first('/') is Some {
            let k = sub.index_of_first('/')->Some_0;
            assert(sub[k] == s@[start + k]);
            assert(false);
        }
    }
    n
}

/// Character-for-character equality of two string slices.
fn str_eq(a: &str, b: &str) -> (r: bool)
    ensures
        r == (a@ == b@),
{
    let a_len = a.unicode_len();
    let b_len = b.unicode_len();
    if a_len != b_len {
        return false;
    }
    let mut i: usize = 0;
    while i < a_len
        invariant
            0 <= i <= a_len,
            a_len == a@.len(),
            a_len == b@.len(),
            forall|j: int| 0 <= j < i ==> a@[j] == b@[j],
        decreases a_len - i,
    {
        if a.get_char(i) != b.get_char(i) {
            return false;
        }
        i = i + 1;
    }
    proof {
        assert(a@ =~= b@);
    }
    true
}

/// Normalizes a declared repository field to the canonical GitHub form,
/// or reports that it does not name the accepted host.
pub fn clean_github_repo_url(repo_url: &str) -> (r: Option<String>)
    ensures
        match r {
            Some(u) => normalize_repo_url(repo_url@) == Some(u@),
            None => normalize_repo_url(repo_url@) is None,
        },
{
    let s1 = strip_git_plus(repo_url);
    let s2 = strip_transport(s1.as_str());
    let s3 = strip_git_suffix(s2.as_str());
    let s4 = add_scheme(s3.as_str());
    proof {
        reveal_strlit("https://");
        reveal_strlit("http://");
    }
    let n = s4.as_str().unicode_len();
    let scheme_len: usize = if starts_with_str(s4.as_str(), "https://") {
        8
    } else {
        7
    };
    let host_end = host_end_index(s4.as_str(), scheme_len);
    let host = s4.as_str().substring_char(scheme_len, host_end);
    if str_eq(host, "github.com") {
        Some(s4)
    } else if str_eq(host, "www.github.com") {
        let mut out = s4.as_str().substring_char(0, scheme_len).to_owned();
        out.append("github.com");
        out.append(s4.as_str().substring_char(host_end, n));
        proof {
            assert(out@ =~= spec_collapse_www(s4@));
        }
        Some(out)
    } else {
        None
    }
}

// ---------------------------------------------------------------------
// Registry lookup classification
// ---------------------------------------------------------------------

/// What one registry round trip produced, delivered to the library as
/// plain values by the I/O shell.
pub enum RegistryReply {
    /// A non-success HTTP status, with its code.
    Failure(u16),
    /// A success status whose body did not parse to the expected shape.
    Malformed,
    /// A parsed body with no repository field.
    NoRepository,
    /// The declared `repository.url` field.
    Repository(String),
}

/// Why one package could not be resolved, each cause distinct.
#[derive(Debug, Clone, Copy, PartialEq, Eq)]
pub enum ResolveFailure {
    /// The registry answered with this non-success status.
    RegistryStatus(u16),
    /// The registry body was not of the expected shape.
    MalformedBody,
    /// The package metadata declares no repository.
    MissingRepository,
    /// The declared repository does not normalize to a GitHub URL.
    RepositoryNotGithub,
}

/// The registry lookup URL for one package:
/// `https://registry.npmjs.org/<name>/<version>`.
pub fn registry_url(package: &Package) -> (r: String)
    ensures
        r@ == "https://registry.npmjs.org/"@ + package@.name + "/"@ + package@.version,
{
    let mut out = String::from_str("https://registry.npmjs.org/");
    out.append(package.name.as_str());
    out.append("/");
    out.append(package.version.as_str());
    out
}

/// Turns one registry reply into the canonical repository URL or a
/// classified failure: success exactly when a repository field is
/// present and normalizes to the accepted host.
pub fn resolve_reply(reply: &RegistryReply) -> (r: Result<String, ResolveFailure>)
    ensures
        match reply {
            RegistryReply::Failure(code) => r == Err::<String, ResolveFailure>(
                ResolveFailure::RegistryStatus(*code),
            ),
            RegistryReply::Malformed => r == Err::<String, ResolveFailure>(
                ResolveFailure::MalformedBody,
            ),
            RegistryReply::NoRepository => r == Err::<String, ResolveFailure>(
                ResolveFailure::MissingRepository,
            ),
            RegistryReply::Repository(u) => match normalize_repo_url(u@) {
                Some(c) => r is Ok && r->Ok_0@ == c,
                None => r == Err::<String, ResolveFailure>(ResolveFailure::RepositoryNotGithub),
            },
        },
{
    match reply {
        RegistryReply::Failure(code) => Err(ResolveFailure::RegistryStatus(*code)),
        RegistryReply::Malformed => Err(ResolveFailure::MalformedBody),
        RegistryReply::NoRepository => Err(ResolveFailure::MissingRepository),
        RegistryReply::Repository(u) => match clean_github_repo_url(u.as_str()) {
            Some(cleaned) => Ok(cleaned),
            None => Err(ResolveFailure::RepositoryNotGithub),
        },
    }
}

// ---------------------------------------------------------------------
// Bulk resolution: fail-fast aggregation in launch order
// ---------------------------------------------------------------------

/// The failure bulk resolution stops on: the package it is attributed
/// to and the classified cause.
#[derive(Debug)]
pub struct BulkFailure {
    pub package: Package,
    pub failure: ResolveFailure,
}

/// Joins the per-package resolution outcomes in launch order, fail-fast:
/// either every lookup succeeded and each package is paired with its own
/// URL, or the first failure in order is returned, attributed to its
/// package, and no result list at all.
pub fn aggregate_resolutions(
    packages: &Vec<Package>,
    outcomes: &Vec<Result<String, ResolveFailure>>,
) -> (r: Result<Vec<(Package, String)>, BulkFailure>)
    requires
        packages@.len() == outcomes@.len(),
    ensures
        match r {
            Ok(v) => {
                &&& forall|i: int| 0 <= i < outcomes@.len() ==> outcomes@[i] is Ok
                &&& v@.len() == packages@.len()
                &&& forall|i: int|
                    0 <= i < v@.len() ==> v@[i].0@ == packages@[i]@ && v@[i].1@
                        == outcomes@[i]->Ok_0@
            },
            Err(b) => exists|k: int|
                {
                    &&& 0 <= k < outcomes@.len()
                    &&& outcomes@[k] is Err
                    &&& (forall|j: int| 0 <= j < k ==> outcomes@[j] is Ok)
                    &&& b.package@ == packages@[k]@
                    &&& b.failure == outcomes@[k]->Err_0
                },
        },
{
    let mut results: Vec<(Package, String)> = Vec::new();
    let mut i: usize = 0;
    while i < packages.len()
        invariant
            0 <= i <= packages@.len(),
            packages@.len() == outcomes@.len(),
            results@.len() == i,
            forall|j: int| 0 <= j < i ==> outcomes@[j] is Ok,
            forall|j: int|
                0 <= j < i ==> results@[j].0@ == packages@[j]@ && results@[j].1@
                    == outcomes@[j]->Ok_0@,
        decreases packages@.len() - i,
    {
        let package = Package {
            name: packages[i].name.clone(),
            version: packages[i].version.clone(),
        };
        match &outcomes[i] {
            Ok(url) => {
                results.push((package, url.clone()));
                proof {
                    assert(results@[i as int].0@ == packages@[i as int]@);
                    assert(results@[i as int].1@ == outcomes@[i as int]->Ok_0@);
                }
            }
            Err(failure) => {
                let b = BulkFailure { package, failure: *failure };
                assert(outcomes@[i as int] is Err);
                return Err(b);
            }
        }
        i = i + 1;
    }
    Ok(results)
}

// ---------------------------------------------------------------------
// Bill-of-materials entry selection
// ---------------------------------------------------------------------

/// One raw entry of the parsed bill of materials, before ecosystem
/// filtering: its declared identifier and version.
pub struct SbomEntry {
    pub name: String,
    pub version: String,
}

impl View for SbomEntry {
    type V = PackageView;

    open spec fn view(&self) -> PackageView {
        PackageView { name: self.name@, version: self.version@ }
    }
}

/// The packages selected from a list of raw entries: exactly those whose
/// identifier starts with `npm:`, in order, with that prefix stripped
/// exactly once and the version kept.
pub open spec fn spec_select_npm(entries: Seq<PackageView>) -> Seq<PackageView>
    decreases entries.len(),
{
    if entries.len() == 0 {
        Seq::empty()
    } else {
        let init = spec_select_npm(entries.drop_last());
        let e = entries.last();
        if is_prefix_of("npm:"@, e.name) {
            init.push(
                PackageView {
                    name: e.name.subrange("npm:"@.len() as int, e.name.len() as int),
                    version: e.version,
                },
            )
        } else {
            init
        }
    }
}

/// The stripped image of one prefixed entry.
pub open spec fn spec_strip_npm(e: PackageView) -> PackageView {
    PackageView {
        name: e.name.subrange("npm:"@.len() as int, e.name.len() as int),
        version: e.version,
    }
}

/// Selection is sound and complete: every selected package comes from an
/// entry carrying the `npm:` prefix, with that prefix stripped exactly
/// once and the version kept; and every prefixed entry contributes its
/// stripped package. An entry without the prefix contributes nothing.
pub proof fn lemma_select_npm_membership(entries: Seq<PackageView>)
    ensures
        forall|p: PackageView| #[trigger] spec_select_npm(entries).contains(p) ==> exists|i: int|
            0 <= i < entries.len() && is_prefix_of("npm:"@, entries[i].name) && p
                == spec_strip_npm(entries[i]),
        forall|i: int|
            0 <= i < entries.len() && is_prefix_of("npm:"@, #[trigger] entries[i].name)
                ==> spec_select_npm(entries).contains(spec_strip_npm(entries[i])),
    decreases entries.len(),
{
    let sel = spec_select_npm(entries);
    if entries.len() == 0 {
    } else {
        let init_entries = entries.drop_last();
        lemma_select_npm_membership(init_entries);
        let init = spec_select_npm(init_entries);
        let e = entries.last();
        let last_i = entries.len() - 1;
        assert(forall|i: int| 0 <= i < init_entries.len() ==> init_entries[i] == entries[i]);
        if is_prefix_of("npm:"@, e.name) {
            let x = spec_strip_npm(e);
            assert(sel == init.push(x));
            assert forall|p: PackageView| #[trigger] sel.contains(p) implies exists|i: int|
                0 <= i < entries.len() && is_prefix_of("npm:"@, entries[i].name) && p
                    == spec_strip_npm(entries[i]) by {
                let j = choose|j: int| 0 <= j < sel.len() && sel[j] == p;
                if j < init.len() {
                    assert(init[j] == p);
                    assert(init.contains(p));
                    let i = choose|i: int|
                        0 <= i < init_entries.len() && is_prefix_of("npm:"@, init_entries[i].name)
                            && p == spec_strip_npm(init_entries[i]);
                    assert(0 <= i < entries.len() && is_prefix_of("npm:"@, entries[i].name) && p
                        == spec_strip_npm(entries[i]));
                } else {
                    assert(p == x);
                    assert(0 <= last_i < entries.len() && is_prefix_of("npm:"@, entries[last_i].name)
                        && p == spec_strip_npm(entries[last_i]));
                }
            };
            assert forall|i: int|
                0 <= i < entries.len() && is_prefix_of("npm:"@, #[trigger] entries[i].name) implies sel.contains(
                spec_strip_npm(entries[i]),
            ) by {
                if i == last_i {
                    assert(sel[init.len() as int] == x);
                    assert(sel.contains(x));
                } else {
                    let y = spec_strip_npm(entries[i]);
                    assert(init_entries[i] == entries[i]);
                    assert(init.contains(y));
                    let j = choose|j: int| 0 <= j < init.len() && init[j] == y;
                    assert(sel[j] == y);
                    assert(sel.contains(y));
                }
            };
        } else {
            assert(sel == init);
            assert forall|p: PackageView| #[trigger] sel.contains(p) implies exists|i: int|
                0 <= i < entries.len() && is_prefix_of("npm:"@, entries[i].name) && p
                    == spec_strip_npm(entries[i]) by {
                assert(init.contains(p));
                let i = choose|i: int|
                    0 <= i < init_entries.len() && is_prefix_of("npm:"@, init_entries[i].name) && p
                        == spec_strip_npm(init_entries[i]);
                assert(0 <= i < entries.len() && is_prefix_of("npm:"@, entries[i].name) && p
                    == spec_strip_npm(entries[i]));
            };
            assert forall|i: int|
                0 <= i < entries.len() && is_prefix_of("npm:"@, #[trigger] entries[i].name) implies sel.contains(
                spec_strip_npm(entries[i]),
            ) by {
                assert(i != last_i);
                let y = spec_strip_npm(entries[i]);
                assert(init_entries[i] == entries[i]);
                assert(init.contains(y));
            };
        }
    }
}

/// Selects the npm-prefixed entries of a parsed bill of materials.
pub fn select_npm_packages(entries: &Vec<SbomEntry>) -> (r: Vec<Package>)
    ensures
        r@.map_values(|p: Package| p@) == spec_select_npm(
            entries@.map_values(|e: SbomEntry| e@),
        ),
{
    let ghost m = entries@.map_values(|e: SbomEntry| e@);
    let mut results: Vec<Package> = Vec::new();
    let mut i: usize = 0;
    while i < entries.len()
        invariant
            0 <= i <= entries@.len(),
            m == entries@.map_values(|e: SbomEntry| e@),
            m.len() == entries@.len(),
            results@.map_values(|p: Package| p@) == spec_select_npm(m.subrange(0, i as int)),
        decreases entries@.len() - i,
    {
        let ghost pre = results@.map_values(|p: Package| p@);
        if starts_with_str(entries[i].name.as_str(), "npm:") {
            proof {
                reveal_strlit("npm:");
            }
            let n = entries[i].name.as_str().unicode_len();
            let stripped = entries[i].name.as_str().substring_char(4, n).to_owned();
            let package = Package { name: stripped, version: entries[i].version.clone() };
            results.push(package);
            proof {
                assert(results@.map_values(|p: Package| p@) =~= pre.push(
                    results@.last()@,
                ));
            }
        }
        proof {
            assert(m.subrange(0, i + 1).drop_last() =~= m.subrange(0, i as int));
            assert(m.subrange(0, i + 1).last() == entries@[i as int]@);
            assert(results@.map_values(|p: Package| p@) =~= spec_select_npm(
                m.subrange(0, i + 1),
            ));
        }
        i = i + 1;
    }
    proof {
        assert(m.subrange(0, m.len() as int) =~= m);
    }
    results
}

/// Builds the package list of the legacy JSON input format: one package
/// per entry, a missing name or version standing in as the empty string.
pub fn packages_from_fields(fields: &Vec<(Option<String>, Option<String>)>) -> (r: Vec<Package>)
    ensures
        r@.len() == fields@.len(),
        forall|i: int|
            0 <= i < fields@.len() ==> #[trigger] r@[i]@.name == (match fields@[i].0 {
                Some(s) => s@,
                None => Seq::<char>::empty(),
            }) && r@[i]@.version == (match fields@[i].1 {
                Some(s) => s@,
                None => Seq::<char>::empty(),
            }),
{
    let mut results: Vec<Package> = Vec::new();
    let mut i: usize = 0;
    while i < fields.len()
        invariant
            0 <= i <= fields@.len(),
            results@.len() == i,
            forall|j: int|
                0 <= j < i ==> #[trigger] results@[j]@.name == (match fields@[j].0 {
                    Some(s) => s@,
                    None => Seq::<char>::empty(),
                }) && results@[j]@.version == (match fields@[j].1 {
                    Some(s) => s@,
                    None => Seq::<char>::empty(),
                }),
        decreases fields@.len() - i,
    {
        let name = match &fields[i].0 {
            Some(s) => s.clone(),
            None => String::new(),
        };
        let version = match &fields[i].1 {
            Some(s) => s.clone(),
            None => String::new(),
        };
        results.push(Package { name, version });
        i = i + 1;
    }
    results
}

} // verus!
