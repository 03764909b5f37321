use vstd::prelude::*;

verus! {

/// Where the repository identifier comes from.
#[derive(Clone, Debug)]
pub enum RepoSource {
    /// Given by the user, used as it stands.
    Given(String),
    /// Not given: read the remote URL of the working copy.
    FromRemote,
}

/// Why no repository identifier could be found.
#[derive(Clone, Copy, Debug, PartialEq, Eq, Structural)]
pub enum ResolveError {
    /// The working copy has no remote.
    NoRemote,
    /// The remote URL names no repository on the hosting site.
    NotHosted,
}

/// An identifier given by the user wins; the remote is read only without one.
pub fn repo_source(explicit: Option<String>) -> (r: RepoSource)
    ensures
        explicit matches Some(s) ==> r matches RepoSource::Given(t) && t@ == s@,
        explicit is None ==> r is FromRemote,
{
    match explicit {
        Some(s) => RepoSource::Given(s),
        None => RepoSource::FromRemote,
    }
}

/// The host name that precedes "owner/name" in a remote URL.
pub open spec fn host_marker() -> Seq<char> {
    seq!['g', 'i', 't', 'h', 'u', 'b', '.', 'c', 'o', 'm']
}

/// The suffix of a repository path that is stripped.
pub open spec fn vcs_suffix() -> Seq<char> {
    seq!['.', 'g', 'i', 't']
}

pub open spec fn marker_at(s: Seq<char>, i: int) -> bool {
    0 <= i && i + 10 <= s.len() && s.subrange(i, i + 10) == host_marker()
}

/// `i` is where the host name first occurs in `s`.
pub open spec fn first_marker(s: Seq<char>, i: int) -> bool {
    marker_at(s, i) && forall|j: int| 0 <= j < i ==> !marker_at(s, j)
}

pub open spec fn ends_with_suffix(s: Seq<char>) -> bool {
    s.len() >= 4 && s.subrange(s.len() - 4, s.len() as int) == vcs_suffix()
}

/// `s` with every trailing ".git" removed.
pub open spec fn trim_suffix(s: Seq<char>) -> Seq<char>
    decreases s.len(),
{
    if ends_with_suffix(s) {
        trim_suffix(s.subrange(0, s.len() - 4))
    } else {
        s
    }
}

/// Relies on `str::chars`, collected: the characters of `s`.
#[verifier::external_body]
fn chars_of(s: &str) -> (r: Vec<char>)
    ensures
        r@ == s@,
{
    s.chars().collect()
}

/// Relies on `String`'s `FromIterator<char>`: the string of the characters.
#[verifier::external_body]
fn string_of(v: Vec<char>) -> (r: String)
    ensures
        r@ == v@,
{
    v.into_iter().collect()
}

fn marker_matches(v: &Vec<char>, marker: &Vec<char>, i: usize) -> (r: bool)
    requires
        marker@ == host_marker(),
        i + 10 <= v.len(),
    ensures
        r == marker_at(v@, i as int),
{
    let mut k: usize = 0;
    while k < 10
        invariant
            marker@ == host_marker(),
            i + 10 <= v.len(),
            k <= 10,
            forall|j: int| 0 <= j < k ==> v@[i + j] == marker@[j],
        decreases 10 - k,
    {
        if v[i + k] != marker[k] {
            assert(v@.subrange(i as int, i + 10)[k as int] != host_marker()[k as int]);
            return false;
        }
        k = k + 1;
    }
    assert(v@.subrange(i as int, i + 10) =~= host_marker());
    true
}

/// The "owner/name" path of a remote URL: what follows the first occurrence
/// of the host name and the one separator after it, with trailing ".git"
/// removed. `None` when the host name does not occur, or nothing follows it.
pub fn parse_github_repo(url: &str) -> (r: Option<String>)
    ensures
        r is None ==> forall|i: int| #[trigger] first_marker(url@, i) ==> i + 11 > url@.len(),
        r matches Some(t) ==> exists|i: int|
            #[trigger] first_marker(url@, i) && i + 11 <= url@.len() && t@ == trim_suffix(
                url@.subrange(i + 11, url@.len() as int),
            ),
{
    let v = chars_of(url);
    let marker: Vec<char> = vec!['g', 'i', 't', 'h', 'u', 'b', '.', 'c', 'o', 'm'];
    assert(marker@ =~= host_marker());
    let mut i: usize = 0;
    while v.len() >= 10 && i <= v.len() - 10
        invariant
            i <= v.len(),
            v@ == url@,
            marker@ == host_marker(),
            forall|j: int| 0 <= j < i ==> !marker_at(v@, j),
        decreases v.len() - i,
    {
        if marker_matches(&v, &marker, i) {
            if i + 10 == v.len() {
                return None;
            }
            let start = i + 11;
            let mut end = v.len();
            while end - start >= 4 && v[end - 4] == '.' && v[end - 3] == 'g' && v[end - 2] == 'i'
                && v[end - 1] == 't'
                invariant
                    start <= end <= v.len(),
                    trim_suffix(v@.subrange(start as int, v.len() as int)) == trim_suffix(
                        v@.subrange(start as int, end as int),
                    ),
                decreases end,
            {
                let ghost s = v@.subrange(start as int, end as int);
                assert(s.subrange(s.len() - 4, s.len() as int) =~= vcs_suffix());
                assert(s.subrange(0, s.len() - 4) =~= v@.subrange(start as int, end - 4));
                end = end - 4;
            }
            proof {
                let s = v@.subrange(start as int, end as int);
                if s.len() >= 4 {
                    if s.subrange(s.len() - 4, s.len() as int) == vcs_suffix() {
                        assert(s.subrange(s.len() - 4, s.len() as int)[0] == '.');
                        assert(s.subrange(s.len() - 4, s.len() as int)[1] == 'g');
                        assert(s.subrange(s.len() - 4, s.len() as int)[2] == 'i');
                        assert(s.subrange(s.len() - 4, s.len() as int)[3] == 't');
                    }
                }
            }
            let mut out: Vec<char> = Vec::new();
            let mut k: usize = start;
            while k < end
                invariant
                    start <= k <= end <= v.len(),
                    out@ =~= v@.subrange(start as int, k as int),
                decreases end - k,
            {
                out.push(v[k]);
                k = k + 1;
            }
            assert(first_marker(url@, i as int));
            return Some(string_of(out));
        }
        i = i + 1;
    }
    None
}

/// The repository named by the working copy's remote URL, if any.
pub fn repo_from_remote(remote: Option<String>) -> (r: Result<String, ResolveError>)
    ensures
        remote is None ==> r == Err::<String, ResolveError>(ResolveError::NoRemote),
        remote matches Some(u) ==> match r {
            Ok(t) => exists|i: int|
                #[trigger] first_marker(u@, i) && i + 11 <= u@.len() && t@ == trim_suffix(
                    u@.subrange(i + 11, u@.len() as int),
                ),
            Err(e) => e == ResolveError::NotHosted && forall|i: int|
                #[trigger] first_marker(u@, i) ==> i + 11 > u@.len(),
        },
{
    match remote {
        None => Err(ResolveError::NoRemote),
        Some(u) => match parse_github_repo(u.as_str()) {
            Some(t) => Ok(t),
            None => Err(ResolveError::NotHosted),
        },
    }
}

} // verus!
