//! Where things live: the repository URLs of catalogs, manifests and
//! archives, and the local path of a downloaded archive.
use vstd::prelude::*;

verus! {

/// Base URL of the artifact repository.
pub const REPOSITORY: &'static str = "https://repo1.maven.org/maven2/";

/// `s` with every `.` written as `/`.
pub open spec fn dots_to_slashes(s: Seq<char>) -> Seq<char> {
    s.map_values(|c: char| if c == '.' { '/' } else { c })
}

/// Relies on `str::replace`: every `.` replaced by `/`, nothing else changed.
#[verifier::external_body]
fn replace_dots(s: &str) -> (r: String)
    ensures
        r@ == dots_to_slashes(s@),
{
    s.replace('.', "/")
}

/// Directory URL of an artifact family: the base, the group with `.` as
/// `/`, then the artifact name, each followed by `/`.
pub open spec fn family_url(group: Seq<char>, name: Seq<char>) -> Seq<char> {
    REPOSITORY@ + dots_to_slashes(group) + seq!['/'] + name + seq!['/']
}

/// `name-version`.
pub open spec fn artifact_stem(name: Seq<char>, version: Seq<char>) -> Seq<char> {
    name + seq!['-'] + version
}

/// URL of one file of an artifact: the family URL, the version, `/`, then
/// `name-version` and the extension.
pub open spec fn artifact_file_url(
    family: Seq<char>,
    name: Seq<char>,
    version: Seq<char>,
    ext: Seq<char>,
) -> Seq<char> {
    family + version + seq!['/'] + artifact_stem(name, version) + ext
}

pub open spec fn catalog_doc() -> Seq<char> {
    "maven-metadata.xml"@
}

pub open spec fn archive_ext() -> Seq<char> {
    ".jar"@
}

pub open spec fn manifest_ext() -> Seq<char> {
    ".pom"@
}

pub open spec fn lib_dir() -> Seq<char> {
    "lib/"@
}

/// The directory URL of the family `group`/`name`.
pub fn family_url_of(group: &str, name: &str) -> (r: String)
    ensures
        r@ == family_url(group@, name@),
{
    proof {
        reveal_strlit("/");
    }
    let mut r = String::from_str(REPOSITORY);
    let g = replace_dots(group);
    r.append(g.as_str());
    r.append("/");
    r.append(name);
    r.append("/");
    r
}

/// The URL of the catalog document of a family, given its directory URL.
pub fn catalog_url(family: &str) -> (r: String)
    ensures
        r@ == family@ + catalog_doc(),
{
    let mut r = String::from_str(family);
    r.append("maven-metadata.xml");
    r
}

/// Where the files of one pinned artifact are found and stored.
pub struct ArtifactLocation {
    /// URL of the binary archive.
    pub archive_url: String,
    /// URL of the manifest.
    pub manifest_url: String,
    /// Local path the archive is written to, relative to the project root.
    pub archive_path: String,
}

/// The locations of artifact `name` at `version`, in the family whose
/// directory URL is `family`.
pub fn locate(family: &str, name: &str, version: &str) -> (r: ArtifactLocation)
    ensures
        r.archive_url@ == artifact_file_url(family@, name@, version@, archive_ext()),
        r.manifest_url@ == artifact_file_url(family@, name@, version@, manifest_ext()),
        r.archive_path@ == lib_dir() + artifact_stem(name@, version@) + archive_ext(),
{
    proof {
        reveal_strlit("/");
        reveal_strlit("-");
    }
    let mut stem = String::from_str(name);
    stem.append("-");
    stem.append(version);
    let mut base = String::from_str(family);
    base.append(version);
    base.append("/");
    base.append(stem.as_str());
    let mut archive_url = base.clone();
    archive_url.append(".jar");
    let mut manifest_url = base;
    manifest_url.append(".pom");
    let mut archive_path = String::from_str("lib/");
    archive_path.append(stem.as_str());
    archive_path.append(".jar");
    assert(archive_url@ =~= artifact_file_url(family@, name@, version@, archive_ext()));
    assert(manifest_url@ =~= artifact_file_url(family@, name@, version@, manifest_ext()));
    assert(archive_path@ =~= lib_dir() + artifact_stem(name@, version@) + archive_ext());
    ArtifactLocation { archive_url, manifest_url, archive_path }
}

/// `p` appended to `dir` as one more `/`-separated component; an absolute
/// `p` (one that starts with `/`) stands on its own.
pub open spec fn joined(dir: Seq<char>, p: Seq<char>) -> Seq<char> {
    if p.len() > 0 && p[0] == '/' {
        p
    } else if dir.len() == 0 || dir.last() == '/' {
        dir + p
    } else {
        dir + seq!['/'] + p
    }
}

/// Position of the last `/` before `end`.
pub open spec fn last_slash(p: Seq<char>, end: int) -> Option<int>
    decreases end,
{
    if end <= 0 || end > p.len() {
        None
    } else if p[end - 1] == '/' {
        Some(end - 1)
    } else {
        last_slash(p, end - 1)
    }
}

/// The directory part of the path of a file: what stands before the last
/// `/` (the root `/` where that is the first character, the current
/// directory `""` where there is none); `None` where the path names no file
/// (it is empty or ends with `/`).
pub open spec fn parent_dir(p: Seq<char>) -> Option<Seq<char>> {
    if p.len() == 0 || p.last() == '/' {
        None
    } else {
        match last_slash(p, p.len() as int) {
            None => Some(Seq::empty()),
            Some(i) => if i == 0 {
                Some(seq!['/'])
            } else {
                Some(p.take(i))
            },
        }
    }
}

/// `dir` with `path` appended.
pub fn add_to_path(dir: String, path: &str) -> (r: String)
    ensures
        r@ == joined(dir@, path@),
{
    proof {
        reveal_strlit("/");
    }
    if !path.is_empty() && path.get_char(0) == '/' {
        return String::from_str(path);
    }
    let n = dir.as_str().unicode_len();
    let mut r = dir;
    if n > 0 && r.as_str().get_char(n - 1) != '/' {
        r.append("/");
    }
    r.append(path);
    r
}

/// The directory of the file at `p`, by the rule of [`parent_dir`].
pub fn parent_of_file(p: &str) -> (r: Option<String>)
    ensures
        match r {
            Some(d) => parent_dir(p@) == Some(d@),
            None => parent_dir(p@) is None,
        },
{
    proof {
        reveal_strlit("/");
    }
    let n = p.unicode_len();
    if n == 0 || p.get_char(n - 1) == '/' {
        return None;
    }
    let mut i: usize = n;
    while i > 0
        invariant
            n == p@.len(),
            n > 0,
            p@.last() != '/',
            i <= n,
            last_slash(p@, n as int) == last_slash(p@, i as int),
        decreases i,
    {
        if p.get_char(i - 1) == '/' {
            if i == 1 {
                let r = String::from_str("/");
                proof {
                    reveal_strlit("/");
                    assert(r@.len() == 1 && r@[0] == '/');
                }
                assert(r@ =~= seq!['/']);
                return Some(r);
            }
            let r = String::from_str(p.substring_char(0, i - 1));
            assert(r@ =~= p@.take(i - 1));
            return Some(r);
        }
        i = i - 1;
    }
    Some(String::new())
}

} // verus!
