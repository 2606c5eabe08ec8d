//! Paths of local files, as the strings the configuration holds.

use vstd::prelude::*;
use vstd::string::*;
use crate::text::{to_chars, from_chars, strip_prefix, trim, trim_ws, has_prefix};

verus! {

broadcast use vstd::string::group_string_axioms;

/// What `Path::join` gives: `part` appended to `base` as a path of this
/// platform (an absolute `part` replaces `base`).
pub uninterp spec fn path_join(base: Seq<char>, part: Seq<char>) -> Seq<char>;

/// A single relative path component made of letters, digits, `_`, `-` and
/// `.`, other than `.` and `..`: a plain file or directory name.
pub open spec fn plain_name(p: Seq<char>) -> bool {
    &&& p.len() > 0
    &&& forall|i: int| 0 <= i < p.len() ==> {
        let c = #[trigger] p[i];
        ('a' <= c <= 'z') || ('A' <= c <= 'Z') || ('0' <= c <= '9') || c == '_' || c == '-'
            || c == '.'
    }
    &&& p != "."@
    &&& p != ".."@
}

/// Whether `s` ends with `suffix`.
pub open spec fn ends_with(s: Seq<char>, suffix: Seq<char>) -> bool {
    suffix.len() <= s.len() && s.subrange(s.len() - suffix.len(), s.len() as int) == suffix
}

/// `base` joined with `part` (`Path::join`). Where `part` is a plain name,
/// it is adjoined as the last component, so the result ends with it; what
/// comes before it (the separator, and `base` itself) is left unsaid, as it
/// depends on the platform.
#[verifier::external_body]
pub(crate) fn join_path(base: &str, part: &str) -> (r: String)
    ensures
        r@ == path_join(base@, part@),
        plain_name(part@) ==> ends_with(r@, part@),
{
    std::path::Path::new(base).join(part).to_string_lossy().into_owned()
}

/// What `Path::file_name` gives for a path: its last normal component, if any.
pub uninterp spec fn path_file_name(p: Seq<char>) -> Option<Seq<char>>;

/// What `Path::with_file_name` gives: the path with its last component
/// replaced by (or, where it has none, extended with) `name`.
pub uninterp spec fn path_with_file_name(p: Seq<char>, name: Seq<char>) -> Seq<char>;

/// The last component of `path` (`Path::file_name`).
#[verifier::external_body]
fn file_name_of(path: &str) -> (r: Option<String>)
    ensures
        match r {
            Some(n) => path_file_name(path@) == Some(n@),
            None => path_file_name(path@) is None,
        },
{
    match std::path::Path::new(path).file_name() {
        Some(name) => Some(name.to_string_lossy().into_owned()),
        None => None,
    }
}

/// `path` with its file name replaced by `name` (`Path::with_file_name`).
#[verifier::external_body]
fn with_file_name_of(path: &str, name: &str) -> (r: String)
    ensures
        r@ == path_with_file_name(path@, name@),
{
    std::path::Path::new(path).with_file_name(name).to_string_lossy().into_owned()
}

/// The file name of the public key beside a private key named `name`:
/// `name` with `.pub` appended, or `id_ed25519.pub` where there is no name.
pub open spec fn public_key_file_name_spec(name: Option<Seq<char>>) -> Seq<char> {
    match name {
        Some(n) => n + ".pub"@,
        None => "id_ed25519.pub"@,
    }
}

/// The public key's file name for a private key file named `name`.
pub fn public_key_file_name(name: Option<&str>) -> (r: String)
    ensures
        r@ == public_key_file_name_spec(match name {
            Some(n) => Some(n@),
            None => None,
        }),
{
    match name {
        Some(n) => {
            let mut r = n.to_string();
            r.append(".pub");
            r
        },
        None => "id_ed25519.pub".to_string(),
    }
}

/// The public key that belongs to a private key file: the same file name
/// with `.pub` appended, or `id_ed25519.pub` where the path names no file.
pub open spec fn public_key_path_spec(p: Seq<char>) -> Seq<char> {
    path_with_file_name(
        p,
        public_key_file_name_spec(path_file_name(p)),
    )
}

/// The path of the public key beside a private key file.
pub fn public_key_path(private_key_path: &str) -> (r: String)
    ensures
        r@ == public_key_path_spec(private_key_path@),
{
    let file_name = match file_name_of(private_key_path) {
        Some(name) => public_key_file_name(Some(name.as_str())),
        None => public_key_file_name(None),
    };
    with_file_name_of(private_key_path, file_name.as_str())
}

/// The key file a configured `ssh_key` names: trimmed, with a leading `~/`
/// resolved against the home directory when one is known.
pub open spec fn resolve_key_spec(raw: Seq<char>, home: Option<Seq<char>>) -> Seq<char> {
    let t = trim_ws(raw);
    if has_prefix(t, "~/"@) && home is Some {
        path_join(home->0, t.skip(2))
    } else {
        t
    }
}

/// Resolves the configured SSH key path (`~/` expands to `home`).
pub fn resolve_ssh_key_path(raw: &str, home: Option<&str>) -> (r: String)
    ensures
        r@ == resolve_key_spec(raw@, match home {
            Some(h) => Some(h@),
            None => None,
        }),
{
    let trimmed = trim(&to_chars(raw));
    let tilde = to_chars("~/");
    proof {
        reveal_strlit("~/");
    }
    match strip_prefix(&trimmed, &tilde) {
        Some(stripped) => match home {
            Some(h) => {
                let rest = from_chars(&stripped);
                join_path(h, rest.as_str())
            },
            None => from_chars(&trimmed),
        },
        None => from_chars(&trimmed),
    }
}

/// The example key path that messages suggest.
pub open spec fn example_key_spec(home: Option<Seq<char>>) -> Seq<char> {
    match home {
        Some(h) => path_join(path_join(h, ".ssh"@), "id_ed25519"@),
        None => "~/.ssh/id_ed25519"@,
    }
}

/// The example private key path shown in hints: `~/.ssh/id_ed25519` under the
/// home directory when one is known.
pub fn example_private_key_path(home: Option<&str>) -> (r: String)
    ensures
        r@ == example_key_spec(match home {
            Some(h) => Some(h@),
            None => None,
        }),
{
    match home {
        Some(h) => {
            let dir = join_path(h, ".ssh");
            join_path(dir.as_str(), "id_ed25519")
        },
        None => "~/.ssh/id_ed25519".to_string(),
    }
}

} // verus!
