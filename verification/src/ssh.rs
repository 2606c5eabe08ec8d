//! What the SSH layer decides: how a remote command is quoted and passed to
//! the local `ssh` client, how its outcome is read, what `/etc/os-release`
//! says, and what to tell the user when a connection fails.

use vstd::prelude::*;
use vstd::string::*;
use crate::config::{Server, ServerView, destination_spec};
use crate::error::{Error, ErrorView};
use crate::paths::{
    resolve_ssh_key_path, resolve_key_spec, example_private_key_path, example_key_spec,
    public_key_path, public_key_path_spec,
};
use crate::text::{
    to_chars, from_chars, push_chars, push_decimal, decimal, lines, lines_of, views, strip_prefix,
    has_prefix, trim, trim_ws, trim_class, trim_class_chars, CharClass, replace_char,
    push_replacing, contains, has_infix, split_whitespace, tokens_of, eq_ignore_ascii_case,
    eq_ascii_ci, string_views, index_or_len, lemma_index_or_len,
};

verus! {

broadcast use vstd::string::group_string_axioms;

/// The option view of an optional string slice.
pub open spec fn opt_view(o: Option<&str>) -> Option<Seq<char>> {
    match o {
        Some(s) => Some(s@),
        None => None,
    }
}

// ---------------------------------------------------------------------------
// /etc/os-release
// ---------------------------------------------------------------------------

/// A value as os-release writes it: white space and double quotes stripped.
pub open spec fn unquote_spec(v: Seq<char>) -> Seq<char> {
    trim_class(trim_ws(v), CharClass::Exactly('"'))
}

/// The value of the last line that starts with `key`.
pub open spec fn os_release_value(ls: Seq<Seq<char>>, key: Seq<char>) -> Option<Seq<char>>
    decreases ls.len(),
{
    if ls.len() == 0 {
        None
    } else if has_prefix(ls.last(), key) {
        Some(unquote_spec(ls.last().skip(key.len() as int)))
    } else {
        os_release_value(ls.drop_last(), key)
    }
}

/// The distribution that an os-release file describes: `ID` and `VERSION_ID`
/// joined by a space, else `PRETTY_NAME`, else nothing.
pub open spec fn distro_spec(contents: Seq<char>) -> Seq<char> {
    let ls = lines_of(contents);
    let id = os_release_value(ls, "ID="@);
    let version = os_release_value(ls, "VERSION_ID="@);
    let pretty = os_release_value(ls, "PRETTY_NAME="@);
    if id is Some && version is Some {
        id->0 + " "@ + version->0
    } else if pretty is Some {
        pretty->0
    } else {
        Seq::empty()
    }
}

/// Strips white space, then surrounding double quotes, from an os-release value.
pub fn unquote_os_release_value(value: &Vec<char>) -> (r: Vec<char>)
    ensures
        r@ == unquote_spec(value@),
{
    let t = trim(value);
    trim_class_chars(&t, &CharClass::Exactly('"'))
}

/// Reads the distribution name out of `/etc/os-release`.
pub fn parse_os_release(contents: &str) -> (r: String)
    ensures
        r@ == distro_spec(contents@),
{
    let ls = lines(&to_chars(contents));
    let id_key = to_chars("ID=");
    let version_key = to_chars("VERSION_ID=");
    let pretty_key = to_chars("PRETTY_NAME=");
    proof {
        reveal_strlit("ID=");
        reveal_strlit("VERSION_ID=");
        reveal_strlit("PRETTY_NAME=");
    }
    let ghost all = views(ls@);
    let mut id: Option<Vec<char>> = None;
    let mut version_id: Option<Vec<char>> = None;
    let mut pretty_name: Option<Vec<char>> = None;
    let mut i: usize = 0;
    while i < ls.len()
        invariant
            i <= ls.len(),
            all == views(ls@),
            id_key@ == "ID="@,
            version_key@ == "VERSION_ID="@,
            pretty_key@ == "PRETTY_NAME="@,
            opt_chars(id) == os_release_value(all.take(i as int), "ID="@),
            opt_chars(version_id) == os_release_value(all.take(i as int), "VERSION_ID="@),
            opt_chars(pretty_name) == os_release_value(all.take(i as int), "PRETTY_NAME="@),
        decreases ls.len() - i,
    {
        let line = &ls[i];
        let ghost prefix = all.take(i + 1);
        assert(prefix.drop_last() =~= all.take(i as int));
        assert(prefix.last() == line@);
        if let Some(value) = strip_prefix(line, &id_key) {
            assert(!has_prefix(line@, "VERSION_ID="@) && !has_prefix(line@, "PRETTY_NAME="@)) by {
                reveal_strlit("ID=");
                reveal_strlit("VERSION_ID=");
                reveal_strlit("PRETTY_NAME=");
                assert(line@.take(3)[0] == 'I');
            }
            id = Some(unquote_os_release_value(&value));
        } else if let Some(value) = strip_prefix(line, &version_key) {
            assert(!has_prefix(line@, "PRETTY_NAME="@)) by {
                reveal_strlit("VERSION_ID=");
                reveal_strlit("PRETTY_NAME=");
                assert(line@.take(11)[0] == 'V');
            }
            version_id = Some(unquote_os_release_value(&value));
        } else if let Some(value) = strip_prefix(line, &pretty_key) {
            pretty_name = Some(unquote_os_release_value(&value));
        }
        i += 1;
    }
    assert(all.take(ls.len() as int) =~= all);
    assert(all == lines_of(contents@));
    match (id, version_id, pretty_name) {
        (Some(id), Some(version_id), _) => {
            let mut r = from_chars(&id);
            r.append(" ");
            push_chars(&mut r, &version_id);
            r
        },
        (_, _, Some(pretty_name)) => from_chars(&pretty_name),
        _ => String::new(),
    }
}

/// The characters of an optional vector.
pub open spec fn opt_chars(o: Option<Vec<char>>) -> Option<Seq<char>> {
    match o {
        Some(v) => Some(v@),
        None => None,
    }
}

/// Line `i` is the last of `ls` that starts with `key`.
pub open spec fn last_line_with(ls: Seq<Seq<char>>, key: Seq<char>, i: int) -> bool {
    &&& 0 <= i < ls.len()
    &&& has_prefix(ls[i], key)
    &&& forall|j: int| i < j < ls.len() ==> !has_prefix(#[trigger] ls[j], key)
}

/// No line of `ls` starts with `key`.
pub open spec fn no_line_with(ls: Seq<Seq<char>>, key: Seq<char>) -> bool {
    forall|j: int| 0 <= j < ls.len() ==> !has_prefix(#[trigger] ls[j], key)
}

proof fn lemma_value_of_last_line(ls: Seq<Seq<char>>, key: Seq<char>, i: int)
    requires
        last_line_with(ls, key, i),
    ensures
        os_release_value(ls, key) == Some(unquote_spec(ls[i].skip(key.len() as int))),
    decreases ls.len(),
{
    if i < ls.len() - 1 {
        assert(!has_prefix(ls[ls.len() - 1], key));
        let d = ls.drop_last();
        assert forall|j: int| i < j < d.len() implies !has_prefix(#[trigger] d[j], key) by {
            assert(d[j] == ls[j]);
        }
        lemma_value_of_last_line(d, key, i);
    }
}

proof fn lemma_value_without_line(ls: Seq<Seq<char>>, key: Seq<char>)
    requires
        no_line_with(ls, key),
    ensures
        os_release_value(ls, key) is None,
    decreases ls.len(),
{
    if ls.len() > 0 {
        assert(!has_prefix(ls[ls.len() - 1], key));
        let d = ls.drop_last();
        assert forall|j: int| 0 <= j < d.len() implies !has_prefix(#[trigger] d[j], key) by {
            assert(d[j] == ls[j]);
        }
        lemma_value_without_line(d, key);
    }
}

/// `ID` and `VERSION_ID` decide the distribution whenever both are present,
/// whatever `PRETTY_NAME` says: the distribution is the last `ID=` value,
/// a space, and the last `VERSION_ID=` value (each unquoted).
pub proof fn law_distro_from_id_and_version(contents: Seq<char>, i: int, j: int)
    requires
        last_line_with(lines_of(contents), "ID="@, i),
        last_line_with(lines_of(contents), "VERSION_ID="@, j),
    ensures
        distro_spec(contents) == unquote_spec(lines_of(contents)[i].skip("ID="@.len() as int))
            + " "@ + unquote_spec(lines_of(contents)[j].skip("VERSION_ID="@.len() as int)),
{
    lemma_value_of_last_line(lines_of(contents), "ID="@, i);
    lemma_value_of_last_line(lines_of(contents), "VERSION_ID="@, j);
}

/// `PRETTY_NAME` is used only when `ID` or `VERSION_ID` is missing: then
/// the distribution is the last `PRETTY_NAME=` value (unquoted).
pub proof fn law_distro_from_pretty_name(contents: Seq<char>, k: int)
    requires
        no_line_with(lines_of(contents), "ID="@) || no_line_with(lines_of(contents), "VERSION_ID="@),
        last_line_with(lines_of(contents), "PRETTY_NAME="@, k),
    ensures
        distro_spec(contents) == unquote_spec(
            lines_of(contents)[k].skip("PRETTY_NAME="@.len() as int),
        ),
{
    let ls = lines_of(contents);
    if no_line_with(ls, "ID="@) {
        lemma_value_without_line(ls, "ID="@);
    } else {
        lemma_value_without_line(ls, "VERSION_ID="@);
    }
    lemma_value_of_last_line(ls, "PRETTY_NAME="@, k);
}

/// Without any of the three keys there is no distribution.
pub proof fn law_distro_empty_without_keys(contents: Seq<char>)
    requires
        no_line_with(lines_of(contents), "ID="@) || no_line_with(lines_of(contents), "VERSION_ID="@),
        no_line_with(lines_of(contents), "PRETTY_NAME="@),
    ensures
        distro_spec(contents).len() == 0,
{
    let ls = lines_of(contents);
    if no_line_with(ls, "ID="@) {
        lemma_value_without_line(ls, "ID="@);
    } else {
        lemma_value_without_line(ls, "VERSION_ID="@);
    }
    lemma_value_without_line(ls, "PRETTY_NAME="@);
}

/// The distribution named by an os-release file, which must not be empty.
pub fn distro_from_os_release(contents: &str) -> (r: Result<String, Error>)
    ensures
        match r {
            Ok(d) => d@ == distro_spec(contents@) && d@.len() > 0,
            Err(e) => distro_spec(contents@).len() == 0 && e@ == ErrorView::EmptyDistro,
        },
{
    let distro = parse_os_release(contents);
    if to_chars(distro.as_str()).len() == 0 {
        Err(Error::EmptyDistro)
    } else {
        Ok(distro)
    }
}

// ---------------------------------------------------------------------------
// Quoting and the ssh command line
// ---------------------------------------------------------------------------

/// `value` inside single quotes, each `'` written as `'\''`.
pub open spec fn shell_quote_spec(value: Seq<char>) -> Seq<char> {
    seq!['\''] + replace_char(value, '\'', "'\\''"@) + seq!['\'']
}

/// Quotes `value` as one word for a POSIX shell.
pub fn shell_quote(value: &str) -> (r: String)
    ensures
        r@ == shell_quote_spec(value@),
{
    let mut r = String::new();
    crate::text::push_char(&mut r, '\'');
    push_replacing(&mut r, &to_chars(value), '\'', "'\\''");
    crate::text::push_char(&mut r, '\'');
    assert(r@ =~= shell_quote_spec(value@));
    r
}

/// The word that a POSIX shell reads from `s`, for text made only of
/// single-quoted parts and backslash-escaped characters; `None` for any
/// other text (an unterminated quote, an unescaped character).
pub open spec fn sh_word(s: Seq<char>) -> Option<Seq<char>>
    decreases s.len(),
{
    if s.len() == 0 {
        Some(seq![])
    } else if s[0] == '\'' {
        let body = s.drop_first();
        let k = index_or_len(body, '\'');
        if k >= body.len() {
            None
        } else {
            match sh_word(body.skip(k as int + 1)) {
                Some(w) => Some(body.take(k as int) + w),
                None => None,
            }
        }
    } else if s[0] == '\\' && s.len() >= 2 {
        match sh_word(s.skip(2)) {
            Some(w) => Some(seq![s[1]] + w),
            None => None,
        }
    } else {
        None
    }
}

/// Quoting is faithful: the shell reads back exactly the quoted text, as
/// one word, whatever characters it holds.
pub proof fn law_shell_quote_roundtrip(value: Seq<char>)
    ensures
        sh_word(shell_quote_spec(value)) == Some(value),
    decreases value.len(),
{
    reveal_strlit("'\\''");
    let q: Seq<char> = "'\\''"@;
    assert(q =~= seq!['\'', '\\', '\'', '\'']);
    crate::text::lemma_index_or_len_bound(value, '\'');
    let k = index_or_len(value, '\'') as int;
    lemma_index_or_len_prefix(value, '\'');
    let a = value.take(k);
    assert forall|i: int| 0 <= i < a.len() implies #[trigger] a[i] != '\'' by {
        assert(a[i] == value[i]);
    }
    crate::text::lemma_replace_char_absent(a, '\'', q);
    let s = shell_quote_spec(value);
    let body = s.drop_first();
    if k == value.len() {
        assert(a =~= value);
        assert(body =~= value + seq!['\'']);
        assert forall|i: int| 0 <= i < value.len() implies #[trigger] body[i] != '\'' by {
            assert(body[i] == value[i]);
        }
        lemma_index_or_len(body, '\'', value.len() as int);
        assert(body.skip(value.len() as int + 1) =~= Seq::<char>::empty());
        assert(sh_word(Seq::<char>::empty()) == Some(Seq::<char>::empty()));
        assert(body.take(value.len() as int) + Seq::<char>::empty() =~= value);
    } else {
        let b = value.skip(k + 1);
        assert(value =~= a + seq!['\''] + b);
        crate::text::lemma_replace_char_add(a + seq!['\''], b, '\'', q);
        crate::text::lemma_replace_char_add(a, seq!['\''], '\'', q);
        assert(replace_char(seq!['\''], '\'', q) =~= q) by {
            assert(seq!['\''].drop_last() =~= Seq::<char>::empty());
            assert(replace_char(Seq::<char>::empty(), '\'', q) =~= Seq::<char>::empty());
            assert(replace_char(seq!['\''], '\'', q) == replace_char(Seq::<char>::empty(), '\'', q) + q);
        }
        let rb = replace_char(b, '\'', q);
        assert(body =~= a + q + rb + seq!['\'']);
        assert forall|i: int| 0 <= i < k implies #[trigger] body[i] != '\'' by {
            assert(body[i] == a[i]);
        }
        assert(body[k] == '\'');
        lemma_index_or_len(body, '\'', k);
        let rest = body.skip(k + 1);
        assert(rest =~= seq!['\\', '\''] + shell_quote_spec(b));
        assert(rest.skip(2) =~= shell_quote_spec(b));
        law_shell_quote_roundtrip(b);
        assert(rest[0] == '\\' && rest[1] == '\'');
        assert(sh_word(rest) == Some(seq!['\''] + b));
        assert(body.take(k) =~= a);
        assert(a + (seq!['\''] + b) =~= value);
    }
}

/// The first occurrence: everything before it is something else.
proof fn lemma_index_or_len_prefix(s: Seq<char>, c: char)
    ensures
        forall|j: int| 0 <= j < index_or_len(s, c) ==> #[trigger] s[j] != c,
        index_or_len(s, c) < s.len() ==> s[index_or_len(s, c) as int] == c,
    decreases s.len(),
{
    crate::text::lemma_index_or_len_bound(s, c);
    if s.len() > 0 && s[0] != c {
        lemma_index_or_len_prefix(s.drop_first(), c);
        assert forall|j: int| 0 <= j < index_or_len(s, c) implies #[trigger] s[j] != c by {
            if j > 0 {
                assert(s[j] == s.drop_first()[j - 1]);
            }
        }
    }
}

/// The command line handed to the remote shell: `sh -lc '<command>'`.
pub open spec fn remote_command_spec(command: Seq<char>) -> Seq<char> {
    "sh -lc "@ + shell_quote_spec(command)
}

/// The arguments of the local `ssh` call that runs `command` on `s`.
pub open spec fn ssh_args_spec(s: ServerView, home: Option<Seq<char>>, command: Seq<char>) -> Seq<Seq<char>> {
    seq![
        "-i"@,
        resolve_key_spec(s.ssh_key, home),
        "-p"@,
        decimal(s.port as nat),
        "-o"@,
        "BatchMode=yes"@,
        "-o"@,
        "StrictHostKeyChecking=accept-new"@,
        destination_spec(s),
        remote_command_spec(command),
    ]
}

/// The here-document that writes `content` to `path` with `sudo tee`.
pub open spec fn write_file_command_spec(path: Seq<char>, content: Seq<char>) -> Seq<char> {
    "cat <<'EZVPS' | sudo tee "@ + path + " >/dev/null\n"@ + content + "\nEZVPS"@
}

/// The remote command that writes `content` to `path`.
pub fn write_file_command(path: &str, content: &str) -> (r: String)
    ensures
        r@ == write_file_command_spec(path@, content@),
{
    let mut r = "cat <<'EZVPS' | sudo tee ".to_string();
    r.append(path);
    r.append(" >/dev/null\n");
    r.append(content);
    r.append("\nEZVPS");
    r
}

/// A connection to one server through the local `ssh` client.
pub struct SshClient {
    server: Server,
}

impl SshClient {
    /// The server this client talks to.
    pub closed spec fn server_view(&self) -> ServerView {
        self.server@
    }

    /// A client for `server`.
    pub fn new(server: &Server) -> (r: SshClient)
        ensures
            r.server_view() == server@,
    {
        SshClient { server: server.clone() }
    }

    /// The server this client talks to.
    pub fn server(&self) -> (r: &Server)
        ensures
            r@ == self.server_view(),
    {
        &self.server
    }

    /// The arguments of the `ssh` call that runs `command` on the server;
    /// `home` is the local home directory that `~/` in the key path means.
    pub fn command_args(&self, command: &str, home: Option<&str>) -> (r: Vec<String>)
        ensures
            string_views(r@) == ssh_args_spec(self.server_view(), opt_view(home), command@),
    {
        let mut args: Vec<String> = Vec::new();
        args.push("-i".to_string());
        args.push(resolve_ssh_key_path(self.server.ssh_key.as_str(), home));
        args.push("-p".to_string());
        let mut port = String::new();
        push_decimal(&mut port, self.server.port as u64);
        args.push(port);
        args.push("-o".to_string());
        args.push("BatchMode=yes".to_string());
        args.push("-o".to_string());
        args.push("StrictHostKeyChecking=accept-new".to_string());
        args.push(self.server.destination());
        let mut remote = "sh -lc ".to_string();
        let quoted = shell_quote(command);
        remote.append(quoted.as_str());
        args.push(remote);
        assert(string_views(args@) =~= ssh_args_spec(self.server_view(), opt_view(home), command@));
        args
    }
}

/// What a finished `ssh` call yields: on success its standard output without
/// surrounding white space; otherwise the failure with the trimmed standard
/// error. `stdout` is `None` when the output was not UTF-8.
pub fn finish_remote_command(command: &str, success: bool, stdout: Option<&str>, stderr: &str) -> (r:
    Result<String, Error>)
    ensures
        !success ==> (r matches Err(e) && e@ == (ErrorView::RemoteCommandFailed {
            command: command@,
            stderr: trim_ws(stderr@),
        })),
        success && stdout is None ==> (r matches Err(e) && e@ == ErrorView::RemoteOutputNotUtf8),
        success && stdout is Some ==> (r matches Ok(out) && out@ == trim_ws(stdout->0@)),
{
    if !success {
        let err = from_chars(&trim(&to_chars(stderr)));
        return Err(Error::RemoteCommandFailed { command: command.to_string(), stderr: err });
    }
    match stdout {
        Some(out) => Ok(from_chars(&trim(&to_chars(out)))),
        None => Err(Error::RemoteOutputNotUtf8),
    }
}

// ---------------------------------------------------------------------------
// The local key file
// ---------------------------------------------------------------------------

/// Checks the server's SSH key setting before connecting: it must name a
/// file, and `key_exists` tells whether the resolved file exists.
pub fn validate_local_ssh_key(server: &Server, home: Option<&str>, key_exists: bool) -> (r: Result<
    (),
    Error,
>)
    ensures
        trim_ws(server@.ssh_key).len() == 0 ==> (r matches Err(e) && e@ == (
        ErrorView::EmptySshKeyPath { example: example_key_spec(opt_view(home)) })),
        trim_ws(server@.ssh_key).len() > 0 && !key_exists ==> (r matches Err(e) && e@ == (
        ErrorView::SshKeyNotFound {
            path: resolve_key_spec(server@.ssh_key, opt_view(home)),
            example: example_key_spec(opt_view(home)),
        })),
        trim_ws(server@.ssh_key).len() > 0 && key_exists ==> r is Ok,
{
    let key_path = resolve_ssh_key_path(server.ssh_key.as_str(), home);
    if trim(&to_chars(server.ssh_key.as_str())).len() == 0 {
        return Err(Error::EmptySshKeyPath { example: example_private_key_path(home) });
    }
    if !key_exists {
        return Err(
            Error::SshKeyNotFound { path: key_path, example: example_private_key_path(home) },
        );
    }
    Ok(())
}

// ---------------------------------------------------------------------------
// Diagnosing a failed connection
// ---------------------------------------------------------------------------

/// Whether `host` names this machine by a loopback name or address.
pub open spec fn is_loopback_spec(host: Seq<char>) -> bool {
    host == "localhost"@ || host == "127.0.0.1"@ || host == "::1"@
}

/// Whether two address lists share an entry.
pub open spec fn share_address(a: Seq<Seq<char>>, b: Seq<Seq<char>>) -> bool {
    exists|i: int, j: int| 0 <= i < a.len() && 0 <= j < b.len() && #[trigger] a[i] == #[trigger] b[j]
}

/// Whether the target is probably this machine: a loopback host, the local
/// host name (up to ASCII case), or an address that the machine has.
/// `hostname` is what `hostname` printed, `target_ips` what the host resolved
/// to and `local_ips` the machine's addresses; each is `None` when it could
/// not be had.
pub open spec fn self_target_spec(
    host: Seq<char>,
    hostname: Option<Seq<char>>,
    target_ips: Option<Seq<Seq<char>>>,
    local_ips: Option<Seq<Seq<char>>>,
) -> bool {
    ||| is_loopback_spec(host)
    ||| (hostname is Some && trim_ws(hostname->0).len() > 0 && eq_ascii_ci(host, trim_ws(hostname->0)))
    ||| (target_ips is Some && target_ips->0.len() > 0 && local_ips is Some && share_address(
        target_ips->0,
        local_ips->0,
    ))
}

/// The option view of an optional list of strings.
pub open spec fn opt_strings(o: Option<&Vec<String>>) -> Option<Seq<Seq<char>>> {
    match o {
        Some(v) => Some(string_views(v@)),
        None => None,
    }
}

fn same_str(a: &str, b: &str) -> (r: bool)
    ensures
        r == (a@ == b@),
{
    crate::config::same_text(a, b)
}

/// Whether the two lists share an entry.
fn shares_address(a: &Vec<String>, b: &Vec<String>) -> (r: bool)
    ensures
        r == share_address(string_views(a@), string_views(b@)),
{
    let ghost sa = string_views(a@);
    let ghost sb = string_views(b@);
    let mut i: usize = 0;
    while i < a.len()
        invariant
            i <= a.len(),
            sa == string_views(a@),
            sb == string_views(b@),
            forall|x: int, y: int| 0 <= x < i && 0 <= y < b.len() ==> #[trigger] sa[x] != #[trigger] sb[y],
        decreases a.len() - i,
    {
        let mut j: usize = 0;
        while j < b.len()
            invariant
                i < a.len(),
                j <= b.len(),
                sa == string_views(a@),
                sb == string_views(b@),
                forall|x: int, y: int| 0 <= x < i && 0 <= y < b.len() ==> #[trigger] sa[x] != #[trigger] sb[y],
                forall|y: int| 0 <= y < j ==> sa[i as int] != #[trigger] sb[y],
            decreases b.len() - j,
        {
            if same_str(a[i].as_str(), b[j].as_str()) {
                assert(sa[i as int] == sb[j as int]);
                return true;
            }
            j += 1;
        }
        i += 1;
    }
    false
}

/// Decides whether a failed connection probably targets this machine itself.
pub fn is_likely_self_target(
    host: &str,
    hostname: Option<&str>,
    target_ips: Option<&Vec<String>>,
    local_ips: Option<&Vec<String>>,
) -> (r: bool)
    ensures
        r == self_target_spec(host@, opt_view(hostname), opt_strings(target_ips), opt_strings(local_ips)),
{
    if same_str(host, "localhost") || same_str(host, "127.0.0.1") || same_str(host, "::1") {
        return true;
    }
    if let Some(name) = hostname {
        let trimmed = trim(&to_chars(name));
        if trimmed.len() > 0 && eq_ignore_ascii_case(&to_chars(host), &trimmed) {
            return true;
        }
    }
    if let Some(targets) = target_ips {
        if targets.len() > 0 {
            if let Some(locals) = local_ips {
                return shares_address(targets, locals);
            }
        }
    }
    false
}

/// The text that marks an authentication failure in ssh's error output.
pub open spec fn auth_rejected_marker() -> Seq<char> {
    "Permission denied (publickey,password)"@
}

/// The text that marks a missing file in ssh's error output.
pub open spec fn missing_file_marker() -> Seq<char> {
    "No such file or directory"@
}

/// Whether a connection error says that the server rejected the key.
pub fn is_auth_rejection(error_text: &str) -> (r: bool)
    ensures
        r == has_infix(error_text@, auth_rejected_marker()),
{
    contains(&to_chars(error_text), &to_chars("Permission denied (publickey,password)"))
}

/// The advice given when ssh may be connecting back to this machine.
pub open spec fn self_target_advice(pub_key: Seq<char>, key: Seq<char>, destination: Seq<char>) -> Seq<char> {
    "SSH authentication was rejected. It looks like ez-vps may be trying to SSH back into the same machine before your new key is authorized.\n\nTry this on the target machine:\n  mkdir -p ~/.ssh\n  chmod 700 ~/.ssh\n  cat "@
        + pub_key
        + " >> ~/.ssh/authorized_keys\n  chmod 600 ~/.ssh/authorized_keys\n\nThen verify it manually:\n  ssh -i "@
        + key + " "@ + destination
}

/// The advice given when the server rejected the key.
pub open spec fn auth_advice(key: Seq<char>, s: ServerView) -> Seq<char> {
    "SSH authentication was rejected.\n\nCheck these items:\n  - The public key for "@ + key
        + " is installed in ~/.ssh/authorized_keys on the target server\n  - The SSH user `"@
        + s.user + "` is correct\n  - The server allows key-based login on port "@ + decimal(
        s.port as nat,
    ) + "\n\nThen verify it manually:\n  ssh -i "@ + key + " "@ + destination_spec(s)
}

/// The advice given when the local key file is missing.
pub open spec fn missing_key_advice(example: Seq<char>) -> Seq<char> {
    "The local SSH key file could not be found.\n\nUpdate `ssh_key` so it points to a private key on the machine running ez-vps, for example:\n  "@
        + example
}

/// The advice given for any other connection failure.
pub open spec fn connection_advice(key: Seq<char>, s: ServerView) -> Seq<char> {
    "SSH connection failed.\n\nCheck these items:\n  - Host `"@ + s.host
        + "` resolves to the correct server\n  - SSH user `"@ + s.user + "` and port `"@ + decimal(
        s.port as nat,
    ) + "` are correct\n  - The private key exists locally at "@ + key
        + "\n\nManual test:\n  ssh -i "@ + key + " -p "@ + decimal(s.port as nat) + " "@
        + destination_spec(s)
}

/// What to tell the user about a failed connection. `key_exists` tells
/// whether the resolved key file exists and `likely_self_target` whether the
/// server is probably this machine (it only matters for rejected keys).
pub open spec fn diagnosis_spec(
    s: ServerView,
    error_text: Seq<char>,
    home: Option<Seq<char>>,
    key_exists: bool,
    likely_self_target: bool,
) -> Seq<char> {
    let key = resolve_key_spec(s.ssh_key, home);
    if has_infix(error_text, auth_rejected_marker()) {
        if likely_self_target {
            self_target_advice(public_key_path_spec(key), key, destination_spec(s))
        } else {
            auth_advice(key, s)
        }
    } else if has_infix(error_text, missing_file_marker()) && !key_exists {
        missing_key_advice(example_key_spec(home))
    } else {
        connection_advice(key, s)
    }
}

/// Explains a failed connection to the user.
pub fn diagnose_connection_error(
    server: &Server,
    error_text: &str,
    home: Option<&str>,
    key_exists: bool,
    likely_self_target: bool,
) -> (r: String)
    ensures
        r@ == diagnosis_spec(server@, error_text@, opt_view(home), key_exists, likely_self_target),
{
    let key_path = resolve_ssh_key_path(server.ssh_key.as_str(), home);
    let text = to_chars(error_text);
    if is_auth_rejection(error_text) {
        if likely_self_target {
            let pub_key = public_key_path(key_path.as_str());
            let mut r =
                "SSH authentication was rejected. It looks like ez-vps may be trying to SSH back into the same machine before your new key is authorized.\n\nTry this on the target machine:\n  mkdir -p ~/.ssh\n  chmod 700 ~/.ssh\n  cat ".to_string();
            r.append(pub_key.as_str());
            r.append(
                " >> ~/.ssh/authorized_keys\n  chmod 600 ~/.ssh/authorized_keys\n\nThen verify it manually:\n  ssh -i ",
            );
            r.append(key_path.as_str());
            r.append(" ");
            r.append(server.destination().as_str());
            return r;
        }
        let mut r = "SSH authentication was rejected.\n\nCheck these items:\n  - The public key for ".to_string();
        r.append(key_path.as_str());
        r.append(" is installed in ~/.ssh/authorized_keys on the target server\n  - The SSH user `");
        r.append(server.user.as_str());
        r.append("` is correct\n  - The server allows key-based login on port ");
        push_decimal(&mut r, server.port as u64);
        r.append("\n\nThen verify it manually:\n  ssh -i ");
        r.append(key_path.as_str());
        r.append(" ");
        r.append(server.destination().as_str());
        return r;
    }
    if contains(&text, &to_chars("No such file or directory")) && !key_exists {
        let mut r =
            "The local SSH key file could not be found.\n\nUpdate `ssh_key` so it points to a private key on the machine running ez-vps, for example:\n  ".to_string();
        r.append(example_private_key_path(home).as_str());
        return r;
    }
    let mut r = "SSH connection failed.\n\nCheck these items:\n  - Host `".to_string();
    r.append(server.host.as_str());
    r.append("` resolves to the correct server\n  - SSH user `");
    r.append(server.user.as_str());
    r.append("` and port `");
    push_decimal(&mut r, server.port as u64);
    r.append("` are correct\n  - The private key exists locally at ");
    r.append(key_path.as_str());
    r.append("\n\nManual test:\n  ssh -i ");
    r.append(key_path.as_str());
    r.append(" -p ");
    push_decimal(&mut r, server.port as u64);
    r.append(" ");
    r.append(server.destination().as_str());
    r
}

/// The context line put above a connection failure.
pub open spec fn connect_failure_spec(s: ServerView) -> Seq<char> {
    "failed to connect to "@ + destination_spec(s) + " using local ssh client"@
}

/// The context line put above a connection failure.
pub fn connect_failure_context(server: &Server) -> (r: String)
    ensures
        r@ == connect_failure_spec(server@),
{
    let mut r = "failed to connect to ".to_string();
    r.append(server.destination().as_str());
    r.append(" using local ssh client");
    r
}

// ---------------------------------------------------------------------------
// Local addresses
// ---------------------------------------------------------------------------

/// The second `:`-separated field of a line, trimmed, when the line has a `:`.
pub open spec fn after_colon(l: Seq<char>) -> Option<Seq<char>> {
    let k = index_or_len(l, ':');
    if k >= l.len() {
        None
    } else {
        let rest = l.skip(k as int + 1);
        Some(trim_ws(rest.take(index_or_len(rest, ':') as int)))
    }
}

/// The second fields of the lines that have one, in order.
pub open spec fn colon_fields(ls: Seq<Seq<char>>) -> Seq<Seq<char>>
    decreases ls.len(),
{
    if ls.len() == 0 {
        seq![]
    } else {
        colon_fields(ls.drop_last()) + match after_colon(ls.last()) {
            Some(f) => seq![f],
            None => seq![],
        }
    }
}

/// The words that may be local addresses in the output of the address
/// listing command: on Windows (`ipconfig`) the value after the first `:` of
/// each line, elsewhere (`hostname -I`) each whitespace-separated word.
pub open spec fn address_candidates_spec(output: Seq<char>, windows: bool) -> Seq<Seq<char>> {
    if windows {
        colon_fields(lines_of(output))
    } else {
        tokens_of(output)
    }
}

/// Index of the first `c` in `v[from..]`, or `v.len()`.
fn find_from(v: &Vec<char>, from: usize, c: char) -> (k: usize)
    requires
        from <= v.len(),
    ensures
        from <= k <= v.len(),
        k - from == index_or_len(v@.skip(from as int), c),
{
    let mut k = from;
    while k < v.len() && v[k] != c
        invariant
            from <= k <= v.len(),
            forall|m: int| from <= m < k ==> v@[m] != c,
        decreases v.len() - k,
    {
        k += 1;
    }
    proof {
        let s = v@.skip(from as int);
        assert forall|m: int| 0 <= m < k - from implies #[trigger] s[m] != c by {
            assert(s[m] == v@[from + m]);
        }
        if k < v.len() {
            assert(s[k - from] == v@[k as int]);
        }
        lemma_index_or_len(s, c, k - from);
    }
    k
}

fn colon_field(l: &Vec<char>) -> (r: Option<Vec<char>>)
    ensures
        opt_chars(r) == after_colon(l@),
{
    let k = find_from(l, 0, ':');
    assert(l@.skip(0) =~= l@);
    if k >= l.len() {
        return None;
    }
    let e = find_from(l, k + 1, ':');
    let field = crate::text::sub_chars(l, k + 1, e);
    let t = trim(&field);
    proof {
        let rest = l@.skip(k + 1);
        assert(rest.take(e - k - 1) =~= field@);
    }
    Some(t)
}

/// Candidate local addresses in the output of the address listing command.
pub fn address_candidates(output: &str, windows: bool) -> (r: Vec<String>)
    ensures
        string_views(r@) == address_candidates_spec(output@, windows),
{
    let chars = to_chars(output);
    let mut out: Vec<String> = Vec::new();
    if windows {
        let ls = lines(&chars);
        let ghost all = views(ls@);
        let mut i: usize = 0;
        while i < ls.len()
            invariant
                i <= ls.len(),
                all == views(ls@),
                string_views(out@) == colon_fields(all.take(i as int)),
            decreases ls.len() - i,
        {
            let ghost prefix = all.take(i + 1);
            assert(prefix.drop_last() =~= all.take(i as int));
            assert(prefix.last() == ls@[i as int]@);
            match colon_field(&ls[i]) {
                Some(f) => {
                    let s = from_chars(&f);
                    assert(string_views(out@.push(s)) =~= string_views(out@).push(s@));
                    out.push(s);
                },
                None => {},
            }
            assert(string_views(out@) =~= colon_fields(prefix));
            i += 1;
        }
        assert(all.take(ls.len() as int) =~= all);
    } else {
        let words = split_whitespace(&chars);
        let ghost all = views(words@);
        let mut i: usize = 0;
        while i < words.len()
            invariant
                i <= words.len(),
                all == views(words@),
                string_views(out@) == all.take(i as int),
            decreases words.len() - i,
        {
            let s = from_chars(&words[i]);
            assert(string_views(out@.push(s)) =~= string_views(out@).push(s@));
            out.push(s);
            assert(all.take(i + 1) =~= all.take(i as int).push(all[i as int]));
            i += 1;
        }
        assert(all.take(words.len() as int) =~= all);
    }
    out
}

} // verus!
