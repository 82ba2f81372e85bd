//! Resolve the remote kw deploy target from kw's `remote.config`.
//!
//! The file is a small ssh-config-like text file written by `kw remote`: an
//! optional `#kw-default=<name>` sentinel plus `Host` stanzas with
//! `Hostname` / `Port` / `User`. Resolution prefers
//! `<tree>/.kw/remote.config`, then
//! `${XDG_CONFIG_HOME:-$HOME/.config}/kw/remote.config`. A present local
//! file is authoritative even when empty or unreadable.
use vstd::prelude::*;

use crate::infra::{EnvTrait, FileSystemTrait};
use crate::text::{
    append_chars, chars_of, decimal, decimal_chars, eq_ignore_ascii_case,
    eq_ignore_ascii_case_exec, lines, lines_of, parse_u64, parse_unsigned, slice_range, starts_with,
    starts_with_chars, string_from_chars, trim, trim_chars, word_end, word_end_exec, first_word,
    first_word_exec, chars_eq,
};

verus! {

/// A Host stanza from `remote.config` that has a usable Hostname.
#[derive(Debug, PartialEq, Eq)]
pub struct KwRemote {
    pub name: String,
    pub hostname: String,
    pub port: u16,
    pub user: Option<String>,
}

/// A remote as (name, hostname, port, user).
pub type HostModel = (Seq<char>, Seq<char>, u16, Option<Seq<char>>);

/// A stanza being read: (name, hostname, port text, user).
pub type BuilderModel = (Seq<char>, Option<Seq<char>>, Option<Seq<char>>, Option<Seq<char>>);

/// Parser state: (default name, complete hosts so far, open stanza).
pub type ParseState = (Option<Seq<char>>, Seq<HostModel>, Option<BuilderModel>);

pub open spec fn opt_view(o: Option<String>) -> Option<Seq<char>> {
    match o {
        Some(s) => Some(s@),
        None => None,
    }
}

impl View for KwRemote {
    type V = HostModel;

    open spec fn view(&self) -> HostModel {
        (self.name@, self.hostname@, self.port, opt_view(self.user))
    }
}

pub open spec fn hosts_view(v: Seq<KwRemote>) -> Seq<HostModel> {
    v.map_values(|h: KwRemote| h@)
}

/// The `--remote` token kw's deploy parser accepts: `[user@]host:port`.
pub open spec fn endpoint_spec(h: HostModel) -> Seq<char> {
    match h.3 {
        Some(u) => u + seq!['@'] + h.1 + seq![':'] + decimal(h.2 as nat),
        None => h.1 + seq![':'] + decimal(h.2 as nat),
    }
}

fn clone_string(s: &String) -> (r: String)
    ensures
        r@ == s@,
{
    s.clone()
}

fn clone_opt_string(s: &Option<String>) -> (r: Option<String>)
    ensures
        opt_view(r) == opt_view(*s),
{
    match s {
        Some(v) => Some(clone_string(v)),
        None => None,
    }
}

impl KwRemote {
    /// The `--remote` token kw's deploy parser accepts: `[user@]host:port`.
    pub fn endpoint(&self) -> (r: String)
        ensures
            r@ == endpoint_spec(self@),
    {
        let mut out: Vec<char> = Vec::new();
        match &self.user {
            Some(user) => {
                let u = chars_of(user.as_str());
                append_chars(&mut out, u.as_slice());
                out.push('@');
            },
            None => {},
        }
        let h = chars_of(self.hostname.as_str());
        append_chars(&mut out, h.as_slice());
        out.push(':');
        let p = decimal_chars(self.port as u64);
        append_chars(&mut out, p.as_slice());
        assert(out@ =~= endpoint_spec(self@));
        string_from_chars(out.as_slice())
    }

    /// A copy of this remote.
    pub fn duplicate(&self) -> (r: KwRemote)
        ensures
            r@ == self@,
    {
        KwRemote {
            name: clone_string(&self.name),
            hostname: clone_string(&self.hostname),
            port: self.port,
            user: clone_opt_string(&self.user),
        }
    }
}

/// Why a deploy remote could not be resolved. Each variant's message is
/// the actionable explanation.
#[derive(Debug, PartialEq, Eq)]
pub enum RemoteRefusal {
    NoRemotesConfigured,
    NoDefault { count: usize },
    DefaultNotFound { name: String },
}

/// Refusal by kind: 0 no remotes, 1 no default with a count, 2 default not
/// found with a name.
pub open spec fn refusal_view(r: RemoteRefusal) -> (int, nat, Seq<char>) {
    match r {
        RemoteRefusal::NoRemotesConfigured => (0, 0, seq![]),
        RemoteRefusal::NoDefault { count } => (1, count as nat, seq![]),
        RemoteRefusal::DefaultNotFound { name } => (2, 0, name@),
    }
}

impl RemoteRefusal {
    /// The actionable explanation shown to the user.
    pub fn message(&self) -> (r: String)
        ensures
            self is NoDefault ==> r@ == decimal(self->count as nat) + " remotes configured with no default; set one with `kw remote --set-default` or edit `.kw/remote.config`"@,
            self is DefaultNotFound ==> r@ == "default remote '"@ + self->name@ + "' is not a Host in remote.config; set a valid default with `kw remote --set-default`"@,
            self is NoRemotesConfigured ==> r@ == "no remotes configured; configure a remote with `kw remote --set-default` or edit `.kw/remote.config`"@,
    {
        match self {
            RemoteRefusal::NoRemotesConfigured => {
                let t = chars_of(
                    "no remotes configured; configure a remote with `kw remote --set-default` or edit `.kw/remote.config`",
                );
                string_from_chars(t.as_slice())
            },
            RemoteRefusal::NoDefault { count } => {
                let mut out = decimal_chars(*count as u64);
                let t = chars_of(
                    " remotes configured with no default; set one with `kw remote --set-default` or edit `.kw/remote.config`",
                );
                append_chars(&mut out, t.as_slice());
                string_from_chars(out.as_slice())
            },
            RemoteRefusal::DefaultNotFound { name } => {
                let mut out = chars_of("default remote '");
                let n = chars_of(name.as_str());
                append_chars(&mut out, n.as_slice());
                let t = chars_of(
                    "' is not a Host in remote.config; set a valid default with `kw remote --set-default`",
                );
                append_chars(&mut out, t.as_slice());
                string_from_chars(out.as_slice())
            },
        }
    }
}

/// Parsed contents of a `remote.config` file. Incomplete Host stanzas (no
/// Hostname, or an unparseable Port) are dropped rather than guessed.
#[derive(Debug, PartialEq, Eq)]
pub struct ParsedRemoteConfig {
    pub default: Option<String>,
    pub hosts: Vec<KwRemote>,
}

impl View for ParsedRemoteConfig {
    type V = (Option<Seq<char>>, Seq<HostModel>);

    open spec fn view(&self) -> (Option<Seq<char>>, Seq<HostModel>) {
        (opt_view(self.default), hosts_view(self.hosts@))
    }
}

// ───────────────────────────── specification ─────────────────────────────

/// The port of a stanza: 22 when unset or empty, else the text parsed as a
/// non-zero `u16`; `None` when that fails.
pub open spec fn port_of(p: Option<Seq<char>>) -> Option<u16> {
    match p {
        None => Some(22u16),
        Some(t) => if t.len() == 0 {
            Some(22u16)
        } else {
            match parse_unsigned(t) {
                Some(v) => if 0 < v && v <= 65535 {
                    Some(v as u16)
                } else {
                    None
                },
                None => None,
            }
        },
    }
}

/// A complete host from a stanza, or `None` when it lacks a Hostname or has
/// an unusable Port. An empty User counts as unset.
pub open spec fn finish_host(b: BuilderModel) -> Option<HostModel> {
    match b.1 {
        None => None,
        Some(h) => if h.len() == 0 {
            None
        } else {
            match port_of(b.2) {
                None => None,
                Some(port) => Some(
                    (
                        b.0,
                        h,
                        port,
                        match b.3 {
                            Some(u) => if u.len() == 0 {
                                None
                            } else {
                                Some(u)
                            },
                            None => None,
                        },
                    ),
                ),
            }
        },
    }
}

/// First index `>= i` of a host named `name`.
pub open spec fn name_index(hosts: Seq<HostModel>, name: Seq<char>, i: int) -> Option<int>
    decreases hosts.len() - i,
{
    if i < 0 || i >= hosts.len() {
        None
    } else if hosts[i].0 == name {
        Some(i)
    } else {
        name_index(hosts, name, i + 1)
    }
}

/// Insert `h`, replacing an earlier host of the same name in place.
pub open spec fn upsert(hosts: Seq<HostModel>, h: HostModel) -> Seq<HostModel> {
    match name_index(hosts, h.0, 0) {
        Some(i) => hosts.update(i, h),
        None => hosts.push(h),
    }
}

/// Close the open stanza, if any, keeping it when complete.
pub open spec fn flush(hosts: Seq<HostModel>, cur: Option<BuilderModel>) -> Seq<HostModel> {
    match cur {
        Some(b) => match finish_host(b) {
            Some(h) => upsert(hosts, h),
            None => hosts,
        },
        None => hosts,
    }
}

/// The keyword of a non-empty trimmed line: its first word.
pub open spec fn keyword_of(t: Seq<char>) -> Seq<char> {
    t.take(word_end(t))
}

/// The rest of the line after the keyword, trimmed.
pub open spec fn rest_of(t: Seq<char>) -> Seq<char> {
    trim(t.skip(word_end(t)))
}

/// The effect of one line of `remote.config` on the parser state.
pub open spec fn step(st: ParseState, line: Seq<char>) -> ParseState {
    let t = trim(line);
    if t.len() == 0 {
        st
    } else if starts_with(t, "#kw-default="@) {
        let name = trim(t.skip("#kw-default="@.len() as int));
        if name.len() > 0 {
            (Some(name), st.1, st.2)
        } else {
            st
        }
    } else if starts_with(t, "#"@) {
        st
    } else {
        let kw = keyword_of(t);
        let rest = rest_of(t);
        if eq_ignore_ascii_case(kw, "host"@) {
            let name = first_word(rest);
            (
                st.0,
                flush(st.1, st.2),
                if name.len() > 0 {
                    Some((name, None, None, None))
                } else {
                    None
                },
            )
        } else {
            match st.2 {
                None => st,
                Some(b) => if rest.len() == 0 {
                    st
                } else if eq_ignore_ascii_case(kw, "hostname"@) {
                    (st.0, st.1, Some((b.0, Some(rest), b.2, b.3)))
                } else if eq_ignore_ascii_case(kw, "port"@) {
                    (st.0, st.1, Some((b.0, b.1, Some(rest), b.3)))
                } else if eq_ignore_ascii_case(kw, "user"@) {
                    (st.0, st.1, Some((b.0, b.1, b.2, Some(rest))))
                } else {
                    st
                },
            }
        }
    }
}

/// The parser state after the given lines.
pub open spec fn fold_lines(ls: Seq<Seq<char>>) -> ParseState
    decreases ls.len(),
{
    if ls.len() == 0 {
        (None, seq![], None)
    } else {
        step(fold_lines(ls.drop_last()), ls.last())
    }
}

/// What `remote.config` text parses to: the last `#kw-default=` name, and
/// the complete Host stanzas in first-appearance order, a later stanza of
/// the same name replacing an earlier one.
pub open spec fn parse_remote_config_spec(content: Seq<char>) -> (Option<Seq<char>>, Seq<HostModel>) {
    let st = fold_lines(lines(content));
    (st.0, flush(st.1, st.2))
}

/// The remote chosen from a parsed file: the default when set (refused when
/// no host has its name), else the only host (refused when there are none or
/// several). Errors as in [`refusal_view`].
pub open spec fn select_spec(p: (Option<Seq<char>>, Seq<HostModel>)) -> Result<
    HostModel,
    (int, nat, Seq<char>),
> {
    match p.0 {
        Some(name) => match name_index(p.1, name, 0) {
            Some(i) => Ok(p.1[i]),
            None => Err((2, 0, name)),
        },
        None => if p.1.len() == 0 {
            Err((0, 0, seq![]))
        } else if p.1.len() == 1 {
            Ok(p.1[0])
        } else {
            Err((1, p.1.len(), seq![]))
        },
    }
}

/// A usable remote: a non-empty hostname, a non-zero port, and a user that
/// is either unset or non-empty.
pub open spec fn usable_host(h: HostModel) -> bool {
    h.1.len() > 0 && h.2 != 0 && (h.3 matches Some(u) ==> u.len() > 0)
}

// ───────────────────────────── executable ─────────────────────────────

struct HostBuilder {
    name: String,
    hostname: Option<String>,
    port: Option<String>,
    user: Option<String>,
}

impl View for HostBuilder {
    type V = BuilderModel;

    closed spec fn view(&self) -> BuilderModel {
        (self.name@, opt_view(self.hostname), opt_view(self.port), opt_view(self.user))
    }
}

impl HostBuilder {
    fn new(name: &[char]) -> (r: Self)
        ensures
            r@ == (name@, None::<Seq<char>>, None::<Seq<char>>, None::<Seq<char>>),
    {
        HostBuilder { name: string_from_chars(name), hostname: None, port: None, user: None }
    }

    fn finish(self) -> (r: Option<KwRemote>)
        ensures
            match r {
                Some(h) => finish_host(self@) == Some(h@),
                None => finish_host(self@) is None,
            },
    {
        let hostname = match self.hostname {
            Some(h) => h,
            None => {
                return None;
            },
        };
        let hchars = chars_of(hostname.as_str());
        if hchars.len() == 0 {
            return None;
        }
        let port: u16 = match &self.port {
            None => 22,
            Some(p) => {
                let pc = chars_of(p.as_str());
                if pc.len() == 0 {
                    22
                } else {
                    match parse_u64(pc.as_slice()) {
                        Some(v) => {
                            if v == 0 || v > 65535 {
                                return None;
                            }
                            v as u16
                        },
                        None => {
                            return None;
                        },
                    }
                }
            },
        };
        let user = match self.user {
            Some(u) => {
                let uc = chars_of(u.as_str());
                if uc.len() == 0 {
                    None
                } else {
                    Some(u)
                }
            },
            None => None,
        };
        Some(KwRemote { name: self.name, hostname, port, user })
    }
}

fn upsert_host(hosts: &mut Vec<KwRemote>, host: KwRemote)
    ensures
        hosts_view(final(hosts)@) == upsert(hosts_view(old(hosts)@), host@),
{
    let ghost hv = hosts_view(hosts@);
    let name = chars_of(host.name.as_str());
    let mut i: usize = 0;
    while i < hosts.len()
        invariant
            i <= hosts@.len(),
            hv == hosts_view(hosts@),
            hv == hosts_view(old(hosts)@),
            name@ == host@.0,
            name_index(hv, host@.0, 0) == name_index(hv, host@.0, i as int),
        decreases hosts.len() - i,
    {
        let n = chars_of(hosts[i].name.as_str());
        assert(hv[i as int] == hosts@[i as int]@);
        if chars_eq(n.as_slice(), name.as_slice()) {
            assert(hv[i as int].0 == host@.0);
            assert(name_index(hv, host@.0, i as int) == Some(i as int));
            hosts.set(i, host);
            assert(hosts_view(hosts@) =~= hv.update(i as int, host@));
            return;
        }
        i += 1;
    }
    hosts.push(host);
    assert(hosts_view(hosts@) =~= hv.push(host@));
}

struct ParserState {
    default: Option<String>,
    hosts: Vec<KwRemote>,
    current: Option<HostBuilder>,
}

impl View for ParserState {
    type V = ParseState;

    closed spec fn view(&self) -> ParseState {
        (
            opt_view(self.default),
            hosts_view(self.hosts@),
            match self.current {
                Some(b) => Some(b@),
                None => None,
            },
        )
    }
}

fn flush_current(hosts: &mut Vec<KwRemote>, current: Option<HostBuilder>)
    ensures
        hosts_view(final(hosts)@) == flush(
            hosts_view(old(hosts)@),
            match current {
                Some(b) => Some(b@),
                None => None,
            },
        ),
{
    match current {
        Some(b) => match b.finish() {
            Some(h) => upsert_host(hosts, h),
            None => {},
        },
        None => {},
    }
}

fn apply_line(st: &mut ParserState, line: &[char])
    ensures
        final(st)@ == step(old(st)@, line@),
{
    let t = trim_chars(line);
    if t.len() == 0 {
        return;
    }
    let sentinel = chars_of("#kw-default=");
    if starts_with_chars(t.as_slice(), sentinel.as_slice()) {
        let after = slice_range(t.as_slice(), sentinel.len(), t.len());
        assert(after@ =~= t@.skip("#kw-default="@.len() as int));
        let name = trim_chars(after.as_slice());
        if name.len() > 0 {
            st.default = Some(string_from_chars(name.as_slice()));
        }
        return;
    }
    let hash = chars_of("#");
    if starts_with_chars(t.as_slice(), hash.as_slice()) {
        return;
    }
    let end = word_end_exec(t.as_slice());
    let kw = slice_range(t.as_slice(), 0, end);
    assert(kw@ =~= keyword_of(t@));
    let after = slice_range(t.as_slice(), end, t.len());
    assert(after@ =~= t@.skip(word_end(t@)));
    let rest = trim_chars(after.as_slice());
    let host_kw = chars_of("host");
    if eq_ignore_ascii_case_exec(kw.as_slice(), host_kw.as_slice()) {
        let cur = st.current.take();
        flush_current(&mut st.hosts, cur);
        let name = first_word_exec(rest.as_slice());
        if name.len() > 0 {
            st.current = Some(HostBuilder::new(name.as_slice()));
        }
        return;
    }
    if st.current.is_none() || rest.len() == 0 {
        return;
    }
    let hostname_kw = chars_of("hostname");
    let port_kw = chars_of("port");
    let user_kw = chars_of("user");
    let value = string_from_chars(rest.as_slice());
    let mut b = st.current.take().unwrap();
    if eq_ignore_ascii_case_exec(kw.as_slice(), hostname_kw.as_slice()) {
        b.hostname = Some(value);
    } else if eq_ignore_ascii_case_exec(kw.as_slice(), port_kw.as_slice()) {
        b.port = Some(value);
    } else if eq_ignore_ascii_case_exec(kw.as_slice(), user_kw.as_slice()) {
        b.user = Some(value);
    }
    st.current = Some(b);
}

/// Parses kw's ssh-config-like `remote.config`. Blank lines and comments are
/// skipped; `#kw-default=<name>` (anywhere) names the default Host, last
/// occurrence winning; `Host <name>` starts a stanza; `Hostname`, `Port`,
/// and `User` are read case-insensitively; other keys are ignored. Port
/// defaults to 22 when unset. Duplicate Host names keep the last complete
/// stanza.
pub fn parse_remote_config(content: &str) -> (r: ParsedRemoteConfig)
    ensures
        r@ == parse_remote_config_spec(content@),
{
    let cs = chars_of(content);
    let ls = lines_of(cs.as_slice());
    let ghost all = lines(cs@);
    let mut st = ParserState { default: None, hosts: Vec::new(), current: None };
    assert(st@ =~= fold_lines(all.take(0)));
    let mut i: usize = 0;
    while i < ls.len()
        invariant
            i <= ls@.len(),
            ls@.len() == all.len(),
            forall|k: int| 0 <= k < ls@.len() ==> #[trigger] ls@[k]@ == all[k],
            st@ == fold_lines(all.take(i as int)),
        decreases ls.len() - i,
    {
        apply_line(&mut st, ls[i].as_slice());
        assert(all.take(i + 1).drop_last() =~= all.take(i as int));
        assert(all.take(i + 1).last() == all[i as int]);
        i += 1;
    }
    assert(all.take(i as int) =~= all);
    let ParserState { default, mut hosts, current } = st;
    flush_current(&mut hosts, current);
    ParsedRemoteConfig { default, hosts }
}

/// Picks the deploy remote from a parsed file: the `#kw-default=` Host
/// when set, otherwise the only Host. Multiple hosts with no default, or a
/// default that names no complete Host, are refusals.
pub fn select_deploy_remote(parsed: &ParsedRemoteConfig) -> (r: Result<KwRemote, RemoteRefusal>)
    ensures
        match r {
            Ok(h) => select_spec(parsed@) == Ok::<HostModel, (int, nat, Seq<char>)>(h@),
            Err(e) => select_spec(parsed@) == Err::<HostModel, (int, nat, Seq<char>)>(
                refusal_view(e),
            ),
        },
{
    let ghost hv = hosts_view(parsed.hosts@);
    match &parsed.default {
        Some(name) => {
            let nc = chars_of(name.as_str());
            let mut i: usize = 0;
            while i < parsed.hosts.len()
                invariant
                    i <= parsed.hosts@.len(),
                    hv == hosts_view(parsed.hosts@),
                    opt_view(parsed.default) == Some(name@),
                    nc@ == name@,
                    name_index(hv, name@, 0) == name_index(hv, name@, i as int),
                decreases parsed.hosts.len() - i,
            {
                let hn = chars_of(parsed.hosts[i].name.as_str());
                assert(hv[i as int] == parsed.hosts@[i as int]@);
                if chars_eq(hn.as_slice(), nc.as_slice()) {
                    assert(hv[i as int].0 == name@);
                    assert(name_index(hv, name@, i as int) == Some(i as int));
                    return Ok(parsed.hosts[i].duplicate());
                }
                i += 1;
            }
            Err(RemoteRefusal::DefaultNotFound { name: clone_string(name) })
        },
        None => {
            if parsed.hosts.len() == 0 {
                Err(RemoteRefusal::NoRemotesConfigured)
            } else if parsed.hosts.len() == 1 {
                Ok(parsed.hosts[0].duplicate())
            } else {
                Err(RemoteRefusal::NoDefault { count: parsed.hosts.len() })
            }
        },
    }
}

/// The remote chosen from the text of a `remote.config`, `None` standing
/// for a file that could not be read (no remotes, then).
pub open spec fn remote_from_content_holds(
    content: Option<Seq<char>>,
    r: Result<KwRemote, RemoteRefusal>,
) -> bool {
    match content {
        None => r == Err::<KwRemote, RemoteRefusal>(RemoteRefusal::NoRemotesConfigured),
        Some(c) => match r {
            Ok(h) => select_spec(parse_remote_config_spec(c)) == Ok::<
                HostModel,
                (int, nat, Seq<char>),
            >(h@),
            Err(e) => select_spec(parse_remote_config_spec(c)) == Err::<
                HostModel,
                (int, nat, Seq<char>),
            >(refusal_view(e)),
        },
    }
}

pub fn remote_from_content(content: Option<String>) -> (r: Result<KwRemote, RemoteRefusal>)
    ensures
        remote_from_content_holds(opt_view(content), r),
{
    match content {
        None => Err(RemoteRefusal::NoRemotesConfigured),
        Some(c) => select_deploy_remote(&parse_remote_config(c.as_str())),
    }
}

/// `${XDG_CONFIG_HOME:-$HOME/.config}/kw/remote.config`: a set-but-empty
/// `XDG_CONFIG_HOME` counts as unset; `None` when neither is set.
pub open spec fn global_config_path(xdg: Option<Seq<char>>, home: Option<Seq<char>>) -> Option<
    Seq<char>,
> {
    match xdg {
        Some(x) if x.len() > 0 => Some(x + "/kw/remote.config"@),
        _ => match home {
            Some(h) => Some(h + "/.config"@ + "/kw/remote.config"@),
            None => None,
        },
    }
}

/// `<tree>/.kw/remote.config`.
pub open spec fn local_config_path(tree: Seq<char>) -> Seq<char> {
    if tree.len() > 0 && tree.last() == '/' {
        tree + ".kw/remote.config"@
    } else {
        tree + "/.kw/remote.config"@
    }
}

pub fn local_config_path_exec(tree: &str) -> (r: String)
    ensures
        r@ == local_config_path(tree@),
{
    let mut t = chars_of(tree);
    if t.len() > 0 && t[t.len() - 1] == '/' {
        let s = chars_of(".kw/remote.config");
        append_chars(&mut t, s.as_slice());
    } else {
        let s = chars_of("/.kw/remote.config");
        append_chars(&mut t, s.as_slice());
    }
    string_from_chars(t.as_slice())
}

pub fn global_config_path_exec(xdg: Option<String>, home: Option<String>) -> (r: Option<String>)
    ensures
        opt_view(r) == global_config_path(opt_view(xdg), opt_view(home)),
{
    match xdg {
        Some(x) => {
            let mut xc = chars_of(x.as_str());
            if xc.len() > 0 {
                let s = chars_of("/kw/remote.config");
                append_chars(&mut xc, s.as_slice());
                return Some(string_from_chars(xc.as_slice()));
            }
        },
        None => {},
    }
    match home {
        Some(h) => {
            let mut hc = chars_of(h.as_str());
            let a = chars_of("/.config");
            append_chars(&mut hc, a.as_slice());
            let s = chars_of("/kw/remote.config");
            append_chars(&mut hc, s.as_slice());
            Some(string_from_chars(hc.as_slice()))
        },
        None => None,
    }
}

/// The config file that decides the deploy remote: the tree's own
/// `remote.config` when it is a file (even an empty or unreadable one),
/// else the user's XDG/HOME copy when that path resolves and is a file,
/// else none.
pub open spec fn config_choice(
    tree_path: Seq<char>,
    local_is_file: bool,
    xdg: Option<Seq<char>>,
    home: Option<Seq<char>>,
    global_is_file: bool,
) -> Option<Seq<char>> {
    if local_is_file {
        Some(local_config_path(tree_path))
    } else {
        match global_config_path(xdg, home) {
            Some(g) => if global_is_file {
                Some(g)
            } else {
                None
            },
            None => None,
        }
    }
}

/// The deploy remote from what was found: none configured without a
/// chosen file, else the remote the chosen file's content selects.
pub open spec fn deploy_remote_holds(
    tree_path: Seq<char>,
    local_is_file: bool,
    xdg: Option<Seq<char>>,
    home: Option<Seq<char>>,
    global_is_file: bool,
    content: Option<Seq<char>>,
    r: Result<KwRemote, RemoteRefusal>,
) -> bool {
    match config_choice(tree_path, local_is_file, xdg, home, global_is_file) {
        None => r == Err::<KwRemote, RemoteRefusal>(RemoteRefusal::NoRemotesConfigured),
        Some(_) => remote_from_content_holds(content, r),
    }
}

/// Resolves the remote kw deploy will be pointed at: the tree's own
/// `remote.config` when present (authoritative even when empty or
/// unreadable), else the user's XDG/HOME copy. The file read is
/// [`config_choice`] of the file system's and environment's answers, and
/// the remote is what its content selects; a resolved remote is usable.
pub fn resolve_deploy_remote<F: FileSystemTrait, E: EnvTrait>(fs: &F, env: &E, tree_path: &str) -> (r:
    Result<KwRemote, RemoteRefusal>)
    ensures
        exists|
            local_is_file: bool,
            xdg: Option<Seq<char>>,
            home: Option<Seq<char>>,
            global_is_file: bool,
            content: Option<Seq<char>>,
        |
            deploy_remote_holds(tree_path@, local_is_file, xdg, home, global_is_file, content, r),
        r matches Ok(h) ==> usable_host(h@),
{
    let local = local_config_path_exec(tree_path);
    if fs.is_file(local.as_str()) {
        let content = fs.read_to_string(local.as_str());
        let ghost cv = opt_view(content);
        let r = remote_from_content(content);
        proof {
            if let Some(c) = cv {
                lemma_parsed_hosts_usable_and_unique(c);
                lemma_selected_remote_is_usable(parse_remote_config_spec(c));
            }
            assert(deploy_remote_holds(tree_path@, true, None, None, false, cv, r));
        }
        return r;
    }
    let xdg = env.var("XDG_CONFIG_HOME");
    let home = env.var("HOME");
    let ghost xv = opt_view(xdg);
    let ghost hv = opt_view(home);
    let global = match global_config_path_exec(xdg, home) {
        Some(g) => g,
        None => {
            assert(deploy_remote_holds(tree_path@, false, xv, hv, false, None, Err(RemoteRefusal::NoRemotesConfigured)));
            return Err(RemoteRefusal::NoRemotesConfigured);
        },
    };
    if fs.is_file(global.as_str()) {
        let content = fs.read_to_string(global.as_str());
        let ghost cv = opt_view(content);
        let r = remote_from_content(content);
        proof {
            if let Some(c) = cv {
                lemma_parsed_hosts_usable_and_unique(c);
                lemma_selected_remote_is_usable(parse_remote_config_spec(c));
            }
            assert(deploy_remote_holds(tree_path@, false, xv, hv, true, cv, r));
        }
        return r;
    }
    assert(deploy_remote_holds(tree_path@, false, xv, hv, false, None, Err(RemoteRefusal::NoRemotesConfigured)));
    Err(RemoteRefusal::NoRemotesConfigured)
}

// ───────────────────────────── laws ─────────────────────────────

pub open spec fn all_usable(hosts: Seq<HostModel>) -> bool {
    forall|i: int| 0 <= i < hosts.len() ==> usable_host(#[trigger] hosts[i])
}

pub open spec fn names_unique(hosts: Seq<HostModel>) -> bool {
    forall|i: int, j: int| 0 <= i < j < hosts.len() ==> hosts[i].0 != hosts[j].0
}

proof fn lemma_name_index_found(hosts: Seq<HostModel>, name: Seq<char>, i: int)
    requires
        0 <= i,
    ensures
        name_index(hosts, name, i) matches Some(k) ==> i <= k < hosts.len() && hosts[k].0 == name,
        name_index(hosts, name, i) is None ==> forall|k: int|
            i <= k < hosts.len() ==> hosts[k].0 != name,
    decreases hosts.len() - i,
{
    if i < hosts.len() {
        lemma_name_index_found(hosts, name, i + 1);
    }
}

proof fn lemma_finish_usable(b: BuilderModel)
    ensures
        finish_host(b) matches Some(h) ==> usable_host(h) && h.0 == b.0,
{
}

proof fn lemma_flush_keeps_invariant(hosts: Seq<HostModel>, cur: Option<BuilderModel>)
    requires
        all_usable(hosts),
        names_unique(hosts),
    ensures
        all_usable(flush(hosts, cur)),
        names_unique(flush(hosts, cur)),
{
    if let Some(b) = cur {
        lemma_finish_usable(b);
        if let Some(h) = finish_host(b) {
            lemma_name_index_found(hosts, h.0, 0);
            let u = upsert(hosts, h);
            assert(all_usable(u));
            match name_index(hosts, h.0, 0) {
                Some(k) => {
                    assert forall|i: int, j: int| 0 <= i < j < u.len() implies u[i].0 != u[j].0 by {
                        if i == k {
                            assert(hosts[j].0 != hosts[k].0);
                        } else if j == k {
                            assert(hosts[i].0 != hosts[k].0);
                        }
                    }
                },
                None => {
                    assert forall|i: int, j: int| 0 <= i < j < u.len() implies u[i].0 != u[j].0 by {
                        if j == hosts.len() {
                            assert(hosts[i].0 != h.0);
                        }
                    }
                },
            }
        }
    }
}

proof fn lemma_fold_invariant(ls: Seq<Seq<char>>)
    ensures
        all_usable(fold_lines(ls).1),
        names_unique(fold_lines(ls).1),
    decreases ls.len(),
{
    if ls.len() > 0 {
        lemma_fold_invariant(ls.drop_last());
        let st = fold_lines(ls.drop_last());
        lemma_flush_keeps_invariant(st.1, st.2);
    }
}

/// The `#kw-default=` name a line sets, if any.
pub open spec fn default_set_by(line: Seq<char>) -> Option<Seq<char>> {
    let t = trim(line);
    if starts_with(t, "#kw-default="@) {
        let name = trim(t.skip("#kw-default="@.len() as int));
        if name.len() > 0 {
            Some(name)
        } else {
            None
        }
    } else {
        None
    }
}

/// The name the last line setting a default sets.
pub open spec fn last_default(ls: Seq<Seq<char>>) -> Option<Seq<char>>
    decreases ls.len(),
{
    if ls.len() == 0 {
        None
    } else {
        match default_set_by(ls.last()) {
            Some(n) => Some(n),
            None => last_default(ls.drop_last()),
        }
    }
}

proof fn lemma_fold_default(ls: Seq<Seq<char>>)
    ensures
        fold_lines(ls).0 == last_default(ls),
    decreases ls.len(),
{
    if ls.len() > 0 {
        lemma_fold_default(ls.drop_last());
    }
}

/// In a `remote.config` the last `#kw-default=<name>` line wins, wherever
/// it stands.
pub proof fn lemma_last_default_wins(content: Seq<char>)
    ensures
        parse_remote_config_spec(content).0 == last_default(lines(content)),
{
    lemma_fold_default(lines(content));
}

/// Recording a complete stanza keeps hosts in first-seen order: every
/// earlier host keeps its name and place; a host of a new name goes last,
/// and one of a known name replaces that host in place.
pub proof fn lemma_upsert_keeps_first_seen_order(hosts: Seq<HostModel>, h: HostModel)
    ensures
        upsert(hosts, h).len() >= hosts.len(),
        forall|i: int| 0 <= i < hosts.len() ==> #[trigger] upsert(hosts, h)[i].0 == hosts[i].0,
        name_index(hosts, h.0, 0) is None ==> upsert(hosts, h) == hosts.push(h),
        name_index(hosts, h.0, 0) matches Some(k) ==> upsert(hosts, h).len() == hosts.len()
            && upsert(hosts, h)[k] == h,
{
    lemma_name_index_found(hosts, h.0, 0);
}

/// An incomplete stanza (no usable Hostname, or an unusable Port) is
/// dropped and never displaces a host.
pub proof fn lemma_incomplete_stanza_dropped(hosts: Seq<HostModel>, b: BuilderModel)
    requires
        finish_host(b) is None,
    ensures
        flush(hosts, Some(b)) == hosts,
{
}

/// `b` keeps every host of `a` by name and place, and may add more after.
pub open spec fn names_extend(a: Seq<HostModel>, b: Seq<HostModel>) -> bool {
    a.len() <= b.len() && forall|i: int| 0 <= i < a.len() ==> #[trigger] b[i].0 == a[i].0
}

proof fn lemma_flush_extends(hosts: Seq<HostModel>, cur: Option<BuilderModel>)
    ensures
        names_extend(hosts, flush(hosts, cur)),
{
    if let Some(b) = cur {
        if let Some(h) = finish_host(b) {
            lemma_upsert_keeps_first_seen_order(hosts, h);
        }
    }
}

proof fn lemma_step_extends(st: ParseState, line: Seq<char>)
    ensures
        names_extend(st.1, step(st, line).1),
{
    lemma_flush_extends(st.1, st.2);
}

proof fn lemma_fold_extends(ls: Seq<Seq<char>>, k: int)
    requires
        0 <= k <= ls.len(),
    ensures
        names_extend(fold_lines(ls.take(k)).1, fold_lines(ls).1),
    decreases ls.len(),
{
    if k == ls.len() {
        assert(ls.take(k) =~= ls);
    } else {
        let d = ls.drop_last();
        assert(ls.take(k) =~= d.take(k));
        lemma_fold_extends(d, k);
        lemma_step_extends(fold_lines(d), ls.last());
    }
}

/// A host's place is fixed by the first complete stanza of its name: the
/// hosts read from any first `k` lines of a `remote.config` keep their
/// names and places, in that order, in what the whole file parses to.
pub proof fn lemma_hosts_keep_first_seen_places(content: Seq<char>, k: int)
    requires
        0 <= k <= lines(content).len(),
    ensures
        names_extend(
            fold_lines(lines(content).take(k)).1,
            parse_remote_config_spec(content).1,
        ),
{
    let ls = lines(content);
    lemma_fold_extends(ls, k);
    let st = fold_lines(ls);
    lemma_flush_extends(st.1, st.2);
}

/// Every host a `remote.config` parses to is usable (non-empty hostname,
/// non-zero port, no empty user), and host names are unique: a later stanza
/// of an existing name replaced it.
pub proof fn lemma_parsed_hosts_usable_and_unique(content: Seq<char>)
    ensures
        all_usable(parse_remote_config_spec(content).1),
        names_unique(parse_remote_config_spec(content).1),
{
    let st = fold_lines(lines(content));
    lemma_fold_invariant(lines(content));
    lemma_flush_keeps_invariant(st.1, st.2);
}

/// A remote selected from a parsed file is one of its hosts, and usable.
pub proof fn lemma_selected_remote_is_usable(p: (Option<Seq<char>>, Seq<HostModel>))
    requires
        all_usable(p.1),
    ensures
        select_spec(p) matches Ok(h) ==> usable_host(h) && p.1.contains(h),
{
    if let Some(name) = p.0 {
        lemma_name_index_found(p.1, name, 0);
    }
    if let Ok(h) = select_spec(p) {
        match p.0 {
            Some(name) => {
                let k = name_index(p.1, name, 0)->0;
                assert(p.1[k] == h);
            },
            None => {
                assert(p.1[0] == h);
            },
        }
    }
}

} // verus!
