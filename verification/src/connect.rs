//! Connecting to a remote host: the destination, the SSH commands, the tunnel and the
//! session at its far end.

use vstd::prelude::*;
use vstd::slice::slice_subrange;
use vstd::utf8::{decode_utf8, encode_utf8, encode_utf8_decode_utf8, valid_utf8};

use crate::buffer::{lossy_text, text_from_utf8_lossy};
use crate::daemon::{opt_text, socket_dir, socket_dir_path};
use crate::daemon_laws::law_socket_dir_name;
use crate::paths::{
    join_path, joined_path, law_joined_name, lemma_digits_are_ascii, lemma_plain_text, name_part,
    parent_path, plain_name, shown,
};
use crate::rows::texts;
use crate::text::{
    chars_of, contains_text, decimal, decimal_text, find_first, find_last, first_at, joined,
    last_at, lemma_decimal_digits, lemma_decimal_injective, lemma_first_at, lemma_first_at_is,
    lemma_last_at, lemma_number_of_decimal, number, occurs, parse_number, push_char, text_of,
    trim_text, trimmed,
};

verus! {

// ---------------------------------------------------------------------------
// Destinations
// ---------------------------------------------------------------------------

/// Where to connect to: `[user@]host[:port]`.
#[derive(Debug, Clone, PartialEq, Eq)]
pub struct Destination {
    pub user: Option<String>,
    pub host: String,
    pub port: Option<u16>,
}

/// A destination as a mathematical value.
#[verifier::ext_equal]
pub struct DestinationModel {
    pub user: Option<Seq<char>>,
    pub host: Seq<char>,
    pub port: Option<u16>,
}

impl View for Destination {
    type V = DestinationModel;

    open spec fn view(&self) -> DestinationModel {
        DestinationModel {
            user: match self.user {
                Some(u) => Some(u@),
                None => None,
            },
            host: self.host@,
            port: self.port,
        }
    }
}

/// The user in a destination: what stands before the first at sign.
pub open spec fn user_of(s: Seq<char>) -> Option<Seq<char>> {
    if first_at(s, '@') < s.len() {
        Some(s.take(first_at(s, '@')))
    } else {
        None
    }
}

/// What stands behind the user in a destination.
pub open spec fn behind_user(s: Seq<char>) -> Seq<char> {
    if first_at(s, '@') < s.len() {
        s.skip(first_at(s, '@') + 1)
    } else {
        s
    }
}

/// The destination that a text denotes, or the words for what is wrong with it. The port
/// stands behind the last colon.
pub open spec fn destination_of(s: Seq<char>) -> Result<DestinationModel, Seq<char>> {
    let rest = behind_user(s);
    let colon = last_at(rest, ':');
    let port = number(rest.skip(colon + 1), u16::MAX as nat);
    let host = if colon >= 0 {
        rest.take(colon)
    } else {
        rest
    };
    if s.len() == 0 {
        Err("empty destination"@)
    } else if user_of(s) matches Some(u) && u.len() == 0 {
        Err("empty user in destination: "@ + s)
    } else if colon >= 0 && port is None {
        Err("invalid port in destination: "@ + s)
    } else if host.len() == 0 {
        Err("empty host in destination: "@ + s)
    } else {
        Ok(
            DestinationModel {
                user: user_of(s),
                host,
                port: if colon >= 0 {
                    Some(port->0 as u16)
                } else {
                    None
                },
            },
        )
    }
}

/// The destination as SSH takes it, without the port.
pub open spec fn ssh_dest_text(d: DestinationModel) -> Seq<char> {
    match d.user {
        Some(u) => u.push('@') + d.host,
        None => d.host,
    }
}

/// The arguments that tell SSH the port.
pub open spec fn port_arg_texts(d: DestinationModel) -> Seq<Seq<char>> {
    match d.port {
        Some(p) => seq!["-p"@, decimal(p as nat)],
        None => Seq::empty(),
    }
}

impl Destination {
    /// Reads `[user@]host[:port]`.
    pub fn parse(s: &str) -> (r: Result<Destination, String>)
        ensures
            match r {
                Ok(d) => destination_of(s@) == Ok::<DestinationModel, Seq<char>>(d@),
                Err(e) => destination_of(s@) == Err::<DestinationModel, Seq<char>>(e@),
            },
    {
        let chars = chars_of(s);
        let all: &[char] = chars.as_slice();
        if all.len() == 0 {
            return Err("empty destination".to_owned());
        }
        let at: usize = find_first(all, '@');
        proof {
            lemma_first_at_is(s@, '@');
        }
        if at == 0 && all[0] == '@' {
            return Err(joined("empty user in destination: ", s));
        }
        let (user, rest): (Option<String>, &[char]) = if at < all.len() {
            let u = slice_subrange(all, 0, at);
            let behind = slice_subrange(all, at + 1, all.len());
            proof {
                assert(u@ =~= s@.take(at as int));
                assert(behind@ =~= s@.skip(at + 1));
            }
            (Some(text_of(u)), behind)
        } else {
            (None, all)
        };
        proof {
            assert(rest@ == behind_user(s@));
        }
        match find_last(rest, ':') {
            Some(colon) => {
                let h = slice_subrange(rest, 0, colon);
                let p = slice_subrange(rest, colon + 1, rest.len());
                proof {
                    assert(h@ =~= rest@.take(colon as int));
                    assert(p@ =~= rest@.skip(colon + 1));
                }
                match parse_number(p, u16::MAX as u64) {
                    Some(port) => {
                        if h.len() == 0 {
                            return Err(joined("empty host in destination: ", s));
                        }
                        Ok(Destination { user, host: text_of(h), port: Some(port as u16) })
                    },
                    None => Err(joined("invalid port in destination: ", s)),
                }
            },
            None => {
                if rest.len() == 0 {
                    return Err(joined("empty host in destination: ", s));
                }
                Ok(Destination { user, host: text_of(rest), port: None })
            },
        }
    }

    /// The destination as SSH takes it: `user@host`, or just `host`.
    pub fn ssh_dest(&self) -> (s: String)
        ensures
            s@ == ssh_dest_text(self@),
    {
        match &self.user {
            Some(u) => {
                let mut s: String = u.clone();
                push_char(&mut s, '@');
                s.append(self.host.as_str());
                s
            },
            None => self.host.clone(),
        }
    }

    /// The arguments that tell SSH the port, if one is set.
    pub fn port_args(&self) -> (args: Vec<String>)
        ensures
            texts(args@) == port_arg_texts(self@),
    {
        let mut args: Vec<String> = Vec::new();
        match self.port {
            Some(p) => {
                args.push("-p".to_owned());
                args.push(decimal_text(p as u64));
            },
            None => {},
        }
        proof {
            assert(texts(args@) =~= port_arg_texts(self@));
        }
        args
    }
}

/// A destination that can be written down and read back: the parts are not empty, the
/// user holds no at sign, and neither does the host where no user is given, nor a colon
/// where no port is given.
pub open spec fn writable(d: DestinationModel) -> bool {
    &&& d.host.len() > 0
    &&& match d.user {
        Some(u) => u.len() > 0 && !u.contains('@'),
        None => !d.host.contains('@'),
    }
    &&& d.port is None ==> !d.host.contains(':')
}

/// A destination as text.
pub open spec fn destination_text(d: DestinationModel) -> Seq<char> {
    match d.port {
        Some(p) => ssh_dest_text(d).push(':') + decimal(p as nat),
        None => ssh_dest_text(d),
    }
}

/// A destination that is written down is read back as it was.
pub proof fn law_destination_roundtrip(d: DestinationModel)
    requires
        writable(d),
    ensures
        destination_of(destination_text(d)) == Ok::<DestinationModel, Seq<char>>(d),
{
    let s = destination_text(d);
    let tail = match d.port {
        Some(p) => d.host.push(':') + decimal(p as nat),
        None => d.host,
    };
    match d.user {
        Some(u) => {
            assert(s =~= u.push('@') + tail);
            assert forall|j: int| 0 <= j < u.len() implies s[j] != '@' by {
                assert(s[j] == u[j]);
                assert(!u.contains('@'));
            }
            lemma_first_at(s, '@', u.len() as int);
            assert(s.take(u.len() as int) =~= u);
            assert(s.skip(u.len() as int + 1) =~= tail);
        },
        None => {
            assert(s =~= tail);
            assert forall|j: int| 0 <= j < s.len() implies s[j] != '@' by {
                if j < d.host.len() {
                    assert(s[j] == d.host[j]);
                    assert(!d.host.contains('@'));
                } else if j > d.host.len() {
                    let digits = decimal(d.port->0 as nat);
                    lemma_decimal_digits(d.port->0 as nat);
                    assert(s[j] == digits[j - d.host.len() - 1]);
                }
            }
            lemma_first_at(s, '@', s.len() as int);
        },
    }
    assert(behind_user(s) == tail);
    match d.port {
        Some(p) => {
            let digits = decimal(p as nat);
            lemma_decimal_digits(p as nat);
            lemma_number_of_decimal(p as nat, u16::MAX as nat);
            assert forall|j: int| d.host.len() < j < tail.len() implies tail[j] != ':' by {
                assert(tail[j] == digits[j - d.host.len() - 1]);
            }
            lemma_last_at(tail, ':', d.host.len() as int);
            assert(tail.take(d.host.len() as int) =~= d.host);
            assert(tail.skip(d.host.len() as int + 1) =~= digits);
        },
        None => {
            assert forall|j: int| -1 < j < tail.len() implies tail[j] != ':' by {
                assert(!d.host.contains(':'));
            }
            lemma_last_at(tail, ':', -1);
        },
    }
}

// ---------------------------------------------------------------------------
// SSH commands
// ---------------------------------------------------------------------------

/// What a command's standard stream is tied to.
#[derive(Debug, Clone, Copy, PartialEq, Eq, Structural)]
pub enum StreamMode {
    Null,
    Piped,
}

/// A run of `ssh`: its arguments and its standard streams.
#[derive(Debug, Clone, PartialEq, Eq)]
pub struct SshCommand {
    pub args: Vec<String>,
    pub stdin: StreamMode,
    pub stdout: StreamMode,
    pub stderr: StreamMode,
}

/// The hardened options of every tunnel.
pub open spec fn tunnel_opts() -> Seq<Seq<char>> {
    seq![
        "-o"@,
        "ServerAliveInterval=3"@,
        "-o"@,
        "ServerAliveCountMax=2"@,
        "-o"@,
        "StreamLocalBindUnlink=yes"@,
        "-o"@,
        "ExitOnForwardFailure=yes"@,
        "-o"@,
        "ConnectTimeout=5"@,
        "-N"@,
        "-T"@,
    ]
}

/// Each extra option, as SSH takes it.
pub open spec fn option_args(opts: Seq<Seq<char>>) -> Seq<Seq<char>>
    decreases opts.len(),
{
    if opts.len() == 0 {
        Seq::empty()
    } else {
        option_args(opts.drop_last()) + seq!["-o"@, opts.last()]
    }
}

/// The arguments of the tunnel.
pub open spec fn tunnel_args(
    d: DestinationModel,
    local_sock: Seq<u8>,
    remote_sock: Seq<char>,
    opts: Seq<Seq<char>>,
) -> Seq<Seq<char>> {
    port_arg_texts(d) + tunnel_opts() + option_args(opts) + seq![
        "-L"@,
        lossy_text(local_sock).push(':') + remote_sock,
        ssh_dest_text(d),
    ]
}

/// The arguments of a command that runs on the remote host.
pub open spec fn remote_args(
    d: DestinationModel,
    remote_cmd: Seq<char>,
    opts: Seq<Seq<char>>,
) -> Seq<Seq<char>> {
    port_arg_texts(d) + option_args(opts) + seq![
        "-o"@,
        "ConnectTimeout=5"@,
        ssh_dest_text(d),
        remote_cmd,
    ]
}

fn push_options(args: &mut Vec<String>, opts: &[String])
    ensures
        texts(final(args)@) == texts(old(args)@) + option_args(texts(opts@)),
{
    let ghost before = texts(args@);
    let ghost all = texts(opts@);
    let mut i: usize = 0;
    proof {
        assert(texts(args@) =~= before + option_args(all.take(0)));
    }
    while i < opts.len()
        invariant
            i <= opts@.len(),
            all == texts(opts@),
            texts(args@) == before + option_args(all.take(i as int)),
        decreases opts@.len() - i,
    {
        let ghost now = args@;
        args.push("-o".to_owned());
        args.push(opts[i].clone());
        proof {
            let t = all.take(i + 1);
            assert(t.drop_last() =~= all.take(i as int));
            assert(t.last() == opts@[i as int]@);
            assert(texts(args@) =~= texts(now) + seq!["-o"@, opts@[i as int]@]);
            assert(texts(args@) =~= before + option_args(t));
        }
        i = i + 1;
    }
    proof {
        assert(all.take(i as int) =~= all);
    }
}

fn push_tunnel_opts(args: &mut Vec<String>)
    ensures
        texts(final(args)@) == texts(old(args)@) + tunnel_opts(),
{
    let ghost before = texts(args@);
    args.push("-o".to_owned());
    args.push("ServerAliveInterval=3".to_owned());
    args.push("-o".to_owned());
    args.push("ServerAliveCountMax=2".to_owned());
    args.push("-o".to_owned());
    args.push("StreamLocalBindUnlink=yes".to_owned());
    args.push("-o".to_owned());
    args.push("ExitOnForwardFailure=yes".to_owned());
    args.push("-o".to_owned());
    args.push("ConnectTimeout=5".to_owned());
    args.push("-N".to_owned());
    args.push("-T".to_owned());
    proof {
        assert(texts(args@) =~= before + tunnel_opts());
    }
}

/// The command that forwards a local socket to the remote one.
pub fn tunnel_command(
    dest: &Destination,
    local_sock: &[u8],
    remote_sock: &str,
    extra_ssh_opts: &[String],
) -> (cmd: SshCommand)
    ensures
        texts(cmd.args@) == tunnel_args(
            dest@,
            local_sock@,
            remote_sock@,
            texts(extra_ssh_opts@),
        ),
        valid_utf8(local_sock@) ==> cmd.args@.len() >= 3 && cmd.args@[cmd.args@.len() - 3]@
            == "-L"@ && cmd.args@[cmd.args@.len() - 2]@ == decode_utf8(local_sock@).push(':')
            + remote_sock@,
        cmd.stdin == StreamMode::Null,
        cmd.stdout == StreamMode::Null,
        cmd.stderr == StreamMode::Piped,
{
    let mut args = dest.port_args();
    push_tunnel_opts(&mut args);
    push_options(&mut args, extra_ssh_opts);
    let ghost before = args@;
    let mut forward: String = shown(local_sock);
    push_char(&mut forward, ':');
    forward.append(remote_sock);
    args.push("-L".to_owned());
    args.push(forward);
    args.push(dest.ssh_dest());
    proof {
        assert(texts(args@) =~= texts(before) + seq!["-L"@, forward@, ssh_dest_text(dest@)]);
    }
    SshCommand {
        args,
        stdin: StreamMode::Null,
        stdout: StreamMode::Null,
        stderr: StreamMode::Piped,
    }
}

/// The command that runs `remote_cmd` on the remote host and catches what it prints.
pub fn remote_command(
    dest: &Destination,
    remote_cmd: &str,
    extra_ssh_opts: &[String],
) -> (cmd: SshCommand)
    ensures
        texts(cmd.args@) == remote_args(dest@, remote_cmd@, texts(extra_ssh_opts@)),
        cmd.stdin == StreamMode::Null,
        cmd.stdout == StreamMode::Piped,
        cmd.stderr == StreamMode::Piped,
{
    let mut args = dest.port_args();
    push_options(&mut args, extra_ssh_opts);
    let ghost before = args@;
    args.push("-o".to_owned());
    args.push("ConnectTimeout=5".to_owned());
    args.push(dest.ssh_dest());
    args.push(remote_cmd.to_owned());
    proof {
        assert(texts(args@) =~= texts(before) + seq![
            "-o"@,
            "ConnectTimeout=5"@,
            ssh_dest_text(dest@),
            remote_cmd@,
        ]);
    }
    SshCommand {
        args,
        stdin: StreamMode::Null,
        stdout: StreamMode::Piped,
        stderr: StreamMode::Piped,
    }
}

/// What a finished remote command comes to, from what it printed: its trimmed output, or
/// the words for its failure.
pub open spec fn remote_result(success: bool, stdout: Seq<char>, stderr: Seq<char>) -> Result<
    Seq<char>,
    Seq<char>,
> {
    let complaint = trimmed(stderr);
    if success {
        Ok(trimmed(stdout))
    } else if occurs(complaint, "command not found"@) || occurs(complaint, "No such file"@) {
        Err("gritty not found on remote host (is it in PATH?)"@)
    } else {
        Err("ssh command failed: "@ + complaint)
    }
}

/// The text of a result.
pub open spec fn result_text(r: Result<String, String>) -> Result<Seq<char>, Seq<char>> {
    match r {
        Ok(s) => Ok(s@),
        Err(e) => Err(e@),
    }
}

/// Reads the texts that a finished remote command printed.
pub fn read_remote_texts(success: bool, stdout: &str, stderr: &str) -> (r: Result<String, String>)
    ensures
        result_text(r) == remote_result(success, stdout@, stderr@),
{
    if success {
        let out = chars_of(stdout);
        return Ok(text_of(trim_text(out.as_slice())));
    }
    let err = chars_of(stderr);
    let complaint: &[char] = trim_text(err.as_slice());
    let not_found = chars_of("command not found");
    let no_file = chars_of("No such file");
    if contains_text(complaint, not_found.as_slice()) || contains_text(
        complaint,
        no_file.as_slice(),
    ) {
        Err("gritty not found on remote host (is it in PATH?)".to_owned())
    } else {
        Err(joined("ssh command failed: ", text_of(complaint).as_str()))
    }
}

/// Reads what a finished remote command printed; what is not UTF-8 is replaced.
pub fn read_remote_output(success: bool, stdout: &[u8], stderr: &[u8]) -> (r: Result<
    String,
    String,
>)
    ensures
        result_text(r) == remote_result(success, lossy_text(stdout@), lossy_text(stderr@)),
{
    let out = text_from_utf8_lossy(stdout);
    let err = text_from_utf8_lossy(stderr);
    read_remote_texts(success, out.as_str(), err.as_str())
}

/// The remote command that prints the socket's path, and starts the daemon first unless
/// that is not wanted.
pub open spec fn ready_command(no_daemon_start: bool) -> Seq<char> {
    if no_daemon_start {
        "gritty socket-path"@
    } else {
        "SOCK=$(gritty socket-path) && (gritty ls >/dev/null 2>&1 || { nohup gritty daemon </dev/null >/dev/null 2>&1 & sleep 0.5; }) && echo \"$SOCK\""@
    }
}

/// The remote command that prints the socket's path, and starts the daemon first unless
/// that is not wanted.
pub fn remote_ready_command(no_daemon_start: bool) -> (cmd: String)
    ensures
        cmd@ == ready_command(no_daemon_start),
{
    if no_daemon_start {
        "gritty socket-path".to_owned()
    } else {
        "SOCK=$(gritty socket-path) && (gritty ls >/dev/null 2>&1 || { nohup gritty daemon </dev/null >/dev/null 2>&1 & sleep 0.5; }) && echo \"$SOCK\"".to_owned()
    }
}

/// What the user asked for when connecting to a remote host.
#[derive(Debug, Clone, PartialEq, Eq)]
pub struct ConnectOpts {
    pub destination: String,
    pub target: Option<String>,
    pub force_new: bool,
    pub list: bool,
    pub no_redraw: bool,
    pub no_escape: bool,
    pub no_daemon_start: bool,
    pub ssh_options: Vec<String>,
}

impl ConnectOpts {
    /// The first command to run on the remote host: a listing where that is all that is
    /// wanted, else the one that prints the socket's path.
    pub fn first_command(&self) -> (cmd: String)
        ensures
            cmd@ == if self.list {
                "gritty ls"@
            } else {
                ready_command(self.no_daemon_start)
            },
    {
        if self.list {
            "gritty ls".to_owned()
        } else {
            remote_ready_command(self.no_daemon_start)
        }
    }
}

/// The path of the remote socket, as the remote command printed it.
pub fn remote_socket(printed: String) -> (r: Result<String, String>)
    ensures
        result_text(r) == if printed@.len() == 0 {
            Err("remote host returned empty socket path"@)
        } else {
            Ok::<Seq<char>, Seq<char>>(printed@)
        },
{
    if printed.as_str().is_empty() {
        Err("remote host returned empty socket path".to_owned())
    } else {
        Ok(printed)
    }
}

/// The path of the local end of the tunnel.
pub open spec fn tunnel_path(xdg: Option<Seq<char>>, uid: u32, pid: u32) -> Seq<u8> {
    joined_path(
        socket_dir_path(xdg, uid),
        encode_utf8(tunnel_name(pid)),
    )
}

/// The path of the local end of the tunnel, with the process id in its name.
pub fn local_socket_path(xdg: Option<&str>, uid: u32, pid: u32) -> (path: Vec<u8>)
    ensures
        path@ == tunnel_path(opt_text(xdg), uid, pid),
{
    let mut name: String = joined("connect-", decimal_text(pid as u64).as_str());
    name.append(".sock");
    let dir = socket_dir(xdg, uid);
    join_path(dir.as_slice(), name.as_str().as_bytes())
}

/// The name of the tunnel's socket.
pub open spec fn tunnel_name(pid: u32) -> Seq<char> {
    "connect-"@ + decimal(pid as nat) + ".sock"@
}

proof fn lemma_tunnel_name(pid: u32)
    ensures
        plain_name(encode_utf8(tunnel_name(pid))),
{
    reveal_strlit("connect-");
    reveal_strlit(".sock");
    lemma_digits_are_ascii(pid as nat);
    let name = tunnel_name(pid);
    let digits = decimal(pid as nat);
    assert forall|i: int| 0 <= i < name.len() implies '\0' <= #[trigger] name[i] <= '\u{7f}'
        && name[i] != '/' by {
        if i < 8 {
            assert(name[i] == "connect-"@[i]);
        } else if i < 8 + digits.len() {
            assert(name[i] == digits[i - 8]);
        } else {
            assert(name[i] == ".sock"@[i - 8 - digits.len()]);
        }
    }
    lemma_plain_text(name);
}

/// The tunnel's socket stands in the directory for the sockets, and its name tells the
/// process.
pub proof fn law_tunnel_socket_name(xdg: Option<Seq<char>>, uid: u32, pid: u32)
    ensures
        parent_path(tunnel_path(xdg, uid, pid)) == Some(socket_dir_path(xdg, uid)),
        name_part(tunnel_path(xdg, uid, pid)) == Some(encode_utf8(tunnel_name(pid))),
{
    lemma_tunnel_name(pid);
    law_socket_dir_name(xdg, uid);
    law_joined_name(socket_dir_path(xdg, uid), encode_utf8(tunnel_name(pid)));
}

/// Two processes never share a tunnel socket.
pub proof fn law_tunnel_sockets_differ(xdg: Option<Seq<char>>, uid: u32, a: u32, b: u32)
    requires
        a != b,
    ensures
        tunnel_path(xdg, uid, a) != tunnel_path(xdg, uid, b),
{
    if tunnel_path(xdg, uid, a) == tunnel_path(xdg, uid, b) {
        law_tunnel_socket_name(xdg, uid, a);
        law_tunnel_socket_name(xdg, uid, b);
        encode_utf8_decode_utf8(tunnel_name(a));
        encode_utf8_decode_utf8(tunnel_name(b));
        assert(tunnel_name(a) == tunnel_name(b));
        reveal_strlit("connect-");
        reveal_strlit(".sock");
        let na = tunnel_name(a);
        let nb = tunnel_name(b);
        assert(na.len() == decimal(a as nat).len() + 13);
        assert(nb.len() == decimal(b as nat).len() + 13);
        assert(na.subrange(8, na.len() - 5) =~= decimal(a as nat));
        assert(nb.subrange(8, nb.len() - 5) =~= decimal(b as nat));
        lemma_decimal_injective(a as nat, b as nat);
    }
}

// ---------------------------------------------------------------------------
// Waiting for the tunnel
// ---------------------------------------------------------------------------

/// How long to wait for the tunnel's socket, in milliseconds.
pub const SOCKET_TIMEOUT_MS: u64 = 15_000;

/// How long to wait between two tries, in milliseconds.
pub const SOCKET_POLL_MS: u64 = 200;

/// Waiting until the tunnel's socket takes connections.
#[derive(Debug)]
pub struct SocketWait {
    /// When to give up, in milliseconds.
    pub deadline: u64,
}

/// What to do after a try to connect.
#[derive(Debug, Clone, Copy, PartialEq, Eq, Structural)]
pub enum WaitStep {
    /// The socket takes connections.
    Ready,
    /// The time is over.
    TimedOut,
    /// Try again after this many milliseconds.
    Sleep { ms: u64 },
}

impl SocketWait {
    /// Begins to wait at the time `now`, in milliseconds.
    pub fn start(now: u64) -> (w: SocketWait)
        requires
            now + SOCKET_TIMEOUT_MS <= u64::MAX,
        ensures
            w.deadline == now + SOCKET_TIMEOUT_MS,
    {
        SocketWait { deadline: now + SOCKET_TIMEOUT_MS }
    }

    /// Decides after a try to connect that ended at the time `now`. A connection counts
    /// even when the time is over.
    pub fn step(&self, connected: bool, now: u64) -> (s: WaitStep)
        ensures
            s == if connected {
                WaitStep::Ready
            } else if now >= self.deadline {
                WaitStep::TimedOut
            } else {
                WaitStep::Sleep { ms: SOCKET_POLL_MS }
            },
    {
        if connected {
            WaitStep::Ready
        } else if now >= self.deadline {
            WaitStep::TimedOut
        } else {
            WaitStep::Sleep { ms: SOCKET_POLL_MS }
        }
    }
}

/// The words for a tunnel that never came up.
pub fn timeout_message(path: &[u8]) -> (s: String)
    ensures
        s@ == "timeout waiting for SSH tunnel socket at "@ + lossy_text(path@),
{
    joined("timeout waiting for SSH tunnel socket at ", shown(path).as_str())
}

} // verus!
