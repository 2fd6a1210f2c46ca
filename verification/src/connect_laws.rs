//! What connecting to a remote host means, said of what is written and read.

use vstd::prelude::*;

use crate::buffer::lossy_text;
use crate::connect::{
    option_args, read_remote_output, read_remote_texts, remote_command, remote_ready_command,
    remote_socket, timeout_message, tunnel_command, ConnectOpts, Destination, SocketWait,
    SshCommand, StreamMode, WaitStep, SOCKET_POLL_MS, SOCKET_TIMEOUT_MS,
};
use crate::rows::texts;
use crate::text::{decimal, is_space, lemma_first_at, lemma_last_at, number};
use crate::text_laws::{
    law_pattern_occurs, law_trimming_keeps_the_rest, law_trimming_takes_white_space,
};

verus! {

// ---------------------------------------------------------------------------
// Destinations
// ---------------------------------------------------------------------------

/// The parts of a destination are found where they stand: the user before the first at
/// sign, the port behind the last colon after it, the host between them.
pub proof fn law_parts_of_a_destination(
    s: &str,
    user: Option<Seq<char>>,
    host: Seq<char>,
    port: Option<Seq<char>>,
    r: Result<Destination, String>,
)
    requires
        call_ensures(Destination::parse, (s,), r),
        s@ == (match user {
            Some(u) => u + seq!['@'],
            None => Seq::empty(),
        }) + host + (match port {
            Some(p) => seq![':'] + p,
            None => Seq::empty(),
        }),
        user matches Some(u) ==> !u.contains('@'),
        user is None ==> !s@.contains('@'),
        port matches Some(p) ==> !p.contains(':'),
        port is None ==> !host.contains(':'),
    ensures
        ({
            let nothing = s@.len() == 0;
            let no_user = user matches Some(u) && u.len() == 0;
            let bad_port = port matches Some(p) && number(p, 0xffff) is None;
            match r {
                Ok(d) => {
                    &&& !nothing && !no_user && !bad_port && host.len() > 0
                    &&& user is None <==> d.user is None
                    &&& user matches Some(u) ==> d.user->0@ == u
                    &&& d.host@ == host
                    &&& port is None <==> d.port is None
                    &&& port matches Some(p) ==> number(p, 0xffff) == Some(d.port->0 as nat)
                },
                Err(e) => e@ == if nothing {
                    "empty destination"@
                } else if no_user {
                    "empty user in destination: "@ + s@
                } else if bad_port {
                    "invalid port in destination: "@ + s@
                } else {
                    "empty host in destination: "@ + s@
                },
            }
        }),
        r is Err ==> {
            ||| s@.len() == 0
            ||| user matches Some(u) && u.len() == 0
            ||| port matches Some(p) && number(p, 0xffff) is None
            ||| host.len() == 0
        },
{
    let tail = host + (match port {
        Some(p) => seq![':'] + p,
        None => Seq::empty(),
    });
    match user {
        Some(u) => {
            assert(s@ =~= u + seq!['@'] + tail);
            assert(s@[u.len() as int] == '@');
            assert forall|j: int| 0 <= j < u.len() implies s@[j] != '@' by {
                assert(s@[j] == u[j]);
            }
            lemma_first_at(s@, '@', u.len() as int);
            assert(s@.take(u.len() as int) =~= u);
            assert(s@.skip(u.len() as int + 1) =~= tail);
        },
        None => {
            assert(s@ =~= tail);
            assert forall|j: int| 0 <= j < s@.len() implies s@[j] != '@' by {}
            lemma_first_at(s@, '@', s@.len() as int);
        },
    }
    match port {
        Some(p) => {
            assert(tail[host.len() as int] == ':');
            assert forall|j: int| host.len() < j < tail.len() implies tail[j] != ':' by {
                assert(tail[j] == p[j - host.len() - 1]);
            }
            lemma_last_at(tail, ':', host.len() as int);
            assert(tail.take(host.len() as int) =~= host);
            assert(tail.skip(host.len() as int + 1) =~= p);
        },
        None => {
            assert(tail =~= host);
            assert forall|j: int| -1 < j < tail.len() implies tail[j] != ':' by {
                assert(tail[j] == host[j]);
            }
            lemma_last_at(tail, ':', -1);
        },
    }
}

/// SSH gets the user and the host with an at sign between them, or the host alone, and the
/// port as an option of its own where there is one.
pub proof fn law_destination_for_ssh(d: Destination, dest: String, args: Vec<String>)
    requires
        call_ensures(Destination::ssh_dest, (&d,), dest),
        call_ensures(Destination::port_args, (&d,), args),
    ensures
        d.user matches Some(u) ==> dest@ == u@ + seq!['@'] + d.host@,
        d.user is None ==> dest@ == d.host@,
        d.port is None ==> args@.len() == 0,
        d.port matches Some(p) ==> args@.len() == 2 && args@[0]@ == "-p"@ && args@[1]@ == decimal(
            p as nat,
        ),
{
    if let Some(u) = d.user {
        assert(u@.push('@') + d.host@ =~= u@ + seq!['@'] + d.host@);
    }
    let t = texts(args@);
    assert(t.len() == args@.len());
    assert(forall|i: int| 0 <= i < args@.len() ==> t[i] == (#[trigger] args@[i])@);
}

// ---------------------------------------------------------------------------
// SSH commands
// ---------------------------------------------------------------------------

/// The user's own options are passed on one by one, in their order, each behind `-o`.
pub proof fn law_each_option_is_passed_on(opts: Seq<Seq<char>>, i: int)
    ensures
        option_args(opts).len() == 2 * opts.len(),
        0 <= i < opts.len() ==> option_args(opts)[2 * i] == "-o"@ && option_args(opts)[2 * i + 1]
            == opts[i],
    decreases opts.len(),
{
    if opts.len() > 0 {
        law_each_option_is_passed_on(opts.drop_last(), i);
    }
}

/// The tunnel's command: the port, the options that every tunnel has, the user's own, then
/// the forwarding from the local to the remote socket, and the destination at the end. It
/// reads and prints nothing but what it complains of.
pub proof fn law_tunnel_command(
    dest: &Destination,
    local_sock: &[u8],
    remote_sock: &str,
    opts: &[String],
    cmd: SshCommand,
    i: int,
)
    requires
        call_ensures(tunnel_command, (dest, local_sock, remote_sock, opts), cmd),
    ensures
        ({
            let n: int = if dest.port is Some {
                2
            } else {
                0
            };
            let args = cmd.args@;
            let m = n + 12 + 2 * opts@.len();
            &&& args.len() == m + 3
            &&& dest.port matches Some(p) ==> args[0]@ == "-p"@ && args[1]@ == decimal(p as nat)
            &&& args[n]@ == "-o"@ && args[n + 1]@ == "ServerAliveInterval=3"@
            &&& args[n + 2]@ == "-o"@ && args[n + 3]@ == "ServerAliveCountMax=2"@
            &&& args[n + 4]@ == "-o"@ && args[n + 5]@ == "StreamLocalBindUnlink=yes"@
            &&& args[n + 6]@ == "-o"@ && args[n + 7]@ == "ExitOnForwardFailure=yes"@
            &&& args[n + 8]@ == "-o"@ && args[n + 9]@ == "ConnectTimeout=5"@
            &&& args[n + 10]@ == "-N"@ && args[n + 11]@ == "-T"@
            &&& 0 <= i < opts@.len() ==> args[n + 12 + 2 * i]@ == "-o"@ && args[n + 12 + 2 * i
                + 1]@ == opts@[i]@
            &&& args[m]@ == "-L"@
            &&& args[m + 1]@ == lossy_text(local_sock@) + seq![':'] + remote_sock@
            &&& dest.user matches Some(u) ==> args[m + 2]@ == u@ + seq!['@'] + dest.host@
            &&& dest.user is None ==> args[m + 2]@ == dest.host@
            &&& cmd.stdin == StreamMode::Null
            &&& cmd.stdout == StreamMode::Null
            &&& cmd.stderr == StreamMode::Piped
        }),
{
    let t = texts(cmd.args@);
    assert(t.len() == cmd.args@.len());
    assert(forall|k: int| 0 <= k < cmd.args@.len() ==> t[k] == (#[trigger] cmd.args@[k])@);
    let o = texts(opts@);
    assert(o.len() == opts@.len());
    law_each_option_is_passed_on(o, i);
    assert(lossy_text(local_sock@).push(':') + remote_sock@ =~= lossy_text(local_sock@) + seq![':']
        + remote_sock@);
    if let Some(u) = dest.user {
        assert(u@.push('@') + dest.host@ =~= u@ + seq!['@'] + dest.host@);
    }
}

/// A remote command: the port, the user's options, a limit on the time to connect, the
/// destination, and the command at the end. What it prints is caught.
pub proof fn law_remote_command(
    dest: &Destination,
    remote_cmd: &str,
    opts: &[String],
    cmd: SshCommand,
    i: int,
)
    requires
        call_ensures(remote_command, (dest, remote_cmd, opts), cmd),
    ensures
        ({
            let n: int = if dest.port is Some {
                2
            } else {
                0
            };
            let args = cmd.args@;
            let m = n + 2 * opts@.len();
            &&& args.len() == m + 4
            &&& dest.port matches Some(p) ==> args[0]@ == "-p"@ && args[1]@ == decimal(p as nat)
            &&& 0 <= i < opts@.len() ==> args[n + 2 * i]@ == "-o"@ && args[n + 2 * i + 1]@
                == opts@[i]@
            &&& args[m]@ == "-o"@ && args[m + 1]@ == "ConnectTimeout=5"@
            &&& dest.user matches Some(u) ==> args[m + 2]@ == u@ + seq!['@'] + dest.host@
            &&& dest.user is None ==> args[m + 2]@ == dest.host@
            &&& args[m + 3]@ == remote_cmd@
            &&& cmd.stdin == StreamMode::Null
            &&& cmd.stdout == StreamMode::Piped
            &&& cmd.stderr == StreamMode::Piped
        }),
{
    let t = texts(cmd.args@);
    assert(t.len() == cmd.args@.len());
    assert(forall|k: int| 0 <= k < cmd.args@.len() ==> t[k] == (#[trigger] cmd.args@[k])@);
    let o = texts(opts@);
    assert(o.len() == opts@.len());
    law_each_option_is_passed_on(o, i);
    if let Some(u) = dest.user {
        assert(u@.push('@') + dest.host@ =~= u@ + seq!['@'] + dest.host@);
    }
}

// ---------------------------------------------------------------------------
// What a remote command printed
// ---------------------------------------------------------------------------

/// What a successful command printed comes back whole, without the white space around it:
/// only white space is taken away, and none is left in front or at the end.
pub proof fn law_output_comes_back_whole(
    stdout: &str,
    stderr: &str,
    r: Result<String, String>,
) -> (ends: (Seq<char>, Seq<char>))
    requires
        call_ensures(read_remote_texts, (true, stdout, stderr), r),
    ensures
        r matches Ok(out) && {
            &&& stdout@ == ends.0 + out@ + ends.1
            &&& forall|i: int| 0 <= i < ends.0.len() ==> is_space(#[trigger] ends.0[i])
            &&& forall|i: int| 0 <= i < ends.1.len() ==> is_space(#[trigger] ends.1[i])
            &&& out@.len() > 0 ==> !is_space(out@[0]) && !is_space(out@.last())
        },
{
    law_trimming_takes_white_space(stdout@)
}

/// A text without white space around it comes back as it is, with every line of it, and
/// with whatever white space was printed around it.
pub proof fn law_printed_text_is_unchanged(
    stdout: &str,
    stderr: &str,
    a: Seq<char>,
    text: Seq<char>,
    b: Seq<char>,
    r: Result<String, String>,
)
    requires
        call_ensures(read_remote_texts, (true, stdout, stderr), r),
        stdout@ == a + text + b,
        forall|i: int| 0 <= i < a.len() ==> is_space(#[trigger] a[i]),
        forall|i: int| 0 <= i < b.len() ==> is_space(#[trigger] b[i]),
        text.len() > 0 ==> !is_space(text[0]) && !is_space(text.last()),
    ensures
        r matches Ok(out) && out@ == text,
{
    law_trimming_keeps_the_rest(a, text, b);
}

/// A command that failed says why: the tool is missing where the complaint says so in one
/// of two ways, and otherwise the complaint itself is passed on, without the white space
/// around it.
pub proof fn law_failure_says_why(
    stdout: &str,
    stderr: &str,
    a: Seq<char>,
    complaint: Seq<char>,
    b: Seq<char>,
    r: Result<String, String>,
)
    requires
        call_ensures(read_remote_texts, (false, stdout, stderr), r),
        stderr@ == a + complaint + b,
        forall|i: int| 0 <= i < a.len() ==> is_space(#[trigger] a[i]),
        forall|i: int| 0 <= i < b.len() ==> is_space(#[trigger] b[i]),
        complaint.len() > 0 ==> !is_space(complaint[0]) && !is_space(complaint.last()),
    ensures
        ({
            let missing = {
                ||| exists|x: Seq<char>, y: Seq<char>|
                    complaint == #[trigger] (x + "command not found"@ + y)
                ||| exists|x: Seq<char>, y: Seq<char>|
                    complaint == #[trigger] (x + "No such file"@ + y)
            };
            r matches Err(e) && e@ == if missing {
                "gritty not found on remote host (is it in PATH?)"@
            } else {
                "ssh command failed: "@ + complaint
            }
        }),
{
    law_trimming_keeps_the_rest(a, complaint, b);
    law_pattern_occurs(complaint, "command not found"@);
    law_pattern_occurs(complaint, "No such file"@);
}

/// Bytes that were printed are read as their text is.
pub proof fn law_printed_bytes_are_read_as_text(
    success: bool,
    stdout: &[u8],
    stderr: &[u8],
    out: &str,
    err: &str,
    r: Result<String, String>,
    q: Result<String, String>,
)
    requires
        call_ensures(read_remote_output, (success, stdout, stderr), r),
        call_ensures(read_remote_texts, (success, out, err), q),
        out@ == lossy_text(stdout@),
        err@ == lossy_text(stderr@),
    ensures
        r is Ok <==> q is Ok,
        r matches Ok(text) ==> text@ == q->Ok_0@,
        r matches Err(words) ==> words@ == q->Err_0@,
{
}

/// The path of the remote socket is what the remote command printed, and an empty one is
/// refused.
pub proof fn law_remote_socket_is_what_was_printed(printed: String, r: Result<String, String>)
    requires
        call_ensures(remote_socket, (printed,), r),
    ensures
        printed@.len() > 0 ==> (r matches Ok(path) && path@ == printed@),
        printed@.len() == 0 ==> (r matches Err(e) && e@
            == "remote host returned empty socket path"@),
{
}

/// The commands that are run on the remote host: one that lists, one that prints the path
/// of the socket, and one that starts the daemon where it does not answer before that.
pub proof fn law_remote_commands(opts: ConnectOpts, first: String, ready: String, quick: String)
    requires
        call_ensures(ConnectOpts::first_command, (&opts,), first),
        call_ensures(remote_ready_command, (false,), ready),
        call_ensures(remote_ready_command, (true,), quick),
    ensures
        quick@ == "gritty socket-path"@,
        ready@
            == "SOCK=$(gritty socket-path) && (gritty ls >/dev/null 2>&1 || { nohup gritty daemon </dev/null >/dev/null 2>&1 & sleep 0.5; }) && echo \"$SOCK\""@,
        opts.list ==> first@ == "gritty ls"@,
        !opts.list && opts.no_daemon_start ==> first@ == quick@,
        !opts.list && !opts.no_daemon_start ==> first@ == ready@,
{
}

// ---------------------------------------------------------------------------
// Waiting for the tunnel
// ---------------------------------------------------------------------------

/// Waiting ends when the socket takes a connection, however late, and is given up fifteen
/// seconds after it began, not sooner; until then it is tried every fifth of a second.
pub proof fn law_waiting_for_the_tunnel(
    begun: u64,
    w: SocketWait,
    connected: bool,
    now: u64,
    s: WaitStep,
)
    requires
        call_ensures(SocketWait::start, (begun,), w),
        call_ensures(SocketWait::step, (&w, connected, now), s),
    ensures
        connected <==> s == WaitStep::Ready,
        s == WaitStep::TimedOut <==> !connected && now >= begun + 15_000,
        s matches WaitStep::Sleep { ms } ==> ms == 200,
        SOCKET_TIMEOUT_MS == 15_000,
        SOCKET_POLL_MS == 200,
{
}

/// Who waited in vain is told for which socket.
pub proof fn law_timeout_names_the_socket(path: &[u8], s: String)
    requires
        call_ensures(timeout_message, (path,), s),
    ensures
        s@ == "timeout waiting for SSH tunnel socket at "@ + lossy_text(path@),
{
}

} // verus!
