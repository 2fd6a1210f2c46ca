//! Directories, sockets, peers, window sizes and paths.

use gritty::errors::ErrorKind;
use gritty::paths::{file_name, join_path, parent, paths_equal, shown, with_file_name};
use gritty::security::{
    clamp_winsize, in_use_error, is_trusted_root, validate_dir, verify_peer_uid, BindAction,
    BindEvent, Binding, DirAction, DirEvent, DirFacts, DirWalk, SecurityError,
};

const MINE: DirFacts = DirFacts { is_symlink: false, is_dir: true, uid: 1000 };

#[test]
fn window_sizes_are_clamped() {
    assert_eq!(clamp_winsize(80, 24), (80, 24));
    assert_eq!(clamp_winsize(0, 0), (1, 1));
    assert_eq!(clamp_winsize(1, 10_000), (1, 10_000));
    assert_eq!(clamp_winsize(10_001, u16::MAX), (10_000, 10_000));
}

#[test]
fn peers_must_be_the_same_user() {
    assert!(verify_peer_uid(1000, 1000).is_ok());
    let e = verify_peer_uid(0, 1000).unwrap_err();
    assert_eq!(e.kind(), ErrorKind::PermissionDenied);
    assert_eq!(e.message(), "rejecting connection from uid 0 (expected 1000)");
}

#[test]
fn trusted_roots() {
    for p in ["/", "/tmp", "/run"] {
        assert!(is_trusted_root(p.as_bytes(), None));
    }
    for p in ["", "/tmp/", "/var", "tmp", "/run/user"] {
        assert!(!is_trusted_root(p.as_bytes(), None));
    }
    assert!(is_trusted_root(b"/run/user/1", Some("/run/user/1")));
    assert!(is_trusted_root(b"/run/user/1", Some("/run//user/./1/")));
    assert!(!is_trusted_root(b"/run/user/1", Some("run/user/1")));
    assert!(!is_trusted_root(b"/run/user/1/x", Some("/run/user/1")));
}

#[test]
fn directories_are_validated() {
    assert!(validate_dir(b"/home/u", MINE, 1000).is_ok());
    let link = DirFacts { is_symlink: true, is_dir: false, uid: 0 };
    let e = validate_dir(b"/x", link, 1000).unwrap_err();
    assert_eq!(e.kind(), ErrorKind::InvalidInput);
    assert_eq!(e.message(), "refusing to use symlink at /x");
    let file = DirFacts { is_symlink: false, is_dir: false, uid: 1000 };
    let e = validate_dir(b"/x", file, 1000).unwrap_err();
    assert_eq!(e.kind(), ErrorKind::InvalidInput);
    assert_eq!(e.message(), "/x is not a directory");
    let e = validate_dir(b"/x", MINE, 1001).unwrap_err();
    assert_eq!(e.kind(), ErrorKind::PermissionDenied);
    assert_eq!(
        e.message(),
        "/x is owned by uid 1000, expected uid 1001; \
         set $XDG_RUNTIME_DIR or use --ctl-socket"
    );
}

fn probe(p: &str) -> DirAction {
    DirAction::Probe { path: p.as_bytes().to_vec() }
}

fn inspect(p: &str) -> DirAction {
    DirAction::Inspect { path: p.as_bytes().to_vec() }
}

fn create(p: &str) -> DirAction {
    DirAction::Create { path: p.as_bytes().to_vec(), mode: 0o700 }
}

#[test]
fn missing_directories_are_made_from_the_top() {
    let (mut w, a) = DirWalk::start(b"/tmp/a/b");
    assert_eq!(a, probe("/tmp/a/b"));
    assert_eq!(w.step(None, 1000, DirEvent::Missing), probe("/tmp/a"));
    assert_eq!(w.step(None, 1000, DirEvent::Missing), probe("/tmp"));
    assert_eq!(w.step(None, 1000, DirEvent::Exists), create("/tmp/a"));
    assert_eq!(w.step(None, 1000, DirEvent::Created), create("/tmp/a/b"));
    assert_eq!(w.step(None, 1000, DirEvent::Created), DirAction::Done);
}

#[test]
fn existing_directories_are_checked() {
    let (mut w, _) = DirWalk::start(b"/tmp/u/v/x");
    assert_eq!(w.step(None, 1000, DirEvent::Missing), probe("/tmp/u/v"));
    assert_eq!(w.step(None, 1000, DirEvent::Exists), inspect("/tmp/u/v"));
    assert_eq!(w.step(None, 1000, DirEvent::Looked { facts: MINE }), inspect("/tmp/u"));
    assert_eq!(w.step(None, 1000, DirEvent::Looked { facts: MINE }), create("/tmp/u/v/x"));
    let (mut w, _) = DirWalk::start(b"/tmp");
    assert_eq!(w.step(None, 1000, DirEvent::Exists), DirAction::Done);
    let (mut w, _) = DirWalk::start(b"/run/user/1");
    assert_eq!(w.step(Some("/run/user/1"), 1000, DirEvent::Exists), DirAction::Done);
}

#[test]
fn a_fault_above_is_a_fault() {
    let link = DirFacts { is_symlink: true, is_dir: false, uid: 1000 };
    let foreign = DirFacts { is_symlink: false, is_dir: true, uid: 0 };
    let path = b"/tmp/foreign".to_vec();
    for (facts, error) in [
        (link, SecurityError::Symlink { path: path.clone() }),
        (
            foreign,
            SecurityError::ForeignOwner { path: path.clone(), owner: 0, expected: 1000 },
        ),
    ] {
        let (mut w, _) = DirWalk::start(b"/tmp/foreign/mine");
        assert_eq!(w.step(None, 1000, DirEvent::Exists), inspect("/tmp/foreign/mine"));
        assert_eq!(
            w.step(None, 1000, DirEvent::Looked { facts: MINE }),
            inspect("/tmp/foreign")
        );
        assert_eq!(
            w.step(None, 1000, DirEvent::Looked { facts }),
            DirAction::Refuse { error }
        );
    }
}

#[test]
fn checks_end_at_the_runtime_directory() {
    let xdg = Some("/run/user/1000");
    let (mut w, _) = DirWalk::start(b"/run/user/1000/gritty");
    assert_eq!(w.step(xdg, 1000, DirEvent::Exists), inspect("/run/user/1000/gritty"));
    assert_eq!(w.step(xdg, 1000, DirEvent::Looked { facts: MINE }), DirAction::Done);
    // Without it the directories above count too.
    let (mut w, _) = DirWalk::start(b"/run/user/1000/gritty");
    w.step(None, 1000, DirEvent::Exists);
    assert_eq!(w.step(None, 1000, DirEvent::Looked { facts: MINE }), inspect("/run/user/1000"));
    assert_eq!(w.step(None, 1000, DirEvent::Looked { facts: MINE }), inspect("/run/user"));
}

#[test]
fn checks_end_with_a_relative_path() {
    let (mut w, _) = DirWalk::start(b"a/b");
    assert_eq!(w.step(None, 1000, DirEvent::Exists), inspect("a/b"));
    assert_eq!(w.step(None, 1000, DirEvent::Looked { facts: MINE }), inspect("a"));
    assert_eq!(w.step(None, 1000, DirEvent::Looked { facts: MINE }), DirAction::Done);
}

#[test]
fn a_second_walk_makes_nothing() {
    let (mut w, _) = DirWalk::start(b"/tmp/a/b");
    assert_eq!(w.step(None, 1000, DirEvent::Exists), inspect("/tmp/a/b"));
    assert_eq!(w.step(None, 1000, DirEvent::Looked { facts: MINE }), inspect("/tmp/a"));
    assert_eq!(w.step(None, 1000, DirEvent::Looked { facts: MINE }), DirAction::Done);
}

#[test]
fn climbing_ends() {
    let (mut w, _) = DirWalk::start(b"a");
    assert_eq!(w.step(None, 1000, DirEvent::Missing), probe(""));
    assert_eq!(w.step(None, 1000, DirEvent::Missing), create(""));
    assert_eq!(w.step(None, 1000, DirEvent::Created), create("a"));
}

#[test]
fn binding_a_fresh_socket() {
    let (mut b, a) = Binding::start();
    assert_eq!(a, BindAction::Bind);
    assert_eq!(b.step(BindEvent::Bound), BindAction::SetMode { mode: 0o600 });
    assert_eq!(b.step(BindEvent::ModeSet { ok: true }), BindAction::Done);
    assert_eq!(b.step(BindEvent::ModeSet { ok: false }), BindAction::Fail);
}

#[test]
fn binding_over_a_stale_socket() {
    let (mut b, _) = Binding::start();
    assert_eq!(b.step(BindEvent::BindFailed { in_use: true }), BindAction::Probe);
    assert_eq!(b.step(BindEvent::Probed { answered: false }), BindAction::Remove);
    assert_eq!(b.step(BindEvent::Removed { ok: true }), BindAction::Bind);
    assert_eq!(b.step(BindEvent::BindFailed { in_use: true }), BindAction::Fail);
    assert_eq!(b.step(BindEvent::Bound), BindAction::SetMode { mode: 0o600 });
    let (mut b, _) = Binding::start();
    assert_eq!(b.step(BindEvent::Removed { ok: false }), BindAction::Fail);
}

#[test]
fn a_live_socket_is_refused() {
    let (mut b, _) = Binding::start();
    assert_eq!(b.step(BindEvent::BindFailed { in_use: true }), BindAction::Probe);
    assert_eq!(b.step(BindEvent::Probed { answered: true }), BindAction::RefuseInUse);
    let e = in_use_error(b"/tmp/ctl.sock");
    assert_eq!(e.kind(), ErrorKind::AddrInUse);
    assert_eq!(e.message(), "/tmp/ctl.sock is already in use by a running process");
    let (mut b, _) = Binding::start();
    assert_eq!(b.step(BindEvent::BindFailed { in_use: false }), BindAction::Fail);
}

#[test]
fn path_functions_agree_with_std() {
    let samples = [
        "", "/", "//", "a", "a/", "a//", "/a", "//a", "a/b", "a//b", "a/./b", "./a", "./", ".",
        "..", "a/..", "/..", "/.", "/./", "a/.", "a/./", "./.", "./..", "../a", "/a/b/c/",
        "...", "a/...", ".a", "a/.b", "/tmp", "/tmp/./", "././a", "a/.//", "/.//a", "./b",
    ];
    for s in samples {
        let std_path = std::path::Path::new(s);
        let std_parent = std_path.parent().map(|p| p.to_str().unwrap().as_bytes().to_vec());
        assert_eq!(parent(s.as_bytes()), std_parent, "parent of {s:?}");
        let std_name = std_path.file_name().map(|p| p.to_str().unwrap().as_bytes().to_vec());
        assert_eq!(file_name(s.as_bytes()), std_name, "file name of {s:?}");
        let std_sibling = std_path.with_file_name("x").to_str().unwrap().as_bytes().to_vec();
        assert_eq!(with_file_name(s.as_bytes(), b"x"), std_sibling, "sibling of {s:?}");
        let std_joined = std_path.join("x").to_str().unwrap().as_bytes().to_vec();
        assert_eq!(join_path(s.as_bytes(), b"x"), std_joined, "joined to {s:?}");
        for t in samples {
            assert_eq!(
                paths_equal(s.as_bytes(), t.as_bytes()),
                std_path == std::path::Path::new(t),
                "{s:?} and {t:?}"
            );
        }
    }
}

#[test]
fn paths_are_shown_with_replacements() {
    assert_eq!(shown(b"/tmp/x"), "/tmp/x");
    assert_eq!(shown(&[0x2f, 0xc3, 0xbc, 0xff]), "/\u{fc}\u{fffd}");
}
