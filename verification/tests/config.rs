use vim_matlab::config::{
    resolve_socket_path, socket_path_of, Args, DEFAULT_MATLAB_CMD, DEFAULT_SOCKET,
};
use vim_matlab::host::HostConstants;
use vim_matlab::text::{contains, replace};

#[test]
fn test_resolve_socket_path() {
    let uid = nix::unistd::getuid();
    assert_eq!(
        resolve_socket_path("/tmp/test-{uid}"),
        format!("/tmp/test-{}", uid)
    );
    assert_eq!(resolve_socket_path("/tmp/test-1000"), "/tmp/test-1000");
}

#[test]
fn default_arguments() {
    let args = Args::default();
    assert_eq!(args.matlab_cmd, "matlab -nodesktop -nosplash");
    assert_eq!(args.socket, "/tmp/vim-matlab-{uid}.sock");
    assert_eq!(args.matlab_cmd, DEFAULT_MATLAB_CMD);
    assert_eq!(args.socket, DEFAULT_SOCKET);
    assert_eq!(
        socket_path_of(&args.socket, 1000),
        "/tmp/vim-matlab-1000.sock"
    );
}

#[test]
fn every_placeholder_is_replaced() {
    assert_eq!(socket_path_of("{uid}/{uid}", 0), "0/0");
    assert_eq!(socket_path_of("{{uid}uid}", 12), "{12uid}");
    assert_eq!(socket_path_of("{uid", 5), "{uid");
    assert_eq!(socket_path_of("{UID}", 5), "{UID}");
    assert_eq!(socket_path_of("", 5), "");
    assert_eq!(
        socket_path_of("\u{e9}{uid}\u{e9}", u32::MAX),
        "\u{e9}4294967295\u{e9}"
    );
}

#[test]
fn each_user_has_a_socket_of_their_own() {
    let paths: Vec<String> = [0, 1, 11, 111, 1000, 1001]
        .iter()
        .map(|uid| socket_path_of("/tmp/{uid}{uid}", *uid))
        .collect();
    for i in 0..paths.len() {
        for j in 0..paths.len() {
            assert_eq!(paths[i] == paths[j], i == j);
        }
    }
}

#[test]
fn a_resolved_path_is_final() {
    for path in ["/tmp/{uid}", "{{uid}uid}", "{u{uid}id}", "plain"] {
        let resolved = socket_path_of(path, 1000);
        assert_eq!(socket_path_of(&resolved, 7), resolved);
        assert_eq!(resolve_socket_path(&resolved), resolved);
    }
}

#[test]
fn replacing_is_that_of_the_standard_library() {
    for (s, pattern, by) in [
        ("aaaa", "aa", "b"),
        ("aaa", "aa", "a"),
        ("abcabc", "abc", ""),
        ("xyz", "q", "r"),
        ("", "q", "r"),
        ("\u{e9}a\u{e9}", "\u{e9}", "ee"),
    ] {
        assert_eq!(replace(s, pattern, by), s.replace(pattern, by));
        assert_eq!(contains(s, pattern), s.contains(pattern));
    }
    assert!(contains("abc", ""));
    assert!(contains("", ""));
}

#[test]
fn constants_are_those_of_the_target() {
    let host = HostConstants::current();
    assert_eq!(host.eio, libc::EIO);
    assert_eq!(host.nonblock, libc::O_NONBLOCK);
    assert_eq!(host.known_flags & libc::O_APPEND, libc::O_APPEND);
    assert_eq!(host.known_flags & host.nonblock, host.nonblock);
}
