use mcwrap::paths::{join, session_id, to_hex, wrap_base, wrap_dir_for, ServerPaths};

#[test]
fn session_id_is_digest_prefix() {
    assert_eq!(session_id(b"/srv/game"), b"3023056c0ed0".to_vec());
    assert_eq!(session_id(b""), b"d41d8cd98f00".to_vec());
}

#[test]
fn hex_text() {
    assert_eq!(to_hex(&[0x00, 0x0f, 0xa5, 0xff]), b"000fa5ff".to_vec());
    assert_eq!(to_hex(&[]), Vec::<u8>::new());
}

#[test]
fn joining_components() {
    assert_eq!(join(b"/home/u", b"x"), b"/home/u/x".to_vec());
    assert_eq!(join(b"/home/u/", b"x"), b"/home/u/x".to_vec());
    assert_eq!(join(b"", b"x"), b"x".to_vec());
}

#[test]
fn storage_base_under_home_or_tmp() {
    assert_eq!(wrap_base(&Some(b"/home/u".to_vec())), b"/home/u/.mcwrap".to_vec());
    assert_eq!(wrap_base(&None), b"/tmp/.mcwrap".to_vec());
}

#[test]
fn storage_dir_from_digest() {
    let digest = [0x30u8, 0x23, 0x05, 0x6c, 0x0e, 0xd0, 0x86, 0x08, 0x3e, 0xd4, 0x31, 0xf6, 0x33, 0x51, 0x35, 0xde];
    assert_eq!(
        wrap_dir_for(&Some(b"/root".to_vec()), &digest),
        b"/root/.mcwrap/3023056c0ed0".to_vec()
    );
    assert_eq!(wrap_dir_for(&None, &digest), b"/tmp/.mcwrap/3023056c0ed0".to_vec());
}

#[test]
fn session_files() {
    let p = ServerPaths::in_dir(b"/root/.mcwrap/3023056c0ed0".to_vec());
    assert_eq!(p.state_file, b"/root/.mcwrap/3023056c0ed0/state.json".to_vec());
    assert_eq!(p.log_file, b"/root/.mcwrap/3023056c0ed0/console.log".to_vec());
    assert_eq!(p.socket_path, b"/root/.mcwrap/3023056c0ed0/pty.sock".to_vec());
    assert_eq!(p.input_fifo(), b"/root/.mcwrap/3023056c0ed0/input".to_vec());
}

#[test]
fn session_files_for_directory_end_in_its_id() {
    let p = ServerPaths::new(b"/srv/game");
    assert!(p.wrap_dir.ends_with(b"/.mcwrap/3023056c0ed0"));
    assert!(p.state_file.ends_with(b"/.mcwrap/3023056c0ed0/state.json"));
}

#[test]
fn storage_base_ends_in_hidden_directory() {
    assert!(mcwrap::paths::get_wrap_base().ends_with(b"/.mcwrap"));
}
