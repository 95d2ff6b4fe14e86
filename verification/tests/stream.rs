use ws_bench::stream::{Role, Stream};

#[test]
fn client_bytes_reach_server_in_order() {
    let mut s = Stream::new(64);
    assert_eq!(s.role(), Role::Client);
    assert_eq!(s.write(b"hello "), 6);
    assert_eq!(s.write(b"world"), 5);
    s.role_server();
    assert_eq!(s.role(), Role::Server);
    assert_eq!(s.read(4), b"hell".to_vec());
    assert_eq!(s.read(100), b"o world".to_vec());
    assert_eq!(s.read(100), Vec::<u8>::new());
}

#[test]
fn a_role_does_not_read_its_own_writes() {
    let mut s = Stream::new(0);
    s.write(b"abc");
    assert_eq!(s.read(10), Vec::<u8>::new());
    s.role_server();
    s.write(b"reply");
    assert_eq!(s.read(10), b"abc".to_vec());
    s.role_client();
    assert_eq!(s.read(2), b"re".to_vec());
    assert_eq!(s.read(0), Vec::<u8>::new());
    assert_eq!(s.read(10), b"ply".to_vec());
}

#[test]
fn reads_split_anywhere_give_the_same_bytes() {
    let data: Vec<u8> = (0u8..50).collect();
    let mut whole = Stream::new(50);
    whole.write(&data);
    whole.role_server();
    let all = whole.read(50);
    let mut pieces = Stream::new(50);
    pieces.write(&data);
    pieces.role_server();
    let mut joined = pieces.read(7);
    joined.extend(pieces.read(30));
    joined.extend(pieces.read(13));
    assert_eq!(all, joined);
    assert_eq!(all, data);
}
