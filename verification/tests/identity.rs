use geopmdrs::identity::{session_key, ConnectInfo, PeerCredentials, Rejection, SessionKey};

fn peer(uid: u32, pid: i32) -> ConnectInfo {
    ConnectInfo { peer_cred: Some(PeerCredentials { uid, pid: Some(pid) }) }
}

fn token(uid: u32, pid: i32) -> String {
    session_key(&peer(uid, pid)).expect("a peer with credentials has an identity").name
}

#[test]
fn token_is_uid_comma_pid() {
    assert_eq!(token(1000, 42), "1000,42");
    assert_eq!(token(1000, 99), "1000,99");
}

#[test]
fn token_of_zeroes() {
    assert_eq!(token(0, 0), "0,0");
}

#[test]
fn token_has_no_leading_zeros() {
    assert_eq!(token(7, 8), "7,8");
    assert_eq!(token(9, 10), "9,10");
    assert_eq!(token(10, 9), "10,9");
    assert_eq!(token(99, 100), "99,100");
    assert_eq!(token(100, 101), "100,101");
    assert_eq!(token(1001, 20030), "1001,20030");
}

#[test]
fn token_of_largest_ids() {
    assert_eq!(token(u32::MAX, i32::MAX), "4294967295,2147483647");
}

#[test]
fn token_of_negative_pid_keeps_the_sign() {
    assert_eq!(token(5, -1), "5,-1");
    assert_eq!(token(0, -10), "0,-10");
    assert_eq!(token(5, i32::MIN), "5,-2147483648");
}

#[test]
fn token_agrees_with_decimal_formatting() {
    let uids = [0u32, 1, 9, 10, 11, 99, 100, 999, 1000, 65534, 65535, 65536, 4294967294, u32::MAX];
    let pids = [i32::MIN, -65536, -100, -11, -10, -9, -1, 0, 1, 9, 10, 99, 100, 4194304, i32::MAX];
    for uid in uids {
        for pid in pids {
            assert_eq!(token(uid, pid), format!("{},{}", uid, pid));
        }
    }
}

#[test]
fn tokens_differ_when_peers_differ() {
    let peers = [(1u32, 23i32), (12, 3), (1, 2), (12, 34), (123, 4), (1, 234), (1, -23), (0, 0)];
    for (i, a) in peers.iter().enumerate() {
        for (j, b) in peers.iter().enumerate() {
            assert_eq!(token(a.0, a.1) == token(b.0, b.1), i == j);
        }
    }
}

#[test]
fn token_is_the_same_every_time() {
    assert_eq!(session_key(&peer(1000, 42)), session_key(&peer(1000, 42)));
    assert_eq!(session_key(&peer(1000, 42)), Ok(SessionKey { name: String::from("1000,42") }));
}

#[test]
fn connection_without_credentials_has_no_identity() {
    let info = ConnectInfo { peer_cred: None };
    assert_eq!(session_key(&info), Err(Rejection::MissingCredentials));
}

#[test]
fn credentials_without_pid_have_no_identity() {
    let info = ConnectInfo { peer_cred: Some(PeerCredentials { uid: 1000, pid: None }) };
    assert_eq!(session_key(&info), Err(Rejection::MissingPid));
}

#[test]
fn every_rejection_says_why() {
    assert_eq!(Rejection::MissingConnectInfo.message(), "call did not arrive over a local socket");
    assert_eq!(Rejection::MissingCredentials.message(), "peer credentials are not available");
    assert_eq!(Rejection::MissingPid.message(), "peer credentials carry no process id");
    assert_eq!(Rejection::TicketsExhausted.message(), "backend handle has no tickets left");
}
