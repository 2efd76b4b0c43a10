use ascending_login::socket::game_server::SocketPollState;

#[test]
fn add_is_a_union() {
    let mut s = SocketPollState::Idle;
    s.add(SocketPollState::Read);
    assert_eq!(s, SocketPollState::Read);
    s.add(SocketPollState::Write);
    assert_eq!(s, SocketPollState::ReadWrite);
    let mut r = SocketPollState::Read;
    r.add(SocketPollState::ReadWrite);
    assert_eq!(r, SocketPollState::ReadWrite);
}
