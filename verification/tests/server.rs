use wireguard_proxyd::server::Server;

fn server(low: u16, high: u16, secs: u64) -> Server {
    Server::new(String::from("127.0.0.1:51820"), String::from("127.0.0.1"), low, high, secs)
}

#[test]
fn server_new_keeps_every_field() {
    let s = Server::new(String::from("10.1.2.3:51820"), String::from("192.168.0.1"), 30000, 40000, 90);
    assert_eq!(s.udp_target, "10.1.2.3:51820");
    assert_eq!(s.udp_host, "192.168.0.1");
    assert_eq!(s.udp_low_port, 30000);
    assert_eq!(s.udp_high_port, 40000);
    assert_eq!(s.socket_timeout, Some(90));
}

#[test]
fn server_zero_seconds_means_no_timeout() {
    assert_eq!(server(30000, 40000, 0).socket_timeout, None);
}

#[test]
fn server_one_second_timeout() {
    assert_eq!(server(30000, 40000, 1).socket_timeout, Some(1));
}

#[test]
fn server_largest_timeout() {
    assert_eq!(server(30000, 40000, u64::MAX).socket_timeout, Some(u64::MAX));
}

#[test]
fn server_new_does_not_reorder_ports() {
    let s = server(40000, 30000, 0);
    assert_eq!(s.udp_low_port, 40000);
    assert_eq!(s.udp_high_port, 30000);
}

#[test]
fn server_port_range_of_valid_bounds() {
    let s = Server::new(String::from("t:1"), String::from("::1"), 30000, 30002, 0);
    let r = s.port_range().unwrap();
    assert_eq!(r.host, "::1");
    assert_eq!(r.low, 30000);
    assert_eq!(r.high, 30002);
}

#[test]
fn server_port_range_of_single_port() {
    let r = server(51820, 51820, 0).port_range().unwrap();
    assert_eq!((r.low, r.high), (51820, 51820));
}

#[test]
fn server_port_range_rejects_low_above_high() {
    assert!(server(30001, 30000, 0).port_range().is_none());
}

#[test]
fn server_port_range_whole_port_space() {
    let r = server(0, 65535, 0).port_range().unwrap();
    assert_eq!((r.low, r.high), (0, 65535));
}
