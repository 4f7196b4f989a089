use ip2char::config::{
    CharPeerSection, Config, InterfaceSection, IpNetwork, Peer, SockListenPeerSection,
    SockPeerSection, DEFAULT_BUFFER, DEFAULT_SPEED,
};
use ip2char::types::{CompressionType, EncryptionType, PostCommand};

fn interface(buffer: Option<usize>) -> InterfaceSection {
    InterfaceSection {
        address: IpNetwork::v4(0x0a000001, 24).unwrap(),
        name: "tun0".to_string(),
        ip_filtering: None,
        buffer,
        post_up: Some("ip link set tun0 up".to_string()),
        post_down: None,
    }
}

fn serial(path: &str, speed: Option<u32>) -> CharPeerSection {
    CharPeerSection {
        path: path.to_string(),
        allowedips: vec![IpNetwork::v4(0x0a000000, 24).unwrap()],
        speed,
        compression: Some(CompressionType::Zstd),
        encryption: Some(EncryptionType::Unencrypted),
    }
}

fn dialled(path: &str) -> SockPeerSection {
    SockPeerSection {
        path: path.to_string(),
        allowedips: vec![],
        compression: None,
        encryption: None,
    }
}

fn dialling_in(path: &str) -> SockListenPeerSection {
    SockListenPeerSection {
        path: path.to_string(),
        allowedips: vec![IpNetwork::v4(0, 0).unwrap(), IpNetwork::v6(1, 128).unwrap()],
        compression: Some(CompressionType::Gzip),
        encryption: None,
    }
}

#[test]
fn peers_are_listed_by_transport_in_order() {
    let config = Config {
        interface: interface(None),
        peer_char: vec![serial("/dev/ttyS0", None), serial("/dev/ttyS1", Some(9600))],
        peer_sock: vec![dialled("10.0.0.2:7000")],
        peer_sock_listen: vec![dialling_in("0.0.0.0:7001"), dialling_in("0.0.0.0:7002")],
    };
    let peers = config.get_all_peers();
    assert_eq!(
        peers,
        vec![
            Peer::Char(serial("/dev/ttyS0", None)),
            Peer::Char(serial("/dev/ttyS1", Some(9600))),
            Peer::Sock(dialled("10.0.0.2:7000")),
            Peer::SockListen(dialling_in("0.0.0.0:7001")),
            Peer::SockListen(dialling_in("0.0.0.0:7002")),
        ]
    );
}

#[test]
fn configuration_without_peers_lists_none() {
    let config = Config {
        interface: interface(None),
        peer_char: vec![],
        peer_sock: vec![],
        peer_sock_listen: vec![],
    };
    assert!(config.get_all_peers().is_empty());
}

#[test]
fn peer_tells_its_path_blocks_and_codec() {
    let a = Peer::Char(serial("/dev/ttyS0", None));
    assert_eq!(a.path(), "/dev/ttyS0");
    assert_eq!(a.allowed_ips(), &[IpNetwork::V4 { addr: 0x0a000000, prefix: 24 }]);
    assert_eq!(a.compression(), CompressionType::Zstd);
    let b = Peer::Sock(dialled("10.0.0.2:7000"));
    assert_eq!(b.path(), "10.0.0.2:7000");
    assert!(b.allowed_ips().is_empty());
    assert_eq!(b.compression(), CompressionType::Uncompressed);
    let c = Peer::SockListen(dialling_in("0.0.0.0:7001"));
    assert_eq!(c.path(), "0.0.0.0:7001");
    assert_eq!(c.allowed_ips().len(), 2);
    assert_eq!(c.compression(), CompressionType::Gzip);
}

#[test]
fn sections_are_duplicated_whole() {
    let a = serial("/dev/ttyS0", Some(57600));
    assert_eq!(a.duplicate(), a);
    let b = dialled("10.0.0.2:7000");
    assert_eq!(b.duplicate(), b);
    let c = dialling_in("0.0.0.0:7001");
    assert_eq!(c.duplicate(), c);
}

#[test]
fn buffer_defaults_to_512() {
    assert_eq!(DEFAULT_BUFFER, 512);
    assert_eq!(interface(None).buffer_capacity(), 512);
    assert_eq!(interface(Some(4)).buffer_capacity(), 4);
}

#[test]
fn speed_defaults_to_115200() {
    assert_eq!(DEFAULT_SPEED, 115200);
    assert_eq!(serial("/dev/ttyS0", None).baud_rate(), 115200);
    assert_eq!(serial("/dev/ttyS0", Some(9600)).baud_rate(), 9600);
}

#[test]
fn each_command_is_handed_out_once() {
    let mut commands = PostCommand::new(Some("up".to_string()), Some("down".to_string()));
    assert_eq!(commands.take_post_up(), Some("up".to_string()));
    assert_eq!(commands.take_post_up(), None);
    assert_eq!(commands.take_post_down(), Some("down".to_string()));
    assert_eq!(commands.take_post_down(), None);
}

#[test]
fn missing_commands_are_never_handed_out() {
    let mut commands = PostCommand::new(None, Some("down".to_string()));
    assert_eq!(commands.take_post_up(), None);
    assert_eq!(commands.take_post_down(), Some("down".to_string()));
    let mut none = PostCommand::new(None, None);
    assert_eq!(none.take_post_down(), None);
    assert_eq!(none.take_post_up(), None);
}
