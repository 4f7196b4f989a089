//! What a configuration file says, once it has been read: the interface, and
//! the peers by the transport that reaches them.

use vstd::prelude::*;

use crate::types::{CompressionType, EncryptionType};

verus! {

/// Channel capacity where the configuration names none.
pub const DEFAULT_BUFFER: usize = 512;

/// Baud rate of a serial device where the configuration names none.
pub const DEFAULT_SPEED: u32 = 115200;

/// An address block in CIDR notation: the address as one number, most
/// significant byte first, and the number of leading bits that count.
#[derive(Debug, Copy, Clone, PartialEq, Eq)]
#[allow(inconsistent_fields)]
pub enum IpNetwork {
    V4 { addr: u32, prefix: u8 },
    V6 { addr: u128, prefix: u8 },
}

impl IpNetwork {
    /// Whether the prefix is no longer than an address of its family.
    pub open spec fn is_well_formed(self) -> bool {
        match self {
            IpNetwork::V4 { prefix, .. } => prefix <= 32,
            IpNetwork::V6 { prefix, .. } => prefix <= 128,
        }
    }

    /// The IPv4 block of `addr` with the first `prefix` bits counting, where
    /// `prefix` is at most 32.
    pub fn v4(addr: u32, prefix: u8) -> (r: Option<IpNetwork>)
        ensures
            prefix <= 32 ==> r == Some(IpNetwork::V4 { addr, prefix }),
            prefix > 32 ==> r is None,
    {
        if prefix <= 32 {
            Some(IpNetwork::V4 { addr, prefix })
        } else {
            None
        }
    }

    /// The IPv6 block of `addr` with the first `prefix` bits counting, where
    /// `prefix` is at most 128.
    pub fn v6(addr: u128, prefix: u8) -> (r: Option<IpNetwork>)
        ensures
            prefix <= 128 ==> r == Some(IpNetwork::V6 { addr, prefix }),
            prefix > 128 ==> r is None,
    {
        if prefix <= 128 {
            Some(IpNetwork::V6 { addr, prefix })
        } else {
            None
        }
    }
}

/// The `[interface]` section.
#[derive(Debug, Clone, PartialEq, Eq)]
pub struct InterfaceSection {
    pub address: IpNetwork,
    pub name: String,
    pub ip_filtering: Option<bool>,
    pub buffer: Option<usize>,
    pub post_up: Option<String>,
    pub post_down: Option<String>,
}

impl InterfaceSection {
    /// The capacity of the channels between the interface and the peers: the
    /// configured one, or 512.
    pub fn buffer_capacity(&self) -> (n: usize)
        ensures
            n == match self.buffer {
                Some(b) => b,
                None => DEFAULT_BUFFER,
            },
    {
        match self.buffer {
            Some(b) => b,
            None => DEFAULT_BUFFER,
        }
    }
}

/// The transport that reaches a peer.
pub enum Transport {
    Char,
    Sock,
    SockListen,
}

/// A peer as contracts see it.
pub struct PeerView {
    pub transport: Transport,
    pub path: Seq<char>,
    pub allowedips: Seq<IpNetwork>,
    pub speed: Option<u32>,
    pub compression: Option<CompressionType>,
    pub encryption: Option<EncryptionType>,
}

/// A `[[peer-char]]` section: a peer behind a serial device.
#[derive(Debug, Clone, PartialEq, Eq)]
pub struct CharPeerSection {
    pub path: String,
    pub allowedips: Vec<IpNetwork>,
    pub speed: Option<u32>,
    pub compression: Option<CompressionType>,
    pub encryption: Option<EncryptionType>,
}

/// A `[[peer-sock]]` section: a peer that is dialled.
#[derive(Debug, Clone, PartialEq, Eq)]
pub struct SockPeerSection {
    pub path: String,
    pub allowedips: Vec<IpNetwork>,
    pub compression: Option<CompressionType>,
    pub encryption: Option<EncryptionType>,
}

/// A `[[peer-sock-listen]]` section: a peer that dials in.
#[derive(Debug, Clone, PartialEq, Eq)]
pub struct SockListenPeerSection {
    pub path: String,
    pub allowedips: Vec<IpNetwork>,
    pub compression: Option<CompressionType>,
    pub encryption: Option<EncryptionType>,
}

/// A copy of `list`.
fn copy_networks(list: &Vec<IpNetwork>) -> (out: Vec<IpNetwork>)
    ensures
        out@ == list@,
{
    let mut out: Vec<IpNetwork> = Vec::new();
    let mut i: usize = 0;
    while i < list.len()
        invariant
            i <= list@.len(),
            out@ == list@.take(i as int),
        decreases list@.len() - i,
    {
        out.push(list[i]);
        assert(list@.take(i + 1) =~= list@.take(i as int).push(list@[i as int]));
        i = i + 1;
    }
    assert(list@.take(list@.len() as int) =~= list@);
    out
}

impl View for CharPeerSection {
    type V = PeerView;

    open spec fn view(&self) -> PeerView {
        PeerView {
            transport: Transport::Char,
            path: self.path@,
            allowedips: self.allowedips@,
            speed: self.speed,
            compression: self.compression,
            encryption: self.encryption,
        }
    }
}

impl View for SockPeerSection {
    type V = PeerView;

    open spec fn view(&self) -> PeerView {
        PeerView {
            transport: Transport::Sock,
            path: self.path@,
            allowedips: self.allowedips@,
            speed: None,
            compression: self.compression,
            encryption: self.encryption,
        }
    }
}

impl View for SockListenPeerSection {
    type V = PeerView;

    open spec fn view(&self) -> PeerView {
        PeerView {
            transport: Transport::SockListen,
            path: self.path@,
            allowedips: self.allowedips@,
            speed: None,
            compression: self.compression,
            encryption: self.encryption,
        }
    }
}

impl CharPeerSection {
    /// The baud rate at which to open the device: the configured one, or
    /// 115200.
    pub fn baud_rate(&self) -> (n: u32)
        ensures
            n == match self.speed {
                Some(s) => s,
                None => DEFAULT_SPEED,
            },
    {
        match self.speed {
            Some(s) => s,
            None => DEFAULT_SPEED,
        }
    }

    /// A copy of this section.
    pub fn duplicate(&self) -> (copy: CharPeerSection)
        ensures
            copy@ == self@,
    {
        CharPeerSection {
            path: self.path.clone(),
            allowedips: copy_networks(&self.allowedips),
            speed: self.speed,
            compression: self.compression,
            encryption: self.encryption,
        }
    }
}

impl SockPeerSection {
    /// A copy of this section.
    pub fn duplicate(&self) -> (copy: SockPeerSection)
        ensures
            copy@ == self@,
    {
        SockPeerSection {
            path: self.path.clone(),
            allowedips: copy_networks(&self.allowedips),
            compression: self.compression,
            encryption: self.encryption,
        }
    }
}

impl SockListenPeerSection {
    /// A copy of this section.
    pub fn duplicate(&self) -> (copy: SockListenPeerSection)
        ensures
            copy@ == self@,
    {
        SockListenPeerSection {
            path: self.path.clone(),
            allowedips: copy_networks(&self.allowedips),
            compression: self.compression,
            encryption: self.encryption,
        }
    }
}

/// A configured peer, by transport.
#[derive(Debug, Clone, PartialEq, Eq)]
pub enum Peer {
    Char(CharPeerSection),
    Sock(SockPeerSection),
    SockListen(SockListenPeerSection),
}

impl View for Peer {
    type V = PeerView;

    open spec fn view(&self) -> PeerView {
        match *self {
            Peer::Char(c) => c@,
            Peer::Sock(s) => s@,
            Peer::SockListen(s) => s@,
        }
    }
}

/// The codec that a peer's frames are compressed with: the configured one,
/// or none.
pub open spec fn codec_of(peer: PeerView) -> CompressionType {
    match peer.compression {
        Some(t) => t,
        None => CompressionType::Uncompressed,
    }
}

impl Peer {
    /// The address blocks whose packets go to this peer.
    pub fn allowed_ips(&self) -> (list: &[IpNetwork])
        ensures
            list@ == self@.allowedips,
    {
        match self {
            Peer::Char(c) => c.allowedips.as_slice(),
            Peer::Sock(c) => c.allowedips.as_slice(),
            Peer::SockListen(c) => c.allowedips.as_slice(),
        }
    }

    /// The device path or address that names this peer.
    pub fn path(&self) -> (path: &str)
        ensures
            path@ == self@.path,
    {
        match self {
            Peer::Char(c) => c.path.as_str(),
            Peer::Sock(c) => c.path.as_str(),
            Peer::SockListen(c) => c.path.as_str(),
        }
    }

    /// The codec that this peer's frames are compressed with: the configured
    /// one, or none.
    pub fn compression(&self) -> (t: CompressionType)
        ensures
            t == codec_of(self@),
    {
        let configured = match self {
            Peer::Char(c) => c.compression,
            Peer::Sock(c) => c.compression,
            Peer::SockListen(c) => c.compression,
        };
        match configured {
            Some(t) => t,
            None => CompressionType::Uncompressed,
        }
    }
}

/// A whole configuration.
#[derive(Debug, Clone, PartialEq, Eq)]
pub struct Config {
    pub interface: InterfaceSection,
    pub peer_char: Vec<CharPeerSection>,
    pub peer_sock: Vec<SockPeerSection>,
    pub peer_sock_listen: Vec<SockListenPeerSection>,
}

/// What each of `peers` is, in order.
pub open spec fn peer_views(peers: Seq<Peer>) -> Seq<PeerView> {
    Seq::new(peers.len(), |i: int| peers[i]@)
}

impl Config {
    /// The peers that `get_all_peers` lists: those behind serial devices,
    /// then those that are dialled, then those that dial in, each group in
    /// the order of the configuration.
    pub open spec fn all_peers(self) -> Seq<PeerView> {
        Seq::new(self.peer_char@.len(), |i: int| self.peer_char@[i]@) + Seq::new(
            self.peer_sock@.len(),
            |i: int| self.peer_sock@[i]@,
        ) + Seq::new(self.peer_sock_listen@.len(), |i: int| self.peer_sock_listen@[i]@)
    }

    /// All configured peers: those behind serial devices, then those that are
    /// dialled, then those that dial in.
    pub fn get_all_peers(&self) -> (peers: Vec<Peer>)
        ensures
            peer_views(peers@) == self.all_peers(),
    {
        let mut peers: Vec<Peer> = Vec::new();
        let ghost chars = Seq::new(self.peer_char@.len(), |i: int| self.peer_char@[i]@);
        let ghost socks = Seq::new(self.peer_sock@.len(), |i: int| self.peer_sock@[i]@);
        let ghost listens = Seq::new(
            self.peer_sock_listen@.len(),
            |i: int| self.peer_sock_listen@[i]@,
        );
        let mut i: usize = 0;
        while i < self.peer_char.len()
            invariant
                i <= self.peer_char@.len(),
                peer_views(peers@) == chars.take(i as int),
                chars == Seq::new(self.peer_char@.len(), |i: int| self.peer_char@[i]@),
            decreases self.peer_char@.len() - i,
        {
            let ghost listed = peer_views(peers@);
            peers.push(Peer::Char(self.peer_char[i].duplicate()));
            assert(peer_views(peers@) =~= listed.push(chars[i as int]));
            assert(chars.take(i + 1) =~= chars.take(i as int).push(chars[i as int]));
            i = i + 1;
        }
        let mut j: usize = 0;
        while j < self.peer_sock.len()
            invariant
                j <= self.peer_sock@.len(),
                peer_views(peers@) == chars + socks.take(j as int),
                socks == Seq::new(self.peer_sock@.len(), |i: int| self.peer_sock@[i]@),
            decreases self.peer_sock@.len() - j,
        {
            let ghost listed = peer_views(peers@);
            peers.push(Peer::Sock(self.peer_sock[j].duplicate()));
            assert(peer_views(peers@) =~= listed.push(socks[j as int]));
            assert(chars + socks.take(j + 1) =~= (chars + socks.take(j as int)).push(
                socks[j as int],
            ));
            j = j + 1;
        }
        let mut k: usize = 0;
        while k < self.peer_sock_listen.len()
            invariant
                k <= self.peer_sock_listen@.len(),
                peer_views(peers@) == chars + socks + listens.take(k as int),
                listens == Seq::new(
                    self.peer_sock_listen@.len(),
                    |i: int| self.peer_sock_listen@[i]@,
                ),
            decreases self.peer_sock_listen@.len() - k,
        {
            let ghost listed = peer_views(peers@);
            peers.push(Peer::SockListen(self.peer_sock_listen[k].duplicate()));
            assert(peer_views(peers@) =~= listed.push(listens[k as int]));
            assert(chars + socks + listens.take(k + 1) =~= (chars + socks + listens.take(
                k as int,
            )).push(listens[k as int]));
            k = k + 1;
        }
        assert(peer_views(peers@) =~= self.all_peers());
        peers
    }
}

} // verus!
