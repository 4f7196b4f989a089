//! The frame header, its codec tags and the errors of decoding one.

use vstd::prelude::*;

verus! {

/// Protocol version written into, and expected in, every header.
pub const VERSION: u16 = 0;

/// Number of bytes of the synchronisation marker.
pub const MARKER_SIZE: usize = 4;

/// The marker that opens every frame.
pub const SYNC_MARKER: [u8; 4] = [0xac, 0xab, 0xc0, 0xde];

/// How a frame's payload is compressed. The three zstd variants differ in the
/// effort spent on compressing and share one tag on the wire.
#[derive(Debug, Copy, Clone, PartialEq, Eq)]
pub enum CompressionType {
    Uncompressed,
    Zstd,
    ZstdFast,
    ZstdSlow,
    Gzip,
}

impl CompressionType {
    /// The byte that stands for this codec in a header.
    pub open spec fn tag(self) -> u8 {
        match self {
            CompressionType::Uncompressed => 0,
            CompressionType::Zstd | CompressionType::ZstdFast | CompressionType::ZstdSlow => 1,
            CompressionType::Gzip => 2,
        }
    }

    /// The codec that a header's byte stands for, if any.
    pub open spec fn of_tag(n: u8) -> Option<CompressionType> {
        if n == 0 {
            Some(CompressionType::Uncompressed)
        } else if n == 1 {
            Some(CompressionType::Zstd)
        } else if n == 2 {
            Some(CompressionType::Gzip)
        } else {
            None
        }
    }

    /// What reading `n` as a codec tag gives.
    pub open spec fn from_tag(n: u8) -> Result<CompressionType, IntoErrors> {
        match CompressionType::of_tag(n) {
            Some(t) => Ok(t),
            None => Err(IntoErrors::NoSuchVariant(n)),
        }
    }

    /// The byte that stands for this codec in a header.
    pub fn wire_tag(self) -> (n: u8)
        ensures
            n == self.tag(),
    {
        match self {
            CompressionType::Uncompressed => 0,
            CompressionType::Zstd => 1,
            CompressionType::ZstdFast => 1,
            CompressionType::ZstdSlow => 1,
            CompressionType::Gzip => 2,
        }
    }
}

impl Default for CompressionType {
    fn default() -> (t: CompressionType)
        ensures
            t == CompressionType::Uncompressed,
    {
        CompressionType::Uncompressed
    }
}

/// How a frame's payload is encrypted. Only the variant that leaves the
/// payload as it is exists.
#[derive(Debug, Copy, Clone, PartialEq, Eq)]
pub enum EncryptionType {
    Unencrypted,
}

impl EncryptionType {
    /// The byte that stands for this cipher in a header.
    pub open spec fn tag(self) -> u8 {
        0
    }

    /// The cipher that a header's byte stands for, if any.
    pub open spec fn of_tag(n: u8) -> Option<EncryptionType> {
        if n == 0 {
            Some(EncryptionType::Unencrypted)
        } else {
            None
        }
    }

    /// What reading `n` as a cipher tag gives.
    pub open spec fn from_tag(n: u8) -> Result<EncryptionType, IntoErrors> {
        match EncryptionType::of_tag(n) {
            Some(t) => Ok(t),
            None => Err(IntoErrors::NoSuchVariant(n)),
        }
    }

    /// The byte that stands for this cipher in a header.
    pub fn wire_tag(self) -> (n: u8)
        ensures
            n == self.tag(),
    {
        0
    }
}

impl Default for EncryptionType {
    fn default() -> (t: EncryptionType)
        ensures
            t == EncryptionType::Unencrypted,
    {
        EncryptionType::Unencrypted
    }
}

/// Why bytes could not be read as a header or as one of its tags.
#[derive(Debug, Copy, Clone, PartialEq, Eq)]
pub enum IntoErrors {
    /// No codec or cipher has this tag.
    NoSuchVariant(u8),
    /// The bytes do not start with the synchronisation marker.
    BadSyncMarker,
    /// Fewer bytes than a header has.
    BufferTooSmall,
}

/// Reads a codec tag: 0, 1 and 2 are the known ones, and 1 is zstd at its
/// usual effort.
pub fn compression_from_tag(n: u8) -> (r: Result<CompressionType, IntoErrors>)
    ensures
        r == CompressionType::from_tag(n),
{
    if n == 0 {
        Ok(CompressionType::Uncompressed)
    } else if n == 1 {
        Ok(CompressionType::Zstd)
    } else if n == 2 {
        Ok(CompressionType::Gzip)
    } else {
        Err(IntoErrors::NoSuchVariant(n))
    }
}

/// Reads a cipher tag: 0 is the only known one.
pub fn encryption_from_tag(n: u8) -> (r: Result<EncryptionType, IntoErrors>)
    ensures
        r == EncryptionType::from_tag(n),
{
    if n == 0 {
        Ok(EncryptionType::Unencrypted)
    } else {
        Err(IntoErrors::NoSuchVariant(n))
    }
}

impl TryFrom<u8> for CompressionType {
    type Error = IntoErrors;

    /// Reads a codec tag.
    fn try_from(n: u8) -> (r: Result<CompressionType, IntoErrors>) {
        compression_from_tag(n)
    }
}

impl vstd::std_specs::convert::TryFromSpecImpl<u8> for CompressionType {
    open spec fn obeys_try_from_spec() -> bool {
        true
    }

    open spec fn try_from_spec(n: u8) -> Result<CompressionType, IntoErrors> {
        CompressionType::from_tag(n)
    }
}

impl TryFrom<u8> for EncryptionType {
    type Error = IntoErrors;

    /// Reads a cipher tag.
    fn try_from(n: u8) -> (r: Result<EncryptionType, IntoErrors>) {
        encryption_from_tag(n)
    }
}

impl vstd::std_specs::convert::TryFromSpecImpl<u8> for EncryptionType {
    open spec fn obeys_try_from_spec() -> bool {
        true
    }

    open spec fn try_from_spec(n: u8) -> Result<EncryptionType, IntoErrors> {
        EncryptionType::from_tag(n)
    }
}

/// The 16-bit number whose little-endian bytes are `lo`, `hi`.
pub open spec fn le_u16(lo: u8, hi: u8) -> u16 {
    (lo as int + 256 * (hi as int)) as u16
}

/// Whether `bytes` starts with the synchronisation marker.
pub open spec fn starts_with_marker(bytes: Seq<u8>) -> bool {
    &&& bytes.len() >= 4
    &&& bytes[0] == 0xac
    &&& bytes[1] == 0xab
    &&& bytes[2] == 0xc0
    &&& bytes[3] == 0xde
}

/// The record at the front of every frame.
#[derive(Debug, Copy, Clone, PartialEq, Eq)]
pub struct Header {
    pub marker: [u8; 4],
    pub version: u16,
    pub packet_length: u16,
    pub compression: CompressionType,
    pub encryption: EncryptionType,
}

impl Header {
    /// The sixteen bytes that stand for this header on the wire: the marker,
    /// version and payload length in little-endian order, the two tags, and
    /// six zero bytes.
    pub open spec fn wire(self) -> [u8; 16] {
        [
            self.marker[0],
            self.marker[1],
            self.marker[2],
            self.marker[3],
            (self.version % 256) as u8,
            (self.version / 256) as u8,
            (self.packet_length % 256) as u8,
            (self.packet_length / 256) as u8,
            self.compression.tag(),
            self.encryption.tag(),
            0u8,
            0u8,
            0u8,
            0u8,
            0u8,
            0u8,
        ]
    }

    /// The bytes of `wire` as a sequence.
    pub open spec fn encoding(self) -> Seq<u8> {
        self.wire()@
    }

    /// What reading `bytes` as a header gives. Only the first sixteen bytes
    /// count, and of those the last six are ignored.
    pub open spec fn decoding(bytes: Seq<u8>) -> Result<Header, IntoErrors> {
        if bytes.len() < 16 {
            Err(IntoErrors::BufferTooSmall)
        } else if !starts_with_marker(bytes) {
            Err(IntoErrors::BadSyncMarker)
        } else if CompressionType::of_tag(bytes[8]) is None {
            Err(IntoErrors::NoSuchVariant(bytes[8]))
        } else if EncryptionType::of_tag(bytes[9]) is None {
            Err(IntoErrors::NoSuchVariant(bytes[9]))
        } else {
            Ok(
                Header {
                    marker: SYNC_MARKER,
                    version: le_u16(bytes[4], bytes[5]),
                    packet_length: le_u16(bytes[6], bytes[7]),
                    compression: CompressionType::of_tag(bytes[8])->0,
                    encryption: EncryptionType::of_tag(bytes[9])->0,
                },
            )
        }
    }

    /// A header that a peer accepts: the marker is the synchronisation
    /// marker, the version is the current one, the payload is no longer than
    /// the largest packet, and the codec is one that has a tag of its own.
    pub open spec fn is_valid(self) -> bool {
        &&& self.marker == SYNC_MARKER
        &&& self.version == VERSION
        &&& self.packet_length <= crate::MTU
        &&& CompressionType::of_tag(self.compression.tag()) == Some(self.compression)
    }

    /// Reads the first sixteen bytes of `slice` as a header.
    pub fn from_slice(slice: &[u8]) -> (r: Result<Header, IntoErrors>)
        ensures
            r == Header::decoding(slice@),
            slice@.len() >= 16 && !starts_with_marker(slice@) ==> r == Err::<Header, IntoErrors>(
                IntoErrors::BadSyncMarker,
            ),
    {
        if slice.len() < 16 {
            return Err(IntoErrors::BufferTooSmall);
        }
        if slice[0] != 0xac || slice[1] != 0xab || slice[2] != 0xc0 || slice[3] != 0xde {
            return Err(IntoErrors::BadSyncMarker);
        }
        let version: u16 = slice[4] as u16 + 256 * (slice[5] as u16);
        let packet_length: u16 = slice[6] as u16 + 256 * (slice[7] as u16);
        let compression = match compression_from_tag(slice[8]) {
            Ok(t) => t,
            Err(e) => {
                return Err(e);
            },
        };
        let encryption = match encryption_from_tag(slice[9]) {
            Ok(t) => t,
            Err(e) => {
                return Err(e);
            },
        };
        Ok(Header { marker: SYNC_MARKER, version, packet_length, compression, encryption })
    }

    /// The sixteen bytes that stand for this header on the wire.
    pub fn to_bytes(&self) -> (buf: [u8; 16])
        ensures
            buf@ == self.encoding(),
            buf == self.wire(),
    {
        let buf: [u8; 16] = [
            self.marker[0],
            self.marker[1],
            self.marker[2],
            self.marker[3],
            (self.version % 256) as u8,
            (self.version / 256) as u8,
            (self.packet_length % 256) as u8,
            (self.packet_length / 256) as u8,
            self.compression.wire_tag(),
            self.encryption.wire_tag(),
            0,
            0,
            0,
            0,
            0,
            0,
        ];
        assert(buf@ =~= self.wire()@);
        buf
    }
}

impl From<Header> for [u8; 16] {
    /// The sixteen bytes that stand for `val` on the wire.
    fn from(val: Header) -> (buf: [u8; 16]) {
        val.to_bytes()
    }
}

impl vstd::std_specs::convert::FromSpecImpl<Header> for [u8; 16] {
    open spec fn obeys_from_spec() -> bool {
        true
    }

    open spec fn from_spec(val: Header) -> [u8; 16] {
        val.wire()
    }
}

impl Default for Header {
    /// The header of an empty, uncompressed frame.
    fn default() -> (h: Header)
        ensures
            h == (Header {
                marker: SYNC_MARKER,
                version: VERSION,
                packet_length: 0,
                compression: CompressionType::Uncompressed,
                encryption: EncryptionType::Unencrypted,
            }),
            h.is_valid(),
    {
        Header {
            marker: SYNC_MARKER,
            version: VERSION,
            packet_length: 0,
            compression: CompressionType::Uncompressed,
            encryption: EncryptionType::Unencrypted,
        }
    }
}

/// Decoding the bytes of a valid header gives the header back.
pub proof fn lemma_header_round_trip(h: Header)
    requires
        h.is_valid(),
    ensures
        Header::decoding(h.encoding()) == Ok::<Header, IntoErrors>(h),
{
    let b = h.encoding();
    assert(h.marker@ =~= SYNC_MARKER@);
    assert(starts_with_marker(b));
}

/// Decoding the bytes of any header that carries the marker gives the header
/// back with its codec replaced by the one that its tag stands for.
pub proof fn lemma_header_decode_encode(h: Header)
    requires
        h.marker == SYNC_MARKER,
    ensures
        Header::decoding(h.encoding()) == Ok::<Header, IntoErrors>(
            Header { compression: CompressionType::of_tag(h.compression.tag())->0, ..h },
        ),
{
    let b = h.encoding();
    assert(h.marker@ =~= SYNC_MARKER@);
    assert(starts_with_marker(b));
}

/// Bytes that are long enough for a header and do not start with the marker
/// are refused for that reason and no other.
pub proof fn lemma_marker_discipline(bytes: Seq<u8>)
    requires
        bytes.len() >= 16,
        !starts_with_marker(bytes),
    ensures
        Header::decoding(bytes) == Err::<Header, IntoErrors>(IntoErrors::BadSyncMarker),
{
}

/// The text of a command, if there is one.
pub open spec fn command_text(command: Option<String>) -> Option<Seq<char>> {
    match command {
        Some(s) => Some(s@),
        None => None,
    }
}

/// The commands that frame the life of the interface: one to run once it is
/// up, one to run when it goes down. Each is handed out once, so that neither
/// can be run twice, whichever path ends the program.
pub struct PostCommand {
    post_up: Option<String>,
    post_down: Option<String>,
}

impl PostCommand {
    /// The command still to be run after the interface came up.
    pub closed spec fn pending_up(self) -> Option<Seq<char>> {
        command_text(self.post_up)
    }

    /// The command still to be run when the interface goes down.
    pub closed spec fn pending_down(self) -> Option<Seq<char>> {
        command_text(self.post_down)
    }

    /// Holds both commands, none of them handed out yet.
    pub fn new(post_up: Option<String>, post_down: Option<String>) -> (cmd: PostCommand)
        ensures
            cmd.pending_up() == command_text(post_up),
            cmd.pending_down() == command_text(post_down),
    {
        PostCommand { post_up, post_down }
    }

    /// Hands out the command to run now that the interface is up: the
    /// configured one at the first call, nothing after that.
    pub fn take_post_up(&mut self) -> (command: Option<String>)
        ensures
            command_text(command) == old(self).pending_up(),
            final(self).pending_up() is None,
            final(self).pending_down() == old(self).pending_down(),
    {
        self.post_up.take()
    }

    /// Hands out the command to run as the interface goes down: the
    /// configured one at the first call, nothing after that.
    pub fn take_post_down(&mut self) -> (command: Option<String>)
        ensures
            command_text(command) == old(self).pending_down(),
            final(self).pending_down() is None,
            final(self).pending_up() == old(self).pending_up(),
    {
        self.post_down.take()
    }
}

} // verus!
