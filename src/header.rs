//! The fixed-width frame header: layout, decoding and encoding.
use vstd::prelude::*;

verus! {

/// Protocol version spoken by this implementation.
pub const VERSION: u16 = 0;

/// Width of the synchronisation marker.
pub const MARKER_SIZE: usize = 4;

/// Width of an encoded header.
pub const HEADER_SIZE: usize = 16;

/// Synchronisation marker that opens every frame.
pub const SYNC_MARKER: [u8; MARKER_SIZE] = [0xac, 0xab, 0xc0, 0xde];

/// The synchronisation marker as a sequence.
pub open spec fn sync_marker() -> Seq<u8> {
    seq![0xacu8, 0xabu8, 0xc0u8, 0xdeu8]
}

/// Payload compression selected for a frame.
#[derive(Debug, Clone, Copy, PartialEq, Eq, Structural)]
pub enum CompressionType {
    Off,
    Zstd,
    ZstdFast,
    ZstdSlow,
    Gzip,
}

/// Payload encryption selected for a frame.
#[derive(Debug, Clone, Copy, PartialEq, Eq, Structural)]
pub enum EncryptionType {
    Off,
}

/// Errors of header decoding.
#[derive(Debug, Clone, Copy, PartialEq, Eq, Structural)]
pub enum IntoErrors {
    /// A transform byte names no known variant.
    NoSuchVariant(u8),
    /// The first bytes are not the synchronisation marker.
    BadSyncMarker,
    /// Fewer bytes than a header are available.
    BufferTooSmall,
    /// The header speaks another protocol version.
    BadVersion(u16),
}

/// Wire code of a compression variant.
pub open spec fn compression_code(c: CompressionType) -> u8 {
    match c {
        CompressionType::Off => 0,
        CompressionType::Zstd => 1,
        CompressionType::ZstdFast => 2,
        CompressionType::ZstdSlow => 3,
        CompressionType::Gzip => 4,
    }
}

/// Compression variant of a wire code, if any.
pub open spec fn compression_of(b: u8) -> Result<CompressionType, IntoErrors> {
    if b == 0 {
        Ok(CompressionType::Off)
    } else if b == 1 {
        Ok(CompressionType::Zstd)
    } else if b == 2 {
        Ok(CompressionType::ZstdFast)
    } else if b == 3 {
        Ok(CompressionType::ZstdSlow)
    } else if b == 4 {
        Ok(CompressionType::Gzip)
    } else {
        Err(IntoErrors::NoSuchVariant(b))
    }
}

/// Wire code of an encryption variant.
pub open spec fn encryption_code(e: EncryptionType) -> u8 {
    match e {
        EncryptionType::Off => 0,
    }
}

/// Encryption variant of a wire code, if any.
pub open spec fn encryption_of(b: u8) -> Result<EncryptionType, IntoErrors> {
    if b == 0 {
        Ok(EncryptionType::Off)
    } else {
        Err(IntoErrors::NoSuchVariant(b))
    }
}

impl CompressionType {
    /// Looks up the variant with wire code `b`.
    pub fn try_from_u8(b: u8) -> (r: Result<CompressionType, IntoErrors>)
        ensures
            r == compression_of(b),
    {
        match b {
            0 => Ok(CompressionType::Off),
            1 => Ok(CompressionType::Zstd),
            2 => Ok(CompressionType::ZstdFast),
            3 => Ok(CompressionType::ZstdSlow),
            4 => Ok(CompressionType::Gzip),
            _ => Err(IntoErrors::NoSuchVariant(b)),
        }
    }

    /// Wire code of this variant.
    pub fn to_u8(self) -> (r: u8)
        ensures
            r == compression_code(self),
    {
        match self {
            CompressionType::Off => 0,
            CompressionType::Zstd => 1,
            CompressionType::ZstdFast => 2,
            CompressionType::ZstdSlow => 3,
            CompressionType::Gzip => 4,
        }
    }
}

impl Default for CompressionType {
    fn default() -> (r: Self)
        ensures
            r == CompressionType::Off,
    {
        CompressionType::Off
    }
}

impl EncryptionType {
    /// Looks up the variant with wire code `b`.
    pub fn try_from_u8(b: u8) -> (r: Result<EncryptionType, IntoErrors>)
        ensures
            r == encryption_of(b),
    {
        if b == 0 {
            Ok(EncryptionType::Off)
        } else {
            Err(IntoErrors::NoSuchVariant(b))
        }
    }

    /// Wire code of this variant.
    pub fn to_u8(self) -> (r: u8)
        ensures
            r == encryption_code(self),
    {
        match self {
            EncryptionType::Off => 0,
        }
    }
}

impl Default for EncryptionType {
    fn default() -> (r: Self)
        ensures
            r == EncryptionType::Off,
    {
        EncryptionType::Off
    }
}

/// Little-endian value of two bytes.
pub open spec fn le_u16(lo: u8, hi: u8) -> u16 {
    (lo as int + 256 * (hi as int)) as u16
}

/// Little-endian bytes of a value.
pub open spec fn u16_le_bytes(v: u16) -> Seq<u8> {
    seq![(v % 256) as u8, (v / 256) as u8]
}

fn read_le_u16(lo: u8, hi: u8) -> (r: u16)
    ensures
        r == le_u16(lo, hi),
{
    (lo as u16) + (hi as u16) * 256
}

proof fn lemma_le_u16_round_trip(v: u16)
    ensures
        le_u16(u16_le_bytes(v)[0], u16_le_bytes(v)[1]) == v,
{
}

/// A frame header.
#[derive(Debug, Clone, Copy, PartialEq, Eq)]
pub struct Header {
    pub marker: [u8; MARKER_SIZE],
    pub version: u16,
    pub packet_length: u16,
    pub compression: CompressionType,
    pub encryption: EncryptionType,
    pub reserved: [u8; 6],
}

impl Header {
    /// The header is well formed: right marker and version, zero padding.
    pub open spec fn valid(self) -> bool {
        &&& self.marker@ == sync_marker()
        &&& self.version == VERSION
        &&& self.reserved@ == seq![0u8, 0u8, 0u8, 0u8, 0u8, 0u8]
    }

    /// A valid header announcing a payload of `packet_length` bytes.
    pub fn new(packet_length: u16, compression: CompressionType, encryption: EncryptionType) -> (r:
        Header)
        ensures
            r == header_spec(packet_length, compression, encryption),
            r.valid(),
            r.packet_length == packet_length,
            r.compression == compression,
            r.encryption == encryption,
    {
        let h = Header {
            marker: [0xac, 0xab, 0xc0, 0xde],
            version: VERSION,
            packet_length,
            compression,
            encryption,
            reserved: [0u8; 6],
        };
        assert(h.marker@ =~= sync_marker());
        assert(h.reserved@ =~= seq![0u8, 0u8, 0u8, 0u8, 0u8, 0u8]);
        assert(h.reserved =~= header_spec(packet_length, compression, encryption).reserved);
        assert(h.marker =~= header_spec(packet_length, compression, encryption).marker);
        h
    }

    /// Decodes the header at the start of `slice`.
    pub fn from_slice(slice: &[u8]) -> (r: Result<Header, IntoErrors>)
        ensures
            r == decode_spec(slice@),
    {
        if slice.len() < HEADER_SIZE {
            return Err(IntoErrors::BufferTooSmall);
        }
        if !(slice[0] == 0xac && slice[1] == 0xab && slice[2] == 0xc0 && slice[3] == 0xde) {
            proof {
                let m = slice@.subrange(0, 4);
                assert(m[0] == slice[0] && m[1] == slice[1] && m[2] == slice[2] && m[3] == slice[3]);
                assert(sync_marker()[0] == 0xac && sync_marker()[1] == 0xab);
                assert(sync_marker()[2] == 0xc0 && sync_marker()[3] == 0xde);
            }
            return Err(IntoErrors::BadSyncMarker);
        }
        assert(slice@.subrange(0, 4) =~= sync_marker());
        let version = read_le_u16(slice[4], slice[5]);
        if version != VERSION {
            return Err(IntoErrors::BadVersion(version));
        }
        let packet_length = read_le_u16(slice[6], slice[7]);
        let compression = match CompressionType::try_from_u8(slice[8]) {
            Ok(c) => c,
            Err(e) => return Err(e),
        };
        let encryption = match EncryptionType::try_from_u8(slice[9]) {
            Ok(e) => e,
            Err(e) => return Err(e),
        };
        let h = Header {
            marker: [slice[0], slice[1], slice[2], slice[3]],
            version,
            packet_length,
            compression,
            encryption,
            reserved: [0u8; 6],
        };
        proof {
            assert(h.marker@ =~= sync_marker());
            assert(h.reserved@ =~= seq![0u8, 0u8, 0u8, 0u8, 0u8, 0u8]);
            assert(h.marker =~= header_of(slice@).marker);
            assert(h.reserved =~= header_of(slice@).reserved);
        }
        Ok(h)
    }

    /// Encodes this header into its fixed-width wire form, with zero in
    /// the reserved bytes.
    pub fn encode(&self) -> (r: Vec<u8>)
        ensures
            r@ == encode_spec(*self),
            r@.len() == HEADER_SIZE,
    {
        let mut v: Vec<u8> = Vec::with_capacity(HEADER_SIZE);
        v.push(self.marker[0]);
        v.push(self.marker[1]);
        v.push(self.marker[2]);
        v.push(self.marker[3]);
        v.push((self.version % 256) as u8);
        v.push((self.version / 256) as u8);
        v.push((self.packet_length % 256) as u8);
        v.push((self.packet_length / 256) as u8);
        v.push(self.compression.to_u8());
        v.push(self.encryption.to_u8());
        v.push(0);
        v.push(0);
        v.push(0);
        v.push(0);
        v.push(0);
        v.push(0);
        assert(v@ =~= encode_spec(*self));
        v
    }
}

impl Default for Header {
    fn default() -> (r: Self)
        ensures
            r.valid(),
            r.packet_length == 0,
            r.compression == CompressionType::Off,
            r.encryption == EncryptionType::Off,
    {
        Header::new(0, CompressionType::Off, EncryptionType::Off)
    }
}

/// The valid header announcing `packet_length` bytes with the given transforms.
pub open spec fn header_spec(
    packet_length: u16,
    compression: CompressionType,
    encryption: EncryptionType,
) -> Header {
    Header {
        marker: [0xacu8, 0xabu8, 0xc0u8, 0xdeu8],
        version: VERSION,
        packet_length,
        compression,
        encryption,
        reserved: [0u8, 0u8, 0u8, 0u8, 0u8, 0u8],
    }
}

/// The header that a buffer of at least `HEADER_SIZE` bytes with a valid
/// marker, version and transform codes holds.
pub open spec fn header_of(s: Seq<u8>) -> Header {
    Header {
        marker: [s[0], s[1], s[2], s[3]],
        version: le_u16(s[4], s[5]),
        packet_length: le_u16(s[6], s[7]),
        compression: compression_of(s[8]).unwrap(),
        encryption: encryption_of(s[9]).unwrap(),
        reserved: [0u8, 0u8, 0u8, 0u8, 0u8, 0u8],
    }
}

/// What decoding the header at the start of `s` yields.
pub open spec fn decode_spec(s: Seq<u8>) -> Result<Header, IntoErrors> {
    if s.len() < HEADER_SIZE {
        Err(IntoErrors::BufferTooSmall)
    } else if s.subrange(0, 4) != sync_marker() {
        Err(IntoErrors::BadSyncMarker)
    } else if le_u16(s[4], s[5]) != VERSION {
        Err(IntoErrors::BadVersion(le_u16(s[4], s[5])))
    } else if compression_of(s[8]) is Err {
        Err(IntoErrors::NoSuchVariant(s[8]))
    } else if encryption_of(s[9]) is Err {
        Err(IntoErrors::NoSuchVariant(s[9]))
    } else {
        Ok(header_of(s))
    }
}

/// The wire form of a header; the reserved bytes are always zero.
pub open spec fn encode_spec(h: Header) -> Seq<u8> {
    h.marker@ + u16_le_bytes(h.version) + u16_le_bytes(h.packet_length) + seq![
        compression_code(h.compression),
        encryption_code(h.encryption),
    ] + seq![0u8, 0u8, 0u8, 0u8, 0u8, 0u8]
}

/// A header whose marker and version are right but whose compression or
/// encryption byte names no variant fails with that byte.
pub proof fn lemma_unknown_variant(s: Seq<u8>)
    requires
        s.len() >= HEADER_SIZE,
        s.subrange(0, 4) == sync_marker(),
        le_u16(s[4], s[5]) == VERSION,
        s[8] > 4 || s[9] > 0,
    ensures
        s[8] > 4 ==> decode_spec(s) == Err::<Header, IntoErrors>(IntoErrors::NoSuchVariant(s[8])),
        s[8] <= 4 ==> decode_spec(s) == Err::<Header, IntoErrors>(IntoErrors::NoSuchVariant(s[9])),
{
}

/// Decoding looks at the first `HEADER_SIZE` bytes only.
pub proof fn lemma_decode_prefix(s: Seq<u8>, t: Seq<u8>)
    requires
        s.len() >= HEADER_SIZE,
    ensures
        decode_spec(s + t) == decode_spec(s),
{
    let u = s + t;
    assert(u.subrange(0, 4) =~= s.subrange(0, 4));
    assert(forall|i: int| 0 <= i < 16 ==> u[i] == s[i]);
    assert(header_of(u).marker =~= header_of(s).marker);
}

/// Decoding the encoding of a valid header gives that header back.
pub proof fn lemma_decode_encode(h: Header)
    requires
        h.valid(),
    ensures
        decode_spec(encode_spec(h)) == Ok::<Header, IntoErrors>(h),
{
    let s = encode_spec(h);
    assert(s.len() == 16);
    assert(s.subrange(0, 4) =~= sync_marker());
    lemma_le_u16_round_trip(h.version);
    lemma_le_u16_round_trip(h.packet_length);
    assert(s[4] == u16_le_bytes(h.version)[0]);
    assert(s[5] == u16_le_bytes(h.version)[1]);
    assert(s[6] == u16_le_bytes(h.packet_length)[0]);
    assert(s[7] == u16_le_bytes(h.packet_length)[1]);
    assert(s[8] == compression_code(h.compression));
    assert(s[9] == encryption_code(h.encryption));
    let g = header_of(s);
    assert(g.marker =~= h.marker);
    assert(g.reserved =~= h.reserved);
}

} // verus!
