//! Peer descriptors and interface settings, as the configuration gives them.
use vstd::prelude::*;
use crate::frame::{drain_spec, encode_frame, outbound_spec, FrameError};
use crate::header::{CompressionType, EncryptionType, HEADER_SIZE};
use crate::net::{all_wf, forward_spec, should_forward, Ipv4Net};

verus! {

/// Payload capacity used when the interface section names none.
pub const DEFAULT_BUFFER_SIZE: usize = 65535;

/// Options shared by every kind of peer.
#[derive(Debug, Clone)]
pub struct CommonOptions {
    /// Device path or socket address.
    pub path: String,
    /// Address ranges the peer is allowed to receive traffic for.
    pub allowedips: Vec<Ipv4Net>,
    pub compression: Option<CompressionType>,
    pub encryption: Option<EncryptionType>,
}

/// A character-device peer.
#[derive(Debug, Clone)]
pub struct CharPeerSection {
    pub common: CommonOptions,
    /// Serial speed in baud.
    pub speed: Option<u32>,
}

/// An outbound socket peer.
#[derive(Debug, Clone)]
pub struct SockPeerSection {
    pub common: CommonOptions,
}

/// A listening socket peer, accepting one connection.
#[derive(Debug, Clone)]
pub struct SockListenPeerSection {
    pub common: CommonOptions,
}

/// A serial-MIDI peer.
#[derive(Debug, Clone)]
pub struct MidiPeerSection {
    pub common: CommonOptions,
}

/// One configured peer.
#[derive(Debug, Clone)]
pub enum Peer {
    Char(CharPeerSection),
    Sock(SockPeerSection),
    SockListen(SockListenPeerSection),
    Midi(MidiPeerSection),
}

/// Settings of the virtual interface.
#[derive(Debug, Clone)]
pub struct InterfaceSection {
    pub address: Ipv4Net,
    pub name: String,
    pub ip_filtering: Option<bool>,
    pub buffer: Option<usize>,
    pub post_up: Option<String>,
    pub post_down: Option<String>,
}

/// The whole configuration: the interface and the peers of each kind.
#[derive(Debug, Clone)]
pub struct Config {
    pub interface: InterfaceSection,
    pub peer_char: Vec<CharPeerSection>,
    pub peer_sock: Vec<SockPeerSection>,
    pub peer_sock_listen: Vec<SockListenPeerSection>,
    pub peer_midi: Vec<MidiPeerSection>,
}

/// Whether two option sets hold the same values.
pub open spec fn same_common(a: CommonOptions, b: CommonOptions) -> bool {
    &&& a.path@ == b.path@
    &&& a.allowedips@ == b.allowedips@
    &&& a.compression == b.compression
    &&& a.encryption == b.encryption
}

impl CommonOptions {
    /// A copy holding the same values.
    pub fn duplicate(&self) -> (r: CommonOptions)
        ensures
            same_common(r, *self),
    {
        let mut ips: Vec<Ipv4Net> = Vec::with_capacity(self.allowedips.len());
        let mut i: usize = 0;
        while i < self.allowedips.len()
            invariant
                i <= self.allowedips@.len(),
                ips@ == self.allowedips@.take(i as int),
            decreases self.allowedips@.len() - i,
        {
            ips.push(self.allowedips[i]);
            i = i + 1;
            assert(ips@ =~= self.allowedips@.take(i as int));
        }
        assert(ips@ =~= self.allowedips@);
        CommonOptions {
            path: self.path.clone(),
            allowedips: ips,
            compression: self.compression,
            encryption: self.encryption,
        }
    }
}

impl Peer {
    /// The options that every kind carries.
    pub open spec fn common_spec(&self) -> CommonOptions {
        match self {
            Peer::Char(c) => c.common,
            Peer::Sock(c) => c.common,
            Peer::SockListen(c) => c.common,
            Peer::Midi(c) => c.common,
        }
    }

    /// Every allowed range is well formed.
    pub open spec fn wf(&self) -> bool {
        all_wf(self.common_spec().allowedips@)
    }

    /// The compression in effect: the override, else none.
    pub open spec fn compression_spec(&self) -> CompressionType {
        match self.common_spec().compression {
            Some(c) => c,
            None => CompressionType::Off,
        }
    }

    /// The encryption in effect: the override, else none.
    pub open spec fn encryption_spec(&self) -> EncryptionType {
        match self.common_spec().encryption {
            Some(e) => e,
            None => EncryptionType::Off,
        }
    }

    /// The options that every kind carries.
    pub fn common(&self) -> (r: &CommonOptions)
        ensures
            *r == self.common_spec(),
    {
        match self {
            Peer::Char(c) => &c.common,
            Peer::Sock(c) => &c.common,
            Peer::SockListen(c) => &c.common,
            Peer::Midi(c) => &c.common,
        }
    }

    /// The allowed address ranges.
    pub fn allowed_ips(&self) -> (r: &[Ipv4Net])
        ensures
            r@ == self.common_spec().allowedips@,
    {
        self.common().allowedips.as_slice()
    }

    /// The device path or socket address.
    pub fn path(&self) -> (r: &str)
        ensures
            r@ == self.common_spec().path@,
    {
        self.common().path.as_str()
    }

    /// The compression in effect: the override, else none.
    pub fn compression(&self) -> (r: CompressionType)
        ensures
            r == self.compression_spec(),
    {
        match self.common().compression {
            Some(c) => c,
            None => CompressionType::Off,
        }
    }

    /// The encryption in effect: the override, else none.
    pub fn encryption(&self) -> (r: EncryptionType)
        ensures
            r == self.encryption_spec(),
    {
        match self.common().encryption {
            Some(e) => e,
            None => EncryptionType::Off,
        }
    }

    /// Decides what the write side does with packet `p`: `Ok(None)` drops it
    /// at the address filter, `Ok(Some(frame))` is the frame to write, which
    /// a decoder turns back into `p`.
    pub fn prepare_outbound(&self, ip_filtering: bool, p: Vec<u8>) -> (r: Result<
        Option<Vec<u8>>,
        FrameError,
    >)
        requires
            self.wf(),
        ensures
            !forward_spec(self.common_spec().allowedips@, ip_filtering, p@) ==> r == Ok::<
                Option<Vec<u8>>,
                FrameError,
            >(None),
            forward_spec(self.common_spec().allowedips@, ip_filtering, p@) ==> match (
                r,
                outbound_spec(p@, self.compression_spec(), self.encryption_spec()),
            ) {
                (Ok(Some(f)), Ok(g)) => f@ == g,
                (Err(e), Err(g)) => e == g,
                _ => false,
            },
            r matches Ok(Some(f)) ==> forall|cap: nat|
                cap + HEADER_SIZE >= f@.len() ==> #[trigger] drain_spec(f@, cap) == (
                    seq![p@],
                    Seq::<u8>::empty(),
                    None::<FrameError>,
                ),
    {
        if !should_forward(self.allowed_ips(), ip_filtering, p.as_slice()) {
            return Ok(None);
        }
        match encode_frame(p, self.compression(), self.encryption()) {
            Ok(f) => Ok(Some(f)),
            Err(e) => Err(e),
        }
    }
}

impl InterfaceSection {
    /// Whether peers filter outbound packets by their allowed ranges; on
    /// unless the configuration turns it off.
    pub fn filtering_enabled(&self) -> (r: bool)
        ensures
            r == match self.ip_filtering {
                Some(b) => b,
                None => true,
            },
    {
        match self.ip_filtering {
            Some(b) => b,
            None => true,
        }
    }

    /// The payload capacity of each peer's inbound buffer.
    pub fn buffer_size(&self) -> (r: usize)
        ensures
            r == match self.buffer {
                Some(b) => b,
                None => DEFAULT_BUFFER_SIZE,
            },
    {
        match self.buffer {
            Some(b) => b,
            None => DEFAULT_BUFFER_SIZE,
        }
    }
}

/// Whether `q` describes the same peer as `p`, of the same kind.
pub open spec fn same_peer(q: Peer, p: Peer) -> bool {
    match (q, p) {
        (Peer::Char(a), Peer::Char(b)) => same_common(a.common, b.common) && a.speed == b.speed,
        (Peer::Sock(a), Peer::Sock(b)) => same_common(a.common, b.common),
        (Peer::SockListen(a), Peer::SockListen(b)) => same_common(a.common, b.common),
        (Peer::Midi(a), Peer::Midi(b)) => same_common(a.common, b.common),
        _ => false,
    }
}

impl Config {
    /// Every configured peer as a peer descriptor, in the configuration's order.
    pub open spec fn all_peers_spec(&self) -> Seq<Peer> {
        self.peer_char@.map_values(|c: CharPeerSection| Peer::Char(c)) + self.peer_sock@.map_values(
            |s: SockPeerSection| Peer::Sock(s),
        ) + self.peer_sock_listen@.map_values(|s: SockListenPeerSection| Peer::SockListen(s))
            + self.peer_midi@.map_values(|s: MidiPeerSection| Peer::Midi(s))
    }

    /// Lists the peers: character devices, then sockets, then listening
    /// sockets, then MIDI ports, each kind in the configuration's order.
    pub fn get_all_peers(&self) -> (r: Vec<Peer>)
        requires
            self.peer_char@.len() + self.peer_sock@.len() + self.peer_sock_listen@.len()
                + self.peer_midi@.len() <= usize::MAX,
        ensures
            r@.len() == self.all_peers_spec().len(),
            forall|i: int| 0 <= i < r@.len() ==> same_peer(#[trigger] r@[i], self.all_peers_spec()[i]),
    {
        let ghost all = self.all_peers_spec();
        let mut v: Vec<Peer> = Vec::new();
        let mut i: usize = 0;
        while i < self.peer_char.len()
            invariant
                all == self.all_peers_spec(),
                i <= self.peer_char@.len(),
                v@.len() == i,
                forall|k: int| 0 <= k < v@.len() ==> same_peer(#[trigger] v@[k], all[k]),
            decreases self.peer_char@.len() - i,
        {
            let c = &self.peer_char[i];
            v.push(Peer::Char(CharPeerSection { common: c.common.duplicate(), speed: c.speed }));
            i = i + 1;
        }
        let base1 = v.len();
        i = 0;
        while i < self.peer_sock.len()
            invariant
                all == self.all_peers_spec(),
                base1 == self.peer_char@.len(),
                i <= self.peer_sock@.len(),
                v@.len() == base1 + i,
                forall|k: int| 0 <= k < v@.len() ==> same_peer(#[trigger] v@[k], all[k]),
            decreases self.peer_sock@.len() - i,
        {
            let c = &self.peer_sock[i];
            v.push(Peer::Sock(SockPeerSection { common: c.common.duplicate() }));
            i = i + 1;
        }
        let base2 = v.len();
        i = 0;
        while i < self.peer_sock_listen.len()
            invariant
                all == self.all_peers_spec(),
                base2 == self.peer_char@.len() + self.peer_sock@.len(),
                i <= self.peer_sock_listen@.len(),
                v@.len() == base2 + i,
                forall|k: int| 0 <= k < v@.len() ==> same_peer(#[trigger] v@[k], all[k]),
            decreases self.peer_sock_listen@.len() - i,
        {
            let c = &self.peer_sock_listen[i];
            v.push(Peer::SockListen(SockListenPeerSection { common: c.common.duplicate() }));
            i = i + 1;
        }
        let base3 = v.len();
        i = 0;
        while i < self.peer_midi.len()
            invariant
                all == self.all_peers_spec(),
                base3 == self.peer_char@.len() + self.peer_sock@.len() + self.peer_sock_listen@.len(),
                self.peer_char@.len() + self.peer_sock@.len() + self.peer_sock_listen@.len()
                    + self.peer_midi@.len() <= usize::MAX,
                i <= self.peer_midi@.len(),
                v@.len() == base3 + i,
                forall|k: int| 0 <= k < v@.len() ==> same_peer(#[trigger] v@[k], all[k]),
            decreases self.peer_midi@.len() - i,
        {
            let c = &self.peer_midi[i];
            v.push(Peer::Midi(MidiPeerSection { common: c.common.duplicate() }));
            i = i + 1;
        }
        v
    }
}

} // verus!
