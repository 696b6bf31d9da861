//! Peers and torrents as a downloader reports them.

use vstd::prelude::*;
use crate::text::{chars_of, clone_opt, concat3, decimal, opt_view, u64_text};

verus! {

/// A double-precision number by its bits. The library carries such numbers from one place to
/// another; of their values it only asks whether a progress is complete.
#[derive(Clone, Copy, Default, PartialEq, Eq, Structural, Debug)]
pub struct Double {
    pub bits: u64,
}

impl Double {
    /// Zero.
    pub fn zero() -> (d: Double)
        ensures
            d.bits == 0,
    {
        Double { bits: 0 }
    }

    /// Whether the number is one or more: its bits lie between those of one and of infinity.
    pub open spec fn at_least_one(self) -> bool {
        0x3FF0_0000_0000_0000 <= self.bits <= 0x7FF0_0000_0000_0000
    }

    /// Whether the number is one or more.
    pub fn is_at_least_one(&self) -> (yes: bool)
        ensures
            yes == self.at_least_one(),
    {
        self.bits >= 0x3FF0_0000_0000_0000 && self.bits <= 0x7FF0_0000_0000_0000
    }
}

/// The address of a peer, with the key under which the downloader reported it.
#[derive(Debug)]
pub struct PeerAddress {
    pub ip: String,
    pub port: u16,
    pub raw_ip: String,
}

impl PeerAddress {
    /// An address.
    pub fn new(ip: String, port: u16, raw_ip: String) -> (a: Self)
        ensures
            a == (PeerAddress { ip, port, raw_ip }),
    {
        PeerAddress { ip, port, raw_ip }
    }

    /// The key `ip:port` under which facts about the peer are cached.
    pub fn cache_key(&self) -> (key: String)
        ensures
            key@ == self.ip@ + ":"@ + decimal(self.port as nat),
    {
        let port = u64_text(self.port as u64);
        concat3(self.ip.as_str(), ":", port.as_str())
    }
}

/// What a client's connection flags say.
#[derive(Debug)]
pub struct PeerFlag {
    pub raw: String,
    pub interesting: bool,
    pub choked: bool,
    pub remote_interested: bool,
    pub remote_choked: bool,
    pub local_connection: bool,
    pub optimistic_unchoke: bool,
    pub snubbed: bool,
    pub from_dht: bool,
    pub from_pex: bool,
    pub from_lsd: bool,
    pub rc4_encrypted: bool,
    pub plaintext_encrypted: bool,
    pub utp_socket: bool,
}

impl Default for PeerFlag {
    fn default() -> (v: Self)
        ensures
            v.raw@.len() == 0,
            !v.interesting,
            !v.choked,
            !v.remote_interested,
            !v.remote_choked,
            !v.local_connection,
            !v.optimistic_unchoke,
            !v.snubbed,
            !v.from_dht,
            !v.from_pex,
            !v.from_lsd,
            !v.rc4_encrypted,
            !v.plaintext_encrypted,
            !v.utp_socket,
    {
        PeerFlag {
            raw: String::new(),
            interesting: false,
            choked: false,
            remote_interested: false,
            remote_choked: false,
            local_connection: false,
            optimistic_unchoke: false,
            snubbed: false,
            from_dht: false,
            from_pex: false,
            from_lsd: false,
            rc4_encrypted: false,
            plaintext_encrypted: false,
            utp_socket: false,
        }
    }
}

/// What flags say, without their text.
pub ghost struct Flags {
    pub interesting: bool,
    pub choked: bool,
    pub remote_interested: bool,
    pub remote_choked: bool,
    pub local_connection: bool,
    pub optimistic_unchoke: bool,
    pub snubbed: bool,
    pub from_dht: bool,
    pub from_pex: bool,
    pub from_lsd: bool,
    pub rc4_encrypted: bool,
    pub plaintext_encrypted: bool,
    pub utp_socket: bool,
}

/// What one more flag says.
pub open spec fn flag_step(f: Flags, c: char) -> Flags {
    Flags {
        interesting: if c == 'd' || c == 'D' {
            true
        } else if c == 'K' {
            false
        } else {
            f.interesting
        },
        choked: if c == 'u' {
            true
        } else if c == 'U' || c == '?' {
            false
        } else {
            f.choked
        },
        remote_interested: if c == 'u' || c == 'U' {
            true
        } else if c == '?' {
            false
        } else {
            f.remote_interested
        },
        remote_choked: if c == 'd' {
            true
        } else if c == 'D' || c == 'K' {
            false
        } else {
            f.remote_choked
        },
        local_connection: f.local_connection && c != 'I',
        optimistic_unchoke: f.optimistic_unchoke || c == 'O',
        snubbed: f.snubbed || c == 'S',
        from_dht: f.from_dht || c == 'H',
        from_pex: f.from_pex || c == 'X',
        from_lsd: f.from_lsd || c == 'L',
        rc4_encrypted: f.rc4_encrypted || c == 'E',
        plaintext_encrypted: f.plaintext_encrypted || c == 'e',
        utp_socket: f.utp_socket || c == 'P',
    }
}

/// What a text of flags says: both sides choke and the connection is local unless a flag says
/// otherwise; the last flag on a matter counts.
pub open spec fn flags_of(s: Seq<char>) -> Flags
    decreases s.len(),
{
    if s.len() == 0 {
        Flags {
            interesting: false,
            choked: true,
            remote_interested: false,
            remote_choked: true,
            local_connection: true,
            optimistic_unchoke: false,
            snubbed: false,
            from_dht: false,
            from_pex: false,
            from_lsd: false,
            rc4_encrypted: false,
            plaintext_encrypted: false,
            utp_socket: false,
        }
    } else {
        flag_step(flags_of(s.drop_last()), s.last())
    }
}

/// A flag that stands on its own is set exactly when its letter occurs.
pub proof fn single_flags_are_occurrences(s: Seq<char>)
    ensures
        flags_of(s).optimistic_unchoke == s.contains('O'),
        flags_of(s).snubbed == s.contains('S'),
        flags_of(s).local_connection == !s.contains('I'),
        flags_of(s).from_dht == s.contains('H'),
        flags_of(s).from_pex == s.contains('X'),
        flags_of(s).from_lsd == s.contains('L'),
        flags_of(s).rc4_encrypted == s.contains('E'),
        flags_of(s).plaintext_encrypted == s.contains('e'),
        flags_of(s).utp_socket == s.contains('P'),
    decreases s.len(),
{
    if s.len() > 0 {
        let head = s.drop_last();
        single_flags_are_occurrences(head);
        assert forall|c: char| #[trigger] s.contains(c) == (head.contains(c) || s.last() == c) by {
            if head.contains(c) {
                let i = choose|i: int| 0 <= i < head.len() && head[i] == c;
                assert(s[i] == c);
            }
            if s.contains(c) {
                let i = choose|i: int| 0 <= i < s.len() && s[i] == c;
                if i < head.len() {
                    assert(head[i] == c);
                }
            }
            if s.last() == c {
                assert(s[s.len() - 1] == c);
            }
        }
    }
}

impl PeerFlag {
    /// What the flags say, without their text.
    pub open spec fn flags(self) -> Flags {
        Flags {
            interesting: self.interesting,
            choked: self.choked,
            remote_interested: self.remote_interested,
            remote_choked: self.remote_choked,
            local_connection: self.local_connection,
            optimistic_unchoke: self.optimistic_unchoke,
            snubbed: self.snubbed,
            from_dht: self.from_dht,
            from_pex: self.from_pex,
            from_lsd: self.from_lsd,
            rc4_encrypted: self.rc4_encrypted,
            plaintext_encrypted: self.plaintext_encrypted,
            utp_socket: self.utp_socket,
        }
    }

    fn apply(self, c: char) -> (f: PeerFlag)
        ensures
            f.raw == self.raw,
            f.flags() == flag_step(self.flags(), c),
    {
        PeerFlag {
            raw: self.raw,
            interesting: if c == 'd' || c == 'D' {
                true
            } else if c == 'K' {
                false
            } else {
                self.interesting
            },
            choked: if c == 'u' {
                true
            } else if c == 'U' || c == '?' {
                false
            } else {
                self.choked
            },
            remote_interested: if c == 'u' || c == 'U' {
                true
            } else if c == '?' {
                false
            } else {
                self.remote_interested
            },
            remote_choked: if c == 'd' {
                true
            } else if c == 'D' || c == 'K' {
                false
            } else {
                self.remote_choked
            },
            local_connection: self.local_connection && c != 'I',
            optimistic_unchoke: self.optimistic_unchoke || c == 'O',
            snubbed: self.snubbed || c == 'S',
            from_dht: self.from_dht || c == 'H',
            from_pex: self.from_pex || c == 'X',
            from_lsd: self.from_lsd || c == 'L',
            rc4_encrypted: self.rc4_encrypted || c == 'E',
            plaintext_encrypted: self.plaintext_encrypted || c == 'e',
            utp_socket: self.utp_socket || c == 'P',
        }
    }

    /// Reads a text of flags, one letter each; other characters say nothing.
    pub fn parse(flags: &str) -> (f: Self)
        ensures
            f.raw@ == flags@,
            f.flags() == flags_of(flags@),
    {
        let mut f = PeerFlag {
            raw: flags.to_string(),
            interesting: false,
            choked: true,
            remote_interested: false,
            remote_choked: true,
            local_connection: true,
            optimistic_unchoke: false,
            snubbed: false,
            from_dht: false,
            from_pex: false,
            from_lsd: false,
            rc4_encrypted: false,
            plaintext_encrypted: false,
            utp_socket: false,
        };
        let chars = chars_of(flags);
        let mut i: usize = 0;
        assert(chars@.take(0) =~= Seq::empty());
        while i < chars.len()
            invariant
                i <= chars.len(),
                chars@ == flags@,
                f.raw@ == flags@,
                f.flags() == flags_of(chars@.take(i as int)),
            decreases chars.len() - i,
        {
            assert(chars@.take(i + 1).drop_last() =~= chars@.take(i as int));
            f = f.apply(chars[i]);
            i += 1;
        }
        assert(chars@.take(i as int) =~= flags@);
        f
    }

    /// Whether the connection came from outside.
    pub fn is_from_incoming(&self) -> (yes: bool)
        ensures
            yes == !self.local_connection,
    {
        !self.outgoing_connection()
    }

    /// Whether this side made the connection.
    pub fn outgoing_connection(&self) -> (yes: bool)
        ensures
            yes == self.local_connection,
    {
        self.local_connection
    }
}

/// What was observed of a peer.
#[derive(Debug)]
pub struct PeerData {
    pub client_name: Option<String>,
    pub peer_id: Option<String>,
    pub dl_speed: i64,
    pub downloaded: i64,
    pub up_speed: i64,
    pub uploaded: i64,
    pub progress: Double,
    pub flags: Option<String>,
    pub ip: String,
    pub port: u16,
    pub raw_ip: String,
    pub connection: Option<String>,
}

impl PeerData {
    /// The peer's address.
    pub fn address(&self) -> (a: PeerAddress)
        ensures
            a == (PeerAddress { ip: self.ip, port: self.port, raw_ip: self.raw_ip }),
    {
        PeerAddress::new(self.ip.clone(), self.port, self.raw_ip.clone())
    }

    /// What the peer's flags say, if it has any.
    pub fn peer_flag(&self) -> (r: Option<PeerFlag>)
        ensures
            match self.flags {
                Some(s) => if s@.len() == 0 {
                    r is None
                } else {
                    r matches Some(f) && f.raw@ == s@ && f.flags() == flags_of(s@)
                },
                None => r is None,
            },
    {
        match &self.flags {
            Some(s) => if s.as_str().is_empty() {
                None
            } else {
                Some(PeerFlag::parse(s.as_str()))
            },
            None => None,
        }
    }

    /// Whether the peer is still shaking hands: nothing flows either way.
    pub fn is_handshaking(&self) -> (yes: bool)
        ensures
            yes == (self.up_speed <= 0 && self.dl_speed <= 0),
    {
        self.up_speed <= 0 && self.dl_speed <= 0
    }

    /// Whether something is or was uploaded to the peer.
    pub fn is_uploading_to_peer(&self) -> (yes: bool)
        ensures
            yes == (self.up_speed > 0 || self.uploaded > 0),
    {
        self.up_speed > 0 || self.uploaded > 0
    }
}

/// What was observed of a torrent.
#[derive(Debug)]
pub struct TorrentData {
    pub hash: String,
    pub name: String,
    pub progress: Double,
    pub total_size: i64,
    pub piece_size: i64,
    pub pieces_have: i64,
    pub completed_override: Option<i64>,
    pub dlspeed: i64,
    pub upspeed: i64,
    pub is_private: Option<bool>,
}

impl TorrentData {
    /// The torrent's identifier: its hash.
    pub fn id(&self) -> (id: &str)
        ensures
            id@ == self.hash@,
    {
        self.hash.as_str()
    }

    /// How much of the torrent is there: what the downloader says, else the pieces it has; -1
    /// where neither is known. A product that is too large wraps round.
    pub open spec fn completed(self) -> i64 {
        match self.completed_override {
            Some(completed) => completed,
            None => if self.piece_size > 0 && self.pieces_have > 0 {
                self.piece_size.wrapping_mul(self.pieces_have)
            } else {
                (-1) as i64
            },
        }
    }

    /// How much of the torrent is there.
    pub fn completed_size(&self) -> (n: i64)
        ensures
            n == self.completed(),
    {
        if let Some(completed) = self.completed_override {
            return completed;
        }
        if self.piece_size > 0 && self.pieces_have > 0 {
            self.piece_size.wrapping_mul(self.pieces_have)
        } else {
            -1
        }
    }

    /// Whether the torrent is known to be private.
    pub fn is_private(&self) -> (yes: bool)
        ensures
            yes == (self.is_private == Some(true)),
    {
        match self.is_private {
            Some(b) => b,
            None => false,
        }
    }

    /// Whether the torrent is complete.
    pub fn is_seeding(&self) -> (yes: bool)
        ensures
            yes == self.progress.at_least_one(),
    {
        self.progress.is_at_least_one()
    }
}

/// Whether none of three letters occurs in a text.
pub open spec fn lacks(s: Seq<char>, a: char, b: char, c: char) -> bool {
    forall|i: int| 0 <= i < s.len() ==> #[trigger] s[i] != a && s[i] != b && s[i] != c
}

proof fn lemma_flags_kept(s: Seq<char>, t: Seq<char>)
    ensures
        lacks(t, 'd', 'D', 'K') ==> flags_of(s + t).interesting == flags_of(s).interesting
            && flags_of(s + t).remote_choked == flags_of(s).remote_choked,
        lacks(t, 'u', 'U', '?') ==> flags_of(s + t).choked == flags_of(s).choked && flags_of(
            s + t,
        ).remote_interested == flags_of(s).remote_interested,
    decreases t.len(),
{
    if t.len() == 0 {
        assert(s + t =~= s);
    } else {
        lemma_flags_kept(s, t.drop_last());
        assert((s + t).drop_last() =~= s + t.drop_last());
        assert((s + t).last() == t.last());
        assert(t[t.len() - 1] == t.last());
        if lacks(t, 'd', 'D', 'K') {
            assert(lacks(t.drop_last(), 'd', 'D', 'K'));
        }
        if lacks(t, 'u', 'U', '?') {
            assert(lacks(t.drop_last(), 'u', 'U', '?'));
        }
    }
}

/// Of the letters `d`, `D` and `K` the last one tells whether this side is interested and is choked
/// by the peer, and of `u`, `U` and `?` whether the peer is interested and is choked by this side;
/// without any of them nobody is interested and both are choked.
pub proof fn last_letter_decides(s: Seq<char>, t: Seq<char>)
    ensures
        lacks(t, 'd', 'D', 'K') ==> {
            &&& flags_of(s.push('d') + t).interesting && flags_of(s.push('d') + t).remote_choked
            &&& flags_of(s.push('D') + t).interesting && !flags_of(s.push('D') + t).remote_choked
            &&& !flags_of(s.push('K') + t).interesting && !flags_of(s.push('K') + t).remote_choked
            &&& !flags_of(t).interesting && flags_of(t).remote_choked
        },
        lacks(t, 'u', 'U', '?') ==> {
            &&& flags_of(s.push('u') + t).remote_interested && flags_of(s.push('u') + t).choked
            &&& flags_of(s.push('U') + t).remote_interested && !flags_of(s.push('U') + t).choked
            &&& !flags_of(s.push('?') + t).remote_interested && !flags_of(s.push('?') + t).choked
            &&& !flags_of(t).remote_interested && flags_of(t).choked
        },
{
    lemma_flags_kept(s.push('d'), t);
    lemma_flags_kept(s.push('D'), t);
    lemma_flags_kept(s.push('K'), t);
    lemma_flags_kept(s.push('u'), t);
    lemma_flags_kept(s.push('U'), t);
    lemma_flags_kept(s.push('?'), t);
    lemma_flags_kept(Seq::empty(), t);
    assert(Seq::<char>::empty() + t =~= t);
    assert(s.push('d').drop_last() =~= s);
    assert(s.push('D').drop_last() =~= s);
    assert(s.push('K').drop_last() =~= s);
    assert(s.push('u').drop_last() =~= s);
    assert(s.push('U').drop_last() =~= s);
    assert(s.push('?').drop_last() =~= s);
}

/// What is complete of a torrent is what was told, or else the size of the pieces that are there; it
/// is not known where a piece has no size or none is there.
pub proof fn complete_pieces_are_counted(t: TorrentData)
    ensures
        t.completed_override matches Some(n) ==> t.completed() == n,
        t.completed_override is None && t.piece_size > 0 && t.pieces_have > 0 && t.piece_size
            * t.pieces_have <= i64::MAX ==> t.completed() == t.piece_size * t.pieces_have,
        t.completed_override is None && (t.piece_size <= 0 || t.pieces_have <= 0) ==> t.completed()
            == -1,
{
    if t.piece_size > 0 && t.pieces_have > 0 {
        assert(t.piece_size * t.pieces_have >= 0) by (nonlinear_arith)
            requires
                t.piece_size > 0,
                t.pieces_have > 0,
        ;
    }
}

/// One is at least one, nothing below it is, and whatever is not smaller is too.
pub proof fn at_least_one_is_upwards(a: Double, b: Double)
    ensures
        (Double { bits: 0x3FF0_0000_0000_0000 }).at_least_one(),
        a.bits < 0x3FF0_0000_0000_0000 ==> !a.at_least_one(),
        a.bits >= 0x8000_0000_0000_0000 ==> !a.at_least_one(),
        a.at_least_one() && a.bits <= b.bits <= 0x7FF0_0000_0000_0000 ==> b.at_least_one(),
{
}

} // verus!
