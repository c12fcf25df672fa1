//! Encode and decode functions for the query protocol's wire formats.
//!
//! The wire format: every single-packet datagram opens with four `0xFF`
//! bytes; a split packet opens with `0xFE 0xFF 0xFF 0xFF` and is not
//! supported.  The byte after the header tags the reply: an info reply
//! carries a fixed/variable status layout, a challenge reply carries a
//! four-byte token.  All multi-byte integers are little-endian.

use vstd::prelude::*;

use crate::text::lossy_decoded;

verus! {

/// The four-byte header that opens every single-packet datagram.
pub open spec fn header_seq() -> Seq<u8> {
    seq![0xFFu8, 0xFFu8, 0xFFu8, 0xFFu8]
}

/// The four-byte marker that opens a split packet, which is unsupported.
pub open spec fn split_seq() -> Seq<u8> {
    seq![0xFEu8, 0xFFu8, 0xFFu8, 0xFFu8]
}

/// Tag byte of an info reply.
pub const INFO_TAG: u8 = 0x49;

/// Tag byte of a challenge reply.
pub const CHALLENGE_TAG: u8 = 0x41;

/// Tag byte of an outbound status query.
pub const QUERY_TAG: u8 = 0x54;

/// Wire code of a dedicated server, the letter d.
pub const LETTER_D: u8 = 0x64;

/// Wire code of a listen server, and of the Linux family, the letter l.
pub const LETTER_L: u8 = 0x6C;

/// Wire code of a proxy relay, the letter p.
pub const LETTER_P: u8 = 0x70;

/// Wire code of the Windows family, the letter w.
pub const LETTER_W: u8 = 0x77;

/// Wire code of the Mac family, the letter m.
pub const LETTER_M: u8 = 0x6D;

/// How a server answered: runs a dedicated process, listens in-game, or proxies.
#[derive(Clone, Copy, Debug, PartialEq, Eq, Structural)]
pub enum ServerType {
    Dedicated,
    Listen,
    Proxy,
}

/// The operating-system family a server reports.
#[derive(Clone, Copy, Debug, PartialEq, Eq, Structural)]
pub enum EnvironmentType {
    Linux,
    Windows,
    Mac,
}

/// Whether a server requires a password.
#[derive(Clone, Copy, Debug, PartialEq, Eq, Structural)]
pub enum Visibility {
    Public,
    Private,
}

/// Whether a server runs with anti-cheat enabled.
#[derive(Clone, Copy, Debug, PartialEq, Eq, Structural)]
pub enum Vac {
    Unsecured,
    Secured,
}

pub open spec fn valid_server_type(b: u8) -> bool {
    b == LETTER_D || b == LETTER_L || b == LETTER_P
}

pub open spec fn server_type_val(b: u8) -> ServerType {
    if b == LETTER_D {
        ServerType::Dedicated
    } else if b == LETTER_L {
        ServerType::Listen
    } else {
        ServerType::Proxy
    }
}

pub open spec fn valid_environment(b: u8) -> bool {
    b == LETTER_L || b == LETTER_W || b == LETTER_M
}

pub open spec fn environment_val(b: u8) -> EnvironmentType {
    if b == LETTER_L {
        EnvironmentType::Linux
    } else if b == LETTER_W {
        EnvironmentType::Windows
    } else {
        EnvironmentType::Mac
    }
}

pub open spec fn valid_visibility(b: u8) -> bool {
    b == 0 || b == 1
}

pub open spec fn visibility_val(b: u8) -> Visibility {
    if b == 0 {
        Visibility::Public
    } else {
        Visibility::Private
    }
}

pub open spec fn valid_vac(b: u8) -> bool {
    b == 0 || b == 1
}

pub open spec fn vac_val(b: u8) -> Vac {
    if b == 0 {
        Vac::Unsecured
    } else {
        Vac::Secured
    }
}

impl ServerType {
    /// Strictly validating conversion from the wire byte.
    pub fn from_byte(b: u8) -> (r: Option<ServerType>)
        ensures
            r == if valid_server_type(b) {
                Some(server_type_val(b))
            } else {
                None::<ServerType>
            },
    {
        if b == LETTER_D {
            Some(ServerType::Dedicated)
        } else if b == LETTER_L {
            Some(ServerType::Listen)
        } else if b == LETTER_P {
            Some(ServerType::Proxy)
        } else {
            None
        }
    }
}

impl EnvironmentType {
    /// Strictly validating conversion from the wire byte.
    pub fn from_byte(b: u8) -> (r: Option<EnvironmentType>)
        ensures
            r == if valid_environment(b) {
                Some(environment_val(b))
            } else {
                None::<EnvironmentType>
            },
    {
        if b == LETTER_L {
            Some(EnvironmentType::Linux)
        } else if b == LETTER_W {
            Some(EnvironmentType::Windows)
        } else if b == LETTER_M {
            Some(EnvironmentType::Mac)
        } else {
            None
        }
    }
}

impl Visibility {
    /// Strictly validating conversion from the wire byte.
    pub fn from_byte(b: u8) -> (r: Option<Visibility>)
        ensures
            r == if valid_visibility(b) {
                Some(visibility_val(b))
            } else {
                None::<Visibility>
            },
    {
        if b == 0 {
            Some(Visibility::Public)
        } else if b == 1 {
            Some(Visibility::Private)
        } else {
            None
        }
    }
}

impl Vac {
    /// Strictly validating conversion from the wire byte.
    pub fn from_byte(b: u8) -> (r: Option<Vac>)
        ensures
            r == if valid_vac(b) {
                Some(vac_val(b))
            } else {
                None::<Vac>
            },
    {
        if b == 0 {
            Some(Vac::Unsecured)
        } else if b == 1 {
            Some(Vac::Secured)
        } else {
            None
        }
    }
}

/// Index of the first null byte at or after `start`, or the sequence's end.
pub open spec fn cstr_end(s: Seq<u8>, start: int) -> int
    decreases s.len() - start,
{
    if start < 0 || start >= s.len() {
        s.len() as int
    } else if s[start] == 0 {
        start
    } else {
        cstr_end(s, start + 1)
    }
}

/// The bytes of the null-terminated text field that begins at `start`.
pub open spec fn cstr_bytes(s: Seq<u8>, start: int) -> Seq<u8> {
    s.subrange(start, cstr_end(s, start))
}

/// Where reading resumes after the text field that begins at `start`:
/// one past the terminator, or the sequence's end if none was found.
pub open spec fn cstr_next(s: Seq<u8>, start: int) -> int {
    if cstr_end(s, start) < s.len() {
        cstr_end(s, start) + 1
    } else {
        s.len() as int
    }
}

pub proof fn lemma_cstr_end_at(s: Seq<u8>, start: int, i: int)
    requires
        0 <= start <= i <= s.len(),
        forall|j: int| start <= j < i ==> s[j] != 0,
        i == s.len() || s[i] == 0,
    ensures
        cstr_end(s, start) == i,
    decreases i - start,
{
    if start < i {
        lemma_cstr_end_at(s, start + 1, i);
    }
}

/// Model of one decoded info reply: every status field the wire carries.
pub ghost struct InfoModel {
    pub header: u8,
    pub protocol: u8,
    pub name: Seq<char>,
    pub map: Seq<char>,
    pub folder: Seq<char>,
    pub game: Seq<char>,
    pub id: i16,
    pub players: u8,
    pub max_players: u8,
    pub bots: u8,
    pub server_type: ServerType,
    pub environment: EnvironmentType,
    pub visibility: Visibility,
    pub vac: Vac,
    pub version: Seq<char>,
}

/// Start of the first text field: header (4), tag (1), protocol byte (1).
pub open spec fn info_name_start() -> int {
    6
}

pub open spec fn info_map_start(s: Seq<u8>) -> int {
    cstr_next(s, info_name_start())
}

pub open spec fn info_folder_start(s: Seq<u8>) -> int {
    cstr_next(s, info_map_start(s))
}

pub open spec fn info_game_start(s: Seq<u8>) -> int {
    cstr_next(s, info_folder_start(s))
}

/// Start of the fixed nine-byte block: id (2), players, max players, bots,
/// server type, environment, visibility, anti-cheat status.
pub open spec fn info_fixed_start(s: Seq<u8>) -> int {
    cstr_next(s, info_game_start(s))
}

pub open spec fn info_version_start(s: Seq<u8>) -> int {
    info_fixed_start(s) + 9
}

/// Whether the datagram (already known to carry the info tag) decodes:
/// the fixed block is present and all four enumerated bytes are valid.
pub open spec fn info_ok(s: Seq<u8>) -> bool {
    &&& s.len() >= 6
    &&& info_fixed_start(s) + 9 <= s.len()
    &&& valid_server_type(s[info_fixed_start(s) + 5])
    &&& valid_environment(s[info_fixed_start(s) + 6])
    &&& valid_visibility(s[info_fixed_start(s) + 7])
    &&& valid_vac(s[info_fixed_start(s) + 8])
}

/// The little-endian 16-bit value of two bytes.
pub open spec fn le16(lo: u8, hi: u8) -> int {
    lo + 256 * hi
}

/// Reinterpretation of a 16-bit value as signed, two's complement.
pub open spec fn as_signed16(v: int) -> i16 {
    if v >= 32768 {
        (v - 65536) as i16
    } else {
        v as i16
    }
}

/// The fields a well-formed info reply carries, by position.
pub open spec fn info_of(s: Seq<u8>) -> InfoModel {
    let p = info_fixed_start(s);
    InfoModel {
        header: s[4],
        protocol: s[5],
        name: lossy_decoded(cstr_bytes(s, info_name_start())),
        map: lossy_decoded(cstr_bytes(s, info_map_start(s))),
        folder: lossy_decoded(cstr_bytes(s, info_folder_start(s))),
        game: lossy_decoded(cstr_bytes(s, info_game_start(s))),
        id: as_signed16(le16(s[p], s[p + 1])),
        players: s[p + 2],
        max_players: s[p + 3],
        bots: s[p + 4],
        server_type: server_type_val(s[p + 5]),
        environment: environment_val(s[p + 6]),
        visibility: visibility_val(s[p + 7]),
        vac: vac_val(s[p + 8]),
        version: lossy_decoded(cstr_bytes(s, info_version_start(s))),
    }
}

/// Model of the classification that `decode` gives a datagram.
pub ghost enum ReplyModel {
    Info(InfoModel),
    Challenge(Seq<u8>),
    SplitUnsupported,
    Ignored,
    DecodeFailed,
}

/// What `decode` yields for any byte sequence.
pub open spec fn decode_spec(s: Seq<u8>) -> ReplyModel {
    if split_seq().is_prefix_of(s) {
        ReplyModel::SplitUnsupported
    } else if !header_seq().is_prefix_of(s) || s.len() < 5 {
        ReplyModel::Ignored
    } else if s[4] == INFO_TAG {
        if info_ok(s) {
            ReplyModel::Info(info_of(s))
        } else {
            ReplyModel::DecodeFailed
        }
    } else if s[4] == CHALLENGE_TAG {
        if s.len() >= 9 {
            ReplyModel::Challenge(s.subrange(5, 9))
        } else {
            ReplyModel::DecodeFailed
        }
    } else {
        ReplyModel::Ignored
    }
}

/// Snapshot of one server's reported status, decoded from an info reply.
pub struct ServerInfo {
    pub header: u8,
    pub protocol: u8,
    pub name: String,
    pub map: String,
    pub folder: String,
    pub game: String,
    pub id: i16,
    pub players: u8,
    pub max_players: u8,
    pub bots: u8,
    pub server_type: ServerType,
    pub environment: EnvironmentType,
    pub visibility: Visibility,
    pub vac: Vac,
    pub version: String,
}

impl View for ServerInfo {
    type V = InfoModel;

    open spec fn view(&self) -> InfoModel {
        InfoModel {
            header: self.header,
            protocol: self.protocol,
            name: self.name@,
            map: self.map@,
            folder: self.folder@,
            game: self.game@,
            id: self.id,
            players: self.players,
            max_players: self.max_players,
            bots: self.bots,
            server_type: self.server_type,
            environment: self.environment,
            visibility: self.visibility,
            vac: self.vac,
            version: self.version@,
        }
    }
}

/// Tagged variant decoded from one inbound datagram.
pub enum ReplyFrame {
    /// A parsed status reply.
    Info(ServerInfo),
    /// A fresh four-byte challenge token.
    Challenge(Vec<u8>),
    /// The datagram opened with the split-packet marker.
    SplitUnsupported,
    /// No header, or a tag this codec does not recognize: dropped silently.
    Ignored,
    /// A recognized tag whose contents do not decode.
    DecodeFailed,
}

impl View for ReplyFrame {
    type V = ReplyModel;

    open spec fn view(&self) -> ReplyModel {
        match self {
            ReplyFrame::Info(info) => ReplyModel::Info(info@),
            ReplyFrame::Challenge(token) => ReplyModel::Challenge(token@),
            ReplyFrame::SplitUnsupported => ReplyModel::SplitUnsupported,
            ReplyFrame::Ignored => ReplyModel::Ignored,
            ReplyFrame::DecodeFailed => ReplyModel::DecodeFailed,
        }
    }
}

/// Whether the datagram opens with the single-packet header.
pub fn starts_with_header(d: &Vec<u8>) -> (r: bool)
    ensures
        r == header_seq().is_prefix_of(d@),
{
    if d.len() >= 4 && d[0] == 0xFF && d[1] == 0xFF && d[2] == 0xFF && d[3] == 0xFF {
        proof {
            assert(header_seq() =~= d@.subrange(0, 4));
        }
        true
    } else {
        proof {
            if header_seq().is_prefix_of(d@) {
                assert(d@.subrange(0, 4)[0] == d@[0]);
                assert(d@.subrange(0, 4)[1] == d@[1]);
                assert(d@.subrange(0, 4)[2] == d@[2]);
                assert(d@.subrange(0, 4)[3] == d@[3]);
            }
        }
        false
    }
}

/// Whether the datagram opens with the split-packet marker.
pub fn starts_with_split(d: &Vec<u8>) -> (r: bool)
    ensures
        r == split_seq().is_prefix_of(d@),
{
    if d.len() >= 4 && d[0] == 0xFE && d[1] == 0xFF && d[2] == 0xFF && d[3] == 0xFF {
        proof {
            assert(split_seq() =~= d@.subrange(0, 4));
        }
        true
    } else {
        proof {
            if split_seq().is_prefix_of(d@) {
                assert(d@.subrange(0, 4)[0] == d@[0]);
                assert(d@.subrange(0, 4)[1] == d@[1]);
                assert(d@.subrange(0, 4)[2] == d@[2]);
                assert(d@.subrange(0, 4)[3] == d@[3]);
            }
        }
        false
    }
}

/// Reads the null-terminated text field of `data` that begins at `start`,
/// decoded permissively; reading stops at the first null byte or at the
/// end of the buffer, whichever comes first.  Also returns where reading
/// resumes.
pub fn read_cstring(data: &Vec<u8>, start: usize) -> (r: (String, usize))
    requires
        start <= data@.len(),
    ensures
        r.0@ == lossy_decoded(cstr_bytes(data@, start as int)),
        r.1 == cstr_next(data@, start as int),
        start <= r.1 <= data@.len(),
{
    let mut i: usize = start;
    let mut bytes: Vec<u8> = Vec::new();
    while i < data.len() && data[i] != 0
        invariant
            start <= i <= data@.len(),
            bytes@ == data@.subrange(start as int, i as int),
            forall|j: int| start <= j < i ==> data@[j] != 0,
        decreases data@.len() - i,
    {
        bytes.push(data[i]);
        i = i + 1;
        proof {
            assert(bytes@ =~= data@.subrange(start as int, i as int));
        }
    }
    proof {
        lemma_cstr_end_at(data@, start as int, i as int);
        assert(cstr_bytes(data@, start as int) =~= bytes@);
    }
    let text = crate::text::from_utf8_lossy(&bytes);
    let next: usize = if i < data.len() {
        i + 1
    } else {
        i
    };
    (text, next)
}

fn decode_info(d: &Vec<u8>) -> (r: ReplyFrame)
    requires
        header_seq().is_prefix_of(d@),
        !split_seq().is_prefix_of(d@),
        d@.len() >= 5,
        d@[4] == INFO_TAG,
    ensures
        r@ == decode_spec(d@),
{
    if d.len() < 6 {
        return ReplyFrame::DecodeFailed;
    }
    let header = d[4];
    let protocol = d[5];
    let (name, p1) = read_cstring(d, 6);
    let (map, p2) = read_cstring(d, p1);
    let (folder, p3) = read_cstring(d, p2);
    let (game, p4) = read_cstring(d, p3);
    if d.len() - p4 < 9 {
        return ReplyFrame::DecodeFailed;
    }
    let lo = d[p4];
    let hi = d[p4 + 1];
    let idu: u16 = lo as u16 + (hi as u16) * 256;
    let id: i16 = if idu >= 32768 {
        ((idu as i32) - 65536) as i16
    } else {
        idu as i16
    };
    let players = d[p4 + 2];
    let max_players = d[p4 + 3];
    let bots = d[p4 + 4];
    let server_type = match ServerType::from_byte(d[p4 + 5]) {
        Some(v) => v,
        None => {
            return ReplyFrame::DecodeFailed;
        },
    };
    let environment = match EnvironmentType::from_byte(d[p4 + 6]) {
        Some(v) => v,
        None => {
            return ReplyFrame::DecodeFailed;
        },
    };
    let visibility = match Visibility::from_byte(d[p4 + 7]) {
        Some(v) => v,
        None => {
            return ReplyFrame::DecodeFailed;
        },
    };
    let vac = match Vac::from_byte(d[p4 + 8]) {
        Some(v) => v,
        None => {
            return ReplyFrame::DecodeFailed;
        },
    };
    let (version, _rest) = read_cstring(d, p4 + 9);
    ReplyFrame::Info(
        ServerInfo {
            header,
            protocol,
            name,
            map,
            folder,
            game,
            id,
            players,
            max_players,
            bots,
            server_type,
            environment,
            visibility,
            vac,
            version,
        },
    )
}

fn decode_challenge(d: &Vec<u8>) -> (r: ReplyFrame)
    requires
        header_seq().is_prefix_of(d@),
        !split_seq().is_prefix_of(d@),
        d@.len() >= 5,
        d@[4] == CHALLENGE_TAG,
    ensures
        r@ == decode_spec(d@),
{
    if d.len() < 9 {
        return ReplyFrame::DecodeFailed;
    }
    let mut token: Vec<u8> = Vec::new();
    token.push(d[5]);
    token.push(d[6]);
    token.push(d[7]);
    token.push(d[8]);
    proof {
        assert(token@ =~= d@.subrange(5, 9));
    }
    ReplyFrame::Challenge(token)
}

/// Classifies one inbound datagram: a split packet is unsupported, a
/// headerless or unrecognized datagram is ignored, and the info and
/// challenge tags decode strictly, failing as a whole on any violation.
pub fn decode(datagram: &Vec<u8>) -> (r: ReplyFrame)
    ensures
        r@ == decode_spec(datagram@),
{
    if starts_with_split(datagram) {
        return ReplyFrame::SplitUnsupported;
    }
    if !starts_with_header(datagram) {
        return ReplyFrame::Ignored;
    }
    if datagram.len() < 5 {
        return ReplyFrame::Ignored;
    }
    let tag = datagram[4];
    if tag == INFO_TAG {
        decode_info(datagram)
    } else if tag == CHALLENGE_TAG {
        decode_challenge(datagram)
    } else {
        ReplyFrame::Ignored
    }
}

/// The fixed preamble of every outbound status query: header, query tag,
/// and the null-terminated query text.
pub open spec fn query_preamble() -> Seq<u8> {
    seq![
        0xFFu8, 0xFFu8, 0xFFu8, 0xFFu8, 0x54u8, 0x53u8, 0x6Fu8, 0x75u8, 0x72u8, 0x63u8, 0x65u8,
        0x20u8, 0x45u8, 0x6Eu8, 0x67u8, 0x69u8, 0x6Eu8, 0x65u8, 0x20u8, 0x51u8, 0x75u8, 0x65u8,
        0x72u8, 0x79u8, 0x00u8,
    ]
}

/// The bytes of an outbound query carrying the given challenge token;
/// an empty token stands for an unauthenticated query.
pub open spec fn query_bytes(challenge: Seq<u8>) -> Seq<u8> {
    query_preamble() + challenge
}

/// Builds an outbound status query, appending the challenge token when
/// one is known; an empty token yields the bare preamble.
pub fn encode_query(challenge: &Vec<u8>) -> (r: Vec<u8>)
    ensures
        r@ == query_bytes(challenge@),
{
    let mut out: Vec<u8> = Vec::new();
    out.push(0xFF);
    out.push(0xFF);
    out.push(0xFF);
    out.push(0xFF);
    out.push(0x54);
    out.push(0x53);
    out.push(0x6F);
    out.push(0x75);
    out.push(0x72);
    out.push(0x63);
    out.push(0x65);
    out.push(0x20);
    out.push(0x45);
    out.push(0x6E);
    out.push(0x67);
    out.push(0x69);
    out.push(0x6E);
    out.push(0x65);
    out.push(0x20);
    out.push(0x51);
    out.push(0x75);
    out.push(0x65);
    out.push(0x72);
    out.push(0x79);
    out.push(0x00);
    proof {
        assert(out@ =~= query_preamble());
    }
    let mut i: usize = 0;
    while i < challenge.len()
        invariant
            i <= challenge@.len(),
            out@ == query_preamble() + challenge@.subrange(0, i as int),
        decreases challenge@.len() - i,
    {
        out.push(challenge[i]);
        i = i + 1;
        proof {
            assert(out@ =~= query_preamble() + challenge@.subrange(0, i as int));
        }
    }
    proof {
        assert(challenge@.subrange(0, challenge@.len() as int) =~= challenge@);
    }
    out
}

/// A split-marked datagram is classified unsupported, whatever follows
/// the marker.
pub proof fn lemma_split_always_unsupported(s: Seq<u8>)
    requires
        split_seq().is_prefix_of(s),
    ensures
        decode_spec(s) == ReplyModel::SplitUnsupported,
{
}

/// An info reply whose enumerated server-type byte lies outside the
/// allowed set fails to decode as a whole: no partial result is returned.
pub proof fn lemma_invalid_server_type_fails(s: Seq<u8>)
    requires
        header_seq().is_prefix_of(s),
        s.len() >= 5,
        s[4] == INFO_TAG,
        info_fixed_start(s) + 9 <= s.len() ==> !valid_server_type(s[info_fixed_start(s) + 5]),
    ensures
        decode_spec(s) == ReplyModel::DecodeFailed,
{
    if split_seq().is_prefix_of(s) {
        assert(s.subrange(0, 4)[0] == s[0]);
        assert(false);
    }
}

/// A challenge reply with fewer than four trailing bytes fails to decode;
/// with at least four, the token is exactly the four bytes after the tag.
pub proof fn lemma_challenge_token(s: Seq<u8>)
    requires
        header_seq().is_prefix_of(s),
        s.len() >= 5,
        s[4] == CHALLENGE_TAG,
    ensures
        s.len() < 9 ==> decode_spec(s) == ReplyModel::DecodeFailed,
        s.len() >= 9 ==> decode_spec(s) == ReplyModel::Challenge(s.subrange(5, 9)),
{
    if split_seq().is_prefix_of(s) {
        assert(s.subrange(0, 4)[0] == s[0]);
        assert(false);
    }
}

} // verus!
