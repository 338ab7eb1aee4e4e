//! The cell codec: circuit identifier, command byte, and body.
//!
//! All multi-byte integers on the wire are big-endian.  A cell is laid out as
//! `CircuitId (2 or 4 bytes, version-dependent) ++ Command (1 byte) ++ Body`,
//! where the body of a fixed-class command is exactly [`CELL_BODY_LEN`] bytes
//! and the body of a variable-class command is a 2-byte length followed by
//! that many payload bytes.

use vstd::prelude::*;
use vstd::slice::slice_subrange;
use vstd::slice::slice_to_vec;

verus! {

/// Number of payload bytes in the body of a fixed-length cell.
pub const CELL_BODY_LEN: usize = 509;

/// Why a decode failed: a command byte outside the valid set, or fewer bytes
/// remaining than a declared field requires (at any nesting level).
#[derive(Debug, Clone, Copy, PartialEq, Eq, Structural)]
pub enum CellError {
    InvalidCommand,
    TruncatedBuffer,
}

// ---------------------------------------------------------------------------
// Big-endian integer fields
// ---------------------------------------------------------------------------

/// The two bytes of `x` in big-endian order.
pub open spec fn spec_u16_be_bytes(x: u16) -> Seq<u8> {
    seq![((x >> 8) & 0xff) as u8, (x & 0xff) as u8]
}

/// The `u16` whose big-endian bytes are `b0 b1`.
pub open spec fn spec_u16_from_be(b0: u8, b1: u8) -> u16 {
    ((b0 as u16) << 8) | (b1 as u16)
}

/// The four bytes of `x` in big-endian order.
pub open spec fn spec_u32_be_bytes(x: u32) -> Seq<u8> {
    seq![
        ((x >> 24) & 0xff) as u8,
        ((x >> 16) & 0xff) as u8,
        ((x >> 8) & 0xff) as u8,
        (x & 0xff) as u8,
    ]
}

/// The `u32` whose big-endian bytes are `b0 b1 b2 b3`.
pub open spec fn spec_u32_from_be(b0: u8, b1: u8, b2: u8, b3: u8) -> u32 {
    ((b0 as u32) << 24) | ((b1 as u32) << 16) | ((b2 as u32) << 8) | (b3 as u32)
}

/// Reassembling the big-endian bytes of a `u16` gives the value back.
pub proof fn lemma_u16_be_round_trip(x: u16)
    ensures
        spec_u16_from_be(spec_u16_be_bytes(x)[0], spec_u16_be_bytes(x)[1]) == x,
{
    assert(((((x >> 8) & 0xff) as u8 as u16) << 8) | ((x & 0xff) as u8 as u16) == x)
        by (bit_vector);
}

/// Re-encoding the `u16` read from two bytes gives the bytes back.
pub proof fn lemma_u16_be_bytes_round_trip(b0: u8, b1: u8)
    ensures
        spec_u16_be_bytes(spec_u16_from_be(b0, b1)) =~= seq![b0, b1],
{
    let x = spec_u16_from_be(b0, b1);
    assert(x == ((b0 as u16) << 8) | (b1 as u16) ==> ((x >> 8) & 0xff) as u8 == b0 && (
    x & 0xff) as u8 == b1) by (bit_vector);
}

/// Reassembling the big-endian bytes of a `u32` gives the value back.
pub proof fn lemma_u32_be_round_trip(x: u32)
    ensures
        spec_u32_from_be(
            spec_u32_be_bytes(x)[0],
            spec_u32_be_bytes(x)[1],
            spec_u32_be_bytes(x)[2],
            spec_u32_be_bytes(x)[3],
        ) == x,
{
    assert(((((x >> 24) & 0xff) as u8 as u32) << 24) | ((((x >> 16) & 0xff) as u8 as u32) << 16) | (
    (((x >> 8) & 0xff) as u8 as u32) << 8) | ((x & 0xff) as u8 as u32) == x) by (bit_vector);
}

/// Re-encoding the `u32` read from four bytes gives the bytes back.
pub proof fn lemma_u32_be_bytes_round_trip(b0: u8, b1: u8, b2: u8, b3: u8)
    ensures
        spec_u32_be_bytes(spec_u32_from_be(b0, b1, b2, b3)) =~= seq![b0, b1, b2, b3],
{
    let x = spec_u32_from_be(b0, b1, b2, b3);
    assert(x == ((b0 as u32) << 24) | ((b1 as u32) << 16) | ((b2 as u32) << 8) | (b3 as u32) ==> (
    (x >> 24) & 0xff) as u8 == b0 && ((x >> 16) & 0xff) as u8 == b1 && ((x >> 8) & 0xff) as u8 == b2
        && (x & 0xff) as u8 == b3) by (bit_vector);
}

/// Appends the big-endian bytes of `x` to `bytes`.
fn push_u16_be(bytes: &mut Vec<u8>, x: u16)
    ensures
        final(bytes)@ == old(bytes)@ + spec_u16_be_bytes(x),
{
    proof {
        assert((x >> 8) & 0xff < 256 && x & 0xff < 256) by (bit_vector);
    }
    bytes.push(((x >> 8) & 0xff) as u8);
    bytes.push((x & 0xff) as u8);
    proof {
        assert(bytes@ =~= old(bytes)@ + spec_u16_be_bytes(x));
    }
}

/// Appends the big-endian bytes of `x` to `bytes`.
fn push_u32_be(bytes: &mut Vec<u8>, x: u32)
    ensures
        final(bytes)@ == old(bytes)@ + spec_u32_be_bytes(x),
{
    proof {
        assert((x >> 24) & 0xff < 256 && (x >> 16) & 0xff < 256 && (x >> 8) & 0xff < 256 && x & 0xff
            < 256) by (bit_vector);
    }
    bytes.push(((x >> 24) & 0xff) as u8);
    bytes.push(((x >> 16) & 0xff) as u8);
    bytes.push(((x >> 8) & 0xff) as u8);
    bytes.push((x & 0xff) as u8);
    proof {
        assert(bytes@ =~= old(bytes)@ + spec_u32_be_bytes(x));
    }
}

/// Reads a `u16` from two big-endian bytes.
pub(crate) fn u16_from_be_pair(b0: u8, b1: u8) -> (x: u16)
    ensures
        x == spec_u16_from_be(b0, b1),
{
    ((b0 as u16) << 8) | (b1 as u16)
}

/// Reads a `u32` from four big-endian bytes.
fn u32_from_be_quad(b0: u8, b1: u8, b2: u8, b3: u8) -> (x: u32)
    ensures
        x == spec_u32_from_be(b0, b1, b2, b3),
{
    ((b0 as u32) << 24) | ((b1 as u32) << 16) | ((b2 as u32) << 8) | (b3 as u32)
}

// ---------------------------------------------------------------------------
// CircidId
// ---------------------------------------------------------------------------

/// A circuit identifier: 16 bits under link-protocol versions below 4,
/// 32 bits from version 4 on.  The width is fixed by the negotiated version,
/// never by the bytes themselves.
#[allow(non_camel_case_types)]
#[derive(Debug, Clone, PartialEq)]
pub enum CircidId {
    LEGACY(u16),
    MODERN(u32),
}

/// The wire bytes of a circuit identifier, at its variant's native width.
pub open spec fn spec_encode_circid(c: CircidId) -> Seq<u8> {
    match c {
        CircidId::LEGACY(x) => spec_u16_be_bytes(x),
        CircidId::MODERN(x) => spec_u32_be_bytes(x),
    }
}

/// How many bytes of circuit identifier the given version puts on the wire.
pub open spec fn spec_circid_width(version: u8) -> int {
    if version < 4 {
        2
    } else {
        4
    }
}

/// What decoding a circuit identifier from the front of `bytes` yields.
pub open spec fn spec_decode_circid(bytes: Seq<u8>, version: u8) -> Result<CircidId, CellError> {
    if bytes.len() < spec_circid_width(version) {
        Err(CellError::TruncatedBuffer)
    } else if version < 4 {
        Ok(CircidId::LEGACY(spec_u16_from_be(bytes[0], bytes[1])))
    } else {
        Ok(CircidId::MODERN(spec_u32_from_be(bytes[0], bytes[1], bytes[2], bytes[3])))
    }
}

impl CircidId {
    /// Big-endian serialization at the variant's native width (2 or 4 bytes).
    pub fn to_bytes(&self) -> (r: Vec<u8>)
        ensures
            r@ == spec_encode_circid(*self),
    {
        let mut bytes: Vec<u8> = Vec::new();
        match self {
            CircidId::LEGACY(x) => push_u16_be(&mut bytes, *x),
            CircidId::MODERN(x) => push_u32_be(&mut bytes, *x),
        }
        bytes
    }

    /// Consumes 2 bytes (version below 4) or 4 bytes (version 4 and up) from
    /// the front of `bytes` and returns the identifier with the count of
    /// bytes consumed; fails with `TruncatedBuffer` if fewer bytes remain.
    pub fn from_bytes(bytes: &[u8], version: u8) -> (r: Result<(CircidId, usize), CellError>)
        ensures
            r is Ok <==> bytes@.len() >= spec_circid_width(version),
            r matches Ok((c, n)) ==> {
                &&& spec_decode_circid(bytes@, version) == Ok::<CircidId, CellError>(c)
                &&& n as int == spec_circid_width(version)
                &&& ((version < 4) <==> c is LEGACY)
            },
            r is Err ==> r->Err_0 == CellError::TruncatedBuffer,
    {
        if version < 4 {
            if bytes.len() < 2 {
                return Err(CellError::TruncatedBuffer);
            }
            Ok((CircidId::LEGACY(u16_from_be_pair(bytes[0], bytes[1])), 2))
        } else {
            if bytes.len() < 4 {
                return Err(CellError::TruncatedBuffer);
            }
            Ok((CircidId::MODERN(u32_from_be_quad(bytes[0], bytes[1], bytes[2], bytes[3])), 4))
        }
    }
}

impl Default for CircidId {
    /// The type-initialization value; decoding never produces it for invalid
    /// input.
    fn default() -> (r: Self)
        ensures
            r == CircidId::MODERN(0),
    {
        CircidId::MODERN(0)
    }
}

// ---------------------------------------------------------------------------
// CellCommand
// ---------------------------------------------------------------------------

/// The closed set of valid command codes.  Codes 0 through 6 and 8 through 12
/// name fixed-length cells; 7 and 128 through 131 name variable-length cells.
/// Every other byte value is invalid and is rejected at decode time.
#[allow(non_camel_case_types)]
#[derive(Debug, Clone, PartialEq)]
pub enum CellCommand {
    // Fixed-length body
    PADDING,
    CREATE,
    CREATED,
    RELAY,
    DESTROY,
    CREATE_FAST,
    CREATED_FAST,
    NETINFO,
    RELAY_EARLY,
    CREATE2,
    CREATED2,
    PADDING_NEGOTIATE,
    // Variable-length body
    VERSIONS,
    VPADDING,
    CERTS,
    AUTH_CHALLENGE,
    AUTHENTICATE,
}

/// The one-byte wire code of a command: an identity mapping onto the
/// enumerated code table.
pub open spec fn spec_command_code(c: CellCommand) -> u8 {
    match c {
        CellCommand::PADDING => 0,
        CellCommand::CREATE => 1,
        CellCommand::CREATED => 2,
        CellCommand::RELAY => 3,
        CellCommand::DESTROY => 4,
        CellCommand::CREATE_FAST => 5,
        CellCommand::CREATED_FAST => 6,
        CellCommand::VERSIONS => 7,
        CellCommand::NETINFO => 8,
        CellCommand::RELAY_EARLY => 9,
        CellCommand::CREATE2 => 10,
        CellCommand::CREATED2 => 11,
        CellCommand::PADDING_NEGOTIATE => 12,
        CellCommand::VPADDING => 128,
        CellCommand::CERTS => 129,
        CellCommand::AUTH_CHALLENGE => 130,
        CellCommand::AUTHENTICATE => 131,
    }
}

/// Whether `b` is one of the 17 valid command codes.
pub open spec fn is_valid_code(b: u8) -> bool {
    b <= 12 || (128 <= b && b <= 131)
}

/// Whether a valid code names a variable-length cell: code 7 (VERSIONS) or
/// codes 128 through 131.
pub open spec fn is_var_code(b: u8) -> bool {
    b == 7 || (128 <= b && b <= 131)
}

/// The class the body decoder selects on: everything below 128 except 7 is
/// read as fixed-length.  On valid codes this agrees with the negation of
/// [`is_var_code`]; see [`lemma_class_partition`].
pub open spec fn is_fixed_code(b: u8) -> bool {
    b < 128 && b != 7
}

/// The command a byte decodes to, if any.
pub open spec fn spec_command_of(b: u8) -> Option<CellCommand> {
    if b == 0 {
        Some(CellCommand::PADDING)
    } else if b == 1 {
        Some(CellCommand::CREATE)
    } else if b == 2 {
        Some(CellCommand::CREATED)
    } else if b == 3 {
        Some(CellCommand::RELAY)
    } else if b == 4 {
        Some(CellCommand::DESTROY)
    } else if b == 5 {
        Some(CellCommand::CREATE_FAST)
    } else if b == 6 {
        Some(CellCommand::CREATED_FAST)
    } else if b == 7 {
        Some(CellCommand::VERSIONS)
    } else if b == 8 {
        Some(CellCommand::NETINFO)
    } else if b == 9 {
        Some(CellCommand::RELAY_EARLY)
    } else if b == 10 {
        Some(CellCommand::CREATE2)
    } else if b == 11 {
        Some(CellCommand::CREATED2)
    } else if b == 12 {
        Some(CellCommand::PADDING_NEGOTIATE)
    } else if b == 128 {
        Some(CellCommand::VPADDING)
    } else if b == 129 {
        Some(CellCommand::CERTS)
    } else if b == 130 {
        Some(CellCommand::AUTH_CHALLENGE)
    } else if b == 131 {
        Some(CellCommand::AUTHENTICATE)
    } else {
        None
    }
}

/// The byte-to-command table inverts the command-to-byte table.
pub proof fn lemma_command_code_round_trip(c: CellCommand)
    ensures
        spec_command_of(spec_command_code(c)) == Some(c),
        is_valid_code(spec_command_code(c)),
{
}

/// A byte decodes to a command exactly when it is a valid code, and then to
/// the command that carries that code.
pub proof fn lemma_command_of_code(b: u8)
    ensures
        spec_command_of(b) is Some <==> is_valid_code(b),
        spec_command_of(b) matches Some(c) ==> spec_command_code(c) == b,
{
}

/// On valid codes, the fixed and variable classes partition the table.
pub proof fn lemma_class_partition(b: u8)
    ensures
        is_valid_code(b) ==> (is_fixed_code(b) <==> !is_var_code(b)),
{
}

impl CellCommand {
    /// The command's one-byte wire code.
    pub fn code(&self) -> (r: u8)
        ensures
            r == spec_command_code(*self),
    {
        match self {
            CellCommand::PADDING => 0,
            CellCommand::CREATE => 1,
            CellCommand::CREATED => 2,
            CellCommand::RELAY => 3,
            CellCommand::DESTROY => 4,
            CellCommand::CREATE_FAST => 5,
            CellCommand::CREATED_FAST => 6,
            CellCommand::VERSIONS => 7,
            CellCommand::NETINFO => 8,
            CellCommand::RELAY_EARLY => 9,
            CellCommand::CREATE2 => 10,
            CellCommand::CREATED2 => 11,
            CellCommand::PADDING_NEGOTIATE => 12,
            CellCommand::VPADDING => 128,
            CellCommand::CERTS => 129,
            CellCommand::AUTH_CHALLENGE => 130,
            CellCommand::AUTHENTICATE => 131,
        }
    }

    /// Whether this command's body is variable-length.
    pub fn is_variable(&self) -> (r: bool)
        ensures
            r == is_var_code(spec_command_code(*self)),
    {
        match self {
            CellCommand::VERSIONS
            | CellCommand::VPADDING
            | CellCommand::CERTS
            | CellCommand::AUTH_CHALLENGE
            | CellCommand::AUTHENTICATE => true,
            _ => false,
        }
    }

    /// Exhaustive table lookup over the 17 valid codes; any other byte fails
    /// with `InvalidCommand`, never a fallback value.
    pub fn try_from(num: u8) -> (r: Result<CellCommand, CellError>)
        ensures
            r is Ok <==> is_valid_code(num),
            r matches Ok(c) ==> spec_command_of(num) == Some(c) && spec_command_code(c) == num,
            r is Err ==> r->Err_0 == CellError::InvalidCommand,
    {
        match num {
            0 => Ok(CellCommand::PADDING),
            1 => Ok(CellCommand::CREATE),
            2 => Ok(CellCommand::CREATED),
            3 => Ok(CellCommand::RELAY),
            4 => Ok(CellCommand::DESTROY),
            5 => Ok(CellCommand::CREATE_FAST),
            6 => Ok(CellCommand::CREATED_FAST),
            7 => Ok(CellCommand::VERSIONS),
            8 => Ok(CellCommand::NETINFO),
            9 => Ok(CellCommand::RELAY_EARLY),
            10 => Ok(CellCommand::CREATE2),
            11 => Ok(CellCommand::CREATED2),
            12 => Ok(CellCommand::PADDING_NEGOTIATE),
            128 => Ok(CellCommand::VPADDING),
            129 => Ok(CellCommand::CERTS),
            130 => Ok(CellCommand::AUTH_CHALLENGE),
            131 => Ok(CellCommand::AUTHENTICATE),
            _ => Err(CellError::InvalidCommand),
        }
    }

    /// Identity serialization of the command code as a single byte.
    pub fn to_bytes(&self) -> (r: Result<Vec<u8>, CellError>)
        ensures
            r is Ok,
            r->Ok_0@ == seq![spec_command_code(*self)],
    {
        let mut bytes: Vec<u8> = Vec::new();
        bytes.push(self.code());
        proof {
            assert(bytes@ =~= seq![spec_command_code(*self)]);
        }
        Ok(bytes)
    }

    /// Decodes the command from the first byte of `bytes`; the version does
    /// not influence the command table.
    pub fn from_bytes(bytes: &[u8], _version: u8) -> (r: Result<CellCommand, CellError>)
        ensures
            bytes@.len() == 0 ==> r == Err::<CellCommand, CellError>(CellError::TruncatedBuffer),
            bytes@.len() > 0 ==> (r is Ok <==> is_valid_code(bytes@[0])),
            r matches Ok(c) ==> bytes@.len() > 0 && spec_command_of(bytes@[0]) == Some(c),
            bytes@.len() > 0 && r is Err ==> r->Err_0 == CellError::InvalidCommand,
    {
        if bytes.len() == 0 {
            return Err(CellError::TruncatedBuffer);
        }
        Self::try_from(bytes[0])
    }
}

impl Default for CellCommand {
    /// The type-initialization value; decoding an invalid byte never yields
    /// it.
    fn default() -> (r: Self)
        ensures
            r == CellCommand::PADDING,
    {
        CellCommand::PADDING
    }
}

// ---------------------------------------------------------------------------
// CellBody
// ---------------------------------------------------------------------------

/// A cell body: either a fixed block of exactly [`CELL_BODY_LEN`] bytes, or a
/// variable block with its caller-supplied declared length.  Which variant
/// applies is determined by the command's class, never stored on the wire.
#[derive(Debug, Clone, PartialEq)]
pub enum CellBody {
    Fixed(Vec<u8>),
    Variable(u16, Vec<u8>),
}

/// The mathematical shape of a cell body: its payload as a byte sequence,
/// with the declared length for the variable variant.
#[verifier::ext_equal]
pub enum BodyView {
    Fixed(Seq<u8>),
    Variable(u16, Seq<u8>),
}

impl View for CellBody {
    type V = BodyView;

    open spec fn view(&self) -> BodyView {
        match self {
            CellBody::Fixed(p) => BodyView::Fixed(p@),
            CellBody::Variable(l, p) => BodyView::Variable(*l, p@),
        }
    }
}

/// The wire bytes of a body: a fixed payload verbatim, or the declared
/// 16-bit big-endian length followed by the payload.  The declared length is
/// emitted as supplied, not recomputed from the payload.
pub open spec fn spec_encode_body(b: BodyView) -> Seq<u8> {
    match b {
        BodyView::Fixed(p) => p,
        BodyView::Variable(l, p) => spec_u16_be_bytes(l) + p,
    }
}

/// What decoding a body from `bytes` under command code `code` yields: the
/// next [`CELL_BODY_LEN`] bytes for a fixed-class code, else a 16-bit length
/// `L` and then exactly `L` payload bytes; `TruncatedBuffer` when fewer bytes
/// remain than required.  Trailing bytes beyond the body are not examined.
pub open spec fn spec_decode_body(bytes: Seq<u8>, code: u8) -> Result<BodyView, CellError> {
    if is_fixed_code(code) {
        if bytes.len() < CELL_BODY_LEN {
            Err(CellError::TruncatedBuffer)
        } else {
            Ok(BodyView::Fixed(bytes.take(CELL_BODY_LEN as int)))
        }
    } else {
        if bytes.len() < 2 {
            Err(CellError::TruncatedBuffer)
        } else {
            let l = spec_u16_from_be(bytes[0], bytes[1]);
            if bytes.len() - 2 < l {
                Err(CellError::TruncatedBuffer)
            } else {
                Ok(BodyView::Variable(l, bytes.subrange(2, 2 + l as int)))
            }
        }
    }
}

/// A body in the shape its own encoding promises: a fixed payload of exactly
/// [`CELL_BODY_LEN`] bytes, or a variable payload whose declared length
/// equals its actual length.
pub open spec fn spec_body_wf(b: BodyView) -> bool {
    match b {
        BodyView::Fixed(p) => p.len() == CELL_BODY_LEN,
        BodyView::Variable(l, p) => p.len() == l,
    }
}

/// The body's variant agrees with the class of the command code.
pub open spec fn spec_body_matches_code(b: BodyView, code: u8) -> bool {
    (b is Variable) <==> is_var_code(code)
}

/// A decoded body never lands in the wrong variant for its command code, and
/// always comes out well-formed.
pub proof fn lemma_no_cross_decode(bytes: Seq<u8>, code: u8)
    requires
        is_valid_code(code),
    ensures
        spec_decode_body(bytes, code) matches Ok(b) ==> spec_body_matches_code(b, code)
            && spec_body_wf(b),
{
}

/// Encoding a well-formed body and decoding it under a matching command code
/// gives the body back.
pub proof fn lemma_body_round_trip(b: BodyView, code: u8)
    requires
        spec_body_wf(b),
        spec_body_matches_code(b, code),
        is_valid_code(code),
    ensures
        spec_decode_body(spec_encode_body(b), code) == Ok::<BodyView, CellError>(b),
{
    match b {
        BodyView::Fixed(p) => {
            assert(spec_encode_body(b).take(CELL_BODY_LEN as int) =~= p);
        },
        BodyView::Variable(l, p) => {
            let enc = spec_encode_body(b);
            assert(enc[0] == spec_u16_be_bytes(l)[0] && enc[1] == spec_u16_be_bytes(l)[1]);
            lemma_u16_be_round_trip(l);
            assert(enc.subrange(2, 2 + l as int) =~= p);
        },
    }
}

impl CellBody {
    /// A fixed body's raw bytes verbatim; a variable body's declared length
    /// followed by its payload.
    pub fn to_bytes(&self) -> (r: Result<Vec<u8>, CellError>)
        ensures
            r is Ok,
            r->Ok_0@ == spec_encode_body(self@),
    {
        match self {
            CellBody::Fixed(p) => Ok(slice_to_vec(p.as_slice())),
            CellBody::Variable(l, p) => {
                let mut bytes: Vec<u8> = Vec::new();
                push_u16_be(&mut bytes, *l);
                let mut tail = slice_to_vec(p.as_slice());
                bytes.append(&mut tail);
                proof {
                    assert(bytes@ =~= spec_encode_body(self@));
                }
                Ok(bytes)
            },
        }
    }

    /// Consumes one body from the front of `bytes`: exactly
    /// [`CELL_BODY_LEN`] bytes for a fixed-class code, else a 16-bit
    /// big-endian length `L` and then exactly `L` bytes.  Fails with
    /// `TruncatedBuffer` when fewer bytes remain than declared.
    pub fn from_bytes(bytes: &[u8], command_code: u8) -> (r: Result<CellBody, CellError>)
        ensures
            r is Ok <==> spec_decode_body(bytes@, command_code) is Ok,
            r matches Ok(b) ==> spec_decode_body(bytes@, command_code) == Ok::<
                BodyView,
                CellError,
            >(b@),
            r matches Err(e) ==> spec_decode_body(bytes@, command_code) == Err::<
                BodyView,
                CellError,
            >(e),
    {
        if command_code < 128 && command_code != 7 {
            if bytes.len() < CELL_BODY_LEN {
                return Err(CellError::TruncatedBuffer);
            }
            let payload = slice_to_vec(slice_subrange(bytes, 0, CELL_BODY_LEN));
            proof {
                assert(payload@ =~= bytes@.take(CELL_BODY_LEN as int));
            }
            Ok(CellBody::Fixed(payload))
        } else {
            if bytes.len() < 2 {
                return Err(CellError::TruncatedBuffer);
            }
            let l = u16_from_be_pair(bytes[0], bytes[1]);
            if bytes.len() - 2 < l as usize {
                return Err(CellError::TruncatedBuffer);
            }
            let payload = slice_to_vec(slice_subrange(bytes, 2, 2 + l as usize));
            Ok(CellBody::Variable(l, payload))
        }
    }
}

/// A fixed body of all zero bytes, for the type-initialization value.
fn zero_payload() -> (r: Vec<u8>)
    ensures
        r@ == Seq::new(CELL_BODY_LEN as nat, |i: int| 0u8),
{
    let mut bytes: Vec<u8> = Vec::new();
    let mut i: usize = 0;
    while i < CELL_BODY_LEN
        invariant
            i <= CELL_BODY_LEN,
            bytes@ == Seq::new(i as nat, |j: int| 0u8),
        decreases CELL_BODY_LEN - i,
    {
        bytes.push(0u8);
        i = i + 1;
        proof {
            assert(bytes@ =~= Seq::new(i as nat, |j: int| 0u8));
        }
    }
    bytes
}

impl Default for CellBody {
    /// The type-initialization value: a fixed body of zeros.  Decoding never
    /// produces it as a fallback.
    fn default() -> (r: Self)
        ensures
            r@ == BodyView::Fixed(Seq::new(CELL_BODY_LEN as nat, |i: int| 0u8)),
    {
        CellBody::Fixed(zero_payload())
    }
}

// ---------------------------------------------------------------------------
// Cell
// ---------------------------------------------------------------------------

/// One cell: circuit identifier, command, and body.
#[derive(Debug, Clone, PartialEq)]
pub struct Cell {
    pub circ_id: CircidId,
    pub command: CellCommand,
    pub body: CellBody,
}

/// The mathematical shape of a cell.
#[verifier::ext_equal]
pub struct CellView {
    pub circ_id: CircidId,
    pub command: CellCommand,
    pub body: BodyView,
}

impl View for Cell {
    type V = CellView;

    open spec fn view(&self) -> CellView {
        CellView { circ_id: self.circ_id, command: self.command, body: self.body@ }
    }
}

/// The wire bytes of a cell: circuit identifier, one command byte, body.
pub open spec fn spec_encode_cell(c: CellView) -> Seq<u8> {
    spec_encode_circid(c.circ_id) + seq![spec_command_code(c.command)] + spec_encode_body(c.body)
}

/// What decoding a cell from `bytes` under `version` yields, strictly left to
/// right: the circuit identifier at the version's width, one command byte
/// (`InvalidCommand` if it is outside the table), then the body per the
/// command's class.  Bytes past a fixed body or past a variable body's
/// declared length are not examined.
pub open spec fn spec_decode_cell(bytes: Seq<u8>, version: u8) -> Result<CellView, CellError> {
    match spec_decode_circid(bytes, version) {
        Err(e) => Err(e),
        Ok(cid) => {
            let rest = bytes.skip(spec_circid_width(version));
            if rest.len() < 1 {
                Err(CellError::TruncatedBuffer)
            } else {
                match spec_command_of(rest[0]) {
                    None => Err(CellError::InvalidCommand),
                    Some(cmd) => match spec_decode_body(rest.skip(1), rest[0]) {
                        Err(e) => Err(e),
                        Ok(b) => Ok(CellView { circ_id: cid, command: cmd, body: b }),
                    },
                }
            }
        },
    }
}

/// A cell in the shape its encoding under `version` can reproduce: the
/// identifier width matches the version, the body's variant matches the
/// command's class, and the body is well-formed.
pub open spec fn spec_cell_wf(c: CellView, version: u8) -> bool {
    &&& ((version < 4) <==> c.circ_id is LEGACY)
    &&& spec_body_matches_code(c.body, spec_command_code(c.command))
    &&& spec_body_wf(c.body)
}

/// Encoding a well-formed cell and decoding it under the same version
/// reproduces the circuit identifier, the command, and the body, for both
/// identifier widths and every command.
pub proof fn lemma_cell_round_trip(c: CellView, version: u8)
    requires
        spec_cell_wf(c, version),
    ensures
        spec_decode_cell(spec_encode_cell(c), version) == Ok::<CellView, CellError>(c),
{
    let code = spec_command_code(c.command);
    let cid_bytes = spec_encode_circid(c.circ_id);
    let body_bytes = spec_encode_body(c.body);
    let enc = spec_encode_cell(c);
    let w = spec_circid_width(version);
    lemma_command_code_round_trip(c.command);
    match c.circ_id {
        CircidId::LEGACY(x) => {
            lemma_u16_be_round_trip(x);
        },
        CircidId::MODERN(x) => {
            lemma_u32_be_round_trip(x);
        },
    }
    assert(cid_bytes.len() == w);
    assert(spec_decode_circid(enc, version) == Ok::<CircidId, CellError>(c.circ_id));
    let rest = enc.skip(w);
    assert(rest =~= seq![code] + body_bytes);
    assert(rest.skip(1) =~= body_bytes);
    lemma_class_partition(code);
    lemma_body_round_trip(c.body, code);
    assert(spec_decode_cell(enc, version) == Ok::<CellView, CellError>(
        CellView { circ_id: c.circ_id, command: c.command, body: c.body },
    ));
    assert(CellView { circ_id: c.circ_id, command: c.command, body: c.body } =~= c);
}

/// Every successfully decoded cell is well-formed for the version it was
/// decoded under; in particular its body variant matches its command's class.
pub proof fn lemma_decode_wf(bytes: Seq<u8>, version: u8)
    ensures
        spec_decode_cell(bytes, version) matches Ok(c) ==> spec_cell_wf(c, version),
{
    if spec_decode_cell(bytes, version) is Ok {
        let rest = bytes.skip(spec_circid_width(version));
        lemma_command_of_code(rest[0]);
        lemma_no_cross_decode(rest.skip(1), rest[0]);
    }
}

/// A fixed-class cell whose buffer holds fewer than [`CELL_BODY_LEN`] bytes
/// after the command byte fails with `TruncatedBuffer`.
pub proof fn lemma_fixed_cell_truncated(bytes: Seq<u8>, version: u8)
    requires
        spec_circid_width(version) < bytes.len(),
        is_valid_code(bytes[spec_circid_width(version)]),
        is_fixed_code(bytes[spec_circid_width(version)]),
        bytes.len() < spec_circid_width(version) + 1 + CELL_BODY_LEN,
    ensures
        spec_decode_cell(bytes, version) == Err::<CellView, CellError>(CellError::TruncatedBuffer),
{
    let w = spec_circid_width(version);
    let rest = bytes.skip(w);
    lemma_command_of_code(rest[0]);
}

/// A fixed-class cell whose buffer holds exactly [`CELL_BODY_LEN`] bytes
/// after the command byte decodes, and re-encoding the decoded cell gives the
/// buffer back byte for byte.
pub proof fn lemma_fixed_cell_bytes_round_trip(bytes: Seq<u8>, version: u8)
    requires
        spec_decode_cell(bytes, version) is Ok,
        spec_decode_cell(bytes, version)->Ok_0.body is Fixed,
        bytes.len() == spec_circid_width(version) + 1 + CELL_BODY_LEN,
    ensures
        spec_encode_cell(spec_decode_cell(bytes, version)->Ok_0) == bytes,
{
    let w = spec_circid_width(version);
    let c = spec_decode_cell(bytes, version)->Ok_0;
    let rest = bytes.skip(w);
    lemma_command_of_code(rest[0]);
    if version < 4 {
        lemma_u16_be_bytes_round_trip(bytes[0], bytes[1]);
    } else {
        lemma_u32_be_bytes_round_trip(bytes[0], bytes[1], bytes[2], bytes[3]);
    }
    assert(spec_encode_circid(c.circ_id) =~= bytes.take(w));
    assert(spec_encode_body(c.body) =~= rest.skip(1));
    assert(spec_encode_cell(c) =~= bytes);
}

impl Cell {
    /// Aggregates the three parts of a cell as given.
    pub fn new(circ_id: CircidId, command: CellCommand, body: CellBody) -> (r: Self)
        ensures
            r.circ_id == circ_id,
            r.command == command,
            r.body == body,
    {
        Cell { circ_id, command, body }
    }

    /// Concatenates the circuit-identifier bytes, the command byte, and the
    /// body bytes.  Encoding never fails.
    pub fn to_bytes(&self) -> (r: Result<Vec<u8>, CellError>)
        ensures
            r is Ok,
            r->Ok_0@ == spec_encode_cell(self@),
    {
        let mut bytes = self.circ_id.to_bytes();
        bytes.push(self.command.code());
        let mut body_bytes = match self.body.to_bytes() {
            Ok(b) => b,
            Err(e) => { return Err(e) },
        };
        bytes.append(&mut body_bytes);
        proof {
            assert(bytes@ =~= spec_encode_cell(self@));
        }
        Ok(bytes)
    }

    /// Decodes one cell from `bytes`, strictly left to right: the circuit
    /// identifier per `version`, one command byte (failing with
    /// `InvalidCommand` on an unmapped byte), then the body per the command's
    /// class (failing with `TruncatedBuffer` on short input).  The caller
    /// frames the input; trailing bytes beyond the body are not reported.
    pub fn from_bytes(bytes: &[u8], version: u8) -> (r: Result<Cell, CellError>)
        ensures
            r is Ok <==> spec_decode_cell(bytes@, version) is Ok,
            r matches Ok(c) ==> spec_decode_cell(bytes@, version) == Ok::<CellView, CellError>(c@),
            r matches Err(e) ==> spec_decode_cell(bytes@, version) == Err::<CellView, CellError>(e),
    {
        let (circ_id, ptr) = match CircidId::from_bytes(bytes, version) {
            Ok(p) => p,
            Err(e) => { return Err(e) },
        };
        if ptr >= bytes.len() {
            return Err(CellError::TruncatedBuffer);
        }
        let ghost rest = bytes@.skip(spec_circid_width(version));
        let command_num = bytes[ptr];
        proof {
            assert(rest[0] == bytes@[ptr as int]);
        }
        let command = match CellCommand::try_from(command_num) {
            Ok(c) => c,
            Err(e) => { return Err(e) },
        };
        let body_slice = slice_subrange(bytes, ptr + 1, bytes.len());
        proof {
            assert(body_slice@ =~= rest.skip(1));
        }
        let body = match CellBody::from_bytes(body_slice, command_num) {
            Ok(b) => b,
            Err(e) => { return Err(e) },
        };
        Ok(Cell { circ_id, command, body })
    }
}

impl Default for Cell {
    /// The type-initialization value: a zero identifier, the PADDING
    /// command, and a fixed body of zeros.
    fn default() -> (r: Self)
        ensures
            r@.circ_id == CircidId::MODERN(0),
            r@.command == CellCommand::PADDING,
            r@.body == BodyView::Fixed(Seq::new(CELL_BODY_LEN as nat, |i: int| 0u8)),
    {
        Cell { circ_id: CircidId::default(), command: CellCommand::default(), body: CellBody::default() }
    }
}

} // verus!
