//! The status-ping wire format: VarInts, strings and packets.
use vstd::prelude::*;
use vstd::string::StringSliceAdditionalSpecFns;

verus! {

/// What a server reports about itself.
#[derive(Clone, Debug)]
pub struct ServerStatus {
    pub description: String,
    pub players: Players,
    pub version: Version,
    pub favicon: Option<String>,
    pub latency: u128,
}

/// Player counts of a server.
#[derive(Clone, Copy, Debug)]
pub struct Players {
    pub max: i32,
    pub online: i32,
}

/// The game version a server runs.
#[derive(Clone, Debug)]
pub struct Version {
    pub name: String,
    pub protocol: i32,
}

/// The protocol number the handshake announces.
pub const HANDSHAKE_PROTOCOL: i32 = 47;

/// The VarInt encoding of a non-negative number: seven bits per byte, least
/// significant group first, the high bit set on every byte but the last.
pub open spec fn varint(v: nat) -> Seq<u8>
    decreases v,
{
    if v < 128 {
        seq![v as u8]
    } else {
        seq![(v % 128 + 128) as u8] + varint(v / 128)
    }
}

/// Appends the VarInt encoding of `value`.
pub fn write_var_int(buf: &mut Vec<u8>, value: i32)
    requires
        value >= 0,
    ensures
        final(buf)@ == old(buf)@ + varint(value as nat),
{
    let mut v: i32 = value;
    let ghost start = buf@;
    assert(buf@ =~= start + Seq::<u8>::empty());
    loop
        invariant_except_break
            v >= 0,
            start + varint(value as nat) == buf@ + varint(v as nat),
        invariant
            start == old(buf)@,
        ensures
            buf@ == start + varint(value as nat),
        decreases v,
    {
        let ghost before = buf@;
        if v < 128 {
            buf.push(v as u8);
            assert(buf@ =~= before + varint(v as nat));
            break;
        } else {
            buf.push((v % 128 + 128) as u8);
            let ghost old_v = v;
            v = v / 128;
            assert(varint(old_v as nat) == seq![(old_v % 128 + 128) as u8] + varint(v as nat));
            assert(buf@ + varint(v as nat) =~= before + varint(old_v as nat));
        }
    }
}

/// The wire form of a string: its UTF-8 length as a VarInt, then its bytes.
pub open spec fn wire_string(s: &str) -> Seq<u8> {
    varint(s.spec_bytes().len()) + s.spec_bytes()
}

/// Appends a length-prefixed UTF-8 string.
pub fn write_string(buf: &mut Vec<u8>, s: &str)
    requires
        s.spec_bytes().len() <= i32::MAX,
    ensures
        final(buf)@ == old(buf)@ + wire_string(s),
{
    let bytes = s.as_bytes();
    write_var_int(buf, bytes.len() as i32);
    let ghost mid = buf@;
    let mut i: usize = 0;
    while i < bytes.len()
        invariant
            bytes@ == s.spec_bytes(),
            i <= bytes@.len(),
            buf@ == mid + bytes@.subrange(0, i as int),
        decreases bytes@.len() - i,
    {
        buf.push(bytes[i]);
        assert(buf@ =~= mid + bytes@.subrange(0, i + 1));
        i += 1;
    }
    assert(bytes@.subrange(0, i as int) =~= bytes@);
}

/// The body of the handshake that asks for the status: packet id 0, protocol
/// number, host, port in big-endian order, and next state 1.
pub open spec fn handshake_body(host: &str, port: u16) -> Seq<u8> {
    varint(0) + varint(HANDSHAKE_PROTOCOL as nat) + wire_string(host) + seq![(port / 256) as u8, (port % 256) as u8]
        + varint(1)
}

/// Builds the body of the status handshake.
pub fn handshake_packet(host: &str, port: u16) -> (r: Vec<u8>)
    requires
        host.spec_bytes().len() <= i32::MAX,
    ensures
        r@ == handshake_body(host, port),
{
    let mut buf: Vec<u8> = Vec::new();
    write_var_int(&mut buf, 0);
    write_var_int(&mut buf, HANDSHAKE_PROTOCOL);
    write_string(&mut buf, host);
    buf.push((port / 256) as u8);
    buf.push((port % 256) as u8);
    write_var_int(&mut buf, 1);
    assert(buf@ =~= handshake_body(host, port));
    buf
}

/// A packet on the wire: the body's length as a VarInt, then the body.
pub fn frame_packet(body: &Vec<u8>) -> (r: Vec<u8>)
    requires
        body@.len() <= i32::MAX,
    ensures
        r@ == varint(body@.len()) + body@,
{
    let mut buf: Vec<u8> = Vec::new();
    write_var_int(&mut buf, body.len() as i32);
    let ghost mid = buf@;
    let mut i: usize = 0;
    while i < body.len()
        invariant
            i <= body@.len(),
            buf@ == mid + body@.subrange(0, i as int),
        decreases body@.len() - i,
    {
        buf.push(body[i]);
        assert(buf@ =~= mid + body@.subrange(0, i + 1));
        i += 1;
    }
    assert(body@.subrange(0, i as int) =~= body@);
    buf
}

/// The body of the status request: packet id 0 alone.
pub fn status_request() -> (r: Vec<u8>)
    ensures
        r@ == seq![0u8],
{
    let mut v: Vec<u8> = Vec::new();
    v.push(0);
    assert(v@ =~= seq![0u8]);
    v
}

/// Why a VarInt could not be read.
#[derive(Clone, Copy, Debug, PartialEq, Eq, Structural)]
pub enum VarIntError {
    /// The bytes ran out before the VarInt ended.
    Incomplete,
    /// No byte among the first five ended the VarInt.
    TooBig,
}

/// `128^n`.
pub open spec fn pow128(n: nat) -> nat
    decreases n,
{
    if n == 0 { 1 } else { 128 * pow128((n - 1) as nat) }
}

/// The value of the first `n` seven-bit groups.
pub open spec fn groups_value(bytes: Seq<u8>, n: nat) -> nat
    decreases n,
{
    if n == 0 {
        0
    } else {
        groups_value(bytes, (n - 1) as nat) + (bytes[n - 1] % 128) as nat * pow128((n - 1) as nat)
    }
}

/// Whether the first `n` bytes all have their high bit set.
pub open spec fn continues(bytes: Seq<u8>, n: int) -> bool {
    forall|i: int| 0 <= i < n ==> bytes[i] >= 128
}

/// Whether byte `n - 1`, among the first five, ends a VarInt begun at the front.
pub open spec fn ends_at(bytes: Seq<u8>, n: int) -> bool {
    1 <= n <= 5 && n <= bytes.len() && bytes[n - 1] < 128 && continues(bytes, n - 1)
}

/// Reading a VarInt from the front of `bytes`: the first byte below 128 among
/// the first five ends it, and the value is the low 32 bits of its groups; five
/// continuing bytes followed by any sixth are too big; fewer bytes than that
/// are incomplete.
pub open spec fn var_int_read(bytes: Seq<u8>) -> Result<(u32, nat), VarIntError> {
    if exists|n: int| ends_at(bytes, n) {
        let n = choose|n: int| ends_at(bytes, n);
        Ok(((groups_value(bytes, n as nat) % 4294967296) as u32, n as nat))
    } else if bytes.len() >= 6 && continues(bytes, 5) {
        Err(VarIntError::TooBig)
    } else {
        Err(VarIntError::Incomplete)
    }
}

/// Reads a VarInt from the front of `bytes`, with the number of bytes it took.
pub fn read_var_int(bytes: &Vec<u8>) -> (r: Result<(u32, usize), VarIntError>)
    ensures
        match r {
            Ok((v, n)) => var_int_read(bytes@) == Ok::<(u32, nat), VarIntError>((v, n as nat)),
            Err(e) => var_int_read(bytes@) == Err::<(u32, nat), VarIntError>(e),
        },
{
    let mut acc: u64 = 0;
    let mut mult: u64 = 1;
    let mut k: usize = 0;
    while k < 5
        invariant
            k <= 5,
            k <= bytes@.len(),
            continues(bytes@, k as int),
            acc == groups_value(bytes@, k as nat),
            mult == pow128(k as nat),
            acc < pow128(k as nat),
        decreases 5 - k,
    {
        if k >= bytes.len() {
            assert(!exists|n: int| ends_at(bytes@, n)) by {
                if exists|n: int| ends_at(bytes@, n) {
                    let n = choose|n: int| ends_at(bytes@, n);
                    assert(bytes@[n - 1] >= 128);
                }
            }
            return Err(VarIntError::Incomplete);
        }
        let b = bytes[k];
        proof {
            assert(pow128((k + 1) as nat) == 128 * pow128(k as nat));
            assert(pow128(k as nat) <= pow128(4)) by {
                lemma_pow128_mono(k as nat, 4);
            }
            assert(pow128(4) == 268435456) by {
                assert(pow128(0) == 1);
                assert(pow128(1) == 128);
                assert(pow128(2) == 16384);
                assert(pow128(3) == 2097152);
            }
            assert((b % 128) as nat * pow128(k as nat) <= 127 * pow128(k as nat)) by (nonlinear_arith)
                requires b % 128 <= 127;
        }
        acc = acc + (b % 128) as u64 * mult;
        mult = mult * 128;
        if b < 128 {
            let ghost n = (k + 1) as int;
            assert(ends_at(bytes@, n));
            let ghost c = choose|m: int| ends_at(bytes@, m);
            assert(c == n) by {
                if c < n {
                    assert(bytes@[c - 1] >= 128);
                } else if c > n {
                    assert(bytes@[n - 1] >= 128);
                }
            }
            return Ok(((acc % 4294967296) as u32, k + 1));
        }
        k += 1;
    }
    assert(!exists|n: int| ends_at(bytes@, n)) by {
        if exists|n: int| ends_at(bytes@, n) {
            let n = choose|n: int| ends_at(bytes@, n);
            assert(bytes@[n - 1] >= 128);
        }
    }
    if bytes.len() >= 6 {
        Err(VarIntError::TooBig)
    } else {
        Err(VarIntError::Incomplete)
    }
}

proof fn lemma_pow128_mono(a: nat, b: nat)
    requires
        a <= b,
    ensures
        pow128(a) <= pow128(b),
    decreases b,
{
    if a < b {
        lemma_pow128_mono(a, (b - 1) as nat);
    }
}

} // verus!
