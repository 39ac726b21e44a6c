//! Length-prefixed framing of a TCP byte stream.
//!
//! A frame is a header holding the length of its payload, written as one of
//! the integer kinds of [`BytesOptions`] in the byte order of [`OrderOptions`],
//! followed by that many payload bytes.
use vstd::prelude::*;
use vstd::slice::slice_subrange;
use vstd::slice::slice_to_vec;
use vstd::arithmetic::div_mod::lemma_breakdown;

verus! {

/// Byte order of a frame header.
#[derive(Eq, PartialEq, Debug, Clone, Copy, Structural)]
pub enum OrderOptions {
    LittleEndian,
    BigEndian,
}

/// Integer kind of a frame header (the floating kinds are named for
/// completeness; they cannot hold a frame length here).
#[derive(Debug, Clone, Copy)]
pub enum BytesOptions {
    U8,
    U16,
    U32,
    U64,
    U128,
    I8,
    I16,
    I32,
    I64,
    I128,
    F32,
    F64,
}

/// A header value as read from, or written to, the stream.
#[derive(Debug, Clone, Copy, PartialEq, Eq, Structural)]
pub enum ReadValue {
    U8(u8),
    U16(u16),
    U32(u32),
    U64(u64),
    U128(u128),
    I8(i8),
    I16(i16),
    I32(i32),
    I64(i64),
    I128(i128),
}

/// Number of bytes that a value of the kind `options` occupies.
pub open spec fn width(options: BytesOptions) -> nat {
    match options {
        BytesOptions::U8 | BytesOptions::I8 => 1,
        BytesOptions::U16 | BytesOptions::I16 => 2,
        BytesOptions::U32 | BytesOptions::I32 | BytesOptions::F32 => 4,
        BytesOptions::U64 | BytesOptions::I64 | BytesOptions::F64 => 8,
        BytesOptions::U128 | BytesOptions::I128 => 16,
    }
}

/// Whether `options` is one of the integer kinds.
pub open spec fn is_integer_kind(options: BytesOptions) -> bool {
    !(options is F32) && !(options is F64)
}

/// Returns the number of bytes that a value of the kind `options` occupies.
pub fn get_bytes_size(options: &BytesOptions) -> (size: usize)
    ensures
        size == width(*options),
{
    match options {
        BytesOptions::U8 | BytesOptions::I8 => 1,
        BytesOptions::U16 | BytesOptions::I16 => 2,
        BytesOptions::U32 | BytesOptions::I32 | BytesOptions::F32 => 4,
        BytesOptions::U64 | BytesOptions::I64 | BytesOptions::F64 => 8,
        BytesOptions::U128 | BytesOptions::I128 => 16,
    }
}

/// The value converted to `usize` the way Rust's `as` converts it: unsigned
/// values are truncated to the width of `usize`, signed ones are
/// sign-extended or truncated.
pub open spec fn value_as_usize(value: ReadValue) -> usize {
    match value {
        ReadValue::U8(v) => v as usize,
        ReadValue::U16(v) => v as usize,
        ReadValue::U32(v) => v as usize,
        ReadValue::U64(v) => v as usize,
        ReadValue::U128(v) => v as usize,
        ReadValue::I8(v) => v as usize,
        ReadValue::I16(v) => v as usize,
        ReadValue::I32(v) => v as usize,
        ReadValue::I64(v) => v as usize,
        ReadValue::I128(v) => v as usize,
    }
}

/// The integer that a header value holds.
pub open spec fn value_int(value: ReadValue) -> int {
    match value {
        ReadValue::U8(v) => v as int,
        ReadValue::U16(v) => v as int,
        ReadValue::U32(v) => v as int,
        ReadValue::U64(v) => v as int,
        ReadValue::U128(v) => v as int,
        ReadValue::I8(v) => v as int,
        ReadValue::I16(v) => v as int,
        ReadValue::I32(v) => v as int,
        ReadValue::I64(v) => v as int,
        ReadValue::I128(v) => v as int,
    }
}

/// A header value that `usize` can hold converts to itself, whatever its
/// kind, signed or not: the frame length a header announces is the number it
/// holds.
pub proof fn lemma_value_as_usize_in_range(value: ReadValue)
    ensures
        0 <= value_int(value) <= usize::MAX ==> value_as_usize(value) == value_int(value),
{
}

/// Converts a header value to `usize` as Rust's `as` does.
pub fn read_value_to_usize(value: ReadValue) -> (n: usize)
    ensures
        n == value_as_usize(value),
        0 <= value_int(value) <= usize::MAX ==> n == value_int(value),
        value matches ReadValue::U8(v) ==> n == v,
        value matches ReadValue::U16(v) ==> n == v,
        value matches ReadValue::U32(v) ==> n == v,
{
    match value {
        ReadValue::U8(v) => v as usize,
        ReadValue::U16(v) => v as usize,
        ReadValue::U32(v) => v as usize,
        ReadValue::U64(v) => v as usize,
        ReadValue::U128(v) => v as usize,
        ReadValue::I8(v) => v as usize,
        ReadValue::I16(v) => v as usize,
        ReadValue::I32(v) => v as usize,
        ReadValue::I64(v) => v as usize,
        ReadValue::I128(v) => v as usize,
    }
}


/// `256` to the power `k`: the number of values that `k` bytes can hold.
pub open spec fn pow256(k: nat) -> nat
    decreases k,
{
    if k == 0 {
        1
    } else {
        256 * pow256((k - 1) as nat)
    }
}

/// The unsigned number that `bytes` hold in little-endian order.
pub open spec fn le_nat(bytes: Seq<u8>) -> nat
    decreases bytes.len(),
{
    if bytes.len() == 0 {
        0
    } else {
        bytes[0] as nat + 256 * le_nat(bytes.drop_first())
    }
}

/// The unsigned number that `bytes` hold in big-endian order.
pub open spec fn be_nat(bytes: Seq<u8>) -> nat
    decreases bytes.len(),
{
    if bytes.len() == 0 {
        0
    } else {
        256 * be_nat(bytes.drop_last()) + bytes.last() as nat
    }
}

/// The unsigned number that `bytes` hold in the byte order `order`.
pub open spec fn ordered_nat(bytes: Seq<u8>, order: OrderOptions) -> nat {
    match order {
        OrderOptions::LittleEndian => le_nat(bytes),
        OrderOptions::BigEndian => be_nat(bytes),
    }
}

/// The header value that the first `width(options)` bytes of `bytes` hold, read
/// in the byte order `order`; a signed kind reads them as two's complement.
/// `None` for the floating kinds.
pub open spec fn decode_value(options: BytesOptions, order: OrderOptions, bytes: Seq<u8>) -> Option<
    ReadValue,
> {
    let n = ordered_nat(bytes.take(width(options) as int), order);
    match options {
        BytesOptions::U8 => Some(ReadValue::U8(n as u8)),
        BytesOptions::U16 => Some(ReadValue::U16(n as u16)),
        BytesOptions::U32 => Some(ReadValue::U32(n as u32)),
        BytesOptions::U64 => Some(ReadValue::U64(n as u64)),
        BytesOptions::U128 => Some(ReadValue::U128(n as u128)),
        BytesOptions::I8 => Some(ReadValue::I8(n as i8)),
        BytesOptions::I16 => Some(ReadValue::I16(n as i16)),
        BytesOptions::I32 => Some(ReadValue::I32(n as i32)),
        BytesOptions::I64 => Some(ReadValue::I64(n as i64)),
        BytesOptions::I128 => Some(ReadValue::I128(n as i128)),
        BytesOptions::F32 | BytesOptions::F64 => None,
    }
}

proof fn lemma_pow256_grows(k: nat)
    ensures
        pow256(k) >= 1,
        pow256(k) <= pow256(k + 1),
    decreases k,
{
    if k > 0 {
        lemma_pow256_grows((k - 1) as nat);
    }
}

proof fn lemma_pow256_at_most_16(k: nat)
    requires
        k <= 16,
    ensures
        pow256(k) <= pow256(16),
    decreases 16 - k,
{
    lemma_pow256_grows(k);
    if k < 16 {
        lemma_pow256_at_most_16(k + 1);
    }
}

proof fn lemma_pow256_16()
    ensures
        pow256(16) == 0x1_0000_0000_0000_0000_0000_0000_0000_0000,
{
    reveal_with_fuel(pow256, 17);
}

/// Reads the unsigned number that the first `n` bytes of `bytes` hold.
fn read_unsigned(bytes: &[u8], n: usize, order: &OrderOptions) -> (r: u128)
    requires
        1 <= n <= 16,
        n <= bytes@.len(),
    ensures
        r == ordered_nat(bytes@.take(n as int), *order),
{
    proof {
        lemma_pow256_at_most_16(n as nat);
        lemma_pow256_16();
    }
    let mut acc: u128 = 0;
    match order {
        OrderOptions::LittleEndian => {
            let mut i: usize = n;
            while i > 0
                invariant
                    i <= n <= 16,
                    n <= bytes@.len(),
                    pow256(n as nat) <= pow256(16),
                    pow256(16) == 0x1_0000_0000_0000_0000_0000_0000_0000_0000,
                    acc == le_nat(bytes@.subrange(i as int, n as int)),
                    acc < pow256((n - i) as nat),
                decreases i,
            {
                proof {
                    lemma_pow256_at_most_16((n - i + 1) as nat);
                    lemma_pow256_at_most_16((n - i) as nat);
                }
                i = i - 1;
                assert(bytes@.subrange(i as int, n as int).drop_first() =~= bytes@.subrange(
                    i + 1,
                    n as int,
                ));
                acc = bytes[i] as u128 + 256 * acc;
            }
            assert(bytes@.subrange(0, n as int) =~= bytes@.take(n as int));
        },
        OrderOptions::BigEndian => {
            let mut i: usize = 0;
            while i < n
                invariant
                    i <= n <= 16,
                    n <= bytes@.len(),
                    pow256(n as nat) <= pow256(16),
                    pow256(16) == 0x1_0000_0000_0000_0000_0000_0000_0000_0000,
                    acc == be_nat(bytes@.take(i as int)),
                    acc < pow256(i as nat),
                decreases n - i,
            {
                proof {
                    lemma_pow256_at_most_16((i + 1) as nat);
                }
                assert(bytes@.take(i + 1).drop_last() =~= bytes@.take(i as int));
                acc = 256 * acc + bytes[i] as u128;
                i = i + 1;
            }
        },
    }
    acc
}

/// Reads a header value of the kind `opt` from the front of `bytes`.
pub fn parse_value_from_bytes(bytes: &[u8], opt: &BytesOptions, order: &OrderOptions) -> (value:
    ReadValue)
    requires
        is_integer_kind(*opt),
        width(*opt) <= bytes@.len(),
        !(*opt is U8) ==> bytes@.len() == width(*opt),
    ensures
        decode_value(*opt, *order, bytes@) == Some(value),
{
    let n = get_bytes_size(opt);
    let acc = read_unsigned(bytes, n, order);
    match opt {
        BytesOptions::U8 => ReadValue::U8(acc as u8),
        BytesOptions::U16 => ReadValue::U16(acc as u16),
        BytesOptions::U32 => ReadValue::U32(acc as u32),
        BytesOptions::U64 => ReadValue::U64(acc as u64),
        BytesOptions::U128 => ReadValue::U128(acc),
        BytesOptions::I8 => ReadValue::I8(acc as i8),
        BytesOptions::I16 => ReadValue::I16(acc as i16),
        BytesOptions::I32 => ReadValue::I32(acc as i32),
        BytesOptions::I64 => ReadValue::I64(acc as i64),
        BytesOptions::I128 => ReadValue::I128(acc as i128),
        BytesOptions::F32 | BytesOptions::F64 => ReadValue::U8(0),
    }
}

/// The payload length that the header at the front of `buf` announces: the
/// header value converted to `usize` as Rust's `as` converts it.
pub open spec fn frame_len(options: BytesOptions, order: OrderOptions, buf: Seq<u8>) -> nat {
    match decode_value(options, order, buf) {
        Some(v) => value_as_usize(v) as nat,
        None => 0,
    }
}

/// Splits `buf` into the complete frames at its front and what is left: a
/// frame is taken while the buffer holds a whole header and the whole payload
/// that the header announces. The first component lists the payloads of the
/// frames taken, in order; the second is the unconsumed rest of `buf`.
pub open spec fn split_frames(buf: Seq<u8>, options: BytesOptions, order: OrderOptions) -> (
    Seq<Seq<u8>>,
    Seq<u8>,
)
    decreases buf.len(),
{
    let w = width(options) as int;
    if buf.len() < w {
        (Seq::empty(), buf)
    } else {
        let len = frame_len(options, order, buf) as int;
        if buf.len() - w >= len {
            let rest = split_frames(buf.skip(w + len), options, order);
            (seq![buf.subrange(w, w + len)] + rest.0, rest.1)
        } else {
            (Seq::empty(), buf)
        }
    }
}

/// The payloads as sequences of bytes.
pub open spec fn payloads(messages: Seq<Vec<u8>>) -> Seq<Seq<u8>> {
    messages.map_values(|m: Vec<u8>| m@)
}

/// Takes every complete frame off the front of `buffer` and returns their
/// payloads in order; an incomplete frame at the end stays in `buffer`, to be
/// completed by bytes that arrive later. A floating-point header kind is
/// accepted only while the buffer is shorter than one header: no frame can be
/// read with it.
pub fn extract_messages_from_buffer(
    buffer: &mut Vec<u8>,
    bytes_opt: &BytesOptions,
    order: &OrderOptions,
) -> (messages: Vec<Vec<u8>>)
    requires
        is_integer_kind(*bytes_opt) || old(buffer)@.len() < width(*bytes_opt),
    ensures
        payloads(messages@) == split_frames(old(buffer)@, *bytes_opt, *order).0,
        final(buffer)@ == split_frames(old(buffer)@, *bytes_opt, *order).1,
{
    let mut messages: Vec<Vec<u8>> = Vec::new();
    let header_size = get_bytes_size(bytes_opt);
    let ghost whole = split_frames(buffer@, *bytes_opt, *order);
    let mut pos: usize = 0;
    assert(buffer@.skip(0) =~= buffer@);
    assert(payloads(messages@) =~= Seq::<Seq<u8>>::empty());
    loop
        invariant
            is_integer_kind(*bytes_opt) || buffer@.len() < width(*bytes_opt),
            header_size == width(*bytes_opt),
            whole == split_frames(old(buffer)@, *bytes_opt, *order),
            buffer@ == old(buffer)@,
            pos <= buffer@.len(),
            whole.0 == payloads(messages@) + split_frames(buffer@.skip(pos as int), *bytes_opt, *order).0,
            whole.1 == split_frames(buffer@.skip(pos as int), *bytes_opt, *order).1,
        ensures
            pos <= buffer@.len(),
            buffer@ == old(buffer)@,
            whole.0 == payloads(messages@),
            whole.1 == buffer@.skip(pos as int),
        decreases buffer@.len() - pos,
    {
        let ghost rest = buffer@.skip(pos as int);
        if buffer.len() - pos < header_size {
            assert(payloads(messages@) + Seq::<Seq<u8>>::empty() =~= payloads(messages@));
            break;
        }
        let header = slice_subrange(buffer.as_slice(), pos, pos + header_size);
        assert(header@ =~= rest.take(header_size as int));
        assert(rest.take(header_size as int).take(header_size as int) =~= rest.take(header_size as int));
        let read_val = parse_value_from_bytes(header, bytes_opt, order);
        let msg_len = read_value_to_usize(read_val);
        assert(decode_value(*bytes_opt, *order, rest) == decode_value(*bytes_opt, *order, header@));
        assert(msg_len == frame_len(*bytes_opt, *order, rest));
        if buffer.len() - pos - header_size >= msg_len {
            let start = pos + header_size;
            let message = slice_to_vec(slice_subrange(buffer.as_slice(), start, start + msg_len));
            let ghost old_messages = messages@;
            messages.push(message);
            pos = start + msg_len;
            proof {
                assert(message@ =~= rest.subrange(header_size as int, header_size + msg_len));
                assert(rest.skip(header_size + msg_len) =~= buffer@.skip(pos as int));
                assert(payloads(messages@) =~= payloads(old_messages).push(message@));
                assert(payloads(old_messages).push(message@) + split_frames(
                    buffer@.skip(pos as int),
                    *bytes_opt,
                    *order,
                ).0 =~= payloads(old_messages) + (seq![message@] + split_frames(
                    buffer@.skip(pos as int),
                    *bytes_opt,
                    *order,
                ).0));
            }
        } else {
            assert(payloads(messages@) + Seq::<Seq<u8>>::empty() =~= payloads(messages@));
            break;
        }
    }
    let remaining = buffer.split_off(pos);
    *buffer = remaining;
    messages
}

/// The kind of header that `value` is.
pub open spec fn kind_of(value: ReadValue) -> BytesOptions {
    match value {
        ReadValue::U8(_) => BytesOptions::U8,
        ReadValue::U16(_) => BytesOptions::U16,
        ReadValue::U32(_) => BytesOptions::U32,
        ReadValue::U64(_) => BytesOptions::U64,
        ReadValue::U128(_) => BytesOptions::U128,
        ReadValue::I8(_) => BytesOptions::I8,
        ReadValue::I16(_) => BytesOptions::I16,
        ReadValue::I32(_) => BytesOptions::I32,
        ReadValue::I64(_) => BytesOptions::I64,
        ReadValue::I128(_) => BytesOptions::I128,
    }
}

/// The bits of `value` read as an unsigned number (two's complement for the
/// signed kinds).
pub open spec fn value_bits(value: ReadValue) -> nat {
    match value {
        ReadValue::U8(v) => v as nat,
        ReadValue::U16(v) => v as nat,
        ReadValue::U32(v) => v as nat,
        ReadValue::U64(v) => v as nat,
        ReadValue::U128(v) => v as nat,
        ReadValue::I8(v) => (v as u8) as nat,
        ReadValue::I16(v) => (v as u16) as nat,
        ReadValue::I32(v) => (v as u32) as nat,
        ReadValue::I64(v) => (v as u64) as nat,
        ReadValue::I128(v) => (v as u128) as nat,
    }
}

/// The lowest `n` bytes of `x`, least significant first.
pub open spec fn le_bytes(x: nat, n: nat) -> Seq<u8>
    decreases n,
{
    if n == 0 {
        Seq::empty()
    } else {
        seq![(x % 256) as u8] + le_bytes(x / 256, (n - 1) as nat)
    }
}

/// The bytes that write `value` to the stream in the byte order `order`: as
/// many bytes as its kind occupies (a single byte for the 8-bit kinds, where the
/// order does not matter).
pub open spec fn encode_value(value: ReadValue, order: OrderOptions) -> Seq<u8> {
    let bytes = le_bytes(value_bits(value), width(kind_of(value)));
    match order {
        OrderOptions::LittleEndian => bytes,
        OrderOptions::BigEndian => bytes.reverse(),
    }
}

/// The bytes that write `value` to the stream in the byte order `order`.
pub fn value_to_bytes(value: &ReadValue, order: &OrderOptions) -> (bytes: Vec<u8>)
    ensures
        bytes@ == encode_value(*value, *order),
{
    let (bits, n): (u128, usize) = match value {
        ReadValue::U8(v) => (*v as u128, 1),
        ReadValue::U16(v) => (*v as u128, 2),
        ReadValue::U32(v) => (*v as u128, 4),
        ReadValue::U64(v) => (*v as u128, 8),
        ReadValue::U128(v) => (*v, 16),
        ReadValue::I8(v) => ((*v as u8) as u128, 1),
        ReadValue::I16(v) => ((*v as u16) as u128, 2),
        ReadValue::I32(v) => ((*v as u32) as u128, 4),
        ReadValue::I64(v) => ((*v as u64) as u128, 8),
        ReadValue::I128(v) => (*v as u128, 16),
    };
    assert(bits == value_bits(*value));
    assert(n == width(kind_of(*value)));
    let mut little: Vec<u8> = Vec::new();
    let mut x: u128 = bits;
    let mut i: usize = 0;
    while i < n
        invariant
            i <= n,
            little@.len() == i,
            little@ + le_bytes(x as nat, (n - i) as nat) == le_bytes(bits as nat, n as nat),
        decreases n - i,
    {
        let ghost before = little@;
        little.push((x % 256) as u8);
        assert(before + le_bytes(x as nat, (n - i) as nat) =~= little@ + le_bytes(
            (x / 256) as nat,
            (n - i - 1) as nat,
        ));
        x = x / 256;
        i = i + 1;
    }
    assert(little@ =~= le_bytes(bits as nat, n as nat));
    match order {
        OrderOptions::LittleEndian => little,
        OrderOptions::BigEndian => {
            let mut big: Vec<u8> = Vec::new();
            let mut j: usize = 0;
            while j < n
                invariant
                    j <= n,
                    little@.len() == n,
                    big@ =~= little@.reverse().take(j as int),
                decreases n - j,
            {
                big.push(little[n - 1 - j]);
                j = j + 1;
            }
            assert(big@ =~= little@.reverse());
            big
        },
    }
}

proof fn lemma_le_bytes(x: nat, n: nat)
    ensures
        le_bytes(x, n).len() == n,
        le_nat(le_bytes(x, n)) == x % pow256(n),
    decreases n,
{
    if n > 0 {
        let p = pow256((n - 1) as nat);
        lemma_pow256_grows((n - 1) as nat);
        lemma_le_bytes(x / 256, (n - 1) as nat);
        let s = le_bytes(x, n);
        assert(s.drop_first() =~= le_bytes(x / 256, (n - 1) as nat));
        lemma_breakdown(x as int, 256, p as int);
    }
}

proof fn lemma_be_reverse(s: Seq<u8>)
    ensures
        be_nat(s.reverse()) == le_nat(s),
    decreases s.len(),
{
    if s.len() > 0 {
        assert(s.reverse().drop_last() =~= s.drop_first().reverse());
        lemma_be_reverse(s.drop_first());
    }
}

proof fn lemma_value_bits_fit(value: ReadValue)
    ensures
        value_bits(value) < pow256(width(kind_of(value))),
{
    reveal_with_fuel(pow256, 17);
}

/// Reading back what [`value_to_bytes`] wrote gives the value again, whatever
/// bytes follow it in the stream.
pub proof fn lemma_decode_encode(value: ReadValue, order: OrderOptions, rest: Seq<u8>)
    ensures
        decode_value(kind_of(value), order, encode_value(value, order) + rest) == Some(value),
{
    let n = width(kind_of(value));
    let x = value_bits(value);
    lemma_le_bytes(x, n);
    lemma_value_bits_fit(value);
    lemma_pow256_grows(n);
    vstd::arithmetic::div_mod::lemma_small_mod(x, pow256(n));
    let little = le_bytes(x, n);
    let enc = encode_value(value, order);
    assert((enc + rest).take(n as int) =~= enc);
    match order {
        OrderOptions::LittleEndian => {},
        OrderOptions::BigEndian => {
            lemma_be_reverse(little);
        },
    }
    assert(ordered_nat(enc, order) == x);
    match value {
        ReadValue::I8(v) => {
            assert(((v as u8) as i8) == v) by (bit_vector);
        },
        ReadValue::I16(v) => {
            assert(((v as u16) as i16) == v) by (bit_vector);
        },
        ReadValue::I32(v) => {
            assert(((v as u32) as i32) == v) by (bit_vector);
        },
        ReadValue::I64(v) => {
            assert(((v as u64) as i64) == v) by (bit_vector);
        },
        ReadValue::I128(v) => {
            assert(((v as u128) as i128) == v) by (bit_vector);
        },
        _ => {},
    }
}

/// A frame written as a header holding the payload's length followed by the
/// payload is taken off the stream whole, and the frames after it are taken
/// as they would be on their own.
pub proof fn lemma_frame_roundtrip(
    header: ReadValue,
    order: OrderOptions,
    payload: Seq<u8>,
    rest: Seq<u8>,
)
    requires
        value_as_usize(header) == payload.len(),
    ensures
        split_frames(encode_value(header, order) + payload + rest, kind_of(header), order) == (
            seq![payload] + split_frames(rest, kind_of(header), order).0,
            split_frames(rest, kind_of(header), order).1,
        ),
{
    let opt = kind_of(header);
    let enc = encode_value(header, order);
    let buf = enc + payload + rest;
    let w = width(opt) as int;
    lemma_le_bytes(value_bits(header), width(opt));
    assert(buf =~= enc + (payload + rest));
    lemma_decode_encode(header, order, payload + rest);
    assert(frame_len(opt, order, buf) == payload.len());
    assert(buf.subrange(w, w + payload.len()) =~= payload);
    assert(buf.skip(w + payload.len()) =~= rest);
}

/// Frames arrive in pieces: taking the frames off `a`, then appending `b` to
/// what was left and taking frames again, gives the same frames, and leaves the
/// same bytes, as taking them off `a + b` at once.
pub proof fn lemma_split_append(a: Seq<u8>, b: Seq<u8>, options: BytesOptions, order: OrderOptions)
    ensures
        ({
            let first = split_frames(a, options, order);
            let second = split_frames(first.1 + b, options, order);
            split_frames(a + b, options, order) == (first.0 + second.0, second.1)
        }),
    decreases a.len(),
{
    let w = width(options) as int;
    let first = split_frames(a, options, order);
    if a.len() >= w {
        let len = frame_len(options, order, a) as int;
        assert((a + b).take(w) =~= a.take(w));
        assert(frame_len(options, order, a + b) == len);
        if a.len() - w >= len {
            assert((a + b).subrange(w, w + len) =~= a.subrange(w, w + len));
            assert((a + b).skip(w + len) =~= a.skip(w + len) + b);
            lemma_split_append(a.skip(w + len), b, options, order);
            let inner = split_frames(a.skip(w + len), options, order);
            let second = split_frames(inner.1 + b, options, order);
            assert(seq![a.subrange(w, w + len)] + (inner.0 + second.0) =~= (seq![
                a.subrange(w, w + len),
            ] + inner.0) + second.0);
        } else {
            assert(Seq::<Seq<u8>>::empty() + split_frames(a + b, options, order).0 =~= split_frames(
                a + b,
                options,
                order,
            ).0);
        }
    } else {
        assert(Seq::<Seq<u8>>::empty() + split_frames(a + b, options, order).0 =~= split_frames(
            a + b,
            options,
            order,
        ).0);
    }
}

/// What is left after the complete frames are taken is a suffix of the
/// buffer, and it holds no complete frame: taking frames again finds none.
pub proof fn lemma_split_leftover(buf: Seq<u8>, options: BytesOptions, order: OrderOptions)
    ensures
        ({
            let left = split_frames(buf, options, order).1;
            &&& left.len() <= buf.len()
            &&& left == buf.skip(buf.len() - left.len())
            &&& split_frames(left, options, order) == (Seq::<Seq<u8>>::empty(), left)
        }),
    decreases buf.len(),
{
    let w = width(options) as int;
    if buf.len() >= w {
        let len = frame_len(options, order, buf) as int;
        if buf.len() - w >= len {
            let tail = buf.skip(w + len);
            lemma_split_leftover(tail, options, order);
            let left = split_frames(tail, options, order).1;
            assert(tail.skip(tail.len() - left.len()) =~= buf.skip(buf.len() - left.len()));
        } else {
            assert(buf.skip(0) =~= buf);
        }
    } else {
        assert(buf.skip(0) =~= buf);
    }
}

} // verus!
