use vstd::prelude::*;

verus! {

/// The value of a hex digit of either case.
pub open spec fn hex_digit_value(c: char) -> Option<nat> {
    if '0' <= c && c <= '9' {
        Some((c as nat - '0' as nat) as nat)
    } else if 'a' <= c && c <= 'f' {
        Some((c as nat - 'a' as nat + 10) as nat)
    } else if 'A' <= c && c <= 'F' {
        Some((c as nat - 'A' as nat + 10) as nat)
    } else {
        None
    }
}

/// A lowercase hex digit.
pub open spec fn is_lower_hex_digit(c: char) -> bool {
    ('0' <= c && c <= '9') || ('a' <= c && c <= 'f')
}

/// `s` is a valid hex string: an even number of hex digits.
pub open spec fn is_hex(s: Seq<char>) -> bool {
    &&& s.len() % 2 == 0
    &&& forall|i: int| 0 <= i < s.len() ==> #[trigger] hex_digit_value(s[i]) is Some
}

/// The byte that the two hex digits at `2 * i` and `2 * i + 1` spell.
pub open spec fn hex_byte_at(s: Seq<char>, i: int) -> u8 {
    (hex_digit_value(s[2 * i])->0 * 16 + hex_digit_value(s[2 * i + 1])->0) as u8
}

/// The bytes that a valid hex string spells, two digits per byte.
pub open spec fn hex_bytes(s: Seq<char>) -> Seq<u8> {
    Seq::new(s.len() / 2, |i: int| hex_byte_at(s, i))
}

/// `s` is the lowercase hex spelling of `b`: two digits per byte, high
/// nibble first.
pub open spec fn is_lower_hex_of(s: Seq<char>, b: Seq<u8>) -> bool {
    &&& s.len() == 2 * b.len()
    &&& forall|i: int| 0 <= i < s.len() ==> #[trigger] is_lower_hex_digit(s[i])
    &&& forall|i: int|
        0 <= i < b.len() ==> hex_digit_value(s[2 * i]) == Some((#[trigger] b[i] / 16) as nat)
            && hex_digit_value(s[2 * i + 1]) == Some((b[i] % 16) as nat)
}

#[verifier::external_type_specification]
#[verifier::external_body]
pub struct ExFromHexError(hex::FromHexError);

/// Relies on `hex::decode`: an even number of hex digits of either case
/// decodes to one byte per pair, high nibble first; anything else is an error.
#[verifier::external_body]
pub(crate) fn hex_decode(s: &str) -> (r: Result<Vec<u8>, hex::FromHexError>)
    ensures
        is_hex(s@) <==> r is Ok,
        r matches Ok(b) ==> b@ == hex_bytes(s@),
{
    hex::decode(s)
}

/// Relies on `hex::encode`: two lowercase hex digits per byte, high nibble
/// first.
#[verifier::external_body]
pub(crate) fn hex_encode(b: &[u8]) -> (r: String)
    ensures
        is_lower_hex_of(r@, b@),
{
    hex::encode(b)
}

/// The base-128 varint of `v`: seven bits per byte, least significant group
/// first, the high bit set on every byte but the last.
pub open spec fn varint(v: nat) -> Seq<u8>
    decreases v,
{
    if v < 128 {
        seq![v as u8]
    } else {
        seq![(v % 128 + 128) as u8] + varint(v / 128)
    }
}

/// A field key: the field number and the wire type, as one varint.
pub open spec fn field_key(field: nat, wire_type: nat) -> Seq<u8> {
    varint(field * 8 + wire_type)
}

/// A varint field (wire type 0).
pub open spec fn varint_field(field: nat, v: nat) -> Seq<u8> {
    field_key(field, 0) + varint(v)
}

/// A length-delimited field (wire type 2): key, length, bytes.
pub open spec fn bytes_field(field: nat, b: Seq<u8>) -> Seq<u8> {
    field_key(field, 2) + varint(b.len()) + b
}

/// The largest field number the wire format allows.
pub const FIELD_NUMBER_MAX: u32 = 0x1fff_ffff;

#[verifier::external_type_specification]
#[verifier::external_body]
pub struct ExProtobufError(protobuf::ProtobufError);

/// Relies on `protobuf::CodedOutputStream::write_uint64` over a vector, then
/// `flush`, which never fail on a vector target: appends the key of `field` with wire type 0 and `value` as a varint.
#[verifier::external_body]
pub(crate) fn write_uint64_field(buf: &mut Vec<u8>, field: u32, value: u64) -> (r: Result<(), protobuf::ProtobufError>)
    requires
        1 <= field <= FIELD_NUMBER_MAX,
    ensures
        r is Ok,
        final(buf)@ == old(buf)@ + varint_field(field as nat, value as nat),
{
    let mut os = protobuf::CodedOutputStream::vec(buf);
    os.write_uint64(field, value)?;
    os.flush()
}

/// Relies on `protobuf::CodedOutputStream::write_uint32` over a vector, then
/// `flush`, which never fail on a vector target: appends the key of `field` with wire type 0 and `value` as a varint.
#[verifier::external_body]
pub(crate) fn write_uint32_field(buf: &mut Vec<u8>, field: u32, value: u32) -> (r: Result<(), protobuf::ProtobufError>)
    requires
        1 <= field <= FIELD_NUMBER_MAX,
    ensures
        r is Ok,
        final(buf)@ == old(buf)@ + varint_field(field as nat, value as nat),
{
    let mut os = protobuf::CodedOutputStream::vec(buf);
    os.write_uint32(field, value)?;
    os.flush()
}

/// Relies on `protobuf::CodedOutputStream::write_bytes` over a vector, then
/// `flush`, which never fail on a vector target: appends the key of `field` with wire type 2, the length as a
/// varint, and the bytes.
#[verifier::external_body]
pub(crate) fn write_bytes_field(buf: &mut Vec<u8>, field: u32, bytes: &[u8]) -> (r: Result<(), protobuf::ProtobufError>)
    requires
        1 <= field <= FIELD_NUMBER_MAX,
        bytes@.len() <= u32::MAX,
    ensures
        r is Ok,
        final(buf)@ == old(buf)@ + bytes_field(field as nat, bytes@),
{
    let mut os = protobuf::CodedOutputStream::vec(buf);
    os.write_bytes(field, bytes)?;
    os.flush()
}

/// Relies on `protobuf::CodedOutputStream::write_string` over a vector, then
/// `flush`, which never fail on a vector target: appends the key of `field` with wire type 2, the length of the
/// UTF-8 bytes as a varint, and those bytes.
#[verifier::external_body]
pub(crate) fn write_string_field(buf: &mut Vec<u8>, field: u32, s: &str) -> (r: Result<(), protobuf::ProtobufError>)
    requires
        1 <= field <= FIELD_NUMBER_MAX,
        vstd::utf8::encode_utf8(s@).len() <= u32::MAX,
    ensures
        r is Ok,
        final(buf)@ == old(buf)@ + bytes_field(field as nat, vstd::utf8::encode_utf8(s@)),
{
    let mut os = protobuf::CodedOutputStream::vec(buf);
    os.write_string(field, s)?;
    os.flush()
}

/// The Keccak-256 digest of `data`.
pub uninterp spec fn keccak256_of(data: Seq<u8>) -> Seq<u8>;

/// Relies on `tiny_keccak::keccak256`: the 32-byte Keccak-256 digest, a
/// function of the data alone.
#[verifier::external_body]
pub(crate) fn keccak256(data: &[u8]) -> (r: [u8; 32])
    ensures
        r@ == keccak256_of(data@),
{
    tiny_keccak::keccak256(data)
}

/// The recoverable secp256k1 signature of a 32-byte digest under a 32-byte
/// secret key, `r || s || recovery id`, or `None` when the key is not a valid
/// secret scalar or no signature results.
pub uninterp spec fn recoverable_signature_of(key: Seq<u8>, digest: Seq<u8>) -> Option<Seq<u8>>;

/// Relies on `k256::ecdsa::SigningKey::from_slice` and
/// `sign_prehash_recoverable`: a deterministic (RFC 6979) signature, 64 bytes
/// of `r || s` followed by the recovery id byte.
#[verifier::external_body]
pub(crate) fn sign_recoverable(key: &[u8; 32], digest: &[u8; 32]) -> (r: Option<Vec<u8>>)
    ensures
        r is Some <==> recoverable_signature_of(key@, digest@) is Some,
        r matches Some(sig) ==> recoverable_signature_of(key@, digest@) == Some(sig@) && sig@.len() == 65,
{
    let sk = k256::ecdsa::SigningKey::from_slice(key).ok()?;
    let (sig, recid) = sk.sign_prehash_recoverable(digest).ok()?;
    let mut out = sig.to_bytes().to_vec();
    out.push(recid.to_byte());
    Some(out)
}

} // verus!
