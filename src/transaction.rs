use vstd::prelude::*;

use crate::client::Client;
use crate::codec::{
    bytes_field, hex_decode, hex_bytes, hex_digit_value, hex_encode, is_hex, is_lower_hex_digit,
    is_lower_hex_of, keccak256, keccak256_of, recoverable_signature_of, sign_recoverable,
    varint_field, write_bytes_field, write_string_field, write_uint32_field, write_uint64_field,
};
use crate::error::ClientError;
use vstd::utf8::encode_utf8;

verus! {

/// Blocks added to the current height to give a transaction's deadline.
pub const VALID_BLOCK_BUFFER: u64 = 88;

/// The quota every transaction is given.
pub const DEFAULT_QUOTA: u64 = 1000000;

/// A secp256k1 secret key.
#[derive(Clone, Copy, Debug)]
pub struct PrivKey {
    pub bytes: [u8; 32],
}

/// A transaction before it is signed. An empty `to` creates a contract.
#[derive(Debug)]
pub struct UnsignedTransaction {
    pub to: String,
    pub nonce: String,
    pub quota: u64,
    pub valid_until_block: u64,
    pub data: Vec<u8>,
    pub chain_id: u32,
}

/// `f` when `present`, else nothing: a field at its default value is left
/// out of the encoding.
pub open spec fn opt_field(present: bool, f: Seq<u8>) -> Seq<u8> {
    if present {
        f
    } else {
        Seq::empty()
    }
}

/// The canonical binary encoding of a transaction record, in field order:
/// field 1 `to`, field 2 `nonce`, field 3 `quota`, field 4
/// `valid_until_block`, field 5 `data`, field 7 `chain_id`; each is left out
/// when at its default, and field 6 (a value, never set here) always is.
pub open spec fn transaction_encoding(
    to: Seq<char>,
    nonce: Seq<char>,
    quota: u64,
    valid_until_block: u64,
    data: Seq<u8>,
    chain_id: u32,
) -> Seq<u8> {
    opt_field(encode_utf8(to).len() > 0, bytes_field(1, encode_utf8(to)))
        + opt_field(encode_utf8(nonce).len() > 0, bytes_field(2, encode_utf8(nonce)))
        + opt_field(quota != 0, varint_field(3, quota as nat))
        + opt_field(valid_until_block != 0, varint_field(4, valid_until_block as nat))
        + opt_field(data.len() > 0, bytes_field(5, data))
        + opt_field(chain_id != 0, varint_field(7, chain_id as nat))
}

/// The encoding of a signed record: field 1 holds the transaction's encoding,
/// field 2 the signature (left out when empty); field 3, the signature
/// scheme, is at its default and left out.
pub open spec fn signed_encoding(tx_bytes: Seq<u8>, signature: Seq<u8>) -> Seq<u8> {
    bytes_field(1, tx_bytes) + opt_field(signature.len() > 0, bytes_field(2, signature))
}

/// The signed record for an encoded transaction: its Keccak-256 digest is
/// signed with `key`. `None` when the key cannot sign.
pub open spec fn signed_output(tx_bytes: Seq<u8>, key: Seq<u8>) -> Option<Seq<u8>> {
    match recoverable_signature_of(key, keccak256_of(tx_bytes)) {
        Some(sig) => Some(signed_encoding(tx_bytes, sig)),
        None => None,
    }
}

/// `s` is the hex form of the signed record of `tx_bytes` under `key`.
pub open spec fn is_signed_hex(s: Seq<char>, tx_bytes: Seq<u8>, key: Seq<u8>) -> bool {
    exists|b: Seq<u8>| signed_output(tx_bytes, key) == Some(b) && is_lower_hex_of(s, b)
}

/// A nonce: 32 lowercase hex digits.
pub open spec fn is_nonce(s: Seq<char>) -> bool {
    s.len() == 32 && forall|i: int| 0 <= i < s.len() ==> #[trigger] is_lower_hex_digit(s[i])
}

/// `tx` is the transaction assembled from payload hex `code`, destination
/// `to`, height `current_height` and chain id `chain_id`, with some nonce.
pub open spec fn is_assembled(tx: UnsignedTransaction, code: Seq<char>, to: Seq<char>, current_height: u64, chain_id: u32) -> bool {
    &&& tx.data@ == hex_bytes(code)
    &&& tx.to@ == to
    &&& is_nonce(tx.nonce@)
    &&& tx.valid_until_block == current_height + 88
    &&& tx.quota == 1000000
    &&& tx.chain_id == chain_id
}

impl UnsignedTransaction {
    /// Every length-delimited field, and the whole encoding, has a length
    /// that the wire format's 32-bit lengths can carry.
    pub open spec fn encodable(&self) -> bool {
        &&& encode_utf8(self.to@).len() <= u32::MAX
        &&& encode_utf8(self.nonce@).len() <= u32::MAX
        &&& self.data@.len() <= u32::MAX
        &&& self.encoding().len() <= u32::MAX
    }

    /// This transaction's canonical binary encoding.
    pub open spec fn encoding(&self) -> Seq<u8> {
        transaction_encoding(self.to@, self.nonce@, self.quota, self.valid_until_block, self.data@, self.chain_id)
    }

    /// The two transactions hold the same content.
    pub open spec fn same_content(&self, other: &UnsignedTransaction) -> bool {
        &&& self.to@ == other.to@
        &&& self.nonce@ == other.nonce@
        &&& self.quota == other.quota
        &&& self.valid_until_block == other.valid_until_block
        &&& self.data@ == other.data@
        &&& self.chain_id == other.chain_id
    }
}

/// Relies on `uuid::Uuid::new_v4`: 16 random bytes, but for the version
/// nibble (4) in byte 6 and the variant bits (`10`) in byte 8.
#[verifier::external_body]
fn random_uuid_bytes() -> (r: [u8; 16])
    ensures
        r@[6] / 16 == 4,
        r@[8] / 64 == 2,
{
    uuid::Uuid::new_v4().into_bytes()
}

/// The nonce spelled by 16 bytes: their lowercase hex.
pub fn nonce_from_bytes(b: &[u8; 16]) -> (r: String)
    ensures
        is_lower_hex_of(r@, b@),
{
    hex_encode(b)
}

/// A fresh random nonce: a random version 4 UUID in lowercase hex.
pub fn new_nonce() -> (r: String)
    ensures
        is_nonce(r@),
        exists|b: Seq<u8>| #[trigger] is_lower_hex_of(r@, b) && b.len() == 16 && b[6] / 16 == 4 && b[8] / 64 == 2,
{
    let bytes = random_uuid_bytes();
    let r = nonce_from_bytes(&bytes);
    assert(bytes@.len() == 16);
    assert(is_lower_hex_of(r@, bytes@));
    r
}

/// Assembles a transaction from its parts: valid until `current_height + 88`,
/// with the default quota.
pub fn build_transaction(data: Vec<u8>, to: String, nonce: String, current_height: u64, chain_id: u32) -> (r: UnsignedTransaction)
    requires
        current_height <= u64::MAX - VALID_BLOCK_BUFFER,
    ensures
        r.data@ == data@,
        r.to@ == to@,
        r.nonce@ == nonce@,
        r.valid_until_block == current_height + 88,
        r.quota == 1000000,
        r.chain_id == chain_id,
{
    UnsignedTransaction {
        to,
        nonce,
        quota: DEFAULT_QUOTA,
        valid_until_block: current_height + VALID_BLOCK_BUFFER,
        data,
        chain_id,
    }
}

/// Assembles a transaction whose payload is the hex string `code`, with a
/// fresh nonce. Invalid hex fails with `MalformedInput`.
pub fn new_transaction(code: &str, to: String, current_height: u64, chain_id: u32) -> (r: Result<UnsignedTransaction, ClientError>)
    requires
        current_height <= u64::MAX - VALID_BLOCK_BUFFER,
    ensures
        is_hex(code@) <==> r is Ok,
        !is_hex(code@) ==> r == Err::<UnsignedTransaction, ClientError>(ClientError::MalformedInput),
        r matches Ok(tx) ==> {
            &&& tx.data@ == hex_bytes(code@)
            &&& tx.to@ == to@
            &&& is_nonce(tx.nonce@)
            &&& tx.valid_until_block == current_height + 88
            &&& tx.quota == 1000000
            &&& tx.chain_id == chain_id
        },
{
    let data = match hex_decode(code) {
        Ok(d) => d,
        Err(_) => return Err(ClientError::MalformedInput),
    };
    let nonce = new_nonce();
    Ok(build_transaction(data, to, nonce, current_height, chain_id))
}

/// Appends a string field unless the string is empty.
fn put_string(buf: &mut Vec<u8>, field: u32, s: &str) -> (r: Result<(), ClientError>)
    requires
        1 <= field <= 7,
    ensures
        r is Ok ==> final(buf)@ == old(buf)@ + opt_field(encode_utf8(s@).len() > 0, bytes_field(field as nat, encode_utf8(s@))),
        encode_utf8(s@).len() <= u32::MAX <==> r is Ok,
        r matches Err(e) ==> e == ClientError::EncodingInvariantViolation,
{
    let len = s.as_bytes().len();
    if len == 0 {
        assert(buf@ =~= buf@ + Seq::<u8>::empty());
        return Ok(());
    }
    if len > u32::MAX as usize {
        return Err(ClientError::EncodingInvariantViolation);
    }
    match write_string_field(buf, field, s) {
        Ok(()) => Ok(()),
        Err(_) => Err(ClientError::EncodingInvariantViolation),
    }
}

/// Appends a bytes field unless the bytes are empty.
fn put_bytes(buf: &mut Vec<u8>, field: u32, b: &[u8]) -> (r: Result<(), ClientError>)
    requires
        1 <= field <= 7,
    ensures
        r is Ok ==> final(buf)@ == old(buf)@ + opt_field(b@.len() > 0, bytes_field(field as nat, b@)),
        b@.len() <= u32::MAX <==> r is Ok,
        r matches Err(e) ==> e == ClientError::EncodingInvariantViolation,
{
    if b.len() == 0 {
        assert(buf@ =~= buf@ + Seq::<u8>::empty());
        return Ok(());
    }
    if b.len() > u32::MAX as usize {
        return Err(ClientError::EncodingInvariantViolation);
    }
    match write_bytes_field(buf, field, b) {
        Ok(()) => Ok(()),
        Err(_) => Err(ClientError::EncodingInvariantViolation),
    }
}

/// Appends a 64-bit varint field unless the value is zero.
fn put_uint64(buf: &mut Vec<u8>, field: u32, v: u64) -> (r: Result<(), ClientError>)
    requires
        1 <= field <= 7,
    ensures
        r is Ok,
        final(buf)@ == old(buf)@ + opt_field(v != 0, varint_field(field as nat, v as nat)),
        r matches Err(e) ==> e == ClientError::EncodingInvariantViolation,
{
    if v == 0 {
        assert(buf@ =~= buf@ + Seq::<u8>::empty());
        return Ok(());
    }
    match write_uint64_field(buf, field, v) {
        Ok(()) => Ok(()),
        Err(_) => Err(ClientError::EncodingInvariantViolation),
    }
}

/// Appends a 32-bit varint field unless the value is zero.
fn put_uint32(buf: &mut Vec<u8>, field: u32, v: u32) -> (r: Result<(), ClientError>)
    requires
        1 <= field <= 7,
    ensures
        r is Ok,
        final(buf)@ == old(buf)@ + opt_field(v != 0, varint_field(field as nat, v as nat)),
        r matches Err(e) ==> e == ClientError::EncodingInvariantViolation,
{
    if v == 0 {
        assert(buf@ =~= buf@ + Seq::<u8>::empty());
        return Ok(());
    }
    match write_uint32_field(buf, field, v) {
        Ok(()) => Ok(()),
        Err(_) => Err(ClientError::EncodingInvariantViolation),
    }
}

/// The canonical binary encoding of `tx`. A failure of the encoder is an
/// `EncodingInvariantViolation`.
pub fn encode_transaction(tx: &UnsignedTransaction) -> (r: Result<Vec<u8>, ClientError>)
    ensures
        r matches Ok(b) ==> b@ == tx.encoding(),
        r matches Err(e) ==> e == ClientError::EncodingInvariantViolation,
        encode_utf8(tx.to@).len() <= u32::MAX && encode_utf8(tx.nonce@).len() <= u32::MAX
            && tx.data@.len() <= u32::MAX <==> r is Ok,
{
    let mut buf: Vec<u8> = Vec::new();
    put_string(&mut buf, 1, tx.to.as_str())?;
    put_string(&mut buf, 2, tx.nonce.as_str())?;
    put_uint64(&mut buf, 3, tx.quota)?;
    put_uint64(&mut buf, 4, tx.valid_until_block)?;
    put_bytes(&mut buf, 5, tx.data.as_slice())?;
    put_uint32(&mut buf, 7, tx.chain_id)?;
    assert(buf@ =~= tx.encoding());
    Ok(buf)
}

/// The encoding of the signed record for an encoded transaction and its
/// signature.
pub fn encode_signed(tx_bytes: &[u8], signature: &[u8]) -> (r: Result<Vec<u8>, ClientError>)
    ensures
        r matches Ok(b) ==> b@ == signed_encoding(tx_bytes@, signature@),
        r matches Err(e) ==> e == ClientError::EncodingInvariantViolation,
        tx_bytes@.len() <= u32::MAX && signature@.len() <= u32::MAX <==> r is Ok,
{
    let mut buf: Vec<u8> = Vec::new();
    if tx_bytes.len() > u32::MAX as usize {
        return Err(ClientError::EncodingInvariantViolation);
    }
    match write_bytes_field(&mut buf, 1, tx_bytes) {
        Ok(()) => {},
        Err(_) => return Err(ClientError::EncodingInvariantViolation),
    }
    put_bytes(&mut buf, 2, signature)?;
    assert(buf@ =~= signed_encoding(tx_bytes@, signature@));
    Ok(buf)
}

/// Signs `tx` with `pv` and returns the signed record in lowercase hex. A key
/// that cannot sign gives `InvalidPrivateKey`.
pub fn sign_transaction(tx: &UnsignedTransaction, pv: &PrivKey) -> (r: Result<String, ClientError>)
    ensures
        r matches Ok(s) ==> is_signed_hex(s@, tx.encoding(), pv.bytes@),
        tx.encodable() && signed_output(tx.encoding(), pv.bytes@) is Some <==> r is Ok,
        r matches Err(e) ==> {
            ||| e == ClientError::EncodingInvariantViolation && !tx.encodable()
            ||| e == ClientError::InvalidPrivateKey && tx.encodable() && signed_output(tx.encoding(), pv.bytes@) is None
        },
{
    let tx_bytes = encode_transaction(tx)?;
    if tx_bytes.len() > u32::MAX as usize {
        return Err(ClientError::EncodingInvariantViolation);
    }
    let digest = keccak256(tx_bytes.as_slice());
    let sig = match sign_recoverable(&pv.bytes, &digest) {
        Some(s) => s,
        None => return Err(ClientError::InvalidPrivateKey),
    };
    let signed = encode_signed(tx_bytes.as_slice(), sig.as_slice())?;
    let s = hex_encode(signed.as_slice());
    assert(signed_output(tx.encoding(), pv.bytes@) == Some(signed@));
    Ok(s)
}

/// The chain id a transaction is built for: the one given, else the cached one.
pub open spec fn chosen_chain_id(given: Option<u32>, cached: Option<u32>) -> u32 {
    match given {
        Some(c) => c,
        None => cached->0,
    }
}

impl Client {
    /// Builds and signs a transaction of payload `code` (hex) to `address`,
    /// returning the signed record in lowercase hex. The chain id is
    /// `chain_id` when given, else the one this client has resolved; with
    /// neither it fails with `ChainIdUnresolved`. Invalid hex fails with
    /// `MalformedInput` before anything is signed.
    pub fn generate_transaction(
        &self,
        code: &str,
        address: String,
        pv: &PrivKey,
        current_height: u64,
        chain_id: Option<u32>,
    ) -> (r: Result<String, ClientError>)
        requires
            current_height <= u64::MAX - VALID_BLOCK_BUFFER,
        ensures
            chain_id is None && self@.chain_id is None
                ==> r == Err::<String, ClientError>(ClientError::ChainIdUnresolved),
            (chain_id is Some || self@.chain_id is Some) && !is_hex(code@)
                ==> r == Err::<String, ClientError>(ClientError::MalformedInput),
            r matches Err(e) ==> {
                ||| e == ClientError::ChainIdUnresolved && chain_id is None && self@.chain_id is None
                ||| e == ClientError::MalformedInput && !is_hex(code@)
                ||| e == ClientError::InvalidPrivateKey && exists|tx: UnsignedTransaction|
                    #[trigger] is_assembled(tx, code@, address@, current_height, chosen_chain_id(chain_id, self@.chain_id))
                        && tx.encodable() && signed_output(tx.encoding(), pv.bytes@) is None
                ||| e == ClientError::EncodingInvariantViolation && exists|tx: UnsignedTransaction|
                    #[trigger] is_assembled(tx, code@, address@, current_height, chosen_chain_id(chain_id, self@.chain_id))
                        && !tx.encodable()
            },
            r matches Ok(s) ==> exists|tx: UnsignedTransaction|
                #[trigger] is_assembled(tx, code@, address@, current_height, chosen_chain_id(chain_id, self@.chain_id))
                    && is_signed_hex(s@, tx.encoding(), pv.bytes@),
    {
        let chain = match chain_id {
            Some(c) => c,
            None => match self.chain_id() {
                Some(c) => c,
                None => return Err(ClientError::ChainIdUnresolved),
            },
        };
        let tx = new_transaction(code, address, current_height, chain)?;
        assert(is_assembled(tx, code@, address@, current_height, chosen_chain_id(chain_id, self@.chain_id)));
        sign_transaction(&tx, pv)
    }
}

/// Lowercase hex digits with the same value are the same digit.
proof fn lemma_lower_hex_digit_unique(a: char, b: char)
    requires
        is_lower_hex_digit(a),
        is_lower_hex_digit(b),
        hex_digit_value(a) == hex_digit_value(b),
    ensures
        a == b,
{
    assert(a as nat == b as nat);
}

/// A byte string has one lowercase hex spelling.
pub proof fn lemma_lower_hex_unique(s1: Seq<char>, s2: Seq<char>, b: Seq<u8>)
    requires
        is_lower_hex_of(s1, b),
        is_lower_hex_of(s2, b),
    ensures
        s1 == s2,
{
    assert forall|i: int| 0 <= i < s1.len() implies s1[i] == s2[i] by {
        let k = i / 2;
        assert(0 <= k < b.len());
        let x = b[k];
        assert(hex_digit_value(s1[2 * k]) == hex_digit_value(s2[2 * k]));
        assert(hex_digit_value(s1[2 * k + 1]) == hex_digit_value(s2[2 * k + 1]));
        assert(is_lower_hex_digit(s1[i]) && is_lower_hex_digit(s2[i]));
        if i == 2 * k {
            lemma_lower_hex_digit_unique(s1[i], s2[i]);
        } else {
            assert(i == 2 * k + 1);
            lemma_lower_hex_digit_unique(s1[i], s2[i]);
        }
    }
    assert(s1 =~= s2);
}

/// Signing is deterministic: two transactions of the same content, signed
/// with the same key, give byte-identical signed records and the same hex.
pub proof fn lemma_signing_deterministic(
    t1: UnsignedTransaction,
    t2: UnsignedTransaction,
    key: Seq<u8>,
    s1: Seq<char>,
    s2: Seq<char>,
)
    requires
        t1.same_content(&t2),
        is_signed_hex(s1, t1.encoding(), key),
        is_signed_hex(s2, t2.encoding(), key),
    ensures
        t1.encoding() == t2.encoding(),
        signed_output(t1.encoding(), key) == signed_output(t2.encoding(), key),
        s1 == s2,
{
    let b1 = choose|b: Seq<u8>| signed_output(t1.encoding(), key) == Some(b) && is_lower_hex_of(s1, b);
    let b2 = choose|b: Seq<u8>| signed_output(t2.encoding(), key) == Some(b) && is_lower_hex_of(s2, b);
    assert(b1 == b2);
    lemma_lower_hex_unique(s1, s2, b1);
}

} // verus!
