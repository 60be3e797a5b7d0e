use cita_tool::client::Client;
use cita_tool::error::ClientError;
use cita_tool::rpc::{JsonRpcResponse, ParamsValue, ResponseBody};
use cita_tool::transaction::{
    build_transaction, encode_signed, encode_transaction, new_nonce, nonce_from_bytes, new_transaction, sign_transaction, PrivKey,
    UnsignedTransaction,
};

const KEY: [u8; 32] = [7u8; 32];

fn fixed_tx() -> UnsignedTransaction {
    build_transaction(vec![0x60, 0x60], String::new(), "abcd".to_string(), 100, 1)
}

fn is_lower_hex(s: &str) -> bool {
    s.chars().all(|c| c.is_ascii_digit() || ('a'..='f').contains(&c))
}

fn expected_signed_hex(tx_bytes: &[u8], key: &[u8; 32]) -> String {
    let digest = tiny_keccak::keccak256(tx_bytes);
    let sk = k256::ecdsa::SigningKey::from_slice(key).unwrap();
    let (sig, recid) = sk.sign_prehash_recoverable(&digest).unwrap();
    let mut sig_bytes = sig.to_bytes().to_vec();
    sig_bytes.push(recid.to_byte());
    let mut out = vec![0x0a, tx_bytes.len() as u8];
    out.extend_from_slice(tx_bytes);
    out.push(0x12);
    out.push(65);
    out.extend_from_slice(&sig_bytes);
    out.iter().map(|b| format!("{:02x}", b)).collect()
}

#[test]
fn new_transaction_fills_the_fields() {
    let tx = new_transaction("6060", String::new(), 100, 1).unwrap();
    assert_eq!(tx.valid_until_block, 188);
    assert_eq!(tx.quota, 1000000);
    assert_eq!(tx.chain_id, 1);
    assert_eq!(tx.data, vec![0x60, 0x60]);
    assert_eq!(tx.to, "");
    assert_eq!(tx.nonce.len(), 32);
    assert!(is_lower_hex(&tx.nonce));
}

#[test]
fn nonces_differ_between_transactions() {
    let a = new_transaction("6060", String::new(), 100, 1).unwrap();
    let b = new_transaction("6060", String::new(), 100, 1).unwrap();
    assert_ne!(a.nonce, b.nonce);
}

#[test]
fn new_nonce_is_32_lowercase_hex_digits() {
    let n = new_nonce();
    assert_eq!(n.len(), 32);
    assert!(is_lower_hex(&n));
}

#[test]
fn hex_payload_of_either_case_decodes() {
    let tx = new_transaction("0aFf", "0x01".to_string(), 0, 2).unwrap();
    assert_eq!(tx.data, vec![0x0a, 0xff]);
    assert_eq!(tx.valid_until_block, 88);
}

#[test]
fn malformed_hex_is_rejected() {
    assert!(matches!(new_transaction("zz", String::new(), 100, 1), Err(ClientError::MalformedInput)));
    assert!(matches!(new_transaction("606", String::new(), 100, 1), Err(ClientError::MalformedInput)));
}

#[test]
fn empty_payload_is_valid() {
    let tx = new_transaction("", String::new(), 100, 1).unwrap();
    assert!(tx.data.is_empty());
}

#[test]
fn transaction_encoding_is_exact() {
    let bytes = encode_transaction(&fixed_tx()).unwrap();
    assert_eq!(
        bytes,
        vec![
            0x12, 0x04, 0x61, 0x62, 0x63, 0x64, 0x18, 0xc0, 0x84, 0x3d, 0x20, 0xbc, 0x01, 0x2a, 0x02, 0x60, 0x60,
            0x38, 0x01
        ]
    );
}

#[test]
fn transaction_encoding_leaves_out_defaults() {
    let tx = build_transaction(vec![], "0x01".to_string(), String::new(), 100, 0);
    let bytes = encode_transaction(&tx).unwrap();
    assert_eq!(bytes, vec![0x0a, 0x04, 0x30, 0x78, 0x30, 0x31, 0x18, 0xc0, 0x84, 0x3d, 0x20, 0xbc, 0x01]);
}

#[test]
fn signed_encoding_is_exact() {
    let bytes = encode_signed(&[1, 2], &[9, 9, 9]).unwrap();
    assert_eq!(bytes, vec![0x0a, 0x02, 1, 2, 0x12, 0x03, 9, 9, 9]);
    let unsigned = encode_signed(&[], &[]).unwrap();
    assert_eq!(unsigned, vec![0x0a, 0x00]);
}

#[test]
fn signing_matches_keccak_and_secp256k1() {
    let tx = fixed_tx();
    let tx_bytes = encode_transaction(&tx).unwrap();
    let s = sign_transaction(&tx, &PrivKey { bytes: KEY }).unwrap();
    assert_eq!(s, expected_signed_hex(&tx_bytes, &KEY));
}

#[test]
fn signing_is_deterministic() {
    let pv = PrivKey { bytes: KEY };
    let a = sign_transaction(&fixed_tx(), &pv).unwrap();
    let b = sign_transaction(&fixed_tx(), &pv).unwrap();
    assert_eq!(a, b);
    let other = sign_transaction(&build_transaction(vec![0x60], String::new(), "abcd".to_string(), 100, 1), &pv).unwrap();
    assert_ne!(a, other);
}

#[test]
fn zero_key_cannot_sign() {
    let r = sign_transaction(&fixed_tx(), &PrivKey { bytes: [0u8; 32] });
    assert!(matches!(r, Err(ClientError::InvalidPrivateKey)));
}

#[test]
fn generate_uses_the_given_chain_id() {
    let c = Client::new();
    let pv = PrivKey { bytes: KEY };
    let s = c.generate_transaction("6060", String::new(), &pv, 100, Some(1)).unwrap();
    assert!(is_lower_hex(&s));
    let bytes = hex::decode(&s).unwrap();
    // field 1 holds the transaction, field 2 the 65-byte signature
    assert_eq!(bytes[0], 0x0a);
    let tx_len = bytes[1] as usize;
    assert_eq!(bytes[2 + tx_len], 0x12);
    assert_eq!(bytes[3 + tx_len], 65);
    assert_eq!(bytes.len(), 4 + tx_len + 65);
    let tx = &bytes[2..2 + tx_len];
    assert_eq!(&tx[tx.len() - 2..], &[0x38, 0x01]);
}

#[test]
fn generate_without_chain_id_needs_resolution() {
    let c = Client::new();
    let pv = PrivKey { bytes: KEY };
    let r = c.generate_transaction("6060", String::new(), &pv, 100, None);
    assert!(matches!(r, Err(ClientError::ChainIdUnresolved)));
}

#[test]
fn generate_with_resolved_chain_id() {
    let mut c = Client::new().add_url("http://a:1337".to_string());
    let _ = c.resolve_chain_id();
    let meta = JsonRpcResponse {
        id: 1,
        body: ResponseBody::Success(ParamsValue::Object(vec![("chainId".to_string(), ParamsValue::Int(3))])),
    };
    assert_eq!(c.finish_chain_id(&vec![meta]), 3);
    let s = c.generate_transaction("6060", String::new(), &PrivKey { bytes: KEY }, 100, None).unwrap();
    let bytes = hex::decode(&s).unwrap();
    let tx_len = bytes[1] as usize;
    let tx = &bytes[2..2 + tx_len];
    assert_eq!(&tx[tx.len() - 2..], &[0x38, 0x03]);
}

#[test]
fn generate_rejects_malformed_payload() {
    let c = Client::new();
    let r = c.generate_transaction("zz", String::new(), &PrivKey { bytes: KEY }, 100, Some(1));
    assert!(matches!(r, Err(ClientError::MalformedInput)));
}

#[test]
fn nonce_from_bytes_spells_lowercase_hex() {
    let b: [u8; 16] = [0x00, 0x01, 0x0a, 0xff, 0x10, 0x20, 0x4b, 0xc3, 0x9d, 0x00, 0x00, 0x00, 0x00, 0x00, 0x00, 0x7e];
    assert_eq!(nonce_from_bytes(&b), "00010aff10204bc39d0000000000007e");
}

#[test]
fn new_nonce_carries_uuid_version_and_variant() {
    for _ in 0..8 {
        let n = new_nonce();
        let c: Vec<char> = n.chars().collect();
        assert_eq!(c[12], '4');
        assert!(matches!(c[16], '8' | '9' | 'a' | 'b'));
    }
}

#[test]
fn encoders_succeed_on_ordinary_input() {
    let tx = build_transaction(vec![1; 300], "0xffffffffffffffffffffffffffffffffff020009".to_string(), new_nonce(), 5, 9);
    let bytes = encode_transaction(&tx).unwrap();
    assert!(encode_signed(&bytes, &[1; 65]).is_ok());
}
