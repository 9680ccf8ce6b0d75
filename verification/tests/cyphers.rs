use k256::ecdsa::signature::Verifier;
use k256::ecdsa::{RecoveryId, VerifyingKey};
use minichain::block::Block;
use minichain::cyphers::{CypherErr, Encoder, PrivateKey, Signature};

#[test]
fn serd_signature() {
    let b = Block::new("prev_hash".into(), 0, 0, vec![]);
    let encoded_b = &b.encode().unwrap();

    let private_key = PrivateKey::generate().unwrap();
    let signature = private_key.sign(&encoded_b).unwrap();

    let ser = signature.as_bytes();
    let de = Signature::from_bytes(ser.clone());

    let last3_ser = &ser[ser.len() - 3..ser.len()];
    let last3_after_ser: &Vec<u8> = &de
        .as_bytes()
        .into_iter()
        .rev()
        .take(3)
        .rev()
        .collect();

    // assert: last 3 bytes, should all match.
    assert!(last3_ser == last3_after_ser);

    // assert: after serd signature is the same
    let pubk = private_key.public_key();
    let is_valid = pubk.verify(&de, &encoded_b);
    assert!(is_valid.is_ok())
}

#[test]
fn poc_recv_key() {
    let b = Block::new("prev_hash".into(), 0, 0, vec![]);
    let encoded_b = &b.encode().unwrap();

    let private_key = PrivateKey::generate().unwrap();
    let signature = private_key.sign(&encoded_b).unwrap();
    let ecdsa_sig = k256::ecdsa::Signature::from_slice(&signature.as_bytes()).unwrap();

    let recid = RecoveryId::try_from(1u8); // 0, 1 work
    let recovered_key =
        VerifyingKey::recover_from_msg(&encoded_b.as_slice()[..], &ecdsa_sig, recid.unwrap());
    if let Err(ref e) = recovered_key {
        println!("{:?}", &e);
        assert!(false)
    }

    let valid = recovered_key.unwrap().verify(&encoded_b[..], &ecdsa_sig);
    assert!(valid.is_ok());
}

#[test]
fn sign_block() {
    let b = Block::new("prev_hash".into(), 0, 0, vec![]);
    let encoded_b = &b.encode().unwrap();

    let private_key = PrivateKey::generate().unwrap();
    let signature = private_key.sign(&encoded_b).unwrap();
    assert_eq!(signature.as_bytes().is_empty(), false);

    let public_key = private_key.public_key();
    let result = public_key.verify(&signature, &encoded_b);
    assert!(result.is_ok());
}

#[test]
fn sign_verifies_and_tampering_fails() {
    let private_key = PrivateKey::generate().unwrap();
    let public_key = private_key.public_key();

    let payload = b"transfer 5 from a to b".to_vec();
    let signature = private_key.sign(&payload).unwrap();
    assert!(public_key.verify(&signature, &payload).is_ok());

    // Flip a single bit of the payload: verification must now fail.
    let mut tampered = payload.clone();
    tampered[0] ^= 0x01;
    let res = public_key.verify(&signature, &tampered);
    assert_eq!(res, Err(CypherErr::InvalidSignature));
}

#[test]
fn signature_bytes_round_trip() {
    let private_key = PrivateKey::generate().unwrap();
    let signature = private_key.sign(b"payload").unwrap();

    let bytes = signature.as_bytes();
    assert_eq!(bytes.len(), 64);
    let rebuilt = Signature::from_bytes(bytes.clone());
    assert_eq!(rebuilt.as_bytes(), bytes);
    assert_eq!(rebuilt.as_hex(), signature.as_hex());
}

#[test]
fn hex_encoding_is_exact() {
    let private_key = PrivateKey::generate().unwrap();
    let hex = private_key.as_hex();
    let bytes = private_key.as_bytes();
    assert_eq!(hex.len(), 64);
    let expected: String = bytes
        .iter()
        .map(|b| format!("{:02x}", b))
        .collect::<Vec<String>>()
        .join("");
    assert_eq!(hex, expected);
}

#[test]
fn verify_rejects_garbage_key_and_signature() {
    let private_key = PrivateKey::generate().unwrap();
    let public_key = private_key.public_key();

    // A signature that is not 64 bytes of valid scalars cannot verify.
    let bogus = Signature::from_bytes(vec![0u8; 64]);
    assert_eq!(
        public_key.verify(&bogus, b"data"),
        Err(CypherErr::InvalidSignature)
    );
}
