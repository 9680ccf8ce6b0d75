use minichain::cyphers::{Decoder, Encoder};
use minichain::transaction::Transaction;
use minichain::wallet::Wallet;

// give a better test name.
#[test]
fn wallet() {
    let w = Wallet::new(vec![]).unwrap();
    let trx_result = w.create_transaction("recv_hex".to_string(), 1);
    println!("{:?}", &trx_result);
    assert!(trx_result.is_ok());

    let mut trx = trx_result.unwrap();
    let signing_result = w.sign_data(&mut trx.data.as_slice());
    println!("{:?}", &signing_result);
    assert!(signing_result.is_ok());

    trx.signature = Some(signing_result.unwrap());

    // Before:
    // trx serialize: verify trx data - valid
    let clone_signature = trx.signature.clone();
    let valid = w
        .public_key()
        .verify(&clone_signature.unwrap(), &trx.data[..]);
    assert!(valid.is_ok());

    // After:
    // - trx serialize then deserialize back to Transaction struct (is trx's data valid ?)
    let clone_trx = trx.clone();
    let ser_trx_result = clone_trx.encode();
    assert!(ser_trx_result.is_ok());

    let de_trx: Transaction = *clone_trx.decode(&ser_trx_result.unwrap()).expect("de_trx");
    let after_valid = w
        .public_key()
        .verify(&de_trx.signature.unwrap(), &de_trx.data);
    assert!(after_valid.is_ok());
}

#[test]
fn wallet_address_is_hex_of_public_key_prefix() {
    let w = Wallet::new(vec![]).unwrap();
    let pk = w.public_key().as_bytes();
    assert!(pk.len() >= 20);
    let expected: String = pk[0..20]
        .iter()
        .map(|b| format!("{:02x}", b))
        .collect::<Vec<String>>()
        .join("");
    assert_eq!(w.address, expected);
    assert_eq!(w.address.len(), 40);
}
