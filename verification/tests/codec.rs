use minichain::block::Block;
use minichain::cyphers::{Decoder, Encoder};
use minichain::transaction::{Transaction, TransactionData, TxBuilder, TxBuilderErr};

#[test]
fn test_encode_block() {
    // TODO: -
    let encoding = Block::new(String::from("prev_hash"), 1990, 0, vec![]);
    let encoded = &encoding.encode();
    println!("{:?}", encoded);

    let _ = encoding.decode(encoded.as_ref().unwrap()).map(|decoded| {
        println!("decoded block----- {:?}", decoded);
    });
    assert!(true);
}

#[test]
fn block_round_trip_is_lossless() {
    let tx = TxBuilder::new("alice".to_string(), "bob".to_string(), 7)
        .inputs(vec![])
        .outputs(vec![])
        .build()
        .unwrap();
    let mut block = Block::new("prev".to_string(), 42, 3, vec![tx]);
    block.gen_hash();

    let encoded = block.encode().unwrap();
    let decoded = *block.decode(&encoded).unwrap();

    assert_eq!(decoded.header.time_stamp, block.header.time_stamp);
    assert_eq!(decoded.header.nonce, block.header.nonce);
    assert_eq!(decoded.hash(), block.hash());
    assert_eq!(decoded.transactions.len(), 1);
    assert_eq!(decoded.transactions[0].data, block.transactions[0].data);
    assert_eq!(decoded.transactions[0].trx_id, block.transactions[0].trx_id);
}

#[test]
fn transaction_round_trip_is_lossless() {
    let mut tx = TxBuilder::new("sénder-ünïcode".to_string(), "受信者".to_string(), u64::MAX)
        .inputs(vec![])
        .outputs(vec![])
        .build()
        .unwrap();
    tx.trx_id = "tx-0001-ßeta".to_string();

    let encoded = tx.encode().unwrap();
    let decoded: Transaction = *tx.decode(&encoded).unwrap();
    assert_eq!(decoded.trx_id, tx.trx_id);
    assert_eq!(decoded.data, tx.data);
    assert!(decoded.signature.is_none());

    // The payload decodes back to the fields the builder was given.
    let data = TransactionData::decode(&tx.data).unwrap();
    assert_eq!(data.sender_addr, "sénder-ünïcode");
    assert_eq!(data.receiver_addr, "受信者");
    assert_eq!(data.value, u64::MAX);
    assert_eq!(data.inputs.len(), 0);
    assert_eq!(data.outputs.len(), 0);
}

#[test]
fn transaction_with_nested_references_round_trips() {
    let inner = TxBuilder::new("a".to_string(), "b".to_string(), 1)
        .inputs(vec![])
        .outputs(vec![])
        .build()
        .unwrap();
    let outer = TxBuilder::new("c".to_string(), "d".to_string(), 2)
        .inputs(vec![inner.clone()])
        .outputs(vec![inner.clone(), inner.clone()])
        .build()
        .unwrap();

    let data = TransactionData::decode(&outer.data).unwrap();
    assert_eq!(data.inputs.len(), 1);
    assert_eq!(data.outputs.len(), 2);
    assert_eq!(data.inputs[0].data, inner.data);
    assert_eq!(data.outputs[1].data, inner.data);
}

#[test]
fn decode_rejects_corrupt_bytes() {
    let tx = TxBuilder::new("a".to_string(), "b".to_string(), 1)
        .inputs(vec![])
        .outputs(vec![])
        .build()
        .unwrap();

    assert!(tx.decode(&vec![]).is_err());
    assert!(tx.decode(&vec![0xde, 0xad, 0xbe, 0xef]).is_err());
    assert!(TransactionData::decode(&vec![0xff; 4]).is_none());

    // Truncating a valid encoding breaks it.
    let mut encoded = tx.encode().unwrap();
    encoded.truncate(encoded.len() - 1);
    assert!(tx.decode(&encoded).is_err());
}

#[test]
fn builder_requires_inputs_then_outputs() {
    let r = TxBuilder::new("s".to_string(), "r".to_string(), 5).build();
    assert!(matches!(r, Err(TxBuilderErr::RequiredInputs)));

    let r = TxBuilder::new("s".to_string(), "r".to_string(), 5)
        .inputs(vec![])
        .build();
    assert!(matches!(r, Err(TxBuilderErr::RequiredOutputs)));

    let r = TxBuilder::new("s".to_string(), "r".to_string(), 5)
        .inputs(vec![])
        .outputs(vec![])
        .build();
    let tx = r.unwrap();
    assert!(tx.signature.is_none());
    assert_eq!(tx.trx_id, "");
}

#[test]
fn block_hash_is_deterministic_and_tamper_sensitive() {
    let mut block = Block::new("prev".to_string(), 9, 2, vec![]);
    let h1 = block.gen_hash();
    let h2 = block.gen_hash();
    assert_eq!(h1, h2);
    assert_eq!(h1.len(), 64);
    assert_eq!(block.hash(), h1);

    // Mutating any header field changes the hash.
    block.header.nonce = 10;
    let h3 = block.gen_hash();
    assert_ne!(h1, h3);

    block.header.time_stamp += 1;
    let h4 = block.gen_hash();
    assert_ne!(h3, h4);
}
