use chain_node::codec::{bytes_to_cmd, cmd_to_bytes, encode_message, CodecError};
use chain_node::messages::{
    Blockmsg, GetBlocksmsg, GetDatamsg, Invmsg, Message, SignRequestMsg, SignResponseMsg, Txmsg,
    Versionmsg,
};
use chain_node::server::Server;
use chain_node::types::{Block, Transaction};

fn tx(id: &str, body: &[u8]) -> Transaction {
    Transaction { id: id.to_string(), body: body.to_vec() }
}

fn round_trip(msg: Message) -> Message {
    let bytes = encode_message(&msg);
    bytes_to_cmd(&bytes).expect("a freshly encoded frame must decode")
}

#[test]
fn test_cmd() {
    let server = Server::new("localhost", "7878", "", None, Vec::new());
    let vmsg = Versionmsg {
        addr_from: server.node_address().clone(),
        best_height: server.get_best_height(),
        version: 1,
    };
    let data = encode_message(&Message::Version(Versionmsg {
        addr_from: vmsg.addr_from.clone(),
        best_height: vmsg.best_height,
        version: vmsg.version,
    }));
    let tag = cmd_to_bytes("version");
    assert_eq!(&data[..12], &tag[..]);
    if let Ok(Message::Version(v)) = bytes_to_cmd(&data) {
        assert_eq!(v, vmsg);
    } else {
        panic!("wrong!");
    }
}

#[test]
fn round_trip_addr() {
    let msg = Message::Addr(vec!["a:1".to_string(), "b:2".to_string(), String::new()]);
    assert_eq!(round_trip(msg), Message::Addr(vec!["a:1".to_string(), "b:2".to_string(), String::new()]));
}

#[test]
fn round_trip_version() {
    let msg = Message::Version(Versionmsg {
        addr_from: "host:9000".to_string(),
        version: 1,
        best_height: -1,
    });
    let back = round_trip(msg);
    if let Message::Version(v) = back {
        assert_eq!(v.addr_from, "host:9000");
        assert_eq!(v.version, 1);
        assert_eq!(v.best_height, -1);
    } else {
        panic!("decoded as the wrong kind");
    }
}

#[test]
fn round_trip_tx() {
    let msg = Message::Tx(Txmsg { addr_from: "p:1".to_string(), transaction: tx("t9", &[0, 1, 255]) });
    let back = round_trip(msg);
    assert_eq!(
        back,
        Message::Tx(Txmsg { addr_from: "p:1".to_string(), transaction: tx("t9", &[0, 1, 255]) })
    );
}

#[test]
fn round_trip_get_data() {
    let msg = Message::GetData(GetDatamsg {
        addr_from: "p:1".to_string(),
        kind: "block".to_string(),
        id: "h1".to_string(),
    });
    let back = round_trip(msg);
    assert_eq!(
        back,
        Message::GetData(GetDatamsg {
            addr_from: "p:1".to_string(),
            kind: "block".to_string(),
            id: "h1".to_string(),
        })
    );
}

#[test]
fn round_trip_get_blocks() {
    let msg = Message::GetBlock(GetBlocksmsg { addr_from: "p:1".to_string() });
    assert_eq!(round_trip(msg), Message::GetBlock(GetBlocksmsg { addr_from: "p:1".to_string() }));
}

#[test]
fn round_trip_inv() {
    let msg = Message::Inv(Invmsg {
        addr_from: "p:1".to_string(),
        kind: "tx".to_string(),
        items: vec!["t1".to_string(), "t2".to_string()],
    });
    let back = round_trip(msg);
    assert_eq!(
        back,
        Message::Inv(Invmsg {
            addr_from: "p:1".to_string(),
            kind: "tx".to_string(),
            items: vec!["t1".to_string(), "t2".to_string()],
        })
    );
}

#[test]
fn round_trip_block() {
    let block = Block { hash: "h7".to_string(), txs: vec![tx("t1", &[1]), tx("t2", &[])] };
    let msg = Message::Block(Blockmsg { addr_from: "p:1".to_string(), block });
    let back = round_trip(msg);
    if let Message::Block(b) = back {
        assert_eq!(b.addr_from, "p:1");
        assert_eq!(b.block.hash, "h7");
        assert_eq!(b.block.txs, vec![tx("t1", &[1]), tx("t2", &[])]);
    } else {
        panic!("decoded as the wrong kind");
    }
}

#[test]
fn round_trip_sign_request() {
    let msg = Message::SignRequest(SignRequestMsg {
        addr_from: "p:1".to_string(),
        address: "wallet-a".to_string(),
        transaction: tx("t3", &[9, 9]),
    });
    let back = round_trip(msg);
    assert_eq!(
        back,
        Message::SignRequest(SignRequestMsg {
            addr_from: "p:1".to_string(),
            address: "wallet-a".to_string(),
            transaction: tx("t3", &[9, 9]),
        })
    );
}

#[test]
fn round_trip_sign_response() {
    let msg = Message::SignResponse(SignResponseMsg {
        addr_from: "p:1".to_string(),
        transaction: tx("t3", &[9]),
        success: false,
        error_message: "no such wallet".to_string(),
    });
    let back = round_trip(msg);
    assert_eq!(
        back,
        Message::SignResponse(SignResponseMsg {
            addr_from: "p:1".to_string(),
            transaction: tx("t3", &[9]),
            success: false,
            error_message: "no such wallet".to_string(),
        })
    );
}

#[test]
fn unknown_tag_fails_decode() {
    let mut bytes = cmd_to_bytes("nonsense");
    assert_eq!(bytes.len(), 12);
    bytes.extend_from_slice(&[1, 2, 3]);
    assert_eq!(bytes_to_cmd(&bytes), Err(CodecError::UnknownCommand));
}

#[test]
fn short_frame_fails_decode() {
    assert_eq!(bytes_to_cmd(&[1, 2, 3]), Err(CodecError::TooShort));
}

#[test]
fn malformed_payload_fails_decode() {
    let mut bytes = cmd_to_bytes("version");
    bytes.extend_from_slice(&[7, 7, 7]);
    assert_eq!(bytes_to_cmd(&bytes), Err(CodecError::BadPayload));
}

#[test]
fn trailing_bytes_fail_decode() {
    let mut bytes = encode_message(&Message::GetBlock(GetBlocksmsg { addr_from: "p:1".to_string() }));
    bytes.push(0);
    assert_eq!(bytes_to_cmd(&bytes), Err(CodecError::BadPayload));
}

#[test]
fn round_trip_keeps_text_beyond_ascii() {
    let msg = Message::GetData(GetDatamsg {
        addr_from: "h\u{f4}te:7000".to_string(),
        kind: "tx".to_string(),
        id: "tx-\u{2603}-\u{10348}".to_string(),
    });
    let back = round_trip(msg);
    if let Message::GetData(g) = back {
        assert_eq!(g.addr_from, "h\u{f4}te:7000");
        assert_eq!(g.id, "tx-\u{2603}-\u{10348}");
    } else {
        panic!("decoded as the wrong kind");
    }
}

#[test]
fn tag_is_nul_padded() {
    let tag = cmd_to_bytes("tx");
    assert_eq!(tag, vec![b't', b'x', 0, 0, 0, 0, 0, 0, 0, 0, 0, 0]);
}
