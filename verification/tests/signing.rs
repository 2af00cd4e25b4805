use chain_node::codec::encode_message;
use chain_node::handlers::{parse_sign_reply, RpcError, SignerOutcome};
use chain_node::messages::{GetBlocksmsg, Message, SignRequestMsg};
use chain_node::server::Server;
use chain_node::types::Transaction;

fn tx(id: &str, body: &[u8]) -> Transaction {
    Transaction { id: id.to_string(), body: body.to_vec() }
}

fn request() -> SignRequestMsg {
    SignRequestMsg {
        addr_from: "client:1".to_string(),
        address: "w1".to_string(),
        transaction: tx("t1", &[1, 2]),
    }
}

#[test]
fn missing_wallet_yields_failure_response() {
    let server = Server::new("127.0.0.1", "7000", "", None, Vec::new());
    let resp = server.prepare_sign_response(
        &request(),
        false,
        SignerOutcome::Failed(String::new()),
    );
    assert!(!resp.success);
    assert_eq!(resp.error_message, "Wallet not found: w1");
    assert_eq!(resp.transaction, tx("t1", &[1, 2]));
    assert_eq!(resp.addr_from, "127.0.0.1:7000");
}

#[test]
fn signer_failure_yields_failure_response_with_its_message() {
    let server = Server::new("127.0.0.1", "7000", "", None, Vec::new());
    let resp = server.prepare_sign_response(
        &request(),
        true,
        SignerOutcome::Failed("key rejected".to_string()),
    );
    assert!(!resp.success);
    assert_eq!(resp.error_message, "Signing error: key rejected");
    assert_eq!(resp.transaction, tx("t1", &[1, 2]));
}

#[test]
fn signer_success_round_trips_the_signed_transaction() {
    let server = Server::new("127.0.0.1", "7000", "", None, Vec::new());
    let signed = tx("t1", &[1, 2, 77, 78]);
    let resp = server.prepare_sign_response(&request(), true, SignerOutcome::Signed(signed));
    assert!(resp.success);
    assert_eq!(resp.error_message, "");
    let wire = encode_message(&Message::SignResponse(resp));
    let got = parse_sign_reply(&wire).expect("a successful reply must parse");
    assert_eq!(got, tx("t1", &[1, 2, 77, 78]));
}

#[test]
fn refusal_reply_carries_the_peer_message() {
    let server = Server::new("127.0.0.1", "7000", "", None, Vec::new());
    let resp = server.prepare_sign_response(
        &request(),
        true,
        SignerOutcome::Failed("boom".to_string()),
    );
    let wire = encode_message(&Message::SignResponse(resp));
    assert_eq!(
        parse_sign_reply(&wire),
        Err(RpcError::SignRefused("Signing error: boom".to_string()))
    );
}

#[test]
fn empty_reply_is_its_own_error() {
    assert_eq!(parse_sign_reply(&[]), Err(RpcError::EmptyResponse));
}

#[test]
fn garbage_reply_is_malformed() {
    assert_eq!(parse_sign_reply(&[1, 2, 3, 4]), Err(RpcError::MalformedResponse));
}

#[test]
fn reply_of_another_kind_is_unexpected() {
    let wire = encode_message(&Message::GetBlock(GetBlocksmsg { addr_from: "p:1".to_string() }));
    assert_eq!(parse_sign_reply(&wire), Err(RpcError::UnexpectedResponse));
}
