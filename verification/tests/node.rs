use chain_node::handlers::{mining_candidates, HandleError};
use chain_node::messages::{Blockmsg, GetBlocksmsg, GetDatamsg, Invmsg, Message, Txmsg, Versionmsg};
use chain_node::server::{Action, Server};
use chain_node::types::{Block, Transaction};

fn tx(id: &str) -> Transaction {
    Transaction { id: id.to_string(), body: vec![0xab] }
}

fn block(hash: &str, txs: Vec<Transaction>) -> Block {
    Block { hash: hash.to_string(), txs }
}

fn chain_of(height: i32) -> Vec<Block> {
    let mut chain = Vec::new();
    let mut i: i32 = 0;
    while i <= height {
        chain.push(block(&format!("h{}", i), Vec::new()));
        i += 1;
    }
    chain
}

fn dests(actions: &[Action]) -> Vec<String> {
    actions
        .iter()
        .filter_map(|a| match a {
            Action::Send { dest, .. } => Some(dest.clone()),
            Action::Reindex => None,
        })
        .collect()
}

#[test]
fn registry_add_is_idempotent() {
    let mut server = Server::new("127.0.0.1", "7000", "", None, Vec::new());
    server.add_nodes("peer:1");
    server.add_nodes("peer:1");
    assert_eq!(server.get_known_nodes(), vec!["peer:1".to_string()]);
    assert!(server.node_is_known("peer:1"));
}

#[test]
fn registry_remove_unknown_is_noop() {
    let mut server = Server::new("127.0.0.1", "7000", "", Some("peer:1"), Vec::new());
    server.remove_node("stranger:9");
    assert_eq!(server.get_known_nodes(), vec!["peer:1".to_string()]);
    server.remove_node("peer:1");
    assert!(server.get_known_nodes().is_empty());
}

#[test]
fn version_from_taller_peer_asks_for_blocks() {
    let mut server = Server::new("127.0.0.1", "7000", "", None, chain_of(5));
    assert_eq!(server.get_best_height(), 5);
    let actions = server.handle_version(&Versionmsg {
        addr_from: "remote:1".to_string(),
        version: 1,
        best_height: 10,
    });
    assert_eq!(actions.len(), 2);
    match &actions[0] {
        Action::Send { dest, msg: Message::GetBlock(GetBlocksmsg { addr_from }) } => {
            assert_eq!(dest, "remote:1");
            assert_eq!(addr_from, "127.0.0.1:7000");
        }
        other => panic!("expected a getblocks send, got {:?}", other),
    }
    match &actions[1] {
        Action::Send { dest, msg: Message::Addr(nodes) } => {
            assert_eq!(dest, "remote:1");
            assert!(nodes.is_empty());
        }
        other => panic!("expected an addr send, got {:?}", other),
    }
    assert!(server.node_is_known("remote:1"));
}

#[test]
fn version_from_shorter_peer_answers_with_version() {
    let mut server = Server::new("127.0.0.1", "7000", "", None, chain_of(10));
    let actions = server.handle_version(&Versionmsg {
        addr_from: "remote:1".to_string(),
        version: 1,
        best_height: 5,
    });
    assert_eq!(actions.len(), 2);
    match &actions[0] {
        Action::Send { dest, msg: Message::Version(v) } => {
            assert_eq!(dest, "remote:1");
            assert_eq!(v.best_height, 10);
            assert_eq!(v.addr_from, "127.0.0.1:7000");
        }
        other => panic!("expected a version send, not a getblocks: {:?}", other),
    }
}

#[test]
fn block_receipt_pipelines_next_request() {
    let mut server = Server::new("127.0.0.1", "7000", "", None, Vec::new());
    server.replace_in_transit(vec!["h1".to_string(), "h2".to_string(), "h3".to_string()]);
    let actions = server.handle_block(Blockmsg {
        addr_from: "peer:1".to_string(),
        block: block("bnew", Vec::new()),
    });
    assert_eq!(server.get_in_transit(), vec!["h2".to_string(), "h3".to_string()]);
    assert_eq!(actions.len(), 1);
    match &actions[0] {
        Action::Send { dest, msg: Message::GetData(g) } => {
            assert_eq!(dest, "peer:1");
            assert_eq!(g.kind, "block");
            assert_eq!(g.id, "h1");
        }
        other => panic!("expected a getdata send, got {:?}", other),
    }
}

#[test]
fn block_receipt_with_empty_tracker_reindexes() {
    let mut server = Server::new("127.0.0.1", "7000", "", None, Vec::new());
    let actions = server.handle_block(Blockmsg {
        addr_from: "peer:1".to_string(),
        block: block("bnew", Vec::new()),
    });
    assert_eq!(actions, vec![Action::Reindex]);
    assert!(server.get_block("bnew").is_some());
}

#[test]
fn inv_of_blocks_tracks_remainder() {
    let mut server = Server::new("127.0.0.1", "7000", "", None, Vec::new());
    let actions = server
        .handle_inv(&Invmsg {
            addr_from: "peer:1".to_string(),
            kind: "block".to_string(),
            items: vec!["h1".to_string(), "h2".to_string(), "h3".to_string()],
        })
        .unwrap();
    assert_eq!(server.get_in_transit(), vec!["h2".to_string(), "h3".to_string()]);
    assert_eq!(dests(&actions), vec!["peer:1".to_string()]);
}

#[test]
fn inv_of_known_tx_is_ignored() {
    let mut server = Server::new("127.0.0.1", "7000", "", None, Vec::new());
    server.insert_mempool(tx("t1"));
    let actions = server
        .handle_inv(&Invmsg {
            addr_from: "peer:1".to_string(),
            kind: "tx".to_string(),
            items: vec!["t1".to_string()],
        })
        .unwrap();
    assert!(actions.is_empty());
    let actions = server
        .handle_inv(&Invmsg {
            addr_from: "peer:1".to_string(),
            kind: "tx".to_string(),
            items: vec!["t2".to_string()],
        })
        .unwrap();
    assert_eq!(dests(&actions), vec!["peer:1".to_string()]);
}

#[test]
fn get_blocks_answers_with_all_hashes() {
    let server = Server::new("127.0.0.1", "7000", "", None, chain_of(2));
    let actions = server.handle_get_blocks(&GetBlocksmsg { addr_from: "peer:1".to_string() });
    assert_eq!(actions.len(), 1);
    match &actions[0] {
        Action::Send { dest, msg: Message::Inv(inv) } => {
            assert_eq!(dest, "peer:1");
            assert_eq!(inv.kind, "block");
            assert_eq!(inv.items, vec!["h0".to_string(), "h1".to_string(), "h2".to_string()]);
        }
        other => panic!("expected an inv send, got {:?}", other),
    }
}

#[test]
fn get_data_serves_blocks_and_mempool_txs() {
    let mut server = Server::new("127.0.0.1", "7000", "", None, chain_of(1));
    server.insert_mempool(tx("t1"));
    let ok = server
        .handle_get_data(&GetDatamsg {
            addr_from: "peer:1".to_string(),
            kind: "block".to_string(),
            id: "h1".to_string(),
        })
        .unwrap();
    assert_eq!(ok.len(), 1);
    let missing = server.handle_get_data(&GetDatamsg {
        addr_from: "peer:1".to_string(),
        kind: "block".to_string(),
        id: "absent".to_string(),
    });
    assert_eq!(missing, Err(HandleError::UnknownBlock));
    let missing_tx = server.handle_get_data(&GetDatamsg {
        addr_from: "peer:1".to_string(),
        kind: "tx".to_string(),
        id: "t9".to_string(),
    });
    assert_eq!(missing_tx, Err(HandleError::MissingMempoolEntry));
}

#[test]
fn tx_relay_skips_self_and_sender() {
    let mut server = Server::new("127.0.0.1", "7000", "", None, Vec::new());
    server.add_nodes("127.0.0.1:7000");
    server.add_nodes("p:1");
    server.add_nodes("q:1");
    server.add_nodes("r:1");
    let (actions, should_mine) = server.handle_tx(&Txmsg {
        addr_from: "p:1".to_string(),
        transaction: tx("t1"),
    });
    assert!(!should_mine);
    assert_eq!(dests(&actions), vec!["q:1".to_string(), "r:1".to_string()]);
    for a in &actions {
        match a {
            Action::Send { msg: Message::Inv(inv), .. } => {
                assert_eq!(inv.kind, "tx");
                assert_eq!(inv.items, vec!["t1".to_string()]);
            }
            other => panic!("expected an inv send, got {:?}", other),
        }
    }
    assert!(server.get_mempool_tx("t1").is_some());
}

#[test]
fn mining_burst_mines_valid_txs_and_clears_mempool() {
    let mut server = Server::new("127.0.0.1", "7000", "miner-addr", None, Vec::new());
    server.add_nodes("127.0.0.1:7000");
    server.add_nodes("p:1");
    server.add_nodes("q:1");
    let (_, should_mine) = server.handle_tx(&Txmsg {
        addr_from: "p:1".to_string(),
        transaction: tx("t1"),
    });
    assert!(should_mine);
    server.insert_mempool(tx("t2"));

    // The burst, as the driver runs it: t1 verifies, t2 does not.
    let mut working = server.get_mempool();
    let verdicts = vec![true, false];
    let verified = mining_candidates(&working, &verdicts);
    assert_eq!(verified, vec![tx("t1")]);
    let coinbase = Transaction { id: "cb1".to_string(), body: Vec::new() };
    let actions = server.mining_commit(&mut working, &verified, coinbase, "mined1".to_string());

    // Exactly one block, holding t1 and the coinbase.
    assert_eq!(server.get_block_hashs(), vec!["mined1".to_string()]);
    let mined = server.get_block("mined1").unwrap();
    assert_eq!(mined.txs.len(), 2);
    assert_eq!(mined.txs[0].id, "t1");
    assert_eq!(mined.txs[1].id, "cb1");

    // One reindex, then the block inventory to every peer but this node.
    assert_eq!(actions[0], Action::Reindex);
    assert_eq!(dests(&actions), vec!["p:1".to_string(), "q:1".to_string()]);

    // The next round verifies nothing, so the burst ends; one block was
    // mined, so the real mempool is cleared.
    assert_eq!(working, vec![tx("t2")]);
    let verified2 = mining_candidates(&working, &vec![false]);
    assert!(verified2.is_empty());
    server.end_mining_burst(true);
    assert!(server.get_mempool().is_empty());
}

#[test]
fn mining_burst_without_any_valid_tx_keeps_mempool() {
    let mut server = Server::new("127.0.0.1", "7000", "miner-addr", None, Vec::new());
    server.insert_mempool(tx("t1"));
    let working = server.get_mempool();
    let verified = mining_candidates(&working, &vec![false]);
    assert!(verified.is_empty());
    server.end_mining_burst(false);
    assert_eq!(server.get_mempool(), vec![tx("t1")]);
}

#[test]
fn bootstrap_with_empty_chain_requests_blocks() {
    let server = Server::new("127.0.0.1", "7000", "", Some("boot:1"), Vec::new());
    let actions = server.bootstrap_actions();
    assert_eq!(dests(&actions), vec!["boot:1".to_string()]);
    match &actions[0] {
        Action::Send { msg: Message::GetBlock(_), .. } => {}
        other => panic!("expected a getblocks send, got {:?}", other),
    }
}

#[test]
fn bootstrap_with_chain_greets_first_peer() {
    let server = Server::new("127.0.0.1", "7000", "", Some("boot:1"), chain_of(3));
    let actions = server.bootstrap_actions();
    assert_eq!(actions.len(), 1);
    match &actions[0] {
        Action::Send { dest, msg: Message::Version(v) } => {
            assert_eq!(dest, "boot:1");
            assert_eq!(v.best_height, 3);
        }
        other => panic!("expected a version send, got {:?}", other),
    }
}

#[test]
fn send_transaction_targets_the_peer() {
    let actions = Server::send_transaction(&tx("t1"), "peer:9");
    assert_eq!(actions.len(), 1);
    match &actions[0] {
        Action::Send { dest, msg: Message::Tx(t) } => {
            assert_eq!(dest, "peer:9");
            assert_eq!(t.addr_from, "0.0.0.0:7000");
            assert_eq!(t.transaction, tx("t1"));
        }
        other => panic!("expected a tx send, got {:?}", other),
    }
}

#[test]
fn no_send_is_addressed_to_the_node_itself() {
    let mut server = Server::new("127.0.0.1", "7000", "", None, Vec::new());
    let actions = server.handle_version(&Versionmsg {
        addr_from: "127.0.0.1:7000".to_string(),
        version: 1,
        best_height: 10,
    });
    assert!(actions.is_empty());
}
