//! The protocol's state transitions, one handler per message kind, plus the
//! mining orchestration steps and the signing reply logic.
//!
//! Each handler mutates the [`Server`] state and returns the [`Action`]s the
//! surrounding process must perform. Answers only a collaborator can give
//! (transaction verdicts, proof of work, the signer's outcome) are taken as
//! arguments, so every decision here is verified for every such answer.

use vstd::prelude::*;
use vstd::string::StringExecFns;
use crate::messages::{
    Blockmsg, BlockmsgV, GetBlocksmsg, GetBlocksmsgV, GetDatamsg, GetDatamsgV, Invmsg, InvmsgV,
    Message, MessageV, SignRequestMsg, SignResponseMsg, SignResponseMsgV, Txmsg, TxmsgV,
    Versionmsg, VersionmsgV,
};
use crate::server::{
    spec_pool_has_id, spec_register, Action, ActionV, Server, ServerV, str_eq, PROTOCOL_VERSION,
};
use crate::types::{BlockV, Transaction, TransactionV};

verus! {

/// Why a message could not be handled; the connection that carried it is
/// abandoned and no reply is sent.
#[derive(Debug, PartialEq, Eq)]
pub enum HandleError {
    /// An `inv` frame that names a kind but carries no item.
    EmptyInv,
    /// A `getdata` request for a block hash the chain does not hold.
    UnknownBlock,
    /// A `getdata` request for a transaction id the mempool does not hold.
    MissingMempoolEntry,
}

/// The single send a handler addresses to `dest`, unless `dest` is this
/// node itself: a node never sends to its own address.
pub open spec fn spec_send(me: Seq<char>, dest: Seq<char>, m: MessageV) -> Seq<ActionV> {
    if dest == me {
        Seq::empty()
    } else {
        seq![ActionV::Send { dest, msg: m }]
    }
}

fn push_send(srv: &Server, out: &mut Vec<Action>, dest: &String, msg: Message)
    ensures
        final(out).deep_view() == old(out).deep_view() + spec_send(
            srv@.node_address,
            dest@,
            msg@,
        ),
{
    let ghost msgv = msg@;
    if !str_eq(dest.as_str(), srv.node_address().as_str()) {
        out.push(Action::Send { dest: dest.clone(), msg });
    }
    proof {
        assert(out.deep_view() =~= old(out).deep_view() + spec_send(
            srv@.node_address,
            dest@,
            msgv,
        ));
    }
}

// ---------------------------------------------------------------------------
// Version: the height-reconciliation handshake.
// ---------------------------------------------------------------------------

/// What a `version` message makes the node send back: `getblocks` when the
/// sender is ahead, its own `version` when the sender is behind, and its
/// peer list either way.
pub open spec fn spec_version_actions(s: ServerV, m: VersionmsgV) -> Seq<ActionV> {
    let me = s.node_address;
    let height_step = if s.best_height() < m.best_height as int {
        spec_send(me, m.addr_from, MessageV::GetBlock(GetBlocksmsgV { addr_from: me }))
    } else if s.best_height() > m.best_height as int {
        spec_send(
            me,
            m.addr_from,
            MessageV::Version(
                VersionmsgV {
                    addr_from: me,
                    version: PROTOCOL_VERSION,
                    best_height: (s.chain.len() - 1) as i32,
                },
            ),
        )
    } else {
        Seq::empty()
    };
    height_step + spec_send(me, m.addr_from, MessageV::Addr(s.known_nodes))
}

impl Server {
    /// Runs the height-reconciliation handshake for an incoming `version`
    /// and registers the sender if it was unknown.
    pub fn handle_version(&mut self, msg: &Versionmsg) -> (r: Vec<Action>)
        requires
            old(self)@.inv(),
        ensures
            final(self)@ == spec_register(old(self)@, msg@.addr_from),
            final(self)@.inv(),
            r.deep_view() == spec_version_actions(old(self)@, msg@),
    {
        let mut actions: Vec<Action> = Vec::new();
        let my_best_height = self.get_best_height();
        if my_best_height < msg.best_height {
            let gb = Message::GetBlock(
                GetBlocksmsg { addr_from: self.node_address().clone() },
            );
            push_send(self, &mut actions, &msg.addr_from, gb);
        } else if my_best_height > msg.best_height {
            let v = Message::Version(
                Versionmsg {
                    addr_from: self.node_address().clone(),
                    version: PROTOCOL_VERSION,
                    best_height: my_best_height,
                },
            );
            push_send(self, &mut actions, &msg.addr_from, v);
        }
        let nodes = self.get_known_nodes();
        push_send(self, &mut actions, &msg.addr_from, Message::Addr(nodes));
        proof {
            assert(actions.deep_view() =~= spec_version_actions(self@, msg@));
        }
        if !self.node_is_known(msg.addr_from.as_str()) {
            self.add_nodes(msg.addr_from.as_str());
        }
        actions
    }

    /// Merges every address of an `addr` message into the registry.
    pub fn handle_addr(&mut self, msg: &Vec<String>)
        requires
            old(self)@.inv(),
        ensures
            final(self)@ == spec_register_all(old(self)@, msg.deep_view()),
            final(self)@.inv(),
    {
        let mut i: usize = 0;
        while i < msg.len()
            invariant
                i <= msg@.len(),
                old(self)@.inv(),
                self@.inv(),
                self@ == spec_register_all(old(self)@, msg.deep_view().take(i as int)),
            decreases msg@.len() - i,
        {
            self.add_nodes(msg[i].as_str());
            i += 1;
            proof {
                let items = msg.deep_view();
                assert(items.take(i as int).drop_last() =~= items.take(i as int - 1));
                assert(items.take(i as int).last() == items[i as int - 1]);
            }
        }
        proof {
            assert(msg.deep_view().take(msg@.len() as int) =~= msg.deep_view());
        }
    }

    /// Accepts a received block: appends it to the chain, then either asks
    /// the sender for the next tracked block or, when the tracker is empty,
    /// calls for a UTXO reindex.
    pub fn handle_block(&mut self, msg: Blockmsg) -> (r: Vec<Action>)
        requires
            old(self)@.inv(),
            old(self)@.chain.len() + 1 < 0x7fff_ffff,
        ensures
            final(self)@ == (ServerV {
                chain: old(self)@.chain.push(msg@.block),
                blocks_in_transit: if old(self)@.blocks_in_transit.len() > 0 {
                    old(self)@.blocks_in_transit.drop_first()
                } else {
                    old(self)@.blocks_in_transit
                },
                ..old(self)@
            }),
            final(self)@.inv(),
            r.deep_view() == spec_block_actions(old(self)@, msg@),
    {
        let mut actions: Vec<Action> = Vec::new();
        self.add_block(msg.block);
        let in_transit = self.get_in_transit();
        if in_transit.len() > 0 {
            let gd = Message::GetData(
                GetDatamsg {
                    addr_from: self.node_address().clone(),
                    kind: String::from_str("block"),
                    id: in_transit[0].clone(),
                },
            );
            push_send(self, &mut actions, &msg.addr_from, gd);
            let mut rest: Vec<String> = Vec::new();
            let mut i: usize = 1;
            while i < in_transit.len()
                invariant
                    1 <= i <= in_transit@.len(),
                    rest@.len() == i - 1,
                    forall|j: int| 0 <= j < i - 1 ==> #[trigger] rest@[j]@ == in_transit@[j + 1]@,
                decreases in_transit@.len() - i,
            {
                rest.push(in_transit[i].clone());
                i += 1;
            }
            proof {
                assert(rest.deep_view() =~= in_transit.deep_view().drop_first());
            }
            self.replace_in_transit(rest);
        } else {
            actions.push(Action::Reindex);
        }
        proof {
            assert(actions.deep_view() =~= spec_block_actions(old(self)@, msg@));
            assert(self@ =~= (ServerV {
                chain: old(self)@.chain.push(msg@.block),
                blocks_in_transit: if old(self)@.blocks_in_transit.len() > 0 {
                    old(self)@.blocks_in_transit.drop_first()
                } else {
                    old(self)@.blocks_in_transit
                },
                ..old(self)@
            }));
        }
        actions
    }
}

/// Registering a list of addresses, first to last.
pub open spec fn spec_register_all(s: ServerV, items: Seq<Seq<char>>) -> ServerV
    decreases items.len(),
{
    if items.len() == 0 {
        s
    } else {
        spec_register(spec_register_all(s, items.drop_last()), items.last())
    }
}

/// What a received block makes the node send: a `getdata` for the next
/// tracked hash, or a reindex when the tracker has drained.
pub open spec fn spec_block_actions(s: ServerV, m: BlockmsgV) -> Seq<ActionV> {
    if s.blocks_in_transit.len() > 0 {
        spec_send(
            s.node_address,
            m.addr_from,
            MessageV::GetData(
                GetDatamsgV {
                    addr_from: s.node_address,
                    kind: "block"@,
                    id: s.blocks_in_transit[0],
                },
            ),
        )
    } else {
        seq![ActionV::Reindex]
    }
}

/// The items of an `inv` list with every copy of `h` dropped; order kept.
pub open spec fn spec_drop_matching(items: Seq<Seq<char>>, h: Seq<char>) -> Seq<Seq<char>>
    decreases items.len(),
{
    if items.len() == 0 {
        Seq::empty()
    } else {
        spec_drop_matching(items.drop_last(), h) + (if items.last() == h {
            Seq::empty()
        } else {
            seq![items.last()]
        })
    }
}

/// Whether a `tx` inventory for `tid` must be fetched: the mempool lacks
/// it, or the announced id is empty (a defensive guard).
pub open spec fn spec_wants_tx(pool: Seq<TransactionV>, tid: Seq<char>) -> bool {
    !spec_pool_has_id(pool, tid) || tid.len() == 0
}

/// Relaying a transaction announcement to every peer but this node and the
/// sender, in registry order.
pub open spec fn spec_relay_actions(
    nodes: Seq<Seq<char>>,
    me: Seq<char>,
    from: Seq<char>,
    txid: Seq<char>,
) -> Seq<ActionV>
    decreases nodes.len(),
{
    if nodes.len() == 0 {
        Seq::empty()
    } else {
        spec_relay_actions(nodes.drop_last(), me, from, txid) + (if nodes.last() != me
            && nodes.last() != from {
            seq![
                ActionV::Send {
                    dest: nodes.last(),
                    msg: MessageV::Inv(
                        InvmsgV { addr_from: me, kind: "tx"@, items: seq![txid] },
                    ),
                },
            ]
        } else {
            Seq::empty()
        })
    }
}

impl Server {
    /// Reacts to an inventory announcement: for blocks, requests the first
    /// item and tracks the rest; for transactions, requests the item unless
    /// the mempool already holds it.
    pub fn handle_inv(&mut self, msg: &Invmsg) -> (r: Result<Vec<Action>, HandleError>)
        requires
            old(self)@.inv(),
        ensures
            final(self)@.inv(),
            match r {
                Ok(actions) => if msg@.kind == "block"@ {
                    &&& msg@.items.len() > 0
                    &&& final(self)@ == (ServerV {
                        blocks_in_transit: spec_drop_matching(msg@.items, msg@.items[0]),
                        ..old(self)@
                    })
                    &&& actions.deep_view() == spec_send(
                        old(self)@.node_address,
                        msg@.addr_from,
                        MessageV::GetData(
                            GetDatamsgV {
                                addr_from: old(self)@.node_address,
                                kind: "block"@,
                                id: msg@.items[0],
                            },
                        ),
                    )
                } else if msg@.kind == "tx"@ {
                    &&& msg@.items.len() > 0
                    &&& *final(self) == *old(self)
                    &&& actions.deep_view() == (if spec_wants_tx(old(self)@.mempool, msg@.items[0]) {
                        spec_send(
                            old(self)@.node_address,
                            msg@.addr_from,
                            MessageV::GetData(
                                GetDatamsgV {
                                    addr_from: old(self)@.node_address,
                                    kind: "tx"@,
                                    id: msg@.items[0],
                                },
                            ),
                        )
                    } else {
                        Seq::<ActionV>::empty()
                    })
                } else {
                    *final(self) == *old(self) && actions.deep_view() == Seq::<ActionV>::empty()
                },
                Err(e) => {
                    &&& e == HandleError::EmptyInv
                    &&& *final(self) == *old(self)
                    &&& (msg@.kind == "block"@ || msg@.kind == "tx"@)
                    &&& msg@.items.len() == 0
                },
            },
    {
        if str_eq(msg.kind.as_str(), "block") {
            if msg.items.len() == 0 {
                return Err(HandleError::EmptyInv);
            }
            let mut actions: Vec<Action> = Vec::new();
            let gd = Message::GetData(
                GetDatamsg {
                    addr_from: self.node_address().clone(),
                    kind: String::from_str("block"),
                    id: msg.items[0].clone(),
                },
            );
            push_send(self, &mut actions, &msg.addr_from, gd);
            let mut new_in_transit: Vec<String> = Vec::new();
            let mut i: usize = 0;
            while i < msg.items.len()
                invariant
                    i <= msg.items@.len(),
                    msg.items@.len() > 0,
                    new_in_transit.deep_view() == spec_drop_matching(
                        msg@.items.take(i as int),
                        msg@.items[0],
                    ),
                decreases msg.items@.len() - i,
            {
                proof {
                    assert(msg@.items.take(i as int + 1).drop_last() =~= msg@.items.take(i as int));
                    assert(msg@.items.take(i as int + 1).last() == msg@.items[i as int]);
                }
                if !str_eq(msg.items[i].as_str(), msg.items[0].as_str()) {
                    new_in_transit.push(msg.items[i].clone());
                }
                i += 1;
                proof {
                    assert(new_in_transit.deep_view() =~= spec_drop_matching(
                        msg@.items.take(i as int),
                        msg@.items[0],
                    ));
                }
            }
            proof {
                assert(msg@.items.take(msg.items@.len() as int) =~= msg@.items);
            }
            self.replace_in_transit(new_in_transit);
            Ok(actions)
        } else if str_eq(msg.kind.as_str(), "tx") {
            if msg.items.len() == 0 {
                return Err(HandleError::EmptyInv);
            }
            let mut actions: Vec<Action> = Vec::new();
            let txid = &msg.items[0];
            let wanted = match self.get_mempool_tx(txid.as_str()) {
                Option::Some(tx) => tx.id.as_str().is_empty(),
                Option::None => true,
            };
            if wanted {
                let gd = Message::GetData(
                    GetDatamsg {
                        addr_from: self.node_address().clone(),
                        kind: String::from_str("tx"),
                        id: txid.clone(),
                    },
                );
                push_send(self, &mut actions, &msg.addr_from, gd);
            }
            proof {
                assert(actions.deep_view() =~= (if spec_wants_tx(self@.mempool, msg@.items[0]) {
                    spec_send(
                        self@.node_address,
                        msg@.addr_from,
                        MessageV::GetData(
                            GetDatamsgV {
                                addr_from: self@.node_address,
                                kind: "tx"@,
                                id: msg@.items[0],
                            },
                        ),
                    )
                } else {
                    Seq::<ActionV>::empty()
                }));
            }
            Ok(actions)
        } else {
            Ok(Vec::new())
        }
    }

    /// Answers `getblocks` with an inventory of every block hash held.
    pub fn handle_get_blocks(&self, msg: &GetBlocksmsg) -> (r: Vec<Action>)
        ensures
            r.deep_view() == spec_send(
                self@.node_address,
                msg@.addr_from,
                MessageV::Inv(
                    InvmsgV {
                        addr_from: self@.node_address,
                        kind: "block"@,
                        items: self@.chain.map_values(|b: BlockV| b.hash),
                    },
                ),
            ),
    {
        let block_hashs = self.get_block_hashs();
        let inv = Message::Inv(
            Invmsg {
                addr_from: self.node_address().clone(),
                kind: String::from_str("block"),
                items: block_hashs,
            },
        );
        let mut actions: Vec<Action> = Vec::new();
        push_send(self, &mut actions, &msg.addr_from, inv);
        actions
    }

    /// Answers `getdata` with the named block or mempool transaction; a
    /// request for data this node does not hold is an error.
    pub fn handle_get_data(&self, msg: &GetDatamsg) -> (r: Result<Vec<Action>, HandleError>)
        ensures
            match r {
                Ok(actions) => if msg@.kind == "block"@ {
                    exists|bv: BlockV|
                        self@.chain.contains(bv) && bv.hash == msg@.id && actions.deep_view()
                            == spec_send(
                            self@.node_address,
                            msg@.addr_from,
                            MessageV::Block(
                                BlockmsgV { addr_from: self@.node_address, block: bv },
                            ),
                        )
                } else if msg@.kind == "tx"@ {
                    exists|tv: TransactionV|
                        self@.mempool.contains(tv) && tv.id == msg@.id && actions.deep_view()
                            == spec_send(
                            self@.node_address,
                            msg@.addr_from,
                            MessageV::Tx(TxmsgV { addr_from: self@.node_address, transaction: tv }),
                        )
                } else {
                    actions.deep_view() == Seq::<ActionV>::empty()
                },
                Err(e) => {
                    ||| (e == HandleError::UnknownBlock && msg@.kind == "block"@ && !(exists|i: int|
                        0 <= i < self@.chain.len() && self@.chain[i].hash == msg@.id))
                    ||| (e == HandleError::MissingMempoolEntry && msg@.kind == "tx"@
                        && !spec_pool_has_id(self@.mempool, msg@.id))
                },
            },
            r is Err <==> (if msg@.kind == "block"@ {
                !(exists|i: int| 0 <= i < self@.chain.len() && self@.chain[i].hash == msg@.id)
            } else if msg@.kind == "tx"@ {
                !spec_pool_has_id(self@.mempool, msg@.id)
            } else {
                false
            }),
    {
        if str_eq(msg.kind.as_str(), "block") {
            match self.get_block(msg.id.as_str()) {
                Option::Some(block) => {
                    let ghost bv = block@;
                    let bm = Message::Block(
                        Blockmsg { addr_from: self.node_address().clone(), block },
                    );
                    let mut actions: Vec<Action> = Vec::new();
                    push_send(self, &mut actions, &msg.addr_from, bm);
                    Ok(actions)
                },
                Option::None => Err(HandleError::UnknownBlock),
            }
        } else if str_eq(msg.kind.as_str(), "tx") {
            match self.get_mempool_tx(msg.id.as_str()) {
                Option::Some(tx) => {
                    let ghost tv = tx@;
                    let tm = Message::Tx(Txmsg { addr_from: self.node_address().clone(), transaction: tx });
                    let mut actions: Vec<Action> = Vec::new();
                    push_send(self, &mut actions, &msg.addr_from, tm);
                    Ok(actions)
                },
                Option::None => Err(HandleError::MissingMempoolEntry),
            }
        } else {
            Ok(Vec::new())
        }
    }

    /// Accepts a transaction: stores it in the mempool, relays an inventory
    /// to every other peer, and reports whether a mining burst should start
    /// (a mining address is configured).
    pub fn handle_tx(&mut self, msg: &Txmsg) -> (r: (Vec<Action>, bool))
        requires
            old(self)@.inv(),
        ensures
            final(self)@.inv(),
            !spec_pool_has_id(old(self)@.mempool, msg@.transaction.id) ==> final(self)@
                == (ServerV { mempool: old(self)@.mempool.push(msg@.transaction), ..old(self)@ }),
            spec_pool_has_id(old(self)@.mempool, msg@.transaction.id) ==> exists|i: int|
                0 <= i < old(self)@.mempool.len() && old(self)@.mempool[i].id
                    == msg@.transaction.id && final(self)@ == (ServerV {
                    mempool: old(self)@.mempool.update(i, msg@.transaction),
                    ..old(self)@
                }),
            spec_pool_has_id(final(self)@.mempool, msg@.transaction.id),
            r.0.deep_view() == spec_relay_actions(
                old(self)@.known_nodes,
                old(self)@.node_address,
                msg@.addr_from,
                msg@.transaction.id,
            ),
            r.1 == (old(self)@.mining_address.len() > 0),
    {
        self.insert_mempool(msg.transaction.clone_tx());
        let ghost s1 = self@;
        let known_nodes = self.get_known_nodes();
        let mut actions: Vec<Action> = Vec::new();
        let mut i: usize = 0;
        while i < known_nodes.len()
            invariant
                i <= known_nodes@.len(),
                self@ == s1,
                known_nodes.deep_view() == s1.known_nodes,
                actions.deep_view() == spec_relay_actions(
                    s1.known_nodes.take(i as int),
                    s1.node_address,
                    msg@.addr_from,
                    msg@.transaction.id,
                ),
            decreases known_nodes@.len() - i,
        {
            proof {
                assert(s1.known_nodes.take(i as int + 1).drop_last() =~= s1.known_nodes.take(
                    i as int,
                ));
                assert(s1.known_nodes.take(i as int + 1).last() == s1.known_nodes[i as int]);
            }
            let node = &known_nodes[i];
            if !str_eq(node.as_str(), self.node_address().as_str()) && !str_eq(
                node.as_str(),
                msg.addr_from.as_str(),
            ) {
                let mut items: Vec<String> = Vec::new();
                items.push(msg.transaction.id.clone());
                proof {
                    assert(items.deep_view() =~= seq![msg@.transaction.id]);
                }
                let inv = Message::Inv(
                    Invmsg {
                        addr_from: self.node_address().clone(),
                        kind: String::from_str("tx"),
                        items,
                    },
                );
                actions.push(Action::Send { dest: node.clone(), msg: inv });
            }
            i += 1;
            proof {
                assert(actions.deep_view() =~= spec_relay_actions(
                    s1.known_nodes.take(i as int),
                    s1.node_address,
                    msg@.addr_from,
                    msg@.transaction.id,
                ));
            }
        }
        proof {
            assert(s1.known_nodes.take(s1.known_nodes.len() as int) =~= s1.known_nodes);
            assert(s1.known_nodes == old(self)@.known_nodes);
            assert(s1.node_address == old(self)@.node_address);
        }
        let should_mine = !self.mining_address().as_str().is_empty();
        (actions, should_mine)
    }
}

// ---------------------------------------------------------------------------
// Mining orchestration. A burst runs in rounds: the driver hands each round
// the ledger's verdicts on a working copy of the mempool; the round mines
// the passing transactions plus a coinbase and drops them from the copy.
// The burst ends when nothing verifies or the copy drains; the real mempool
// is cleared exactly when at least one block was mined.
// ---------------------------------------------------------------------------

/// The transactions whose verdict is `true`, in order.
pub open spec fn spec_select(txs: Seq<TransactionV>, verdicts: Seq<bool>) -> Seq<TransactionV>
    decreases txs.len(),
{
    if txs.len() == 0 {
        Seq::empty()
    } else {
        spec_select(txs.drop_last(), verdicts.drop_last()) + (if verdicts.last() {
            seq![txs.last()]
        } else {
            Seq::empty()
        })
    }
}

/// The pool entries whose id is not among `mined`, in order.
pub open spec fn spec_drop_ids(
    pool: Seq<TransactionV>,
    mined: Seq<TransactionV>,
) -> Seq<TransactionV>
    decreases pool.len(),
{
    if pool.len() == 0 {
        Seq::empty()
    } else {
        spec_drop_ids(pool.drop_last(), mined) + (if spec_pool_has_id(mined, pool.last().id) {
            Seq::empty()
        } else {
            seq![pool.last()]
        })
    }
}

/// Sending one message to every registered peer but this node itself.
pub open spec fn spec_broadcast(nodes: Seq<Seq<char>>, me: Seq<char>, m: MessageV) -> Seq<ActionV>
    decreases nodes.len(),
{
    if nodes.len() == 0 {
        Seq::empty()
    } else {
        spec_broadcast(nodes.drop_last(), me, m) + (if nodes.last() == me {
            Seq::empty()
        } else {
            seq![ActionV::Send { dest: nodes.last(), msg: m }]
        })
    }
}

/// Copies a vector of transactions.
fn clone_txs(v: &Vec<Transaction>) -> (r: Vec<Transaction>)
    ensures
        r.deep_view() == v.deep_view(),
{
    let mut out: Vec<Transaction> = Vec::new();
    let mut i: usize = 0;
    while i < v.len()
        invariant
            i <= v@.len(),
            out@.len() == i,
            forall|j: int| 0 <= j < i ==> #[trigger] out@[j]@ == v@[j]@,
        decreases v@.len() - i,
    {
        out.push(v[i].clone_tx());
        i += 1;
    }
    proof {
        assert(out.deep_view() =~= v.deep_view());
    }
    out
}

/// Whether the list holds a transaction with this id.
fn txs_contain_id(txs: &Vec<Transaction>, id: &str) -> (r: bool)
    ensures
        r == spec_pool_has_id(txs.deep_view(), id@),
{
    let mut i: usize = 0;
    while i < txs.len()
        invariant
            i <= txs@.len(),
            forall|j: int| 0 <= j < i ==> #[trigger] txs.deep_view()[j].id != id@,
        decreases txs@.len() - i,
    {
        if str_eq(txs[i].id.as_str(), id) {
            proof {
                assert(txs.deep_view()[i as int].id == id@);
            }
            return true;
        }
        i += 1;
    }
    false
}

/// Keeps the transactions of a mining round's working copy that passed the
/// ledger's verification, in order.
pub fn mining_candidates(txs: &Vec<Transaction>, verdicts: &Vec<bool>) -> (r: Vec<Transaction>)
    requires
        verdicts@.len() == txs@.len(),
    ensures
        r.deep_view() == spec_select(txs.deep_view(), verdicts@),
{
    let mut out: Vec<Transaction> = Vec::new();
    let mut i: usize = 0;
    while i < txs.len()
        invariant
            i <= txs@.len(),
            verdicts@.len() == txs@.len(),
            out.deep_view() == spec_select(txs.deep_view().take(i as int), verdicts@.take(i as int)),
        decreases txs@.len() - i,
    {
        proof {
            assert(txs.deep_view().take(i as int + 1).drop_last() =~= txs.deep_view().take(
                i as int,
            ));
            assert(verdicts@.take(i as int + 1).drop_last() =~= verdicts@.take(i as int));
            assert(txs.deep_view().take(i as int + 1).last() == txs.deep_view()[i as int]);
            assert(verdicts@.take(i as int + 1).last() == verdicts@[i as int]);
        }
        if verdicts[i] {
            out.push(txs[i].clone_tx());
        }
        i += 1;
        proof {
            assert(out.deep_view() =~= spec_select(
                txs.deep_view().take(i as int),
                verdicts@.take(i as int),
            ));
        }
    }
    proof {
        assert(txs.deep_view().take(txs@.len() as int) =~= txs.deep_view());
        assert(verdicts@.take(verdicts@.len() as int) =~= verdicts@);
    }
    out
}

impl Server {
    /// Commits one mining round: appends the block mined from the verified
    /// transactions plus the coinbase under the externally computed `hash`,
    /// drops the mined ids from the burst's working copy, and returns the
    /// reindex plus the block inventory broadcast to every other peer.
    pub fn mining_commit(
        &mut self,
        working: &mut Vec<Transaction>,
        verified: &Vec<Transaction>,
        coinbase: Transaction,
        hash: String,
    ) -> (r: Vec<Action>)
        requires
            old(self)@.inv(),
            old(self)@.chain.len() + 1 < 0x7fff_ffff,
        ensures
            final(self)@ == (ServerV {
                chain: old(self)@.chain.push(
                    BlockV { hash: hash@, txs: verified.deep_view().push(coinbase@) },
                ),
                ..old(self)@
            }),
            final(self)@.inv(),
            final(working).deep_view() == spec_drop_ids(
                old(working).deep_view(),
                verified.deep_view().push(coinbase@),
            ),
            r.deep_view() == seq![ActionV::Reindex] + spec_broadcast(
                old(self)@.known_nodes,
                old(self)@.node_address,
                MessageV::Inv(
                    InvmsgV {
                        addr_from: old(self)@.node_address,
                        kind: "block"@,
                        items: seq![hash@],
                    },
                ),
            ),
    {
        let mut txs = clone_txs(verified);
        txs.push(coinbase);
        proof {
            assert(txs.deep_view() =~= verified.deep_view().push(txs.deep_view().last()));
        }
        let mut rest: Vec<Transaction> = Vec::new();
        let mut i: usize = 0;
        while i < working.len()
            invariant
                i <= working@.len(),
                txs.deep_view() == verified.deep_view().push(txs.deep_view().last()),
                rest.deep_view() == spec_drop_ids(
                    working.deep_view().take(i as int),
                    txs.deep_view(),
                ),
            decreases working@.len() - i,
        {
            proof {
                assert(working.deep_view().take(i as int + 1).drop_last()
                    =~= working.deep_view().take(i as int));
                assert(working.deep_view().take(i as int + 1).last() == working.deep_view()[
                    i as int
                ]);
            }
            if !txs_contain_id(&txs, working[i].id.as_str()) {
                rest.push(working[i].clone_tx());
            }
            i += 1;
            proof {
                assert(rest.deep_view() =~= spec_drop_ids(
                    working.deep_view().take(i as int),
                    txs.deep_view(),
                ));
            }
        }
        proof {
            assert(working.deep_view().take(working@.len() as int) =~= working.deep_view());
        }
        *working = rest;
        let new_block = self.mine_block(txs, hash);
        let ghost s1 = self@;
        let ghost invv = MessageV::Inv(
            InvmsgV { addr_from: s1.node_address, kind: "block"@, items: seq![new_block@.hash] },
        );
        let nodes = self.get_known_nodes();
        let mut sends: Vec<Action> = Vec::new();
        let mut i: usize = 0;
        while i < nodes.len()
            invariant
                i <= nodes@.len(),
                self@ == s1,
                nodes.deep_view() == s1.known_nodes,
                invv == MessageV::Inv(
                    InvmsgV {
                        addr_from: s1.node_address,
                        kind: "block"@,
                        items: seq![new_block@.hash],
                    },
                ),
                sends.deep_view() == spec_broadcast(
                    s1.known_nodes.take(i as int),
                    s1.node_address,
                    invv,
                ),
            decreases nodes@.len() - i,
        {
            proof {
                assert(s1.known_nodes.take(i as int + 1).drop_last() =~= s1.known_nodes.take(
                    i as int,
                ));
                assert(s1.known_nodes.take(i as int + 1).last() == s1.known_nodes[i as int]);
            }
            let node = &nodes[i];
            if !str_eq(node.as_str(), self.node_address().as_str()) {
                let mut items: Vec<String> = Vec::new();
                items.push(new_block.hash.clone());
                proof {
                    assert(items.deep_view() =~= seq![new_block@.hash]);
                }
                let m = Message::Inv(
                    Invmsg {
                        addr_from: self.node_address().clone(),
                        kind: String::from_str("block"),
                        items,
                    },
                );
                proof {
                    assert(m@ == invv);
                }
                sends.push(Action::Send { dest: node.clone(), msg: m });
            }
            i += 1;
            proof {
                assert(sends.deep_view() =~= spec_broadcast(
                    s1.known_nodes.take(i as int),
                    s1.node_address,
                    invv,
                ));
            }
        }
        let mut actions: Vec<Action> = Vec::new();
        actions.push(Action::Reindex);
        actions.append(&mut sends);
        proof {
            assert(s1.known_nodes.take(s1.known_nodes.len() as int) =~= s1.known_nodes);
            assert(s1.known_nodes == old(self)@.known_nodes);
            assert(s1.node_address == old(self)@.node_address);
            assert(actions.deep_view() =~= seq![ActionV::Reindex] + spec_broadcast(
                old(self)@.known_nodes,
                old(self)@.node_address,
                invv,
            ));
        }
        actions
    }

    /// Ends a mining burst: the real mempool is cleared exactly when the
    /// burst mined at least one block; a burst that mined nothing leaves it
    /// untouched.
    pub fn end_mining_burst(&mut self, mined_any: bool)
        ensures
            final(self)@ == (ServerV {
                mempool: if mined_any {
                    Seq::<TransactionV>::empty()
                } else {
                    old(self)@.mempool
                },
                ..old(self)@
            }),
    {
        if mined_any {
            self.clear_mempool();
        }
        proof {
            assert(self@ =~= (ServerV {
                mempool: if mined_any {
                    Seq::<TransactionV>::empty()
                } else {
                    old(self)@.mempool
                },
                ..old(self)@
            }));
        }
    }
}

// ---------------------------------------------------------------------------
// Outbound requests and the bootstrap decision.
// ---------------------------------------------------------------------------

/// What the startup task does: ask every peer for blocks when the chain is
/// empty, else advertise this node's version to the first known peer.
pub open spec fn spec_bootstrap_actions(s: ServerV) -> Seq<ActionV> {
    if s.chain.len() == 0 {
        spec_broadcast(
            s.known_nodes,
            s.node_address,
            MessageV::GetBlock(GetBlocksmsgV { addr_from: s.node_address }),
        )
    } else if s.known_nodes.len() > 0 {
        spec_send(
            s.node_address,
            s.known_nodes[0],
            MessageV::Version(
                VersionmsgV {
                    addr_from: s.node_address,
                    version: PROTOCOL_VERSION,
                    best_height: (s.chain.len() - 1) as i32,
                },
            ),
        )
    } else {
        Seq::empty()
    }
}

impl Server {
    /// Asks every registered peer for its blocks.
    pub fn request_blocks(&self) -> (r: Vec<Action>)
        ensures
            r.deep_view() == spec_broadcast(
                self@.known_nodes,
                self@.node_address,
                MessageV::GetBlock(GetBlocksmsgV { addr_from: self@.node_address }),
            ),
    {
        let ghost s1 = self@;
        let ghost gbv = MessageV::GetBlock(GetBlocksmsgV { addr_from: s1.node_address });
        let nodes = self.get_known_nodes();
        let mut sends: Vec<Action> = Vec::new();
        let mut i: usize = 0;
        while i < nodes.len()
            invariant
                i <= nodes@.len(),
                s1 == self@,
                nodes.deep_view() == s1.known_nodes,
                gbv == MessageV::GetBlock(GetBlocksmsgV { addr_from: s1.node_address }),
                sends.deep_view() == spec_broadcast(
                    s1.known_nodes.take(i as int),
                    s1.node_address,
                    gbv,
                ),
            decreases nodes@.len() - i,
        {
            proof {
                assert(s1.known_nodes.take(i as int + 1).drop_last() =~= s1.known_nodes.take(
                    i as int,
                ));
                assert(s1.known_nodes.take(i as int + 1).last() == s1.known_nodes[i as int]);
            }
            let node = &nodes[i];
            if !str_eq(node.as_str(), self.node_address().as_str()) {
                let m = Message::GetBlock(
                    GetBlocksmsg { addr_from: self.node_address().clone() },
                );
                proof {
                    assert(m@ == gbv);
                }
                sends.push(Action::Send { dest: node.clone(), msg: m });
            }
            i += 1;
            proof {
                assert(sends.deep_view() =~= spec_broadcast(
                    s1.known_nodes.take(i as int),
                    s1.node_address,
                    gbv,
                ));
            }
        }
        proof {
            assert(s1.known_nodes.take(s1.known_nodes.len() as int) =~= s1.known_nodes);
        }
        sends
    }

    /// The startup task's decision: catch up when this node holds no chain,
    /// else greet the first known peer with this node's version.
    pub fn bootstrap_actions(&self) -> (r: Vec<Action>)
        requires
            self@.inv(),
        ensures
            r.deep_view() == spec_bootstrap_actions(self@),
    {
        let best_height = self.get_best_height();
        if best_height == -1 {
            self.request_blocks()
        } else {
            let nodes = self.get_known_nodes();
            let mut actions: Vec<Action> = Vec::new();
            if nodes.len() > 0 {
                let v = Message::Version(
                    Versionmsg {
                        addr_from: self.node_address().clone(),
                        version: PROTOCOL_VERSION,
                        best_height,
                    },
                );
                push_send(self, &mut actions, &nodes[0], v);
            }
            proof {
                assert(actions.deep_view() =~= spec_bootstrap_actions(self@));
            }
            actions
        }
    }

    /// The send that announces a transaction to one peer.
    pub fn send_tx(&self, addr: &str, tx: &Transaction) -> (r: Vec<Action>)
        ensures
            r.deep_view() == spec_send(
                self@.node_address,
                addr@,
                MessageV::Tx(TxmsgV { addr_from: self@.node_address, transaction: tx@ }),
            ),
    {
        let m = Message::Tx(
            Txmsg { addr_from: self.node_address().clone(), transaction: tx.clone_tx() },
        );
        let mut actions: Vec<Action> = Vec::new();
        push_send(self, &mut actions, &String::from_str(addr), m);
        actions
    }

    /// Builds the one-shot transaction announcement that a client sends to
    /// `target_addr`, speaking as a throwaway node.
    pub fn send_transaction(tx: &Transaction, target_addr: &str) -> (r: Vec<Action>)
        ensures
            r.deep_view() == spec_send(
                "0.0.0.0"@ + seq![':'] + "7000"@,
                target_addr@,
                MessageV::Tx(
                    TxmsgV { addr_from: "0.0.0.0"@ + seq![':'] + "7000"@, transaction: tx@ },
                ),
            ),
    {
        let server = Server::new("0.0.0.0", "7000", "", Option::None, Vec::new());
        server.send_tx(target_addr, tx)
    }
}

// ---------------------------------------------------------------------------
// Remote signing: the reply a node prepares for a `signreq`, and how the
// requesting client reads the reply frame.
// ---------------------------------------------------------------------------

/// What the signer collaborator reported for a signing request.
pub enum SignerOutcome {
    /// The signed transaction.
    Signed(Transaction),
    /// The signer's error message.
    Failed(String),
}

/// Why the signing round trip failed on the client side; connection and
/// timeout failures are reported by the caller that does the reading.
#[derive(Debug, PartialEq, Eq)]
pub enum RpcError {
    /// The peer closed the connection without a reply.
    EmptyResponse,
    /// The reply did not decode as a wire frame.
    MalformedResponse,
    /// The reply decoded as something other than a `signres`.
    UnexpectedResponse,
    /// The peer answered `signres` with `success == false`; carries its
    /// error message.
    SignRefused(String),
}

impl Server {
    /// Prepares the exactly-one reply to a signing request, given whether
    /// the wallet store holds the named wallet and, when it does, what the
    /// signer reported. A missing wallet or a signer failure becomes an
    /// unsuccessful response carrying the reason; success carries the
    /// signed transaction.
    pub fn prepare_sign_response(
        &self,
        msg: &SignRequestMsg,
        wallet_found: bool,
        outcome: SignerOutcome,
    ) -> (r: SignResponseMsg)
        ensures
            !wallet_found ==> r@ == (SignResponseMsgV {
                addr_from: self@.node_address,
                transaction: msg@.transaction,
                success: false,
                error_message: "Wallet not found: "@ + msg@.address,
            }),
            wallet_found ==> match outcome {
                SignerOutcome::Signed(t) => r@ == (SignResponseMsgV {
                    addr_from: self@.node_address,
                    transaction: t@,
                    success: true,
                    error_message: Seq::<char>::empty(),
                }),
                SignerOutcome::Failed(e) => r@ == (SignResponseMsgV {
                    addr_from: self@.node_address,
                    transaction: msg@.transaction,
                    success: false,
                    error_message: "Signing error: "@ + e@,
                }),
            },
    {
        if !wallet_found {
            let mut error_message = String::from_str("Wallet not found: ");
            error_message.append(msg.address.as_str());
            SignResponseMsg {
                addr_from: self.node_address().clone(),
                transaction: msg.transaction.clone_tx(),
                success: false,
                error_message,
            }
        } else {
            match outcome {
                SignerOutcome::Signed(t) => SignResponseMsg {
                    addr_from: self.node_address().clone(),
                    transaction: t,
                    success: true,
                    error_message: String::new(),
                },
                SignerOutcome::Failed(e) => {
                    let mut error_message = String::from_str("Signing error: ");
                    error_message.append(e.as_str());
                    SignResponseMsg {
                        addr_from: self.node_address().clone(),
                        transaction: msg.transaction.clone_tx(),
                        success: false,
                        error_message,
                    }
                },
            }
        }
    }
}

/// Reads the reply frame of a signing round trip: an empty reply, a frame
/// that does not decode, and a frame of any other kind are each a distinct
/// error; a `signres` either refuses with the peer's message or yields the
/// signed transaction unchanged.
pub fn parse_sign_reply(bytes: &[u8]) -> (r: Result<Transaction, RpcError>)
    ensures
        bytes@.len() == 0 ==> r == Result::<Transaction, RpcError>::Err(RpcError::EmptyResponse),
        bytes@.len() > 0 ==> match crate::codec::spec_decode(bytes@) {
            Option::Some(m) => match m {
                MessageV::SignResponse(s) => if s.success {
                    r matches Ok(t) && t@ == s.transaction
                } else {
                    r matches Err(e) && e matches RpcError::SignRefused(em) && em@
                        == s.error_message
                },
                _ => r == Result::<Transaction, RpcError>::Err(RpcError::UnexpectedResponse),
            },
            Option::None => r == Result::<Transaction, RpcError>::Err(
                RpcError::MalformedResponse,
            ),
        },
{
    if bytes.len() == 0 {
        return Result::Err(RpcError::EmptyResponse);
    }
    match crate::codec::bytes_to_cmd(bytes) {
        Result::Err(_) => Result::Err(RpcError::MalformedResponse),
        Result::Ok(Message::SignResponse(s)) => {
            if s.success {
                Result::Ok(s.transaction)
            } else {
                Result::Err(RpcError::SignRefused(s.error_message))
            }
        },
        Result::Ok(_) => Result::Err(RpcError::UnexpectedResponse),
    }
}

} // verus!
