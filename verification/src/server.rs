//! The node's shared state and its accessors: the peer registry, the
//! block-sync tracker, the mempool and the chain model, owned by [`Server`].
//!
//! Handlers (see the `handlers` module) mutate this state and return
//! [`Action`] lists; the surrounding process performs the sends and the
//! UTXO reindexing they call for.

use vstd::prelude::*;
use vstd::string::StringExecFns;
use vstd::utf8::{encode_utf8, encode_utf8_decode_utf8};
use crate::messages::{Message, MessageV};
use crate::types::{Block, BlockV, Transaction, TransactionV};

verus! {

/// The protocol version this node advertises.
pub const PROTOCOL_VERSION: i32 = 1;

/// An effect a handler asks the surrounding process to perform.
#[derive(Debug, PartialEq)]
pub enum Action {
    /// Send the encoded message to the peer at `dest`.
    Send { dest: String, msg: Message },
    /// Rebuild the unspent-output index.
    Reindex,
}

pub enum ActionV {
    Send { dest: Seq<char>, msg: MessageV },
    Reindex,
}

impl View for Action {
    type V = ActionV;

    open spec fn view(&self) -> ActionV {
        match self {
            Action::Send { dest, msg } => ActionV::Send { dest: dest@, msg: msg@ },
            Action::Reindex => ActionV::Reindex,
        }
    }
}

impl DeepView for Action {
    type V = ActionV;

    open spec fn deep_view(&self) -> ActionV {
        self.view()
    }
}

/// Compares two string slices by value.
pub fn str_eq(a: &str, b: &str) -> (r: bool)
    ensures
        r == (a@ == b@),
{
    let ab = a.as_bytes();
    let bb = b.as_bytes();
    if ab.len() != bb.len() {
        return false;
    }
    let mut i: usize = 0;
    while i < ab.len()
        invariant
            i <= ab@.len(),
            ab@ == encode_utf8(a@),
            bb@ == encode_utf8(b@),
            ab@.len() == bb@.len(),
            forall|j: int| 0 <= j < i ==> ab@[j] == bb@[j],
        decreases ab@.len() - i,
    {
        if ab[i] != bb[i] {
            return false;
        }
        i += 1;
    }
    proof {
        assert(ab@ =~= bb@);
        encode_utf8_decode_utf8(a@);
        encode_utf8_decode_utf8(b@);
    }
    true
}

/// Copies a vector of strings.
pub fn clone_strings(v: &Vec<String>) -> (r: Vec<String>)
    ensures
        r@ == v@,
        r.deep_view() == v.deep_view(),
{
    let mut out: Vec<String> = Vec::new();
    let mut i: usize = 0;
    while i < v.len()
        invariant
            i <= v@.len(),
            out@ == v@.take(i as int),
        decreases v@.len() - i,
    {
        out.push(v[i].clone());
        proof {
            assert(out@ =~= v@.take(i as int + 1));
        }
        i += 1;
    }
    proof {
        assert(out@ =~= v@);
        assert(out.deep_view() =~= v.deep_view());
    }
    out
}

/// Mathematical value of a [`Server`].
#[verifier::ext_equal]
pub struct ServerV {
    pub node_address: Seq<char>,
    pub mining_address: Seq<char>,
    pub known_nodes: Seq<Seq<char>>,
    pub blocks_in_transit: Seq<Seq<char>>,
    pub mempool: Seq<TransactionV>,
    pub chain: Seq<BlockV>,
}

/// The node core: its identity, the peer registry, the block-sync tracker,
/// the mempool, and the model of the chain the ledger collaborator holds.
pub struct Server {
    node_address: String,
    mining_address: String,
    known_nodes: Vec<String>,
    blocks_in_transit: Vec<String>,
    mempool: Vec<Transaction>,
    chain: Vec<Block>,
}

impl View for Server {
    type V = ServerV;

    closed spec fn view(&self) -> ServerV {
        ServerV {
            node_address: self.node_address@,
            mining_address: self.mining_address@,
            known_nodes: self.known_nodes.deep_view(),
            blocks_in_transit: self.blocks_in_transit.deep_view(),
            mempool: self.mempool.deep_view(),
            chain: self.chain.deep_view(),
        }
    }
}

/// Whether a transaction with this id is in the pool.
pub open spec fn spec_pool_has_id(pool: Seq<TransactionV>, id: Seq<char>) -> bool {
    exists|i: int| 0 <= i < pool.len() && pool[i].id == id
}

impl ServerV {
    /// The registry holds no address twice, the mempool holds no id twice,
    /// and the chain height fits an `i32`.
    pub open spec fn inv(self) -> bool {
        &&& forall|i: int, j: int|
            0 <= i < j < self.known_nodes.len() ==> #[trigger] self.known_nodes[i]
                != #[trigger] self.known_nodes[j]
        &&& forall|i: int, j: int|
            0 <= i < j < self.mempool.len() ==> #[trigger] self.mempool[i].id
                != #[trigger] self.mempool[j].id
        &&& self.chain.len() < 0x7fff_ffff
    }

    /// The node's best height: the index of the chain tip, `-1` when empty.
    pub open spec fn best_height(self) -> int {
        self.chain.len() - 1
    }
}

/// Registering an address: a no-op when known, appended otherwise.
pub open spec fn spec_register(s: ServerV, a: Seq<char>) -> ServerV {
    if s.known_nodes.contains(a) {
        s
    } else {
        ServerV { known_nodes: s.known_nodes.push(a), ..s }
    }
}

/// Registering the same address twice is registering it once.
pub proof fn lemma_register_idempotent(s: ServerV, a: Seq<char>)
    ensures
        spec_register(spec_register(s, a), a) == spec_register(s, a),
{
    if !s.known_nodes.contains(a) {
        assert(s.known_nodes.push(a)[s.known_nodes.len() as int] == a);
        assert(spec_register(s, a).known_nodes.contains(a));
    }
}

impl Server {
    /// Builds a node for `host:port`. The registry starts with the optional
    /// bootstrap peer; tracker and mempool start empty; `chain` is the
    /// current ledger contents.
    pub fn new(
        host: &str,
        port: &str,
        miner_address: &str,
        bootstrap: Option<&str>,
        chain: Vec<Block>,
    ) -> (r: Server)
        requires
            chain@.len() < 0x7fff_ffff,
        ensures
            r@.node_address == host@ + seq![':'] + port@,
            r@.mining_address == miner_address@,
            r@.known_nodes == match bootstrap {
                Option::None => Seq::<Seq<char>>::empty(),
                Option::Some(b) => seq![b@],
            },
            r@.blocks_in_transit == Seq::<Seq<char>>::empty(),
            r@.mempool == Seq::<TransactionV>::empty(),
            r@.chain == chain.deep_view(),
            r@.inv(),
    {
        let mut node_address = String::from_str(host);
        node_address.append(":");
        node_address.append(port);
        proof {
            reveal_strlit(":");
            assert(":"@ =~= seq![':']);
            assert(node_address@ =~= host@ + seq![':'] + port@);
        }
        let mut known_nodes: Vec<String> = Vec::new();
        match bootstrap {
            Option::Some(bn) => {
                known_nodes.push(String::from_str(bn));
                proof {
                    assert(known_nodes.deep_view() =~= seq![bn@]);
                }
            },
            Option::None => {
                proof {
                    assert(known_nodes.deep_view() =~= Seq::<Seq<char>>::empty());
                }
            },
        }
        let r = Server {
            node_address,
            mining_address: String::from_str(miner_address),
            known_nodes,
            blocks_in_transit: Vec::new(),
            mempool: Vec::new(),
            chain,
        };
        proof {
            assert(r@.blocks_in_transit =~= Seq::<Seq<char>>::empty());
            assert(r@.mempool =~= Seq::<TransactionV>::empty());
        }
        r
    }

    /// This node's own `host:port` identity.
    pub fn node_address(&self) -> (r: &String)
        ensures
            r@ == self@.node_address,
    {
        &self.node_address
    }

    /// The configured mining beneficiary address; empty when mining is off.
    pub fn mining_address(&self) -> (r: &String)
        ensures
            r@ == self@.mining_address,
    {
        &self.mining_address
    }

    /// Whether `addr` is in the peer registry.
    pub fn node_is_known(&self, addr: &str) -> (r: bool)
        ensures
            r == self@.known_nodes.contains(addr@),
    {
        let mut i: usize = 0;
        while i < self.known_nodes.len()
            invariant
                i <= self.known_nodes@.len(),
                forall|j: int| 0 <= j < i ==> self@.known_nodes[j] != addr@,
            decreases self.known_nodes@.len() - i,
        {
            if str_eq(self.known_nodes[i].as_str(), addr) {
                proof {
                    assert(self@.known_nodes[i as int] == addr@);
                }
                return true;
            }
            i += 1;
        }
        false
    }

    /// Registers `addr`: a no-op when already known.
    pub fn add_nodes(&mut self, addr: &str)
        requires
            old(self)@.inv(),
        ensures
            final(self)@ == spec_register(old(self)@, addr@),
            final(self)@.inv(),
    {
        if !self.node_is_known(addr) {
            self.known_nodes.push(String::from_str(addr));
            proof {
                assert(self@.known_nodes =~= old(self)@.known_nodes.push(addr@));
                assert(self@ =~= spec_register(old(self)@, addr@));
            }
        }
    }

    /// Evicts `addr` from the registry; a no-op when it is not there.
    pub fn remove_node(&mut self, addr: &str)
        requires
            old(self)@.inv(),
        ensures
            final(self)@.inv(),
            !old(self)@.known_nodes.contains(addr@) ==> *final(self) == *old(self),
            old(self)@.known_nodes.contains(addr@) ==> exists|i: int|
                0 <= i < old(self)@.known_nodes.len() && old(self)@.known_nodes[i] == addr@
                    && final(self)@ == (ServerV {
                    known_nodes: old(self)@.known_nodes.remove(i),
                    ..old(self)@
                }),
            !final(self)@.known_nodes.contains(addr@),
            final(self)@.mining_address == old(self)@.mining_address,
            final(self)@.node_address == old(self)@.node_address,
            final(self)@.blocks_in_transit == old(self)@.blocks_in_transit,
            final(self)@.mempool == old(self)@.mempool,
            final(self)@.chain == old(self)@.chain,
    {
        let mut i: usize = 0;
        while i < self.known_nodes.len()
            invariant
                i <= self.known_nodes@.len(),
                *self == *old(self),
                old(self)@.inv(),
                forall|j: int| 0 <= j < i ==> self@.known_nodes[j] != addr@,
            decreases self.known_nodes@.len() - i,
        {
            if str_eq(self.known_nodes[i].as_str(), addr) {
                let ghost gi = i as int;
                let ghost nodes0 = self@.known_nodes;
                proof {
                    assert(nodes0[gi] == addr@);
                }
                self.known_nodes.remove(i);
                proof {
                    nodes0.remove_ensures(gi);
                    assert(self@.known_nodes =~= nodes0.remove(gi));
                    assert(self@ =~= (ServerV { known_nodes: nodes0.remove(gi), ..old(self)@ }));
                    assert forall|k: int| 0 <= k < self@.known_nodes.len() implies #[trigger] self@.known_nodes[k]
                        != addr@ by {
                        if k < gi {
                            assert(self@.known_nodes[k] == nodes0[k]);
                        } else {
                            assert(self@.known_nodes[k] == nodes0[k + 1]);
                        }
                    }
                    assert forall|k: int, l: int|
                        0 <= k < l < self@.known_nodes.len() implies #[trigger] self@.known_nodes[k]
                        != #[trigger] self@.known_nodes[l] by {
                        if l < gi {
                        } else if k < gi {
                            assert(self@.known_nodes[l] == nodes0[l + 1]);
                        } else {
                            assert(self@.known_nodes[k] == nodes0[k + 1]);
                            assert(self@.known_nodes[l] == nodes0[l + 1]);
                        }
                    }
                }
                return ;
            }
            i += 1;
        }
    }

    /// A copy of the registry contents, in registration order.
    pub fn get_known_nodes(&self) -> (r: Vec<String>)
        ensures
            r.deep_view() == self@.known_nodes,
    {
        clone_strings(&self.known_nodes)
    }

    /// Replaces the block-sync tracker wholesale.
    pub fn replace_in_transit(&mut self, hashs: Vec<String>)
        ensures
            final(self)@ == (ServerV { blocks_in_transit: hashs.deep_view(), ..old(self)@ }),
    {
        self.blocks_in_transit = hashs;
        proof {
            assert(self@ =~= ServerV {
                blocks_in_transit: self.blocks_in_transit.deep_view(),
                ..old(self)@
            });
        }
    }

    /// A copy of the block-sync tracker.
    pub fn get_in_transit(&self) -> (r: Vec<String>)
        ensures
            r.deep_view() == self@.blocks_in_transit,
    {
        clone_strings(&self.blocks_in_transit)
    }

    /// Looks a transaction up in the mempool by id.
    pub fn get_mempool_tx(&self, addr: &str) -> (r: Option<Transaction>)
        ensures
            r is Some <==> spec_pool_has_id(self@.mempool, addr@),
            r matches Some(t) ==> t@.id == addr@ && self@.mempool.contains(t@),
    {
        let mut i: usize = 0;
        while i < self.mempool.len()
            invariant
                i <= self.mempool@.len(),
                forall|j: int| 0 <= j < i ==> self@.mempool[j].id != addr@,
            decreases self.mempool@.len() - i,
        {
            if str_eq(self.mempool[i].id.as_str(), addr) {
                let t = self.mempool[i].clone_tx();
                proof {
                    assert(self@.mempool[i as int] == t@);
                }
                return Some(t);
            }
            i += 1;
        }
        None
    }

    /// A copy of the whole mempool, keyed order preserved.
    pub fn get_mempool(&self) -> (r: Vec<Transaction>)
        ensures
            r.deep_view() == self@.mempool,
    {
        let mut out: Vec<Transaction> = Vec::new();
        let mut i: usize = 0;
        while i < self.mempool.len()
            invariant
                i <= self.mempool@.len(),
                out@.len() == i,
                forall|j: int| 0 <= j < i ==> #[trigger] out@[j]@ == self@.mempool[j],
            decreases self.mempool@.len() - i,
        {
            out.push(self.mempool[i].clone_tx());
            i += 1;
        }
        proof {
            assert(out.deep_view() =~= self@.mempool);
        }
        out
    }

    /// Stores a transaction under its id, replacing any entry with that id.
    pub fn insert_mempool(&mut self, tx: Transaction)
        requires
            old(self)@.inv(),
        ensures
            final(self)@.inv(),
            !spec_pool_has_id(old(self)@.mempool, tx@.id) ==> final(self)@ == (ServerV {
                mempool: old(self)@.mempool.push(tx@),
                ..old(self)@
            }),
            spec_pool_has_id(old(self)@.mempool, tx@.id) ==> exists|i: int|
                0 <= i < old(self)@.mempool.len() && old(self)@.mempool[i].id == tx@.id
                    && final(self)@ == (ServerV {
                    mempool: old(self)@.mempool.update(i, tx@),
                    ..old(self)@
                }),
            spec_pool_has_id(final(self)@.mempool, tx@.id),
    {
        let mut i: usize = 0;
        while i < self.mempool.len()
            invariant
                i <= self.mempool@.len(),
                *self == *old(self),
                old(self)@.inv(),
                forall|j: int| 0 <= j < i ==> self@.mempool[j].id != tx@.id,
            decreases self.mempool@.len() - i,
        {
            if str_eq(self.mempool[i].id.as_str(), tx.id.as_str()) {
                let ghost gi = i as int;
                let ghost pool0 = self@.mempool;
                let ghost txv = tx@;
                proof {
                    assert(pool0[gi].id == txv.id);
                }
                self.mempool.set(i, tx);
                proof {
                    assert(self@.mempool =~= pool0.update(gi, txv));
                    assert(self@ =~= (ServerV { mempool: pool0.update(gi, txv), ..old(self)@ }));
                    assert(self@.mempool[gi].id == txv.id);
                    assert(spec_pool_has_id(pool0, txv.id));
                    assert(spec_pool_has_id(self@.mempool, txv.id));
                    assert forall|k: int, l: int|
                        0 <= k < l < self@.mempool.len() implies #[trigger] self@.mempool[k].id
                        != #[trigger] self@.mempool[l].id by {
                        assert(pool0[k].id != pool0[l].id);
                    }
                }
                return ;
            }
            i += 1;
        }
        let ghost n = self.mempool@.len() as int;
        let ghost txv = tx@;
        self.mempool.push(tx);
        proof {
            assert(self@.mempool =~= old(self)@.mempool.push(txv));
            assert(self@ =~= (ServerV { mempool: old(self)@.mempool.push(txv), ..old(self)@ }));
            assert(self@.mempool[n].id == txv.id);
            assert(spec_pool_has_id(self@.mempool, txv.id));
        }
    }

    /// Empties the mempool.
    pub fn clear_mempool(&mut self)
        ensures
            final(self)@ == (ServerV { mempool: Seq::<TransactionV>::empty(), ..old(self)@ }),
    {
        self.mempool = Vec::new();
        proof {
            assert(self@.mempool =~= Seq::<TransactionV>::empty());
            assert(self@ =~= ServerV { mempool: Seq::<TransactionV>::empty(), ..old(self)@ });
        }
    }

    /// The chain tip's height, `-1` when the chain is empty.
    pub fn get_best_height(&self) -> (r: i32)
        requires
            self@.inv(),
        ensures
            r as int == self@.best_height(),
    {
        if self.chain.len() == 0 {
            -1
        } else {
            (self.chain.len() - 1) as i32
        }
    }

    /// The hashes of all blocks, in chain order.
    pub fn get_block_hashs(&self) -> (r: Vec<String>)
        ensures
            r.deep_view() == self@.chain.map_values(|b: BlockV| b.hash),
    {
        let mut out: Vec<String> = Vec::new();
        let mut i: usize = 0;
        while i < self.chain.len()
            invariant
                i <= self.chain@.len(),
                out@.len() == i,
                forall|j: int| 0 <= j < i ==> #[trigger] out@[j]@ == self@.chain[j].hash,
            decreases self.chain@.len() - i,
        {
            out.push(self.chain[i].hash.clone());
            i += 1;
        }
        proof {
            assert(out.deep_view() =~= self@.chain.map_values(|b: BlockV| b.hash));
        }
        out
    }

    /// Fetches the first block with the given hash, if any.
    pub fn get_block(&self, block_hash: &str) -> (r: Option<Block>)
        ensures
            r is Some <==> exists|i: int|
                0 <= i < self@.chain.len() && self@.chain[i].hash == block_hash@,
            r matches Some(b) ==> b@.hash == block_hash@ && self@.chain.contains(b@),
    {
        let mut i: usize = 0;
        while i < self.chain.len()
            invariant
                i <= self.chain@.len(),
                forall|j: int| 0 <= j < i ==> self@.chain[j].hash != block_hash@,
            decreases self.chain@.len() - i,
        {
            if str_eq(self.chain[i].hash.as_str(), block_hash) {
                let b = self.chain[i].clone_block();
                proof {
                    assert(self@.chain[i as int] == b@);
                }
                return Some(b);
            }
            i += 1;
        }
        None
    }

    /// Appends a block to the chain model.
    pub fn add_block(&mut self, block: Block)
        requires
            old(self)@.inv(),
            old(self)@.chain.len() + 1 < 0x7fff_ffff,
        ensures
            final(self)@ == (ServerV { chain: old(self)@.chain.push(block@), ..old(self)@ }),
            final(self)@.inv(),
    {
        let ghost n = self.chain@.len() as int;
        self.chain.push(block);
        proof {
            assert(self@.chain =~= old(self)@.chain.push(self@.chain[n]));
            assert(self@ =~= ServerV { chain: old(self)@.chain.push(self@.chain[n]), ..old(self)@ });
        }
    }

    /// Appends the block mined from `txs` under the externally computed
    /// proof-of-work `hash`, and returns it.
    pub fn mine_block(&mut self, txs: Vec<Transaction>, hash: String) -> (r: Block)
        requires
            old(self)@.inv(),
            old(self)@.chain.len() + 1 < 0x7fff_ffff,
        ensures
            r@ == (BlockV { hash: hash@, txs: txs.deep_view() }),
            final(self)@ == (ServerV { chain: old(self)@.chain.push(r@), ..old(self)@ }),
            final(self)@.inv(),
    {
        let b = Block { hash, txs };
        let copy = b.clone_block();
        self.add_block(copy);
        b
    }
}

} // verus!
