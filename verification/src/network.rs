//! Load tests of a network: payloads that are sent around, and whether all nodes have got them.

use crate::chainspec::Chainspec;
use crate::text::append_decimal;
use rand::rngs::StdRng;
use std::rc::Rc;
use vstd::prelude::*;
use vstd::string::StringExecFns;

verus! {

/// Configuration for the test reactor. `C` is the configuration of the network.
pub struct TestReactorConfig<C> {
    /// The fixed chainspec used in testing.
    pub chainspec: Rc<Chainspec>,
    /// Network configuration used in testing.
    pub network_config: C,
}

/// A dummy payload.
#[derive(Debug)]
pub struct DummyPayload(pub Vec<u8>);

/// Calls `rand::Rng::gen` for a byte: any byte may come.
#[verifier::external_body]
fn gen_byte(rng: &mut StdRng) -> (r: u8) {
    rand::Rng::gen(rng)
}

/// Bytes in decimal, with commas between them.
pub open spec fn listed(bytes: Seq<u8>) -> Seq<char>
    decreases bytes.len(),
{
    if bytes.len() == 0 {
        Seq::empty()
    } else if bytes.len() == 1 {
        crate::text::decimal(bytes[0] as nat)
    } else {
        listed(bytes.drop_last()) + ", "@ + crate::text::decimal(bytes.last() as nat)
    }
}

/// The first bytes, at most as many as given.
pub open spec fn first_bytes(bytes: Seq<u8>, max: int) -> Seq<u8> {
    bytes.take(
        if bytes.len() <= max {
            bytes.len() as int
        } else {
            max
        },
    )
}

impl DummyPayload {
    /// Returns a payload of the given number of random bytes.
    pub fn random_with_size(rng: &mut StdRng, sz: usize) -> (r: DummyPayload)
        ensures
            r.0@.len() == sz,
    {
        let mut bytes: Vec<u8> = Vec::new();
        while bytes.len() < sz
            invariant
                bytes@.len() <= sz,
            decreases sz - bytes@.len(),
        {
            bytes.push(gen_byte(rng));
        }
        DummyPayload(bytes)
    }

    /// Returns whether the payloads have the same bytes.
    pub fn same_payload(&self, other: &DummyPayload) -> (r: bool)
        ensures
            r == (self.0@ == other.0@),
    {
        if self.0.len() != other.0.len() {
            return false;
        }
        let mut i: usize = 0;
        while i < self.0.len()
            invariant
                i <= self.0@.len(),
                self.0@.len() == other.0@.len(),
                forall|j: int| 0 <= j < i ==> self.0@[j] == other.0@[j],
            decreases self.0@.len() - i,
        {
            if self.0[i] != other.0[i] {
                assert(self.0@[i as int] != other.0@[i as int]);
                return false;
            }
            i += 1;
        }
        assert(self.0@ =~= other.0@);
        true
    }

    /// Returns a text with the number of bytes and the first ten of them.
    pub fn to_text(&self) -> (r: String)
        ensures
            r@ == "payload ("@ + crate::text::decimal(self.0@.len()) + " bytes: ["@ + listed(first_bytes(self.0@, 10)) + "]...)"@,
    {
        let len = self.0.len();
        let shown: usize = if len <= 10 {
            len
        } else {
            10
        };
        let ghost bytes = first_bytes(self.0@, 10);
        let mut text = String::from_str("payload (");
        append_decimal(&mut text, len as u64);
        text.append(" bytes: [");
        let ghost start = text@;
        let mut i: usize = 0;
        assert(bytes.take(0) =~= Seq::empty());
        assert(text@ =~= start + listed(bytes.take(0)));
        while i < shown
            invariant
                i <= shown,
                shown == bytes.len(),
                shown <= self.0@.len(),
                bytes == self.0@.take(shown as int),
                text@ == start + listed(bytes.take(i as int)),
            decreases shown - i,
        {
            let ghost before = text@;
            proof {
                assert(bytes.take(i + 1).drop_last() =~= bytes.take(i as int));
                assert(bytes.take(i + 1).last() == self.0@[i as int]);
            }
            if i > 0 {
                text.append(", ");
            }
            append_decimal(&mut text, self.0[i] as u64);
            proof {
                let d = crate::text::decimal(self.0@[i as int] as nat);
                if i > 0 {
                    assert(text@ =~= start + (listed(bytes.take(i as int)) + ", "@ + d));
                } else {
                    assert(bytes.take(i + 1)[0] == self.0@[i as int]);
                    assert(text@ =~= start + d);
                }
            }
            i += 1;
        }
        assert(bytes.take(bytes.len() as int) =~= bytes);
        text.append("]...)");
        text
    }
}

/// A node as far as the tests look at it. `I` identifies it.
pub struct NodeStatus<I> {
    pub node_id: I,
    /// The number of peers that the node has seen.
    pub seen_peers: usize,
    /// The payloads that the node has received.
    pub payloads: Vec<DummyPayload>,
}

/// How many other nodes each node should know.
pub open spec fn target_of(k_value: int, nodes: int) -> int {
    if k_value / 2 <= nodes - 1 {
        k_value / 2
    } else {
        nodes - 1
    }
}

/// All nodes know enough others.
pub open spec fn online<I>(nodes: Seq<NodeStatus<I>>, k_value: int) -> bool {
    forall|i: int| 0 <= i < nodes.len() ==> (#[trigger] nodes[i]).seen_peers >= target_of(k_value, nodes.len() as int)
}

/// Checks if all nodes are connected to at least one other node.
///
/// `k_value` is the number of nodes that fit in one bucket of a routing table.
pub fn network_online<I>(nodes: &Vec<NodeStatus<I>>, k_value: usize) -> (r: bool)
    requires
        nodes@.len() >= 2,
        k_value >= 7,
    ensures
        r == online(nodes@, k_value as int),
{
    // The target of known nodes to go for. This has a hard bound of `k_value`, since if all nodes
    // end up in the same bucket, we will start evicting them. In general, we go for k_value/2 for
    // reasonable interconnection, or the network size - 1, which is another bound.
    let known_nodes_target = if k_value / 2 <= nodes.len() - 1 {
        k_value / 2
    } else {
        nodes.len() - 1
    };
    // Checks if all nodes have reached the known nodes target.
    let mut i: usize = 0;
    while i < nodes.len()
        invariant
            i <= nodes@.len(),
            known_nodes_target == target_of(k_value as int, nodes@.len() as int),
            forall|j: int| 0 <= j < i ==> (#[trigger] nodes@[j]).seen_peers >= known_nodes_target,
        decreases nodes@.len() - i,
    {
        if nodes[i].seen_peers < known_nodes_target {
            assert(nodes@[i as int].seen_peers < known_nodes_target);
            return false;
        }
        i += 1;
    }
    true
}

/// The node has received the payload.
pub open spec fn has_received<I>(node: NodeStatus<I>, payload: Seq<u8>) -> bool {
    exists|k: int| 0 <= k < node.payloads@.len() && (#[trigger] node.payloads@[k]).0@ == payload
}

/// Every node except the sender has received the payload.
pub open spec fn all_others_received(nodes: Seq<NodeStatus<u64>>, payload: Seq<u8>, sender: u64) -> bool {
    forall|i: int| 0 <= i < nodes.len() && (#[trigger] nodes[i]).node_id != sender ==> has_received(nodes[i], payload)
}

/// Checks whether or not every node except `sender` on the network received the given payload.
pub fn others_received(payload: &DummyPayload, sender: u64, nodes: &Vec<NodeStatus<u64>>) -> (r: bool)
    ensures
        r == all_others_received(nodes@, payload.0@, sender),
{
    let mut i: usize = 0;
    while i < nodes.len()
        invariant
            i <= nodes@.len(),
            forall|j: int|
                0 <= j < i && (#[trigger] nodes@[j]).node_id != sender ==> has_received(nodes@[j], payload.0@),
        decreases nodes@.len() - i,
    {
        // Skip the sender.
        if nodes[i].node_id != sender {
            // Ensure others all have received the payload.
            let payloads = &nodes[i].payloads;
            let mut found = false;
            let mut k: usize = 0;
            while k < payloads.len() && !found
                invariant
                    k <= payloads@.len(),
                    found ==> exists|x: int| 0 <= x < payloads@.len() && (#[trigger] payloads@[x]).0@ == payload.0@,
                    !found ==> forall|x: int| 0 <= x < k ==> (#[trigger] payloads@[x]).0@ != payload.0@,
                decreases payloads@.len() - k,
            {
                if payloads[k].same_payload(payload) {
                    assert(payloads@[k as int].0@ == payload.0@);
                    found = true;
                }
                k += 1;
            }
            if !found {
                assert(!has_received(nodes@[i as int], payload.0@));
                return false;
            }
        }
        i += 1;
    }
    true
}

/// In an online network every node is connected to at least one other node.
pub proof fn law_online_nodes_connected<I>(nodes: Seq<NodeStatus<I>>, k_value: int, i: int)
    requires
        nodes.len() >= 2,
        k_value >= 7,
        online(nodes, k_value),
        0 <= i < nodes.len(),
    ensures
        nodes[i].seen_peers >= 1,
{
}

/// A network is online exactly if every node has seen half as many peers as a bucket holds or, in a small
/// network, all other nodes.
pub proof fn law_online<I>(nodes: Seq<NodeStatus<I>>, k_value: int, i: int)
    requires
        nodes.len() >= 2,
        k_value >= 7,
        0 <= i < nodes.len(),
    ensures
        online(nodes, k_value) ==> 2 * nodes[i].seen_peers + 1 >= k_value || nodes[i].seen_peers >= nodes.len() - 1,
        (2 * nodes[i].seen_peers + 1 < k_value && nodes[i].seen_peers < nodes.len() - 1) ==> !online(nodes, k_value),
        (forall|j: int|
            0 <= j < nodes.len() ==> 2 * (#[trigger] nodes[j]).seen_peers + 1 >= k_value || nodes[j].seen_peers >= nodes.len() - 1)
            ==> online(nodes, k_value),
{
}

/// All others have received a payload exactly if each node but the sender has it among what it received.
pub proof fn law_others_have_it(nodes: Seq<NodeStatus<u64>>, payload: Seq<u8>, sender: u64, i: int)
    requires
        0 <= i < nodes.len(),
    ensures
        all_others_received(nodes, payload, sender) && nodes[i].node_id != sender ==> exists|j: int|
            0 <= j < nodes[i].payloads@.len() && (#[trigger] nodes[i].payloads@[j]).0@ == payload,
        nodes[i].node_id != sender && (forall|j: int|
            0 <= j < nodes[i].payloads@.len() ==> (#[trigger] nodes[i].payloads@[j]).0@ != payload) ==> !all_others_received(
            nodes,
            payload,
            sender,
        ),
{
    if all_others_received(nodes, payload, sender) && nodes[i].node_id != sender {
        assert(has_received(nodes[i], payload));
    }
}

} // verus!
