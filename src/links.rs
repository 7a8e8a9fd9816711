//! Link requests between two nodes: which port pairs to connect, and which
//! links to take down.
use vstd::prelude::*;
use vstd::string::*;
use crate::model::{GraphError, Link, Port, PortDirection};
use crate::ports::{PortKey, map_ports, spec_map_ports};
use crate::store::{Store, node_in, port_in, unique_port_ids};
use crate::nodes::node_index;
use crate::devices::lemma_node_index;

verus! {

/// The position of the port with id `id`.
pub open spec fn port_index(ports: Seq<Port>, id: u32) -> int {
    choose|i: int| 0 <= i < ports.len() && ports[i].id == id
}

/// The ports named by `ids` (first `k` of them) that exist and face `dir`, in
/// that order, as the port mapper reads them.
pub open spec fn listed_keys(ports: Seq<Port>, ids: Seq<u32>, dir: PortDirection, k: int) -> Seq<PortKey>
    decreases k,
{
    if k <= 0 {
        Seq::empty()
    } else {
        let prev = listed_keys(ports, ids, dir, k - 1);
        let id = ids[k - 1];
        if port_in(ports, id) && ports[port_index(ports, id)].direction == dir {
            prev.push(PortKey { id, channel: ports[port_index(ports, id)].channel })
        } else {
            prev
        }
    }
}

/// Some link already joins the two ports.
pub open spec fn linked(links: Seq<Link>, pair: (u32, u32)) -> bool {
    exists|k: int| 0 <= k < links.len() && links[k].output_port == pair.0 && links[k].input_port == pair.1
}

pub open spec fn not_linked(links: Seq<Link>) -> spec_fn((u32, u32)) -> bool {
    |pair: (u32, u32)| !linked(links, pair)
}

/// The link runs from the output node to the input node.
pub open spec fn between(l: Link, output_node: u32, input_node: u32) -> bool {
    l.output_node == output_node && l.input_node == input_node
}

pub open spec fn is_between(output_node: u32, input_node: u32) -> spec_fn(Link) -> bool {
    |l: Link| between(l, output_node, input_node)
}

/// The port pairs a link request between two nodes creates, or why it fails.
pub open spec fn spec_create_link(s: Store, output_node: u32, input_node: u32) -> Result<Seq<(u32, u32)>, GraphError> {
    if !node_in(s.nodes@, output_node) {
        Err(GraphError::NodeNotFound(output_node))
    } else if !node_in(s.nodes@, input_node) {
        Err(GraphError::NodeNotFound(input_node))
    } else {
        let on = s.nodes@[node_index(s.nodes@, output_node)];
        let inn = s.nodes@[node_index(s.nodes@, input_node)];
        let outs = listed_keys(s.ports@, on.ports@, PortDirection::Output, on.ports@.len() as int);
        let ins = listed_keys(s.ports@, inn.ports@, PortDirection::Input, inn.ports@.len() as int);
        let pairs = spec_map_ports(outs, ins);
        let fresh = pairs.filter(not_linked(s.links@));
        if outs.len() == 0 {
            Err(GraphError::NoOutputPorts(output_node))
        } else if ins.len() == 0 {
            Err(GraphError::NoInputPorts(input_node))
        } else if pairs.len() == 0 {
            Err(GraphError::NoMatchingPorts(output_node, input_node))
        } else if fresh.len() == 0 {
            Err(GraphError::NoNewLinks(output_node, input_node))
        } else {
            Ok(fresh)
        }
    }
}

impl Store {
    fn port_keys(&self, ids: &Vec<u32>, dir: PortDirection) -> (r: Vec<PortKey>)
        requires
            unique_port_ids(self.ports@),
        ensures
            r@ == listed_keys(self.ports@, ids@, dir, ids@.len() as int),
    {
        let mut r: Vec<PortKey> = Vec::new();
        let mut k: usize = 0;
        while k < ids.len()
            invariant
                0 <= k <= ids@.len(),
                unique_port_ids(self.ports@),
                r@ == listed_keys(self.ports@, ids@, dir, k as int),
            decreases ids@.len() - k,
        {
            match self.find_port(ids[k]) {
                Some(i) => {
                    proof {
                        let c = port_index(self.ports@, ids@[k as int]);
                        if c != i as int {
                            if c < i {
                                assert(self.ports@[c].id != self.ports@[i as int].id);
                            } else {
                                assert(self.ports@[i as int].id != self.ports@[c].id);
                            }
                        }
                    }
                    if self.ports[i].direction == dir {
                        r.push(PortKey { id: ids[k], channel: self.ports[i].channel.clone() });
                    }
                },
                None => {},
            }
            k = k + 1;
        }
        r
    }

    fn is_linked(&self, pair: (u32, u32)) -> (r: bool)
        ensures
            r == linked(self.links@, pair),
    {
        let mut k: usize = 0;
        while k < self.links.len()
            invariant
                0 <= k <= self.links@.len(),
                forall|a: int| 0 <= a < k ==> !(self.links@[a].output_port == pair.0 && self.links@[a].input_port == pair.1),
            decreases self.links@.len() - k,
        {
            if self.links[k].output_port == pair.0 && self.links[k].input_port == pair.1 {
                return true;
            }
            k = k + 1;
        }
        false
    }

    /// The port pairs to connect for a link between two nodes: the mapper's
    /// pairs that no link joins yet. The requests themselves are sent by the
    /// caller; the links appear when the server announces them.
    pub fn create_link(&self, output_node_id: u32, input_node_id: u32) -> (r: Result<Vec<(u32, u32)>, GraphError>)
        requires
            self.wf(),
        ensures
            match spec_create_link(*self, output_node_id, input_node_id) {
                Ok(pairs) => r matches Ok(v) && v@ == pairs,
                Err(e) => r == Err::<Vec<(u32, u32)>, GraphError>(e),
            },
    {
        let oi = match self.find_node(output_node_id) {
            Some(i) => i,
            None => {
                return Err(GraphError::NodeNotFound(output_node_id));
            },
        };
        let ii = match self.find_node(input_node_id) {
            Some(i) => i,
            None => {
                return Err(GraphError::NodeNotFound(input_node_id));
            },
        };
        proof {
            lemma_node_index(self.nodes@, oi as int);
            lemma_node_index(self.nodes@, ii as int);
            let c = node_index(self.nodes@, output_node_id);
            if c != oi as int {
                assert(self.nodes@[c].id == output_node_id);
            }
            let d = node_index(self.nodes@, input_node_id);
            if d != ii as int {
                assert(self.nodes@[d].id == input_node_id);
            }
        }
        let outs = self.port_keys(&self.nodes[oi].ports, PortDirection::Output);
        let ins = self.port_keys(&self.nodes[ii].ports, PortDirection::Input);
        if outs.len() == 0 {
            return Err(GraphError::NoOutputPorts(output_node_id));
        }
        if ins.len() == 0 {
            return Err(GraphError::NoInputPorts(input_node_id));
        }
        let pairs = map_ports(&outs, &ins);
        if pairs.len() == 0 {
            return Err(GraphError::NoMatchingPorts(output_node_id, input_node_id));
        }
        let ghost p = not_linked(self.links@);
        let mut fresh: Vec<(u32, u32)> = Vec::new();
        let mut k: usize = 0;
        while k < pairs.len()
            invariant
                0 <= k <= pairs@.len(),
                p == not_linked(self.links@),
                fresh@ == pairs@.subrange(0, k as int).filter(p),
            decreases pairs@.len() - k,
        {
            proof {
                reveal_with_fuel(Seq::filter, 1);
                assert(pairs@.subrange(0, k + 1).drop_last() =~= pairs@.subrange(0, k as int));
            }
            if !self.is_linked(pairs[k]) {
                fresh.push(pairs[k]);
            }
            k = k + 1;
        }
        proof {
            assert(pairs@.subrange(0, pairs@.len() as int) =~= pairs@);
        }
        if fresh.len() == 0 {
            return Err(GraphError::NoNewLinks(output_node_id, input_node_id));
        }
        Ok(fresh)
    }

    /// The links from the output node to the input node, for the caller to
    /// destroy on the server. The store is left as it is: the links leave it
    /// when the server reports them removed.
    pub fn remove_link(&self, output_node_id: u32, input_node_id: u32) -> (r: Result<Vec<u32>, GraphError>)
        ensures
            !node_in(self.nodes@, output_node_id) ==> r == Err::<Vec<u32>, GraphError>(GraphError::NodeNotFound(output_node_id)),
            node_in(self.nodes@, output_node_id) && !node_in(self.nodes@, input_node_id) ==> r == Err::<Vec<u32>, GraphError>(
                GraphError::NodeNotFound(input_node_id),
            ),
            node_in(self.nodes@, output_node_id) && node_in(self.nodes@, input_node_id) ==> (r matches Ok(ids) && ids@
                == self.links@.filter(is_between(output_node_id, input_node_id)).map_values(|l: Link| l.id)),
    {
        if self.find_node(output_node_id).is_none() {
            return Err(GraphError::NodeNotFound(output_node_id));
        }
        if self.find_node(input_node_id).is_none() {
            return Err(GraphError::NodeNotFound(input_node_id));
        }
        let ghost f = |l: Link| l.id;
        let mut removed: Vec<u32> = Vec::new();
        let mut j: usize = 0;
        while j < self.links.len()
            invariant
                0 <= j <= self.links@.len(),
                f == (|l: Link| l.id),
                removed@ == self.links@.subrange(0, j as int).filter(is_between(output_node_id, input_node_id)).map_values(f),
            decreases self.links@.len() - j,
        {
            let l = self.links[j];
            proof {
                reveal_with_fuel(Seq::filter, 1);
                assert(self.links@.subrange(0, j + 1).drop_last() =~= self.links@.subrange(0, j as int));
            }
            if l.output_node == output_node_id && l.input_node == input_node_id {
                removed.push(l.id);
                proof {
                    let s = self.links@.subrange(0, j as int).filter(is_between(output_node_id, input_node_id));
                    assert(s.push(l).map_values(f) =~= s.map_values(f).push(l.id));
                }
            }
            j = j + 1;
        }
        proof {
            assert(self.links@.subrange(0, self.links@.len() as int) =~= self.links@);
        }
        Ok(removed)
    }
}

} // verus!
