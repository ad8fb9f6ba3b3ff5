//! The daemon-connection details the wallet server reports.
use vstd::prelude::*;

verus! {

/// Host, port, fee and fee address of the configured daemon.
#[derive(Clone, PartialEq, Eq, Debug)]
pub struct NodeDetails {
    pub daemon_host: Vec<u8>,
    pub daemon_port: u64,
    pub node_fee: u64,
    pub node_address: Vec<u8>,
}

/// Answers node-detail queries from the configured connection info.
pub struct NodeHandler {
    pub details: NodeDetails,
}

pub open spec fn spec_details_eq(a: NodeDetails, b: NodeDetails) -> bool {
    &&& a.daemon_host@ == b.daemon_host@
    &&& a.daemon_port == b.daemon_port
    &&& a.node_fee == b.node_fee
    &&& a.node_address@ == b.node_address@
}

fn copy_bytes(v: &Vec<u8>) -> (r: Vec<u8>)
    ensures
        r@ == v@,
{
    let mut r: Vec<u8> = Vec::new();
    let mut i: usize = 0;
    while i < v.len()
        invariant
            0 <= i <= v@.len(),
            r@ =~= v@.take(i as int),
        decreases v@.len() - i,
    {
        r.push(v[i]);
        proof {
            assert(r@ =~= v@.take(i as int + 1));
        }
        i += 1;
    }
    proof {
        assert(v@.take(v@.len() as int) =~= v@);
    }
    r
}

impl NodeDetails {
    pub fn duplicate(&self) -> (r: NodeDetails)
        ensures
            spec_details_eq(r, *self),
    {
        NodeDetails {
            daemon_host: copy_bytes(&self.daemon_host),
            daemon_port: self.daemon_port,
            node_fee: self.node_fee,
            node_address: copy_bytes(&self.node_address),
        }
    }
}

impl NodeHandler {
    pub fn new(details: NodeDetails) -> (r: Self)
        ensures
            spec_details_eq(r.details, details),
    {
        NodeHandler { details }
    }

    /// The configured daemon details, as the node query reports them.
    pub fn get_node_details(&self) -> (r: NodeDetails)
        ensures
            spec_details_eq(r, self.details),
    {
        self.details.duplicate()
    }

    /// Replace the configured daemon connection info.
    pub fn set_details(&mut self, details: NodeDetails)
        ensures
            final(self).details == details,
    {
        self.details = details;
    }
}

} // verus!
