//! Reaching a node's internal services through tunnels: the tunnels this node offers and
//! the connections it holds to tunnels elsewhere.
use vstd::prelude::*;

use crate::collections::TextMap;
use crate::panel::{new_identifier, uuid_v4_text, PanelError};
use crate::text::{owned, views};

verus! {

/// How a tunnel is set up.
#[derive(Debug)]
pub struct TunnelConfig {
    pub local_addr: String,
    pub remote_addr: String,
    pub protocol: String,
    pub auth_token: Option<String>,
}

/// A connection to a tunnel on another node.
#[derive(Debug)]
pub struct Connection {
    pub id: String,
    pub remote_node: String,
    pub remote_addr: String,
    pub local_addr: String,
}

/// The tunnels this node offers, by ID.
#[derive(Debug)]
pub struct Provider {
    tunnels: TextMap<TunnelConfig>,
}

impl Provider {
    /// The IDs of the open tunnels.
    pub closed spec fn open_tunnels(&self) -> Set<Seq<char>> {
        self.tunnels@.dom()
    }

    pub closed spec fn wf(&self) -> bool {
        self.tunnels.wf()
    }

    /// A provider without tunnels.
    pub fn new() -> (p: Provider)
        ensures
            p.wf(),
            p.open_tunnels() == Set::<Seq<char>>::empty(),
    {
        let p = Provider { tunnels: TextMap::new() };
        assert(p.open_tunnels() =~= Set::<Seq<char>>::empty());
        p
    }

    /// Starts offering tunnels.
    pub fn start(&self) -> (r: Result<(), PanelError>)
        ensures
            r is Ok,
    {
        Ok(())
    }

    /// Stops offering tunnels.
    pub fn stop(&self) -> (r: Result<(), PanelError>)
        ensures
            r is Ok,
    {
        Ok(())
    }

    /// Opens a tunnel: answers its fresh ID. The tunnel is not kept yet.
    pub fn create_tunnel(&self, config: TunnelConfig) -> (r: Result<String, PanelError>)
        ensures
            r matches Ok(id) && uuid_v4_text(id@),
    {
        Ok(new_identifier())
    }

    /// Closes a tunnel.
    pub fn close_tunnel(&self, tunnel_id: &str) -> (r: Result<(), PanelError>)
        ensures
            r is Ok,
    {
        Ok(())
    }

    /// The IDs of the open tunnels, in increasing order.
    pub fn list_tunnels(&self) -> (r: Result<Vec<String>, PanelError>)
        requires
            self.wf(),
        ensures
            r matches Ok(v) && views(v@).to_set() == self.open_tunnels() && views(v@).no_duplicates(),
    {
        Ok(key_list(&self.tunnels))
    }
}

/// The keys of a map, in increasing order.
fn key_list<V>(m: &TextMap<V>) -> (r: Vec<String>)
    requires
        m.wf(),
    ensures
        views(r@) == m.keys(),
        views(r@).to_set() == m@.dom(),
        views(r@).no_duplicates(),
{
    let entries = m.entries();
    let mut r: Vec<String> = Vec::new();
    let mut i: usize = 0;
    while i < entries.len()
        invariant
            i <= entries.len(),
            entries@.map_values(|e: (String, V)| e.0@) == m.keys(),
            views(r@) == m.keys().take(i as int),
        decreases entries.len() - i,
    {
        let ghost before = r@;
        r.push(entries[i].0.clone());
        proof {
            crate::text::lemma_views_push(before, entries@[i as int].0);
            assert(m.keys()[i as int] == entries@[i as int].0@);
            assert(m.keys().take(i + 1) =~= m.keys().take(i as int).push(m.keys()[i as int]));
        }
        i = i + 1;
    }
    proof {
        assert(m.keys().take(i as int) =~= m.keys());
        m.lemma_lengths();
        m.lemma_view_dom();
        crate::collections::lemma_sorted_no_duplicates(m.keys());
    }
    r
}

/// The connections this node holds to tunnels on other nodes.
#[derive(Debug)]
pub struct Consumer {
    server_url: String,
    node_id: String,
    connections: TextMap<Connection>,
}

impl Consumer {
    /// The server it reports to.
    pub closed spec fn server(&self) -> Seq<char> {
        self.server_url@
    }

    /// The node it runs on.
    pub closed spec fn node(&self) -> Seq<char> {
        self.node_id@
    }

    /// The IDs of the open connections.
    pub closed spec fn open_connections(&self) -> Set<Seq<char>> {
        self.connections@.dom()
    }

    pub closed spec fn wf(&self) -> bool {
        self.connections.wf()
    }

    /// A consumer on `node_id` reporting to `server_url`, without connections.
    pub fn new(server_url: &str, node_id: &str) -> (c: Consumer)
        ensures
            c.wf(),
            c.server() == server_url@,
            c.node() == node_id@,
            c.open_connections() == Set::<Seq<char>>::empty(),
    {
        let c = Consumer { server_url: owned(server_url), node_id: owned(node_id), connections: TextMap::new() };
        assert(c.open_connections() =~= Set::<Seq<char>>::empty());
        c
    }

    /// Starts connecting to tunnels.
    pub fn start(&self) -> (r: Result<(), PanelError>)
        ensures
            r is Ok,
    {
        Ok(())
    }

    /// Closes every connection.
    pub fn stop(&self) -> (r: Result<(), PanelError>)
        requires
            self.wf(),
        ensures
            r is Ok,
    {
        let entries = self.connections.entries();
        let mut i: usize = 0;
        while i < entries.len()
            invariant
                i <= entries.len(),
            decreases entries.len() - i,
        {
            let _ = self.close_connection(entries[i].1.id.as_str());
            i = i + 1;
        }
        Ok(())
    }

    /// Connects to a tunnel on another node: answers the connection's fresh ID. The
    /// connection is not kept yet.
    pub fn connect_to_tunnel(&self, remote_node: &str, remote_addr: &str, local_addr: &str) -> (r: Result<String, PanelError>)
        ensures
            r matches Ok(id) && uuid_v4_text(id@),
    {
        Ok(new_identifier())
    }

    /// Closes a connection.
    pub fn close_connection(&self, connection_id: &str) -> (r: Result<(), PanelError>)
        ensures
            r is Ok,
    {
        Ok(())
    }

    /// The IDs of the open connections, in increasing order.
    pub fn list_connections(&self) -> (r: Result<Vec<String>, PanelError>)
        requires
            self.wf(),
        ensures
            r matches Ok(v) && views(v@).to_set() == self.open_connections() && views(v@).no_duplicates(),
    {
        Ok(key_list(&self.connections))
    }
}

/// The tunnels of a node: those it offers and those it uses.
#[derive(Debug)]
pub struct IntranetPenetration {
    provider: Provider,
    consumer: Consumer,
}

impl IntranetPenetration {
    pub closed spec fn wf(&self) -> bool {
        self.provider.wf() && self.consumer.wf()
    }

    /// The IDs of the tunnels it offers.
    pub closed spec fn open_tunnels(&self) -> Set<Seq<char>> {
        self.provider.open_tunnels()
    }

    /// The server its consumer reports to, and the node it runs on.
    pub closed spec fn server(&self) -> Seq<char> {
        self.consumer.server()
    }

    pub closed spec fn node(&self) -> Seq<char> {
        self.consumer.node()
    }

    /// The tunnels of node `node_id`, reporting to `server_url`; none open yet.
    pub fn new(server_url: &str, node_id: &str) -> (s: IntranetPenetration)
        ensures
            s.wf(),
            s.server() == server_url@,
            s.node() == node_id@,
            s.open_tunnels() == Set::<Seq<char>>::empty(),
    {
        IntranetPenetration { provider: Provider::new(), consumer: Consumer::new(server_url, node_id) }
    }

    /// Starts the provider, then the consumer.
    pub fn start(&self) -> (r: Result<(), PanelError>)
        ensures
            r is Ok,
    {
        match self.provider.start() {
            Ok(()) => {},
            Err(e) => return Err(e),
        }
        self.consumer.start()
    }

    /// Stops the provider, then the consumer.
    pub fn stop(&self) -> (r: Result<(), PanelError>)
        requires
            self.wf(),
        ensures
            r is Ok,
    {
        match self.provider.stop() {
            Ok(()) => {},
            Err(e) => return Err(e),
        }
        self.consumer.stop()
    }

    /// Opens a tunnel: answers its fresh ID.
    pub fn create_tunnel(&self, config: TunnelConfig) -> (r: Result<String, PanelError>)
        ensures
            r matches Ok(id) && uuid_v4_text(id@),
    {
        self.provider.create_tunnel(config)
    }

    /// Closes a tunnel.
    pub fn close_tunnel(&self, tunnel_id: &str) -> (r: Result<(), PanelError>)
        ensures
            r is Ok,
    {
        self.provider.close_tunnel(tunnel_id)
    }

    /// The IDs of the open tunnels, in increasing order.
    pub fn list_tunnels(&self) -> (r: Result<Vec<String>, PanelError>)
        requires
            self.wf(),
        ensures
            r matches Ok(v) && views(v@).to_set() == self.open_tunnels() && views(v@).no_duplicates(),
    {
        self.provider.list_tunnels()
    }
}

}
