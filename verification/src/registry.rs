//! The connection registry: which connections are live, which identity each
//! one is bound to, and through which connection an identity is reached.

use crate::types::{view_opt, ClientInfo, Identity};
use std::collections::HashMap;
use vstd::hash_map::StringHashMap;
use vstd::prelude::*;

verus! {

broadcast use vstd::std_specs::hash::group_hash_axioms;

/// Why a connection could not be bound to an identity.
#[derive(Debug, Clone, Copy, PartialEq, Eq, Structural)]
pub enum BindError {
    /// The connection already carries an identity.
    AlreadyBound,
    /// The connection identifier is not, or no longer, registered.
    UnknownConnection,
}

/// The registry as a mathematical value.
#[verifier::ext_equal]
pub struct RegistryView<H> {
    /// Every live connection, with the identity bound to it, if any.
    pub connections: Map<usize, Option<Identity>>,
    /// The outbound handle of every live connection.
    pub handles: Map<usize, H>,
    /// For each reachable identity, the connection that serves it.
    pub routes: Map<Seq<char>, usize>,
    /// The identifier that the next registration will hand out.
    pub next_id: nat,
}

impl<H> RegistryView<H> {
    /// Connection `c` is live and bound to the identity `user_id`.
    pub open spec fn serves(self, c: usize, user_id: Seq<char>) -> bool {
        &&& self.connections.contains_key(c)
        &&& self.connections[c] matches Some(identity)
        &&& identity.user_id == user_id
    }

    /// The registry invariant: identifiers are handed out in increasing order
    /// and never reused, every live connection has a handle, and a route only
    /// ever leads to a live connection that is bound to the routed identity.
    pub open spec fn wf(self) -> bool {
        &&& self.connections.dom().finite()
        &&& self.handles.dom() == self.connections.dom()
        &&& forall|c: usize| #[trigger] self.connections.contains_key(c) ==> c < self.next_id
        &&& forall|user_id: Seq<char>| #[trigger]
            self.routes.contains_key(user_id) ==> self.serves(self.routes[user_id], user_id)
    }

    /// The empty registry.
    pub open spec fn empty() -> Self {
        RegistryView {
            connections: Map::empty(),
            handles: Map::empty(),
            routes: Map::empty(),
            next_id: 0,
        }
    }

    /// The connections that carry an identity.
    pub open spec fn bound_connections(self) -> Set<usize> {
        Set::new(|c: usize| self.connections.contains_key(c) && self.connections[c] is Some)
    }

    /// Whether `c` is live and carries an identity.
    pub open spec fn is_bound(self, c: usize) -> bool {
        self.connections.contains_key(c) && self.connections[c] is Some
    }

    /// The identity bound to `c`, if `c` is live and bound.
    pub open spec fn identity_of(self, c: usize) -> Option<Identity> {
        if self.connections.contains_key(c) {
            self.connections[c]
        } else {
            None
        }
    }

    /// The connection through which `user_id` is reached, if any.
    pub open spec fn lookup(self, user_id: Seq<char>) -> Option<usize> {
        if self.routes.contains_key(user_id) {
            Some(self.routes[user_id])
        } else {
            None
        }
    }

    /// The registry after a new, unbound connection with the given handle
    /// has been registered under the next identifier.
    pub open spec fn register(self, handle: H) -> Self {
        RegistryView {
            connections: self.connections.insert(self.next_id as usize, None),
            handles: self.handles.insert(self.next_id as usize, handle),
            routes: self.routes,
            next_id: self.next_id + 1,
        }
    }

    /// Whether binding an identity to `c` succeeds, and why not.
    pub open spec fn bind_outcome(self, c: usize) -> Result<(), BindError> {
        if !self.connections.contains_key(c) {
            Err(BindError::UnknownConnection)
        } else if self.connections[c] is Some {
            Err(BindError::AlreadyBound)
        } else {
            Ok(())
        }
    }

    /// The registry after `identity` has been bound to `c`: the connection
    /// carries the identity, and the identity is routed to `c`, whatever
    /// connection served it before.
    pub open spec fn bind(self, c: usize, identity: Identity) -> Self {
        RegistryView {
            connections: self.connections.insert(c, Some(identity)),
            handles: self.handles,
            routes: self.routes.insert(identity.user_id, c),
            next_id: self.next_id,
        }
    }

    /// The routes after connection `c` has gone: the route of the identity
    /// that `c` carried is dropped only if it still leads to `c`.
    pub open spec fn routes_without(self, c: usize) -> Map<Seq<char>, usize> {
        match self.identity_of(c) {
            Some(identity) => if self.lookup(identity.user_id) == Some(c) {
                self.routes.remove(identity.user_id)
            } else {
                self.routes
            },
            None => self.routes,
        }
    }

    /// The registry after connection `c` has been removed.
    pub open spec fn unbind(self, c: usize) -> Self {
        RegistryView {
            connections: self.connections.remove(c),
            handles: self.handles.remove(c),
            routes: self.routes_without(c),
            next_id: self.next_id,
        }
    }
}

/// The single authoritative table of live connections.
pub struct ConnectionRegistry<H> {
    clients: HashMap<usize, ClientInfo<H>>,
    user_to_client: StringHashMap<usize>,
    next_client_id: usize,
    bound_clients: usize,
}

/// The view holds all that the registry knows. The count of bound
/// connections, which the registry keeps beside its table, is by the
/// invariant the size of `bound_connections()` of the view.
impl<H> View for ConnectionRegistry<H> {
    type V = RegistryView<H>;

    closed spec fn view(&self) -> RegistryView<H> {
        RegistryView {
            connections: Map::new(
                |c: usize| self.clients@.contains_key(c),
                |c: usize| self.clients@[c].identity(),
            ),
            handles: Map::new(
                |c: usize| self.clients@.contains_key(c),
                |c: usize| self.clients@[c].sender,
            ),
            routes: self.user_to_client@,
            next_id: self.next_client_id as nat,
        }
    }
}

impl<H> ConnectionRegistry<H> {
    /// The representation invariant: the model is well formed, and a
    /// connection has a display name exactly when it has a subject identifier.
    pub closed spec fn wf(&self) -> bool {
        &&& self@.wf()
        &&& forall|c: usize| #[trigger]
            self.clients@.contains_key(c) ==> (self.clients@[c].user_id is Some
                <==> self.clients@[c].username is Some)
        &&& self.bound_clients == self@.bound_connections().len()
    }

    /// A well-formed registry has a well-formed model.
    pub proof fn lemma_wf(&self)
        requires
            self.wf(),
        ensures
            self@.wf(),
    {
    }

    /// A registry without connections.
    pub fn new() -> (r: Self)
        ensures
            r.wf(),
            r@ == RegistryView::<H>::empty(),
    {
        let r = ConnectionRegistry {
            clients: HashMap::new(),
            user_to_client: StringHashMap::new(),
            next_client_id: 0,
            bound_clients: 0,
        };
        proof {
            assert(r@.connections =~= Map::<usize, Option<Identity>>::empty());
            assert(r@.handles =~= Map::<usize, H>::empty());
            assert(r@ =~= RegistryView::<H>::empty());
            assert(r@.bound_connections() =~= Set::<usize>::empty());
        }
        r
    }

    /// Whether another connection can still be registered: identifiers are
    /// never reused, so the supply ends with the machine's word size.
    pub fn has_capacity(&self) -> (r: bool)
        ensures
            r == (self@.next_id < usize::MAX),
    {
        self.next_client_id < usize::MAX
    }

    /// Registers a new connection and returns its identifier. The connection
    /// starts without an identity.
    pub fn register(&mut self, sender: H) -> (client_id: usize)
        requires
            old(self).wf(),
            old(self)@.next_id < usize::MAX,
        ensures
            final(self).wf(),
            client_id == old(self)@.next_id,
            final(self)@ == old(self)@.register(sender),
    {
        let client_id = self.next_client_id;
        self.next_client_id = client_id + 1;
        let info = ClientInfo { user_id: None, username: None, sender };
        self.clients.insert(client_id, info);
        proof {
            let before = old(self)@;
            let after = self@;
            assert(after.connections =~= before.connections.insert(client_id, None));
            assert(after.handles =~= before.handles.insert(client_id, sender));
            assert(after =~= before.register(sender));
            assert(after.bound_connections() =~= before.bound_connections());
            assert forall|user_id: Seq<char>| #[trigger]
                after.routes.contains_key(user_id) implies after.serves(
                after.routes[user_id],
                user_id,
            ) by {
                assert(before.serves(before.routes[user_id], user_id));
            }
        }
        client_id
    }

    /// Binds an identity to a registered connection that has none yet, and
    /// routes the identity to this connection.
    pub fn bind(&mut self, client_id: usize, user_id: String, username: String) -> (r: Result<
        (),
        BindError,
    >)
        requires
            old(self).wf(),
        ensures
            final(self).wf(),
            r == old(self)@.bind_outcome(client_id),
            r is Ok ==> final(self)@ == old(self)@.bind(
                client_id,
                Identity { user_id: user_id@, username: username@ },
            ),
            r is Err ==> final(self)@ == old(self)@,
    {
        let ghost before = self@;
        let ghost identity = Identity { user_id: user_id@, username: username@ };
        match self.clients.remove(&client_id) {
            None => {
                proof {
                    assert(self.clients@ =~= old(self).clients@);
                    assert(self@.connections =~= before.connections);
                    assert(self@.handles =~= before.handles);
                    assert(self@ =~= before);
                    assert(self@.bound_connections() =~= before.bound_connections());
                }
                Err(BindError::UnknownConnection)
            },
            Some(info) => {
                if info.user_id.is_some() {
                    self.clients.insert(client_id, info);
                    proof {
                        assert(self.clients@ =~= old(self).clients@);
                        assert(self@.connections =~= before.connections);
                        assert(self@.handles =~= before.handles);
                        assert(self@ =~= before);
                        assert(self@.bound_connections() =~= before.bound_connections());
                    }
                    Err(BindError::AlreadyBound)
                } else {
                    let key = user_id.clone();
                    let bound = ClientInfo {
                        user_id: Some(user_id),
                        username: Some(username),
                        sender: info.sender,
                    };
                    self.clients.insert(client_id, bound);
                    self.user_to_client.insert(key, client_id);
                    proof {
                        let was = before.bound_connections();
                        let dom = before.connections.dom();
                        assert(was.subset_of(dom));
                        vstd::set_lib::lemma_len_subset(was, dom);
                        assert(!was.contains(client_id));
                        assert(was.insert(client_id).subset_of(dom));
                        vstd::set_lib::lemma_len_subset(was.insert(client_id), dom);
                        vstd::set::axiom_set_insert_len(was, client_id);
                        assert(dom =~= old(self).clients@.dom());
                        vstd::std_specs::hash::axiom_spec_hash_map_len(&old(self).clients);
                        assert(old(self).clients@.len() == dom.len());
                        assert(was.len() + 1 <= usize::MAX);
                        assert(self.bound_clients == was.len());
                    }
                    self.bound_clients = self.bound_clients + 1;
                    proof {
                        let after = self@;
                        assert(after.bound_connections() =~= before.bound_connections().insert(
                            client_id,
                        ));
                        assert(after.connections =~= before.connections.insert(
                            client_id,
                            Some(identity),
                        ));
                        assert(after.handles =~= before.handles);
                        assert(after =~= before.bind(client_id, identity));
                        assert forall|id: Seq<char>| #[trigger]
                            after.routes.contains_key(id) implies after.serves(
                            after.routes[id],
                            id,
                        ) by {
                            if id != identity.user_id {
                                assert(before.serves(before.routes[id], id));
                            }
                        }
                    }
                    Ok(())
                }
            },
        }
    }

    /// Removes a connection. If it carried an identity, the identity is
    /// returned, and its route is dropped unless a later binding has already
    /// redirected it to another connection.
    pub fn unbind(&mut self, client_id: usize) -> (r: Option<String>)
        requires
            old(self).wf(),
        ensures
            final(self).wf(),
            final(self)@ == old(self)@.unbind(client_id),
            view_opt(r) == match old(self)@.identity_of(client_id) {
                Some(identity) => Some(identity.user_id),
                None => None,
            },
    {
        let ghost before = self@;
        match self.clients.remove(&client_id) {
            None => {
                proof {
                    assert(self.clients@ =~= old(self).clients@);
                    assert(self@.connections =~= before.connections.remove(client_id));
                    assert(self@.handles =~= before.handles.remove(client_id));
                    assert(self@ =~= before.unbind(client_id));
                    assert(self@.bound_connections() =~= before.bound_connections());
                }
                None
            },
            Some(info) => {
                proof {
                    assert(self@.connections =~= before.connections.remove(client_id));
                    assert(self@.handles =~= before.handles.remove(client_id));
                }
                match info.user_id {
                    None => {
                        proof {
                            assert(self@ =~= before.unbind(client_id));
                            assert(self@.bound_connections() =~= before.bound_connections());
                            assert forall|id: Seq<char>| #[trigger]
                                self@.routes.contains_key(id) implies self@.serves(
                                self@.routes[id],
                                id,
                            ) by {
                                assert(before.serves(before.routes[id], id));
                            }
                        }
                        None
                    },
                    Some(user_id) => {
                        let routed_here = match self.user_to_client.get(user_id.as_str()) {
                            Some(c) => *c == client_id,
                            None => false,
                        };
                        if routed_here {
                            self.user_to_client.remove(user_id.as_str());
                        }
                        proof {
                            let was = before.bound_connections();
                            assert(was.contains(client_id));
                            assert(was.subset_of(before.connections.dom()));
                            vstd::set_lib::lemma_len_subset(was, before.connections.dom());
                            vstd::set::axiom_set_remove_len(was, client_id);
                            assert(self.bound_clients == was.len());
                        }
                        self.bound_clients = self.bound_clients - 1;
                        proof {
                            assert(self@.bound_connections() =~= before.bound_connections().remove(
                                client_id,
                            ));
                            assert(self@.routes =~= before.routes_without(client_id));
                            assert(self@ =~= before.unbind(client_id));
                            assert forall|id: Seq<char>| #[trigger]
                                self@.routes.contains_key(id) implies self@.serves(
                                self@.routes[id],
                                id,
                            ) by {
                                assert(before.serves(before.routes[id], id));
                            }
                        }
                        Some(user_id)
                    },
                }
            },
        }
    }

    /// The connection through which an identity is reached right now.
    pub fn lookup_connection_for_identity(&self, user_id: &str) -> (r: Option<usize>)
        ensures
            r == self@.lookup(user_id@),
    {
        match self.user_to_client.get(user_id) {
            Some(c) => Some(*c),
            None => None,
        }
    }

    /// Whether a connection is live and carries an identity.
    pub fn is_bound(&self, client_id: usize) -> (r: bool)
        requires
            self.wf(),
        ensures
            r == self@.is_bound(client_id),
    {
        match self.clients.get(&client_id) {
            Some(info) => info.user_id.is_some(),
            None => false,
        }
    }

    /// The subject identifier bound to a connection.
    pub fn user_id_of(&self, client_id: usize) -> (r: Option<String>)
        requires
            self.wf(),
        ensures
            view_opt(r) == match self@.identity_of(client_id) {
                Some(identity) => Some(identity.user_id),
                None => None,
            },
    {
        match self.clients.get(&client_id) {
            Some(info) => match &info.user_id {
                Some(user_id) => Some(user_id.clone()),
                None => None,
            },
            None => None,
        }
    }

    /// The display name bound to a connection.
    pub fn username_of(&self, client_id: usize) -> (r: Option<String>)
        requires
            self.wf(),
        ensures
            view_opt(r) == match self@.identity_of(client_id) {
                Some(identity) => Some(identity.username),
                None => None,
            },
    {
        match self.clients.get(&client_id) {
            Some(info) => match &info.username {
                Some(username) => Some(username.clone()),
                None => None,
            },
            None => None,
        }
    }

    /// The outbound handle of a live connection.
    pub fn sender_of(&self, client_id: usize) -> (r: Option<&H>)
        ensures
            match r {
                Some(handle) => self@.handles.contains_key(client_id) && *handle
                    == self@.handles[client_id],
                None => !self@.handles.contains_key(client_id),
            },
    {
        match self.clients.get(&client_id) {
            Some(info) => Some(&info.sender),
            None => None,
        }
    }

    /// The number of live connections.
    pub fn connection_count(&self) -> (r: usize)
        ensures
            r == self@.connections.len(),
    {
        proof {
            assert(self@.connections.dom() =~= self.clients@.dom());
        }
        self.clients.len()
    }

    /// The number of live connections that carry an identity.
    pub fn bound_count(&self) -> (r: usize)
        requires
            self.wf(),
        ensures
            r == self@.bound_connections().len(),
    {
        self.bound_clients
    }
}

/// Last bind wins. When one identity is bound first to connection `older`
/// and then to connection `newer`, the identity has a single route, which
/// leads to `newer`; the routes of other identities are as before.
pub proof fn lemma_rebinding_keeps_one_route<H>(
    registry: RegistryView<H>,
    older: usize,
    newer: usize,
    first: Identity,
    second: Identity,
)
    requires
        registry.wf(),
        older != newer,
        registry.bind_outcome(older) is Ok,
        registry.bind_outcome(newer) is Ok,
        first.user_id == second.user_id,
    ensures
        registry.bind(older, first).bind_outcome(newer) is Ok,
        registry.bind(older, first).bind(newer, second).wf(),
        registry.bind(older, first).bind(newer, second).lookup(first.user_id) == Some(newer),
        registry.bind(older, first).bind(newer, second).routes == registry.routes.insert(
            first.user_id,
            newer,
        ),
{
    let once = registry.bind(older, first);
    let twice = once.bind(newer, second);
    assert(twice.routes =~= registry.routes.insert(first.user_id, newer));
    assert(twice.connections.dom() =~= registry.connections.dom());
    assert forall|id: Seq<char>| #[trigger] twice.routes.contains_key(id) implies twice.serves(
        twice.routes[id],
        id,
    ) by {
        if id != first.user_id {
            assert(registry.serves(registry.routes[id], id));
        }
    }
}

/// Removing a superseded connection leaves the newer route alone: if an
/// identity is routed to `newer`, removing any other connection does not
/// change where the identity is reached, and the registry stays well formed.
pub proof fn lemma_unbind_spares_newer_route<H>(
    registry: RegistryView<H>,
    older: usize,
    newer: usize,
    user_id: Seq<char>,
)
    requires
        registry.wf(),
        older != newer,
        registry.lookup(user_id) == Some(newer),
    ensures
        registry.unbind(older).wf(),
        registry.unbind(older).lookup(user_id) == Some(newer),
        registry.unbind(older).is_bound(newer),
{
    let after = registry.unbind(older);
    assert(registry.serves(registry.routes[user_id], user_id));
    assert forall|id: Seq<char>| #[trigger] after.routes.contains_key(id) implies after.serves(
        after.routes[id],
        id,
    ) by {
        assert(registry.serves(registry.routes[id], id));
    }
}

/// A connection that is gone stays gone: its identifier is never handed out
/// again, no identity can be bound to it, and no route leads to it.
pub proof fn lemma_removed_connection_is_gone<H>(
    registry: RegistryView<H>,
    client_id: usize,
    handle: H,
    user_id: Seq<char>,
)
    requires
        registry.wf(),
        registry.next_id < usize::MAX,
    ensures
        registry.unbind(client_id).wf(),
        !registry.unbind(client_id).connections.contains_key(client_id),
        registry.unbind(client_id).lookup(user_id) != Some(client_id),
        registry.unbind(client_id).bind_outcome(client_id) == Err::<(), BindError>(
            BindError::UnknownConnection,
        ),
        registry.connections.contains_key(client_id) ==> !registry.unbind(client_id).register(
            handle,
        ).connections.contains_key(client_id),
{
    let after = registry.unbind(client_id);
    assert forall|id: Seq<char>| #[trigger] after.routes.contains_key(id) implies after.serves(
        after.routes[id],
        id,
    ) by {
        assert(registry.serves(registry.routes[id], id));
    }
    if after.routes.contains_key(user_id) {
        assert(after.serves(after.routes[user_id], user_id));
    }
}

} // verus!
