use vstd::prelude::*;
use crate::connection::{Action, ConnectionState, handled};
use crate::error::{Error, ErrorKind};
use crate::message::{Hook, HookModel, Message};
use crate::queued::{QueueModel, QueuedClient};

verus! {

/// A message received from the transport, ready for dispatch.
pub trait IncomingMessage {
    fn into_message(self) -> Message where Self: Sized;
}

/// The RPC system of one vat: its bootstrap capability and the state of its
/// connection to the peer, if one is open. At this level there is at most
/// one peer.
pub struct RpcSystem {
    pub bootstrap_cap: Hook,
    pub connection: Option<ConnectionState>,
}

/// Marks a server of this vat that is handed out as a capability.
pub struct Server;

impl Server {
    /// The hook for the server of this vat known by `server_id`.
    pub fn new_client(server_id: u64) -> (r: Hook)
        ensures
            r@ == HookModel::Local(server_id),
    {
        Hook::Local(server_id)
    }
}

/// A client for a capability that is not known yet, named `promise_id` in
/// this vat: calls on it are queued until it resolves.
pub fn new_promise_client<C>(promise_id: u64) -> (r: (QueuedClient<C, Hook>, Hook))
    ensures
        r.0@ == QueueModel::<C, Hook>::Pending(Seq::empty()),
        r.1@ == HookModel::Promise(promise_id),
{
    (QueuedClient::new(), Hook::Promise(promise_id))
}

impl RpcSystem {
    pub open spec fn wf(&self) -> bool {
        self.connection matches Some(c) ==> c.wf() && c.disconnected is None
    }

    /// A system offering `bootstrap` to peers; without one, peers get a
    /// hook on which every call fails.
    pub fn new(bootstrap: Option<Hook>) -> (r: RpcSystem)
        ensures
            r.wf(),
            r.connection is None,
            match bootstrap {
                Some(h) => r.bootstrap_cap == h,
                None => r.bootstrap_cap@ == HookModel::Broken(ErrorKind::Failed),
            },
    {
        let bootstrap_cap = match bootstrap {
            Some(h) => h,
            None => Hook::Broken(ErrorKind::Failed),
        };
        RpcSystem { bootstrap_cap, connection: None }
    }

    /// Makes sure a connection state is installed, reusing the one there
    /// is; returns whether a new one was made.
    pub fn get_connection_state(&mut self) -> (r: bool)
        requires
            old(self).wf(),
        ensures
            final(self).wf(),
            final(self).bootstrap_cap == old(self).bootstrap_cap,
            r == old(self).connection is None,
            !r ==> final(self).connection == old(self).connection,
            r ==> (final(self).connection matches Some(c) && c.bootstrap@ == old(self).bootstrap_cap@
                && c.questions@ == Map::<u32, crate::connection::Question>::empty()
                && c.answers@ == Map::<u32, crate::connection::Answer>::empty()
                && c.exports@ == Map::<u32, crate::connection::Export>::empty()
                && c.imports@ == Map::<u32, crate::connection::Import>::empty()
                && c.embargoes@ == Map::<u32, crate::connection::Embargo>::empty()
                && c.disconnected is None),
    {
        if self.connection.is_some() {
            return false;
        }
        self.connection = Some(ConnectionState::new(self.bootstrap_cap.duplicate()));
        true
    }

    /// A connection from the peer was accepted: its state is installed.
    pub fn accept(&mut self)
        requires
            old(self).wf(),
        ensures
            final(self).wf(),
            final(self).connection is Some,
            final(self).bootstrap_cap == old(self).bootstrap_cap,
            old(self).connection is Some ==> final(self).connection == old(self).connection,
            old(self).connection is None ==> (final(self).connection matches Some(c) && c.bootstrap@
                == old(self).bootstrap_cap@ && c.disconnected is None
                && c.questions@ == Map::<u32, crate::connection::Question>::empty()
                && c.answers@ == Map::<u32, crate::connection::Answer>::empty()
                && c.exports@ == Map::<u32, crate::connection::Export>::empty()
                && c.imports@ == Map::<u32, crate::connection::Import>::empty()
                && c.embargoes@ == Map::<u32, crate::connection::Embargo>::empty()),
    {
        self.get_connection_state();
    }

    /// The bootstrap capability of a vat: this vat's own where `is_local`,
    /// else the peer's, asked for over the connection (made if need be).
    /// Returns the hook and what to do.
    pub fn bootstrap(&mut self, is_local: bool) -> (r: Result<(Hook, Vec<Action>), Error>)
        requires
            old(self).wf(),
        ensures
            final(self).wf(),
            final(self).bootstrap_cap == old(self).bootstrap_cap,
            is_local ==> *final(self) == *old(self) && (r matches Ok((h, acts)) && h@ == old(self).bootstrap_cap@
                && acts@.len() == 0),
            !is_local ==> final(self).connection is Some,
            !is_local && r is Ok ==> (r matches Ok((h, acts)) && h is Pipeline && h->Pipeline_1@.len() == 0
                && acts@.len() == 1 && acts@[0] == Action::Send(Message::Bootstrap { question_id: h->Pipeline_0 })
                && (final(self).connection matches Some(c) && c.questions@.contains_key(h->Pipeline_0)
                && c.questions@[h->Pipeline_0].awaiting_return)),
            !is_local && old(self).connection is None ==> r is Ok,
            !is_local && r is Err ==> (old(self).connection matches Some(c) && forall|k: u32| #[trigger]
                c.questions@.contains_key(k)),
    {
        if is_local {
            return Ok((self.bootstrap_cap.duplicate(), Vec::new()));
        }
        self.get_connection_state();
        let mut conn = match self.connection.take() {
            Some(c) => c,
            None => {
                return Err(Error::disconnected("no connection".to_owned()));
            },
        };
        let ghost fresh = old(self).connection is None;
        let ghost before = conn;
        let res = conn.send_bootstrap();
        proof {
            if fresh {
                assert(!before.questions@.contains_key(0u32));
            }
        }
        self.connection = Some(conn);
        match res {
            Ok((h, m)) => {
                let mut acts: Vec<Action> = Vec::new();
                acts.push(Action::Send(m));
                Ok((h, acts))
            },
            Err(e) => Err(e),
        }
    }

    /// Hands an inbound message to the connection. Once the connection has
    /// ended, its state is dropped so that a later one starts afresh.
    pub fn handle_message(&mut self, msg: Message) -> (r: Vec<Action>)
        requires
            old(self).wf(),
        ensures
            final(self).wf(),
            final(self).bootstrap_cap == old(self).bootstrap_cap,
            old(self).connection is None ==> final(self).connection is None && r@.len() == 0,
            old(self).connection is Some ==> exists|c1: ConnectionState| #[trigger] handled(
                old(self).connection->Some_0,
                c1,
                msg,
                r@,
            ) && if c1.disconnected is Some {
                final(self).connection is None
            } else {
                final(self).connection == Some(c1)
            },
    {
        let mut conn = match self.connection.take() {
            Some(c) => c,
            None => {
                return Vec::new();
            },
        };
        let r = conn.handle_message(msg);
        let ghost c1 = conn;
        assert(handled(old(self).connection->Some_0, c1, msg, r@));
        if conn.is_disconnected() {
            self.connection = None;
        } else {
            self.connection = Some(conn);
        }
        r
    }

    /// Shuts the system down: the connection, if any, is aborted and
    /// dropped, failing every pending question.
    pub fn shutdown(&mut self) -> (r: Vec<Action>)
        requires
            old(self).wf(),
        ensures
            final(self).wf(),
            final(self).connection is None,
            final(self).bootstrap_cap == old(self).bootstrap_cap,
            old(self).connection is None ==> r@.len() == 0,
            old(self).connection is Some ==> r@.len() == 2 && (r@[0] matches Action::Send(Message::Abort(e))
                && e.kind == ErrorKind::Disconnected) && r@[1] is Disconnected
                && r@[1]->failed_questions@.to_set() =~= old(self).connection->Some_0.questions@.dom()
                && r@[1]->Disconnected_error.kind == ErrorKind::Disconnected,
    {
        match self.connection.take() {
            Some(mut c) => c.disconnect(Error::disconnected("the RPC system was shut down".to_owned()), true),
            None => Vec::new(),
        }
    }
}

} // verus!
