//! The validator of one worker: the pool of egress clients and the worker's
//! place in the rotation over them.

use vstd::prelude::*;
use reqwest::blocking::Client;
use reqwest::Error;
use crate::egress::{client_routes, http_proxy, proxy_accepted, route_of};
use crate::exchange::{request_of, Exchange};
use crate::rotation::{law_neighbours_stay_apart, lemma_offset_modulo_pool, pick_slot, slot_of};

verus! {

/// Why no validator could be made.
#[derive(Debug)]
pub enum ConfigError {
    /// The proxy address at `index` is not one that a client can be bound to.
    BadProxy { index: usize, cause: Error },
    /// The client for slot `index` of the pool could not be built.
    NoClient { index: usize, cause: Error },
}

/// Every one of the first `n` addresses is accepted as a proxy.
pub open spec fn accepted_before(proxies: Seq<String>, n: int) -> bool {
    forall|j: int| 0 <= j < n ==> proxy_accepted(#[trigger] proxies[j]@)
}

/// The pool has one client for each address, in the order of the addresses,
/// and the client in each slot sends through the proxy at its address and
/// through no other.
pub open spec fn bound_in_order(pool: Seq<Client>, proxies: Seq<String>) -> bool {
    &&& pool.len() == proxies.len()
    &&& forall|i: int|
        0 <= i < proxies.len() ==> client_routes(#[trigger] pool[i]) == seq![
            route_of(proxies[i]@),
        ]
}

/// How far a worker has come: the calls it has made, and where in the round
/// that leaves it.
#[derive(Clone, Copy)]
struct Progress {
    turn: usize,
    calls: Ghost<nat>,
}

/// A pool of egress clients together with one worker's position in the
/// round-robin over them.
pub struct Validator {
    clients: Vec<Client>,
    offset: usize,
    progress: Progress,
}

impl Validator {
    #[verifier::type_invariant]
    spec fn well_formed(self) -> bool {
        &&& self.clients@.len() > 0
        &&& self.progress.turn == self.progress.calls@ % self.clients@.len()
    }

    /// The clients of the pool, in slot order.
    pub closed spec fn pool(&self) -> Seq<Client> {
        self.clients@
    }

    /// The worker's starting offset into the pool.
    pub closed spec fn offset(&self) -> nat {
        self.offset as nat
    }

    /// How many clients this validator has handed out so far.
    pub closed spec fn calls(&self) -> nat {
        self.progress.calls@
    }

    /// The slot of the client that is handed out next.
    pub open spec fn next_slot(&self) -> nat {
        slot_of(self.pool().len(), self.offset(), self.calls())
    }

    /// A validator over the given clients, in their order, for a worker that
    /// starts at the first of them. A pool cannot be empty: without a client
    /// there is no validator.
    pub fn over(clients: Vec<Client>) -> (made: Option<Validator>)
        ensures
            made is Some == (clients@.len() > 0),
            made matches Some(validator) ==> {
                &&& validator.pool() == clients@
                &&& validator.offset() == 0
                &&& validator.calls() == 0
            },
    {
        if clients.len() == 0 {
            None
        } else {
            proof {
                vstd::arithmetic::div_mod::lemma_small_mod(0, clients@.len());
            }
            Some(Validator { clients, offset: 0, progress: Progress { turn: 0, calls: Ghost(0) } })
        }
    }

    /// A validator with one client, which goes out directly: through no
    /// proxy, not even one that the environment names. It fails only where
    /// that client cannot be built.
    pub fn new() -> (made: Result<Validator, ConfigError>)
        ensures
            match made {
                Ok(validator) => {
                    &&& validator.pool().len() == 1
                    &&& client_routes(validator.pool()[0]) == Seq::<Seq<char>>::empty()
                    &&& validator.offset() == 0
                    &&& validator.calls() == 0
                },
                Err(ConfigError::NoClient { index, .. }) => index == 0,
                Err(ConfigError::BadProxy { .. }) => false,
            },
    {
        match Client::builder().no_proxy().build() {
            Ok(client) => {
                let mut clients: Vec<Client> = Vec::new();
                clients.push(client);
                Ok(Validator { clients, offset: 0, progress: Progress { turn: 0, calls: Ghost(0) } })
            },
            Err(cause) => Err(ConfigError::NoClient { index: 0, cause }),
        }
    }

    /// A validator with one client for each proxy address, in the order of
    /// the addresses, each client bound to its address and to nothing else,
    /// or with one direct client where there is no address.
    ///
    /// The addresses are taken in order, each parsed and then given its
    /// client, and the first failure ends the call: `BadProxy` names the
    /// first address that is not accepted, `NoClient` the first slot whose
    /// client could not be built.
    pub fn from(proxies: Vec<String>) -> (made: Result<Validator, ConfigError>)
        ensures
            match made {
                Ok(validator) => {
                    &&& accepted_before(proxies@, proxies@.len() as int)
                    &&& if proxies@.len() == 0 {
                        &&& validator.pool().len() == 1
                        &&& client_routes(validator.pool()[0]) == Seq::<Seq<char>>::empty()
                    } else {
                        bound_in_order(validator.pool(), proxies@)
                    }
                    &&& validator.offset() == 0
                    &&& validator.calls() == 0
                },
                Err(ConfigError::BadProxy { index, .. }) => {
                    &&& index < proxies@.len()
                    &&& accepted_before(proxies@, index as int)
                    &&& !proxy_accepted(proxies@[index as int]@)
                },
                Err(ConfigError::NoClient { index, .. }) => if proxies@.len() == 0 {
                    index == 0
                } else {
                    &&& index < proxies@.len()
                    &&& accepted_before(proxies@, index + 1)
                },
            },
    {
        let n: usize = proxies.len();
        if n == 0 {
            return Validator::new();
        }
        let mut clients: Vec<Client> = Vec::new();
        let mut i: usize = 0;
        while i < n
            invariant
                i <= n,
                n == proxies@.len(),
                clients@.len() == i,
                accepted_before(proxies@, i as int),
                bound_in_order(clients@, proxies@.take(i as int)),
            decreases n - i,
        {
            let proxy = match http_proxy(proxies[i].as_str()) {
                Ok(proxy) => proxy,
                Err(cause) => {
                    return Err(ConfigError::BadProxy { index: i, cause });
                },
            };
            let client = match Client::builder().proxy(proxy).build() {
                Ok(client) => client,
                Err(cause) => {
                    return Err(ConfigError::NoClient { index: i, cause });
                },
            };
            clients.push(client);
            i = i + 1;
        }
        proof {
            assert(proxies@.take(n as int) =~= proxies@);
            vstd::arithmetic::div_mod::lemma_small_mod(0, clients@.len());
        }
        Ok(Validator { clients, offset: 0, progress: Progress { turn: 0, calls: Ghost(0) } })
    }

    /// The number of clients in the pool: never zero.
    pub fn client_count(&self) -> (count: usize)
        ensures
            count == self.pool().len(),
            count > 0,
    {
        proof {
            use_type_invariant(self);
        }
        self.clients.len()
    }

    /// The client that a worker with starting offset `worker_offset` uses on
    /// its call number `call_index`, counted from zero. Nothing changes: the
    /// same two numbers name the same client every time.
    pub fn pick(&self, worker_offset: usize, call_index: usize) -> (client: &Client)
        ensures
            slot_of(self.pool().len(), worker_offset as nat, call_index as nat) < self.pool().len(),
            *client == self.pool()[slot_of(
                self.pool().len(),
                worker_offset as nat,
                call_index as nat,
            ) as int],
    {
        proof {
            use_type_invariant(self);
        }
        &self.clients[pick_slot(self.clients.len(), worker_offset, call_index)]
    }

    /// The slot of the client that `next_client` hands out next.
    pub fn position(&self) -> (slot: usize)
        ensures
            slot == self.next_slot(),
            slot < self.pool().len(),
    {
        proof {
            use_type_invariant(self);
            vstd::arithmetic::div_mod::lemma_add_mod_noop_right(
                self.offset as int,
                self.progress.calls@ as int,
                self.clients@.len() as int,
            );
        }
        pick_slot(self.clients.len(), self.offset, self.progress.turn)
    }

    /// Sets the worker's starting offset. The pool and the count of calls
    /// stay as they are.
    pub fn set_client_offset(&mut self, o: usize)
        ensures
            final(self).offset() == o,
            final(self).calls() == old(self).calls(),
            final(self).pool() == old(self).pool(),
    {
        proof {
            use_type_invariant(&*self);
        }
        self.offset = o;
    }

    /// Gives worker number `worker` its place in the rotation: its starting
    /// offset is its number, kept modulo the size of the pool, so that its
    /// first pick is slot `worker mod len` and workers with numbers next to
    /// each other start on clients next to each other.
    pub fn assign(&mut self, worker: usize)
        ensures
            final(self).offset() == (worker as nat) % old(self).pool().len(),
            forall|call: nat|
                slot_of(old(self).pool().len(), final(self).offset(), call) == #[trigger] slot_of(
                    old(self).pool().len(),
                    worker as nat,
                    call,
                ),
            final(self).calls() == old(self).calls(),
            final(self).pool() == old(self).pool(),
    {
        proof {
            use_type_invariant(&*self);
        }
        let len: usize = self.clients.len();
        let offset: usize = worker % len;
        proof {
            assert forall|call: nat|
                slot_of(len as nat, offset as nat, call) == #[trigger] slot_of(
                    len as nat,
                    worker as nat,
                    call,
                ) by {
                lemma_offset_modulo_pool(len as nat, worker as nat, call);
            }
        }
        self.offset = offset;
    }

    /// Begins the validation of `tok`: takes the next client of the rotation
    /// and opens the exchange that sends the credential through it.
    pub fn validate<'a>(&'a mut self, tok: &str) -> (exchange: Exchange<'a>)
        ensures
            old(self).next_slot() < old(self).pool().len(),
            exchange.client_of() == old(self).pool()[old(self).next_slot() as int],
            request_of(tok@, exchange.request_sent()),
            exchange.failures_so_far() == 0,
            final(self).calls() == old(self).calls() + 1,
            final(self).offset() == old(self).offset(),
            final(self).pool() == old(self).pool(),
    {
        let client = self.next_client();
        Exchange::begin(client, tok)
    }

    /// Hands out the next client of the rotation, the one in slot
    /// `(offset + calls) mod len`, and counts the call.
    pub fn next_client(&mut self) -> (client: &Client)
        ensures
            old(self).next_slot() < old(self).pool().len(),
            *client == old(self).pool()[old(self).next_slot() as int],
            final(self).calls() == old(self).calls() + 1,
            final(self).offset() == old(self).offset(),
            final(self).pool() == old(self).pool(),
    {
        let slot: usize = self.position();
        self.advance();
        &self.clients[slot]
    }

    /// Counts one call.
    fn advance(&mut self)
        ensures
            final(self).calls() == old(self).calls() + 1,
            final(self).offset() == old(self).offset(),
            final(self).pool() == old(self).pool(),
    {
        proof {
            use_type_invariant(&*self);
        }
        let len: usize = self.clients.len();
        let turn: usize = if self.progress.turn + 1 == len {
            0
        } else {
            self.progress.turn + 1
        };
        proof {
            let l = len as int;
            let c = self.progress.calls@ as int;
            vstd::arithmetic::div_mod::lemma_add_mod_noop(c, 1, l);
            if l > 1 {
                vstd::arithmetic::div_mod::lemma_small_mod(1, l as nat);
                if self.progress.turn + 1 == len {
                    vstd::arithmetic::div_mod::lemma_mod_self_0(l);
                } else {
                    vstd::arithmetic::div_mod::lemma_small_mod(
                        (self.progress.turn + 1) as nat,
                        l as nat,
                    );
                }
            }
        }
        self.progress = Progress { turn, calls: Ghost((self.progress.calls@ + 1) as nat) };
    }
}

/// Selection is a function of the pool, the offset and the count of calls
/// alone: two validators that agree on the three hand out the same client
/// next, and go on agreeing after as many further calls as one likes.
pub proof fn law_selection_is_deterministic(a: Validator, b: Validator, ahead: nat)
    requires
        a.pool() == b.pool(),
        a.offset() == b.offset(),
        a.calls() == b.calls(),
    ensures
        a.next_slot() == b.next_slot(),
        a.pool()[a.next_slot() as int] == b.pool()[b.next_slot() as int],
        slot_of(a.pool().len(), a.offset(), a.calls() + ahead) == slot_of(
            b.pool().len(),
            b.offset(),
            b.calls() + ahead,
        ),
{
}

/// Workers fan out over the pool: two workers whose numbers differ by less
/// than the size of the pool, each at the offset that `assign` gives it, are
/// on different clients at their first pick, and on different clients again
/// whenever both have made the same number of calls.
pub proof fn law_workers_fan_out(a: Validator, b: Validator, first: nat, second: nat)
    requires
        a.pool() == b.pool(),
        a.pool().len() > 0,
        a.offset() == first % a.pool().len(),
        b.offset() == second % b.pool().len(),
        a.calls() == b.calls(),
        first != second,
        first - second < a.pool().len(),
        second - first < a.pool().len(),
    ensures
        a.next_slot() != b.next_slot(),
{
    law_neighbours_stay_apart(a.pool().len(), first, second, a.calls());
}

impl Clone for Validator {
    /// A validator over clones of the same clients, at the same place in
    /// the rotation.
    fn clone(&self) -> (copy: Self)
        ensures
            copy.pool().len() == self.pool().len(),
            forall|i: int|
                0 <= i < self.pool().len() ==> cloned::<Client>(
                    #[trigger] self.pool()[i],
                    copy.pool()[i],
                ),
            copy.offset() == self.offset(),
            copy.calls() == self.calls(),
    {
        proof {
            use_type_invariant(self);
        }
        Validator { clients: self.clients.clone(), offset: self.offset, progress: self.progress }
    }
}

} // verus!
