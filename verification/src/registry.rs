//! The set of clients that are connected, and the fan-out of display
//! messages to them.

use crate::error::SessionError;
use crate::message::{ServerMessage, ServerMessageView};
use vstd::prelude::*;

verus! {

/// One live client session, known by the number of its connection.
#[derive(Clone, Copy, PartialEq, Eq, Debug, Hash, Structural)]
pub struct ConnectedClient {
    pub id: u64,
}

/// One message on its way to one client.
#[derive(Debug, PartialEq, Eq)]
pub struct Delivery {
    pub client: ConnectedClient,
    pub message: ServerMessage,
}

/// What a `Delivery` holds, as mathematical values.
pub struct DeliveryView {
    pub client: ConnectedClient,
    pub message: ServerMessageView,
}

impl View for Delivery {
    type V = DeliveryView;

    open spec fn view(&self) -> DeliveryView {
        DeliveryView { client: self.client, message: self.message@ }
    }
}

impl DeepView for Delivery {
    type V = DeliveryView;

    open spec fn deep_view(&self) -> DeliveryView {
        self@
    }
}

/// One message for each of `clients`, in their order.
pub open spec fn to_each(clients: Seq<ConnectedClient>, message: ServerMessageView) -> Seq<
    DeliveryView,
> {
    Seq::new(clients.len(), |i: int| DeliveryView { client: clients[i], message })
}

/// Each of `messages` in turn, for each of `clients`.
pub open spec fn fan_out(clients: Seq<ConnectedClient>, messages: Seq<ServerMessageView>) -> Seq<
    DeliveryView,
>
    decreases messages.len(),
{
    if messages.len() == 0 {
        Seq::empty()
    } else {
        fan_out(clients, messages.drop_last()) + to_each(clients, messages.last())
    }
}

/// The messages that `plan` holds for `client`, in the order of the plan.
pub open spec fn received_by(plan: Seq<DeliveryView>, client: ConnectedClient) -> Seq<
    ServerMessageView,
>
    decreases plan.len(),
{
    if plan.len() == 0 {
        Seq::empty()
    } else if plan.last().client == client {
        received_by(plan.drop_last(), client).push(plan.last().message)
    } else {
        received_by(plan.drop_last(), client)
    }
}

/// The members that are left when the one at `i` goes: the last member
/// takes its place.
pub open spec fn without_member(clients: Seq<ConnectedClient>, i: int) -> Seq<ConnectedClient> {
    clients.update(i, clients.last()).drop_last()
}

/// What a client receives from two plans, one after the other, is what it
/// receives from the first and then from the second.
pub proof fn lemma_received_by_concat(
    first: Seq<DeliveryView>,
    second: Seq<DeliveryView>,
    client: ConnectedClient,
)
    ensures
        received_by(first + second, client) == received_by(first, client) + received_by(
            second,
            client,
        ),
    decreases second.len(),
{
    if second.len() > 0 {
        assert((first + second).drop_last() =~= first + second.drop_last());
        lemma_received_by_concat(first, second.drop_last(), client);
    }
}

/// Of one message sent to every member, a member receives that message
/// once, and a stranger receives nothing.
pub proof fn lemma_received_from_each(
    clients: Seq<ConnectedClient>,
    message: ServerMessageView,
    client: ConnectedClient,
)
    requires
        clients.no_duplicates(),
    ensures
        clients.contains(client) ==> received_by(to_each(clients, message), client) == seq![
            message,
        ],
        !clients.contains(client) ==> received_by(to_each(clients, message), client)
            == Seq::<ServerMessageView>::empty(),
    decreases clients.len(),
{
    let plan = to_each(clients, message);
    if clients.len() > 0 {
        let rest = clients.drop_last();
        assert(plan.drop_last() =~= to_each(rest, message));
        lemma_received_from_each(rest, message, client);
        if clients.last() == client {
            assert(!rest.contains(client)) by {
                if rest.contains(client) {
                    let i = choose|i: int| 0 <= i < rest.len() && rest[i] == client;
                    assert(clients[i] == clients[clients.len() - 1]);
                }
            }
        } else {
            assert(clients.contains(client) == rest.contains(client)) by {
                if clients.contains(client) {
                    let i = choose|i: int| 0 <= i < clients.len() && clients[i] == client;
                    assert(rest[i] == client);
                }
                if rest.contains(client) {
                    let i = choose|i: int| 0 <= i < rest.len() && rest[i] == client;
                    assert(clients[i] == client);
                }
            }
        }
    }
}

/// Fan-out: every registered client receives the same messages, all of
/// them and in their order, whatever other clients are registered; and
/// nothing goes to a client that is not registered.
pub proof fn lemma_fan_out_reaches_all(
    clients: Seq<ConnectedClient>,
    messages: Seq<ServerMessageView>,
    client: ConnectedClient,
)
    requires
        clients.no_duplicates(),
    ensures
        clients.contains(client) ==> received_by(fan_out(clients, messages), client) == messages,
        !clients.contains(client) ==> received_by(fan_out(clients, messages), client)
            == Seq::<ServerMessageView>::empty(),
    decreases messages.len(),
{
    if messages.len() > 0 {
        let earlier = fan_out(clients, messages.drop_last());
        let latest = to_each(clients, messages.last());
        lemma_fan_out_reaches_all(clients, messages.drop_last(), client);
        lemma_received_from_each(clients, messages.last(), client);
        lemma_received_by_concat(earlier, latest, client);
    }
}

/// The deliveries of `plan` that arrive, where `sent` tells of each whether
/// its send succeeded.
pub open spec fn arrived(plan: Seq<DeliveryView>, sent: Seq<bool>) -> Seq<DeliveryView>
    decreases plan.len(),
{
    if plan.len() == 0 {
        Seq::empty()
    } else if sent.last() {
        arrived(plan.drop_last(), sent.drop_last()).push(plan.last())
    } else {
        arrived(plan.drop_last(), sent.drop_last())
    }
}

/// What arrives at a client whose own sends succeed is all that the plan
/// holds for it, whichever other sends fail.
pub proof fn lemma_arrived_for_client(
    plan: Seq<DeliveryView>,
    sent: Seq<bool>,
    client: ConnectedClient,
)
    requires
        sent.len() == plan.len(),
        forall|k: int| 0 <= k < plan.len() && plan[k].client == client ==> sent[k],
    ensures
        received_by(arrived(plan, sent), client) == received_by(plan, client),
    decreases plan.len(),
{
    if plan.len() > 0 {
        lemma_arrived_for_client(plan.drop_last(), sent.drop_last(), client);
        if sent.last() {
            let before = arrived(plan.drop_last(), sent.drop_last());
            assert(before.push(plan.last()).drop_last() =~= before);
        }
    }
}

/// A send that fails takes nothing from the other clients: in an update
/// cycle, a registered client whose own sends succeed receives every
/// message, in order, whatever becomes of the sends to the others.
pub proof fn lemma_failure_is_contained(
    clients: Seq<ConnectedClient>,
    messages: Seq<ServerMessageView>,
    sent: Seq<bool>,
    client: ConnectedClient,
)
    requires
        clients.no_duplicates(),
        clients.contains(client),
        sent.len() == fan_out(clients, messages).len(),
        forall|k: int|
            0 <= k < sent.len() && fan_out(clients, messages)[k].client == client ==> sent[k],
    ensures
        received_by(arrived(fan_out(clients, messages), sent), client) == messages,
{
    lemma_arrived_for_client(fan_out(clients, messages), sent, client);
    lemma_fan_out_reaches_all(clients, messages, client);
}

/// Removing the member at `i` removes that member and no other.
pub proof fn lemma_without_member(clients: Seq<ConnectedClient>, i: int)
    requires
        clients.no_duplicates(),
        0 <= i < clients.len(),
    ensures
        without_member(clients, i).no_duplicates(),
        without_member(clients, i).len() == clients.len() - 1,
        forall|c: ConnectedClient|
            without_member(clients, i).contains(c) <==> clients.contains(c) && c != clients[i],
{
    let left = without_member(clients, i);
    assert forall|c: ConnectedClient| left.contains(c) <==> clients.contains(c) && c
        != clients[i] by {
        if left.contains(c) {
            let k = choose|k: int| 0 <= k < left.len() && left[k] == c;
            if k == i {
                assert(clients[clients.len() - 1] == c);
            } else {
                assert(clients[k] == c);
            }
        }
        if clients.contains(c) && c != clients[i] {
            let k = choose|k: int| 0 <= k < clients.len() && clients[k] == c;
            if k == clients.len() - 1 {
                assert(left[i] == c);
            } else {
                assert(left[k] == c);
            }
        }
    }
}

/// The clients that are connected: each at most once.
pub struct ClientRegistry {
    clients: Vec<ConnectedClient>,
}

impl View for ClientRegistry {
    type V = Seq<ConnectedClient>;

    /// The members, in the order in which broadcasts reach them.
    closed spec fn view(&self) -> Seq<ConnectedClient> {
        self.clients@
    }
}

impl ClientRegistry {
    #[verifier::type_invariant]
    spec fn each_once(&self) -> bool {
        self.clients@.no_duplicates()
    }

    /// A registry without members.
    pub fn new() -> (registry: Self)
        ensures
            registry@ == Seq::<ConnectedClient>::empty(),
    {
        ClientRegistry { clients: Vec::new() }
    }

    /// The number of members.
    pub fn len(&self) -> (n: usize)
        ensures
            n == self@.len(),
            self@.no_duplicates(),
    {
        proof {
            use_type_invariant(self);
        }
        self.clients.len()
    }

    /// Where `client` stands among the members, or their number where it is
    /// none of them.
    fn position(&self, client: ConnectedClient) -> (i: usize)
        ensures
            i <= self@.len(),
            i < self@.len() ==> self@[i as int] == client,
            i == self@.len() ==> !self@.contains(client),
    {
        let mut i: usize = 0;
        while i < self.clients.len()
            invariant
                i <= self.clients.len(),
                forall|k: int| 0 <= k < i ==> self.clients[k] != client,
            decreases self.clients.len() - i,
        {
            if self.clients[i] == client {
                return i;
            }
            i += 1;
        }
        i
    }

    /// Takes the members out, to change them, and leaves none.
    fn take_members(&mut self) -> (clients: Vec<ConnectedClient>)
        ensures
            clients@ == old(self)@,
            final(self)@ == Seq::<ConnectedClient>::empty(),
    {
        let mut taken = ClientRegistry { clients: Vec::new() };
        core::mem::swap(self, &mut taken);
        let ClientRegistry { clients } = taken;
        clients
    }

    /// Whether `client` is a member.
    pub fn contains(&self, client: ConnectedClient) -> (member: bool)
        ensures
            member == self@.contains(client),
    {
        self.position(client) < self.clients.len()
    }

    /// The members, in the order in which broadcasts reach them.
    pub fn members(&self) -> (members: Vec<ConnectedClient>)
        ensures
            members@ == self@,
            self@.no_duplicates(),
    {
        proof {
            use_type_invariant(self);
        }
        let mut members: Vec<ConnectedClient> = Vec::new();
        let mut i: usize = 0;
        while i < self.clients.len()
            invariant
                i <= self.clients.len(),
                members@ == self.clients@.subrange(0, i as int),
            decreases self.clients.len() - i,
        {
            members.push(self.clients[i]);
            i += 1;
        }
        members
    }

    /// Makes `client` a member, behind the others. Returns whether it was
    /// new: a client that is a member already is not added again.
    pub fn add(&mut self, client: ConnectedClient) -> (added: bool)
        ensures
            added == !old(self)@.contains(client),
            added ==> final(self)@ == old(self)@.push(client),
            !added ==> final(self)@ == old(self)@,
            final(self)@.no_duplicates(),
    {
        proof {
            use_type_invariant(&*self);
        }
        if self.position(client) < self.clients.len() {
            return false;
        }
        let mut clients = self.take_members();
        clients.push(client);
        *self = ClientRegistry { clients };
        true
    }

    /// Removes `client`. The last member takes its place. Fails with
    /// `StateInvariantViolation`, and changes nothing, where `client` is no
    /// member.
    pub fn remove(&mut self, client: ConnectedClient) -> (result: Result<(), SessionError>)
        ensures
            result is Ok <==> old(self)@.contains(client),
            result matches Ok(_) ==> final(self)@ == without_member(
                old(self)@,
                old(self)@.index_of(client),
            ),
            result matches Err(e) ==> e == SessionError::StateInvariantViolation && final(self)@
                == old(self)@,
            forall|c: ConnectedClient|
                final(self)@.contains(c) <==> old(self)@.contains(c) && c != client,
            final(self)@.no_duplicates(),
    {
        proof {
            use_type_invariant(&*self);
        }
        let i = self.position(client);
        if i >= self.clients.len() {
            return Err(SessionError::StateInvariantViolation);
        }
        proof {
            lemma_without_member(self@, i as int);
            assert(self@.index_of(client) == i);
        }
        let mut clients = self.take_members();
        clients.swap_remove(i);
        *self = ClientRegistry { clients };
        Ok(())
    }

    /// One message for every member: the deliveries to make, in order.
    pub fn broadcast(&self, message: &ServerMessage) -> (plan: Vec<Delivery>)
        ensures
            plan.deep_view() == to_each(self@, message@),
    {
        let mut plan: Vec<Delivery> = Vec::new();
        let mut i: usize = 0;
        while i < self.clients.len()
            invariant
                i <= self.clients.len(),
                plan.len() == i,
                forall|k: int|
                    0 <= k < i ==> plan[k]@ == (DeliveryView {
                        client: self.clients[k],
                        message: message@,
                    }),
            decreases self.clients.len() - i,
        {
            plan.push(Delivery { client: self.clients[i], message: message.clone() });
            i += 1;
        }
        plan
    }

    /// One update cycle: each of `messages` in turn goes to every member.
    /// The deliveries are fixed before the first is made, so that one that
    /// fails takes nothing from the others.
    pub fn send_update(&self, messages: &Vec<ServerMessage>) -> (plan: Vec<Delivery>)
        ensures
            plan.deep_view() == fan_out(self@, messages.deep_view()),
            self@.no_duplicates(),
    {
        proof {
            use_type_invariant(self);
        }
        let mut plan: Vec<Delivery> = Vec::new();
        let mut m: usize = 0;
        while m < messages.len()
            invariant
                m <= messages.len(),
                plan.deep_view() == fan_out(self@, messages.deep_view().subrange(0, m as int)),
            decreases messages.len() - m,
        {
            let mut batch = self.broadcast(&messages[m]);
            plan.append(&mut batch);
            proof {
                let upto = messages.deep_view().subrange(0, m + 1);
                assert(upto.drop_last() =~= messages.deep_view().subrange(0, m as int));
            }
            m += 1;
        }
        assert(messages.deep_view().subrange(0, m as int) =~= messages.deep_view());
        plan
    }
}

} // verus!
