//! The list of clients that are told of keywords.

use vstd::prelude::*;

verus! {

/// What came of sending a message to one of the clients.
#[derive(Clone, Copy, Debug, PartialEq, Eq, Structural)]
pub enum Outcome {
    /// It was sent.
    Sent,
    /// It could not be sent: the client is gone.
    Failed,
}

/// A message that is to be sent to one of the clients.
#[derive(Debug)]
pub struct Sending {
    /// The position of the client.
    pub client: usize,
    /// The message.
    pub text: String,
}

/// What to send so that a message reaches all of `count` clients: to each of them, in order, that
/// message once. A client whose sender is in use is waited for.
pub fn broadcast(count: usize, message: &str) -> (sendings: Vec<Sending>)
    ensures
        sendings@.len() == count,
        forall|i: int|
            0 <= i < count ==> (#[trigger] sendings@[i]).client == i && sendings@[i].text@
                == message@,
{
    let mut sendings: Vec<Sending> = Vec::new();
    for client in 0..count
        invariant
            sendings.len() == client,
            forall|i: int|
                0 <= i < client ==> (#[trigger] sendings@[i]).client == i && sendings@[i].text@
                    == message@,
    {
        sendings.push(Sending { client, text: message.to_owned() });
    }
    sendings
}

/// Whether the client at a position is gone, going by what came of sending to each.
pub open spec fn is_gone(outcomes: Seq<Outcome>, at: int) -> bool {
    0 <= at < outcomes.len() && outcomes[at] == Outcome::Failed
}

/// The clients that are not gone, in order.
pub open spec fn staying<T>(clients: Seq<T>, outcomes: Seq<Outcome>) -> Seq<T>
    decreases clients.len(),
{
    if clients.len() == 0 {
        Seq::empty()
    } else if is_gone(outcomes, clients.len() - 1) {
        staying(clients.drop_last(), outcomes)
    } else {
        staying(clients.drop_last(), outcomes).push(clients.last())
    }
}

/// How many of the first clients stay.
pub open spec fn staying_before(outcomes: Seq<Outcome>, at: int) -> nat
    decreases at,
{
    if at <= 0 {
        0
    } else if is_gone(outcomes, at - 1) {
        staying_before(outcomes, at - 1)
    } else {
        staying_before(outcomes, at - 1) + 1
    }
}

/// Removes the clients that are gone, going by what came of sending to each. Clients that were
/// added since stay.
pub fn remove_gone<T>(clients: &mut Vec<T>, outcomes: &Vec<Outcome>)
    ensures
        final(clients)@ == staying(old(clients)@, outcomes@),
        final(clients)@ == Seq::new(old(clients)@.len(), |i: int| i).filter(
            |i: int| !(i < outcomes@.len() && outcomes@[i] == Outcome::Failed),
        ).map_values(|i: int| old(clients)@[i]),
{
    let ghost all = clients@;
    let mut at: usize = outcomes.len();
    assert(outcomes@.take(at as int) =~= outcomes@);
    while at > 0
        invariant
            at <= outcomes.len(),
            staying(clients@, outcomes@.take(at as int)) == staying(all, outcomes@),
        decreases at,
    {
        at = at - 1;
        proof {
            lemma_remove_last(clients@, outcomes@, at as int);
        }
        // Removing from the back leaves the positions before as they are.
        if outcomes[at] == Outcome::Failed && at < clients.len() {
            clients.remove(at);
        }
    }
    proof {
        lemma_none_gone(clients@, outcomes@.take(0));
        law_failed_clients_alone_leave(all, outcomes@);
    }
}

/// Which clients stay depends on what came of sending to them alone.
proof fn lemma_same_gone<T>(clients: Seq<T>, outcomes: Seq<Outcome>, others: Seq<Outcome>)
    requires
        forall|i: int| 0 <= i < clients.len() ==> is_gone(outcomes, i) == is_gone(others, i),
    ensures
        staying(clients, outcomes) == staying(clients, others),
    decreases clients.len(),
{
    if clients.len() > 0 {
        lemma_same_gone(clients.drop_last(), outcomes, others);
    }
}

/// Where none is gone, all stay.
proof fn lemma_none_gone<T>(clients: Seq<T>, outcomes: Seq<Outcome>)
    requires
        forall|i: int| 0 <= i < clients.len() ==> !is_gone(outcomes, i),
    ensures
        staying(clients, outcomes) == clients,
    decreases clients.len(),
{
    if clients.len() > 0 {
        lemma_none_gone(clients.drop_last(), outcomes);
        assert(clients.drop_last().push(clients.last()) =~= clients);
    }
}

/// The last client that may be gone can be removed first.
proof fn lemma_remove_last<T>(clients: Seq<T>, outcomes: Seq<Outcome>, at: int)
    requires
        0 <= at < outcomes.len(),
    ensures
        staying(clients, outcomes.take(at + 1)) == staying(
            if is_gone(outcomes, at) && at < clients.len() {
                clients.remove(at)
            } else {
                clients
            },
            outcomes.take(at),
        ),
    decreases clients.len(),
{
    if clients.len() <= at + 1 {
        let front = if clients.len() == at + 1 {
            clients.drop_last()
        } else {
            clients
        };
        lemma_same_gone(front, outcomes.take(at + 1), outcomes.take(at));
        if clients.len() == at + 1 {
            assert(clients.remove(at) =~= front);
        }
    } else {
        lemma_remove_last(clients.drop_last(), outcomes, at);
        if is_gone(outcomes, at) {
            assert(clients.remove(at).drop_last() =~= clients.drop_last().remove(at));
        }
    }
}

/// A client that was not found gone, be it that the message was sent or that it was added since,
/// stays, in its order.
pub proof fn law_others_stay<T>(clients: Seq<T>, outcomes: Seq<Outcome>, at: int)
    requires
        0 <= at < clients.len(),
        !is_gone(outcomes, at),
    ensures
        staying_before(outcomes, at) < staying(clients, outcomes).len(),
        staying(clients, outcomes)[staying_before(outcomes, at) as int] == clients[at],
    decreases clients.len(),
{
    law_count_of_staying(clients.drop_last(), outcomes);
    if at < clients.len() - 1 {
        law_others_stay(clients.drop_last(), outcomes, at);
    }
}

/// Where every message was sent, the list of clients stays as it was.
pub proof fn law_broadcast_keeps_clients<T>(clients: Seq<T>, outcomes: Seq<Outcome>)
    requires
        forall|i: int| 0 <= i < outcomes.len() ==> #[trigger] outcomes[i] == Outcome::Sent,
    ensures
        staying(clients, outcomes) == clients,
{
    lemma_none_gone(clients, outcomes);
}

/// As many clients stay as were not found gone, so that all that are gone are removed.
pub proof fn law_count_of_staying<T>(clients: Seq<T>, outcomes: Seq<Outcome>)
    ensures
        staying(clients, outcomes).len() == staying_before(outcomes, clients.len() as int),
    decreases clients.len(),
{
    if clients.len() > 0 {
        law_count_of_staying(clients.drop_last(), outcomes);
    }
}

/// The clients that stay are those at the positions where sending did not fail, in the order of
/// their positions.
pub proof fn law_failed_clients_alone_leave<T>(clients: Seq<T>, outcomes: Seq<Outcome>)
    ensures
        staying(clients, outcomes) == Seq::new(clients.len(), |i: int| i).filter(
            |i: int| !(i < outcomes.len() && outcomes[i] == Outcome::Failed),
        ).map_values(|i: int| clients[i]),
    decreases clients.len(),
{
    let kept = |i: int| !(i < outcomes.len() && outcomes[i] == Outcome::Failed);
    let positions = Seq::new(clients.len(), |i: int| i);
    if clients.len() == 0 {
        reveal(Seq::filter);
        assert(positions.filter(kept).map_values(|i: int| clients[i]) =~= Seq::empty());
    } else {
        let front = clients.drop_last();
        let before = Seq::new(front.len(), |i: int| i);
        law_failed_clients_alone_leave(front, outcomes);
        assert(positions.drop_last() =~= before);
        let left = before.filter(kept);
        assert forall|k: int| 0 <= k < left.len() implies 0 <= #[trigger] left[k]
            < front.len() by {
            before.lemma_filter_contains_rev(kept, left[k]);
        }
        assert(left.map_values(|i: int| clients[i]) =~= left.map_values(|i: int| front[i]));
        reveal(Seq::filter);
        assert(positions.filter(kept) == if kept(clients.len() - 1) {
            left.push(clients.len() - 1)
        } else {
            left
        });
        assert(staying(clients, outcomes) =~= positions.filter(kept).map_values(
            |i: int| clients[i],
        ));
    }
}

} // verus!
