//! The course of one protected request, from its arrival to its answer.

use vstd::prelude::*;

verus! {

/// Where a request stands.
#[derive(Debug, Clone, Copy, PartialEq, Eq, Structural)]
pub enum Phase {
    /// The request has arrived.
    Received,
    /// Its token has been taken from it.
    TokenExtracted,
    /// The token was accepted and names a user.
    Validated,
    /// The token was refused.
    Rejected,
    /// The resource store has been called on the user's behalf.
    Dispatched,
    /// The answer has been given.
    Responded,
}

/// What happens to a request.
#[derive(Debug, Clone, Copy, PartialEq, Eq, Structural)]
pub enum Event {
    /// The token is taken from the request.
    Extract,
    /// Validation accepts the token.
    Accept,
    /// Validation refuses the token.
    Refuse,
    /// The request is forwarded to the resource store.
    Forward,
    /// The answer is sent.
    Respond,
}

/// The phase that follows `phase` on `event`, if the event may happen
/// there.
pub open spec fn successor(phase: Phase, event: Event) -> Option<Phase> {
    match (phase, event) {
        (Phase::Received, Event::Extract) => Some(Phase::TokenExtracted),
        (Phase::TokenExtracted, Event::Accept) => Some(Phase::Validated),
        (Phase::TokenExtracted, Event::Refuse) => Some(Phase::Rejected),
        (Phase::Validated, Event::Forward) => Some(Phase::Dispatched),
        (Phase::Dispatched, Event::Respond) => Some(Phase::Responded),
        (Phase::Rejected, Event::Respond) => Some(Phase::Responded),
        _ => None,
    }
}

/// The phase reached from `phase` by a run of events, if each may happen
/// where it stands.
pub open spec fn reached(phase: Phase, events: Seq<Event>) -> Option<Phase>
    decreases events.len(),
{
    if events.len() == 0 {
        Some(phase)
    } else {
        match successor(phase, events.first()) {
            Some(next) => reached(next, events.drop_first()),
            None => None,
        }
    }
}

/// The events of a request whose token is accepted.
pub open spec fn accepted_course() -> Seq<Event> {
    seq![Event::Extract, Event::Accept, Event::Forward, Event::Respond]
}

/// The events of a request whose token is refused.
pub open spec fn refused_course() -> Seq<Event> {
    seq![Event::Extract, Event::Refuse, Event::Respond]
}

/// The phase that follows `phase` on `event`.
pub fn advance(phase: Phase, event: Event) -> (next: Option<Phase>)
    ensures
        next == successor(phase, event),
{
    match (phase, event) {
        (Phase::Received, Event::Extract) => Some(Phase::TokenExtracted),
        (Phase::TokenExtracted, Event::Accept) => Some(Phase::Validated),
        (Phase::TokenExtracted, Event::Refuse) => Some(Phase::Rejected),
        (Phase::Validated, Event::Forward) => Some(Phase::Dispatched),
        (Phase::Dispatched, Event::Respond) => Some(Phase::Responded),
        (Phase::Rejected, Event::Respond) => Some(Phase::Responded),
        _ => None,
    }
}

/// The events that a request goes through, given whether its token was
/// accepted.
pub fn course(accepted: bool) -> (events: Vec<Event>)
    ensures
        events@ == if accepted {
            accepted_course()
        } else {
            refused_course()
        },
        reached(Phase::Received, events@) == Some(Phase::Responded),
{
    let mut events: Vec<Event> = Vec::new();
    events.push(Event::Extract);
    if accepted {
        events.push(Event::Accept);
        events.push(Event::Forward);
    } else {
        events.push(Event::Refuse);
    }
    events.push(Event::Respond);
    proof {
        lemma_courses_end_responded();
        assert(events@ =~= if accepted {
            accepted_course()
        } else {
            refused_course()
        });
    }
    events
}

/// Both courses lead from arrival to the answer.
pub proof fn lemma_courses_end_responded()
    ensures
        reached(Phase::Received, accepted_course()) == Some(Phase::Responded),
        reached(Phase::Received, refused_course()) == Some(Phase::Responded),
{
    reveal_with_fuel(reached, 6);
    let a = accepted_course();
    assert(a.drop_first() =~= seq![Event::Accept, Event::Forward, Event::Respond]);
    assert(a.drop_first().drop_first() =~= seq![Event::Forward, Event::Respond]);
    assert(a.drop_first().drop_first().drop_first() =~= seq![Event::Respond]);
    assert(a.drop_first().drop_first().drop_first().drop_first() =~= Seq::<Event>::empty());
    let r = refused_course();
    assert(r.drop_first() =~= seq![Event::Refuse, Event::Respond]);
    assert(r.drop_first().drop_first() =~= seq![Event::Respond]);
    assert(r.drop_first().drop_first().drop_first() =~= Seq::<Event>::empty());
}

/// Nothing follows the answer: no event may happen once a request has
/// been responded to.
pub proof fn lemma_responded_is_final(events: Seq<Event>)
    requires
        events.len() > 0,
    ensures
        reached(Phase::Responded, events) is None,
{
}

/// A refusal is final: once the token has been refused, the request is
/// never dispatched to the resource store, whatever happens next.
pub proof fn lemma_rejected_is_never_dispatched(events: Seq<Event>)
    ensures
        reached(Phase::Rejected, events) != Some(Phase::Dispatched),
        reached(Phase::Rejected, events) != Some(Phase::Validated),
{
    reveal_with_fuel(reached, 3);
    if events.len() > 0 {
        if successor(Phase::Rejected, events.first()) is Some {
            let rest = events.drop_first();
            if rest.len() > 0 {
                lemma_responded_is_final(rest);
            }
        }
    }
}

/// The store is reached only through a validated token: a run that ends
/// in `Dispatched` has passed through `Validated`.
pub proof fn lemma_dispatch_needs_validation(events: Seq<Event>)
    requires
        reached(Phase::Received, events) == Some(Phase::Dispatched),
    ensures
        events == seq![Event::Extract, Event::Accept, Event::Forward],
{
    reveal_with_fuel(reached, 5);
    let e1 = events.drop_first();
    if e1.len() > 0 {
        let e2 = e1.drop_first();
        if events[1] == Event::Refuse {
            lemma_rejected_is_never_dispatched(e2);
        } else if e2.len() > 0 {
            let e3 = e2.drop_first();
            if e3.len() > 0 {
                let e4 = e3.drop_first();
                if successor(Phase::Dispatched, e3.first()) is Some {
                    if e4.len() > 0 {
                        lemma_responded_is_final(e4);
                    }
                }
            } else {
                assert(events =~= seq![Event::Extract, Event::Accept, Event::Forward]);
            }
        }
    }
}

} // verus!
