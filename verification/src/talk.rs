//! What passes between a procedure and its driver.
//!
//! A driver starts a procedure with the replies it has, performs the
//! request that the procedure stops at, adds the reply, and starts the
//! procedure again, until the procedure finishes. A talk records such an
//! exchange turn by turn. `performs` says that a procedure, driven so,
//! makes exactly the requests of a talk, in its order, when it is given
//! the replies of that talk, and then finishes with a value.

use crate::runtime::{follows, result_view, ReplyView, RequestView, Run, Step};
use vstd::prelude::*;

verus! {

/// One turn of a talk: a request and the reply to it.
pub struct Turn {
    pub request: RequestView,
    pub reply: ReplyView,
}

/// The replies of a talk, in order.
pub open spec fn replies_of(talk: Seq<Turn>) -> Seq<ReplyView> {
    talk.map_values(|turn: Turn| turn.reply)
}

/// Whether `procedure` holds the talk `talk` and ends with `value`: given
/// the first replies of the talk it stops at the request of the next turn,
/// and given all of them, and any more, it finishes with `value` and
/// leaves what is more unread.
pub open spec fn performs<V>(
    procedure: spec_fn(Seq<ReplyView>) -> Run<V>,
    talk: Seq<Turn>,
    value: V,
) -> bool {
    &&& forall|k: int|
        0 <= k < talk.len() ==> #[trigger] procedure(replies_of(talk).take(k)) == Run::<
            V,
        >::Blocked(talk[k].request)
    &&& forall|more: Seq<ReplyView>| #[trigger]
        procedure(replies_of(talk) + more) == Run::Finished(value, more)
}

/// A procedure that makes one request, and finishes with `value` on the
/// reply `reply`, holds the talk of that one turn.
pub proof fn lemma_performs_turn<V>(
    procedure: spec_fn(Seq<ReplyView>) -> Run<V>,
    request: RequestView,
    reply: ReplyView,
    value: V,
)
    requires
        forall|unread: Seq<ReplyView>|
            unread.len() == 0 ==> #[trigger] procedure(unread) == Run::<V>::Blocked(request),
        forall|unread: Seq<ReplyView>|
            unread.len() > 0 && unread[0] == reply ==> #[trigger] procedure(unread)
                == Run::Finished(value, unread.skip(1)),
    ensures
        performs(procedure, seq![Turn { request, reply }], value),
{
    let talk = seq![Turn { request, reply }];
    assert(replies_of(talk) =~= seq![reply]);
    assert forall|more: Seq<ReplyView>| #[trigger]
        procedure(replies_of(talk) + more) == Run::Finished(value, more) by {
        assert((replies_of(talk) + more).skip(1) =~= more);
    }
}

/// Two procedures in a row hold their two talks in a row. `whole` is a
/// procedure that stops where `first` stops, and that goes on as
/// `second` where `first` finishes with `between`.
pub proof fn lemma_performs_chain<A, B>(
    whole: spec_fn(Seq<ReplyView>) -> Run<B>,
    first: spec_fn(Seq<ReplyView>) -> Run<A>,
    head: Seq<Turn>,
    between: A,
    second: spec_fn(Seq<ReplyView>) -> Run<B>,
    tail: Seq<Turn>,
    value: B,
)
    requires
        performs(first, head, between),
        performs(second, tail, value),
        forall|unread: Seq<ReplyView>|
            first(unread) is Blocked ==> #[trigger] whole(unread) == Run::<B>::Blocked(
                first(unread)->Blocked_0,
            ),
        forall|unread: Seq<ReplyView>|
            first(unread) is Finished && first(unread)->Finished_0 == between
                ==> #[trigger] whole(unread) == second(first(unread)->Finished_1),
    ensures
        performs(whole, head + tail, value),
{
    let talk = head + tail;
    let r1 = replies_of(head);
    let r2 = replies_of(tail);
    let r = replies_of(talk);
    assert(r =~= r1 + r2);
    assert forall|k: int| 0 <= k < talk.len() implies #[trigger] whole(r.take(k)) == Run::<
        B,
    >::Blocked(talk[k].request) by {
        if k < head.len() {
            assert(r.take(k) =~= r1.take(k));
            assert(first(r1.take(k)) == Run::<A>::Blocked(head[k].request));
        } else {
            let more = r2.take(k - head.len());
            assert(r.take(k) =~= r1 + more);
            assert(first(r1 + more) == Run::Finished(between, more));
            assert(second(more) == Run::<B>::Blocked(tail[k - head.len()].request));
        }
    }
    assert forall|more: Seq<ReplyView>| #[trigger]
        whole(r + more) == Run::Finished(value, more) by {
        assert(r + more =~= r1 + (r2 + more));
        assert(first(r1 + (r2 + more)) == Run::Finished(between, r2 + more));
        assert(second(r2 + more) == Run::Finished(value, more));
    }
}

/// A procedure that stops where `first` stops, and that finishes with
/// `value` where `first` finishes with `between`, holds the talk of
/// `first`.
pub proof fn lemma_performs_end<A, B>(
    whole: spec_fn(Seq<ReplyView>) -> Run<B>,
    first: spec_fn(Seq<ReplyView>) -> Run<A>,
    talk: Seq<Turn>,
    between: A,
    value: B,
)
    requires
        performs(first, talk, between),
        forall|unread: Seq<ReplyView>|
            first(unread) is Blocked ==> #[trigger] whole(unread) == Run::<B>::Blocked(
                first(unread)->Blocked_0,
            ),
        forall|unread: Seq<ReplyView>|
            first(unread) is Finished && first(unread)->Finished_0 == between
                ==> #[trigger] whole(unread) == Run::Finished(value, first(unread)->Finished_1),
    ensures
        performs(whole, talk, value),
{
    let r = replies_of(talk);
    assert forall|k: int| 0 <= k < talk.len() implies #[trigger] whole(r.take(k)) == Run::<
        B,
    >::Blocked(talk[k].request) by {
        assert(first(r.take(k)) == Run::<A>::Blocked(talk[k].request));
    }
    assert forall|more: Seq<ReplyView>| #[trigger]
        whole(r + more) == Run::Finished(value, more) by {
        assert(first(r + more) == Run::Finished(between, more));
    }
}


/// Two procedures that do the same on all replies hold the same talks.
pub proof fn lemma_performs_same<V>(
    procedure: spec_fn(Seq<ReplyView>) -> Run<V>,
    other: spec_fn(Seq<ReplyView>) -> Run<V>,
    talk: Seq<Turn>,
    value: V,
)
    requires
        performs(other, talk, value),
        forall|unread: Seq<ReplyView>| #[trigger] procedure(unread) == other(unread),
    ensures
        performs(procedure, talk, value),
{
    let r = replies_of(talk);
    assert forall|k: int| 0 <= k < talk.len() implies #[trigger] procedure(r.take(k)) == Run::<
        V,
    >::Blocked(talk[k].request) by {
        assert(other(r.take(k)) == Run::<V>::Blocked(talk[k].request));
    }
    assert forall|more: Seq<ReplyView>| #[trigger]
        procedure(r + more) == Run::Finished(value, more) by {
        assert(other(r + more) == Run::Finished(value, more));
    }
}


/// What a driver sees of a procedure that holds a talk. Started with the
/// first `k` replies of the talk, the procedure asks for the request of
/// turn `k`; started with all of them, it is done, has the value of the
/// talk, and has read every reply.
pub proof fn lemma_driver_sees_talk<T: DeepView, E: DeepView>(
    procedure: spec_fn(Seq<ReplyView>) -> Run<Result<T::V, E::V>>,
    talk: Seq<Turn>,
    value: Result<T::V, E::V>,
    k: int,
    step: Step<Result<T, E>>,
    unread: Seq<ReplyView>,
)
    requires
        performs(procedure, talk, value),
        0 <= k <= talk.len(),
        follows(step, unread, procedure(replies_of(talk).take(k))),
    ensures
        k < talk.len() ==> (step matches Step::Ask(asked) && asked.deep_view()
            == talk[k].request),
        k == talk.len() ==> (step matches Step::Done(r) && result_view(r) == value
            && unread.len() == 0),
{
    if k == talk.len() {
        let all = replies_of(talk);
        assert(all.take(k) =~= all + Seq::<ReplyView>::empty());
        assert(procedure(all + Seq::<ReplyView>::empty()) == Run::Finished(
            value,
            Seq::<ReplyView>::empty(),
        ));
    }
}

} // verus!
