//! What holds of a connection over several events.
use crate::assoc_map::{lists, Key};
use crate::connection::{
    answers_in, answers_in_all, answers_view, call_id, closing_replies, commanded, completed,
    duplicate_error, failure_response, is_step, is_step_for_text, is_taken_apart, json_result,
    lemma_completed_agrees, outbound_after, outbound_after_all, outbound_after_send, parse_error,
    received, received_text, refusal, replies_after_send, spawned, with_all, AwaitingSend,
    CallView, Command, CommandAction, Completion, ConnectionView, Event, OutboundMessage,
    ReceivedView, Reply, Step,
};
use crate::connection_handle::call_outcome;
use crate::error::{JsonRpcError, JsonRpcErrorView};
use crate::handler::InvocationView;
use crate::inbound::{
    async_part, empty_batch_error, inline_part, law_batch_is_sorted_into_its_parts,
    law_only_empty_batch_is_an_error, leaves, AsyncView, InlineView,
};
use crate::json::{last_values, Json, JsonValue};
use crate::operation::{
    answer_to, calls_have_outcomes, law_call_is_answered_with_its_outcome,
    law_single_message_answer, planned,
};
use crate::router::HandlerOutcome;
use crate::shutdown::refusals;
use crate::types::{
    error_response, law_messages_are_viewed_whole, ErrorCode, ErrorDetailsView, Id, IdView,
    Message, MessageView, Notification, NotificationView, Request, RequestView, Response,
    ResponsePayload, ResponsePayloadView, ResponseView,
};
use crate::wire::{
    law_read_what_was_written, law_surviving_message_reads_as_itself, read_back, read_message,
    read_text, survives, write_id, write_message,
};
use crate::wire_laws::law_what_was_written_comes_back;
use vstd::prelude::*;

verus! {

/// The answer to a method call that was sent goes to the one who made the call, and to no one
/// else.
pub proof fn law_answer_reaches_the_caller<T, C>(
    before: ConnectionView<T>,
    id: Id,
    tx: T,
    response: ResponseView,
)
    requires
        response.id == id@,
    ensures
        ({
            let sent = ConnectionView {
                outbound: outbound_after_send::<T, C>(
                    before.outbound,
                    AwaitingSend::Method { id, response_tx: tx },
                    true,
                ),
                ..before
            };
            received(sent, MessageView::Response(response)) == ReceivedView::Accepted {
                outbound: sent.outbound.remove(id@),
                answers: seq![(tx, response)],
                rest: None,
            }
        }),
{
}

/// A response under an id that no call waits for is dropped, and changes nothing.
pub proof fn law_unexpected_response_is_dropped<T>(
    before: ConnectionView<T>,
    response: ResponseView,
)
    requires
        !before.outbound.contains_key(response.id),
    ensures
        received(before, MessageView::Response(response)) == (ReceivedView::Accepted {
            outbound: before.outbound,
            answers: Seq::<(T, ResponseView)>::empty(),
            rest: None,
        }),
{
    assert(before.outbound.remove(response.id) =~= before.outbound);
}

/// A call is answered once: a second response under the same id is dropped.
pub proof fn law_second_response_is_dropped<T>(
    before: ConnectionView<T>,
    first: ResponseView,
    second: ResponseView,
)
    requires
        first.id == second.id,
    ensures
        received(before, MessageView::Response(first)) matches ReceivedView::Accepted {
            outbound,
            ..
        } && received(
            ConnectionView { outbound, ..before },
            MessageView::Response(second),
        ) == (ReceivedView::Accepted {
            outbound,
            answers: Seq::<(T, ResponseView)>::empty(),
            rest: None,
        }),
{
    let after = ConnectionView { outbound: before.outbound.remove(first.id), ..before };
    law_unexpected_response_is_dropped(after, second);
}

/// Once a call was cancelled, the response to it is dropped.
pub proof fn law_response_to_cancelled_call_is_dropped<T>(
    before: ConnectionView<T>,
    request_id: Id,
    response: ResponseView,
)
    requires
        response.id == request_id@,
    ensures
        ({
            let after = commanded(
                before,
                Command::CancelPendingOutboundRequest { request_id },
            ).0;
            received(after, MessageView::Response(response)) == (ReceivedView::Accepted {
                outbound: after.outbound,
                answers: Seq::<(T, ResponseView)>::empty(),
                rest: None,
            })
        }),
{
    let after = commanded(before, Command::CancelPendingOutboundRequest { request_id }).0;
    law_unexpected_response_is_dropped(after, response);
}

/// Each call that waits for an answer is, once a message was processed, either answered exactly
/// once or waits on; and nobody gets an answer who did not wait for it.
pub open spec fn shares_out<T>(
    before: Map<IdView, T>,
    after: Map<IdView, T>,
    answers: Seq<(T, ResponseView)>,
) -> bool {
    &&& forall|id: IdView| #[trigger]
        after.contains_key(id) ==> before.contains_key(id) && after[id] == before[id]
    &&& forall|i: int|
        0 <= i < answers.len() ==> {
            let id = (#[trigger] answers[i]).1.id;
            before.contains_key(id) && before[id] == answers[i].0 && !after.contains_key(id)
        }
    &&& forall|i: int, j: int|
        0 <= i < j < answers.len() ==> (#[trigger] answers[i]).1.id != (
        #[trigger] answers[j]).1.id
    &&& forall|id: IdView| #[trigger]
        before.contains_key(id) && !after.contains_key(id) ==> exists|i: int|
            0 <= i < answers.len() && (#[trigger] answers[i]).1.id == id
}

proof fn lemma_shares_out_chain<T>(
    first: Map<IdView, T>,
    second: Map<IdView, T>,
    third: Map<IdView, T>,
    early: Seq<(T, ResponseView)>,
    late: Seq<(T, ResponseView)>,
)
    requires
        shares_out(first, second, early),
        shares_out(second, third, late),
    ensures
        shares_out(first, third, early + late),
{
    let all = early + late;
    assert forall|id: IdView| #[trigger] third.contains_key(id) implies first.contains_key(id)
        && third[id] == first[id] by {
        assert(second.contains_key(id));
    }
    assert forall|i: int| 0 <= i < all.len() implies ({
        let id = (#[trigger] all[i]).1.id;
        first.contains_key(id) && first[id] == all[i].0 && !third.contains_key(id)
    }) by {
        if i < early.len() {
            assert(all[i] == early[i]);
            if third.contains_key(early[i].1.id) {
                assert(second.contains_key(early[i].1.id));
            }
        } else {
            assert(all[i] == late[i - early.len()]);
            assert(second.contains_key(late[i - early.len()].1.id));
        }
    }
    assert forall|i: int, j: int| 0 <= i < j < all.len() implies (#[trigger] all[i]).1.id != (
    #[trigger] all[j]).1.id by {
        if j < early.len() {
            assert(all[i] == early[i] && all[j] == early[j]);
        } else if i >= early.len() {
            assert(all[i] == late[i - early.len()] && all[j] == late[j - early.len()]);
        } else {
            assert(all[i] == early[i] && all[j] == late[j - early.len()]);
            assert(second.contains_key(late[j - early.len()].1.id));
        }
    }
    assert forall|id: IdView| #[trigger] first.contains_key(id) && !third.contains_key(
        id,
    ) implies exists|i: int| 0 <= i < all.len() && (#[trigger] all[i]).1.id == id by {
        if second.contains_key(id) {
            let k = choose|k: int| 0 <= k < late.len() && (#[trigger] late[k]).1.id == id;
            assert(all[early.len() + k] == late[k]);
        } else {
            let k = choose|k: int| 0 <= k < early.len() && (#[trigger] early[k]).1.id == id;
            assert(all[k] == early[k]);
        }
    }
}

/// However many responses a message holds, and however often it repeats an id: each call that
/// waits is either answered exactly once or waits on.
pub proof fn law_each_call_is_answered_at_most_once<T>(
    outbound: Map<IdView, T>,
    message: InlineView,
)
    ensures
        shares_out(outbound, outbound_after(outbound, message), answers_in(outbound, message)),
    decreases message,
{
    match message {
        InlineView::Response(response) => {
            let answers = answers_in(outbound, message);
            if outbound.contains_key(response.id) {
                assert(answers[0].1.id == response.id);
            }
        },
        InlineView::Batch(messages) => {
            lemma_each_call_is_answered_at_most_once(outbound, messages);
        },
    }
}

proof fn lemma_each_call_is_answered_at_most_once<T>(
    outbound: Map<IdView, T>,
    messages: Seq<InlineView>,
)
    ensures
        shares_out(
            outbound,
            outbound_after_all(outbound, messages),
            answers_in_all(outbound, messages),
        ),
    decreases messages,
{
    if messages.len() > 0 {
        let front = messages.drop_last();
        let middle = outbound_after_all(outbound, front);
        lemma_each_call_is_answered_at_most_once(outbound, front);
        law_each_call_is_answered_at_most_once(middle, messages.last());
        lemma_shares_out_chain(
            outbound,
            middle,
            outbound_after(middle, messages.last()),
            answers_in_all(outbound, front),
            answers_in(middle, messages.last()),
        );
    }
}

/// While a method call of the remote peer is being processed, another one under its id is refused;
/// once the first has ended, the id can be used again.
pub proof fn law_id_is_taken_while_call_is_pending<T>(
    before: ConnectionView<T>,
    task_id: u64,
    request: RequestView,
    again: RequestView,
)
    requires
        before.agrees(),
        !before.calls.contains_key(task_id),
        !before.tasks.contains_key(request.id),
        again.id == request.id,
    ensures
        ({
            let during = spawned(before, task_id, Some(request.id));
            let after = completed(during, task_id);
            &&& received(before, MessageView::Request(request)) is Accepted
            &&& received(during, MessageView::Request(again)) == ReceivedView::<T>::Refused(
                duplicate_error(again),
            )
            &&& after == before
            &&& received(after, MessageView::Request(again)) is Accepted
        }),
{
    let during = spawned(before, task_id, Some(request.id));
    let after = completed(during, task_id);
    assert(after.calls =~= before.calls);
    assert(after.tasks =~= before.tasks);
}

/// Cancelling a method call of the remote peer does not end it: its id is taken until it ends, and
/// to cancel it again has no effect.
pub proof fn law_cancelled_inbound_call_stays_pending<T>(
    before: ConnectionView<T>,
    request_id: Id,
)
    requires
        before.agrees(),
    ensures
        ({
            let command = Command::CancelPendingInboundRequest { request_id };
            let after = commanded(before, command).0;
            &&& after.tasks == before.tasks
            &&& after.outbound == before.outbound
            &&& after.calls.dom() == before.calls.dom()
            &&& commanded(after, command).0 == after
            &&& !(commanded(after, command).1 is Signal)
        }),
{
    let command = Command::CancelPendingInboundRequest { request_id };
    let after = commanded(before, command).0;
    assert(after.calls.dom() =~= before.calls.dom());
}

/// The connection once each of `tasks` has ended.
pub open spec fn completed_all<T>(before: ConnectionView<T>, tasks: Seq<u64>) -> ConnectionView<T>
    decreases tasks.len(),
{
    if tasks.len() == 0 {
        before
    } else {
        completed(completed_all(before, tasks.drop_last()), tasks.last())
    }
}

proof fn lemma_completed_all<T>(before: ConnectionView<T>, tasks: Seq<u64>)
    requires
        before.agrees(),
    ensures
        completed_all(before, tasks).agrees(),
        completed_all(before, tasks).outbound == before.outbound,
        forall|task: u64| #[trigger]
            completed_all(before, tasks).calls.contains_key(task) <==> before.calls.contains_key(
                task,
            ) && !tasks.contains(task),
    decreases tasks.len(),
{
    if tasks.len() > 0 {
        let front = tasks.drop_last();
        let last = tasks.last();
        lemma_completed_all(before, front);
        let middle = completed_all(before, front);
        lemma_completed_agrees(middle, last);
        assert(completed_all(before, tasks) == completed(middle, last));
        assert forall|task: u64| #[trigger]
            completed_all(before, tasks).calls.contains_key(task) <==> before.calls.contains_key(task)
                && !tasks.contains(task) by {
            if tasks.contains(task) {
                let i = choose|i: int| 0 <= i < tasks.len() && tasks[i] == task;
                if i < front.len() {
                    assert(front[i] == task);
                }
            }
            if front.contains(task) {
                let i = choose|i: int| 0 <= i < front.len() && front[i] == task;
                assert(tasks[i] == task);
            }
            assert(tasks[tasks.len() - 1] == last);
        }
    }
}

/// Once every task that processes a method call of the remote peer has ended, in whatever order,
/// nothing is pending any more.
pub proof fn law_nothing_is_pending_after_all_tasks_ended<T>(
    before: ConnectionView<T>,
    tasks: Seq<u64>,
)
    requires
        before.agrees(),
        forall|task: u64| #[trigger] before.calls.contains_key(task) ==> tasks.contains(task),
    ensures
        completed_all(before, tasks).calls == Map::<u64, CallView>::empty(),
        completed_all(before, tasks).tasks == Map::<IdView, u64>::empty(),
{
    lemma_completed_all(before, tasks);
    let after = completed_all(before, tasks);
    assert forall|task: u64| !after.calls.contains_key(task) by {
        if after.calls.contains_key(task) {
            assert(before.calls.contains_key(task));
        }
    }
    assert(after.calls =~= Map::<u64, CallView>::empty());
    assert forall|id: IdView| !after.tasks.contains_key(id) by {
        if after.tasks.contains_key(id) {
            assert(after.calls.contains_key(after.tasks[id]));
        }
    }
    assert(after.tasks =~= Map::<IdView, u64>::empty());
}

/// When the connection closes, everyone who waits for an answer is told so, exactly once.
pub proof fn law_closing_tells_everyone<T, C>(
    outbound: Map<IdView, T>,
    entries: Seq<(Id, T)>,
    id: IdView,
)
    requires
        lists(entries, outbound),
        outbound.contains_key(id),
    ensures
        exists|i: int|
            {
                &&& 0 <= i < closing_replies::<T, C>(entries).len()
                &&& #[trigger] closing_replies::<T, C>(entries)[i] == (Reply::<T, C>::Response {
                    tx: outbound[id],
                    result: Err(JsonRpcError::PendingRequestConnectionClosed),
                })
                &&& entries[i].0@ == id
                &&& forall|j: int|
                    0 <= j < entries.len() && j != i ==> (#[trigger] entries[j]).0@ != id
            },
{
    let i = choose|i: int| 0 <= i < entries.len() && (#[trigger] entries[i]).0@ == id;
    assert(closing_replies::<T, C>(entries)[i] == (Reply::<T, C>::Response {
        tx: outbound[id],
        result: Err(JsonRpcError::PendingRequestConnectionClosed),
    }));
    assert forall|j: int| 0 <= j < entries.len() && j != i implies (#[trigger] entries[j]).0@
        != id by {
        if j < i {
            assert(entries[j].0@ != entries[i].0@);
        } else {
            assert(entries[i].0@ != entries[j].0@);
        }
    }
}

/// The event loop answers with this error, under no id, and nothing else changes.
pub open spec fn is_refused<T, C>(
    before: ConnectionView<T>,
    after: ConnectionView<T>,
    step: Step<T, C>,
    error: ErrorDetailsView,
) -> bool {
    &&& after == before
    &&& step matches Step::Answer(message)
    &&& message@ == MessageView::Response(error_response(IdView::Null, error))
}

/// What is refused at once, and with which error: a text that holds no message; a batch that holds
/// none; and a method call under the id of one that is being processed.
pub proof fn law_refused_texts<T, C>(
    before: ConnectionView<T>,
    read: Result<MessageView, JsonRpcErrorView>,
    after: ConnectionView<T>,
    step: Step<T, C>,
)
    requires
        is_step_for_text(before, read, after, step),
    ensures
        match read {
            Err(_) => is_refused(before, after, step, parse_error()),
            Ok(MessageView::Batch(messages)) => if leaves(messages).len() == 0 {
                is_refused(before, after, step, empty_batch_error())
            } else {
                step is Inbound
            },
            Ok(MessageView::Request(request)) => if before.tasks.contains_key(request.id) {
                is_refused(before, after, step, duplicate_error(request))
            } else {
                step is Inbound
            },
            Ok(_) => step is Inbound,
        },
{
    if let Ok(MessageView::Batch(messages)) = read {
        law_only_empty_batch_is_an_error(messages);
    }
}

/// Once a batch was sent of which the calls have different ids, each of them waits for its own
/// answer, and every other call waits on as before.
pub proof fn law_calls_of_a_sent_batch_wait<T>(outbound: Map<IdView, T>, txs: Seq<(Id, T)>)
    requires
        forall|i: int, j: int|
            0 <= i < j < txs.len() ==> (#[trigger] txs[i]).0@ != (#[trigger] txs[j]).0@,
    ensures
        forall|i: int|
            0 <= i < txs.len() ==> with_all(outbound, txs).contains_key((#[trigger] txs[i]).0@)
                && with_all(outbound, txs)[txs[i].0@] == txs[i].1,
        forall|id: IdView|
            (forall|i: int| 0 <= i < txs.len() ==> (#[trigger] txs[i]).0@ != id) ==> (
            #[trigger] with_all(outbound, txs).contains_key(id) <==> outbound.contains_key(id))
                && with_all(outbound, txs)[id] == outbound[id],
    decreases txs.len(),
{
    if txs.len() > 0 {
        let front = txs.drop_last();
        assert forall|i: int, j: int| 0 <= i < j < front.len() implies (#[trigger] front[i]).0@ != (
        #[trigger] front[j]).0@ by {
            assert(front[i] == txs[i] && front[j] == txs[j]);
        }
        law_calls_of_a_sent_batch_wait(outbound, front);
        let last = txs.last();
        assert forall|i: int| 0 <= i < txs.len() implies with_all(outbound, txs).contains_key(
            (#[trigger] txs[i]).0@,
        ) && with_all(outbound, txs)[txs[i].0@] == txs[i].1 by {
            if i < front.len() {
                assert(front[i] == txs[i]);
                assert(txs[i].0@ != txs[txs.len() - 1].0@);
            }
        }
        assert forall|id: IdView|
            (forall|i: int| 0 <= i < txs.len() ==> (#[trigger] txs[i]).0@ != id) implies (
        #[trigger] with_all(outbound, txs).contains_key(id) <==> outbound.contains_key(id))
            && with_all(outbound, txs)[id] == outbound[id] by {
            assert forall|i: int| 0 <= i < front.len() implies (#[trigger] front[i]).0@ != id by {
                assert(front[i] == txs[i]);
            }
            assert(txs[txs.len() - 1].0@ != id);
            assert(with_all(outbound, front).contains_key(id) <==> outbound.contains_key(id));
        }
    }
}

/// If a batch could not be sent, each of its calls learns so, the one who sent it learns why, and
/// nobody waits for an answer to it.
pub proof fn law_failed_batch_fails_every_call<T, C>(
    outbound: Map<IdView, T>,
    response_txs: Vec<(Id, T)>,
    send_confirmation_tx: C,
    error: JsonRpcError,
)
    ensures
        ({
            let awaiting = AwaitingSend::Batch { response_txs, send_confirmation_tx };
            let replies = replies_after_send(awaiting, Err(error));
            let n = response_txs@.len();
            &&& outbound_after_send(outbound, awaiting, false) == outbound
            &&& replies.len() == n + 1
            &&& forall|i: int|
                0 <= i < n ==> #[trigger] replies[i] == (Reply::<T, C>::Response {
                    tx: response_txs@[i].1,
                    result: Err(JsonRpcError::BatchSendFailed),
                })
            &&& replies[n as int] == (Reply::<T, C>::Confirmation {
                tx: send_confirmation_tx,
                result: Err(error),
            })
        }),
{
}

/// Once everyone who waits for an answer was told that none will come, nobody waits for one while
/// operations come to their end; and once every operation has ended, nothing is left behind.
pub proof fn law_shutdown_leaves_nothing_behind<T>(
    before: ConnectionView<T>,
    some: Seq<u64>,
    all: Seq<u64>,
)
    requires
        before.agrees(),
        forall|task: u64| #[trigger] before.calls.contains_key(task) ==> all.contains(task),
    ensures
        ({
            let told = ConnectionView { outbound: Map::<IdView, T>::empty(), ..before };
            &&& completed_all(told, some).outbound == Map::<IdView, T>::empty()
            &&& completed_all(told, all) == (ConnectionView::<T> {
                outbound: Map::empty(),
                calls: Map::empty(),
                tasks: Map::empty(),
            })
        }),
{
    let told = ConnectionView { outbound: Map::<IdView, T>::empty(), ..before };
    assert(told.agrees());
    lemma_completed_all(told, some);
    lemma_completed_all(told, all);
    law_nothing_is_pending_after_all_tasks_ended(told, all);
}

/// A method call goes all the way and back. What the caller writes reads as the call at the other
/// peer, which takes it in unless its id is in use there; whatever comes of its handler, there is
/// one response; and what the other peer writes for that response goes, once it was read, to the
/// one who made the call.
pub proof fn law_call_goes_there_and_back<T, U, C>(
    caller: ConnectionView<T>,
    other: ConnectionView<U>,
    id: Id,
    tx: T,
    request: RequestView,
    outcomes: spec_fn(InvocationView) -> HandlerOutcome,
)
    requires
        request.id == id@,
        survives(MessageView::Request(request)),
        !other.tasks.contains_key(request.id),
        calls_have_outcomes(outcomes),
    ensures
        read_message(write_message(MessageView::Request(request))) == Some(
            MessageView::Request(request),
        ),
        received(other, MessageView::Request(request)) == (ReceivedView::Accepted {
            outbound: other.outbound,
            answers: Seq::<(U, ResponseView)>::empty(),
            rest: Some(AsyncView::Request(request)),
        }),
        ({
            let waiting = ConnectionView {
                outbound: outbound_after_send::<T, C>(
                    caller.outbound,
                    AwaitingSend::Method { id, response_tx: tx },
                    true,
                ),
                ..caller
            };
            &&& answer_to(planned(AsyncView::Request(request)), outcomes) matches Some(answer)
            &&& answer is Response
            &&& read_message(write_message(answer)) == Some(read_back(answer))
            &&& received(waiting, read_back(answer)) == ReceivedView::Accepted {
                outbound: waiting.outbound.remove(id@),
                answers: seq![(tx, read_back(answer)->Response_0)],
                rest: None,
            }
        }),
{
    law_surviving_message_reads_as_itself(MessageView::Request(request));
    law_single_message_answer(AsyncView::Request(request), outcomes);
    let answer = answer_to(planned(AsyncView::Request(request)), outcomes)->Some_0;
    law_read_what_was_written(answer);
    law_answer_reaches_the_caller::<T, C>(caller, id, tx, read_back(answer)->Response_0);
}

/// A method call or a notification that is sent alone goes out as it was made, and the one who made
/// it is the one who waits for word of it.
pub proof fn law_single_messages_go_out_as_they_were_made<T, C>(
    request: Request,
    response_tx: T,
    notification: Notification,
    send_confirmation_tx: C,
    message: Message,
    awaiting: AwaitingSend<T, C>,
)
    ensures
        is_taken_apart(
            OutboundMessage::Method { request, response_tx },
            message,
            awaiting,
        ) ==> {
            &&& message@ matches MessageView::Request(sent)
            &&& sent.id == request@.id
            &&& sent.method == request@.method
            &&& sent.params == request@.params
            &&& awaiting matches AwaitingSend::Method { id, response_tx: tx }
            &&& id@ == request@.id
            &&& tx == response_tx
        },
        is_taken_apart(
            OutboundMessage::Notification { notification, send_confirmation_tx },
            message,
            awaiting,
        ) ==> {
            &&& message@ matches MessageView::Notification(sent)
            &&& sent.method == notification@.method
            &&& sent.params == notification@.params
            &&& awaiting matches AwaitingSend::Notification { send_confirmation_tx: tx }
            &&& tx == send_confirmation_tx
        },
{
}

/// A batch goes out as it was put together: first each of its method calls, with its id, its method
/// and its parameters, in the order in which they were added; then each of its notifications, with
/// its method and its parameters, in their order; and nothing else. For each call, under its id, the
/// one who made it waits for the answer.
pub proof fn law_batch_goes_out_as_it_was_put_together<T, C>(
    requests: Vec<(Request, T)>,
    notifications: Vec<Notification>,
    send_confirmation_tx: C,
    message: Message,
    awaiting: AwaitingSend<T, C>,
)
    requires
        is_taken_apart(
            OutboundMessage::Batch { requests, notifications, send_confirmation_tx },
            message,
            awaiting,
        ),
    ensures
        message@ matches MessageView::Batch(items) && {
            let calls = requests@.len();
            &&& items.len() == calls + notifications@.len()
            &&& forall|i: int|
                0 <= i < calls ==> {
                    &&& #[trigger] items[i] matches MessageView::Request(sent)
                    &&& sent.id == requests@[i].0@.id
                    &&& sent.method == requests@[i].0@.method
                    &&& sent.params == requests@[i].0@.params
                }
            &&& forall|j: int|
                0 <= j < notifications@.len() ==> {
                    &&& #[trigger] items[calls + j] matches MessageView::Notification(sent)
                    &&& sent.method == notifications@[j]@.method
                    &&& sent.params == notifications@[j]@.params
                }
        },
        awaiting matches AwaitingSend::Batch { response_txs, send_confirmation_tx: tx } && {
            &&& tx == send_confirmation_tx
            &&& response_txs@.len() == requests@.len()
            &&& forall|i: int|
                0 <= i < requests@.len() ==> (#[trigger] response_txs@[i]).0@
                    == requests@[i].0@.id && response_txs@[i].1 == requests@[i].1
        },
{
    law_messages_are_viewed_whole(message);
    let messages = message->Batch_0;
    assert forall|j: int| 0 <= j < notifications@.len() implies ({
        &&& #[trigger] message@->Batch_0[requests@.len() + j] matches MessageView::Notification(sent)
        &&& sent.method == notifications@[j]@.method
        &&& sent.params == notifications@[j]@.params
    }) by {
        assert(messages@[requests@.len() + j] == Message::Notification(notifications@[j]));
    }
}

/// A response goes to the call that waits for it, whole, and that call waits no more; everything
/// else that comes alone is handed on whole to be processed, and no call of ours is touched by it.
pub proof fn law_single_messages_are_taken_in<T>(
    before: ConnectionView<T>,
    response: ResponseView,
    request: RequestView,
    notification: NotificationView,
    invalid: IdView,
)
    ensures
        before.outbound.contains_key(response.id) ==> received(
            before,
            MessageView::Response(response),
        ) == (ReceivedView::Accepted {
            outbound: before.outbound.remove(response.id),
            answers: seq![(before.outbound[response.id], response)],
            rest: None,
        }),
        !before.tasks.contains_key(request.id) ==> received(before, MessageView::Request(request))
            == (ReceivedView::Accepted {
            outbound: before.outbound,
            answers: Seq::<(T, ResponseView)>::empty(),
            rest: Some(AsyncView::Request(request)),
        }),
        received(before, MessageView::Notification(notification)) == (ReceivedView::Accepted {
            outbound: before.outbound,
            answers: Seq::<(T, ResponseView)>::empty(),
            rest: Some(AsyncView::Notification(notification)),
        }),
        received(before, MessageView::InvalidRequest(invalid)) == (ReceivedView::Accepted {
            outbound: before.outbound,
            answers: Seq::<(T, ResponseView)>::empty(),
            rest: Some(AsyncView::InvalidRequest(invalid)),
        }),
{
}

/// A method call under an id that is in use is refused with an error that names the id and the
/// method.
pub proof fn law_duplicate_call_is_named<T>(before: ConnectionView<T>, request: RequestView)
    requires
        before.tasks.contains_key(request.id),
    ensures
        received(before, MessageView::Request(request)) matches ReceivedView::Refused(error) && {
            &&& error.code == ErrorCode::InvalidRequest
            &&& error.message == "Duplicate request ID"@
            &&& error.data matches Some(Json::Object(members))
            &&& members.len() == 2
            &&& members[0] == ("duplicated_request_id"@, write_id(request.id))
            &&& members[1] == ("method"@, Json::String(request.method))
        },
{
}

/// Only a method call under an id that is in use is refused of what is left to be processed, and
/// only a method call has an id that is taken while it is processed.
pub proof fn law_only_calls_have_ids_that_are_taken(tasks: Map<IdView, u64>, message: AsyncView)
    ensures
        refusal(tasks, message) is Some <==> (message matches AsyncView::Request(request)
            && tasks.contains_key(request.id)),
        refusal(tasks, message) matches Some(error) ==> error.code == ErrorCode::InvalidRequest
            && error.message == "Duplicate request ID"@,
        match message {
            AsyncView::Request(request) => call_id(message) == Some(request.id),
            _ => call_id(message) is None,
        },
{
}

/// A batch that holds any message is taken in: the responses in it, however deep they are nested, go
/// to the calls that wait for them, and all the rest of it is handed on to be processed as one batch.
pub proof fn law_batch_is_taken_in<T>(before: ConnectionView<T>, messages: Seq<MessageView>)
    requires
        leaves(messages).len() > 0,
    ensures
        ({
            let responses = InlineView::Batch(inline_part(leaves(messages)));
            let others = async_part(leaves(messages));
            &&& received(before, MessageView::Batch(messages)) matches ReceivedView::Accepted {
                outbound,
                answers,
                rest,
            }
            &&& outbound == outbound_after(before.outbound, responses)
            &&& answers == answers_in(before.outbound, responses)
            &&& match rest {
                Some(rest) => others.len() > 0 && rest == AsyncView::Batch(others),
                None => others.len() == 0,
            }
        }),
{
    law_batch_is_sorted_into_its_parts(messages);
    if inline_part(leaves(messages)).len() == 0 {
        assert(inline_part(leaves(messages)) =~= Seq::<InlineView>::empty());
    }
}

/// One more response in a batch goes, whole, to the call that still waits for it by then, and is
/// dropped if there is none; the answers before it are what they were without it.
pub proof fn law_responses_of_a_batch_are_passed_on_in_turn<T>(
    outbound: Map<IdView, T>,
    messages: Seq<InlineView>,
    last: ResponseView,
)
    ensures
        answers_in(outbound, InlineView::Batch(Seq::empty())).len() == 0,
        outbound_after(outbound, InlineView::Batch(Seq::empty())) == outbound,
        ({
            let before = InlineView::Batch(messages);
            let after = InlineView::Batch(messages.push(InlineView::Response(last)));
            let waiting = outbound_after(outbound, before);
            &&& outbound_after(outbound, after) == waiting.remove(last.id)
            &&& answers_in(outbound, after) == if waiting.contains_key(last.id) {
                answers_in(outbound, before).push((waiting[last.id], last))
            } else {
                answers_in(outbound, before)
            }
        }),
{
    let more = messages.push(InlineView::Response(last));
    assert(more.drop_last() =~= messages);
    let waiting = outbound_after_all(outbound, messages);
    let before = answers_in_all(outbound, messages);
    let one = InlineView::Response(last);
    assert(more.last() == one);
    assert(outbound_after_all(outbound, more) == outbound_after(
        outbound_after_all(outbound, more.drop_last()),
        more.last(),
    ));
    assert(answers_in_all(outbound, more) == answers_in_all(outbound, more.drop_last())
        + answers_in(outbound_after_all(outbound, more.drop_last()), more.last()));
    assert(outbound_after(waiting, one) == waiting.remove(last.id));
    if waiting.contains_key(last.id) {
        assert(answers_in(waiting, one) == seq![(waiting[last.id], last)]);
        assert(answers_in_all(outbound, more) =~= before.push((waiting[last.id], last)));
    } else {
        assert(answers_in_all(outbound, more) =~= before);
    }
}

/// Of the responses in a batch, the first under the id of a call that waits is the answer to that
/// call, whole; after the batch no call waits under any of their ids, and every other call waits on.
pub proof fn law_first_response_is_the_answer<T>(
    outbound: Map<IdView, T>,
    responses: Seq<ResponseView>,
)
    ensures
        ({
            let message = InlineView::Batch(
                responses.map_values(|response: ResponseView| InlineView::Response(response)),
            );
            let answers = answers_in(outbound, message);
            let after = outbound_after(outbound, message);
            &&& forall|i: int|
                #![trigger responses[i]]
                {
                    &&& 0 <= i < responses.len()
                    &&& outbound.contains_key(responses[i].id)
                    &&& forall|j: int| 0 <= j < i ==> (#[trigger] responses[j]).id != responses[i].id
                } ==> answers.contains((outbound[responses[i].id], responses[i]))
            &&& forall|k: int|
                0 <= k < answers.len() ==> responses.contains((#[trigger] answers[k]).1)
            &&& forall|id: IdView| #[trigger]
                after.contains_key(id) <==> outbound.contains_key(id) && forall|i: int|
                    0 <= i < responses.len() ==> (#[trigger] responses[i]).id != id
            &&& forall|id: IdView| #[trigger] after.contains_key(id) ==> after[id] == outbound[id]
        }),
    decreases responses.len(),
{
    let view = |response: ResponseView| InlineView::Response(response);
    let inline = responses.map_values(view);
    if responses.len() == 0 {
        assert(inline =~= Seq::<InlineView>::empty());
    } else {
        let front = responses.drop_last();
        let last = responses.last();
        law_first_response_is_the_answer(outbound, front);
        assert(inline =~= front.map_values(view).push(InlineView::Response(last)));
        law_responses_of_a_batch_are_passed_on_in_turn(outbound, front.map_values(view), last);
        let before = answers_in(outbound, InlineView::Batch(front.map_values(view)));
        let answers = answers_in(outbound, InlineView::Batch(inline));
        let waiting = outbound_after(outbound, InlineView::Batch(front.map_values(view)));
        let after = outbound_after(outbound, InlineView::Batch(inline));
        assert forall|i: int|
            #![trigger responses[i]]
            {
                &&& 0 <= i < responses.len()
                &&& outbound.contains_key(responses[i].id)
                &&& forall|j: int| 0 <= j < i ==> (#[trigger] responses[j]).id != responses[i].id
            } implies answers.contains((outbound[responses[i].id], responses[i])) by {
            let wanted = (outbound[responses[i].id], responses[i]);
            if i < front.len() {
                assert(front[i] == responses[i]);
                assert forall|j: int| 0 <= j < i implies (#[trigger] front[j]).id != front[i].id by {
                    assert(front[j] == responses[j]);
                }
                assert(before.contains(wanted));
                let k = before.index_of(wanted);
                assert(answers[k] == wanted);
            } else {
                assert forall|j: int| 0 <= j < front.len() implies (#[trigger] front[j]).id
                    != last.id by {
                    assert(front[j] == responses[j]);
                }
                assert(waiting.contains_key(last.id));
                assert(answers[before.len() as int] == wanted);
            }
        }
        assert forall|k: int| 0 <= k < answers.len() implies responses.contains(
            (#[trigger] answers[k]).1,
        ) by {
            if k < before.len() {
                assert(answers[k] == before[k]);
                let i = front.index_of(before[k].1);
                assert(responses[i] == answers[k].1);
            } else {
                assert(responses[responses.len() - 1] == answers[k].1);
            }
        }
        assert forall|id: IdView| #[trigger] after.contains_key(id) <==> outbound.contains_key(id)
            && forall|i: int| 0 <= i < responses.len() ==> (#[trigger] responses[i]).id != id by {
            if after.contains_key(id) {
                assert(waiting.contains_key(id) && id != last.id);
                assert forall|i: int| 0 <= i < responses.len() implies (
                #[trigger] responses[i]).id != id by {
                    if i < front.len() {
                        assert(front[i] == responses[i]);
                    }
                }
            }
            if outbound.contains_key(id) && forall|i: int|
                0 <= i < responses.len() ==> (#[trigger] responses[i]).id != id {
                assert forall|i: int| 0 <= i < front.len() implies (#[trigger] front[i]).id != id by {
                    assert(front[i] == responses[i]);
                }
                assert(responses[responses.len() - 1].id != id);
                assert(waiting.contains_key(id));
            }
        }
        assert forall|id: IdView| #[trigger] after.contains_key(id) implies after[id]
            == outbound[id] by {
            assert(waiting.contains_key(id));
        }
    }
}

/// What a text leads to is what the message leads to that it is read as; a text that holds no
/// message is refused with a parse error.
pub proof fn law_text_leads_to_what_it_says<T>(
    before: ConnectionView<T>,
    message: MessageView,
    error: JsonRpcErrorView,
)
    ensures
        received_text(before, Ok(message)) == received(before, message),
        received_text(before, Err(error)) matches ReceivedView::Refused(told) && {
            &&& told.code == ErrorCode::ParseError
            &&& told.message == "Parse error"@
            &&& told.data is None
        },
{
}

/// The JSON in a text, or the reason why there is none, stands for itself; and answers stand for as
/// many answers, each with where it goes and what it says.
pub proof fn law_texts_and_answers_are_viewed_whole<T>(
    json: JsonValue,
    reason: String,
    answers: Seq<(T, Response)>,
)
    ensures
        json_result(Ok(json)) == Ok::<_, Seq<char>>(json@),
        json_result(Err(reason)) == Err::<Json, _>(reason@),
        answers_view(answers).len() == answers.len(),
        forall|i: int|
            0 <= i < answers.len() ==> #[trigger] answers_view(answers)[i] == (
                answers[i].0,
                answers[i].1@,
            ),
{
}

/// What the event loop does with a single message that it received.
///
/// A response is passed to the one who waits for it, whole. For a method call, a notification and an
/// invalid request an operation is started with the whole message, and under the id of the call
/// where it is one.
pub proof fn law_step_for_a_single_message<T, C>(
    before: ConnectionView<T>,
    message: MessageView,
    after: ConnectionView<T>,
    step: Step<T, C>,
)
    requires
        is_step_for_text(before, Ok(message), after, step),
    ensures
        match message {
            MessageView::Response(response) => {
                &&& step matches Step::Inbound(actions)
                &&& actions.spawn is None
                &&& if before.outbound.contains_key(response.id) {
                    &&& actions.answers@.len() == 1
                    &&& actions.answers@[0].0 == before.outbound[response.id]
                    &&& actions.answers@[0].1@ == response
                    &&& after.outbound == before.outbound.remove(response.id)
                } else {
                    &&& actions.answers@.len() == 0
                    &&& after.outbound == before.outbound
                }
            },
            MessageView::Request(request) => !before.tasks.contains_key(request.id) ==> {
                &&& step matches Step::Inbound(actions)
                &&& actions.answers@.len() == 0
                &&& actions.spawn matches Some(spawn)
                &&& spawn.message@ == AsyncView::Request(request)
                &&& spawn.request_id matches Some(id)
                &&& id@ == request.id
                &&& after == before
            },
            MessageView::Notification(notification) => {
                &&& step matches Step::Inbound(actions)
                &&& actions.answers@.len() == 0
                &&& actions.spawn matches Some(spawn)
                &&& spawn.message@ == AsyncView::Notification(notification)
                &&& spawn.request_id is None
                &&& after == before
            },
            MessageView::InvalidRequest(invalid) => {
                &&& step matches Step::Inbound(actions)
                &&& actions.answers@.len() == 0
                &&& actions.spawn matches Some(spawn)
                &&& spawn.message@ == AsyncView::InvalidRequest(invalid)
                &&& spawn.request_id is None
                &&& after == before
            },
            MessageView::Batch(_) => true,
        },
        after.calls == before.calls,
        after.tasks == before.tasks,
{
    if let MessageView::Response(response) = message {
        let actions = step->Inbound_0;
        let view = answers_view(actions.answers@);
        assert(view.len() == actions.answers@.len());
        if before.outbound.contains_key(response.id) {
            assert(view[0] == (actions.answers@[0].0, actions.answers@[0].1@));
        } else {
            assert(before.outbound.remove(response.id) =~= before.outbound);
        }
    } else if !(message is Batch) && step is Inbound {
        assert(answers_view(step->Inbound_0.answers@).len() == step->Inbound_0.answers@.len());
    }
}

/// What the event loop does with a batch that it received and that holds any message: for all that
/// are no responses one operation is started, under no id, and if there are none, none is.
pub proof fn law_step_for_a_batch<T, C>(
    before: ConnectionView<T>,
    messages: Seq<MessageView>,
    after: ConnectionView<T>,
    step: Step<T, C>,
)
    requires
        is_step_for_text(before, Ok(MessageView::Batch(messages)), after, step),
        leaves(messages).len() > 0,
    ensures
        step matches Step::Inbound(actions) && {
            let responses = InlineView::Batch(inline_part(leaves(messages)));
            let others = async_part(leaves(messages));
            let answers = answers_in(before.outbound, responses);
            &&& actions.answers@.len() == answers.len()
            &&& forall|i: int|
                0 <= i < answers.len() ==> (#[trigger] actions.answers@[i]).0 == answers[i].0
                    && actions.answers@[i].1@ == answers[i].1
            &&& match actions.spawn {
                Some(spawn) => others.len() > 0 && spawn.message@ == AsyncView::Batch(others)
                    && spawn.request_id is None,
                None => others.len() == 0,
            }
            &&& after.outbound == outbound_after(before.outbound, responses)
            &&& after.calls == before.calls
            &&& after.tasks == before.tasks
        },
{
    law_batch_is_taken_in(before, messages);
    let actions = step->Inbound_0;
    let view = answers_view(actions.answers@);
    assert(view.len() == actions.answers@.len());
    assert forall|i: int| 0 <= i < view.len() implies (#[trigger] actions.answers@[i]).0
        == view[i].0 && actions.answers@[i].1@ == view[i].1 by {
        assert(view[i] == (actions.answers@[i].0, actions.answers@[i].1@));
    }
}

/// What is refused is answered under no id, with an error that says why: the text is no message, the
/// batch holds none, or the id of the call is in use.
pub proof fn law_refusals_say_why<T, C>(
    before: ConnectionView<T>,
    read: Result<MessageView, JsonRpcErrorView>,
    after: ConnectionView<T>,
    step: Step<T, C>,
)
    requires
        is_step_for_text(before, read, after, step),
        match read {
            Err(_) => true,
            Ok(MessageView::Batch(messages)) => leaves(messages).len() == 0,
            Ok(MessageView::Request(request)) => before.tasks.contains_key(request.id),
            Ok(_) => false,
        },
    ensures
        after == before,
        step matches Step::Answer(message) && {
            &&& message@ matches MessageView::Response(response)
            &&& response.id is Null
            &&& response.payload matches ResponsePayloadView::Error(error)
            &&& match read {
                Err(_) => error.code == ErrorCode::ParseError && error.message == "Parse error"@
                    && error.data is None,
                Ok(MessageView::Batch(_)) => error.code == ErrorCode::InvalidRequest
                    && error.message == "Empty batch message is not valid"@ && error.data is None,
                Ok(_) => error.code == ErrorCode::InvalidRequest && error.message
                    == "Duplicate request ID"@,
            }
        },
{
    if let Ok(MessageView::Batch(messages)) = read {
        law_batch_is_sorted_into_its_parts(messages);
        law_only_empty_batch_is_an_error(messages);
    }
}

/// To cancel a call of ours that waits tells the one who waits, who waits no more; to cancel a call
/// of the remote peer signals the task that processes it, unless that was done before. Nothing else
/// changes, and where there is no such call nothing does.
pub proof fn law_cancelling_reaches_the_call<T>(before: ConnectionView<T>, request_id: Id)
    ensures
        ({
            let (after, action) = commanded(
                before,
                Command::CancelPendingOutboundRequest { request_id },
            );
            &&& after.calls == before.calls
            &&& after.tasks == before.tasks
            &&& if before.outbound.contains_key(request_id@) {
                &&& after.outbound == before.outbound.remove(request_id@)
                &&& action == (CommandAction::Answer {
                    tx: before.outbound[request_id@],
                    error: JsonRpcError::Cancelled,
                })
            } else {
                &&& after.outbound == before.outbound
                &&& action is Nothing
            }
        }),
        ({
            let (after, action) = commanded(
                before,
                Command::CancelPendingInboundRequest { request_id },
            );
            let task_id = before.tasks[request_id@];
            &&& after.outbound == before.outbound
            &&& after.tasks == before.tasks
            &&& if before.tasks.contains_key(request_id@) {
                if before.calls[task_id].cancelled {
                    &&& after.calls == before.calls
                    &&& action == (CommandAction::<T>::AlreadySignalled { task_id })
                } else {
                    &&& after.calls.contains_key(task_id)
                    &&& after.calls[task_id].cancelled
                    &&& after.calls[task_id].request_id == before.calls[task_id].request_id
                    &&& forall|other: u64|
                        other != task_id ==> (#[trigger] after.calls.contains_key(other)
                            <==> before.calls.contains_key(other)) && after.calls[other]
                            == before.calls[other]
                    &&& action == (CommandAction::<T>::Signal { task_id })
                }
            } else {
                &&& after.calls == before.calls
                &&& action is Nothing
            }
        }),
{
}

/// While a task processes a call of the remote peer, to cancel the call signals that task, once.
pub proof fn law_task_of_a_call_is_signalled<T>(
    before: ConnectionView<T>,
    task_id: u64,
    request_id: Id,
)
    ensures
        ({
            let command = Command::CancelPendingInboundRequest { request_id };
            let during = spawned(before, task_id, Some(request_id@));
            let (after, action) = commanded(during, command);
            &&& action == (CommandAction::<T>::Signal { task_id })
            &&& commanded(after, command).1 == (CommandAction::<T>::AlreadySignalled { task_id })
        }),
{
}

/// A task that was started for a call is known by its number and by the id of the call, and is not
/// cancelled; one that was started for anything else is not kept track of. Nothing else changes.
pub proof fn law_started_task_is_known<T>(
    before: ConnectionView<T>,
    task_id: u64,
    request_id: IdView,
)
    ensures
        ({
            let after = spawned(before, task_id, Some(request_id));
            &&& after.outbound == before.outbound
            &&& after.tasks == before.tasks.insert(request_id, task_id)
            &&& after.calls.contains_key(task_id)
            &&& after.calls[task_id].request_id == request_id
            &&& !after.calls[task_id].cancelled
            &&& forall|other: u64|
                other != task_id ==> (#[trigger] after.calls.contains_key(other)
                    <==> before.calls.contains_key(other)) && after.calls[other]
                    == before.calls[other]
        }),
        spawned(before, task_id, None) == before,
{
}

/// A task that ended is forgotten, and so is the id of the call that it processed; nothing else
/// changes.
pub proof fn law_ended_task_is_forgotten<T>(before: ConnectionView<T>, task_id: u64)
    ensures
        ({
            let after = completed(before, task_id);
            &&& after.outbound == before.outbound
            &&& after.calls == before.calls.remove(task_id)
            &&& if before.calls.contains_key(task_id) {
                after.tasks == before.tasks.remove(before.calls[task_id].request_id)
            } else {
                after.tasks == before.tasks
            }
        }),
{
    if !before.calls.contains_key(task_id) {
        assert(before.calls.remove(task_id) =~= before.calls);
    }
}

/// What the event loop does when an operation ended: it sends the answer that the operation left, if
/// any, as it is; and a call of which the operation failed it answers itself, under the id of the
/// call and with an internal error.
pub proof fn law_ended_operation_is_answered<T, C>(
    before: ConnectionView<T>,
    completion: Completion,
    after: ConnectionView<T>,
    step: Step<T, C>,
)
    requires
        is_step(before, Event::OperationCompleted(completion), after, step),
    ensures
        match completion {
            Completion::Finished { task_id, response } => {
                &&& after == completed(before, task_id)
                &&& match response {
                    Some(message) => step == Step::<T, C>::Answer(message),
                    None => step is Wait,
                }
            },
            Completion::Failed { task_id } => {
                &&& after == completed(before, task_id)
                &&& if before.calls.contains_key(task_id) {
                    &&& step matches Step::Answer(message)
                    &&& message@ matches MessageView::Response(response)
                    &&& response.id == before.calls[task_id].request_id
                    &&& response.payload matches ResponsePayloadView::Error(error)
                    &&& error.code == ErrorCode::InternalError
                    &&& error.message == "Task was cancelled or panicked"@
                    &&& error.data is None
                } else {
                    step is Wait
                }
            },
        },
{
}

/// The answer to a call of which the operation failed bears the id of the call, and says that there
/// was an internal error.
pub proof fn law_failed_operation_is_an_internal_error(request_id: IdView)
    ensures
        failure_response(request_id) matches MessageView::Response(response) && {
            &&& response.id == request_id
            &&& response.payload matches ResponsePayloadView::Error(error)
            &&& error.code == ErrorCode::InternalError
            &&& error.message == "Task was cancelled or panicked"@
            &&& error.data is None
        },
{
}

/// What the event loop does on all other events: it carries out a command, sends what is to be sent,
/// takes in a text, and stops where the connection closes, the transport or the custom event loop
/// fails, someone asks for it, or a channel is gone.
pub proof fn law_step_for_each_event<T, C>(
    before: ConnectionView<T>,
    event: Event<T, C>,
    after: ConnectionView<T>,
    step: Step<T, C>,
)
    requires
        is_step(before, event, after, step),
    ensures
        match event {
            Event::Command(Some(command)) => {
                &&& step == Step::<T, C>::Command(commanded(before, command).1)
                &&& after == commanded(before, command).0
            },
            Event::Outbound(Some(outbound)) => {
                &&& step matches Step::Send { message, awaiting }
                &&& is_taken_apart(outbound, message, awaiting)
                &&& after == before
            },
            Event::Received(Ok(Some((text, json)))) => is_step_for_text(
                before,
                read_text(
                    text@,
                    match json {
                        Ok(json) => Ok(json@),
                        Err(reason) => Err(reason@),
                    },
                ),
                after,
                step,
            ),
            Event::Received(Ok(None)) => step == Step::<T, C>::Stop(Ok(())) && after == before,
            Event::Received(Err(error)) => step == Step::<T, C>::Stop(Err(error)) && after
                == before,
            Event::CustomEventLoop(Ok(())) => step is Wait && after == before,
            Event::CustomEventLoop(Err(source)) => step == Step::<T, C>::Stop(
                Err(JsonRpcError::CustomEventLoopError { source }),
            ) && after == before,
            Event::CancellationRequested => step == Step::<T, C>::Stop(
                Err(JsonRpcError::Cancelled),
            ) && after == before,
            Event::Command(None) => {
                &&& step matches Step::Stop(Err(JsonRpcError::Bug { message }))
                &&& message@ == "Handle closed connection to command channel"@
                &&& after == before
            },
            Event::Outbound(None) => {
                &&& step matches Step::Stop(Err(JsonRpcError::Bug { message }))
                &&& message@ == "Handle closed connection to outbound messages channel"@
                &&& after == before
            },
            Event::OperationCompleted(_) => true,
        },
{
}

/// Once a method call was sent, the one who made it waits for the answer under the id of the call
/// and is told nothing yet; if it could not be sent, that one is told why and does not wait.
pub proof fn law_sent_call_waits<T, C>(
    outbound: Map<IdView, T>,
    id: Id,
    response_tx: T,
    error: JsonRpcError,
)
    ensures
        ({
            let awaiting = AwaitingSend::<T, C>::Method { id, response_tx };
            &&& outbound_after_send(outbound, awaiting, true) == outbound.insert(id@, response_tx)
            &&& replies_after_send(awaiting, Ok(())).len() == 0
            &&& outbound_after_send(outbound, awaiting, false) == outbound
            &&& replies_after_send(awaiting, Err(error)).len() == 1
            &&& replies_after_send(awaiting, Err(error))[0] == (Reply::<T, C>::Response {
                tx: response_tx,
                result: Err(error),
            })
        }),
{
}

/// The one who raised a notification is told whether it was sent and if not, why; the one who sent a
/// batch is told the same, and once it was sent no one else is told anything yet.
pub proof fn law_sender_is_told<T, C>(
    outbound: Map<IdView, T>,
    response_txs: Vec<(Id, T)>,
    send_confirmation_tx: C,
    result: Result<(), JsonRpcError>,
)
    ensures
        ({
            let awaiting = AwaitingSend::<T, C>::Notification { send_confirmation_tx };
            &&& outbound_after_send(outbound, awaiting, result is Ok) == outbound
            &&& replies_after_send(awaiting, result).len() == 1
            &&& replies_after_send(awaiting, result)[0] == (Reply::<T, C>::Confirmation {
                tx: send_confirmation_tx,
                result,
            })
        }),
        ({
            let awaiting = AwaitingSend::<T, C>::Batch { response_txs, send_confirmation_tx };
            &&& replies_after_send(awaiting, Ok(())).len() == 1
            &&& replies_after_send(awaiting, Ok(()))[0] == (Reply::<T, C>::Confirmation {
                tx: send_confirmation_tx,
                result: Ok(()),
            })
            &&& outbound_after_send(outbound, awaiting, true) == with_all(outbound, response_txs@)
            &&& outbound_after_send(outbound, awaiting, false) == outbound
        }),
{
}

/// Each call of a batch that was sent waits under its id; of two under one id, the later one.
pub proof fn law_calls_of_a_batch_wait_in_turn<T>(
    outbound: Map<IdView, T>,
    txs: Seq<(Id, T)>,
    last: (Id, T),
)
    ensures
        with_all(outbound, Seq::empty()) == outbound,
        with_all(outbound, txs.push(last)) == with_all(outbound, txs).insert(last.0@, last.1),
{
    assert(txs.push(last).drop_last() =~= txs);
}

/// When the connection closes, no one is told so but those who wait for an answer, each once.
pub proof fn law_closing_tells_no_one_else<T, C>(outbound: Map<IdView, T>, entries: Seq<(Id, T)>)
    requires
        lists(entries, outbound),
    ensures
        closing_replies::<T, C>(entries).len() == entries.len(),
        forall|i: int|
            0 <= i < entries.len() ==> {
                &&& #[trigger] closing_replies::<T, C>(entries)[i] matches Reply::Response {
                    tx,
                    result,
                }
                &&& result == Err::<Response, _>(JsonRpcError::PendingRequestConnectionClosed)
                &&& outbound.contains_key(entries[i].0@)
                &&& tx == outbound[entries[i].0@]
            },
        forall|i: int, j: int|
            0 <= i < j < entries.len() ==> (#[trigger] entries[i]).0@ != (
            #[trigger] entries[j]).0@,
{
    assert forall|i: int| 0 <= i < entries.len() implies ({
        &&& #[trigger] closing_replies::<T, C>(entries)[i] matches Reply::Response { tx, result }
        &&& result == Err::<Response, _>(JsonRpcError::PendingRequestConnectionClosed)
        &&& outbound.contains_key(entries[i].0@)
        &&& tx == outbound[entries[i].0@]
    }) by {
        assert(outbound.contains_key(entries[i].0.mark()));
    }
    assert forall|i: int, j: int| 0 <= i < j < entries.len() implies (#[trigger] entries[i]).0@ != (
    #[trigger] entries[j]).0@ by {
        assert(entries[i].0.mark() != entries[j].0.mark());
    }
}

/// Those who wait for word of something that is not sent because the connection closes are told so:
/// the one who made a call, the one who raised a notification, and of a batch each who made a call
/// and the one who sent it.
pub proof fn law_refused_message_is_reported<T, C>(outbound: OutboundMessage<T, C>)
    ensures
        match outbound {
            OutboundMessage::Method { response_tx, .. } => {
                &&& refusals(outbound).len() == 1
                &&& refusals(outbound)[0] == (Reply::<T, C>::Response {
                    tx: response_tx,
                    result: Err(JsonRpcError::PendingRequestConnectionClosed),
                })
            },
            OutboundMessage::Notification { send_confirmation_tx, .. } => {
                &&& refusals(outbound).len() == 1
                &&& refusals(outbound)[0] == (Reply::<T, C>::Confirmation {
                    tx: send_confirmation_tx,
                    result: Err(JsonRpcError::PendingRequestConnectionClosed),
                })
            },
            OutboundMessage::Batch { requests, send_confirmation_tx, .. } => {
                &&& refusals(outbound).len() == requests@.len() + 1
                &&& forall|i: int|
                    0 <= i < requests@.len() ==> #[trigger] refusals(outbound)[i] == (Reply::<
                        T,
                        C,
                    >::Response {
                        tx: requests@[i].1,
                        result: Err(JsonRpcError::PendingRequestConnectionClosed),
                    })
                &&& refusals(outbound)[requests@.len() as int] == (Reply::<T, C>::Confirmation {
                    tx: send_confirmation_tx,
                    result: Err(JsonRpcError::PendingRequestConnectionClosed),
                })
            },
        },
{
}

/// What the handler of a method call returns is what comes of the call where it was made. The
/// request reads, at the other peer, as a call with the id, the method and the parameters that it was
/// made with; and once the answer to it has come back, the call comes to the result that the handler
/// returned, or fails with the error that it returned. Only the last of repeated names is left in
/// what is sent, null stands for data that was left out, and an error code is one of the same number.
pub proof fn law_outcome_of_a_call_reaches_the_caller(
    request: RequestView,
    outcomes: spec_fn(InvocationView) -> HandlerOutcome,
    payload: ResponsePayload,
    method: Seq<char>,
    response: Response,
)
    requires
        outcomes(
            InvocationView {
                id: Some(request.id),
                method: request.method,
                params: request.params,
            },
        ) == HandlerOutcome::Response(payload),
        ({
            let answer = answer_to(planned(AsyncView::Request(request)), outcomes);
            &&& answer is Some
            &&& read_message(write_message(answer->Some_0)) == Some(
                MessageView::Response(response@),
            )
        }),
    ensures
        read_message(write_message(MessageView::Request(request))) matches Some(
            MessageView::Request(read),
        ) && read.id == request.id && read.method == request.method && read.params
            == match request.params {
            Some(params) => if params is Null {
                None
            } else {
                Some(last_values(params))
            },
            None => None,
        },
        response.id@ == request.id,
        match (payload, call_outcome(method, Some(Ok(response)))) {
            (ResponsePayload::Success(success), Ok(result)) => result == last_values(
                success.result@,
            ),
            (
                ResponsePayload::Error(failure),
                Err(JsonRpcErrorView::MethodError { method: failed, error }),
            ) => {
                &&& failed == method
                &&& error.code.number() == failure.error.code.number()
                &&& error.message == failure.error.message@
                &&& error.data == match failure.error.data {
                    Some(data) => if data@ is Null {
                        None
                    } else {
                        Some(last_values(data@))
                    },
                    None => None,
                }
            },
            _ => false,
        },
{
    law_what_was_written_comes_back(MessageView::Request(request));
    law_call_is_answered_with_its_outcome(request, outcomes, payload);
    let answer = answer_to(planned(AsyncView::Request(request)), outcomes)->Some_0;
    law_what_was_written_comes_back(answer);
}

} // verus!
