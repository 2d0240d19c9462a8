//! Processing of what the remote peer sends beyond responses: method calls, notifications, invalid
//! requests, and batches of these.
use crate::handler::{InvocationRequest, InvocationView};
use crate::inbound::{
    async_part, law_sorting_keeps_every_message, leaves, lemma_leaves_hold_no_batch,
    lemma_parts_push, AsyncInboundMessage, AsyncView,
};
use crate::router::{response_to, HandlerOutcome};
use crate::types::{
    details, error_response, lemma_batch_view, messages_view, option_message, ErrorCode, IdView,
    Message, MessageView, NotificationView, RequestView, Response, ResponsePayload,
    ResponsePayloadView,
};
use vstd::prelude::*;

verus! {

/// What is done to process a message.
#[derive(Debug)]
pub enum Operation {
    /// A handler is run.
    Invoke(InvocationRequest),
    /// Nothing; this is the answer.
    Answer(Message),
    /// All of these are done, and their answers are put together.
    Batch(Vec<Operation>),
}

/// The view of an [`Operation`].
pub enum OperationView {
    Invoke(InvocationView),
    Answer(MessageView),
    Batch(Seq<OperationView>),
}

/// What `operation` stands for.
pub open spec fn operation_view(operation: Operation) -> OperationView
    decreases operation,
{
    match operation {
        Operation::Invoke(request) => OperationView::Invoke(request@),
        Operation::Answer(message) => OperationView::Answer(message@),
        Operation::Batch(operations) => OperationView::Batch(
            Seq::new(
                operations@.len(),
                |i: int|
                    if 0 <= i < operations@.len() {
                        operation_view(operations@[i])
                    } else {
                        OperationView::Batch(Seq::empty())
                    },
            ),
        ),
    }
}

impl View for Operation {
    type V = OperationView;

    open spec fn view(&self) -> OperationView {
        operation_view(*self)
    }
}

/// The answer to an invalid request.
pub open spec fn invalid_request_answer(id: IdView) -> MessageView {
    MessageView::Response(
        error_response(id, details(ErrorCode::InvalidRequest, "Invalid request"@, None)),
    )
}

/// What is done to process `message`.
pub open spec fn planned(message: AsyncView) -> OperationView
    decreases message,
{
    match message {
        AsyncView::Request(request) => OperationView::Invoke(
            InvocationView {
                id: Some(request.id),
                method: request.method,
                params: request.params,
            },
        ),
        AsyncView::Notification(notification) => OperationView::Invoke(
            InvocationView {
                id: None,
                method: notification.method,
                params: notification.params,
            },
        ),
        AsyncView::InvalidRequest(id) => OperationView::Answer(invalid_request_answer(id)),
        AsyncView::Batch(messages) => OperationView::Batch(planned_all(messages)),
    }
}

/// What is done to process each of `messages`.
pub open spec fn planned_all(messages: Seq<AsyncView>) -> Seq<OperationView>
    decreases messages,
{
    if messages.len() == 0 {
        Seq::empty()
    } else {
        planned_all(messages.drop_last()).push(planned(messages.last()))
    }
}

/// Plans what is done to process a message.
pub fn plan(message: AsyncInboundMessage) -> (operation: Operation)
    ensures
        operation@ == planned(message@),
        match message {
            AsyncInboundMessage::Request(request) => {
                &&& operation matches Operation::Invoke(invocation)
                &&& invocation.id == Some(request.id)
                &&& invocation.method == request.method
                &&& invocation.params == request.params
            },
            AsyncInboundMessage::Notification(notification) => {
                &&& operation matches Operation::Invoke(invocation)
                &&& invocation.id is None
                &&& invocation.method == notification.method
                &&& invocation.params == notification.params
            },
            AsyncInboundMessage::InvalidRequest(invalid) => {
                &&& operation matches Operation::Answer(Message::Response(response))
                &&& response.id == invalid.id
            },
            AsyncInboundMessage::Batch(messages) => {
                &&& operation matches Operation::Batch(operations)
                &&& operations@.len() == messages@.len()
                &&& forall|i: int|
                    0 <= i < messages@.len() ==> (#[trigger] operations@[i])@ == planned(
                        messages@[i]@,
                    )
            },
        },
    decreases message,
{
    match message {
        AsyncInboundMessage::Request(request) => Operation::Invoke(
            InvocationRequest::from_request_message(request),
        ),
        AsyncInboundMessage::Notification(notification) => Operation::Invoke(
            InvocationRequest::from_notification_message(notification),
        ),
        AsyncInboundMessage::InvalidRequest(invalid) => Operation::Answer(
            Message::Response(
                Response::error(
                    invalid.id,
                    ErrorCode::InvalidRequest,
                    "Invalid request".to_string(),
                    None,
                ),
            ),
        ),
        AsyncInboundMessage::Batch(messages) => {
            let ghost all = messages@;
            let ghost views = message@->Batch_0;
            let mut operations: Vec<Operation> = Vec::new();
            assert(operations@.map_values(|operation: Operation| operation@) =~= planned_all(
                views.take(0),
            ));
            for inner in it: messages
                invariant
                    it.seq() == all,
                    message is Batch,
                    all == message->Batch_0@,
                    views == message@->Batch_0,
                    operations@.map_values(|operation: Operation| operation@) == planned_all(
                        views.take(it.index()),
                    ),
            {
                let ghost before = operations@;
                proof {
                    assert(views.take(it.index() + 1).drop_last() =~= views.take(it.index()));
                    assert(views.take(it.index() + 1).last() == inner@);
                    assert(decreases_to!(message => message->Batch_0));
                    assert(decreases_to!(message->Batch_0 => message->Batch_0@));
                    assert(decreases_to!(message => message->Batch_0@[it.index()]));
                }
                operations.push(plan(inner));
                assert(operations@.map_values(|operation: Operation| operation@)
                    =~= before.map_values(|operation: Operation| operation@).push(
                    planned(inner@),
                ));
            }
            proof {
                assert(views.take(views.len() as int) =~= views);
                let done = operations@.map_values(|operation: Operation| operation@);
                assert(Operation::Batch(operations)@->Batch_0 =~= done);
                lemma_planned_all(views);
                assert forall|i: int| 0 <= i < all.len() implies (#[trigger] operations@[i])@
                    == planned(all[i]@) by {
                    assert(done[i] == operations@[i]@);
                    assert(views[i] == all[i]@);
                }
            }
            Operation::Batch(operations)
        },
    }
}

/// Makes the answer of the response to an invocation.
pub fn invocation_answer(response: Option<Response>) -> (answer: Option<Message>)
    ensures
        answer == match response {
            Some(response) => Some(Message::Response(response)),
            None => None,
        },
{
    match response {
        Some(response) => Some(Message::Response(response)),
        None => None,
    }
}

/// The answers that there are among `answers`, in their order.
pub open spec fn given<A>(answers: Seq<Option<A>>) -> Seq<A> {
    answers.filter_map(|answer: Option<A>| answer)
}

/// The answer to a batch: the answers to its messages, in their order; none if there are none.
pub open spec fn batch_answer(answers: Seq<Option<MessageView>>) -> Option<MessageView> {
    if given(answers).len() == 0 {
        None
    } else {
        Some(MessageView::Batch(given(answers)))
    }
}

/// What optional messages stand for.
pub open spec fn options_view(answers: Seq<Option<Message>>) -> Seq<Option<MessageView>> {
    answers.map_values(|answer: Option<Message>| option_message(answer))
}

/// Puts the answers to the messages of a batch together.
pub fn combine_batch(answers: Vec<Option<Message>>) -> (answer: Option<Message>)
    ensures
        option_message(answer) == batch_answer(options_view(answers@)),
{
    let ghost all = answers@;
    let ghost views = options_view(all);
    let mut messages: Vec<Message> = Vec::new();
    assert(messages_view(messages@) =~= given(views.take(0)));
    for item in it: answers
        invariant
            it.seq() == all,
            views == options_view(all),
            messages_view(messages@) == given(views.take(it.index())),
    {
        let ghost before = messages@;
        proof {
            assert(views.take(it.index() + 1).drop_last() =~= views.take(it.index()));
            assert(views.take(it.index() + 1).last() == option_message(item));
        }
        if let Some(message) = item {
            messages.push(message);
            assert(messages_view(messages@) =~= messages_view(before) + seq![message@]);
        }
    }
    assert(views.take(views.len() as int) =~= views);
    if messages.len() == 0 {
        None
    } else {
        proof {
            lemma_batch_view(messages);
        }
        Some(Message::Batch(messages))
    }
}

/// The answer to `operation`, where `outcomes` says what comes of each invocation.
pub open spec fn answer_to(
    operation: OperationView,
    outcomes: spec_fn(InvocationView) -> HandlerOutcome,
) -> Option<MessageView>
    decreases operation,
{
    match operation {
        OperationView::Invoke(request) => match response_to(request.id, outcomes(request)) {
            Some(response) => Some(MessageView::Response(response)),
            None => None,
        },
        OperationView::Answer(message) => Some(message),
        OperationView::Batch(operations) => batch_answer(answers_to(operations, outcomes)),
    }
}

/// The answer to each of `operations`, where `outcomes` says what comes of each invocation.
pub open spec fn answers_to(
    operations: Seq<OperationView>,
    outcomes: spec_fn(InvocationView) -> HandlerOutcome,
) -> Seq<Option<MessageView>>
    decreases operations,
{
    if operations.len() == 0 {
        Seq::empty()
    } else {
        answers_to(operations.drop_last(), outcomes).push(answer_to(operations.last(), outcomes))
    }
}

/// The ids among `messages` that want an answer: those of method calls and invalid requests.
pub open spec fn ids_to_answer(messages: Seq<AsyncView>) -> Seq<IdView>
    decreases messages.len(),
{
    if messages.len() == 0 {
        Seq::empty()
    } else {
        let before = ids_to_answer(messages.drop_last());
        match messages.last() {
            AsyncView::Request(request) => before.push(request.id),
            AsyncView::InvalidRequest(id) => before.push(id),
            _ => before,
        }
    }
}

/// The handlers of method calls return a payload or panic.
pub open spec fn calls_have_outcomes(outcomes: spec_fn(InvocationView) -> HandlerOutcome) -> bool {
    forall|request: InvocationView|
        request.id is Some ==> !(#[trigger] outcomes(request) is NoResponse)
}

/// The id that an answer bears.
pub open spec fn answered_id(answer: MessageView) -> IdView {
    answer->Response_0.id
}

proof fn lemma_batch_answers(
    messages: Seq<AsyncView>,
    outcomes: spec_fn(InvocationView) -> HandlerOutcome,
)
    requires
        calls_have_outcomes(outcomes),
        forall|i: int| 0 <= i < messages.len() ==> !(#[trigger] messages[i] is Batch),
    ensures
        given(answers_to(planned_all(messages), outcomes)).map_values(
            |answer: MessageView| answered_id(answer),
        ) == ids_to_answer(messages),
        forall|i: int|
            0 <= i < given(answers_to(planned_all(messages), outcomes)).len() ==> #[trigger] given(
                answers_to(planned_all(messages), outcomes),
            )[i] is Response,
    decreases messages.len(),
{
    let answers = answers_to(planned_all(messages), outcomes);
    if messages.len() == 0 {
        assert(given(answers).map_values(|answer: MessageView| answered_id(answer))
            =~= ids_to_answer(messages));
    } else {
        let front = messages.drop_last();
        let last = messages.last();
        lemma_batch_answers(front, outcomes);
        assert(planned_all(messages).drop_last() =~= planned_all(front));
        let before = answers_to(planned_all(front), outcomes);
        let one = answer_to(planned(last), outcomes);
        assert(answers == before.push(one));
        assert(answers.drop_last() =~= before);
        if let AsyncView::Request(request) = last {
            let invocation = InvocationView {
                id: Some(request.id),
                method: request.method,
                params: request.params,
            };
            assert(!(outcomes(invocation) is NoResponse));
        }
        match one {
            Some(answer) => {
                assert(given(answers) =~= given(before).push(answer));
                assert(given(answers).map_values(|answer: MessageView| answered_id(answer))
                    =~= given(before).map_values(|answer: MessageView| answered_id(answer)).push(
                    answered_id(answer),
                ));
            },
            None => {
                assert(given(answers) =~= given(before));
            },
        }
    }
}

/// A batch is answered with a batch that holds one response to each method call and each invalid
/// request in it, in their order and under their ids, and nothing else; it is not answered at all
/// where it holds neither.
pub proof fn law_batch_gets_one_answer_to_each_call(
    messages: Seq<AsyncView>,
    outcomes: spec_fn(InvocationView) -> HandlerOutcome,
)
    requires
        calls_have_outcomes(outcomes),
        forall|i: int| 0 <= i < messages.len() ==> !(#[trigger] messages[i] is Batch),
    ensures
        match answer_to(planned(AsyncView::Batch(messages)), outcomes) {
            None => ids_to_answer(messages).len() == 0,
            Some(MessageView::Batch(answers)) => {
                &&& answers.len() > 0
                &&& answers.map_values(|answer: MessageView| answered_id(answer)) == ids_to_answer(
                    messages,
                )
                &&& forall|i: int|
                    0 <= i < answers.len() ==> #[trigger] answers[i] is Response
            },
            Some(_) => false,
        },
{
    lemma_batch_answers(messages, outcomes);
    let answers = given(answers_to(planned_all(messages), outcomes));
    assert(answers.map_values(|answer: MessageView| answered_id(answer)).len() == answers.len());
}

/// A method call and an invalid request are answered with one response under their id, and a
/// notification is not answered.
pub proof fn law_single_message_answer(
    message: AsyncView,
    outcomes: spec_fn(InvocationView) -> HandlerOutcome,
)
    requires
        calls_have_outcomes(outcomes),
        !(message is Batch),
    ensures
        match (message, answer_to(planned(message), outcomes)) {
            (AsyncView::Request(request), Some(MessageView::Response(response))) => response.id
                == request.id,
            (AsyncView::InvalidRequest(id), answer) => answer == Some(invalid_request_answer(id)),
            (AsyncView::Notification(_), answer) => answer is None,
            _ => false,
        },
{
    if let AsyncView::Request(request) = message {
        let invocation = InvocationView {
            id: Some(request.id),
            method: request.method,
            params: request.params,
        };
        assert(!(outcomes(invocation) is NoResponse));
    }
}

/// The ids among `flat` that want an answer: those of method calls and invalid requests.
pub open spec fn wanted_ids(flat: Seq<MessageView>) -> Seq<IdView>
    decreases flat.len(),
{
    if flat.len() == 0 {
        Seq::empty()
    } else {
        let before = wanted_ids(flat.drop_last());
        match flat.last() {
            MessageView::Request(request) => before.push(request.id),
            MessageView::InvalidRequest(id) => before.push(id),
            _ => before,
        }
    }
}

proof fn lemma_wanted_ids(flat: Seq<MessageView>)
    ensures
        ids_to_answer(async_part(flat)) == wanted_ids(flat),
    decreases flat.len(),
{
    if flat.len() == 0 {
        reveal(Seq::filter);
    } else {
        let front = flat.drop_last();
        assert(front.push(flat.last()) =~= flat);
        lemma_wanted_ids(front);
        lemma_parts_push(front, flat.last());
        if !(flat.last() is Response) {
            assert(async_part(flat).drop_last() =~= async_part(front));
        }
    }
}

/// What the remote peer gets for a batch, however deep other batches are nested in it: one batch
/// with a response to each method call and each invalid request, in their order and under their
/// ids; or nothing, if it holds neither.
pub proof fn law_batch_message_is_answered(
    messages: Seq<MessageView>,
    outcomes: spec_fn(InvocationView) -> HandlerOutcome,
)
    requires
        calls_have_outcomes(outcomes),
    ensures
        match answer_to(planned(AsyncView::Batch(async_part(leaves(messages)))), outcomes) {
            None => wanted_ids(leaves(messages)).len() == 0,
            Some(MessageView::Batch(answers)) => {
                &&& answers.len() > 0
                &&& answers.map_values(|answer: MessageView| answered_id(answer)) == wanted_ids(
                    leaves(messages),
                )
                &&& forall|i: int| 0 <= i < answers.len() ==> #[trigger] answers[i] is Response
            },
            Some(_) => false,
        },
{
    let flat = leaves(messages);
    lemma_leaves_hold_no_batch(messages);
    law_sorting_keeps_every_message(flat);
    lemma_wanted_ids(flat);
    law_batch_gets_one_answer_to_each_call(async_part(flat), outcomes);
}

/// The handler of a method call is run with the id, the method and the parameters of the call, and
/// that of a notification with the method and the parameters of the notification and no id; an
/// invalid request is answered under its id, with an error that says that it is one.
pub proof fn law_handlers_get_what_was_sent(
    request: RequestView,
    notification: NotificationView,
    invalid: IdView,
)
    ensures
        planned(AsyncView::Request(request)) matches OperationView::Invoke(invocation) && {
            &&& invocation.id == Some(request.id)
            &&& invocation.method == request.method
            &&& invocation.params == request.params
        },
        planned(AsyncView::Notification(notification)) matches OperationView::Invoke(invocation) && {
            &&& invocation.id is None
            &&& invocation.method == notification.method
            &&& invocation.params == notification.params
        },
        planned(AsyncView::InvalidRequest(invalid)) matches OperationView::Answer(
            MessageView::Response(response),
        ) && {
            &&& response.id == invalid
            &&& response.payload matches ResponsePayloadView::Error(error)
            &&& error.code == ErrorCode::InvalidRequest
            &&& error.message == "Invalid request"@
            &&& error.data is None
        },
{
}

/// What is done for a batch is what is done for each of its messages alone, in their order.
pub proof fn law_batch_is_planned_message_by_message(messages: Seq<AsyncView>)
    ensures
        planned(AsyncView::Batch(messages)) matches OperationView::Batch(operations) && {
            &&& operations.len() == messages.len()
            &&& forall|i: int|
                0 <= i < messages.len() ==> #[trigger] operations[i] == planned(messages[i])
        },
{
    lemma_planned_all(messages);
}

proof fn lemma_planned_all(messages: Seq<AsyncView>)
    ensures
        planned_all(messages).len() == messages.len(),
        forall|i: int|
            0 <= i < messages.len() ==> #[trigger] planned_all(messages)[i] == planned(messages[i]),
    decreases messages.len(),
{
    if messages.len() > 0 {
        let front = messages.drop_last();
        lemma_planned_all(front);
        assert forall|i: int| 0 <= i < messages.len() implies #[trigger] planned_all(messages)[i]
            == planned(messages[i]) by {
            if i < front.len() {
                assert(planned_all(messages)[i] == planned_all(front)[i]);
                assert(front[i] == messages[i]);
            }
        }
    }
}

/// The handler of every notification and of every method call in a batch is run with what was sent:
/// of a call the id, and of both the method and the parameters.
pub proof fn law_handlers_get_what_was_sent_in_a_batch(messages: Seq<AsyncView>, i: int)
    requires
        0 <= i < messages.len(),
    ensures
        planned(AsyncView::Batch(messages)) matches OperationView::Batch(operations) && {
            &&& messages[i] matches AsyncView::Notification(notification) ==> {
                &&& operations[i] matches OperationView::Invoke(invocation)
                &&& invocation.id is None
                &&& invocation.method == notification.method
                &&& invocation.params == notification.params
            }
            &&& messages[i] matches AsyncView::Request(request) ==> {
                &&& operations[i] matches OperationView::Invoke(invocation)
                &&& invocation.id == Some(request.id)
                &&& invocation.method == request.method
                &&& invocation.params == request.params
            }
        },
{
    law_batch_is_planned_message_by_message(messages);
}

/// What is planned stands for everything that is in it; of a batch, each operation in its place.
pub proof fn law_operations_are_viewed_whole(operation: Operation)
    ensures
        match operation {
            Operation::Invoke(request) => operation@ == OperationView::Invoke(request@),
            Operation::Answer(message) => operation@ == OperationView::Answer(message@),
            Operation::Batch(operations) => {
                &&& operation@ matches OperationView::Batch(views)
                &&& views.len() == operations@.len()
                &&& forall|i: int| 0 <= i < views.len() ==> #[trigger] views[i] == operations@[i]@
            },
        },
{
}

/// A method call is answered, under its id, with the result or the error that its handler returned.
pub proof fn law_call_is_answered_with_its_outcome(
    request: RequestView,
    outcomes: spec_fn(InvocationView) -> HandlerOutcome,
    payload: ResponsePayload,
)
    requires
        outcomes(
            InvocationView {
                id: Some(request.id),
                method: request.method,
                params: request.params,
            },
        ) == HandlerOutcome::Response(payload),
    ensures
        answer_to(planned(AsyncView::Request(request)), outcomes) matches Some(
            MessageView::Response(response),
        ) && {
            &&& response.id == request.id
            &&& match payload {
                ResponsePayload::Success(success) => response.payload
                    == ResponsePayloadView::Success(success.result@),
                ResponsePayload::Error(failure) => response.payload == ResponsePayloadView::Error(
                    failure.error@,
                ),
            }
        },
{
}

/// The answers to a batch are the answers that its messages get alone, in their order: one more
/// message adds its answer at the end, if it gets one, and changes nothing else.
pub proof fn law_batch_is_answered_message_by_message(
    messages: Seq<AsyncView>,
    last: AsyncView,
    outcomes: spec_fn(InvocationView) -> HandlerOutcome,
)
    ensures
        answer_to(planned(AsyncView::Batch(Seq::empty())), outcomes) is None,
        match (
            answer_to(planned(AsyncView::Batch(messages)), outcomes),
            answer_to(planned(last), outcomes),
            answer_to(planned(AsyncView::Batch(messages.push(last))), outcomes),
        ) {
            (before, None, after) => after == before,
            (None, Some(answer), after) => {
                &&& after matches Some(MessageView::Batch(answers))
                &&& answers.len() == 1
                &&& answers[0] == answer
            },
            (Some(MessageView::Batch(before)), Some(answer), after) => {
                &&& after matches Some(MessageView::Batch(answers))
                &&& answers.len() == before.len() + 1
                &&& forall|i: int| 0 <= i < before.len() ==> #[trigger] answers[i] == before[i]
                &&& answers[before.len() as int] == answer
            },
            _ => false,
        },
{
    let more = messages.push(last);
    assert(more.drop_last() =~= messages);
    assert(planned_all(more) == planned_all(messages).push(planned(last)));
    assert(planned_all(more).drop_last() =~= planned_all(messages));
    let before = answers_to(planned_all(messages), outcomes);
    let after = answers_to(planned_all(more), outcomes);
    let one = answer_to(planned(last), outcomes);
    assert(after == before.push(one));
    assert(after.drop_last() =~= before);
    assert(given(answers_to(planned_all(Seq::empty()), outcomes)).len() == 0);
    match one {
        Some(answer) => {
            assert(given(after) =~= given(before).push(answer));
        },
        None => {
            assert(given(after) =~= given(before));
        },
    }
}

/// The answer to a batch holds every answer that there is, in their order, and nothing else: one
/// more answer comes at its end, and where there is none nothing changes.
pub proof fn law_answers_are_put_together(
    answers: Seq<Option<MessageView>>,
    last: Option<MessageView>,
)
    ensures
        batch_answer(Seq::empty()) is None,
        match (batch_answer(answers), last) {
            (before, None) => batch_answer(answers.push(None)) == before,
            (None, Some(answer)) => {
                &&& batch_answer(answers.push(last)) matches Some(MessageView::Batch(all))
                &&& all.len() == 1
                &&& all[0] == answer
            },
            (Some(MessageView::Batch(before)), Some(answer)) => {
                &&& batch_answer(answers.push(last)) matches Some(MessageView::Batch(all))
                &&& all.len() == before.len() + 1
                &&& forall|i: int| 0 <= i < before.len() ==> #[trigger] all[i] == before[i]
                &&& all[before.len() as int] == answer
            },
            _ => false,
        },
{
    assert(answers.push(last).drop_last() =~= answers);
    match last {
        Some(answer) => {
            assert(given(answers.push(last)) =~= given(answers).push(answer));
        },
        None => {
            assert(given(answers.push(last)) =~= given(answers));
        },
    }
}

/// Optional messages stand for as many, each for its own.
pub proof fn law_each_option_is_viewed(answers: Seq<Option<Message>>)
    ensures
        options_view(answers).len() == answers.len(),
        forall|i: int|
            0 <= i < answers.len() ==> #[trigger] options_view(answers)[i] == match answers[i] {
                Some(message) => Some(message@),
                None => None,
            },
{
}

} // verus!
