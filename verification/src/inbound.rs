//! Sorting of what a remote peer sends by how it is processed.
use crate::types::{
    details, lemma_batch_view, messages_view, ErrorCode, ErrorDetails, ErrorDetailsView, IdView,
    InvalidRequest, Message, MessageView, Notification, NotificationView, Request, RequestView,
    Response, ResponseView,
};
use vstd::prelude::*;

verus! {

/// The messages that `messages` holds, each nested batch replaced by what it holds.
pub open spec fn leaves(messages: Seq<MessageView>) -> Seq<MessageView>
    decreases messages,
{
    if messages.len() == 0 {
        Seq::empty()
    } else {
        leaves(messages.drop_last()) + leaves_of(messages.last())
    }
}

/// The message itself or, of a batch, the messages that it holds.
pub open spec fn leaves_of(message: MessageView) -> Seq<MessageView>
    decreases message,
{
    match message {
        MessageView::Batch(messages) => leaves(messages),
        _ => seq![message],
    }
}

fn flatten_into(messages: Vec<Message>, flat: &mut Vec<Message>)
    ensures
        messages_view(final(flat)@) == messages_view(old(flat)@) + leaves(messages_view(messages@)),
    decreases messages,
{
    let ghost start = messages_view(flat@);
    let ghost all = messages@;
    assert(messages_view(all.take(0)) =~= Seq::<MessageView>::empty());
    assert(start + leaves(Seq::<MessageView>::empty()) =~= start);
    for message in it: messages
        invariant
            it.seq() == all,
            all == messages@,
            messages_view(flat@) == start + leaves(messages_view(all.take(it.index()))),
    {
        proof {
            let done = all.take(it.index());
            let more = all.take(it.index() + 1);
            assert(messages_view(more).drop_last() =~= messages_view(done));
            assert(messages_view(more).last() == message@);
            assert(leaves(messages_view(more)) == leaves(messages_view(done)) + leaves_of(
                message@,
            ));
            assert(decreases_to!(messages => messages@));
            assert(decreases_to!(messages => messages@[it.index()]));
        }
        match message {
            Message::Batch(inner) => {
                proof {
                    lemma_batch_view(inner);
                    assert(leaves_of(message@) == leaves(messages_view(inner@)));
                    assert(decreases_to!(message => inner));
                }
                flatten_into(inner, flat);
            },
            leaf => {
                let ghost before = flat@;
                assert(leaves_of(leaf@) == seq![leaf@]);
                flat.push(leaf);
                assert(messages_view(flat@) =~= messages_view(before).push(leaf@));
            },
        }
        assert(messages_view(flat@) =~= start + leaves(messages_view(all.take(it.index() + 1))));
    }
    assert(all.take(all.len() as int) =~= all);
}

/// No batch is left among the leaves.
pub proof fn lemma_leaves_hold_no_batch(messages: Seq<MessageView>)
    ensures
        forall|i: int|
            0 <= i < leaves(messages).len() ==> !(#[trigger] leaves(messages)[i] is Batch),
    decreases messages,
{
    if messages.len() > 0 {
        lemma_leaves_hold_no_batch(messages.drop_last());
        if let MessageView::Batch(inner) = messages.last() {
            lemma_leaves_hold_no_batch(inner);
        }
        let front = leaves(messages.drop_last());
        let back = leaves_of(messages.last());
        assert(leaves(messages) == front + back);
        assert forall|i: int| 0 <= i < leaves(messages).len() implies !(#[trigger] leaves(
            messages,
        )[i] is Batch) by {
            if i < front.len() {
                assert(leaves(messages)[i] == front[i]);
            } else {
                assert(leaves(messages)[i] == back[i - front.len()]);
            }
        }
    }
}

/// A message from the remote peer that the event loop processes itself, because that takes next
/// to no time.
#[derive(Debug)]
pub enum InlineInboundMessage {
    /// The answer to a method call that was sent earlier.
    Response(Response),
    /// Several such messages.
    Batch(Vec<InlineInboundMessage>),
}

/// A message from the remote peer that is processed apart from the event loop, because that may
/// take any length of time.
#[derive(Debug)]
pub enum AsyncInboundMessage {
    /// A notification to be handed to its handler.
    Notification(Notification),
    /// A method call to be handed to its handler.
    Request(Request),
    /// An invalid request; its error answer goes into the one answer that a batch gets.
    InvalidRequest(InvalidRequest),
    /// Several such messages.
    Batch(Vec<AsyncInboundMessage>),
}

/// A message from the remote peer, sorted by how it is processed.
#[derive(Debug)]
pub enum InboundMessage {
    Inline(InlineInboundMessage),
    Async(AsyncInboundMessage),
    /// The two parts of a batch that holds both kinds.
    Hybrid(InlineInboundMessage, AsyncInboundMessage),
}

/// The view of an [`InlineInboundMessage`].
pub enum InlineView {
    Response(ResponseView),
    Batch(Seq<InlineView>),
}

/// The view of an [`AsyncInboundMessage`].
pub enum AsyncView {
    Notification(NotificationView),
    Request(RequestView),
    InvalidRequest(IdView),
    Batch(Seq<AsyncView>),
}

/// The view of an [`InboundMessage`].
pub enum InboundView {
    Inline(InlineView),
    Async(AsyncView),
    Hybrid(InlineView, AsyncView),
}

/// What `message` stands for.
pub open spec fn inline_view(message: InlineInboundMessage) -> InlineView
    decreases message,
{
    match message {
        InlineInboundMessage::Response(response) => InlineView::Response(response@),
        InlineInboundMessage::Batch(messages) => InlineView::Batch(
            Seq::new(
                messages@.len(),
                |i: int|
                    if 0 <= i < messages@.len() {
                        inline_view(messages@[i])
                    } else {
                        InlineView::Batch(Seq::empty())
                    },
            ),
        ),
    }
}

impl View for InlineInboundMessage {
    type V = InlineView;

    open spec fn view(&self) -> InlineView {
        inline_view(*self)
    }
}

/// What `message` stands for.
pub open spec fn async_view(message: AsyncInboundMessage) -> AsyncView
    decreases message,
{
    match message {
        AsyncInboundMessage::Notification(notification) => AsyncView::Notification(notification@),
        AsyncInboundMessage::Request(request) => AsyncView::Request(request@),
        AsyncInboundMessage::InvalidRequest(invalid) => AsyncView::InvalidRequest(invalid.id@),
        AsyncInboundMessage::Batch(messages) => AsyncView::Batch(
            Seq::new(
                messages@.len(),
                |i: int|
                    if 0 <= i < messages@.len() {
                        async_view(messages@[i])
                    } else {
                        AsyncView::Batch(Seq::empty())
                    },
            ),
        ),
    }
}

impl View for AsyncInboundMessage {
    type V = AsyncView;

    open spec fn view(&self) -> AsyncView {
        async_view(*self)
    }
}

impl View for InboundMessage {
    type V = InboundView;

    open spec fn view(&self) -> InboundView {
        match self {
            InboundMessage::Inline(message) => InboundView::Inline(message@),
            InboundMessage::Async(message) => InboundView::Async(message@),
            InboundMessage::Hybrid(inline, rest) => InboundView::Hybrid(inline@, rest@),
        }
    }
}

/// The message as one that is processed apart from the event loop.
pub open spec fn async_leaf(message: MessageView) -> AsyncView {
    match message {
        MessageView::Request(request) => AsyncView::Request(request),
        MessageView::Notification(notification) => AsyncView::Notification(notification),
        MessageView::InvalidRequest(id) => AsyncView::InvalidRequest(id),
        _ => AsyncView::Batch(Seq::empty()),
    }
}

/// The responses among `flat`, in their order.
pub open spec fn inline_part(flat: Seq<MessageView>) -> Seq<InlineView> {
    flat.filter(|message: MessageView| message is Response).map_values(
        |message: MessageView| InlineView::Response(message->Response_0),
    )
}

/// All but the responses among `flat`, in their order.
pub open spec fn async_part(flat: Seq<MessageView>) -> Seq<AsyncView> {
    flat.filter(|message: MessageView| !(message is Response)).map_values(
        |message: MessageView| async_leaf(message),
    )
}

/// The error that answers a batch without any message in it.
pub open spec fn empty_batch_error() -> ErrorDetailsView {
    details(ErrorCode::InvalidRequest, "Empty batch message is not valid"@, None)
}

/// How `message` is processed, or the error that answers it.
pub open spec fn sorted(message: MessageView) -> Result<InboundView, ErrorDetailsView> {
    match message {
        MessageView::Batch(messages) => {
            let inline = inline_part(leaves(messages));
            let rest = async_part(leaves(messages));
            if inline.len() == 0 && rest.len() == 0 {
                Err(empty_batch_error())
            } else if rest.len() == 0 {
                Ok(InboundView::Inline(InlineView::Batch(inline)))
            } else if inline.len() == 0 {
                Ok(InboundView::Async(AsyncView::Batch(rest)))
            } else {
                Ok(InboundView::Hybrid(InlineView::Batch(inline), AsyncView::Batch(rest)))
            }
        },
        MessageView::Response(response) => Ok(InboundView::Inline(InlineView::Response(response))),
        _ => Ok(InboundView::Async(async_leaf(message))),
    }
}

/// What another message adds to the two parts.
pub proof fn lemma_parts_push(flat: Seq<MessageView>, message: MessageView)
    ensures
        inline_part(flat.push(message)) == if message is Response {
            inline_part(flat).push(InlineView::Response(message->Response_0))
        } else {
            inline_part(flat)
        },
        async_part(flat.push(message)) == if message is Response {
            async_part(flat)
        } else {
            async_part(flat).push(async_leaf(message))
        },
{
    reveal(Seq::filter);
    assert(flat.push(message).drop_last() =~= flat);
    if message is Response {
        assert(inline_part(flat.push(message)) =~= inline_part(flat).push(
            InlineView::Response(message->Response_0),
        ));
    } else {
        assert(async_part(flat.push(message)) =~= async_part(flat).push(async_leaf(message)));
    }
}

/// The inline messages and the others that `flat` holds, each in their order.
fn partition(flat: Vec<Message>) -> (parts: (Vec<InlineInboundMessage>, Vec<AsyncInboundMessage>))
    requires
        forall|i: int| 0 <= i < flat@.len() ==> !(#[trigger] flat@[i] is Batch),
    ensures
        parts.0@.map_values(|m: InlineInboundMessage| m@) == inline_part(messages_view(flat@)),
        parts.1@.map_values(|m: AsyncInboundMessage| m@) == async_part(messages_view(flat@)),
{
    let mut inline: Vec<InlineInboundMessage> = Vec::new();
    let mut rest: Vec<AsyncInboundMessage> = Vec::new();
    let ghost all = flat@;
    proof {
        reveal(Seq::filter);
        assert(messages_view(all.take(0)) =~= Seq::<MessageView>::empty());
        assert(inline@.map_values(|m: InlineInboundMessage| m@) =~= inline_part(Seq::empty()));
        assert(rest@.map_values(|m: AsyncInboundMessage| m@) =~= async_part(Seq::empty()));
    }
    for message in it: flat
        invariant
            it.seq() == all,
            forall|i: int| 0 <= i < all.len() ==> !(#[trigger] all[i] is Batch),
            inline@.map_values(|m: InlineInboundMessage| m@) == inline_part(
                messages_view(all.take(it.index())),
            ),
            rest@.map_values(|m: AsyncInboundMessage| m@) == async_part(
                messages_view(all.take(it.index())),
            ),
    {
        proof {
            assert(messages_view(all.take(it.index() + 1)) =~= messages_view(
                all.take(it.index()),
            ).push(message@));
            lemma_parts_push(messages_view(all.take(it.index())), message@);
        }
        let ghost inline_before = inline@;
        let ghost rest_before = rest@;
        match message {
            Message::Response(response) => {
                inline.push(InlineInboundMessage::Response(response));
            },
            Message::Request(request) => {
                rest.push(AsyncInboundMessage::Request(request));
            },
            Message::Notification(notification) => {
                rest.push(AsyncInboundMessage::Notification(notification));
            },
            Message::InvalidRequest(invalid) => {
                rest.push(AsyncInboundMessage::InvalidRequest(invalid));
            },
            Message::Batch(_) => {
                assert(false);
            },
        }
        proof {
            if message is Response {
                assert(inline@.map_values(|m: InlineInboundMessage| m@)
                    =~= inline_before.map_values(|m: InlineInboundMessage| m@).push(
                    inline@.last()@,
                ));
            } else {
                assert(rest@.map_values(|m: AsyncInboundMessage| m@) =~= rest_before.map_values(
                    |m: AsyncInboundMessage| m@,
                ).push(rest@.last()@));
            }
        }
    }
    assert(all.take(all.len() as int) =~= all);
    (inline, rest)
}

impl InboundMessage {
    /// Sorts a message by how it is processed.
    ///
    /// The messages of a batch, and of every batch inside it, are split into those that the event
    /// loop processes itself and the rest; an empty batch is an error.
    pub fn try_from(message: Message) -> (result: Result<InboundMessage, ErrorDetails>)
        ensures
            match result {
                Ok(inbound) => sorted(message@) == Ok::<_, ErrorDetailsView>(inbound@),
                Err(error) => sorted(message@) == Err::<InboundView, _>(error@),
            },
    {
        match message {
            Message::Batch(messages) => {
                let mut flat: Vec<Message> = Vec::new();
                proof {
                    lemma_batch_view(messages);
                    lemma_leaves_hold_no_batch(messages_view(messages@));
                    assert(messages_view(flat@) =~= Seq::<MessageView>::empty());
                }
                flatten_into(messages, &mut flat);
                proof {
                    assert(messages_view(flat@) =~= leaves(messages_view(messages@)));
                    assert forall|i: int| 0 <= i < flat@.len() implies !(#[trigger] flat@[i] is Batch) by {
                        assert(messages_view(flat@)[i] == flat@[i]@);
                    }
                }
                let (inline, rest) = partition(flat);
                let ghost inline_views = inline@.map_values(|m: InlineInboundMessage| m@);
                let ghost rest_views = rest@.map_values(|m: AsyncInboundMessage| m@);
                let no_inline = inline.is_empty();
                let no_rest = rest.is_empty();
                proof {
                    assert(InlineInboundMessage::Batch(inline)@->Batch_0 =~= inline_views);
                    assert(AsyncInboundMessage::Batch(rest)@->Batch_0 =~= rest_views);
                }
                if no_inline && no_rest {
                    Err(
                        ErrorDetails::invalid_request(
                            "Empty batch message is not valid".to_string(),
                            None,
                        ),
                    )
                } else if no_rest {
                    Ok(InboundMessage::Inline(InlineInboundMessage::Batch(inline)))
                } else if no_inline {
                    Ok(InboundMessage::Async(AsyncInboundMessage::Batch(rest)))
                } else {
                    Ok(
                        InboundMessage::Hybrid(
                            InlineInboundMessage::Batch(inline),
                            AsyncInboundMessage::Batch(rest),
                        ),
                    )
                }
            },
            Message::Request(request) => Ok(
                InboundMessage::Async(AsyncInboundMessage::Request(request)),
            ),
            Message::Notification(notification) => Ok(
                InboundMessage::Async(AsyncInboundMessage::Notification(notification)),
            ),
            Message::Response(response) => Ok(
                InboundMessage::Inline(InlineInboundMessage::Response(response)),
            ),
            Message::InvalidRequest(invalid) => Ok(
                InboundMessage::Async(AsyncInboundMessage::InvalidRequest(invalid)),
            ),
        }
    }
}

/// Sorting the messages of a batch loses none of them and adds none: each is a response that is
/// processed at once, or is left to be processed; and no batch is left inside.
pub proof fn law_sorting_keeps_every_message(flat: Seq<MessageView>)
    requires
        forall|i: int| 0 <= i < flat.len() ==> !(#[trigger] flat[i] is Batch),
    ensures
        inline_part(flat).len() + async_part(flat).len() == flat.len(),
        forall|i: int| 0 <= i < inline_part(flat).len() ==> #[trigger] inline_part(flat)[i] is Response,
        forall|i: int| 0 <= i < async_part(flat).len() ==> !(#[trigger] async_part(flat)[i] is Batch),
        forall|i: int|
            0 <= i < flat.len() ==> match #[trigger] flat[i] {
                MessageView::Response(response) => inline_part(flat).contains(
                    InlineView::Response(response),
                ),
                other => async_part(flat).contains(async_leaf(other)),
            },
    decreases flat.len(),
{
    if flat.len() == 0 {
        reveal(Seq::filter);
    } else {
        let front = flat.drop_last();
        assert(front.push(flat.last()) =~= flat);
        law_sorting_keeps_every_message(front);
        lemma_parts_push(front, flat.last());
        let inline = inline_part(front);
        let rest = async_part(front);
        assert forall|i: int| 0 <= i < flat.len() implies match #[trigger] flat[i] {
            MessageView::Response(response) => inline_part(flat).contains(
                InlineView::Response(response),
            ),
            other => async_part(flat).contains(async_leaf(other)),
        } by {
            if i < front.len() {
                assert(flat[i] == front[i]);
                match flat[i] {
                    MessageView::Response(response) => {
                        let k = inline.index_of(InlineView::Response(response));
                        assert(inline_part(flat)[k] == inline[k]);
                    },
                    other => {
                        let k = rest.index_of(async_leaf(other));
                        assert(async_part(flat)[k] == rest[k]);
                    },
                }
            } else if flat[i] is Response {
                assert(inline_part(flat)[inline.len() as int] == InlineView::Response(
                    flat[i]->Response_0,
                ));
            } else {
                assert(async_part(flat)[rest.len() as int] == async_leaf(flat[i]));
            }
        }
    }
}

/// A batch is an error only if there is no message in it, nor in any batch inside it.
pub proof fn law_only_empty_batch_is_an_error(messages: Seq<MessageView>)
    ensures
        sorted(MessageView::Batch(messages)) is Err <==> leaves(messages).len() == 0,
        leaves(messages).len() > 0 ==> parts_are_batches(
            sorted(MessageView::Batch(messages))->Ok_0,
        ),
{
    lemma_leaves_hold_no_batch(messages);
    law_sorting_keeps_every_message(leaves(messages));
}

/// What is left to be processed, if anything, is a batch.
pub open spec fn parts_are_batches(inbound: InboundView) -> bool {
    match inbound {
        InboundView::Inline(inline) => inline is Batch,
        InboundView::Async(rest) => rest is Batch,
        InboundView::Hybrid(inline, rest) => inline is Batch && rest is Batch,
    }
}

/// Of nested batches nothing is lost, added or moved: each message stands among the leaves where it
/// stands in the text.
pub proof fn law_leaves_keep_their_order(messages: Seq<MessageView>, last: MessageView)
    ensures
        leaves(Seq::empty()).len() == 0,
        match last {
            MessageView::Batch(inner) => leaves(messages.push(last)) == leaves(messages) + leaves(
                inner,
            ),
            other => {
                &&& leaves(messages.push(other)).len() == leaves(messages).len() + 1
                &&& leaves(messages.push(other)) == leaves(messages).push(other)
            },
        },
{
    let more = messages.push(last);
    assert(more.drop_last() =~= messages);
    assert(more.last() == last);
    assert(leaves(more) == leaves(more.drop_last()) + leaves_of(more.last()));
    if !(last is Batch) {
        assert(leaves_of(last) == seq![last]);
        assert(leaves(messages.push(last)) =~= leaves(messages).push(last));
    }
}

/// A response is processed at once, and everything else is left to be processed; each as it came.
pub proof fn law_single_messages_are_sorted(
    request: RequestView,
    notification: NotificationView,
    response: ResponseView,
    invalid: IdView,
)
    ensures
        sorted(MessageView::Request(request)) == Ok::<_, ErrorDetailsView>(
            InboundView::Async(AsyncView::Request(request)),
        ),
        sorted(MessageView::Notification(notification)) == Ok::<_, ErrorDetailsView>(
            InboundView::Async(AsyncView::Notification(notification)),
        ),
        sorted(MessageView::InvalidRequest(invalid)) == Ok::<_, ErrorDetailsView>(
            InboundView::Async(AsyncView::InvalidRequest(invalid)),
        ),
        sorted(MessageView::Response(response)) == Ok::<_, ErrorDetailsView>(
            InboundView::Inline(InlineView::Response(response)),
        ),
{
}

/// One more message in a batch comes, as it is, at the end of the part that it belongs to, and leaves
/// the other part alone.
pub proof fn law_sorting_keeps_the_order(flat: Seq<MessageView>, last: MessageView)
    requires
        !(last is Batch),
    ensures
        inline_part(Seq::empty()).len() == 0,
        async_part(Seq::empty()).len() == 0,
        match last {
            MessageView::Response(response) => {
                &&& inline_part(flat.push(last)) == inline_part(flat).push(
                    InlineView::Response(response),
                )
                &&& async_part(flat.push(last)) == async_part(flat)
            },
            MessageView::Request(request) => {
                &&& async_part(flat.push(last)) == async_part(flat).push(
                    AsyncView::Request(request),
                )
                &&& inline_part(flat.push(last)) == inline_part(flat)
            },
            MessageView::Notification(notification) => {
                &&& async_part(flat.push(last)) == async_part(flat).push(
                    AsyncView::Notification(notification),
                )
                &&& inline_part(flat.push(last)) == inline_part(flat)
            },
            MessageView::InvalidRequest(invalid) => {
                &&& async_part(flat.push(last)) == async_part(flat).push(
                    AsyncView::InvalidRequest(invalid),
                )
                &&& inline_part(flat.push(last)) == inline_part(flat)
            },
            MessageView::Batch(_) => false,
        },
{
    reveal(Seq::filter);
    lemma_parts_push(flat, last);
}

/// Of a batch, the responses are processed at once and the rest is left to be processed, each part
/// only if there is something in it; a batch with no message in it is answered with an error.
pub proof fn law_batch_is_sorted_into_its_parts(messages: Seq<MessageView>)
    ensures
        ({
            let inline = inline_part(leaves(messages));
            let rest = async_part(leaves(messages));
            match sorted(MessageView::Batch(messages)) {
                Ok(InboundView::Inline(InlineView::Batch(responses))) => rest.len() == 0
                    && inline.len() > 0 && responses == inline,
                Ok(InboundView::Async(AsyncView::Batch(others))) => inline.len() == 0 && rest.len()
                    > 0 && others == rest,
                Ok(InboundView::Hybrid(InlineView::Batch(responses), AsyncView::Batch(others))) =>
                    inline.len() > 0 && rest.len() > 0 && responses == inline && others == rest,
                Err(error) => {
                    &&& leaves(messages).len() == 0
                    &&& error.code == ErrorCode::InvalidRequest
                    &&& error.message == "Empty batch message is not valid"@
                    &&& error.data is None
                },
                _ => false,
            }
        }),
{
    law_only_empty_batch_is_an_error(messages);
}

/// What a sorted message stands for holds everything that is in it; of a batch, each message in its
/// place.
pub proof fn law_sorted_messages_are_viewed_whole(
    inline: InlineInboundMessage,
    rest: AsyncInboundMessage,
)
    ensures
        match inline {
            InlineInboundMessage::Response(response) => inline@ == InlineView::Response(response@),
            InlineInboundMessage::Batch(messages) => {
                &&& inline@ matches InlineView::Batch(views)
                &&& views.len() == messages@.len()
                &&& forall|i: int| 0 <= i < views.len() ==> #[trigger] views[i] == messages@[i]@
            },
        },
        match rest {
            AsyncInboundMessage::Request(request) => rest@ == AsyncView::Request(request@),
            AsyncInboundMessage::Notification(notification) => rest@ == AsyncView::Notification(
                notification@,
            ),
            AsyncInboundMessage::InvalidRequest(invalid) => rest@ == AsyncView::InvalidRequest(
                invalid.id@,
            ),
            AsyncInboundMessage::Batch(messages) => {
                &&& rest@ matches AsyncView::Batch(views)
                &&& views.len() == messages@.len()
                &&& forall|i: int| 0 <= i < views.len() ==> #[trigger] views[i] == messages@[i]@
            },
        },
        InboundMessage::Inline(inline)@ == InboundView::Inline(inline@),
        InboundMessage::Async(rest)@ == InboundView::Async(rest@),
        InboundMessage::Hybrid(inline, rest)@ == InboundView::Hybrid(inline@, rest@),
{
}

} // verus!
