//! What holds of a forwarder over a whole stream, and of a writer and a forwarder at the
//! two ends of a channel.

use tokio::sync::mpsc::Sender;
use vstd::prelude::*;

use crate::buffer::chunk_bytes;
use crate::outcome::{IoError, Progress};
use crate::queue::{QueueEvent, QueueReply};
use crate::queue_laws::{
    bytes_pushed, chunks_written, law_bytes_conserved, law_chunks_not_empty,
    law_flushed_means_written, reply_after, session, state_after,
};
use crate::read::{
    ends_stream, forward_reply, queue_capacity, relayed, Chunk, ForwardAction, ForwardEvent,
    ForwardInput, ForwardReply, QUEUE_CAPACITY,
};

verus! {

/// What a reader that takes this many items gets out of a stream of these items.
pub open spec fn delivered<E>(items: Seq<Result<Seq<u8>, E>>, room: nat) -> Seq<
    Result<Seq<u8>, IoError<E>>,
>
    decreases items.len(),
{
    let next = if items.len() == 0 {
        None
    } else {
        Some(items.first())
    };
    match forward_reply(ForwardInput::Next(next)) {
        ForwardReply::Send(item) => {
            let sent = if room == 0 {
                ForwardInput::<E>::ReceiverDropped
            } else {
                ForwardInput::<E>::Sent
            };
            if forward_reply(sent) is ReadNext && items.len() > 0 {
                seq![item] + delivered(items.drop_first(), (room - 1) as nat)
            } else {
                Seq::empty()
            }
        },
        _ => Seq::empty(),
    }
}

/// The bytes of the chunks among these items, in order.
pub open spec fn bytes_received<E>(items: Seq<Result<Seq<u8>, IoError<E>>>) -> Seq<u8>
    decreases items.len(),
{
    if items.len() == 0 {
        Seq::empty()
    } else {
        match items.first() {
            Ok(chunk) => chunk + bytes_received(items.drop_first()),
            Err(_) => bytes_received(items.drop_first()),
        }
    }
}

/// The stream of these chunks, none of which fails.
pub open spec fn stream_of<E>(chunks: Seq<Seq<u8>>) -> Seq<Result<Seq<u8>, E>> {
    chunks.map_values(|chunk: Seq<u8>| Ok::<Seq<u8>, E>(chunk))
}

/// A reader gets the items of the stream, in order and each as it is, up to the first
/// empty chunk, the end of the stream or its own end, whichever comes first. An error in
/// the stream is passed on and stops nothing.
pub proof fn law_stream_relayed<E>(items: Seq<Result<Seq<u8>, E>>, room: nat)
    ensures
        ({
            let got = delivered(items, room);
            &&& got.len() <= items.len()
            &&& got.len() <= room
            &&& forall|i: int|
                0 <= i < got.len() ==> #[trigger] got[i] == relayed(items[i]) && !ends_stream(
                    items[i],
                )
            &&& got.len() == items.len() || got.len() == room || ends_stream(
                items[got.len() as int],
            )
        }),
    decreases items.len(),
{
    if items.len() > 0 && !ends_stream(items.first()) && room > 0 {
        let rest = items.drop_first();
        law_stream_relayed(rest, (room - 1) as nat);
        let got = delivered(items, room);
        let tail = delivered(rest, (room - 1) as nat);
        assert(got =~= seq![relayed(items.first())] + tail);
        assert forall|i: int| 0 <= i < got.len() implies #[trigger] got[i] == relayed(items[i])
            && !ends_stream(items[i]) by {
            if i > 0 {
                assert(got[i] == tail[i - 1]);
                assert(rest[i - 1] == items[i]);
            }
        }
        if tail.len() < rest.len() {
            assert(rest[tail.len() as int] == items[got.len() as int]);
        }
    }
}

/// Nothing past an empty chunk reaches the reader, whatever follows it.
pub proof fn law_empty_chunk_ends_the_stream<E>(
    before: Seq<Result<Seq<u8>, E>>,
    after: Seq<Result<Seq<u8>, E>>,
    room: nat,
)
    ensures
        delivered(before + seq![Ok(Seq::<u8>::empty())] + after, room) == delivered(before, room),
    decreases before.len(),
{
    let end = seq![Ok::<Seq<u8>, E>(Seq::<u8>::empty())];
    let items = before + end + after;
    if before.len() == 0 {
        assert(items.first() == Ok::<Seq<u8>, E>(Seq::<u8>::empty()));
        assert(ends_stream(items.first()));
    } else {
        assert(items.first() == before.first());
        if !ends_stream(before.first()) && room > 0 {
            assert(items.drop_first() =~= before.drop_first() + end + after);
            law_empty_chunk_ends_the_stream(before.drop_first(), after, (room - 1) as nat);
        }
    }
}

/// What the stream gives is what is sent to the reader: of a chunk that is not empty every
/// byte, in order, and no other; of an error that same error. An empty chunk and the end of
/// the stream end the forwarder, and so does the end of the reader; after each item sent it
/// takes the next.
pub proof fn law_forwarded_as_given<E>(event: ForwardEvent<E>, action: ForwardAction<E>)
    requires
        action@ == forward_reply(event@),
    ensures
        match event {
            ForwardEvent::Next(Some(Ok(data))) => if data@.len() == 0 {
                action is Stop
            } else {
                action matches ForwardAction::Send(Ok(chunk)) && chunk_bytes(chunk) == data@
            },
            ForwardEvent::Next(Some(Err(error))) => action == ForwardAction::<E>::Send(
                Err(IoError::Other(error)),
            ),
            ForwardEvent::Next(None) => action is Stop,
            ForwardEvent::Sent => action is ReadNext,
            ForwardEvent::ReceiverDropped => action is Stop,
        },
{
}

/// What a forwarder does after these inputs; it begins by reading.
pub open spec fn forward_after<E>(inputs: Seq<ForwardInput<E>>) -> ForwardReply<E> {
    if inputs.len() == 0 {
        ForwardReply::ReadNext
    } else {
        forward_reply(inputs.last())
    }
}

/// Whether these are the inputs of a forwarder, each the outcome of what it did before.
pub open spec fn forward_run<E>(inputs: Seq<ForwardInput<E>>) -> bool
    decreases inputs.len(),
{
    inputs.len() == 0 || (forward_run(inputs.drop_last()) && match forward_after(
        inputs.drop_last(),
    ) {
        ForwardReply::ReadNext => inputs.last() is Next,
        ForwardReply::Send(_) => inputs.last() is Sent || inputs.last() is ReceiverDropped,
        ForwardReply::Stop => false,
    })
}

/// The number of items that a forwarder took from its stream.
pub open spec fn items_pulled<E>(inputs: Seq<ForwardInput<E>>) -> nat
    decreases inputs.len(),
{
    if inputs.len() == 0 {
        0
    } else {
        match inputs.last() {
            ForwardInput::Next(Some(_)) => items_pulled(inputs.drop_last()) + 1,
            _ => items_pulled(inputs.drop_last()),
        }
    }
}

/// The number of items that the reader's queue took from a forwarder.
pub open spec fn items_sent<E>(inputs: Seq<ForwardInput<E>>) -> nat
    decreases inputs.len(),
{
    if inputs.len() == 0 {
        0
    } else if inputs.last() is Sent {
        items_sent(inputs.drop_last()) + 1
    } else {
        items_sent(inputs.drop_last())
    }
}

/// A forwarder has at most one item in hand: it takes another only once the reader's queue
/// has taken the last.
pub proof fn law_one_item_in_hand<E>(inputs: Seq<ForwardInput<E>>)
    requires
        forward_run(inputs),
    ensures
        items_sent(inputs) <= items_pulled(inputs) <= items_sent(inputs) + 1,
        forward_after(inputs) is ReadNext ==> items_pulled(inputs) == items_sent(inputs),
        forward_after(inputs) is Send ==> items_pulled(inputs) == items_sent(inputs) + 1,
    decreases inputs.len(),
{
    if inputs.len() > 0 {
        law_one_item_in_hand(inputs.drop_last());
    }
}

/// A forwarder reads ahead of its reader no further than the queue between them reaches, and
/// one item more. The queue holds what was sent and not yet taken, so where it was made to
/// hold [`QUEUE_CAPACITY`] items, at most one more than that are taken from the stream beyond
/// those that the reader took.
pub proof fn law_reads_ahead_within_the_queue<E>(
    inputs: Seq<ForwardInput<E>>,
    sender: Sender<Chunk>,
    taken: nat,
)
    requires
        forward_run(inputs),
        items_sent(inputs) <= taken + queue_capacity(sender),
    ensures
        items_pulled(inputs) <= taken + queue_capacity(sender) + 1,
        queue_capacity(sender) == QUEUE_CAPACITY ==> items_pulled(inputs) <= taken + QUEUE_CAPACITY
            + 1,
{
    law_one_item_in_hand(inputs);
}

/// Once the reader is gone, and nothing more can be sent to it, a forwarder takes at most one
/// more item from its stream.
pub proof fn law_stops_when_the_reader_is_gone<E>(inputs: Seq<ForwardInput<E>>, gone: int)
    requires
        forward_run(inputs),
        0 <= gone <= inputs.len(),
        forall|i: int| gone <= i < inputs.len() ==> !(#[trigger] inputs[i] is Sent),
    ensures
        items_pulled(inputs) <= items_pulled(inputs.take(gone)) + 1,
        items_pulled(inputs) > items_pulled(inputs.take(gone)) ==> !(forward_after(
            inputs,
        ) is ReadNext),
    decreases inputs.len(),
{
    if gone == inputs.len() {
        assert(inputs.take(gone) =~= inputs);
    } else {
        let before = inputs.drop_last();
        assert forall|i: int| gone <= i < before.len() implies !(#[trigger] before[i] is Sent) by {
            assert(before[i] == inputs[i]);
        }
        law_stops_when_the_reader_is_gone(before, gone);
        assert(before.take(gone) =~= inputs.take(gone));
        assert(!(inputs[inputs.len() - 1] is Sent));
    }
}

/// Chunks that are not empty all arrive, and their bytes are those of the chunks one
/// after the other.
pub proof fn law_chunks_arrive<E>(chunks: Seq<Seq<u8>>)
    requires
        forall|i: int| 0 <= i < chunks.len() ==> (#[trigger] chunks[i]).len() > 0,
    ensures
        bytes_received(delivered(stream_of::<E>(chunks), chunks.len())) == chunks.flatten(),
    decreases chunks.len(),
{
    let items = stream_of::<E>(chunks);
    if chunks.len() == 0 {
        assert(delivered(items, 0) =~= Seq::empty());
        assert(chunks.flatten() =~= Seq::empty());
    } else {
        let rest = chunks.drop_first();
        assert forall|i: int| 0 <= i < rest.len() implies (#[trigger] rest[i]).len() > 0 by {
            assert(rest[i] == chunks[i + 1]);
        }
        law_chunks_arrive::<E>(rest);
        assert(items.first() == Ok::<Seq<u8>, E>(chunks.first()));
        assert(chunks[0].len() > 0);
        assert(!ends_stream(items.first()));
        assert(items.drop_first() =~= stream_of::<E>(rest));
        let got = delivered(items, chunks.len());
        let tail = delivered(stream_of::<E>(rest), rest.len());
        assert(got =~= seq![relayed(items.first())] + tail);
        assert(got.drop_first() =~= tail);
    }
}

/// What is written at one end of a channel is read at the other: where the host carries
/// the pieces that the writer asks to have written, in order, the reader's bytes are the
/// bytes written but for those still buffered.
pub proof fn law_written_is_read<F, E, G>(events: Seq<QueueEvent<F, E>>)
    ensures
        ({
            let chunks = chunks_written(events);
            bytes_received(delivered(stream_of::<G>(chunks), chunks.len())) + state_after(
                events,
            ).buffered == bytes_pushed(events)
        }),
{
    law_chunks_not_empty(events);
    law_bytes_conserved(events);
    law_chunks_arrive::<G>(chunks_written(events));
}

/// After a flush that reports success, the reader's bytes are all the bytes written.
pub proof fn law_flushed_is_read<F, E, G>(events: Seq<QueueEvent<F, E>>)
    requires
        session(events),
        reply_after(events) == QueueReply::<F, E>::Finish(Progress::Ready(Ok(()))),
    ensures
        ({
            let chunks = chunks_written(events);
            bytes_received(delivered(stream_of::<G>(chunks), chunks.len())) == bytes_pushed(events)
        }),
{
    law_flushed_means_written(events);
    law_chunks_not_empty(events);
    law_chunks_arrive::<G>(chunks_written(events));
}

} // verus!
