//! The queue that carries a stream's parts to its consumer.
use vstd::prelude::*;
use crate::error::{ConnDiedErrorHolder, Error};
use crate::headers::Headers;

verus! {

/// A part of a message: a header block or a run of body bytes.
#[derive(Clone, Debug)]
pub enum DataOrHeaders {
    Data(Vec<u8>),
    Headers(Headers),
}

/// A part of a message and whether it ends the message.
#[derive(Clone, Debug)]
pub struct DataOrHeadersWithFlag {
    pub content: DataOrHeaders,
    pub last: bool,
}

/// What travels toward a stream's consumer.
#[derive(Clone, Debug)]
pub enum ResultOrEof {
    Item(DataOrHeadersWithFlag),
    Error(Error),
    Eof,
}

/// Outcome of polling: a value, or nothing yet.
#[derive(Clone, Debug)]
pub enum Async<T> {
    Ready(T),
    NotReady,
}

/// Body bytes that an item carries.
pub open spec fn data_len(item: ResultOrEof) -> nat {
    match item {
        ResultOrEof::Item(p) => match p.content {
            DataOrHeaders::Data(b) => b@.len(),
            _ => 0,
        },
        _ => 0,
    }
}

/// Body bytes held by a run of items.
pub open spec fn queued_bytes(items: Seq<ResultOrEof>) -> nat
    decreases items.len(),
{
    if items.len() == 0 { 0 } else { queued_bytes(items.drop_last()) + data_len(items.last()) }
}

proof fn lemma_queued_bytes_front(items: Seq<ResultOrEof>)
    requires
        items.len() > 0,
    ensures
        queued_bytes(items) == data_len(items[0]) + queued_bytes(items.drop_first()),
    decreases items.len(),
{
    if items.len() > 1 {
        lemma_queued_bytes_front(items.drop_last());
        assert(items.drop_last().drop_first() =~= items.drop_first().drop_last());
    } else {
        assert(items.drop_first() =~= Seq::<ResultOrEof>::empty());
        assert(items.drop_last() =~= Seq::<ResultOrEof>::empty());
    }
}

fn item_data_len(item: &ResultOrEof) -> (r: usize)
    ensures
        r == data_len(*item),
{
    match item {
        ResultOrEof::Item(p) => match &p.content {
            DataOrHeaders::Data(b) => b.len(),
            _ => 0,
        },
        _ => 0,
    }
}

/// The delivery queue between the connection loop and one stream's
/// consumer. It counts the body bytes sent and not yet taken, so that the
/// loop can decide when to return inbound credit.
pub struct StreamQueueSync {
    items: Vec<ResultOrEof>,
    data_size: usize,
    receiver_dropped: bool,
    sender_dropped: bool,
    conn_died_error_holder: ConnDiedErrorHolder,
}

/// A fresh, empty queue; a reader that finds it empty after the sending
/// side is gone gets the holder's error.
pub fn stream_queue_sync(conn_died_error_holder: ConnDiedErrorHolder) -> (r: StreamQueueSync)
    ensures
        r.wf(),
        r.items() == Seq::<ResultOrEof>::empty(),
        !r.receiver_dropped(),
        !r.sender_dropped(),
        r.holder() == conn_died_error_holder,
{
    StreamQueueSync {
        items: Vec::new(),
        data_size: 0,
        receiver_dropped: false,
        sender_dropped: false,
        conn_died_error_holder,
    }
}

impl StreamQueueSync {
    pub closed spec fn items(&self) -> Seq<ResultOrEof> {
        self.items@
    }

    pub closed spec fn receiver_dropped(&self) -> bool {
        self.receiver_dropped
    }

    pub closed spec fn sender_dropped(&self) -> bool {
        self.sender_dropped
    }

    pub closed spec fn holder(&self) -> ConnDiedErrorHolder {
        self.conn_died_error_holder
    }

    /// The counter equals the body bytes held.
    pub closed spec fn wf(&self) -> bool {
        self.data_size == queued_bytes(self.items@)
    }

    /// Queues an item unless the consumer is gone (`Err(())`).
    pub fn send(&mut self, item: ResultOrEof) -> (r: Result<(), ()>)
        requires
            old(self).wf(),
            queued_bytes(old(self).items()) + data_len(item) <= usize::MAX,
        ensures
            final(self).wf(),
            r is Err <==> old(self).receiver_dropped(),
            r is Err ==> final(self).items() == old(self).items(),
            r is Ok ==> final(self).items() == old(self).items().push(item),
            final(self).receiver_dropped() == old(self).receiver_dropped(),
            final(self).sender_dropped() == old(self).sender_dropped(),
            final(self).holder() == old(self).holder(),
    {
        if self.receiver_dropped {
            return Err(());
        }
        let n = item_data_len(&item);
        self.data_size = self.data_size + n;
        let ghost before = self.items@;
        self.items.push(item);
        assert(self.items@.drop_last() =~= before);
        Ok(())
    }

    /// Queues a message part.
    pub fn send_part(&mut self, part: DataOrHeadersWithFlag) -> (r: Result<(), ()>)
        requires
            old(self).wf(),
            queued_bytes(old(self).items()) + data_len(ResultOrEof::Item(part)) <= usize::MAX,
        ensures
            final(self).wf(),
            r is Err <==> old(self).receiver_dropped(),
            r is Err ==> final(self).items() == old(self).items(),
            r is Ok ==> final(self).items() == old(self).items().push(ResultOrEof::Item(part)),
            final(self).receiver_dropped() == old(self).receiver_dropped(),
            final(self).sender_dropped() == old(self).sender_dropped(),
            final(self).holder() == old(self).holder(),
    {
        self.send(ResultOrEof::Item(part))
    }

    /// Queues an error that ends the stream.
    pub fn send_error(&mut self, e: Error) -> (r: Result<(), ()>)
        requires
            old(self).wf(),
        ensures
            final(self).wf(),
            r is Err <==> old(self).receiver_dropped(),
            r is Err ==> final(self).items() == old(self).items(),
            r is Ok ==> final(self).items() == old(self).items().push(ResultOrEof::Error(e)),
            final(self).receiver_dropped() == old(self).receiver_dropped(),
            final(self).sender_dropped() == old(self).sender_dropped(),
            final(self).holder() == old(self).holder(),
    {
        self.send(ResultOrEof::Error(e))
    }

    /// Queues the end of the stream.
    pub fn send_eof(&mut self) -> (r: Result<(), ()>)
        requires
            old(self).wf(),
        ensures
            final(self).wf(),
            r is Err <==> old(self).receiver_dropped(),
            r is Err ==> final(self).items() == old(self).items(),
            r is Ok ==> final(self).items() == old(self).items().push(ResultOrEof::Eof),
            final(self).receiver_dropped() == old(self).receiver_dropped(),
            final(self).sender_dropped() == old(self).sender_dropped(),
            final(self).holder() == old(self).holder(),
    {
        self.send(ResultOrEof::Eof)
    }

    /// Body bytes sent and not yet taken by the consumer.
    pub fn data_size(&self) -> (r: usize)
        requires
            self.wf(),
        ensures
            r == queued_bytes(self.items()),
    {
        self.data_size
    }

    /// The sending side (the connection) is gone.
    pub fn drop_sender(&mut self)
        ensures
            final(self).sender_dropped(),
            final(self).items() == old(self).items(),
            final(self).wf() == old(self).wf(),
            final(self).receiver_dropped() == old(self).receiver_dropped(),
            final(self).holder() == old(self).holder(),
    {
        self.sender_dropped = true;
    }

    /// The consumer is gone: later sends fail.
    pub fn drop_receiver(&mut self)
        ensures
            final(self).receiver_dropped(),
            final(self).items() == old(self).items(),
            final(self).wf() == old(self).wf(),
            final(self).sender_dropped() == old(self).sender_dropped(),
            final(self).holder() == old(self).holder(),
    {
        self.receiver_dropped = true;
    }

    /// Records why the connection died on this queue's holder (the first
    /// cause recorded is kept), so that a reader who finds the queue empty
    /// after the sender is gone gets that cause.
    pub fn set_died_cause(&mut self, e: Error)
        ensures
            final(self).holder().cause == (if old(self).holder().cause is Some { old(self).holder().cause } else { Some(e) }),
            final(self).items() == old(self).items(),
            final(self).wf() == old(self).wf(),
            final(self).receiver_dropped() == old(self).receiver_dropped(),
            final(self).sender_dropped() == old(self).sender_dropped(),
    {
        self.conn_died_error_holder.set_once(e);
    }

    /// Takes the next part. An error item ends the stream with that error,
    /// EOF with `Ready(None)`; an empty queue is `NotReady` while the sender
    /// lives and the holder's error once it is gone. Body bytes taken leave
    /// the counter.
    pub fn poll(&mut self) -> (r: Result<Async<Option<DataOrHeadersWithFlag>>, Error>)
        requires
            old(self).wf(),
        ensures
            final(self).wf(),
            final(self).receiver_dropped() == old(self).receiver_dropped(),
            final(self).sender_dropped() == old(self).sender_dropped(),
            final(self).holder() == old(self).holder(),
            old(self).items().len() == 0 ==> final(self).items() == old(self).items() && (
                if old(self).sender_dropped() {
                    r == Err::<Async<Option<DataOrHeadersWithFlag>>, Error>(old(self).holder().error_spec())
                } else {
                    r matches Ok(Async::NotReady)
                }),
            old(self).items().len() > 0 ==> final(self).items() == old(self).items().drop_first() && (
                match old(self).items()[0] {
                    ResultOrEof::Error(e) => r == Err::<Async<Option<DataOrHeadersWithFlag>>, Error>(e),
                    ResultOrEof::Eof => r matches Ok(Async::Ready(None)),
                    ResultOrEof::Item(p) => r matches Ok(Async::Ready(Some(q))) && q == p,
                }),
    {
        if self.items.len() == 0 {
            if self.sender_dropped {
                return Err(self.conn_died_error_holder.error());
            }
            return Ok(Async::NotReady);
        }
        let ghost before = self.items@;
        proof {
            lemma_queued_bytes_front(before);
        }
        let item = self.items.remove(0);
        assert(self.items@ =~= before.drop_first());
        let n = item_data_len(&item);
        self.data_size = self.data_size - n;
        match item {
            ResultOrEof::Error(e) => Err(e),
            ResultOrEof::Eof => Ok(Async::Ready(None)),
            ResultOrEof::Item(part) => Ok(Async::Ready(Some(part))),
        }
    }
}

} // verus!
