use vstd::prelude::*;

use core::marker::PhantomData;

use crate::codec::IBincodeSerializable;
use crate::durable_log::log_records;
use crate::durable_log::qf_add;
use crate::durable_log::qf_error_text;
use crate::durable_log::qf_open;
use crate::durable_log::qf_peek;
use crate::durable_log::qf_remove;
use crate::durable_log::qf_size;

verus! {

/// What can go wrong while the queue works against its backing log.
#[derive(Debug)]
pub enum QueueError {
    /// The storage layer failed to open, append to, read from or shorten the
    /// backing file; the message is the storage layer's own description.
    Io(String),
    /// The oldest stored record does not decode into the bound value type.
    /// The record is left in place for inspection; it is never discarded.
    Corrupt,
}

/// The encodings of a sequence of values, in order: what the backing log
/// holds after the values are enqueued onto an empty queue.
pub open spec fn encodings_of<T: IBincodeSerializable>(s: Seq<T>) -> Seq<Seq<u8>> {
    s.map_values(|v: T| v.encoding())
}

/// A durable FIFO queue of typed values over a single backing file. Values
/// are serialized on enqueue, appended to the log, and handed back in FIFO
/// order by dequeue operations that remove a record only once the caller
/// commits to consuming it.
///
/// The queue's abstract state, its view, is the sequence of encoded records
/// the backing log holds, oldest first. Every operation that touches the log
/// takes the queue exclusively (`&mut self`), so a peek and the commit or
/// abandon decision that follows it can never interleave with another
/// operation on the same queue.
pub struct PQBincode<T: IBincodeSerializable> {
    qfq: queue_file::QueueFile,
    file_path: String,
    marker: PhantomData<T>,
}

impl<T: IBincodeSerializable> View for PQBincode<T> {
    type V = Seq<Seq<u8>>;

    closed spec fn view(&self) -> Seq<Seq<u8>> {
        log_records(self.qfq)
    }
}

impl<T: IBincodeSerializable> PQBincode<T> {
    /// The path the queue was opened at; the backing file stays there after
    /// the queue is dropped.
    pub closed spec fn persistent_path(&self) -> Seq<char> {
        self.file_path@
    }

    /// Opens the backing log at `path`, creating the file if absent. What
    /// the opened queue holds is whatever the file at that path held.
    pub fn new(path: String) -> (r: Result<Self, QueueError>)
        ensures
            r matches Ok(q) ==> q.persistent_path() == path@,
            r matches Err(e) ==> e is Io,
    {
        match qf_open(path.as_str()) {
            Err(e) => Err(QueueError::Io(qf_error_text(&e))),
            Ok(qfq) => Ok(PQBincode { qfq, file_path: path, marker: PhantomData }),
        }
    }

    /// Serializes the value and appends it at the tail of the log. On
    /// success exactly this one record is appended; on failure the log is
    /// unchanged unless the storage layer had already committed the record.
    pub fn enqueue(&mut self, data: T) -> (r: Result<(), QueueError>)
        ensures
            final(self).persistent_path() == old(self).persistent_path(),
            r is Ok ==> final(self)@ == old(self)@.push(data.encoding()) && T::decoded_view(
                data.encoding(),
            ) == Some(data@),
            r matches Err(e) ==> e is Io && (final(self)@ == old(self)@ || final(self)@ == old(
                self,
            )@.push(data.encoding())),
    {
        let data_bin = data.to_bincode();
        match qf_add(&mut self.qfq, data_bin.as_slice()) {
            Err(e) => Err(QueueError::Io(qf_error_text(&e))),
            Ok(()) => Ok(()),
        }
    }

    /// Enqueues each value in the given order. A failure stops the walk at
    /// once: values enqueued before the failing one stay enqueued, there is
    /// no rollback.
    pub fn enqueue_all(&mut self, data: Vec<T>) -> (r: Result<(), QueueError>)
        ensures
            final(self).persistent_path() == old(self).persistent_path(),
            r is Ok ==> final(self)@ == old(self)@ + encodings_of(data@) && (forall|i: int|
                0 <= i < data@.len() ==> T::decoded_view(#[trigger] data@[i].encoding()) == Some(
                    data@[i]@,
                )),
            r matches Err(e) ==> e is Io && (exists|k: int|
                0 <= k <= data@.len() && final(self)@ == old(self)@ + encodings_of(
                    data@.take(k),
                )),
            data@.len() == 0 ==> r is Ok && final(self)@ == old(self)@,
    {
        let ghost all: Seq<T> = data@;
        let mut remaining = data;
        let ghost done: int = 0;
        while remaining.len() > 0
            invariant
                all == data@,
                self.persistent_path() == old(self).persistent_path(),
                0 <= done <= all.len(),
                remaining@ == all.skip(done),
                self@ == old(self)@ + encodings_of(all.take(done)),
                forall|i: int|
                    0 <= i < done ==> T::decoded_view(#[trigger] all[i].encoding()) == Some(
                        all[i]@,
                    ),
            decreases remaining@.len(),
        {
            let item = remaining.remove(0);
            assert(item == all[done]);
            let ghost prev: Seq<Seq<u8>> = self@;
            match self.enqueue(item) {
                Err(e) => {
                    proof {
                        let witness: int = if self@ == prev {
                            done
                        } else {
                            done + 1
                        };
                        if self@ != prev {
                            assert(all.take(done + 1) =~= all.take(done).push(all[done]));
                            assert(encodings_of(all.take(done + 1)) =~= encodings_of(
                                all.take(done),
                            ).push(all[done].encoding()));
                            assert(old(self)@ + encodings_of(all.take(done + 1)) =~= (old(self)@
                                + encodings_of(all.take(done))).push(all[done].encoding()));
                        }
                        assert(0 <= witness <= all.len() && self@ == old(self)@ + encodings_of(
                            all.take(witness),
                        ));
                    }
                    return Err(e);
                },
                Ok(()) => {
                    proof {
                        done = done + 1;
                        assert(remaining@ =~= all.skip(done));
                        assert(all.take(done) =~= all.take(done - 1).push(all[done - 1]));
                        assert(encodings_of(all.take(done)) =~= encodings_of(
                            all.take(done - 1),
                        ).push(all[done - 1].encoding()));
                    }
                },
            }
        }
        proof {
            assert(all.take(done) =~= all);
        }
        Ok(())
    }

    /// The peek-decide-commit protocol over the single oldest record.
    ///
    /// The oldest record is peeked without removal and decoded; the decoded
    /// value is handed, by move, to the caller's decision function. Only a
    /// `true` decision commits: then, and only then, the record is removed.
    /// A `false` decision, or an empty queue, leaves the log untouched and
    /// reports `Ok(false)`; an empty queue never invokes the decision
    /// function. A record that does not decode is never removed: the call
    /// reports the corruption and leaves the record first in line.
    ///
    /// The whole protocol holds the queue exclusively, so no other operation
    /// can slip between the peek and the decision; for the same reason the
    /// decision function must not call back into the same queue.
    pub fn cancellable_dequeue<F: FnOnce(T) -> bool>(&mut self, doubtful_dequeue_task: F) -> (r:
        Result<bool, QueueError>)
        requires
            forall|v: T| call_requires(doubtful_dequeue_task, (v,)),
        ensures
            final(self).persistent_path() == old(self).persistent_path(),
            r matches Ok(true) ==> old(self)@.len() > 0 && final(self)@ == old(
                self,
            )@.drop_first() && (exists|v: T|
                #[trigger] call_ensures(doubtful_dequeue_task, (v,), true) && T::decoded_view(
                    old(self)@[0],
                ) == Some(v@)),
            r matches Ok(false) ==> final(self)@ == old(self)@ && (old(self)@.len() == 0 || (
            exists|v: T|
                #[trigger] call_ensures(doubtful_dequeue_task, (v,), false) && T::decoded_view(
                    old(self)@[0],
                ) == Some(v@))),
            r matches Err(e) && e is Corrupt ==> final(self)@ == old(self)@ && old(self)@.len()
                > 0 && T::decoded_view(old(self)@[0]) is None,
            r matches Err(e) && e is Io ==> final(self)@ == old(self)@ || (old(self)@.len() > 0
                && final(self)@ == old(self)@.drop_first() && (exists|v: T|
                #[trigger] call_ensures(doubtful_dequeue_task, (v,), true) && T::decoded_view(
                    old(self)@[0],
                ) == Some(v@))),
            old(self)@.len() > 0 && T::decoded_view(old(self)@[0]) is None ==> !(r is Ok),
            old(self)@.len() == 0 ==> (r matches Ok(false)) && final(self)@ == old(self)@,
    {
        match qf_peek(&self.qfq) {
            Err(e) => Err(QueueError::Io(qf_error_text(&e))),
            Ok(None) => Ok(false),
            Ok(Some(data_bin)) => {
                match T::from_bincode(data_bin.as_slice()) {
                    None => Err(QueueError::Corrupt),
                    Some(data) => {
                        if doubtful_dequeue_task(data) {
                            match qf_remove(&mut self.qfq) {
                                Err(e) => Err(QueueError::Io(qf_error_text(&e))),
                                Ok(()) => Ok(true),
                            }
                        } else {
                            Ok(false)
                        }
                    },
                }
            },
        }
    }

    /// Dequeues the oldest value unconditionally: the always-commit instance
    /// of the protocol, with the value handed back. An empty queue yields
    /// `Ok(None)`.
    pub fn dequeue(&mut self) -> (r: Result<Option<T>, QueueError>)
        ensures
            final(self).persistent_path() == old(self).persistent_path(),
            r matches Ok(Some(v)) ==> old(self)@.len() > 0 && T::decoded_view(old(self)@[0])
                == Some(v@) && final(self)@ == old(self)@.drop_first(),
            r matches Ok(None) ==> old(self)@.len() == 0 && final(self)@ == old(self)@,
            r matches Err(e) && e is Corrupt ==> final(self)@ == old(self)@ && old(self)@.len()
                > 0 && T::decoded_view(old(self)@[0]) is None,
            r matches Err(e) && e is Io ==> final(self)@ == old(self)@ || (old(self)@.len() > 0
                && T::decoded_view(old(self)@[0]) is Some && final(self)@ == old(
                self,
            )@.drop_first()),
            old(self)@.len() > 0 && T::decoded_view(old(self)@[0]) is None ==> !(r is Ok),
            old(self)@.len() == 0 ==> (r matches Ok(None)) && final(self)@ == old(self)@,
    {
        match qf_peek(&self.qfq) {
            Err(e) => Err(QueueError::Io(qf_error_text(&e))),
            Ok(None) => Ok(None),
            Ok(Some(data_bin)) => {
                match T::from_bincode(data_bin.as_slice()) {
                    None => Err(QueueError::Corrupt),
                    Some(data) => {
                        match qf_remove(&mut self.qfq) {
                            Err(e) => Err(QueueError::Io(qf_error_text(&e))),
                            Ok(()) => Ok(Some(data)),
                        }
                    },
                }
            },
        }
    }

    /// Dequeues every value until the queue reports empty, in FIFO order: the
    /// value at position `i` of the result decodes record `i` of the log as
    /// it stood at the call. An empty queue yields an empty sequence. On an
    /// error the walk stops at once; what it had already removed stays
    /// removed and the values decoded from it are dropped with the error, so
    /// a suffix of the original records remains. A corruption error leaves
    /// the undecodable record first in line.
    pub fn dequeue_all(&mut self) -> (r: Result<Vec<T>, QueueError>)
        ensures
            final(self).persistent_path() == old(self).persistent_path(),
            r matches Ok(vs) ==> final(self)@.len() == 0 && vs@.len() == old(self)@.len() && (
            forall|i: int|
                0 <= i < vs@.len() ==> T::decoded_view(old(self)@[i]) == Some(
                    #[trigger] vs@[i]@,
                )),
            r is Err ==> exists|k: int|
                0 <= k <= old(self)@.len() && final(self)@ == old(self)@.skip(k),
            r matches Err(e) && e is Corrupt ==> final(self)@.len() > 0 && T::decoded_view(
                final(self)@[0],
            ) is None,
            old(self)@.len() == 0 ==> r is Ok,
    {
        let mut dequeued_items: Vec<T> = Vec::new();
        loop
            invariant
                self.persistent_path() == old(self).persistent_path(),
                dequeued_items@.len() <= old(self)@.len(),
                self@ == old(self)@.skip(dequeued_items@.len() as int),
                forall|i: int|
                    0 <= i < dequeued_items@.len() ==> T::decoded_view(old(self)@[i]) == Some(
                        #[trigger] dequeued_items@[i]@,
                    ),
            ensures
                self.persistent_path() == old(self).persistent_path(),
                self@.len() == 0,
                dequeued_items@.len() == old(self)@.len(),
                forall|i: int|
                    0 <= i < dequeued_items@.len() ==> T::decoded_view(old(self)@[i]) == Some(
                        #[trigger] dequeued_items@[i]@,
                    ),
            decreases self@.len(),
        {
            let ghost k: int = dequeued_items@.len() as int;
            match self.dequeue() {
                Err(e) => {
                    proof {
                        if self@ == old(self)@.skip(k) {
                            assert(0 <= k <= old(self)@.len() && self@ == old(self)@.skip(k));
                        } else {
                            assert(old(self)@.skip(k).len() > 0);
                            assert(old(self)@.skip(k).drop_first() =~= old(self)@.skip(k + 1));
                            assert(0 <= k + 1 <= old(self)@.len() && self@ == old(self)@.skip(
                                k + 1,
                            ));
                        }
                    }
                    return Err(e);
                },
                Ok(None) => {
                    proof {
                        assert(old(self)@.skip(k).len() == 0);
                    }
                    break;
                },
                Ok(Some(item)) => {
                    proof {
                        assert(old(self)@.skip(k)[0] == old(self)@[k]);
                        assert(old(self)@.skip(k).drop_first() =~= old(self)@.skip(k + 1));
                    }
                    dequeued_items.push(item);
                },
            }
        }
        Ok(dequeued_items)
    }

    /// The number of records the queue currently holds, read without side
    /// effects, exactly as the backing log reports it.
    pub fn count(&self) -> (r: usize)
        ensures
            r == self@.len(),
    {
        qf_size(&self.qfq)
    }

    /// The path given at construction, as handed to `new`.
    pub fn get_persistent_path(&self) -> (r: String)
        ensures
            r@ == self.persistent_path(),
    {
        self.file_path.clone()
    }
}

/// A committed dequeue removes exactly the oldest record: one record fewer,
/// every remaining record moved up one place, nothing else touched.
pub proof fn lemma_commit_removes_exactly_one(s: Seq<Seq<u8>>)
    requires
        s.len() > 0,
    ensures
        s.drop_first().len() == s.len() - 1,
        forall|i: int| 0 <= i < s.len() - 1 ==> s.drop_first()[i] == s[i + 1],
{
}

/// FIFO order: two records appended in that order stand behind everything
/// already in the log, adjacent and in that same order. Once every earlier
/// record is dequeued, the first of the two is first in line and the second
/// follows it.
pub proof fn lemma_fifo_order(s: Seq<Seq<u8>>, a: Seq<u8>, b: Seq<u8>)
    ensures
        s.push(a).push(b)[s.len() as int] == a,
        s.push(a).push(b)[s.len() as int + 1] == b,
        s.push(a).push(b).skip(s.len() as int) =~= seq![a, b],
{
    assert(s.push(a).push(b).skip(s.len() as int) =~= seq![a, b]);
}

} // verus!
