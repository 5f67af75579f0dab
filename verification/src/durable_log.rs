use vstd::prelude::*;

verus! {

#[verifier::external_type_specification]
#[verifier::external_body]
pub struct ExQueueFile(queue_file::QueueFile);

#[verifier::external_type_specification]
#[verifier::external_body]
pub struct ExQueueFileError(queue_file::Error);

/// The opaque byte records the durable log currently holds, oldest first.
pub uninterp spec fn log_records(q: queue_file::QueueFile) -> Seq<Seq<u8>>;

/// Relies on QueueFile::open: opens the backing file at `path`, creating it
/// if absent; what the log then holds depends on what is on disk.
#[verifier::external_body]
pub(crate) fn qf_open(path: &str) -> Result<queue_file::QueueFile, queue_file::Error> {
    queue_file::QueueFile::open(path)
}

/// Relies on QueueFile::add: appends one record at the tail. On failure the
/// log is either exactly as it was (in-memory state is committed only after
/// every write succeeded) or already holds the appended record (the final
/// header write may still fail after that commit).
#[verifier::external_body]
pub(crate) fn qf_add(q: &mut queue_file::QueueFile, data: &[u8]) -> (r: Result<
    (),
    queue_file::Error,
>)
    ensures
        r is Ok ==> log_records(*final(q)) == log_records(*old(q)).push(data@),
        r is Err ==> log_records(*final(q)) == log_records(*old(q)) || log_records(*final(q))
            == log_records(*old(q)).push(data@),
{
    q.add(data)
}

/// Relies on QueueFile::peek: hands out a copy of the oldest record's bytes
/// without mutating the log, or nothing where the log is empty. On an empty
/// log it answers from the in-memory count without touching the disk, so
/// there it cannot fail.
#[verifier::external_body]
pub(crate) fn qf_peek(q: &queue_file::QueueFile) -> (r: Result<
    Option<Vec<u8>>,
    queue_file::Error,
>)
    ensures
        r matches Ok(Some(d)) ==> log_records(*q).len() > 0 && d@ == log_records(*q)[0],
        r matches Ok(None) ==> log_records(*q).len() == 0,
        log_records(*q).len() == 0 ==> r matches Ok(None),
{
    q.peek()
}

/// Relies on QueueFile::remove: deletes the oldest record. On failure the
/// log is either exactly as it was or already shortened (the header write
/// and the optional overwrite of freed space come after the removal).
#[verifier::external_body]
pub(crate) fn qf_remove(q: &mut queue_file::QueueFile) -> (r: Result<(), queue_file::Error>)
    requires
        log_records(*old(q)).len() > 0,
    ensures
        r is Ok ==> log_records(*final(q)) == log_records(*old(q)).drop_first(),
        r is Err ==> log_records(*final(q)) == log_records(*old(q)) || log_records(*final(q))
            == log_records(*old(q)).drop_first(),
{
    q.remove()
}

/// Relies on QueueFile::size: the number of records the log holds.
#[verifier::external_body]
pub(crate) fn qf_size(q: &queue_file::QueueFile) -> (r: usize)
    ensures
        r == log_records(*q).len(),
{
    q.size()
}

/// Relies on the Display rendering of queue_file::Error for a readable
/// description of a storage failure.
#[verifier::external_body]
pub(crate) fn qf_error_text(e: &queue_file::Error) -> String {
    format!("{}", e)
}

} // verus!
