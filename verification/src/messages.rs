//! The bounded log of progress messages that the playback engine, the
//! dispatcher and the listener write and the user interface reads.

use crate::text::texts;
use vstd::prelude::*;

verus! {

/// The most entries the log holds once a message has been appended.
pub const LOG_CAPACITY: usize = 100;

/// What the log holds after `message` is appended to `entries`: the message
/// goes to the end, and the oldest entries leave so that no more than
/// [`LOG_CAPACITY`] remain.
pub open spec fn appended(entries: Seq<Seq<char>>, message: Seq<char>) -> Seq<Seq<char>> {
    if entries.len() < LOG_CAPACITY {
        entries.push(message)
    } else {
        entries.skip(entries.len() - LOG_CAPACITY + 1).push(message)
    }
}

/// Appends `message` to `log`, oldest entries first out: afterwards the log
/// ends with the message and holds at most [`LOG_CAPACITY`] entries.
pub fn log_message(log: &mut Vec<String>, message: &str)
    ensures
        texts(final(log)@) == appended(texts(old(log)@), message@),
{
    let ghost before = log@;
    let ghost mut dropped: int = 0;
    while log.len() >= LOG_CAPACITY
        invariant
            0 <= dropped <= before.len(),
            log@ == before.skip(dropped),
            dropped > 0 ==> log@.len() >= LOG_CAPACITY - 1,
        decreases log.len(),
    {
        log.remove(0);
        proof {
            dropped = dropped + 1;
        }
    }
    log.push(message.to_owned());
}

/// The law of the capped log. After a message has been appended the log
/// ends with it and holds at most [`LOG_CAPACITY`] entries: all that it held
/// before if there was room, and otherwise the newest of them, still in
/// their order.
pub proof fn law_log_is_capped(entries: Seq<Seq<char>>, message: Seq<char>)
    ensures
        appended(entries, message).len() <= LOG_CAPACITY,
        appended(entries, message).len() == if entries.len() < LOG_CAPACITY {
            entries.len() + 1
        } else {
            LOG_CAPACITY as nat
        },
        appended(entries, message).last() == message,
        forall|i: int|
            0 <= i < appended(entries, message).len() - 1 ==> #[trigger] appended(
                entries,
                message,
            )[i] == entries[entries.len() - (appended(entries, message).len() - 1) + i],
{
}

} // verus!
