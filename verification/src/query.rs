//! The range query: the encoded samples newer than a threshold, located by
//! binary search in a history that may lie in two runs, and laid out as one
//! JSON array without touching any payload.

use crate::entry::{records, Entry};
use crate::search::lower_bound_by_timestamp;
use crate::series::{
    ascending, law_range_at_latest, law_range_from_zero, lemma_newer_than_concat,
    lemma_newer_than_suffix, newer_than, Record,
};
use vstd::prelude::*;

verus! {

/// The byte `[`, which opens the array.
pub const OPEN_BRACKET: u8 = 0x5b;

/// The byte `]`, which closes the array.
pub const CLOSE_BRACKET: u8 = 0x5d;

/// The byte `,`, which stands between two payloads.
pub const SEPARATOR: u8 = 0x2c;

/// The room reserved for a response before any payload is copied.
pub const INITIAL_BODY_CAPACITY: usize = 1024;

/// The payloads of `s` in order, with one separator between each two.
pub open spec fn joined(s: Seq<Record>) -> Seq<u8>
    decreases s.len(),
{
    if s.len() == 0 {
        Seq::empty()
    } else if s.len() == 1 {
        s[0].payload
    } else {
        joined(s.drop_last()) + seq![SEPARATOR] + s.last().payload
    }
}

/// The JSON array whose elements are the payloads of `s`, each as it is.
pub open spec fn json_array(s: Seq<Record>) -> Seq<u8> {
    seq![OPEN_BRACKET] + joined(s) + seq![CLOSE_BRACKET]
}

/// The answer to a query for the samples newer than `threshold` in the
/// history `s`.
pub open spec fn response(s: Seq<Record>, threshold: u64) -> Seq<u8> {
    json_array(newer_than(s, threshold))
}

/// Joining one more record adds its payload, after a separator unless it is
/// the first.
pub proof fn lemma_joined_push(s: Seq<Record>, record: Record)
    ensures
        joined(s.push(record)) == if s.len() == 0 {
            record.payload
        } else {
            joined(s) + seq![SEPARATOR] + record.payload
        },
{
    assert(s.push(record).drop_last() =~= s);
}

/// Copies onto `body` the payloads of the entries of `run` from position
/// `start` on. `before` holds the records whose payloads `body` already
/// carries, and `preceded` tells whether there are any.
fn push_payloads(
    body: &mut Vec<u8>,
    run: &[Entry],
    start: usize,
    preceded: bool,
    Ghost(before): Ghost<Seq<Record>>,
) -> (followed: bool)
    requires
        start <= run@.len(),
        preceded == (before.len() > 0),
        old(body)@ == seq![OPEN_BRACKET] + joined(before),
    ensures
        followed == ((before + records(run@).skip(start as int)).len() > 0),
        final(body)@ == seq![OPEN_BRACKET] + joined(before + records(run@).skip(start as int)),
{
    let mut any = preceded;
    let mut i = start;
    proof {
        assert(before + records(run@).subrange(start as int, i as int) =~= before);
    }
    while i < run.len()
        invariant
            start <= i <= run@.len(),
            any == ((before + records(run@).subrange(start as int, i as int)).len() > 0),
            body@ == seq![OPEN_BRACKET] + joined(
                before + records(run@).subrange(start as int, i as int),
            ),
        decreases run@.len() - i,
    {
        let ghost done = before + records(run@).subrange(start as int, i as int);
        let ghost record = run@[i as int]@;
        if any {
            body.push(SEPARATOR);
        }
        let entry = &run[i];
        body.extend_from_slice(entry.payload.as_slice());
        proof {
            assert(before + records(run@).subrange(start as int, i + 1) =~= done.push(record));
            lemma_joined_push(done, record);
            if done.len() == 0 {
                assert(body@ =~= seq![OPEN_BRACKET] + record.payload);
            } else {
                assert(body@ =~= seq![OPEN_BRACKET] + (joined(done) + seq![SEPARATOR]
                    + record.payload));
            }
        }
        any = true;
        i += 1;
    }
    proof {
        assert(records(run@).subrange(start as int, i as int) =~= records(run@).skip(start as int));
    }
    any
}

/// Answers a query for the samples newer than `threshold` in a history that
/// lies in two runs, `front` followed by `back`, as a ring buffer that has
/// wrapped around hands it out.
///
/// The position where the newer samples begin is found in each run by binary
/// search; only the samples from there on are read. A threshold at the largest
/// representable value selects nothing.
pub fn range_query(front: &[Entry], back: &[Entry], threshold: u64) -> (body: Vec<u8>)
    requires
        ascending(records(front@) + records(back@)),
    ensures
        body@ == response(records(front@) + records(back@), threshold),
{
    let ghost first = records(front@);
    let ghost second = records(back@);
    let mut body: Vec<u8> = Vec::with_capacity(INITIAL_BODY_CAPACITY);
    body.push(OPEN_BRACKET);
    proof {
        lemma_newer_than_concat(first, second, threshold);
        assert(body@ =~= seq![OPEN_BRACKET] + joined(Seq::<Record>::empty()));
    }
    match threshold.checked_add(1) {
        Some(key) => {
            proof {
                assert forall|i: int, j: int| 0 <= i <= j < front@.len() implies front@[i].timestamp
                    <= front@[j].timestamp by {
                    assert((first + second)[i] == front@[i]@);
                    assert((first + second)[j] == front@[j]@);
                }
                assert forall|i: int, j: int| 0 <= i <= j < back@.len() implies back@[i].timestamp
                    <= back@[j].timestamp by {
                    assert((first + second)[first.len() + i] == back@[i]@);
                    assert((first + second)[first.len() + j] == back@[j]@);
                }
            }
            let front_start = lower_bound_by_timestamp(front, key);
            let back_start = lower_bound_by_timestamp(back, key);
            proof {
                lemma_newer_than_suffix(first, front_start as int, threshold);
                lemma_newer_than_suffix(second, back_start as int, threshold);
            }
            let ghost none = Seq::<Record>::empty();
            let any = push_payloads(&mut body, front, front_start, false, Ghost(none));
            proof {
                assert(none + first.skip(front_start as int) =~= first.skip(front_start as int));
            }
            let _ = push_payloads(
                &mut body,
                back,
                back_start,
                any,
                Ghost(first.skip(front_start as int)),
            );
        },
        None => {
            proof {
                lemma_newer_than_suffix(first, first.len() as int, threshold);
                lemma_newer_than_suffix(second, second.len() as int, threshold);
                assert(first.skip(first.len() as int) + second.skip(second.len() as int)
                    =~= Seq::<Record>::empty());
            }
        },
    }
    body.push(CLOSE_BRACKET);
    body
}

/// Where nothing in an ascending history is newer than `threshold`, the
/// answer is the empty array.
pub proof fn law_nothing_newer_gives_empty_array(s: Seq<Record>, threshold: u64)
    requires
        ascending(s),
        s.len() == 0 || s.last().timestamp <= threshold,
    ensures
        response(s, threshold) == seq![OPEN_BRACKET, CLOSE_BRACKET],
{
    law_range_at_latest(s, threshold);
    assert(response(s, threshold) =~= seq![OPEN_BRACKET, CLOSE_BRACKET]);
}

/// Where no record carries the timestamp zero, the answer to the threshold
/// zero holds every payload of the history.
pub proof fn law_zero_gives_everything(s: Seq<Record>)
    requires
        forall|i: int| 0 <= i < s.len() ==> s[i].timestamp > 0,
    ensures
        response(s, 0) == json_array(s),
{
    law_range_from_zero(s);
}

/// Asking again changes nothing: two answers to the same threshold from the
/// same history are the same bytes.
pub proof fn law_repeated_query(s: Seq<Record>, threshold: u64, first: Seq<u8>, second: Seq<u8>)
    requires
        first == response(s, threshold),
        second == response(s, threshold),
    ensures
        first == second,
{
}

} // verus!
