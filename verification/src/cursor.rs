//! The scan cursor: a 1-based watermark into the mailbox's current
//! sequence-number space, kept consistent while actions remove messages
//! and while the mailbox grows or shrinks between sweeps.

use vstd::prelude::*;

verus! {

/// The in-memory scan position of one mailbox sweep: the last processed
/// sequence number and the current message count. Never persisted and
/// never shared across mailboxes.
#[derive(Clone, Copy, Debug, PartialEq, Eq, Structural)]
pub struct ScanCursor {
    /// The last sequence number known to be fully processed; `0` before
    /// any message was.
    pub last_processed: usize,
    /// The mailbox's current message count as this cursor tracks it.
    pub total: usize,
}

impl ScanCursor {
    /// The cursor invariant: the watermark stays inside the valid
    /// sequence-number bound.
    pub open spec fn wf(&self) -> bool {
        self.last_processed <= self.total
    }

    /// A cursor at the start of a sweep over `count` messages.
    pub fn start_sweep(count: usize) -> (r: ScanCursor)
        ensures
            r.last_processed == 0,
            r.total == count,
            r.wf(),
    {
        ScanCursor { last_processed: 0, total: count }
    }

    /// Whether an unprocessed message remains in the current sweep.
    pub fn has_next(&self) -> (r: bool)
        ensures
            r == (self.last_processed < self.total),
    {
        self.last_processed < self.total
    }

    /// The sequence number of the next message to process.
    pub fn next_index(&self) -> (r: usize)
        requires
            self.last_processed < self.total,
    ensures
            r == self.last_processed + 1,
    {
        self.last_processed + 1
    }

    /// Records the outcome of processing the message at `next_index`:
    /// when it was removed from the sequence, the count drops by one and
    /// the watermark stays, so the message that slid into the vacated
    /// slot is visited next; otherwise the watermark advances.
    pub fn record(&mut self, removed: bool)
        requires
            old(self).wf(),
            old(self).last_processed < old(self).total,
        ensures
            final(self).wf(),
            removed ==> final(self).last_processed == old(self).last_processed,
            removed ==> final(self).total == old(self).total - 1,
            !removed ==> final(self).last_processed == old(self).last_processed + 1,
            !removed ==> final(self).total == old(self).total,
    {
        if removed {
            self.total = self.total - 1;
        } else {
            self.last_processed = self.last_processed + 1;
        }
    }

    /// Takes a fresh message count `m` between sweeps and says whether
    /// the gap `last_processed + 1 ..= m` should now be processed: yes
    /// exactly when the mailbox grew past the watermark. When it shrank,
    /// the watermark is only clamped below `m` and nothing is processed.
    pub fn recount(&mut self, m: usize) -> (process: bool)
        requires
            old(self).wf(),
        ensures
            final(self).wf(),
            final(self).total == m,
            m == old(self).last_processed ==> !process,
            m < old(self).last_processed ==> !process,
            m >= old(self).last_processed ==> final(self).last_processed == old(self).last_processed,
            m < old(self).last_processed ==> final(self).last_processed == (if m == 0 {
                0int
            } else {
                m - 1
            }),
            m > old(self).last_processed ==> process,
    {
        self.total = m;
        if m == self.last_processed {
            false
        } else if m < self.last_processed {
            self.last_processed = if m == 0 {
                0
            } else {
                m - 1
            };
            false
        } else {
            true
        }
    }
}

/// A model of one whole sweep over an in-memory mailbox: each message
/// carries its identity and whether processing it removes it from the
/// sequence. The result is the identities in processed order, and the
/// contract states the sweep's central invariant: every message of the
/// mailbox is processed exactly once, in mailbox order, however many
/// messages removal renumbers — none skipped, none reprocessed.
pub fn simulate_sweep(mailbox: Vec<(u64, bool)>) -> (r: Vec<u64>)
    ensures
        r@ == mailbox@.map_values(|p: (u64, bool)| p.0),
{
    let ghost orig = mailbox@;
    let mut remaining = mailbox;
    let mut cursor = ScanCursor::start_sweep(remaining.len());
    let mut processed: Vec<u64> = Vec::new();
    proof {
        assert(remaining@.subrange(0, remaining@.len() as int) =~= orig.subrange(
            0,
            orig.len() as int,
        ));
        assert(processed@ =~= orig.subrange(0, 0).map_values(|p: (u64, bool)| p.0));
    }
    while cursor.has_next()
        invariant
            cursor.wf(),
            cursor.total == remaining@.len(),
            cursor.last_processed <= remaining@.len(),
            processed@.len() + remaining@.len() - cursor.last_processed == orig.len(),
            processed@ == orig.subrange(0, processed@.len() as int).map_values(
                |p: (u64, bool)| p.0,
            ),
            remaining@.subrange(cursor.last_processed as int, remaining@.len() as int)
                == orig.subrange(processed@.len() as int, orig.len() as int),
        decreases remaining@.len() - cursor.last_processed,
    {
        let ghost k = processed@.len() as int;
        let ghost last0 = cursor.last_processed as int;
        let ghost rem0 = remaining@;
        let i = cursor.next_index();
        proof {
            assert(rem0.subrange(last0, rem0.len() as int)[0] == rem0[i - 1]);
            assert(orig.subrange(k, orig.len() as int)[0] == orig[k]);
        }
        let message = remaining[i - 1];
        processed.push(message.0);
        proof {
            assert(processed@ =~= orig.subrange(0, k + 1).map_values(|p: (u64, bool)| p.0));
        }
        if message.1 {
            remaining.remove(i - 1);
            cursor.record(true);
            proof {
                rem0.remove_ensures(last0);
                assert(remaining@ == rem0.remove(last0));
                assert forall|j: int| 0 <= j < remaining@.len() - last0 implies remaining@.subrange(
                    last0,
                    remaining@.len() as int,
                )[j] == orig.subrange(k + 1, orig.len() as int)[j] by {
                    assert(remaining@[last0 + j] == rem0[last0 + j + 1]);
                    assert(rem0.subrange(last0, rem0.len() as int)[j + 1] == rem0[last0 + j + 1]);
                    assert(orig.subrange(k, orig.len() as int)[j + 1] == orig[k + 1 + j]);
                    assert(orig.subrange(k + 1, orig.len() as int)[j] == orig[k + 1 + j]);
                }
                assert(remaining@.subrange(last0, remaining@.len() as int) =~= orig.subrange(
                    k + 1,
                    orig.len() as int,
                ));
            }
        } else {
            cursor.record(false);
            proof {
                assert forall|j: int| 0 <= j < remaining@.len() - last0 - 1 implies #[trigger] orig
                    .subrange(k + 1, orig.len() as int)[j] == remaining@.subrange(
                    last0 + 1,
                    remaining@.len() as int,
                )[j] by {
                    assert(remaining@.subrange(last0 + 1, remaining@.len() as int)[j]
                        == rem0[last0 + 1 + j]);
                    assert(rem0.subrange(last0, rem0.len() as int)[j + 1] == rem0[last0 + j + 1]);
                    assert(orig.subrange(k, orig.len() as int)[j + 1] == orig[k + 1 + j]);
                    assert(orig.subrange(k + 1, orig.len() as int)[j] == orig[k + 1 + j]);
                }
                assert(remaining@.subrange(last0 + 1, remaining@.len() as int) =~= orig.subrange(
                    k + 1,
                    orig.len() as int,
                ));
            }
        }
    }
    proof {
        assert(processed@.len() == orig.len());
        assert(orig.subrange(0, orig.len() as int) =~= orig);
    }
    processed
}

/// The sequence numbers a sweep visits, starting after watermark `last`
/// over `total` messages, where `removals[k]` says whether the `k`-th
/// processed message was removed from the sequence.
pub open spec fn sweep_visits(last: int, total: int, removals: Seq<bool>) -> Seq<int>
    decreases total - last,
{
    if last >= total || removals.len() == 0 {
        Seq::empty()
    } else if removals[0] {
        seq![last + 1] + sweep_visits(last, total - 1, removals.drop_first())
    } else {
        seq![last + 1] + sweep_visits(last + 1, total, removals.drop_first())
    }
}

/// Removal bookkeeping of a sweep: the first visit is the slot past the
/// watermark; after a removal the very next visit is the same slot again
/// (the message renumbered into it is not skipped), after a kept message
/// the next visit is one slot further (the same message is not
/// reprocessed); and the sweep visits exactly one slot per message,
/// however many were removed.
pub proof fn lemma_sweep_removal_bookkeeping(last: int, total: int, removals: Seq<bool>)
    requires
        0 <= last <= total,
        removals.len() >= total - last,
    ensures
        sweep_visits(last, total, removals).len() == total - last,
        last < total ==> sweep_visits(last, total, removals)[0] == last + 1,
        last + 1 < total && removals[0] ==> sweep_visits(last, total, removals)[1] == last + 1,
        last + 1 < total && !removals[0] ==> sweep_visits(last, total, removals)[1] == last + 2,
    decreases total - last,
{
    if last < total {
        if removals[0] {
            lemma_sweep_removal_bookkeeping(last, total - 1, removals.drop_first());
        } else {
            lemma_sweep_removal_bookkeeping(last + 1, total, removals.drop_first());
        }
    }
}

} // verus!
