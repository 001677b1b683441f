//! The outbound-request side of the adapter client: the monotone request-id
//! counter and the pending-response table.

use vstd::prelude::*;

verus! {

/// Number of occurrences of `x` in `s`.
pub open spec fn occurrences(s: Seq<u64>, x: u64) -> nat
    decreases s.len(),
{
    if s.len() == 0 {
        0
    } else {
        occurrences(s.drop_last(), x) + (if s.last() == x {
            1nat
        } else {
            0nat
        })
    }
}

proof fn lemma_occurrences_of_distinct(s: Seq<u64>, x: u64)
    requires
        forall|i: int, j: int| 0 <= i < s.len() && 0 <= j < s.len() && i != j ==> s[i] != s[j],
    ensures
        occurrences(s, x) == if s.contains(x) {
            1nat
        } else {
            0nat
        },
    decreases s.len(),
{
    if s.len() > 0 {
        let head = s.drop_last();
        assert(forall|i: int, j: int|
            0 <= i < head.len() && 0 <= j < head.len() && i != j ==> head[i] != head[j]);
        lemma_occurrences_of_distinct(head, x);
        if s.last() == x {
            assert(!head.contains(x)) by {
                if head.contains(x) {
                    let i = choose|i: int| 0 <= i < head.len() && head[i] == x;
                    assert(s[i] == x && s[s.len() - 1] == x);
                }
            }
            assert(s.contains(x)) by {
                assert(s[s.len() - 1] == x);
            }
        } else {
            assert(s.contains(x) <==> head.contains(x)) by {
                if s.contains(x) {
                    let i = choose|i: int| 0 <= i < s.len() && s[i] == x;
                    assert(head[i] == x);
                }
                if head.contains(x) {
                    let i = choose|i: int| 0 <= i < head.len() && head[i] == x;
                    assert(s[i] == x);
                }
            }
        }
    }
}

/// Index of the first occurrence of `x` in `s` at or after `i`, or -1.
pub open spec fn find_id_from(s: Seq<u64>, x: u64, i: int) -> int
    decreases s.len() - i,
    when 0 <= i <= s.len()
{
    if i >= s.len() {
        -1
    } else if s[i] == x {
        i
    } else {
        find_id_from(s, x, i + 1)
    }
}

proof fn lemma_find_id_shift(s: Seq<u64>, x: u64, i: int)
    requires
        0 <= i <= s.len(),
        forall|j: int| 0 <= j < i ==> s[j] != x,
    ensures
        find_id_from(s, x, 0) == find_id_from(s, x, i),
    decreases i,
{
    if i > 0 {
        lemma_find_id_shift(s, x, i - 1);
    }
}

proof fn lemma_find_id_found(s: Seq<u64>, x: u64, i: int)
    requires
        0 <= i <= s.len(),
        forall|j: int| 0 <= j < i ==> s[j] != x,
        i < s.len() ==> s[i] == x,
    ensures
        i < s.len() ==> find_id_from(s, x, 0) == i,
        i == s.len() ==> find_id_from(s, x, 0) == -1,
{
    lemma_find_id_shift(s, x, i);
}

/// The request-id counter and pending-response table of one adapter
/// client. An id is pending from the moment its request is handed to the
/// writer until the peer's response arrives or the transport tears down.
pub struct PendingTable {
    next_id: u64,
    pending: Vec<u64>,
    issued: Ghost<Seq<u64>>,
}

impl PendingTable {
    /// The id the next outbound request will take.
    pub closed spec fn next(self) -> u64 {
        self.next_id
    }

    /// The ids whose responses are still awaited, in issue order.
    pub closed spec fn pending_ids(self) -> Seq<u64> {
        self.pending@
    }

    /// Every id ever issued, in issue order.
    pub closed spec fn issued_ids(self) -> Seq<u64> {
        self.issued@
    }

    /// Ids are issued as the consecutive sequence starting at 1; pending
    /// ids are issued ids, each present at most once.
    pub open spec fn wf(self) -> bool {
        &&& 1 <= self.next()
        &&& self.issued_ids().len() == self.next() - 1
        &&& (forall|i: int|
            0 <= i < self.issued_ids().len() ==> #[trigger] self.issued_ids()[i] == i + 1)
        &&& (forall|i: int|
            0 <= i < self.pending_ids().len() ==> 1 <= #[trigger] self.pending_ids()[i]
                < self.next())
        &&& (forall|i: int, j: int|
            0 <= i < self.pending_ids().len() && 0 <= j < self.pending_ids().len() && i != j
                ==> self.pending_ids()[i] != self.pending_ids()[j])
    }

    pub fn new() -> (r: Self)
        ensures
            r.wf(),
            r.next() == 1,
            r.pending_ids().len() == 0,
            r.issued_ids().len() == 0,
    {
        PendingTable { next_id: 1, pending: Vec::new(), issued: Ghost(Seq::empty()) }
    }

    /// The id the next outbound request will take; ids run out at
    /// `u64::MAX`.
    pub fn next_request_id(&self) -> (r: u64)
        ensures
            r == self.next(),
    {
        self.next_id
    }

    /// Issues the next request id and inserts its pending slot. From this
    /// moment exactly one entry for the id is in the table.
    pub fn begin_request(&mut self) -> (r: u64)
        requires
            old(self).wf(),
            old(self).next() < u64::MAX,
        ensures
            final(self).wf(),
            r == old(self).next(),
            final(self).next() == old(self).next() + 1,
            final(self).issued_ids() == old(self).issued_ids().push(r),
            final(self).pending_ids() == old(self).pending_ids().push(r),
            !old(self).pending_ids().contains(r),
            occurrences(final(self).pending_ids(), r) == 1,
    {
        let id = self.next_id;
        self.next_id = self.next_id + 1;
        self.pending.push(id);
        let ghost prior_issued = self.issued@;
        self.issued = Ghost(prior_issued.push(id));
        proof {
            assert(!old(self).pending_ids().contains(id)) by {
                if old(self).pending_ids().contains(id) {
                    let i = choose|i: int|
                        0 <= i < old(self).pending_ids().len() && old(self).pending_ids()[i] == id;
                }
            }
            lemma_occurrences_of_distinct(final(self).pending_ids(), id);
            assert(final(self).pending_ids().contains(id)) by {
                assert(final(self).pending_ids().last() == id);
            }
        }
        id
    }

    /// Resolves the pending slot for `id` when the peer's response
    /// arrives. Returns whether the id was pending; afterwards it no
    /// longer is, so a late duplicate response finds nothing.
    pub fn resolve_response(&mut self, id: u64) -> (r: bool)
        requires
            old(self).wf(),
        ensures
            final(self).wf(),
            final(self).next() == old(self).next(),
            final(self).issued_ids() == old(self).issued_ids(),
            r == old(self).pending_ids().contains(id),
            !final(self).pending_ids().contains(id),
            !r ==> final(self).pending_ids() == old(self).pending_ids(),
            r ==> ({
                let j = find_id_from(old(self).pending_ids(), id, 0);
                final(self).pending_ids() == old(self).pending_ids().remove(j)
            }),
    {
        let mut i: usize = 0;
        loop
            invariant_except_break
                0 <= i <= self.pending_ids().len(),
                forall|j: int| 0 <= j < i ==> self.pending_ids()[j] != id,
            ensures
                self.pending_ids().contains(id) ==> i < self.pending_ids().len() && find_id_from(
                    self.pending_ids(),
                    id,
                    0,
                ) == i && self.pending_ids()[i as int] == id,
                !self.pending_ids().contains(id) ==> i == self.pending_ids().len(),
            decreases self.pending_ids().len() - i,
        {
            if i >= self.pending.len() {
                proof {
                    lemma_find_id_found(self.pending_ids(), id, i as int);
                    assert(!self.pending_ids().contains(id)) by {
                        if self.pending_ids().contains(id) {
                            let j = choose|j: int|
                                0 <= j < self.pending_ids().len() && self.pending_ids()[j] == id;
                        }
                    }
                }
                break;
            }
            if self.pending[i] == id {
                proof {
                    lemma_find_id_found(self.pending_ids(), id, i as int);
                    assert(self.pending_ids().contains(id)) by {
                        assert(self.pending_ids()[i as int] == id);
                    }
                }
                break;
            }
            i = i + 1;
        }
        if i < self.pending.len() {
            self.pending.remove(i);
            proof {
                let s = final(self).pending_ids();
                assert(s =~= old(self).pending_ids().subrange(0, i as int) + old(
                    self,
                ).pending_ids().subrange(
                    i as int + 1,
                    old(self).pending_ids().len() as int,
                ));
                assert(!s.contains(id)) by {
                    if s.contains(id) {
                        let j = choose|j: int| 0 <= j < s.len() && s[j] == id;
                        if j < i {
                            assert(old(self).pending_ids()[j] == id);
                        } else {
                            assert(old(self).pending_ids()[j + 1] == id);
                        }
                    }
                }
            }
            true
        } else {
            false
        }
    }

    /// Transport teardown: every pending slot is dropped at once, so all
    /// outstanding callers observe the closed channel.
    pub fn teardown(&mut self)
        requires
            old(self).wf(),
        ensures
            final(self).wf(),
            final(self).next() == old(self).next(),
            final(self).issued_ids() == old(self).issued_ids(),
            final(self).pending_ids().len() == 0,
    {
        self.pending.clear();
    }
}

/// Any id is in the pending table at most once, and exactly once from the
/// moment its request was enqueued (`begin_request`) until it is resolved
/// (`resolve_response`) or the table is torn down.
pub proof fn lemma_pending_entry_unique(t: PendingTable, id: u64)
    requires
        t.wf(),
    ensures
        occurrences(t.pending_ids(), id) == if t.pending_ids().contains(id) {
            1nat
        } else {
            0nat
        },
{
    lemma_occurrences_of_distinct(t.pending_ids(), id);
}

/// The ids issued by a single client form the strictly increasing
/// sequence 1, 2, 3, ... in issue order.
pub proof fn lemma_request_ids_increasing(t: PendingTable)
    requires
        t.wf(),
    ensures
        t.issued_ids().len() > 0 ==> t.issued_ids()[0] == 1,
        forall|i: int, j: int|
            0 <= i < j < t.issued_ids().len() ==> t.issued_ids()[i] < t.issued_ids()[j],
{
}

} // verus!
