//! The inspector's log of recent exchanges.
use vstd::prelude::*;
use crate::client::inspector::model::CapturedExchange;
use crate::text::str_eq;
use std::collections::VecDeque;

verus! {

/// How many exchanges the inspector remembers.
pub const MAX_ENTRIES: usize = 250;

/// `e` as stored with sequence number `n`.
pub open spec fn numbered(e: CapturedExchange, n: u64) -> CapturedExchange {
    CapturedExchange { sequence: n, ..e }
}

/// The sequence number the next exchange gets: one more than the newest
/// entry's, or 1 in an empty log.
pub open spec fn next_sequence(entries: Seq<CapturedExchange>) -> int {
    if entries.len() == 0 {
        1
    } else {
        entries.last().sequence + 1
    }
}

/// The most recent exchanges, oldest first: at most `MAX_ENTRIES` of them,
/// numbered consecutively.
pub struct ExchangeLog {
    entries: VecDeque<CapturedExchange>,
}

impl View for ExchangeLog {
    type V = Seq<CapturedExchange>;

    closed spec fn view(&self) -> Seq<CapturedExchange> {
        self.entries@
    }
}

/// Whether sequence numbers go up by one from each entry to the next.
pub open spec fn consecutive(entries: Seq<CapturedExchange>) -> bool {
    forall|i: int| 0 <= i < entries.len() - 1 ==> #[trigger] entries[i + 1].sequence == entries[i].sequence + 1
}

/// The newest `MAX_ENTRIES` entries of `s` (all of them when there are
/// fewer), oldest first.
pub open spec fn last_entries(s: Seq<CapturedExchange>) -> Seq<CapturedExchange> {
    s.skip(s.len() - (if s.len() < MAX_ENTRIES { s.len() as int } else { MAX_ENTRIES as int }))
}

/// Whether sequence numbers strictly increase from older to newer entries.
pub open spec fn increasing(entries: Seq<CapturedExchange>) -> bool {
    forall|i: int, j: int| 0 <= i < j < entries.len() ==> #[trigger] entries[i].sequence < #[trigger] entries[j].sequence
}

/// Numbers that go up by one from each entry to the next strictly increase.
pub proof fn lemma_consecutive_increasing(s: Seq<CapturedExchange>)
    requires
        consecutive(s),
    ensures
        increasing(s),
    decreases s.len(),
{
    if s.len() > 1 {
        let t = s.drop_last();
        assert forall|i: int| 0 <= i < t.len() - 1 implies #[trigger] t[i + 1].sequence == t[i].sequence + 1 by {
            assert(t[i] == s[i] && t[i + 1] == s[i + 1]);
        }
        lemma_consecutive_increasing(t);
        assert forall|i: int, j: int| 0 <= i < j < s.len() implies #[trigger] s[i].sequence < #[trigger] s[j].sequence by {
            if j < s.len() - 1 {
                assert(t[i] == s[i] && t[j] == s[j]);
            } else {
                assert(s[j - 1 + 1].sequence == s[j - 1].sequence + 1);
                if i < j - 1 {
                    assert(t[i] == s[i] && t[j - 1] == s[j - 1]);
                    assert(t[i].sequence < t[j - 1].sequence);
                }
            }
        }
    }
}

impl ExchangeLog {
    #[verifier::type_invariant]
    spec fn well_formed(self) -> bool {
        &&& self.entries@.len() <= MAX_ENTRIES
        &&& consecutive(self.entries@)
    }

    /// An empty log.
    pub fn new() -> (r: Self)
        ensures
            r@ == Seq::<CapturedExchange>::empty(),
    {
        ExchangeLog { entries: VecDeque::new() }
    }

    /// How many exchanges the log holds.
    pub fn len(&self) -> (r: usize)
        ensures
            r == self@.len(),
            r <= MAX_ENTRIES,
    {
        proof {
            use_type_invariant(self);
        }
        self.entries.len()
    }

    /// The exchange at position `i`, oldest first.
    pub fn entry(&self, i: usize) -> (r: &CapturedExchange)
        requires
            i < self@.len(),
        ensures
            *r == self@[i as int],
    {
        &self.entries[i]
    }

    /// The position of the oldest exchange with identifier `id`, if any.
    pub fn find(&self, id: &str) -> (r: Option<usize>)
        ensures
            match r {
                Some(i) => i < self@.len() && self@[i as int].id@ == id@ && forall|j: int|
                    0 <= j < i ==> self@[j].id@ != id@,
                None => forall|j: int| 0 <= j < self@.len() ==> self@[j].id@ != id@,
            },
    {
        let n = self.entries.len();
        let mut i: usize = 0;
        while i < n
            invariant
                n == self@.len(),
                0 <= i <= n,
                forall|j: int| 0 <= j < i ==> self@[j].id@ != id@,
            decreases n - i,
        {
            if str_eq(self.entries[i].id.as_str(), id) {
                return Some(i);
            }
            i = i + 1;
        }
        None
    }

    /// Records an exchange, numbered one after the newest entry (or 1), and
    /// forgets the oldest entry when the log would exceed `MAX_ENTRIES`.
    /// Returns the number given.
    pub fn push(&mut self, exchange: CapturedExchange) -> (r: u64)
        requires
            next_sequence(old(self)@) <= u64::MAX,
        ensures
            r == next_sequence(old(self)@),
            ({
                let grown = old(self)@.push(numbered(exchange, r));
                final(self)@ == if grown.len() > MAX_ENTRIES {
                    grown.drop_first()
                } else {
                    grown
                }
            }),
            ({
                let grown = old(self)@.push(numbered(exchange, r));
                final(self)@ == last_entries(grown)
            }),
            final(self)@.len() <= MAX_ENTRIES,
            consecutive(final(self)@),
            increasing(final(self)@),
    {
        proof {
            use_type_invariant(&*self);
        }
        let n = self.entries.len();
        let sequence: u64 = if n == 0 {
            1
        } else {
            self.entries[n - 1].sequence + 1
        };
        let mut exchange = exchange;
        exchange.sequence = sequence;
        let mut taken = ExchangeLog::new();
        std::mem::swap(self, &mut taken);
        let ExchangeLog { mut entries } = taken;
        let ghost before = entries@;
        entries.push_back(exchange);
        proof {
            assert(consecutive(entries@)) by {
                assert forall|i: int| 0 <= i < entries@.len() - 1 implies #[trigger] entries@[i
                    + 1].sequence == entries@[i].sequence + 1 by {
                    if i + 1 < before.len() {
                        assert(entries@[i] == before[i]);
                        assert(entries@[i + 1] == before[i + 1]);
                    }
                }
            }
        }
        if entries.len() > MAX_ENTRIES {
            let ghost grown = entries@;
            let _ = entries.pop_front();
            proof {
                assert(entries@ =~= grown.drop_first());
                assert forall|i: int| 0 <= i < entries@.len() - 1 implies #[trigger] entries@[i
                    + 1].sequence == entries@[i].sequence + 1 by {
                    assert(entries@[i] == grown[i + 1]);
                    assert(entries@[i + 1] == grown[i + 2]);
                }
            }
        }
        proof {
            let grown = old(self)@.push(numbered(exchange, sequence));
            assert(entries@ =~= last_entries(grown));
            lemma_consecutive_increasing(entries@);
        }
        *self = ExchangeLog { entries };
        sequence
    }
}

} // verus!
