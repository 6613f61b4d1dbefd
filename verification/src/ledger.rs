//! Ticket accounting: who holds how many tickets, and how many there are.

use crate::error::RaffleError;
use crate::identity::Identity;
use vstd::prelude::*;

verus! {

/// One line of the ledger as the contracts see it.
pub struct Stake {
    pub holder: Seq<u8>,
    pub tickets: nat,
}

/// The number of tickets on all lines together.
pub open spec fn sum_tickets(s: Seq<Stake>) -> nat
    decreases s.len(),
{
    if s.len() == 0 {
        0
    } else {
        sum_tickets(s.drop_last()) + s.last().tickets
    }
}

/// The number of tickets on the first `k` lines.
pub open spec fn running_sum(s: Seq<Stake>, k: int) -> nat {
    sum_tickets(s.take(k))
}

/// No participant has two lines.
pub open spec fn distinct_holders(s: Seq<Stake>) -> bool {
    forall|i: int, j: int| 0 <= i < j < s.len() ==> s[i].holder != s[j].holder
}

/// The participant has a line.
pub open spec fn holds(s: Seq<Stake>, who: Seq<u8>) -> bool {
    exists|i: int| 0 <= i < s.len() && #[trigger] s[i].holder == who
}

/// The position of a participant's line, where there is one.
pub open spec fn slot_of(s: Seq<Stake>, who: Seq<u8>) -> int {
    choose|i: int| 0 <= i < s.len() && #[trigger] s[i].holder == who
}

/// The participant's tickets: zero for one who has no line.
pub open spec fn tickets_of(s: Seq<Stake>, who: Seq<u8>) -> nat {
    if holds(s, who) {
        s[slot_of(s, who)].tickets
    } else {
        0
    }
}

/// The ledger after `n` more tickets went to a participant: the
/// participant's line grows where it stands, and a newcomer's line
/// is added at the end.
pub open spec fn credit(s: Seq<Stake>, who: Seq<u8>, n: nat) -> Seq<Stake> {
    if holds(s, who) {
        let i = slot_of(s, who);
        s.update(i, Stake { holder: who, tickets: s[i].tickets + n })
    } else {
        s.push(Stake { holder: who, tickets: n })
    }
}

/// The running sum once line `i` has been counted.
pub open spec fn sum_through(s: Seq<Stake>, i: int) -> nat {
    running_sum(s, i + 1)
}

/// Line `i` is the first whose running sum exceeds `index`.
pub open spec fn wins_at(s: Seq<Stake>, index: nat, i: int) -> bool {
    &&& 0 <= i < s.len()
    &&& sum_through(s, i) > index
    &&& forall|j: int| 0 <= j < i ==> #[trigger] sum_through(s, j) <= index
}

/// The position of the line that wins for `index`.
pub open spec fn winning_slot(s: Seq<Stake>, index: nat) -> int {
    choose|i: int| wins_at(s, index, i)
}

/// The running sum grows line by line.
pub proof fn lemma_running_sum_step(s: Seq<Stake>, k: int)
    requires
        0 <= k < s.len(),
    ensures
        running_sum(s, k + 1) == running_sum(s, k) + s[k].tickets,
        running_sum(s, 0) == 0,
{
    assert(s.take(k + 1).drop_last() =~= s.take(k));
    assert(s.take(0) =~= Seq::<Stake>::empty());
}

/// The running sum never decreases and ends at the sum of all lines.
pub proof fn lemma_running_sum_monotone(s: Seq<Stake>, i: int, j: int)
    requires
        0 <= i <= j <= s.len(),
    ensures
        running_sum(s, i) <= running_sum(s, j),
        running_sum(s, s.len() as int) == sum_tickets(s),
    decreases j - i,
{
    assert(s.take(s.len() as int) =~= s);
    if i < j {
        lemma_running_sum_monotone(s, i, j - 1);
        lemma_running_sum_step(s, j - 1);
    }
}

/// No line holds more than all lines together.
pub proof fn lemma_line_within_sum(s: Seq<Stake>, i: int)
    requires
        0 <= i < s.len(),
    ensures
        s[i].tickets <= sum_tickets(s),
{
    lemma_running_sum_step(s, i);
    lemma_running_sum_monotone(s, i + 1, s.len() as int);
}

/// Changing one line changes the sum by as much.
pub proof fn lemma_sum_update(s: Seq<Stake>, i: int, line: Stake)
    requires
        0 <= i < s.len(),
    ensures
        sum_tickets(s.update(i, line)) + s[i].tickets == sum_tickets(s) + line.tickets,
    decreases s.len(),
{
    let t = s.update(i, line);
    if i == s.len() - 1 {
        assert(t.drop_last() =~= s.drop_last());
    } else {
        assert(t.drop_last() =~= s.drop_last().update(i, line));
        lemma_sum_update(s.drop_last(), i, line);
    }
}

/// A new line adds its tickets to the sum.
pub proof fn lemma_sum_push(s: Seq<Stake>, line: Stake)
    ensures
        sum_tickets(s.push(line)) == sum_tickets(s) + line.tickets,
{
    assert(s.push(line).drop_last() =~= s);
}

/// In a ledger without double lines, a participant's tickets are those of
/// the participant's one line.
pub proof fn lemma_tickets_at(s: Seq<Stake>, i: int)
    requires
        distinct_holders(s),
        0 <= i < s.len(),
    ensures
        holds(s, s[i].holder),
        slot_of(s, s[i].holder) == i,
        tickets_of(s, s[i].holder) == s[i].tickets,
{
    let who = s[i].holder;
    assert(s[i].holder == who);
    let j = slot_of(s, who);
    assert(0 <= j < s.len() && s[j].holder == who);
    if j < i {
        assert(s[j].holder != s[i].holder);
    }
    if i < j {
        assert(s[i].holder != s[j].holder);
    }
}

/// Crediting `n` tickets to a participant raises that participant's count
/// and the sum by `n`, leaves every other count alone, and keeps the ledger
/// free of double lines.
pub proof fn lemma_credit(s: Seq<Stake>, who: Seq<u8>, n: nat)
    requires
        distinct_holders(s),
    ensures
        distinct_holders(credit(s, who, n)),
        sum_tickets(credit(s, who, n)) == sum_tickets(s) + n,
        tickets_of(credit(s, who, n), who) == tickets_of(s, who) + n,
        forall|other: Seq<u8>| other != who ==> tickets_of(credit(s, who, n), other) == tickets_of(s, other),
        holds(credit(s, who, n), who),
        forall|other: Seq<u8>| holds(s, other) ==> holds(credit(s, who, n), other),
{
    let c = credit(s, who, n);
    if holds(s, who) {
        let i = slot_of(s, who);
        let line = Stake { holder: who, tickets: s[i].tickets + n };
        assert(c == s.update(i, line));
        assert(c.len() == s.len());
        assert forall|a: int| 0 <= a < s.len() implies #[trigger] c[a].holder == s[a].holder by {}
        assert forall|a: int, b: int| 0 <= a < b < c.len() implies c[a].holder != c[b].holder by {
            assert(s[a].holder != s[b].holder);
        }
        lemma_sum_update(s, i, line);
        assert(c[i].holder == who);
        lemma_tickets_at(c, i);
        assert forall|other: Seq<u8>| other != who implies tickets_of(c, other) == tickets_of(
            s,
            other,
        ) by {
            lemma_credit_other(s, c, other);
        }
        assert forall|other: Seq<u8>| holds(s, other) implies holds(c, other) by {
            let k = slot_of(s, other);
            assert(c[k].holder == other);
        }
    } else {
        let line = Stake { holder: who, tickets: n };
        assert(c == s.push(line));
        assert forall|a: int, b: int| 0 <= a < b < c.len() implies c[a].holder != c[b].holder by {
            if b == s.len() {
                assert(c[a] == s[a]);
                if s[a].holder == who {
                    assert(holds(s, who));
                }
            } else {
                assert(s[a].holder != s[b].holder);
            }
        }
        lemma_sum_push(s, line);
        assert(c[s.len() as int].holder == who);
        lemma_tickets_at(c, s.len() as int);
        assert forall|other: Seq<u8>| other != who implies tickets_of(c, other) == tickets_of(
            s,
            other,
        ) by {
            if holds(s, other) {
                let k = slot_of(s, other);
                assert(c[k].holder == other);
                lemma_tickets_at(s, k);
                lemma_tickets_at(c, k);
            } else {
                if holds(c, other) {
                    let k = slot_of(c, other);
                    assert(k < s.len());
                    assert(s[k].holder == other);
                }
            }
        }
        assert forall|other: Seq<u8>| holds(s, other) implies holds(c, other) by {
            let k = slot_of(s, other);
            assert(c[k].holder == other);
        }
    }
}

/// Two ledgers with the same holders line by line, and the same tickets on
/// a participant's line, give that participant the same count.
proof fn lemma_credit_other(s: Seq<Stake>, c: Seq<Stake>, other: Seq<u8>)
    requires
        distinct_holders(s),
        distinct_holders(c),
        c.len() == s.len(),
        forall|a: int| 0 <= a < s.len() ==> #[trigger] c[a].holder == s[a].holder,
        forall|a: int| 0 <= a < s.len() && s[a].holder == other ==> #[trigger] c[a].tickets == s[a].tickets,
    ensures
        tickets_of(c, other) == tickets_of(s, other),
{
    if holds(s, other) {
        let k = slot_of(s, other);
        assert(c[k].holder == other);
        lemma_tickets_at(s, k);
        lemma_tickets_at(c, k);
    } else {
        if holds(c, other) {
            let k = slot_of(c, other);
            assert(s[k].holder == other);
        }
    }
}

/// The line that wins for `index` is the one whose tickets include the
/// ticket numbered `index`, when tickets are numbered in ledger order.
pub proof fn lemma_wins_at_interval(s: Seq<Stake>, index: nat, i: int)
    requires
        0 <= i < s.len(),
    ensures
        wins_at(s, index, i) <==> running_sum(s, i) <= index < running_sum(s, i) + s[i].tickets,
{
    lemma_running_sum_step(s, i);
    if wins_at(s, index, i) {
        if i > 0 {
            assert(sum_through(s, i - 1) <= index);
        }
    }
    if running_sum(s, i) <= index < running_sum(s, i) + s[i].tickets {
        assert forall|j: int| 0 <= j < i implies #[trigger] sum_through(s, j) <= index by {
            lemma_running_sum_monotone(s, j + 1, i);
        }
    }
}

/// From line `k` on, some line wins, if none before `k` does.
proof fn lemma_winner_from(s: Seq<Stake>, index: nat, k: int) -> (i: int)
    requires
        0 <= k <= s.len(),
        index < sum_tickets(s),
        forall|j: int| 0 <= j < k ==> #[trigger] sum_through(s, j) <= index,
    ensures
        wins_at(s, index, i),
    decreases s.len() - k,
{
    if k == s.len() {
        lemma_running_sum_monotone(s, 0, s.len() as int);
        if k > 0 {
            assert(sum_through(s, k - 1) <= index);
        }
        0
    } else if sum_through(s, k) > index {
        k
    } else {
        lemma_winner_from(s, index, k + 1)
    }
}

/// For every index below the number of tickets exactly one line wins.
pub proof fn lemma_winner_unique(s: Seq<Stake>, index: nat)
    requires
        index < sum_tickets(s),
    ensures
        wins_at(s, index, winning_slot(s, index)),
        forall|i: int| wins_at(s, index, i) ==> i == winning_slot(s, index),
{
    let w = lemma_winner_from(s, index, 0);
    let c = winning_slot(s, index);
    assert(wins_at(s, index, c));
    assert forall|i: int| wins_at(s, index, i) implies i == c by {
        if i < c {
            assert(sum_through(s, i) <= index);
        }
        if c < i {
            assert(sum_through(s, c) <= index);
        }
    }
}

/// One line of the ledger.
#[derive(Debug, PartialEq, Eq)]
pub struct TicketEntry {
    pub holder: Identity,
    pub tickets: u64,
}

impl View for TicketEntry {
    type V = Stake;

    open spec fn view(&self) -> Stake {
        Stake { holder: self.holder@, tickets: self.tickets as nat }
    }
}

/// The ledger: one line for each participant who bought, in the order of
/// their first purchase, and the number of tickets sold.
#[derive(Debug)]
pub struct TicketLedger {
    entries: Vec<TicketEntry>,
    total: u64,
}

/// The lines that the given entries stand for.
pub open spec fn stakes(entries: Seq<TicketEntry>) -> Seq<Stake> {
    Seq::new(entries.len(), |i: int| entries[i]@)
}

impl View for TicketLedger {
    type V = Seq<Stake>;

    closed spec fn view(&self) -> Seq<Stake> {
        stakes(self.entries@)
    }
}

impl TicketLedger {
    /// The number of tickets that the ledger records as sold.
    pub closed spec fn recorded_total(&self) -> nat {
        self.total as nat
    }

    /// No participant has two lines, and the recorded total is the sum of
    /// the lines.
    pub open spec fn wf(&self) -> bool {
        &&& distinct_holders(self@)
        &&& self.recorded_total() == sum_tickets(self@)
        &&& sum_tickets(self@) <= u64::MAX
    }

    /// A ledger without lines.
    pub fn new() -> (ledger: TicketLedger)
        ensures
            ledger.wf(),
            ledger@ == Seq::<Stake>::empty(),
            ledger.recorded_total() == 0,
    {
        let ledger = TicketLedger { entries: Vec::new(), total: 0 };
        assert(ledger@ =~= Seq::<Stake>::empty());
        ledger
    }

    /// The position of a participant's line.
    fn find(&self, who: &Identity) -> (found: Option<usize>)
        ensures
            match found {
                Some(i) => i < self@.len() && self@[i as int].holder == who@,
                None => !holds(self@, who@),
            },
    {
        let n: usize = self.entries.len();
        let mut i: usize = 0;
        while i < n
            invariant
                i <= n,
                n == self.entries@.len(),
                n == self@.len(),
                forall|k: int| 0 <= k < i ==> (#[trigger] self@[k]).holder != who@,
            decreases n - i,
        {
            if self.entries[i].holder == *who {
                return Some(i);
            }
            i += 1;
        }
        None
    }

    /// The participant's tickets: zero for one who never bought.
    pub fn get(&self, who: &Identity) -> (tickets: u64)
        requires
            self.wf(),
        ensures
            tickets == tickets_of(self@, who@),
    {
        match self.find(who) {
            Some(i) => {
                proof {
                    lemma_tickets_at(self@, i as int);
                }
                self.entries[i].tickets
            },
            None => 0,
        }
    }

    /// The number of tickets sold.
    pub fn total(&self) -> (total: u64)
        requires
            self.wf(),
        ensures
            total == sum_tickets(self@),
            total == self.recorded_total(),
    {
        self.total
    }

    /// The number of lines.
    pub fn len(&self) -> (n: usize)
        ensures
            n == self@.len(),
    {
        self.entries.len()
    }

    /// Line `i`, in the order in which participants first bought.
    pub fn entry(&self, i: usize) -> (line: TicketEntry)
        requires
            i < self@.len(),
        ensures
            line@ == self@[i as int],
    {
        TicketEntry { holder: self.entries[i].holder.clone(), tickets: self.entries[i].tickets }
    }

    /// All lines, in the order in which participants first bought.
    pub fn entries(&self) -> (lines: Vec<TicketEntry>)
        ensures
            stakes(lines@) == self@,
    {
        let n: usize = self.entries.len();
        let mut lines: Vec<TicketEntry> = Vec::new();
        let mut i: usize = 0;
        while i < n
            invariant
                i <= n,
                n == self.entries@.len(),
                lines@.len() == i,
                forall|k: int| 0 <= k < i ==> (#[trigger] lines@[k])@ == self.entries@[k]@,
            decreases n - i,
        {
            lines.push(self.entry(i));
            i += 1;
        }
        assert(stakes(lines@) =~= self@);
        lines
    }

    /// Credits `delta` tickets to a participant and to the total, and
    /// returns the participant's new count. Where the total would leave its
    /// range nothing is changed.
    pub fn add(&mut self, who: &Identity, delta: u64) -> (r: Result<u64, RaffleError>)
        requires
            old(self).wf(),
        ensures
            final(self).wf(),
            match r {
                Ok(count) => sum_tickets(old(self)@) + delta <= u64::MAX
                    && count == tickets_of(old(self)@, who@) + delta
                    && final(self)@ == credit(old(self)@, who@, delta as nat),
                Err(e) => sum_tickets(old(self)@) + delta > u64::MAX
                    && e == RaffleError::Overflow
                    && final(self)@ == old(self)@,
            },
    {
        let found = self.find(who);
        let new_total: u64 = match self.total.checked_add(delta) {
            Some(t) => t,
            None => {
                return Err(RaffleError::Overflow);
            },
        };
        let ghost before = self@;
        proof {
            lemma_credit(before, who@, delta as nat);
        }
        match found {
            Some(i) => {
                proof {
                    lemma_tickets_at(before, i as int);
                    lemma_line_within_sum(before, i as int);
                }
                let count: u64 = self.entries[i].tickets + delta;
                let holder = self.entries[i].holder.clone();
                self.entries.set(i, TicketEntry { holder, tickets: count });
                self.total = new_total;
                assert(self@ =~= credit(before, who@, delta as nat));
                Ok(count)
            },
            None => {
                self.entries.push(TicketEntry { holder: who.clone(), tickets: delta });
                self.total = new_total;
                assert(self@ =~= credit(before, who@, delta as nat));
                Ok(delta)
            },
        }
    }

    /// The holder of the line that wins for `index`: the first line whose
    /// running sum exceeds it.
    pub fn winner_for(&self, index: u64) -> (winner: Identity)
        requires
            self.wf(),
            index < sum_tickets(self@),
        ensures
            wins_at(self@, index as nat, winning_slot(self@, index as nat)),
            winner@ == self@[winning_slot(self@, index as nat)].holder,
    {
        let n: usize = self.entries.len();
        proof {
            lemma_winner_unique(self@, index as nat);
            lemma_running_sum_monotone(self@, 0, n as int);
            if n > 0 {
                lemma_running_sum_step(self@, 0);
                lemma_running_sum_monotone(self@, 1, n as int);
            }
        }
        let mut i: usize = 0;
        let mut running: u64 = self.entries[0].tickets;
        while running <= index
            invariant
                i < n,
                n == self.entries@.len(),
                n == self@.len(),
                self.wf(),
                index < sum_tickets(self@),
                running == sum_through(self@, i as int),
                forall|j: int| 0 <= j < i ==> #[trigger] sum_through(self@, j) <= index,
            decreases n - i,
        {
            proof {
                lemma_running_sum_monotone(self@, i + 1, n as int);
                if i + 1 < n {
                    lemma_running_sum_step(self@, i + 1);
                    lemma_running_sum_monotone(self@, i + 2, n as int);
                }
            }
            i += 1;
            running = running + self.entries[i].tickets;
        }
        assert(wins_at(self@, index as nat, i as int));
        self.entries[i].holder.clone()
    }

    /// The ledger with the given lines and total, where they make one:
    /// where no participant has two lines and the total is their sum.
    pub fn from_entries(entries: Vec<TicketEntry>, total: u64) -> (r: Option<TicketLedger>)
        ensures
            match r {
                Some(ledger) => ledger.wf() && ledger@ == stakes(entries@)
                    && ledger.recorded_total() == total,
                None => !(distinct_holders(stakes(entries@)) && sum_tickets(stakes(entries@))
                    == total),
            },
    {
        let ghost lines = stakes(entries@);
        let n: usize = entries.len();
        let mut sum: u64 = 0;
        let mut i: usize = 0;
        proof {
            if n > 0 {
                lemma_running_sum_step(lines, 0);
            } else {
                assert(lines.take(0) =~= Seq::<Stake>::empty());
            }
        }
        while i < n
            invariant
                i <= n,
                n == entries@.len(),
                lines == stakes(entries@),
                sum == running_sum(lines, i as int),
            decreases n - i,
        {
            proof {
                lemma_running_sum_step(lines, i as int);
                lemma_running_sum_monotone(lines, i + 1, n as int);
            }
            sum = match sum.checked_add(entries[i].tickets) {
                Some(next) => next,
                None => {
                    return None;
                },
            };
            i += 1;
        }
        proof {
            lemma_running_sum_monotone(lines, 0, n as int);
        }
        if sum != total {
            return None;
        }
        let mut b: usize = 0;
        while b < n
            invariant
                b <= n,
                n == entries@.len(),
                lines == stakes(entries@),
                forall|x: int, y: int| 0 <= x < y < b ==> lines[x].holder != lines[y].holder,
            decreases n - b,
        {
            let mut a: usize = 0;
            while a < b
                invariant
                    a <= b < n,
                    n == entries@.len(),
                    lines == stakes(entries@),
                    forall|x: int| 0 <= x < a ==> (#[trigger] lines[x]).holder != lines[b as int].holder,
                decreases b - a,
            {
                if entries[a].holder == entries[b].holder {
                    assert(lines[a as int].holder == lines[b as int].holder);
                    return None;
                }
                a += 1;
            }
            b += 1;
        }
        let ledger = TicketLedger { entries, total };
        assert(ledger@ =~= lines);
        Some(ledger)
    }
}

} // verus!
