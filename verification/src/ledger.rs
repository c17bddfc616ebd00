//! Per-symbol position ledger with average-cost accounting.
//!
//! For each symbol the ledger keeps the signed net position (positive =
//! long, negative = short, zero = flat) and the signed cost basis
//! `cost == position * average_price`. Carrying the cost basis instead of
//! the average price itself keeps every stored quantity an exact integer:
//! the blend rule `avg' = (pos*avg + size*price) / |new_pos|` turns into
//! `cost' = sign(new_pos) * (cost + size*price)`, and the realized profit
//! of a sign-crossing trade `(price - avg) * |pos| * sign(pos)` turns into
//! `price*pos - cost`. A flat position has no meaningful average price and
//! carries cost basis zero.

use crate::fills::{Fill, FillQueue, FILL_QUEUE_CAPACITY};
use crate::market::Side;
use vstd::pervasive::VecAdditionalExecFns;
use vstd::prelude::*;

verus! {

/// The position change a trade asks for: `+size` for a buy, `-size` for a
/// sell.
pub open spec fn signed_delta(side: Side, size: int) -> int {
    match side {
        Side::Buy => size,
        Side::Sell => -size,
    }
}

/// The net position after one execution.
pub open spec fn next_position(pos: int, side: Side, size: int) -> int {
    pos + signed_delta(side, size)
}

/// Whether a trade flips the position through zero: the old and new
/// positions are nonzero and of strictly opposite signs.
pub open spec fn crosses_zero(pos: int, new_pos: int) -> bool {
    (pos > 0 && new_pos < 0) || (pos < 0 && new_pos > 0)
}

/// Realized profit of one execution under the sign-crossing policy.
///
/// Profit is recognized only when the trade crosses zero; a same-direction
/// add, a partial reduction, and even a full close to exactly zero realize
/// nothing. Reductions that do not flip the sign therefore never realize
/// profit; that deliberate simplification is part of this ledger's
/// accounting policy.
///
/// When the trade does cross, the closed quantity is the whole previous
/// position, so `(price - average_price) * |pos| * sign(pos)` equals
/// `price*pos - cost`, an exact integer.
pub open spec fn realized_pnl(pos: int, cost: int, side: Side, size: int, price: int) -> int {
    if crosses_zero(pos, next_position(pos, side, size)) {
        price * pos - cost
    } else {
        0
    }
}

/// Cost basis after one execution.
///
/// The average price blends by trade size, `avg' = (pos*avg + size*price)
/// / |new_pos|`, so the new cost basis `new_pos * avg'` is
/// `sign(new_pos) * (cost + size*price)`. A position closed to exactly
/// zero carries no cost basis; its average price is recomputed fresh on
/// the next non-zero fill.
pub open spec fn next_cost(pos: int, cost: int, side: Side, size: int, price: int) -> int {
    let np = next_position(pos, side, size);
    if np == 0 {
        0
    } else if np > 0 {
        cost + size * price
    } else {
        -(cost + size * price)
    }
}

/// The machine-range side condition for applying one execution: the new
/// position must fit in `i64`, and the new cost basis and (on a crossing
/// trade) the realized profit must fit in `i128`. These bounds are forced
/// by the fixed-width representation, not by the accounting rules.
pub open spec fn apply_in_range(pos: int, cost: int, side: Side, size: int, price: int) -> bool {
    let np = next_position(pos, side, size);
    &&& i64::MIN <= np <= i64::MAX
    &&& i128::MIN < cost + size * price <= i128::MAX
    &&& (crosses_zero(pos, np) ==> i128::MIN <= price * pos - cost <= i128::MAX)
}

/// Relies on `uuid::Uuid::new_v4` and the `Display` impl of `uuid::Uuid`:
/// a version-4 UUID rendered in the default hyphenated form is exactly 36
/// ASCII characters. Nothing is promised about the characters themselves;
/// the value is random.
#[verifier::external_body]
fn fresh_order_id() -> (id: String)
    ensures
        id@.len() == 36,
{
    uuid::Uuid::new_v4().to_string()
}

/// One symbol's ledger state.
struct PositionEntry {
    symbol: String,
    position: i64,
    cost: i128,
}

/// The position ledger and the fill stream it feeds.
///
/// All reads-then-writes for one symbol happen inside a single `&mut self`
/// call, so a caller that serializes access to the engine (for example
/// behind one exclusive lock) gets atomic check-then-apply sequences.
pub struct ExecutionEngine {
    entries: Vec<PositionEntry>,
    fills: FillQueue,
}

impl ExecutionEngine {
    /// Ledger well-formedness: one entry per symbol, and a flat position
    /// carries no cost basis.
    pub closed spec fn wf(&self) -> bool {
        &&& forall|i: int, j: int|
            0 <= i < j < self.entries@.len() ==> #[trigger] self.entries@[i].symbol@
                != #[trigger] self.entries@[j].symbol@
        &&& forall|i: int|
            0 <= i < self.entries@.len() ==> (#[trigger] self.entries@[i].position == 0
                ==> self.entries@[i].cost == 0)
    }

    /// Whether the ledger has an entry for `sym`.
    pub closed spec fn tracks(&self, sym: Seq<char>) -> bool {
        exists|i: int| 0 <= i < self.entries@.len() && #[trigger] self.entries@[i].symbol@ == sym
    }

    spec fn idx_of(&self, sym: Seq<char>) -> int {
        choose|i: int| 0 <= i < self.entries@.len() && #[trigger] self.entries@[i].symbol@ == sym
    }

    /// The signed net position held in `sym`; a symbol never traded is
    /// flat.
    pub closed spec fn spec_position(&self, sym: Seq<char>) -> int {
        if self.tracks(sym) {
            self.entries@[self.idx_of(sym)].position as int
        } else {
            0
        }
    }

    /// The signed cost basis of `sym`: `position * average_price`.
    pub closed spec fn spec_cost(&self, sym: Seq<char>) -> int {
        if self.tracks(sym) {
            self.entries@[self.idx_of(sym)].cost as int
        } else {
            0
        }
    }

    /// The fills produced so far and still waiting to be drained.
    pub closed spec fn spec_fills(&self) -> Seq<Fill> {
        self.fills.spec_items()
    }

    /// Fills discarded by the bounded queue's overflow policy.
    pub closed spec fn spec_fills_dropped(&self) -> int {
        self.fills.spec_dropped()
    }

    proof fn lemma_idx_unique(&self, i: int, sym: Seq<char>)
        requires
            self.wf(),
            0 <= i < self.entries@.len(),
            self.entries@[i].symbol@ == sym,
        ensures
            self.tracks(sym),
            self.idx_of(sym) == i,
    {
        assert(self.tracks(sym));
        let j = self.idx_of(sym);
        if i < j {
            assert(self.entries@[i].symbol@ != self.entries@[j].symbol@);
        } else if j < i {
            assert(self.entries@[j].symbol@ != self.entries@[i].symbol@);
        }
    }

    /// Two engines with the same entries agree on every ledger
    /// observation.
    proof fn lemma_same_entries(a: ExecutionEngine, b: ExecutionEngine)
        requires
            a.wf(),
            a.entries@ == b.entries@,
        ensures
            b.wf(),
            forall|s: Seq<char>| #[trigger] b.tracks(s) == a.tracks(s),
            forall|s: Seq<char>| #[trigger] b.spec_position(s) == a.spec_position(s),
            forall|s: Seq<char>| #[trigger] b.spec_cost(s) == a.spec_cost(s),
    {
        assert(b.wf());
        assert forall|s: Seq<char>| #[trigger] b.tracks(s) == a.tracks(s) by {
            if a.tracks(s) {
                let i = a.idx_of(s);
                assert(b.entries@[i].symbol@ == s);
            }
            if b.tracks(s) {
                let i = b.idx_of(s);
                assert(a.entries@[i].symbol@ == s);
            }
        }
        assert forall|s: Seq<char>|
            #[trigger] b.spec_position(s) == a.spec_position(s) && b.spec_cost(s) == a.spec_cost(
                s,
            ) by {
            if a.tracks(s) {
                let i = a.idx_of(s);
                a.lemma_idx_unique(i, s);
                b.lemma_idx_unique(i, s);
            }
        }
    }

    /// After an update that only touches entries of one symbol (in place
    /// or appended), every other symbol reads the same as before.
    proof fn lemma_others_unchanged(pre: ExecutionEngine, post: ExecutionEngine, sym: Seq<char>)
        requires
            pre.wf(),
            post.wf(),
            post.entries@.len() >= pre.entries@.len(),
            forall|j: int|
                0 <= j < pre.entries@.len() ==> #[trigger] post.entries@[j].symbol@
                    == pre.entries@[j].symbol@,
            forall|j: int|
                0 <= j < post.entries@.len() ==> post.entries@[j].symbol@ == sym || (j
                    < pre.entries@.len() && #[trigger] post.entries@[j] == pre.entries@[j]),
        ensures
            forall|s: Seq<char>|
                s != sym ==> #[trigger] post.spec_position(s) == pre.spec_position(s),
            forall|s: Seq<char>| s != sym ==> #[trigger] post.spec_cost(s) == pre.spec_cost(s),
            forall|s: Seq<char>| s != sym ==> #[trigger] post.tracks(s) == pre.tracks(s),
    {
        assert forall|s: Seq<char>|
            s != sym implies #[trigger] post.tracks(s) == pre.tracks(s) by {
            if pre.tracks(s) {
                let j = pre.idx_of(s);
                pre.lemma_idx_unique(j, s);
                assert(post.entries@[j].symbol@ == s);
            } else {
                if post.tracks(s) {
                    let j = post.idx_of(s);
                    assert(post.entries@[j].symbol@ == s);
                    assert(post.entries@[j] == pre.entries@[j]);
                    assert(pre.tracks(s));
                }
            }
        }
        assert forall|s: Seq<char>|
            s != sym implies #[trigger] post.spec_position(s) == pre.spec_position(s) by {
            if pre.tracks(s) {
                let j = pre.idx_of(s);
                pre.lemma_idx_unique(j, s);
                assert(post.entries@[j].symbol@ == s);
                assert(post.entries@[j] == pre.entries@[j]);
                post.lemma_idx_unique(j, s);
            } else {
                if post.tracks(s) {
                    let j = post.idx_of(s);
                    assert(post.entries@[j].symbol@ == s);
                    assert(post.entries@[j] == pre.entries@[j]);
                    assert(pre.tracks(s));
                }
            }
        }
        assert forall|s: Seq<char>|
            s != sym implies #[trigger] post.spec_cost(s) == pre.spec_cost(s) by {
            if pre.tracks(s) {
                let j = pre.idx_of(s);
                pre.lemma_idx_unique(j, s);
                assert(post.entries@[j].symbol@ == s);
                assert(post.entries@[j] == pre.entries@[j]);
                post.lemma_idx_unique(j, s);
            } else {
                if post.tracks(s) {
                    let j = post.idx_of(s);
                    assert(post.entries@[j].symbol@ == s);
                    assert(post.entries@[j] == pre.entries@[j]);
                    assert(pre.tracks(s));
                }
            }
        }
    }

    /// A fresh ledger: no symbol tracked yet (so a snapshot of it is
    /// empty), every symbol flat, no fills queued or dropped.
    pub fn new() -> (engine: ExecutionEngine)
        ensures
            engine.wf(),
            forall|s: Seq<char>| !(#[trigger] engine.tracks(s)),
            forall|s: Seq<char>| #[trigger] engine.spec_position(s) == 0,
            forall|s: Seq<char>| #[trigger] engine.spec_cost(s) == 0,
            engine.spec_fills() == Seq::<Fill>::empty(),
            engine.spec_fills_dropped() == 0,
    {
        let engine = ExecutionEngine { entries: Vec::new(), fills: FillQueue::new() };
        proof {
            assert forall|s: Seq<char>|
                #[trigger] engine.spec_position(s) == 0 && #[trigger] engine.spec_cost(s)
                    == 0 by {
                assert(!engine.tracks(s));
            }
        }
        engine
    }

    fn find_entry(&self, symbol: &str) -> (found: Option<usize>)
        ensures
            match found {
                Some(i) => i < self.entries@.len() && self.entries@[i as int].symbol@ == symbol@,
                None => !self.tracks(symbol@),
            },
    {
        let key = symbol.to_owned();
        let n = self.entries.len();
        let mut i: usize = 0;
        while i < n
            invariant
                n == self.entries@.len(),
                i <= n,
                key@ == symbol@,
                forall|j: int| 0 <= j < i ==> #[trigger] self.entries@[j].symbol@ != symbol@,
            decreases n - i,
        {
            if self.entries[i].symbol == key {
                return Some(i);
            }
            i += 1;
        }
        None
    }

    /// Read-only snapshot of one symbol's net position.
    pub fn get_position(&self, symbol: &str) -> (pos: i64)
        requires
            self.wf(),
        ensures
            pos as int == self.spec_position(symbol@),
    {
        match self.find_entry(symbol) {
            Some(i) => {
                proof {
                    self.lemma_idx_unique(i as int, symbol@);
                }
                self.entries[i].position
            },
            None => 0,
        }
    }

    /// Read-only snapshot of one symbol's cost basis,
    /// `position * average_price`. A flat or never-traded symbol reports
    /// zero.
    pub fn get_cost_basis(&self, symbol: &str) -> (cost: i128)
        requires
            self.wf(),
        ensures
            cost as int == self.spec_cost(symbol@),
    {
        match self.find_entry(symbol) {
            Some(i) => {
                proof {
                    self.lemma_idx_unique(i as int, symbol@);
                }
                self.entries[i].cost
            },
            None => 0,
        }
    }

    /// Applies one execution to the ledger and returns its fill.
    ///
    /// This operation never rejects a trade; all gating happens upstream
    /// in the risk gate. The traded symbol is tracked from then on — its
    /// entry is never deleted, even once flat again — so it appears in
    /// every later snapshot. The returned fill carries the execution
    /// price and size and the realized profit of this execution; a copy
    /// of it is offered to the bounded fill queue.
    pub fn execute(&mut self, symbol: &str, side: Side, size: i64, price: i64) -> (fill: Fill)
        requires
            old(self).wf(),
            size > 0,
            price >= 0,
            apply_in_range(
                old(self).spec_position(symbol@),
                old(self).spec_cost(symbol@),
                side,
                size as int,
                price as int,
            ),
        ensures
            final(self).wf(),
            final(self).spec_position(symbol@) == next_position(
                old(self).spec_position(symbol@),
                side,
                size as int,
            ),
            final(self).spec_cost(symbol@) == next_cost(
                old(self).spec_position(symbol@),
                old(self).spec_cost(symbol@),
                side,
                size as int,
                price as int,
            ),
            forall|s: Seq<char>|
                s != symbol@ ==> #[trigger] final(self).spec_position(s) == old(
                    self,
                ).spec_position(s),
            forall|s: Seq<char>|
                s != symbol@ ==> #[trigger] final(self).spec_cost(s) == old(self).spec_cost(s),
            final(self).tracks(symbol@),
            forall|s: Seq<char>|
                s != symbol@ ==> #[trigger] final(self).tracks(s) == old(self).tracks(s),
            fill.price == price,
            fill.size == size,
            fill.pnl as int == realized_pnl(
                old(self).spec_position(symbol@),
                old(self).spec_cost(symbol@),
                side,
                size as int,
                price as int,
            ),
            fill.order_id@.len() == 36,
            old(self).spec_fills().len() < FILL_QUEUE_CAPACITY ==> (final(self).spec_fills() == old(
                self,
            ).spec_fills().push(fill) && final(self).spec_fills_dropped() == old(
                self,
            ).spec_fills_dropped()),
            old(self).spec_fills().len() >= FILL_QUEUE_CAPACITY ==> (final(self).spec_fills()
                == old(self).spec_fills() && final(self).spec_fills_dropped() == (if old(
                self,
            ).spec_fills_dropped() == u64::MAX as int {
                old(self).spec_fills_dropped()
            } else {
                old(self).spec_fills_dropped() + 1
            })),
    {
        let ghost pos0 = old(self).spec_position(symbol@);
        let ghost cost0 = old(self).spec_cost(symbol@);
        let found = self.find_entry(symbol);
        let (current_pos, current_cost): (i64, i128) = match found {
            Some(i) => {
                proof {
                    self.lemma_idx_unique(i as int, symbol@);
                }
                (self.entries[i].position, self.entries[i].cost)
            },
            None => (0, 0),
        };
        proof {
            assert(current_pos as int == pos0);
            assert(current_cost as int == cost0);
        }
        let delta: i64 = match side {
            Side::Buy => size,
            Side::Sell => -size,
        };
        proof {
            assert(delta as int == signed_delta(side, size as int));
        }
        let new_pos: i64 = current_pos + delta;
        let crossed = (current_pos > 0 && new_pos < 0) || (current_pos < 0 && new_pos > 0);
        proof {
            let p = price as int;
            let q = current_pos as int;
            let z = size as int;
            assert((i64::MAX as int) * (i64::MIN as int) <= p * q <= (i64::MAX as int) * (
            i64::MAX as int)) by (nonlinear_arith)
                requires
                    0 <= p <= i64::MAX as int,
                    i64::MIN as int <= q <= i64::MAX as int,
            ;
            assert(0 <= z * p <= (i64::MAX as int) * (i64::MAX as int)) by (nonlinear_arith)
                requires
                    0 <= p <= i64::MAX as int,
                    0 <= z <= i64::MAX as int,
            ;
        }
        let pnl: i128 = if crossed {
            (price as i128) * (current_pos as i128) - current_cost
        } else {
            0
        };
        proof {
            assert(pnl as int == realized_pnl(pos0, cost0, side, size as int, price as int));
        }
        let total: i128 = current_cost + (size as i128) * (price as i128);
        let new_cost: i128 = if new_pos == 0 {
            0
        } else if new_pos > 0 {
            total
        } else {
            -total
        };
        proof {
            assert(new_cost as int == next_cost(pos0, cost0, side, size as int, price as int));
        }
        let entry = PositionEntry { symbol: symbol.to_owned(), position: new_pos, cost: new_cost };
        match found {
            Some(i) => {
                let ghost pre = *self;
                self.entries.set(i, entry);
                proof {
                    assert(self.entries@ =~= pre.entries@.update(i as int, entry));
                    assert forall|p: int, q: int|
                        0 <= p < q < self.entries@.len() implies #[trigger] self.entries@[p].symbol@
                        != #[trigger] self.entries@[q].symbol@ by {
                        assert(pre.entries@[p].symbol@ != pre.entries@[q].symbol@);
                        assert(self.entries@[p].symbol@ == pre.entries@[p].symbol@);
                        assert(self.entries@[q].symbol@ == pre.entries@[q].symbol@);
                    }
                    assert(self.wf());
                    self.lemma_idx_unique(i as int, symbol@);
                    assert(self.spec_position(symbol@) == new_pos as int);
                    assert(self.spec_cost(symbol@) == new_cost as int);
                    assert forall|j: int|
                        0 <= j < self.entries@.len() implies self.entries@[j].symbol@ == symbol@
                        || (j < pre.entries@.len() && #[trigger] self.entries@[j]
                            == pre.entries@[j]) by {}
                    ExecutionEngine::lemma_others_unchanged(pre, *self, symbol@);
                }
            },
            None => {
                let ghost pre = *self;
                self.entries.push(entry);
                proof {
                    let n = pre.entries@.len() as int;
                    assert(self.entries@ =~= pre.entries@.push(entry));
                    assert forall|p: int, q: int|
                        0 <= p < q < self.entries@.len() implies #[trigger] self.entries@[p].symbol@
                        != #[trigger] self.entries@[q].symbol@ by {
                        if q < n {
                            assert(pre.entries@[p].symbol@ != pre.entries@[q].symbol@);
                        } else {
                            assert(self.entries@[q].symbol@ == symbol@);
                            assert(pre.entries@[p].symbol@ != symbol@) by {
                                if pre.entries@[p].symbol@ == symbol@ {
                                    assert(pre.tracks(symbol@));
                                }
                            }
                        }
                    }
                    assert(self.wf());
                    self.lemma_idx_unique(n, symbol@);
                    assert(self.spec_position(symbol@) == new_pos as int);
                    assert(self.spec_cost(symbol@) == new_cost as int);
                    assert forall|j: int|
                        0 <= j < self.entries@.len() implies self.entries@[j].symbol@ == symbol@
                        || (j < pre.entries@.len() && #[trigger] self.entries@[j]
                            == pre.entries@[j]) by {}
                    ExecutionEngine::lemma_others_unchanged(pre, *self, symbol@);
                }
            },
        }
        let fill = Fill { order_id: fresh_order_id(), price, size, pnl };
        let fill_copy = Fill {
            order_id: fill.order_id.clone(),
            price: fill.price,
            size: fill.size,
            pnl: fill.pnl,
        };
        proof {
            assert(fill_copy == fill);
        }
        let ghost mid = *self;
        self.fills.push(fill_copy);
        proof {
            ExecutionEngine::lemma_same_entries(mid, *self);
        }
        fill
    }

    /// Read-only snapshot of every tracked symbol's net position.
    ///
    /// Each tracked symbol appears exactly once, paired with its current
    /// position.
    pub fn get_all_positions(&self) -> (all: Vec<(String, i64)>)
        requires
            self.wf(),
        ensures
            forall|k: int, l: int| 0 <= k < l < all@.len() ==> all@[k].0@ != all@[l].0@,
            forall|k: int|
                0 <= k < all@.len() ==> self.tracks(#[trigger] all@[k].0@) && all@[k].1 as int
                    == self.spec_position(all@[k].0@),
            forall|s: Seq<char>|
                #[trigger] self.tracks(s) ==> exists|k: int|
                    0 <= k < all@.len() && #[trigger] all@[k].0@ == s,
    {
        let n = self.entries.len();
        let mut all: Vec<(String, i64)> = Vec::new();
        let mut i: usize = 0;
        while i < n
            invariant
                self.wf(),
                n == self.entries@.len(),
                i <= n,
                all@.len() == i,
                forall|j: int|
                    0 <= j < i ==> #[trigger] all@[j].0@ == self.entries@[j].symbol@ && all@[j].1
                        == self.entries@[j].position,
            decreases n - i,
        {
            all.push((self.entries[i].symbol.clone(), self.entries[i].position));
            i += 1;
        }
        proof {
            assert forall|k: int|
                0 <= k < all@.len() implies self.tracks(#[trigger] all@[k].0@) && all@[k].1 as int
                == self.spec_position(all@[k].0@) by {
                self.lemma_idx_unique(k, all@[k].0@);
            }
            assert forall|s: Seq<char>| #[trigger] self.tracks(s) implies exists|k: int|
                0 <= k < all@.len() && #[trigger] all@[k].0@ == s by {
                let j = self.idx_of(s);
                assert(0 <= j < all@.len() && all@[j].0@ == s);
            }
        }
        all
    }

    /// Takes every queued fill, oldest first, leaving the queue empty.
    /// The ledger itself and the drop counter are untouched.
    pub fn take_fills(&mut self) -> (fills: Vec<Fill>)
        requires
            old(self).wf(),
        ensures
            fills@ == old(self).spec_fills(),
            final(self).spec_fills() == Seq::<Fill>::empty(),
            final(self).spec_fills_dropped() == old(self).spec_fills_dropped(),
            final(self).wf(),
            forall|s: Seq<char>| #[trigger] final(self).tracks(s) == old(self).tracks(s),
            forall|s: Seq<char>| #[trigger] final(self).spec_position(s) == old(
                self,
            ).spec_position(s),
            forall|s: Seq<char>| #[trigger] final(self).spec_cost(s) == old(self).spec_cost(s),
    {
        let taken = self.fills.drain();
        proof {
            ExecutionEngine::lemma_same_entries(*old(self), *self);
        }
        taken
    }

    /// Fills discarded by the bounded queue's overflow policy so far.
    pub fn fills_dropped(&self) -> (n: u64)
        ensures
            n as int == self.spec_fills_dropped(),
    {
        self.fills.dropped_count()
    }
}

/// Folds a sequence of `(size, price)` trades, all on one side, through
/// the single-step accounting rules, returning the final position and
/// cost basis.
pub open spec fn apply_trades(pos: int, cost: int, side: Side, trades: Seq<(int, int)>) -> (
    int,
    int,
)
    decreases trades.len(),
{
    if trades.len() == 0 {
        (pos, cost)
    } else {
        apply_trades(
            next_position(pos, side, trades[0].0),
            next_cost(pos, cost, side, trades[0].0, trades[0].1),
            side,
            trades.drop_first(),
        )
    }
}

/// Sum of the trade sizes of a sequence.
pub open spec fn total_size(trades: Seq<(int, int)>) -> int
    decreases trades.len(),
{
    if trades.len() == 0 {
        0
    } else {
        trades[0].0 + total_size(trades.drop_first())
    }
}

/// Sum of `size * price` over a sequence of trades.
pub open spec fn total_notional(trades: Seq<(int, int)>) -> int
    decreases trades.len(),
{
    if trades.len() == 0 {
        0
    } else {
        trades[0].0 * trades[0].1 + total_notional(trades.drop_first())
    }
}

/// Buys against a non-short position accumulate: the position grows by
/// every size and the cost basis absorbs every trade's notional.
pub proof fn lemma_buys_accumulate(pos: int, cost: int, trades: Seq<(int, int)>)
    requires
        pos >= 0,
        forall|k: int| 0 <= k < trades.len() ==> (#[trigger] trades[k]).0 > 0,
    ensures
        apply_trades(pos, cost, Side::Buy, trades) == (
            pos + total_size(trades),
            cost + total_notional(trades),
        ),
    decreases trades.len(),
{
    if trades.len() > 0 {
        let s = trades[0].0;
        let p = trades[0].1;
        assert(trades[0].0 > 0);
        let np = next_position(pos, Side::Buy, s);
        assert(np == pos + s);
        let nc = next_cost(pos, cost, Side::Buy, s, p);
        assert(nc == cost + s * p);
        let rest = trades.drop_first();
        assert forall|k: int| 0 <= k < rest.len() implies (#[trigger] rest[k]).0 > 0 by {
            assert(rest[k] == trades[k + 1]);
        }
        lemma_buys_accumulate(np, nc, rest);
    }
}

/// Law (monotonic position): for an all-buy sequence of sizes
/// `s1..sn` at any prices, applied to a flat symbol, the final position
/// is `s1 + .. + sn` and the final cost basis is `s1*p1 + .. + sn*pn`;
/// the average price is therefore the size-weighted mean of the trade
/// prices, `total_notional / total_size`.
pub proof fn lemma_monotonic_position(trades: Seq<(int, int)>)
    requires
        forall|k: int| 0 <= k < trades.len() ==> (#[trigger] trades[k]).0 > 0,
    ensures
        apply_trades(0, 0, Side::Buy, trades).0 == total_size(trades),
        apply_trades(0, 0, Side::Buy, trades).1 == total_notional(trades),
{
    lemma_buys_accumulate(0, 0, trades);
}

/// Law (same-direction add): a trade on the side the position is already
/// held on realizes no profit; the cost basis simply absorbs the new
/// notional, which is exactly the size-weighted average-price blend.
pub proof fn lemma_same_direction_add(pos: int, cost: int, side: Side, size: int, price: int)
    requires
        size > 0,
        side is Buy ==> pos >= 0,
        side is Sell ==> pos <= 0,
    ensures
        realized_pnl(pos, cost, side, size, price) == 0,
        next_cost(pos, cost, side, size, price) == (if side is Buy {
            cost + size * price
        } else {
            -(cost + size * price)
        }),
{
}

} // verus!
