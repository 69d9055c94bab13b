//! Bounded per-symbol FIFO windows of recent market events.
//!
//! A [`Buffer`] keeps the most recent bars and trades for one symbol, up to a
//! fixed capacity chosen at construction: adding an element at capacity
//! evicts the oldest one first (strict FIFO). [`fifo_push`] is the
//! mathematical model of one insertion and [`fifo_push_all`] of a whole
//! insertion sequence; the lemmas at the end state the bounded-window laws.

use vstd::prelude::*;

verus! {

/// One OHLCV summary for a symbol over a time interval. Prices and volume
/// are integer-valued (a fixed currency unit chosen by the caller, e.g.
/// cents); the timestamp is an epoch count.
#[derive(Debug, Clone)]
pub struct Bar {
    pub symbol: String,
    pub timestamp: i64,
    pub open: i64,
    pub high: i64,
    pub low: i64,
    pub close: i64,
    pub volume: i64,
}

/// One executed trade for a symbol.
#[derive(Debug, Clone)]
pub struct Trade {
    pub symbol: String,
    pub timestamp: i64,
    pub trade_price: i64,
}

/// One FIFO insertion into a window bounded by `cap`: the oldest element is
/// dropped first when the window is full.
pub open spec fn fifo_push<T>(s: Seq<T>, cap: nat, x: T) -> Seq<T> {
    if s.len() < cap {
        s.push(x)
    } else {
        s.drop_first().push(x)
    }
}

/// A whole sequence of FIFO insertions, oldest first.
pub open spec fn fifo_push_all<T>(s: Seq<T>, cap: nat, adds: Seq<T>) -> Seq<T>
    decreases adds.len(),
{
    if adds.len() == 0 {
        s
    } else {
        fifo_push_all(fifo_push(s, cap, adds.first()), cap, adds.drop_first())
    }
}

/// A fixed-capacity FIFO window of the bars and trades last seen for one
/// symbol.
#[derive(Debug)]
pub struct Buffer {
    symbol: String,
    size: usize,
    trades: Vec<Trade>,
    bars: Vec<Bar>,
}

impl Buffer {
    /// The symbol this buffer belongs to.
    pub closed spec fn spec_symbol(self) -> Seq<char> {
        self.symbol@
    }

    /// The fixed capacity chosen at construction.
    pub closed spec fn capacity(self) -> nat {
        self.size as nat
    }

    /// The buffered bars, oldest first.
    pub closed spec fn bars_seq(self) -> Seq<Bar> {
        self.bars@
    }

    /// The buffered trades, oldest first.
    pub closed spec fn trades_seq(self) -> Seq<Trade> {
        self.trades@
    }

    /// Invariant: the capacity is positive and neither window has grown
    /// beyond it.
    pub open spec fn wf(self) -> bool {
        &&& 1 <= self.capacity()
        &&& self.bars_seq().len() <= self.capacity()
        &&& self.trades_seq().len() <= self.capacity()
    }

    /// Create a new buffer for a specific symbol with a maximum size.
    pub fn new(symbol: String, size: usize) -> (r: Buffer)
        requires
            1 <= size,
        ensures
            r.wf(),
            r.spec_symbol() == symbol@,
            r.capacity() == size as nat,
            r.bars_seq() == Seq::<Bar>::empty(),
            r.trades_seq() == Seq::<Trade>::empty(),
    {
        Buffer { symbol, size, trades: Vec::new(), bars: Vec::new() }
    }

    /// Add a trade to the buffer, removing the oldest if the size limit is
    /// reached.
    pub fn add_trade(&mut self, trade: Trade)
        requires
            old(self).wf(),
        ensures
            final(self).wf(),
            final(self).trades_seq() == fifo_push(
                old(self).trades_seq(),
                old(self).capacity(),
                trade,
            ),
            final(self).spec_symbol() == old(self).spec_symbol(),
            final(self).capacity() == old(self).capacity(),
            final(self).bars_seq() == old(self).bars_seq(),
    {
        if self.trades.len() >= self.size {
            self.trades.remove(0);
            proof {
                assert(self.trades@ =~= old(self).trades@.drop_first());
            }
        }
        self.trades.push(trade);
    }

    /// Add a bar to the buffer, removing the oldest if the size limit is
    /// reached.
    pub fn add_bar(&mut self, bar: Bar)
        requires
            old(self).wf(),
        ensures
            final(self).wf(),
            final(self).bars_seq() == fifo_push(old(self).bars_seq(), old(self).capacity(), bar),
            final(self).spec_symbol() == old(self).spec_symbol(),
            final(self).capacity() == old(self).capacity(),
            final(self).trades_seq() == old(self).trades_seq(),
    {
        if self.bars.len() >= self.size {
            self.bars.remove(0);
            proof {
                assert(self.bars@ =~= old(self).bars@.drop_first());
            }
        }
        self.bars.push(bar);
    }

    /// Get a reference to the trades.
    pub fn get_trades(&self) -> (r: Option<&Vec<Trade>>)
        ensures
            r matches Some(v) && v@ == self.trades_seq(),
    {
        Some(&self.trades)
    }

    /// Get a reference to the bars.
    pub fn get_bars(&self) -> (r: Option<&Vec<Bar>>)
        ensures
            r matches Some(v) && v@ == self.bars_seq(),
    {
        Some(&self.bars)
    }

    /// Whether this buffer belongs to the given symbol.
    pub fn has_symbol(&self, symbol: &String) -> (r: bool)
        ensures
            r == (self.spec_symbol() == symbol@),
    {
        self.symbol == *symbol
    }

    /// Get the symbol.
    pub fn symbol(&self) -> (r: &str)
        ensures
            r@ == self.spec_symbol(),
    {
        self.symbol.as_str()
    }

    /// Get the current number of trades stored.
    pub fn trade_count(&self) -> (r: usize)
        ensures
            r == self.trades_seq().len(),
    {
        self.trades.len()
    }

    /// Get the current number of bars stored.
    pub fn bar_count(&self) -> (r: usize)
        ensures
            r == self.bars_seq().len(),
    {
        self.bars.len()
    }
}

/// Capacity is idempotent: one insertion into a window that satisfies the
/// bound never grows it beyond the capacity, whatever is inserted.
pub proof fn lemma_capacity_idempotent<T>(s: Seq<T>, cap: nat, x: T)
    requires
        1 <= cap,
        s.len() <= cap,
    ensures
        fifo_push(s, cap, x).len() <= cap,
{
}

/// Buffer bound: folding any insertion sequence over a window that
/// satisfies the bound yields exactly the last `cap` insertions (preceded by
/// the surviving prefix while the window is still filling), in insertion
/// order.
pub proof fn lemma_buffer_bound<T>(s: Seq<T>, cap: nat, adds: Seq<T>)
    requires
        1 <= cap,
        s.len() <= cap,
    ensures
        fifo_push_all(s, cap, adds).len() == if s.len() + adds.len() <= cap {
            (s.len() + adds.len()) as int
        } else {
            cap as int
        },
        s.len() + adds.len() <= cap ==> fifo_push_all(s, cap, adds) == s + adds,
        s.len() + adds.len() > cap ==> fifo_push_all(s, cap, adds) == (s + adds).subrange(
            s.len() + adds.len() - cap,
            (s.len() + adds.len()) as int,
        ),
    decreases adds.len(),
{
    if adds.len() == 0 {
        if s.len() + adds.len() <= cap {
            assert(fifo_push_all(s, cap, adds) =~= s + adds);
        } else {
            assert(fifo_push_all(s, cap, adds) =~= (s + adds).subrange(
                s.len() + adds.len() - cap,
                (s.len() + adds.len()) as int,
            ));
        }
    } else {
        let s1 = fifo_push(s, cap, adds.first());
        let rest = adds.drop_first();
        lemma_buffer_bound(s1, cap, rest);
        if s.len() < cap {
            assert(s1 + rest =~= s + adds);
        } else {
            assert(s1 + rest =~= (s + adds).subrange(1, (s.len() + adds.len()) as int));
        }
        if s1.len() + rest.len() <= cap {
            assert(fifo_push_all(s, cap, adds) == s1 + rest);
            if s.len() + adds.len() > cap {
                // only possible when the window was exactly full and one
                // element was evicted for the one inserted
                assert(s.len() == cap && adds.len() == 1);
                assert(s1 + rest =~= (s + adds).subrange(
                    s.len() + adds.len() - cap,
                    (s.len() + adds.len()) as int,
                ));
            }
        } else {
            assert(fifo_push_all(s, cap, adds) == (s1 + rest).subrange(
                s1.len() + rest.len() - cap,
                (s1.len() + rest.len()) as int,
            ));
            assert((s1 + rest).subrange(s1.len() + rest.len() - cap, (s1.len() + rest.len()) as int)
                =~= (s + adds).subrange(s.len() + adds.len() - cap, (s.len() + adds.len()) as int));
        }
    }
}

/// Buffer bound for a fresh window: after `cap` or more insertions into an
/// initially empty buffer the window holds exactly the last `cap` inserted
/// elements, in insertion order.
pub proof fn lemma_buffer_window<T>(cap: nat, adds: Seq<T>)
    requires
        1 <= cap,
        adds.len() >= cap,
    ensures
        fifo_push_all(Seq::<T>::empty(), cap, adds).len() == cap,
        fifo_push_all(Seq::<T>::empty(), cap, adds) == adds.subrange(
            adds.len() - cap,
            adds.len() as int,
        ),
{
    lemma_buffer_bound(Seq::<T>::empty(), cap, adds);
    if adds.len() > cap {
        assert((Seq::<T>::empty() + adds).subrange(adds.len() - cap, adds.len() as int)
            =~= adds.subrange(adds.len() - cap, adds.len() as int));
    } else {
        assert(Seq::<T>::empty() + adds =~= adds.subrange(adds.len() - cap, adds.len() as int));
    }
}

} // verus!
