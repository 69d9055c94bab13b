//! The per-symbol evaluation state machine.
//!
//! The [`Evaluator`] owns one bounded bar window per symbol, created lazily
//! on the first bar seen for that symbol, plus the active indicator
//! configuration. Each incoming bar is buffered and classified into one
//! [`BarStep`]: the symbol is still accumulating history, the window is
//! shorter than the long period, or an evaluation is due — in which case the
//! step carries everything the indicator service needs. The series the
//! service returns are classified by [`signal_from_series`], and
//! [`decide_order`] turns a signal plus a brokerage account snapshot into at
//! most one order. The network round trips themselves (indicator and
//! brokerage services) happen between these calls, outside this crate.

use crate::buffers::{fifo_push, Bar, Buffer, Trade};
use crate::cross_gc_dc::{bearish_cross, bullish_cross, gc};
use crate::position_sizing::{spec_buy_size, spec_short_size, PositionSizer};
use crate::randomness::gen_range_i64;
use vstd::pervasive::unreached;
use vstd::prelude::*;

verus! {

/// A symbol's window must hold this many bars before evaluation steps
/// begin; once crossed, the symbol stays active for the life of the
/// process.
pub const ACTIVATION_THRESHOLD: usize = 20;

/// The short period used when no configuration has been installed.
pub const DEFAULT_SHORT_RANGE: usize = 5;

/// A simple-moving-average crossover configuration: the long and the short
/// averaging period, in bars.
#[derive(Clone, Copy, Debug, PartialEq, Eq, Structural)]
pub struct SMAConfig {
    pub long_range: usize,
    pub short_range: usize,
}

impl SMAConfig {
    /// Invariant: the short period is at least 2 and strictly shorter than
    /// the long period.
    pub open spec fn wf(self) -> bool {
        2 <= self.short_range < self.long_range
    }
}

/// A moving-average crossover signal.
#[derive(Clone, Copy, Debug, PartialEq, Eq, Structural)]
pub enum Signal {
    Bullish,
    Bearish,
}

/// One order to hand to the brokerage: a buy, or a sell that either
/// liquidates a long position or increases a short one.
#[derive(Clone, Copy, Debug, PartialEq, Eq, Structural)]
pub enum OrderIntent {
    Buy { count: i64, price_per_share: i64 },
    Sell { count: i64, price_per_share: i64 },
}

/// Account state fetched from the brokerage for one evaluation step; it is
/// never cached beyond the step.
#[derive(Clone, Copy, Debug, PartialEq, Eq, Structural)]
pub struct AccountSnapshot {
    /// Total portfolio value (cash plus positions).
    pub portfolio_value: i64,
    /// Cash available for new buys.
    pub cash_available: i64,
    /// Signed position in the evaluated symbol; negative means short.
    pub position: i64,
}

/// Everything the indicator service needs for one evaluation step: the
/// window's closing prices and the two averaging periods, plus the price at
/// which a resulting order would be submitted.
pub struct EvalRequest {
    pub symbol: String,
    pub closes: Vec<i64>,
    pub long_period: usize,
    pub short_period: usize,
    pub price: i64,
}

/// The outcome of buffering one bar.
pub enum BarStep {
    /// The symbol's window is still shorter than the activation threshold.
    Accumulating,
    /// The window is active but shorter than the long period; the step is
    /// skipped without error.
    InsufficientHistory,
    /// An evaluation is due; the request carries the series to send out.
    Evaluate(EvalRequest),
}

/// Index of the first buffer holding the given symbol, if any.
pub open spec fn find_sym(bufs: Seq<Buffer>, sym: Seq<char>) -> Option<int>
    decreases bufs.len(),
{
    if bufs.len() == 0 {
        None
    } else if bufs[0].spec_symbol() == sym {
        Some(0)
    } else {
        match find_sym(bufs.drop_first(), sym) {
            Some(i) => Some(i + 1),
            None => None,
        }
    }
}

/// What `find_sym` returns: the first index holding the symbol, or nothing
/// when no buffer holds it.
pub proof fn lemma_find_sym_props(bufs: Seq<Buffer>, sym: Seq<char>)
    ensures
        match find_sym(bufs, sym) {
            Some(i) => 0 <= i < bufs.len() && bufs[i].spec_symbol() == sym && (forall|j: int|
                0 <= j < i ==> bufs[j].spec_symbol() != sym),
            None => forall|j: int| 0 <= j < bufs.len() ==> bufs[j].spec_symbol() != sym,
        },
    decreases bufs.len(),
{
    if bufs.len() > 0 && bufs[0].spec_symbol() != sym {
        let rest = bufs.drop_first();
        lemma_find_sym_props(rest, sym);
        match find_sym(rest, sym) {
            Some(i) => {
                assert(bufs[i + 1] == rest[i]);
                assert forall|j: int| 0 <= j < i + 1 implies bufs[j].spec_symbol() != sym by {
                    if j >= 1 {
                        assert(bufs[j] == rest[j - 1]);
                    }
                }
            },
            None => {
                assert forall|j: int| 0 <= j < bufs.len() implies bufs[j].spec_symbol() != sym by {
                    if j >= 1 {
                        assert(bufs[j] == rest[j - 1]);
                    }
                }
            },
        }
    }
}

/// The first match determines `find_sym`.
pub proof fn lemma_find_sym_first(bufs: Seq<Buffer>, sym: Seq<char>, i: int)
    requires
        0 <= i < bufs.len(),
        bufs[i].spec_symbol() == sym,
        forall|j: int| 0 <= j < i ==> bufs[j].spec_symbol() != sym,
    ensures
        find_sym(bufs, sym) == Some(i),
    decreases bufs.len(),
{
    if i > 0 {
        lemma_find_sym_first(bufs.drop_first(), sym, i - 1);
    }
}

/// The bar window of `bar`'s symbol after the bar has been buffered, given
/// the buffers as they were before.
pub open spec fn bars_after(pre: Seq<Buffer>, cap: nat, bar: Bar) -> Seq<Bar> {
    match find_sym(pre, bar.symbol@) {
        Some(i) => fifo_push(pre[i].bars_seq(), cap, bar),
        None => seq![bar],
    }
}

/// How buffering one bar changes the buffer list: the symbol's window gains
/// the bar (evicting the oldest at capacity) and every other buffer is
/// untouched; a symbol seen for the first time gets a fresh buffer at the
/// end.
pub open spec fn buffers_updated_bar(pre: Seq<Buffer>, post: Seq<Buffer>, cap: nat, bar: Bar) -> bool {
    match find_sym(pre, bar.symbol@) {
        Some(i) => {
            &&& post.len() == pre.len()
            &&& post[i].spec_symbol() == pre[i].spec_symbol()
            &&& post[i].capacity() == pre[i].capacity()
            &&& post[i].bars_seq() == fifo_push(pre[i].bars_seq(), cap, bar)
            &&& post[i].trades_seq() == pre[i].trades_seq()
            &&& forall|j: int| 0 <= j < pre.len() && j != i ==> post[j] == pre[j]
        },
        None => {
            &&& post.len() == pre.len() + 1
            &&& (forall|j: int| 0 <= j < pre.len() ==> post[j] == pre[j])
            &&& post.last().spec_symbol() == bar.symbol@
            &&& post.last().capacity() == cap
            &&& post.last().bars_seq() == seq![bar]
            &&& post.last().trades_seq() == Seq::<Trade>::empty()
        },
    }
}

/// How buffering one trade changes the buffer list; the mirror image of
/// [`buffers_updated_bar`].
pub open spec fn buffers_updated_trade(
    pre: Seq<Buffer>,
    post: Seq<Buffer>,
    cap: nat,
    t: Trade,
) -> bool {
    match find_sym(pre, t.symbol@) {
        Some(i) => {
            &&& post.len() == pre.len()
            &&& post[i].spec_symbol() == pre[i].spec_symbol()
            &&& post[i].capacity() == pre[i].capacity()
            &&& post[i].trades_seq() == fifo_push(pre[i].trades_seq(), cap, t)
            &&& post[i].bars_seq() == pre[i].bars_seq()
            &&& forall|j: int| 0 <= j < pre.len() && j != i ==> post[j] == pre[j]
        },
        None => {
            &&& post.len() == pre.len() + 1
            &&& (forall|j: int| 0 <= j < pre.len() ==> post[j] == pre[j])
            &&& post.last().spec_symbol() == t.symbol@
            &&& post.last().capacity() == cap
            &&& post.last().trades_seq() == seq![t]
            &&& post.last().bars_seq() == Seq::<Bar>::empty()
        },
    }
}

/// The long period of one evaluation step: from the active configuration,
/// or the full window length when none is installed.
pub open spec fn resolved_long(config: Option<SMAConfig>, window: int) -> int {
    match config {
        Some(c) => c.long_range as int,
        None => window,
    }
}

/// The short period of one evaluation step: from the active configuration,
/// or the default when none is installed.
pub open spec fn resolved_short(config: Option<SMAConfig>) -> int {
    match config {
        Some(c) => c.short_range as int,
        None => DEFAULT_SHORT_RANGE as int,
    }
}

/// The per-symbol evaluation state machine: one bounded window per
/// actively-seen symbol and the active indicator configuration.
pub struct Evaluator {
    buffers: Vec<Buffer>,
    config: Option<SMAConfig>,
    capacity: usize,
}

impl Evaluator {
    /// The per-symbol buffers, in order of first sighting.
    pub closed spec fn spec_buffers(self) -> Seq<Buffer> {
        self.buffers@
    }

    /// The active indicator configuration, if one is installed.
    pub closed spec fn spec_config(self) -> Option<SMAConfig> {
        self.config
    }

    /// The capacity every per-symbol window is created with.
    pub closed spec fn spec_capacity(self) -> nat {
        self.capacity as nat
    }

    /// Invariant: positive capacity, all windows well-formed at that
    /// capacity, one window per symbol, and any installed configuration
    /// well-formed.
    pub open spec fn wf(self) -> bool {
        &&& 1 <= self.spec_capacity()
        &&& forall|i: int|
            0 <= i < self.spec_buffers().len() ==> (#[trigger] self.spec_buffers()[i]).wf()
        &&& forall|i: int|
            0 <= i < self.spec_buffers().len() ==> (#[trigger] self.spec_buffers()[i]).capacity()
                == self.spec_capacity()
        &&& forall|i: int, j: int|
            0 <= i < j < self.spec_buffers().len() ==> self.spec_buffers()[i].spec_symbol()
                != self.spec_buffers()[j].spec_symbol()
        &&& self.spec_config() matches Some(c) ==> c.wf()
    }

    /// A fresh evaluator with no symbols seen and no configuration.
    pub fn new(capacity: usize) -> (r: Evaluator)
        requires
            1 <= capacity,
        ensures
            r.wf(),
            r.spec_buffers() == Seq::<Buffer>::empty(),
            r.spec_config() is None,
            r.spec_capacity() == capacity as nat,
    {
        Evaluator { buffers: Vec::new(), config: None, capacity }
    }

    /// Install a configuration for the coming evaluation episode.
    pub fn set_config(&mut self, config: SMAConfig)
        requires
            old(self).wf(),
            config.wf(),
        ensures
            final(self).wf(),
            final(self).spec_config() == Some(config),
            final(self).spec_buffers() == old(self).spec_buffers(),
            final(self).spec_capacity() == old(self).spec_capacity(),
    {
        self.config = Some(config);
        proof {
            assert(self.spec_buffers() == old(self).spec_buffers());
            assert(forall|i: int|
                0 <= i < self.spec_buffers().len() ==> (#[trigger] self.spec_buffers()[i])
                    == old(self).spec_buffers()[i]);
        }
    }

    /// Drop all per-symbol windows, as done between search episodes; they
    /// are recreated lazily on the next bar.
    pub fn clear_buffers(&mut self)
        requires
            old(self).wf(),
        ensures
            final(self).wf(),
            final(self).spec_buffers() == Seq::<Buffer>::empty(),
            final(self).spec_config() == old(self).spec_config(),
            final(self).spec_capacity() == old(self).spec_capacity(),
    {
        self.buffers.clear();
    }

    /// Index of the buffer for the given symbol, if one exists.
    fn buffer_pos(&self, symbol: &String) -> (r: Option<usize>)
        ensures
            r matches Some(i) ==> find_sym(self.buffers@, symbol@) == Some(i as int),
            r is None ==> find_sym(self.buffers@, symbol@) is None,
    {
        let mut i: usize = 0;
        while i < self.buffers.len()
            invariant
                i <= self.buffers@.len(),
                forall|j: int| 0 <= j < i ==> self.buffers@[j].spec_symbol() != symbol@,
            decreases self.buffers@.len() - i,
        {
            if self.buffers[i].has_symbol(symbol) {
                proof {
                    lemma_find_sym_first(self.buffers@, symbol@, i as int);
                }
                return Some(i);
            }
            i += 1;
        }
        proof {
            lemma_find_sym_props(self.buffers@, symbol@);
        }
        None
    }

    /// The buffer for the given symbol, if the symbol has been seen.
    pub fn get_buffer(&self, symbol: &String) -> (r: Option<&Buffer>)
        ensures
            match find_sym(self.spec_buffers(), symbol@) {
                Some(i) => r matches Some(b) && *b == self.spec_buffers()[i],
                None => r is None,
            },
    {
        match self.buffer_pos(symbol) {
            Some(i) => {
                proof {
                    lemma_find_sym_props(self.buffers@, symbol@);
                }
                Some(&self.buffers[i])
            },
            None => None,
        }
    }

    /// Buffer one bar and classify the step it triggers. While the
    /// symbol's window is below the activation threshold the symbol is
    /// accumulating; an active window shorter than the long period skips
    /// the step; otherwise the step carries the window's closing prices and
    /// the resolved periods for the indicator service.
    pub fn eval_bar(&mut self, bar: Bar) -> (step: BarStep)
        requires
            old(self).wf(),
        ensures
            final(self).wf(),
            final(self).spec_config() == old(self).spec_config(),
            final(self).spec_capacity() == old(self).spec_capacity(),
            buffers_updated_bar(
                old(self).spec_buffers(),
                final(self).spec_buffers(),
                old(self).spec_capacity(),
                bar,
            ),
            (step is Accumulating) <==> bars_after(
                old(self).spec_buffers(),
                old(self).spec_capacity(),
                bar,
            ).len() < ACTIVATION_THRESHOLD,
            (step is InsufficientHistory) <==> ({
                let n = bars_after(old(self).spec_buffers(), old(self).spec_capacity(), bar).len();
                ACTIVATION_THRESHOLD <= n && n < resolved_long(old(self).spec_config(), n as int)
            }),
            (step is Evaluate) <==> ({
                let n = bars_after(old(self).spec_buffers(), old(self).spec_capacity(), bar).len();
                ACTIVATION_THRESHOLD <= n && n >= resolved_long(old(self).spec_config(), n as int)
            }),
            step matches BarStep::Evaluate(req) ==> ({
                let w = bars_after(old(self).spec_buffers(), old(self).spec_capacity(), bar);
                &&& req.symbol@ == bar.symbol@
                &&& req.long_period as int == resolved_long(old(self).spec_config(), w.len() as int)
                &&& req.short_period as int == resolved_short(old(self).spec_config())
                &&& req.price == bar.close
                &&& req.closes@ == w.map_values(|b: Bar| b.close)
            }),
    {
        let symbol = bar.symbol.clone();
        let price = bar.close;
        let pos = self.buffer_pos(&bar.symbol);
        proof {
            lemma_find_sym_props(self.buffers@, bar.symbol@);
        }
        let ghost pre = self.buffers@;
        let ghost cap = old(self).spec_capacity();
        proof {
            assert(pre == old(self).spec_buffers());
            assert(old(self).wf());
            assert(forall|k: int|
                0 <= k < pre.len() ==> (#[trigger] pre[k]).wf() && pre[k].capacity() == cap);
        }
        let idx: usize;
        match pos {
            Some(i) => {
                idx = i;
            },
            None => {
                idx = self.buffers.len();
                let fresh = Buffer::new(bar.symbol.clone(), self.capacity);
                self.buffers.push(fresh);
            },
        }
        let ghost mid = self.buffers@;
        proof {
            match find_sym(pre, bar.symbol@) {
                Some(i) => {
                    assert(mid == pre);
                    assert(pre[i].wf() && pre[i].capacity() == cap);
                },
                None => {},
            }
            assert(mid[idx as int].wf());
            assert(mid[idx as int].capacity() == cap);
        }
        let buf: &mut Buffer = &mut self.buffers[idx];
        buf.add_bar(bar);
        proof {
            let post = self.buffers@;
            let nb = post[idx as int];
            assert(post == mid.update(idx as int, nb));
            match find_sym(pre, bar.symbol@) {
                Some(i) => {
                    assert(nb.bars_seq() == fifo_push(pre[i].bars_seq(), cap, bar));
                    assert forall|k: int|
                        0 <= k < post.len() implies (#[trigger] post[k]).spec_symbol()
                        == pre[k].spec_symbol() && post[k].wf() && post[k].capacity() == cap by {
                        if k != i {
                            assert(post[k] == pre[k]);
                        }
                    }
                },
                None => {
                    assert(idx as int == pre.len());
                    assert(mid[idx as int].bars_seq() == Seq::<Bar>::empty());
                    assert(nb.bars_seq() == fifo_push(Seq::<Bar>::empty(), cap, bar));
                    assert(nb.bars_seq() =~= seq![bar]);
                    assert(post.len() == pre.len() + 1);
                    assert forall|k: int| 0 <= k < pre.len() implies post[k] == pre[k] by {
                        assert(mid[k] == pre[k]);
                    }
                    assert(post.last() == nb);
                    assert(nb.spec_symbol() == bar.symbol@);
                    assert forall|k: int, l: int|
                        0 <= k < l < post.len() implies post[k].spec_symbol()
                        != post[l].spec_symbol() by {
                        assert(post[k] == pre[k]);
                        if l < pre.len() {
                            assert(post[l] == pre[l]);
                        } else {
                            assert(post[l] == nb);
                            assert(pre[k].spec_symbol() != bar.symbol@);
                        }
                    }
                },
            }
            assert(self.wf());
            assert(buffers_updated_bar(pre, post, cap, bar));
            assert(post[idx as int].bars_seq() == bars_after(pre, cap, bar));
        }
        let n = self.buffers[idx].bar_count();
        if n < ACTIVATION_THRESHOLD {
            return BarStep::Accumulating;
        }
        let long_period: usize;
        let short_period: usize;
        match &self.config {
            Some(c) => {
                long_period = c.long_range;
                short_period = c.short_range;
            },
            None => {
                long_period = n;
                short_period = DEFAULT_SHORT_RANGE;
            },
        }
        if n < long_period {
            return BarStep::InsufficientHistory;
        }
        let closes = match self.buffers[idx].get_bars() {
            Some(v) => closes_of(v),
            None => unreached(),
        };
        BarStep::Evaluate(
            EvalRequest { symbol, closes, long_period, short_period, price },
        )
    }

    /// Buffer one trade for its symbol. Trades are kept for inspection but
    /// no evaluation step acts on them.
    pub fn eval_trade(&mut self, t: Trade)
        requires
            old(self).wf(),
        ensures
            final(self).wf(),
            final(self).spec_config() == old(self).spec_config(),
            final(self).spec_capacity() == old(self).spec_capacity(),
            buffers_updated_trade(
                old(self).spec_buffers(),
                final(self).spec_buffers(),
                old(self).spec_capacity(),
                t,
            ),
    {
        let pos = self.buffer_pos(&t.symbol);
        proof {
            lemma_find_sym_props(self.buffers@, t.symbol@);
        }
        let ghost pre = self.buffers@;
        let ghost cap = old(self).spec_capacity();
        proof {
            assert(pre == old(self).spec_buffers());
            assert(forall|k: int|
                0 <= k < pre.len() ==> (#[trigger] pre[k]).wf() && pre[k].capacity() == cap);
        }
        let idx: usize;
        match pos {
            Some(i) => {
                idx = i;
            },
            None => {
                idx = self.buffers.len();
                let fresh = Buffer::new(t.symbol.clone(), self.capacity);
                self.buffers.push(fresh);
            },
        }
        let ghost mid = self.buffers@;
        proof {
            match find_sym(pre, t.symbol@) {
                Some(i) => {
                    assert(mid == pre);
                    assert(pre[i].wf() && pre[i].capacity() == cap);
                },
                None => {},
            }
            assert(mid[idx as int].wf());
            assert(mid[idx as int].capacity() == cap);
        }
        let buf: &mut Buffer = &mut self.buffers[idx];
        buf.add_trade(t);
        proof {
            let post = self.buffers@;
            let nb = post[idx as int];
            assert(post == mid.update(idx as int, nb));
            match find_sym(pre, t.symbol@) {
                Some(i) => {
                    assert(nb.trades_seq() == fifo_push(pre[i].trades_seq(), cap, t));
                    assert forall|k: int|
                        0 <= k < post.len() implies (#[trigger] post[k]).spec_symbol()
                        == pre[k].spec_symbol() && post[k].wf() && post[k].capacity() == cap by {
                        if k != i {
                            assert(post[k] == pre[k]);
                        }
                    }
                },
                None => {
                    assert(idx as int == pre.len());
                    assert(mid[idx as int].trades_seq() == Seq::<Trade>::empty());
                    assert(nb.trades_seq() == fifo_push(Seq::<Trade>::empty(), cap, t));
                    assert(nb.trades_seq() =~= seq![t]);
                    assert(post.len() == pre.len() + 1);
                    assert forall|k: int| 0 <= k < pre.len() implies post[k] == pre[k] by {
                        assert(mid[k] == pre[k]);
                    }
                    assert(post.last() == nb);
                    assert(nb.spec_symbol() == t.symbol@);
                    assert forall|k: int, l: int|
                        0 <= k < l < post.len() implies post[k].spec_symbol()
                        != post[l].spec_symbol() by {
                        assert(post[k] == pre[k]);
                        if l < pre.len() {
                            assert(post[l] == pre[l]);
                        } else {
                            assert(post[l] == nb);
                            assert(pre[k].spec_symbol() != t.symbol@);
                        }
                    }
                },
            }
            assert(self.wf());
            assert(buffers_updated_trade(pre, post, cap, t));
        }
    }
}

/// The closing prices of a bar sequence, oldest first.
pub fn closes_of(bars: &Vec<Bar>) -> (v: Vec<i64>)
    ensures
        v@ == bars@.map_values(|b: Bar| b.close),
{
    let mut v: Vec<i64> = Vec::new();
    let mut i: usize = 0;
    while i < bars.len()
        invariant
            i <= bars@.len(),
            v@ == bars@.take(i as int).map_values(|b: Bar| b.close),
        decreases bars@.len() - i,
    {
        v.push(bars[i].close);
        proof {
            assert(bars@.take((i + 1) as int).map_values(|b: Bar| b.close) =~= bars@.take(
                i as int,
            ).map_values(|b: Bar| b.close).push(bars@[i as int].close));
        }
        i += 1;
    }
    proof {
        assert(bars@.take(bars@.len() as int) =~= bars@);
    }
    v
}

/// Classify the crossover from two computed series, comparing their last
/// two points. Series shorter than two points yield no signal.
pub fn signal_from_series(long_series: &Vec<i64>, short_series: &Vec<i64>) -> (r: Option<Signal>)
    ensures
        long_series@.len() < 2 || short_series@.len() < 2 ==> r is None,
        long_series@.len() >= 2 && short_series@.len() >= 2 ==> ({
            let high = (
                long_series@[long_series@.len() - 2],
                long_series@[long_series@.len() - 1],
            );
            let low = (
                short_series@[short_series@.len() - 2],
                short_series@[short_series@.len() - 1],
            );
            &&& (r == Some(Signal::Bullish) <==> bullish_cross(high, low))
            &&& (r == Some(Signal::Bearish) <==> bearish_cross(high, low))
            &&& (r is None <==> !bullish_cross(high, low) && !bearish_cross(high, low))
        }),
{
    let ln = long_series.len();
    let sn = short_series.len();
    if ln < 2 || sn < 2 {
        return None;
    }
    let high = (long_series[ln - 2], long_series[ln - 1]);
    let low = (short_series[sn - 2], short_series[sn - 1]);
    match gc(high, low) {
        Some(true) => Some(Signal::Bullish),
        Some(false) => Some(Signal::Bearish),
        None => None,
    }
}

/// Turn a signal plus the account snapshot for this symbol into at most one
/// order, sized under the configured risk limits: a bullish signal buys
/// what the limits allow; a bearish signal liquidates the full long
/// position, or — with no long position — increases the short within the
/// limits.
pub fn decide_order(
    sizer: &PositionSizer,
    signal: Signal,
    price: i64,
    acct: AccountSnapshot,
) -> (r: Option<OrderIntent>)
    requires
        sizer.wf(),
        -0x8000_0000_0000_0000 <= (acct.position as int) * (price as int) < 0x8000_0000_0000_0000,
    ensures
        signal is Bullish ==> ({
            let n = spec_buy_size(
                sizer.max_trade_percent as int,
                sizer.max_position_percent as int,
                price as int,
                acct.portfolio_value as int,
                (acct.position as int) * (price as int),
                acct.cash_available as int,
            );
            r == if n > 0 {
                Some(OrderIntent::Buy { count: n as i64, price_per_share: price })
            } else {
                None::<OrderIntent>
            }
        }),
        signal is Bearish && acct.position > 0 ==> r == Some(
            OrderIntent::Sell { count: acct.position, price_per_share: price },
        ),
        signal is Bearish && acct.position <= 0 ==> ({
            let n = spec_short_size(
                sizer.max_trade_percent as int,
                sizer.max_position_percent as int,
                price as int,
                acct.portfolio_value as int,
                acct.position as int,
            );
            r == if n > 0 {
                Some(OrderIntent::Sell { count: n as i64, price_per_share: price })
            } else {
                None::<OrderIntent>
            }
        }),
{
    match signal {
        Signal::Bullish => {
            let position_value: i64 = ((acct.position as i128) * (price as i128)) as i64;
            let n = sizer.calculate_buy_size(
                price,
                acct.portfolio_value,
                position_value,
                acct.cash_available,
            );
            if n > 0 {
                Some(OrderIntent::Buy { count: n, price_per_share: price })
            } else {
                None
            }
        },
        Signal::Bearish => {
            if acct.position > 0 {
                let n = sizer.calculate_sell_size(acct.position, price, acct.portfolio_value);
                Some(OrderIntent::Sell { count: n, price_per_share: price })
            } else {
                let n = sizer.calculate_short_size(price, acct.portfolio_value, acct.position);
                if n > 0 {
                    Some(OrderIntent::Sell { count: n, price_per_share: price })
                } else {
                    None
                }
            }
        },
    }
}

/// Draw a random sell quote: a price between 100 and 200 and a share count
/// between 1 and 10.
pub fn gen_sell() -> (r: (i64, i64))
    ensures
        100 <= r.0 <= 200,
        1 <= r.1 <= 10,
{
    let price = gen_range_i64(100, 200);
    let count = gen_range_i64(1, 10);
    (price, count)
}

/// Sample a random configuration for one search episode: the long period
/// from [10, 50] and the short period from [2, long - 5], which guarantees
/// a well-formed configuration.
pub fn sample_config() -> (c: SMAConfig)
    ensures
        c.wf(),
        10 <= c.long_range <= 50,
        2 <= c.short_range <= c.long_range - 5,
{
    let long = gen_range_i64(10, 50);
    let short = gen_range_i64(2, long - 5);
    SMAConfig { long_range: long as usize, short_range: short as usize }
}

} // verus!
