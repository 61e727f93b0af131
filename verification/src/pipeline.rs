use crate::audit::{trades_volume, AuditActor, AuditSummary};
use crate::common::{order_wf, NewOrder, Side, Trade, ValidatedOrder};
use crate::engine::{
    book_wf, engine_step_book, engine_step_trade, find_cross, lemma_find_cross_from_props,
    lemma_step_wf, trade_of, MatchingEngineActor,
};
use crate::gateway::{accepts, validated_of, GatewayActor};
use vstd::prelude::*;

verus! {

// ---------------------------------------------------------------------------
// The gateway over a whole submission sequence
// ---------------------------------------------------------------------------
/// How many of the submissions in `orders` the gateway accepts.
pub open spec fn accepted_count(orders: Seq<NewOrder>) -> int
    decreases orders.len(),
{
    if orders.len() == 0 {
        0
    } else {
        accepted_count(orders.drop_last()) + if accepts(orders.last()) {
            1int
        } else {
            0int
        }
    }
}

/// How many of the submissions in `orders` the gateway rejects: those with a
/// non-positive quantity or price.
pub open spec fn rejected_count(orders: Seq<NewOrder>) -> int
    decreases orders.len(),
{
    if orders.len() == 0 {
        0
    } else {
        rejected_count(orders.drop_last()) + if accepts(orders.last()) {
            0int
        } else {
            1int
        }
    }
}

/// Total quantity across the submissions the gateway accepts.
pub open spec fn accepted_qty(orders: Seq<NewOrder>) -> int
    decreases orders.len(),
{
    if orders.len() == 0 {
        0
    } else {
        accepted_qty(orders.drop_last()) + if accepts(orders.last()) {
            orders.last().qty as int
        } else {
            0int
        }
    }
}

/// The validated orders the gateway forwards to the engine for the
/// submissions in `orders`, in order, with identifiers minted from 1 up.
pub open spec fn gateway_output(orders: Seq<NewOrder>) -> Seq<ValidatedOrder>
    decreases orders.len(),
{
    if orders.len() == 0 {
        Seq::empty()
    } else {
        let prefix = gateway_output(orders.drop_last());
        if accepts(orders.last()) {
            prefix.push(
                validated_of(orders.last(), (accepted_count(orders.drop_last()) + 1) as i32),
            )
        } else {
            prefix
        }
    }
}

/// The gateway's counts are non-negative, bounded by the submission count,
/// and partition it; the forwarded orders are exactly the accepted ones.
pub proof fn lemma_counts(orders: Seq<NewOrder>)
    ensures
        0 <= accepted_count(orders) <= orders.len(),
        0 <= rejected_count(orders) <= orders.len(),
        accepted_count(orders) + rejected_count(orders) == orders.len(),
        gateway_output(orders).len() == accepted_count(orders),
        0 <= accepted_qty(orders),
    decreases orders.len(),
{
    if orders.len() > 0 {
        lemma_counts(orders.drop_last());
    }
}

/// ID monotonicity: across any finite submission sequence, the identifiers
/// the gateway assigns form the strictly increasing sequence 1, 2, 3, ...,
/// in emission order; every forwarded order is well formed, and no two carry
/// the same identifier.
pub proof fn lemma_id_monotonic(orders: Seq<NewOrder>)
    requires
        orders.len() <= i32::MAX,
    ensures
        forall|i: int|
            0 <= i < gateway_output(orders).len() ==> (#[trigger] gateway_output(orders)[i]).order_id
                == i + 1,
        forall|i: int, j: int|
            0 <= i < j < gateway_output(orders).len() ==> gateway_output(orders)[i].order_id
                < gateway_output(orders)[j].order_id,
        forall|i: int|
            0 <= i < gateway_output(orders).len() ==> order_wf(#[trigger] gateway_output(orders)[i]),
    decreases orders.len(),
{
    lemma_counts(orders);
    if orders.len() > 0 {
        lemma_id_monotonic(orders.drop_last());
        lemma_counts(orders.drop_last());
        if accepts(orders.last()) {
            let prefix = gateway_output(orders.drop_last());
            let out = gateway_output(orders);
            assert forall|i: int| 0 <= i < out.len() implies (#[trigger] out[i]).order_id == i
                + 1 by {
                if i < out.len() - 1 {
                    assert(out[i] == prefix[i]);
                }
            }
            assert forall|i: int| 0 <= i < out.len() implies order_wf(#[trigger] out[i]) by {
                if i < out.len() - 1 {
                    assert(out[i] == prefix[i]);
                }
            }
        }
    }
}

// ---------------------------------------------------------------------------
// The engine over a whole sequence of validated orders
// ---------------------------------------------------------------------------
/// The resting book and the emitted trades after the engine consumed a
/// sequence of validated orders, in order, starting from an empty book.
pub struct EngineRun {
    pub book: Seq<ValidatedOrder>,
    pub trades: Seq<Trade>,
}

pub open spec fn engine_run(orders: Seq<ValidatedOrder>) -> EngineRun
    decreases orders.len(),
{
    if orders.len() == 0 {
        EngineRun { book: Seq::empty(), trades: Seq::empty() }
    } else {
        let prev = engine_run(orders.drop_last());
        let v = orders.last();
        EngineRun {
            book: engine_step_book(prev.book, v),
            trades: match engine_step_trade(prev.book, v) {
                Some(t) => prev.trades.push(t),
                None => prev.trades,
            },
        }
    }
}

/// A run over well-formed orders keeps the book well formed.
pub proof fn lemma_run_wf(orders: Seq<ValidatedOrder>)
    requires
        forall|i: int| 0 <= i < orders.len() ==> order_wf(#[trigger] orders[i]),
    ensures
        book_wf(engine_run(orders).book),
    decreases orders.len(),
{
    if orders.len() > 0 {
        lemma_run_wf(orders.drop_last());
        lemma_step_wf(engine_run(orders.drop_last()).book, orders.last());
    }
}

// ---------------------------------------------------------------------------
// Conservation of quantity per identifier
// ---------------------------------------------------------------------------
/// The share of resting entry `v` in the book total for identifier `id`.
pub open spec fn entry_qty_for(v: ValidatedOrder, id: i32) -> int {
    if v.order_id == id {
        v.qty as int
    } else {
        0
    }
}

/// Quantity resting in `book` under identifier `id`.
pub open spec fn book_qty_for(book: Seq<ValidatedOrder>, id: i32) -> int
    decreases book.len(),
{
    if book.len() == 0 {
        0
    } else {
        book_qty_for(book.drop_last(), id) + entry_qty_for(book.last(), id)
    }
}

/// The share of trade `t` in the traded total for identifier `id`.
pub open spec fn trade_qty_for(t: Trade, id: i32) -> int {
    if t.buy_order_id == id || t.sell_order_id == id {
        t.qty as int
    } else {
        0
    }
}

/// Quantity traded under identifier `id` across `trades`.
pub open spec fn trades_qty_for(trades: Seq<Trade>, id: i32) -> int
    decreases trades.len(),
{
    if trades.len() == 0 {
        0
    } else {
        trades_qty_for(trades.drop_last(), id) + trade_qty_for(trades.last(), id)
    }
}

proof fn lemma_book_qty_push(book: Seq<ValidatedOrder>, v: ValidatedOrder, id: i32)
    ensures
        book_qty_for(book.push(v), id) == book_qty_for(book, id) + entry_qty_for(v, id),
{
    assert(book.push(v).drop_last() =~= book);
}

proof fn lemma_trades_qty_push(trades: Seq<Trade>, t: Trade, id: i32)
    ensures
        trades_qty_for(trades.push(t), id) == trades_qty_for(trades, id) + trade_qty_for(t, id),
{
    assert(trades.push(t).drop_last() =~= trades);
}

pub proof fn lemma_trades_volume_push(trades: Seq<Trade>, t: Trade)
    ensures
        trades_volume(trades.push(t)) == trades_volume(trades) + t.qty,
{
    assert(trades.push(t).drop_last() =~= trades);
}

proof fn lemma_book_qty_update(book: Seq<ValidatedOrder>, i: int, v: ValidatedOrder, id: i32)
    requires
        0 <= i < book.len(),
    ensures
        book_qty_for(book.update(i, v), id) == book_qty_for(book, id) - entry_qty_for(book[i], id)
            + entry_qty_for(v, id),
    decreases book.len(),
{
    let upd = book.update(i, v);
    if i == book.len() - 1 {
        assert(upd.drop_last() =~= book.drop_last());
    } else {
        assert(upd.drop_last() =~= book.drop_last().update(i, v));
        assert(upd.last() == book.last());
        lemma_book_qty_update(book.drop_last(), i, v, id);
    }
}

proof fn lemma_book_qty_remove(book: Seq<ValidatedOrder>, i: int, id: i32)
    requires
        0 <= i < book.len(),
    ensures
        book_qty_for(book.remove(i), id) == book_qty_for(book, id) - entry_qty_for(book[i], id),
    decreases book.len(),
{
    let rem = book.remove(i);
    book.remove_ensures(i);
    if i == book.len() - 1 {
        assert(rem =~= book.drop_last());
    } else {
        book.drop_last().remove_ensures(i);
        assert(rem.drop_last() =~= book.drop_last().remove(i));
        assert(rem.last() == book.last());
        lemma_book_qty_remove(book.drop_last(), i, id);
    }
}

proof fn lemma_book_qty_absent(book: Seq<ValidatedOrder>, id: i32)
    requires
        forall|i: int| 0 <= i < book.len() ==> (#[trigger] book[i]).order_id != id,
    ensures
        book_qty_for(book, id) == 0,
    decreases book.len(),
{
    if book.len() > 0 {
        lemma_book_qty_absent(book.drop_last(), id);
    }
}

proof fn lemma_trades_qty_absent(trades: Seq<Trade>, id: i32)
    requires
        forall|m: int|
            0 <= m < trades.len() ==> ((#[trigger] trades[m]).buy_order_id != id
                && trades[m].sell_order_id != id),
    ensures
        trades_qty_for(trades, id) == 0,
    decreases trades.len(),
{
    if trades.len() > 0 {
        lemma_trades_qty_absent(trades.drop_last(), id);
    }
}

/// One engine step neither creates nor destroys quantity: for every
/// identifier, what rests afterwards plus what the emitted trade carries
/// equals what rested before plus what the incoming order brought.
pub proof fn lemma_step_conservation(book: Seq<ValidatedOrder>, v: ValidatedOrder, id: i32)
    requires
        book_wf(book),
        order_wf(v),
        forall|j: int| 0 <= j < book.len() ==> (#[trigger] book[j]).order_id != v.order_id,
    ensures
        book_qty_for(engine_step_book(book, v), id) + (match engine_step_trade(book, v) {
            Some(t) => trade_qty_for(t, id),
            None => 0int,
        }) == book_qty_for(book, id) + entry_qty_for(v, id),
{
    lemma_find_cross_from_props(book, v, 0);
    match find_cross(book, v) {
        Some(i) => {
            let maker = book[i];
            assert(maker.order_id != v.order_id);
            if maker.qty > v.qty {
                lemma_book_qty_update(
                    book,
                    i,
                    ValidatedOrder { qty: (maker.qty - v.qty) as i32, ..maker },
                    id,
                );
            } else if v.qty > maker.qty {
                lemma_book_qty_remove(book, i, id);
                lemma_book_qty_push(
                    book.remove(i),
                    ValidatedOrder { qty: (v.qty - maker.qty) as i32, ..v },
                    id,
                );
            } else {
                lemma_book_qty_remove(book, i, id);
            }
        },
        None => {
            lemma_book_qty_push(book, v, id);
        },
    }
}

/// No identifier foreign to `orders` ever appears in the run's book or trades.
pub proof fn lemma_run_fresh(orders: Seq<ValidatedOrder>, id: i32)
    requires
        forall|j: int| 0 <= j < orders.len() ==> (#[trigger] orders[j]).order_id != id,
    ensures
        forall|i: int|
            0 <= i < engine_run(orders).book.len() ==> (#[trigger] engine_run(
                orders,
            ).book[i]).order_id != id,
        forall|m: int|
            0 <= m < engine_run(orders).trades.len() ==> ((#[trigger] engine_run(
                orders,
            ).trades[m]).buy_order_id != id && engine_run(orders).trades[m].sell_order_id != id),
    decreases orders.len(),
{
    if orders.len() > 0 {
        lemma_run_fresh(orders.drop_last(), id);
        let prev = engine_run(orders.drop_last());
        let v = orders.last();
        let run = engine_run(orders);
        lemma_find_cross_from_props(prev.book, v, 0);
        match find_cross(prev.book, v) {
            Some(i) => {
                prev.book.remove_ensures(i);
                assert forall|k: int| 0 <= k < run.book.len() implies (#[trigger] run.book[k]).order_id
                    != id by {
                    let maker = prev.book[i];
                    if maker.qty > v.qty {
                        if k != i {
                            assert(run.book[k] == prev.book[k]);
                        }
                    } else {
                        if k < prev.book.len() - 1 {
                            assert(run.book[k] == prev.book.remove(i)[k]);
                        }
                    }
                }
            },
            None => {
                assert forall|k: int| 0 <= k < run.book.len() implies (#[trigger] run.book[k]).order_id
                    != id by {
                    if k < prev.book.len() {
                        assert(run.book[k] == prev.book[k]);
                    }
                }
            },
        }
    }
}

/// Conservation: when the engine consumes validated orders with pairwise
/// distinct identifiers, the quantity traded under each order's identifier
/// plus the quantity still resting under it at the end equals the order's
/// original quantity.
pub proof fn lemma_conservation(orders: Seq<ValidatedOrder>, k: int)
    requires
        forall|i: int| 0 <= i < orders.len() ==> order_wf(#[trigger] orders[i]),
        forall|i: int, j: int|
            0 <= i < j < orders.len() ==> orders[i].order_id != orders[j].order_id,
        0 <= k < orders.len(),
    ensures
        trades_qty_for(engine_run(orders).trades, orders[k].order_id) + book_qty_for(
            engine_run(orders).book,
            orders[k].order_id,
        ) == orders[k].qty,
    decreases orders.len(),
{
    let prev = engine_run(orders.drop_last());
    let v = orders.last();
    let id = orders[k].order_id;
    lemma_run_wf(orders.drop_last());
    assert forall|j: int| 0 <= j < orders.drop_last().len() implies (#[trigger] orders.drop_last()[j]).order_id
        != v.order_id by {
        assert(orders[j].order_id != orders[orders.len() - 1].order_id);
    }
    lemma_run_fresh(orders.drop_last(), v.order_id);
    lemma_step_conservation(prev.book, v, id);
    if k < orders.len() - 1 {
        lemma_conservation(orders.drop_last(), k);
        assert(v.order_id != id);
        match engine_step_trade(prev.book, v) {
            Some(t) => lemma_trades_qty_push(prev.trades, t, id),
            None => {},
        }
    } else {
        lemma_book_qty_absent(prev.book, id);
        lemma_trades_qty_absent(prev.trades, id);
        match engine_step_trade(prev.book, v) {
            Some(t) => lemma_trades_qty_push(prev.trades, t, id),
            None => {},
        }
    }
}

proof fn lemma_book_qty_nonneg(book: Seq<ValidatedOrder>, id: i32)
    requires
        book_wf(book),
    ensures
        book_qty_for(book, id) >= 0,
    decreases book.len(),
{
    if book.len() > 0 {
        assert(book_wf(book.drop_last()));
        lemma_book_qty_nonneg(book.drop_last(), id);
    }
}

/// No overfill: the quantity traded under an order's identifier never
/// exceeds the quantity the order was submitted with.
pub proof fn lemma_no_overfill(orders: Seq<ValidatedOrder>, k: int)
    requires
        forall|i: int| 0 <= i < orders.len() ==> order_wf(#[trigger] orders[i]),
        forall|i: int, j: int|
            0 <= i < j < orders.len() ==> orders[i].order_id != orders[j].order_id,
        0 <= k < orders.len(),
    ensures
        trades_qty_for(engine_run(orders).trades, orders[k].order_id) <= orders[k].qty,
{
    lemma_conservation(orders, k);
    lemma_run_wf(orders);
    lemma_book_qty_nonneg(engine_run(orders).book, orders[k].order_id);
}

// ---------------------------------------------------------------------------
// Price-cross soundness across a run
// ---------------------------------------------------------------------------
/// Trade `t` is priced soundly against the orders in `orders`: it names an
/// originating buy order whose price is at least the trade price and an
/// originating sell order whose price is at most the trade price.
pub open spec fn trade_price_sound(orders: Seq<ValidatedOrder>, t: Trade) -> bool {
    exists|b: int, s: int|
        {
            &&& 0 <= b < orders.len()
            &&& 0 <= s < orders.len()
            &&& (#[trigger] orders[b]).order_id == t.buy_order_id
            &&& orders[b].side == Side::Buy
            &&& (#[trigger] orders[s]).order_id == t.sell_order_id
            &&& orders[s].side == Side::Sell
            &&& orders[b].price >= t.price
            &&& t.price >= orders[s].price
        }
}

/// Book entry `e` descends from one of the orders in `orders`: the same
/// identifier, side and price (only the quantity may have shrunk).
pub open spec fn entry_from(orders: Seq<ValidatedOrder>, e: ValidatedOrder) -> bool {
    exists|j: int|
        {
            &&& 0 <= j < orders.len()
            &&& (#[trigger] orders[j]).order_id == e.order_id
            &&& orders[j].side == e.side
            &&& orders[j].price == e.price
        }
}

proof fn lemma_entry_from_extend(orders: Seq<ValidatedOrder>, e: ValidatedOrder)
    requires
        orders.len() > 0,
        entry_from(orders.drop_last(), e),
    ensures
        entry_from(orders, e),
{
    let j = choose|j: int|
        {
            &&& 0 <= j < orders.drop_last().len()
            &&& (#[trigger] orders.drop_last()[j]).order_id == e.order_id
            &&& orders.drop_last()[j].side == e.side
            &&& orders.drop_last()[j].price == e.price
        };
    assert(orders[j].order_id == e.order_id && orders[j].side == e.side && orders[j].price
        == e.price);
}

proof fn lemma_trade_price_sound_extend(orders: Seq<ValidatedOrder>, t: Trade)
    requires
        orders.len() > 0,
        trade_price_sound(orders.drop_last(), t),
    ensures
        trade_price_sound(orders, t),
{
    let (b, s) = choose|b: int, s: int|
        {
            &&& 0 <= b < orders.drop_last().len()
            &&& 0 <= s < orders.drop_last().len()
            &&& (#[trigger] orders.drop_last()[b]).order_id == t.buy_order_id
            &&& orders.drop_last()[b].side == Side::Buy
            &&& (#[trigger] orders.drop_last()[s]).order_id == t.sell_order_id
            &&& orders.drop_last()[s].side == Side::Sell
            &&& orders.drop_last()[b].price >= t.price
            &&& t.price >= orders.drop_last()[s].price
        };
    assert(orders[b].order_id == t.buy_order_id && orders[b].side == Side::Buy && orders[b].price
        >= t.price);
    assert(orders[s].order_id == t.sell_order_id && orders[s].side == Side::Sell && t.price
        >= orders[s].price);
}

/// Price-cross soundness across a run: every trade the engine emitted names
/// a buy order whose stated price is at least the trade price and a sell
/// order whose stated price is at most it; and every entry still resting
/// descends from one of the consumed orders with its identifier, side and
/// price unchanged.
pub proof fn lemma_run_price_sound(orders: Seq<ValidatedOrder>)
    requires
        forall|i: int| 0 <= i < orders.len() ==> order_wf(#[trigger] orders[i]),
    ensures
        forall|i: int|
            0 <= i < engine_run(orders).book.len() ==> entry_from(
                orders,
                #[trigger] engine_run(orders).book[i],
            ),
        forall|m: int|
            0 <= m < engine_run(orders).trades.len() ==> trade_price_sound(
                orders,
                #[trigger] engine_run(orders).trades[m],
            ),
    decreases orders.len(),
{
    if orders.len() > 0 {
        lemma_run_price_sound(orders.drop_last());
        let prev = engine_run(orders.drop_last());
        let v = orders.last();
        let run = engine_run(orders);
        let last = orders.len() - 1;
        lemma_run_wf(orders.drop_last());
        lemma_find_cross_from_props(prev.book, v, 0);
        assert forall|i: int| 0 <= i < prev.book.len() implies entry_from(
            orders,
            #[trigger] prev.book[i],
        ) by {
            lemma_entry_from_extend(orders, prev.book[i]);
        }
        assert forall|m: int| 0 <= m < prev.trades.len() implies trade_price_sound(
            orders,
            #[trigger] prev.trades[m],
        ) by {
            lemma_trade_price_sound_extend(orders, prev.trades[m]);
        }
        match find_cross(prev.book, v) {
            Some(i) => {
                let maker = prev.book[i];
                let t = trade_of(v, maker);
                let j = choose|j: int|
                    {
                        &&& 0 <= j < orders.len()
                        &&& (#[trigger] orders[j]).order_id == maker.order_id
                        &&& orders[j].side == maker.side
                        &&& orders[j].price == maker.price
                    };
                assert(entry_from(orders, maker));
                if v.side == Side::Buy {
                    assert(orders[last].order_id == t.buy_order_id && orders[last].side == Side::Buy
                        && orders[last].price >= t.price);
                    assert(orders[j].order_id == t.sell_order_id && orders[j].side == Side::Sell
                        && t.price >= orders[j].price);
                } else {
                    assert(orders[j].order_id == t.buy_order_id && orders[j].side == Side::Buy
                        && orders[j].price >= t.price);
                    assert(orders[last].order_id == t.sell_order_id && orders[last].side
                        == Side::Sell && t.price >= orders[last].price);
                }
                assert(trade_price_sound(orders, t));
                prev.book.remove_ensures(i);
                assert forall|k: int| 0 <= k < run.book.len() implies entry_from(
                    orders,
                    #[trigger] run.book[k],
                ) by {
                    if maker.qty > v.qty {
                        if k == i {
                            assert(run.book[k].order_id == maker.order_id && run.book[k].side
                                == maker.side && run.book[k].price == maker.price);
                        } else {
                            assert(run.book[k] == prev.book[k]);
                        }
                    } else if v.qty > maker.qty {
                        if k == run.book.len() - 1 {
                            assert(run.book[k].order_id == orders[last].order_id && run.book[k].side
                                == orders[last].side && run.book[k].price == orders[last].price);
                        } else {
                            assert(run.book[k] == prev.book.remove(i)[k]);
                        }
                    } else {
                        assert(run.book[k] == prev.book.remove(i)[k]);
                    }
                }
            },
            None => {
                assert forall|k: int| 0 <= k < run.book.len() implies entry_from(
                    orders,
                    #[trigger] run.book[k],
                ) by {
                    if k < prev.book.len() {
                        assert(run.book[k] == prev.book[k]);
                    } else {
                        assert(run.book[k] == v);
                        assert(orders[last].order_id == v.order_id && orders[last].side == v.side
                            && orders[last].price == v.price);
                    }
                }
            },
        }
    }
}

/// Conservation across the whole pipeline: for every validated order the
/// gateway forwarded, the quantity traded under its identifier plus the
/// quantity resting under it in the book at shutdown equals the quantity
/// the submitter asked for.
pub proof fn lemma_pipeline_conservation(orders: Seq<NewOrder>, k: int)
    requires
        orders.len() <= i32::MAX,
        0 <= k < gateway_output(orders).len(),
    ensures
        trades_qty_for(
            engine_run(gateway_output(orders)).trades,
            gateway_output(orders)[k].order_id,
        ) + book_qty_for(
            engine_run(gateway_output(orders)).book,
            gateway_output(orders)[k].order_id,
        ) == gateway_output(orders)[k].qty,
{
    lemma_id_monotonic(orders);
    let out = gateway_output(orders);
    assert forall|i: int, j: int| 0 <= i < j < out.len() implies out[i].order_id
        != out[j].order_id by {
        assert(out[i].order_id == i + 1);
        assert(out[j].order_id == j + 1);
    }
    lemma_conservation(out, k);
}

// ---------------------------------------------------------------------------
// A whole run of the pipeline
// ---------------------------------------------------------------------------
/// A prefix of the submissions never carries more accepted quantity than all
/// of them.
proof fn lemma_accepted_qty_prefix(orders: Seq<NewOrder>, k: int)
    requires
        0 <= k <= orders.len(),
    ensures
        accepted_qty(orders.subrange(0, k)) <= accepted_qty(orders),
    decreases orders.len(),
{
    if k == orders.len() {
        assert(orders.subrange(0, k) =~= orders);
    } else {
        assert(orders.drop_last().subrange(0, k) =~= orders.subrange(0, k));
        lemma_accepted_qty_prefix(orders.drop_last(), k);
    }
}

/// Everything a clean run leaves behind: the audit's trade log, the engine's
/// resting book at shutdown, and the terminal summary.
pub struct PipelineOutcome {
    pub trades: Vec<Trade>,
    pub open_orders: Vec<ValidatedOrder>,
    pub summary: AuditSummary,
}

/// Drive one whole run: every submission flows through the gateway, accepted
/// orders through the engine, trades and rejections into the audit stage;
/// then shutdown drains the stages in turn and the terminal summary is taken.
/// This is the pipeline's behaviour whenever every queue is large enough
/// never to block.
pub fn run_pipeline(orders: &Vec<NewOrder>) -> (r: PipelineOutcome)
    requires
        orders@.len() < i32::MAX,
        accepted_qty(orders@) <= i32::MAX,
    ensures
        r.open_orders@ == engine_run(gateway_output(orders@)).book,
        r.trades@ == engine_run(gateway_output(orders@)).trades,
        r.summary.trade_count == r.trades@.len(),
        r.summary.total_volume == trades_volume(r.trades@),
        r.summary.rejected_count == rejected_count(orders@),
{
    let mut gateway = GatewayActor::new();
    let mut engine = MatchingEngineActor::new();
    let mut audit = AuditActor::new();
    proof {
        assert(orders@.subrange(0, 0) =~= Seq::<NewOrder>::empty());
    }
    let n = orders.len();
    let mut k: usize = 0;
    while k < n
        invariant
            n == orders@.len(),
            n < i32::MAX,
            accepted_qty(orders@) <= i32::MAX,
            k <= n,
            gateway.next_id == accepted_count(orders@.subrange(0, k as int)),
            engine.open_orders@ == engine_run(gateway_output(orders@.subrange(0, k as int))).book,
            engine.wf(),
            audit.trades@ == engine_run(gateway_output(orders@.subrange(0, k as int))).trades,
            audit.wf(),
            audit.rejected_orders == rejected_count(orders@.subrange(0, k as int)),
            trades_volume(audit.trades@) <= accepted_qty(orders@.subrange(0, k as int)),
        decreases n - k,
    {
        let ghost prefix = orders@.subrange(0, k as int);
        let ghost prefix1 = orders@.subrange(0, k as int + 1);
        proof {
            assert(prefix1.drop_last() =~= prefix);
            lemma_counts(prefix);
            lemma_counts(prefix1);
            lemma_accepted_qty_prefix(orders@, k as int + 1);
        }
        let order = orders[k];
        match gateway.validate_new_order(order) {
            Ok(v) => {
                let ghost gw = gateway_output(prefix);
                proof {
                    assert(gateway_output(prefix1) == gw.push(v));
                    assert(gw.push(v).drop_last() =~= gw);
                    lemma_step_wf(engine_run(gw).book, v);
                }
                match engine.process_order(v) {
                    Some(trade) => {
                        proof {
                            lemma_trades_volume_push(audit.trades@, trade);
                        }
                        let recorded = audit.stats(trade);
                        assert(recorded is Ok);
                    },
                    None => {},
                }
            },
            Err(_) => {
                audit.rejected_order();
            },
        }
        k = k + 1;
    }
    proof {
        assert(orders@.subrange(0, n as int) =~= orders@);
    }
    let summary = audit.summary();
    PipelineOutcome { trades: audit.trades, open_orders: engine.open_orders, summary }
}

} // verus!
