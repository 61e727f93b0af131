use crate::common::{order_wf, Side, Trade, ValidatedOrder};
use crate::messages::EngineMsg;
use vstd::prelude::*;

verus! {

/// Every order resting in `book` is well formed; in particular no
/// fully-filled (zero-quantity) entry ever rests.
pub open spec fn book_wf(book: Seq<ValidatedOrder>) -> bool {
    forall|i: int| 0 <= i < book.len() ==> order_wf(#[trigger] book[i])
}

/// The incoming order `taker` crosses the resting order `maker`:
/// opposite sides, and the buy price meets or exceeds the sell price.
pub open spec fn crosses(taker: ValidatedOrder, maker: ValidatedOrder) -> bool {
    ||| (taker.side == Side::Buy && maker.side == Side::Sell && maker.price <= taker.price)
    ||| (taker.side == Side::Sell && maker.side == Side::Buy && maker.price >= taker.price)
}

/// Index of the first resting order at or after position `j` that `taker`
/// crosses, scanning in insertion order.
pub open spec fn find_cross_from(book: Seq<ValidatedOrder>, taker: ValidatedOrder, j: int) -> Option<
    int,
>
    decreases book.len() - j,
{
    if j < 0 || j >= book.len() {
        None
    } else if crosses(taker, book[j]) {
        Some(j)
    } else {
        find_cross_from(book, taker, j + 1)
    }
}

/// Index of the earliest resting order that `taker` crosses, if any.
/// This is the first-fit tie-break: the earliest-resting match wins,
/// regardless of better prices elsewhere in the book.
pub open spec fn find_cross(book: Seq<ValidatedOrder>, taker: ValidatedOrder) -> Option<int> {
    find_cross_from(book, taker, 0)
}

/// The trade emitted when incoming `taker` crosses resting `maker`: the
/// traded quantity is the smaller of the two and the price is the maker's.
pub open spec fn trade_of(taker: ValidatedOrder, maker: ValidatedOrder) -> Trade {
    Trade {
        buy_order_id: if taker.side == Side::Buy {
            taker.order_id
        } else {
            maker.order_id
        },
        sell_order_id: if taker.side == Side::Buy {
            maker.order_id
        } else {
            taker.order_id
        },
        qty: if taker.qty <= maker.qty {
            taker.qty
        } else {
            maker.qty
        },
        price: maker.price,
    }
}

/// The book after incoming `taker` crossed the resting order at index `i`:
/// a larger maker shrinks in place, a larger taker replaces the maker with
/// its own remainder at the end of the book, equal quantities drop the maker.
pub open spec fn book_after_cross(book: Seq<ValidatedOrder>, taker: ValidatedOrder, i: int) -> Seq<
    ValidatedOrder,
> {
    let maker = book[i];
    if maker.qty > taker.qty {
        book.update(i, ValidatedOrder { qty: (maker.qty - taker.qty) as i32, ..maker })
    } else if taker.qty > maker.qty {
        book.remove(i).push(ValidatedOrder { qty: (taker.qty - maker.qty) as i32, ..taker })
    } else {
        book.remove(i)
    }
}

/// The book after the engine consumed one incoming order: either the result
/// of its first cross, or the order itself appended.
pub open spec fn engine_step_book(book: Seq<ValidatedOrder>, taker: ValidatedOrder) -> Seq<
    ValidatedOrder,
> {
    match find_cross(book, taker) {
        Some(i) => book_after_cross(book, taker, i),
        None => book.push(taker),
    }
}

/// The at most one trade the engine emits for one incoming order.
pub open spec fn engine_step_trade(book: Seq<ValidatedOrder>, taker: ValidatedOrder) -> Option<
    Trade,
> {
    match find_cross(book, taker) {
        Some(i) => Some(trade_of(taker, book[i])),
        None => None,
    }
}

/// What `find_cross_from` finds is a cross, and the earliest one.
pub proof fn lemma_find_cross_from_props(book: Seq<ValidatedOrder>, taker: ValidatedOrder, j: int)
    requires
        0 <= j,
    ensures
        (match find_cross_from(book, taker, j) {
            Some(i) => j <= i < book.len() && crosses(taker, book[i]) && (forall|m: int|
                j <= m < i ==> !crosses(taker, #[trigger] book[m])),
            None => forall|m: int| j <= m < book.len() ==> !crosses(taker, #[trigger] book[m]),
        }),
    decreases book.len() - j,
{
    if j < 0 || j >= book.len() {
    } else if crosses(taker, book[j]) {
    } else {
        lemma_find_cross_from_props(book, taker, j + 1);
    }
}

/// One engine step keeps the book well formed, and any trade it emits is
/// valid: positive quantity and price.
pub proof fn lemma_step_wf(book: Seq<ValidatedOrder>, taker: ValidatedOrder)
    requires
        book_wf(book),
        order_wf(taker),
    ensures
        book_wf(engine_step_book(book, taker)),
        (match engine_step_trade(book, taker) {
            Some(t) => t.spec_is_valid() && t.qty <= taker.qty && t.price > 0,
            None => true,
        }),
{
    lemma_find_cross_from_props(book, taker, 0);
    match find_cross(book, taker) {
        Some(i) => {
            let maker = book[i];
            let after = book_after_cross(book, taker, i);
            assert(order_wf(maker));
            if maker.qty > taker.qty {
                assert forall|k: int| 0 <= k < after.len() implies order_wf(
                    #[trigger] after[k],
                ) by {
                    if k != i {
                        assert(after[k] == book[k]);
                    }
                }
            } else if taker.qty > maker.qty {
                assert forall|k: int| 0 <= k < after.len() implies order_wf(
                    #[trigger] after[k],
                ) by {
                    if k < after.len() - 1 {
                        book.remove_ensures(i);
                        assert(order_wf(book.remove(i)[k]));
                    }
                }
            } else {
                assert forall|k: int| 0 <= k < after.len() implies order_wf(
                    #[trigger] after[k],
                ) by {
                    book.remove_ensures(i);
                }
            }
        },
        None => {
            let after = book.push(taker);
            assert forall|k: int| 0 <= k < after.len() implies order_wf(#[trigger] after[k]) by {
                if k < book.len() {
                    assert(after[k] == book[k]);
                }
            }
        },
    }
}

/// Price-cross soundness and the maker-price rule at the moment of a cross:
/// when `taker` first crosses the resting order at index `i`, the emitted
/// trade is priced exactly at that maker's resting price, the buyer's price
/// is at least the trade price, the seller's price is at most it, and the
/// traded quantity exceeds neither side's quantity. No earlier resting order
/// crosses `taker`: the first fit wins.
pub proof fn lemma_trade_sound(book: Seq<ValidatedOrder>, taker: ValidatedOrder, i: int)
    requires
        book_wf(book),
        order_wf(taker),
        find_cross(book, taker) == Some(i),
    ensures
        0 <= i < book.len(),
        crosses(taker, book[i]),
        forall|m: int| 0 <= m < i ==> !crosses(taker, #[trigger] book[m]),
        engine_step_trade(book, taker) == Some(trade_of(taker, book[i])),
        ({
            let t = trade_of(taker, book[i]);
            let maker = book[i];
            let buyer = if taker.side == Side::Buy {
                taker
            } else {
                maker
            };
            let seller = if taker.side == Side::Buy {
                maker
            } else {
                taker
            };
            &&& t.price == maker.price
            &&& buyer.side == Side::Buy && seller.side == Side::Sell
            &&& t.buy_order_id == buyer.order_id
            &&& t.sell_order_id == seller.order_id
            &&& buyer.price >= t.price >= seller.price
            &&& 0 < t.qty <= buyer.qty
            &&& t.qty <= seller.qty
        }),
{
    lemma_find_cross_from_props(book, taker, 0);
}

/// Engine state: the resting book, in insertion order. The channel ends that
/// carry its messages live with the caller that runs the loop.
pub struct MatchingEngineActor {
    pub open_orders: Vec<ValidatedOrder>,
}

/// What the engine asks its surroundings to do after consuming one inbox message.
#[derive(Clone, Copy, Debug, PartialEq, Eq, Structural)]
pub enum EngineStep {
    /// Deliver the trade to the audit inbox and keep running.
    EmitTrade(Trade),
    /// Nothing to deliver: the incoming order rested or only shrank a maker.
    Rested,
    /// Deliver a shutdown to the audit inbox and stop the engine loop.
    PassShutdown,
}

impl MatchingEngineActor {
    pub open spec fn wf(self) -> bool {
        book_wf(self.open_orders@)
    }

    pub fn new() -> (r: Self)
        ensures
            r.open_orders@ == Seq::<ValidatedOrder>::empty(),
            r.wf(),
    {
        Self { open_orders: Vec::new() }
    }

    /// Attempt a single first-fit cross of `order` against the resting book:
    /// emit at most one trade, shrink or drop the maker, rest any remainder.
    pub fn process_order(&mut self, order: ValidatedOrder) -> (r: Option<Trade>)
        requires
            old(self).wf(),
            order_wf(order),
        ensures
            final(self).open_orders@ == engine_step_book(old(self).open_orders@, order),
            r == engine_step_trade(old(self).open_orders@, order),
            final(self).wf(),
    {
        let ghost book0 = self.open_orders@;
        proof {
            lemma_step_wf(book0, order);
        }
        let n = self.open_orders.len();
        let mut i: usize = 0;
        while i < n
            invariant
                book0 == old(self).open_orders@,
                n == self.open_orders.len(),
                self.open_orders@ == book0,
                i <= n,
                book_wf(book0),
                order_wf(order),
                find_cross(book0, order) == find_cross_from(book0, order, i as int),
            decreases n - i,
        {
            let open_order = self.open_orders[i];
            let cross = (order.side == Side::Buy && open_order.side == Side::Sell
                && open_order.price <= order.price) || (order.side == Side::Sell
                && open_order.side == Side::Buy && open_order.price >= order.price);
            if cross {
                assert(find_cross(book0, order) == Some(i as int));
                let trade_qty = if order.qty <= open_order.qty {
                    order.qty
                } else {
                    open_order.qty
                };
                let trade = Trade {
                    buy_order_id: if order.side == Side::Buy {
                        order.order_id
                    } else {
                        open_order.order_id
                    },
                    sell_order_id: if order.side == Side::Buy {
                        open_order.order_id
                    } else {
                        order.order_id
                    },
                    qty: trade_qty,
                    price: open_order.price,
                };
                if open_order.qty > order.qty {
                    let shrunk = ValidatedOrder {
                        order_id: open_order.order_id,
                        user_id: open_order.user_id,
                        side: open_order.side,
                        qty: open_order.qty - trade_qty,
                        price: open_order.price,
                    };
                    self.open_orders[i] = shrunk;
                } else if order.qty > open_order.qty {
                    self.open_orders.remove(i);
                    let remainder = ValidatedOrder {
                        order_id: order.order_id,
                        user_id: order.user_id,
                        side: order.side,
                        qty: order.qty - trade_qty,
                        price: order.price,
                    };
                    self.open_orders.push(remainder);
                } else {
                    self.open_orders.remove(i);
                }
                return Some(trade);
            }
            i = i + 1;
        }
        self.open_orders.push(order);
        None
    }

    /// Consume one inbox message and say what to do next: emit the trade of a
    /// cross, rest silently, or pass the shutdown on and halt. Resting orders
    /// are discarded at shutdown without further notification.
    pub fn handle(&mut self, msg: EngineMsg) -> (r: EngineStep)
        requires
            old(self).wf(),
            (msg matches EngineMsg::Order(v) ==> order_wf(v)),
        ensures
            (match msg {
                EngineMsg::Order(v) => {
                    &&& final(self).open_orders@ == engine_step_book(old(self).open_orders@, v)
                    &&& (match engine_step_trade(old(self).open_orders@, v) {
                        Some(t) => r == EngineStep::EmitTrade(t),
                        None => r == EngineStep::Rested,
                    })
                },
                EngineMsg::Shutdown => r == EngineStep::PassShutdown && *final(self) == *old(self),
            }),
            final(self).wf(),
    {
        match msg {
            EngineMsg::Order(v) => match self.process_order(v) {
                Some(t) => EngineStep::EmitTrade(t),
                None => EngineStep::Rested,
            },
            EngineMsg::Shutdown => EngineStep::PassShutdown,
        }
    }
}

} // verus!

