use order_pipeline::pipeline::{run_pipeline, PipelineOutcome};
use order_pipeline::{NewOrder, Side, Trade, ValidatedOrder};

fn order(user_id: i32, side: Side, qty: i32, price: i32) -> NewOrder {
    NewOrder { user_id, side, qty, price }
}

fn run(orders: Vec<NewOrder>) -> PipelineOutcome {
    run_pipeline(&orders)
}

#[test]
fn no_cross_rests_and_third_order_matches_first() {
    let out = run(vec![
        order(1, Side::Sell, 2, 100),
        order(2, Side::Buy, 1, 50),
        order(3, Side::Buy, 1, 200),
    ]);
    assert_eq!(
        out.trades,
        vec![Trade { buy_order_id: 3, sell_order_id: 1, qty: 1, price: 100 }]
    );
    assert_eq!(
        out.open_orders,
        vec![
            ValidatedOrder { order_id: 1, user_id: 1, side: Side::Sell, qty: 1, price: 100 },
            ValidatedOrder { order_id: 2, user_id: 2, side: Side::Buy, qty: 1, price: 50 },
        ]
    );
    assert_eq!(out.summary.total_volume, 1);
    assert_eq!(out.summary.trade_count, 1);
    assert_eq!(out.summary.rejected_count, 0);
}

#[test]
fn exact_match_empties_book() {
    let out = run(vec![order(1, Side::Buy, 5, 100), order(2, Side::Sell, 5, 100)]);
    assert_eq!(
        out.trades,
        vec![Trade { buy_order_id: 1, sell_order_id: 2, qty: 5, price: 100 }]
    );
    assert!(out.open_orders.is_empty());
    assert_eq!(out.summary.total_volume, 5);
    assert_eq!(out.summary.trade_count, 1);
    assert_eq!(out.summary.rejected_count, 0);
}

#[test]
fn taker_larger_than_maker_rests_remainder() {
    let out = run(vec![order(1, Side::Sell, 3, 100), order(2, Side::Buy, 5, 100)]);
    assert_eq!(
        out.trades,
        vec![Trade { buy_order_id: 2, sell_order_id: 1, qty: 3, price: 100 }]
    );
    assert_eq!(
        out.open_orders,
        vec![ValidatedOrder { order_id: 2, user_id: 2, side: Side::Buy, qty: 2, price: 100 }]
    );
    assert_eq!(out.summary.total_volume, 3);
    assert_eq!(out.summary.trade_count, 1);
}

#[test]
fn maker_larger_than_taker_shrinks_in_place() {
    let out = run(vec![order(1, Side::Sell, 5, 100), order(2, Side::Buy, 3, 100)]);
    assert_eq!(
        out.trades,
        vec![Trade { buy_order_id: 2, sell_order_id: 1, qty: 3, price: 100 }]
    );
    assert_eq!(
        out.open_orders,
        vec![ValidatedOrder { order_id: 1, user_id: 1, side: Side::Sell, qty: 2, price: 100 }]
    );
    assert_eq!(out.summary.total_volume, 3);
    assert_eq!(out.summary.trade_count, 1);
}

#[test]
fn rejections_do_not_halt_pipeline_and_consume_no_identifier() {
    let out = run(vec![
        order(1, Side::Buy, -1, 100),
        order(2, Side::Buy, 1, -5),
        order(3, Side::Sell, 1, 50),
        order(4, Side::Buy, 1, 50),
    ]);
    // The rejected submissions consumed no identifier: the third and fourth
    // submissions carry identifiers 1 and 2, and those are the ids that cross.
    assert_eq!(
        out.trades,
        vec![Trade { buy_order_id: 2, sell_order_id: 1, qty: 1, price: 50 }]
    );
    assert!(out.open_orders.is_empty());
    assert_eq!(out.summary.total_volume, 1);
    assert_eq!(out.summary.trade_count, 1);
    assert_eq!(out.summary.rejected_count, 2);
}

#[test]
fn first_fit_tie_break_ignores_better_price() {
    let out = run(vec![
        order(1, Side::Sell, 1, 90),
        order(2, Side::Sell, 1, 80),
        order(3, Side::Buy, 1, 100),
    ]);
    // The first resting sell wins even though the second offers a better price.
    assert_eq!(
        out.trades,
        vec![Trade { buy_order_id: 3, sell_order_id: 1, qty: 1, price: 90 }]
    );
    assert_eq!(
        out.open_orders,
        vec![ValidatedOrder { order_id: 2, user_id: 2, side: Side::Sell, qty: 1, price: 80 }]
    );
    assert_eq!(out.summary.total_volume, 1);
    assert_eq!(out.summary.trade_count, 1);
}

#[test]
fn empty_run_leaves_everything_empty() {
    let out = run(vec![]);
    assert!(out.trades.is_empty());
    assert!(out.open_orders.is_empty());
    assert_eq!(out.summary.total_volume, 0);
    assert_eq!(out.summary.trade_count, 0);
    assert_eq!(out.summary.rejected_count, 0);
}

#[test]
fn conservation_on_a_mixed_run() {
    // Submissions 10 + 4 against a buy of 7: quantity per identifier is
    // conserved between trades and the resting book.
    let out = run(vec![
        order(1, Side::Sell, 10, 100),
        order(2, Side::Buy, 7, 100),
        order(3, Side::Sell, 4, 90),
    ]);
    assert_eq!(
        out.trades,
        vec![
            Trade { buy_order_id: 2, sell_order_id: 1, qty: 7, price: 100 },
        ]
    );
    // id 1: traded 7, resting 3 -> 10. id 3 rested whole: 4.
    assert_eq!(
        out.open_orders,
        vec![
            ValidatedOrder { order_id: 1, user_id: 1, side: Side::Sell, qty: 3, price: 100 },
            ValidatedOrder { order_id: 3, user_id: 3, side: Side::Sell, qty: 4, price: 90 },
        ]
    );
    assert_eq!(out.summary.total_volume, 7);
}
