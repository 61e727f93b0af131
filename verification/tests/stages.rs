use order_pipeline::audit::{AuditActor, AuditStep, AuditSummary};
use order_pipeline::engine::{EngineStep, MatchingEngineActor};
use order_pipeline::gateway::{GatewayActor, GatewayStep};
use order_pipeline::{
    AuditError, AuditMsg, EngineMsg, GatewayError, GatewayMsg, NewOrder, Side, Trade,
    ValidatedOrder,
};

fn order(user_id: i32, side: Side, qty: i32, price: i32) -> NewOrder {
    NewOrder { user_id, side, qty, price }
}

#[test]
fn trade_is_valid_requires_positive_qty_and_price() {
    assert!(Trade { buy_order_id: 1, sell_order_id: 2, qty: 1, price: 1 }.is_valid());
    assert!(!Trade { buy_order_id: 1, sell_order_id: 2, qty: 0, price: 1 }.is_valid());
    assert!(!Trade { buy_order_id: 1, sell_order_id: 2, qty: 1, price: 0 }.is_valid());
    assert!(!Trade { buy_order_id: 1, sell_order_id: 2, qty: -3, price: -7 }.is_valid());
}

#[test]
fn gateway_assigns_increasing_identifiers_from_one() {
    let mut gw = GatewayActor::new();
    let a = gw.validate_new_order(order(7, Side::Buy, 2, 30)).unwrap();
    let b = gw.validate_new_order(order(8, Side::Sell, 1, 40)).unwrap();
    assert_eq!(a.order_id, 1);
    assert_eq!(b.order_id, 2);
    assert_eq!(a.user_id, 7);
    assert_eq!(a.side, Side::Buy);
    assert_eq!(a.qty, 2);
    assert_eq!(a.price, 30);
}

#[test]
fn gateway_rejects_bad_qty_before_bad_price() {
    let mut gw = GatewayActor::new();
    assert_eq!(
        gw.validate_new_order(order(1, Side::Buy, 0, -5)),
        Err(GatewayError::InvalidQty { qty: 0 })
    );
    assert_eq!(
        gw.validate_new_order(order(1, Side::Buy, 3, -5)),
        Err(GatewayError::InvalidPrice { price: -5 })
    );
    // Rejections consumed no identifier.
    let v = gw.validate_new_order(order(1, Side::Buy, 3, 5)).unwrap();
    assert_eq!(v.order_id, 1);
}

#[test]
fn gateway_handle_forwards_rejects_and_passes_shutdown() {
    let mut gw = GatewayActor::new();
    let step = gw.handle(GatewayMsg::NewOrder(order(1, Side::Sell, 2, 9)));
    assert_eq!(
        step,
        GatewayStep::ForwardOrder(ValidatedOrder {
            order_id: 1,
            user_id: 1,
            side: Side::Sell,
            qty: 2,
            price: 9,
        })
    );
    let step = gw.handle(GatewayMsg::NewOrder(order(1, Side::Sell, -2, 9)));
    assert_eq!(step, GatewayStep::Reject(GatewayError::InvalidQty { qty: -2 }));
    let step = gw.handle(GatewayMsg::Shutdown);
    assert_eq!(step, GatewayStep::PassShutdown);
}

#[test]
fn engine_rests_orders_that_do_not_cross() {
    let mut engine = MatchingEngineActor::new();
    let v1 = ValidatedOrder { order_id: 1, user_id: 1, side: Side::Sell, qty: 2, price: 100 };
    let v2 = ValidatedOrder { order_id: 2, user_id: 2, side: Side::Buy, qty: 1, price: 50 };
    assert_eq!(engine.process_order(v1), None);
    assert_eq!(engine.process_order(v2), None);
    assert_eq!(engine.open_orders, vec![v1, v2]);
}

#[test]
fn engine_emits_maker_priced_trade_on_cross() {
    let mut engine = MatchingEngineActor::new();
    let maker = ValidatedOrder { order_id: 1, user_id: 1, side: Side::Sell, qty: 2, price: 100 };
    let taker = ValidatedOrder { order_id: 2, user_id: 2, side: Side::Buy, qty: 2, price: 150 };
    assert_eq!(engine.process_order(maker), None);
    let trade = engine.process_order(taker);
    assert_eq!(
        trade,
        Some(Trade { buy_order_id: 2, sell_order_id: 1, qty: 2, price: 100 })
    );
    assert!(engine.open_orders.is_empty());
}

#[test]
fn engine_handle_emits_rests_and_passes_shutdown() {
    let mut engine = MatchingEngineActor::new();
    let v1 = ValidatedOrder { order_id: 1, user_id: 1, side: Side::Buy, qty: 1, price: 60 };
    let v2 = ValidatedOrder { order_id: 2, user_id: 2, side: Side::Sell, qty: 1, price: 60 };
    assert_eq!(engine.handle(EngineMsg::Order(v1)), EngineStep::Rested);
    assert_eq!(
        engine.handle(EngineMsg::Order(v2)),
        EngineStep::EmitTrade(Trade { buy_order_id: 1, sell_order_id: 2, qty: 1, price: 60 })
    );
    assert_eq!(engine.handle(EngineMsg::Shutdown), EngineStep::PassShutdown);
}

#[test]
fn audit_accumulates_trades_in_order() {
    let mut audit = AuditActor::new();
    let t1 = Trade { buy_order_id: 2, sell_order_id: 1, qty: 3, price: 100 };
    let t2 = Trade { buy_order_id: 4, sell_order_id: 3, qty: 2, price: 90 };
    assert_eq!(audit.stats(t1), Ok(()));
    assert_eq!(audit.stats(t2), Ok(()));
    assert_eq!(audit.trades, vec![t1, t2]);
    assert_eq!(audit.last_prices, vec![100, 90]);
    assert_eq!(audit.volume_total, 5);
    let summary = audit.summary();
    assert_eq!(
        summary,
        AuditSummary { total_volume: 5, trade_count: 2, rejected_count: 0 }
    );
}

#[test]
fn audit_refuses_malformed_trade_and_keeps_state() {
    let mut audit = AuditActor::new();
    let bad = Trade { buy_order_id: 2, sell_order_id: 1, qty: 0, price: 100 };
    assert_eq!(audit.stats(bad), Err(AuditError::InvalidTrade));
    assert!(audit.trades.is_empty());
    assert_eq!(audit.volume_total, 0);
}

#[test]
fn audit_counts_rejections() {
    let mut audit = AuditActor::new();
    audit.rejected_order();
    audit.rejected_order();
    assert_eq!(audit.rejected_orders, 2);
    assert_eq!(audit.summary().rejected_count, 2);
}

#[test]
fn audit_handle_records_counts_and_finishes() {
    let mut audit = AuditActor::new();
    let t = Trade { buy_order_id: 2, sell_order_id: 1, qty: 4, price: 25 };
    assert_eq!(audit.handle(AuditMsg::Trade(t)), Ok(AuditStep::Recorded));
    assert_eq!(audit.handle(AuditMsg::RejectedOrder), Ok(AuditStep::Recorded));
    assert_eq!(
        audit.handle(AuditMsg::Shutdown),
        Ok(AuditStep::Finished(AuditSummary {
            total_volume: 4,
            trade_count: 1,
            rejected_count: 1,
        }))
    );
    let bad = Trade { buy_order_id: 2, sell_order_id: 1, qty: 4, price: -1 };
    assert_eq!(audit.handle(AuditMsg::Trade(bad)), Err(AuditError::InvalidTrade));
}

#[test]
fn channel_delivers_in_fifo_order() {
    // The pipeline's ordering guarantees lean on the FIFO behaviour of the
    // bounded channels that connect the stages; observe it on the real one.
    let rt = tokio::runtime::Builder::new_current_thread().build().unwrap();
    rt.block_on(async {
        let (tx, mut rx) = tokio::sync::mpsc::channel::<GatewayMsg>(32);
        let mut k: i32 = 0;
        while k < 10 {
            tx.send(GatewayMsg::NewOrder(order(k, Side::Buy, k + 1, 1)))
                .await
                .unwrap();
            k += 1;
        }
        drop(tx);
        let mut seen: Vec<GatewayMsg> = Vec::new();
        while let Some(m) = rx.recv().await {
            seen.push(m);
        }
        assert_eq!(seen.len(), 10);
        let mut k: i32 = 0;
        while (k as usize) < seen.len() {
            match seen[k as usize] {
                GatewayMsg::NewOrder(n) => assert_eq!(n.user_id, k),
                GatewayMsg::Shutdown => panic!("unexpected shutdown"),
            }
            k += 1;
        }
    });
}
