use titan_core::float::Float64;
use titan_core::orderbook::{GlobalOrderBook, Trade};
use titan_core::tick::MarketTick;

fn price(x: f64) -> Float64 {
    Float64::from_bits(x.to_bits())
}

fn tick(side: u8, p: f64, quantity: u64, id: u64) -> MarketTick {
    MarketTick::new("AAPL", price(p), quantity, side, id)
}

#[test]
fn a_new_book_is_empty() {
    let book = GlobalOrderBook::new();
    assert_eq!(book.best_bid(), price(0.0));
    assert_eq!(book.best_ask(), price(999_999.9));
    assert_eq!(book.trades_count(), 0);
    assert_eq!(book.depth(), 0);
}

#[test]
fn thirty_two_identical_bids_all_rest() {
    let mut book = GlobalOrderBook::new();
    for id in 0..32 {
        assert_eq!(book.execute_order(&tick(1, 100.0, 10, id)), None);
    }
    assert_eq!(book.trades_count(), 0);
    assert_eq!(book.depth(), 32);
    assert_eq!(book.best_bid(), price(100.0));
    assert_eq!(book.best_ask(), price(999_999.9));
}

#[test]
fn alternating_bids_and_asks_at_one_price() {
    let mut book = GlobalOrderBook::new();
    let mut trades = Vec::new();
    for id in 0..64u64 {
        let side = if id % 2 == 0 { 1 } else { 2 };
        if let Some(t) = book.execute_order(&tick(side, 100.0, 10, id)) {
            trades.push(t);
        }
    }
    // A bid meets the best ask only, and no ask ever rests here: each bid rests and each ask
    // crosses the first bid.
    assert_eq!(book.trades_count(), 32);
    assert_eq!(trades.len(), 32);
    assert_eq!(book.depth(), 32);
    assert_eq!(book.best_bid(), price(100.0));
    assert_eq!(book.best_ask(), price(999_999.9));
    for (i, t) in trades.iter().enumerate() {
        assert_eq!(
            *t,
            Trade {
                price: price(100.0),
                quantity: 10,
                buyer_order_id: 0,
                seller_order_id: 2 * i as u64 + 1
            }
        );
    }
}

#[test]
fn a_bid_at_or_above_the_best_ask_trades_at_the_best_ask() {
    let mut book = GlobalOrderBook::new();
    assert_eq!(book.execute_order(&tick(2, 101.0, 5, 1)), None);
    assert_eq!(book.best_ask(), price(101.0));
    assert_eq!(book.execute_order(&tick(1, 100.99, 5, 2)), None);
    assert_eq!(
        book.execute_order(&tick(1, 101.0, 7, 3)),
        Some(Trade { price: price(101.0), quantity: 7, buyer_order_id: 3, seller_order_id: 0 })
    );
    assert_eq!(
        book.execute_order(&tick(1, 250.0, 9, 4)),
        Some(Trade { price: price(101.0), quantity: 9, buyer_order_id: 4, seller_order_id: 0 })
    );
    assert_eq!(book.trades_count(), 2);
    assert_eq!(book.depth(), 2);
    assert_eq!(book.best_bid(), price(100.99));
    assert_eq!(book.best_ask(), price(101.0));
}

#[test]
fn an_ask_at_or_below_the_best_bid_trades_at_the_best_bid() {
    let mut book = GlobalOrderBook::new();
    assert_eq!(book.execute_order(&tick(1, 50.0, 5, 1)), None);
    assert_eq!(book.execute_order(&tick(2, 50.5, 5, 2)), None);
    assert_eq!(
        book.execute_order(&tick(2, 50.0, 3, 3)),
        Some(Trade { price: price(50.0), quantity: 3, buyer_order_id: 0, seller_order_id: 3 })
    );
    assert_eq!(
        book.execute_order(&tick(2, 1.0, 4, 4)),
        Some(Trade { price: price(50.0), quantity: 4, buyer_order_id: 0, seller_order_id: 4 })
    );
    assert_eq!(book.trades_count(), 2);
    assert_eq!(book.depth(), 2);
}

#[test]
fn every_side_but_one_is_an_ask() {
    let mut book = GlobalOrderBook::new();
    assert_eq!(book.execute_order(&tick(0, 10.0, 1, 1)), None);
    assert_eq!(book.best_ask(), price(10.0));
    assert_eq!(book.execute_order(&tick(7, 9.0, 1, 2)), None);
    assert_eq!(book.best_ask(), price(9.0));
    assert_eq!(book.best_bid(), price(0.0));
}

#[test]
fn best_prices_only_improve() {
    let mut book = GlobalOrderBook::new();
    for (id, p) in [10.0, 12.0, 11.0, 12.0, 3.0].into_iter().enumerate() {
        book.execute_order(&tick(1, p, 1, id as u64));
    }
    assert_eq!(book.best_bid(), price(12.0));
    for (id, p) in [20.0, 18.0, 19.0, 18.0, 30.0].into_iter().enumerate() {
        book.execute_order(&tick(2, p, 1, 100 + id as u64));
    }
    assert_eq!(book.best_ask(), price(18.0));
    assert_eq!(book.depth(), 10);
    assert_eq!(book.trades_count(), 0);
}

#[test]
fn an_order_with_a_known_id_replaces_the_resting_one() {
    let mut book = GlobalOrderBook::new();
    book.execute_order(&tick(1, 10.0, 1, 42));
    book.execute_order(&tick(1, 11.0, 2, 42));
    assert_eq!(book.depth(), 1);
    book.execute_order(&tick(2, 500.0, 2, 42));
    assert_eq!(book.depth(), 2);
}

#[test]
fn a_price_that_is_not_a_number_rests_and_moves_nothing() {
    let mut book = GlobalOrderBook::new();
    assert_eq!(book.execute_order(&tick(1, f64::NAN, 1, 1)), None);
    assert_eq!(book.execute_order(&tick(2, f64::NAN, 1, 2)), None);
    assert_eq!(book.depth(), 2);
    assert_eq!(book.best_bid(), price(0.0));
    assert_eq!(book.best_ask(), price(999_999.9));
}

#[test]
fn the_book_is_never_crossed() {
    let mut book = GlobalOrderBook::new();
    let mut state = 0x9e37_79b9_7f4a_7c15u64;
    for id in 0..5_000u64 {
        state ^= state << 13;
        state ^= state >> 7;
        state ^= state << 17;
        let side = 1 + (state % 2) as u8;
        let p = 90.0 + (state >> 8) as f64 % 2000.0 / 100.0;
        let t = tick(side, p, 1 + state % 10, id);
        assert_eq!(book.crosses(&t), if side == 1 {
            p >= f64::from_bits(book.best_ask().to_bits())
        } else {
            p <= f64::from_bits(book.best_bid().to_bits())
        });
        book.execute_order(&t);
        assert!(book.best_bid().lt(book.best_ask()));
    }
    assert!(book.trades_count() > 0);
    assert!(book.depth() > 0);
}
