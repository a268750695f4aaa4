use monsterfi::dates::{parse_date, parse_i64, DateError};
use monsterfi::klines::{read_row, FetchError, Interval, JsonField, KlineFetch};
use monsterfi::market::{reply_price_text, api_base, binance_symbol, entry_order, exit_order, fallback_price, has_quote, ticker};
use monsterfi::sweep::{product, sweep_grid};

#[test]
fn interval_aliases() {
    assert_eq!(Interval::parse("m5"), Interval::M5);
    assert_eq!(Interval::parse("240"), Interval::H4);
    assert_eq!(Interval::parse("60"), Interval::H1);
    assert_eq!(Interval::parse("d1"), Interval::D1);
    assert_eq!(Interval::parse("15"), Interval::M15);
    assert_eq!(Interval::parse("30m"), Interval::M1);
    assert_eq!(Interval::parse("1"), Interval::M1);
    assert_eq!(Interval::H4.code(), "4h");
    assert_eq!(Interval::H4.millis(), 14_400_000);
    assert_eq!(Interval::D1.millis(), 86_400_000);
    for i in [Interval::M1, Interval::M5, Interval::M15, Interval::H1, Interval::H4, Interval::D1] {
        assert_eq!(Interval::parse(i.code()), i);
    }
}

fn text(s: &str) -> JsonField {
    JsonField::Text(s.to_string())
}

#[test]
fn reads_rows_and_defaults() {
    let row = vec![JsonField::Int(1000), text("1.5"), JsonField::Other, text("1.0"), text("1.2"), text("9")];
    let k = read_row(&row).unwrap();
    assert_eq!(k.timestamp, 1000);
    assert_eq!(k.open, "1.5");
    assert_eq!(k.high, "0");
    assert_eq!(k.volume, "9");
    let k2 = read_row(&vec![text("x"), text("1"), text("2"), text("3"), text("4"), text("5"), text("6")]).unwrap();
    assert_eq!(k2.timestamp, 0);
    assert!(read_row(&vec![JsonField::Int(1), text("1")]).is_none());
}

#[test]
fn fetch_advances_after_last_kline() {
    let mut f = KlineFetch::new(0, 200_000, 10, Interval::M1);
    assert!(f.wants_more());
    let page = Some(vec![
        Some(vec![JsonField::Int(0), text("1"), text("1"), text("1"), text("1"), text("1")]),
        None,
        Some(vec![JsonField::Int(5)]),
        Some(vec![JsonField::Int(60_000), text("2"), text("2"), text("2"), text("2"), text("2")]),
    ]);
    let ks = f.absorb(&page).unwrap();
    assert_eq!(ks.len(), 2);
    assert_eq!(f.fetched, 2);
    assert_eq!(f.next_start, 120_000);
    assert!(f.wants_more());
    let empty: Option<Vec<Option<Vec<JsonField>>>> = Some(vec![]);
    assert_eq!(f.absorb(&empty).unwrap().len(), 0);
    assert_eq!(f.next_start, 120_000);
    assert_eq!(f.absorb(&None).err(), Some(FetchError::InvalidResponse));
    f.next_start = 200_000;
    assert!(!f.wants_more());
}

#[test]
fn fetch_stops_at_limit() {
    let mut f = KlineFetch::new(0, 1_000_000_000, 1, Interval::H1);
    let page = Some(vec![Some(vec![JsonField::Int(10), text("1"), text("1"), text("1"), text("1"), text("1")])]);
    f.absorb(&page).unwrap();
    assert_eq!(f.next_start, 3_600_010);
    assert!(!f.wants_more());
}

#[test]
fn grid_in_nested_loop_order() {
    let g = sweep_grid(&vec![1, 2], &vec!['a', 'b', 'c'], &vec![true], &vec![10u8, 20], &vec![0.5f64]);
    assert_eq!(g.len(), 12);
    assert_eq!(g[0], (1, 'a', true, 10, 0.5));
    assert_eq!(g[1], (1, 'a', true, 20, 0.5));
    assert_eq!(g[2], (1, 'b', true, 10, 0.5));
    assert_eq!(g[6], (2, 'a', true, 10, 0.5));
    assert_eq!(g[11], (2, 'c', true, 20, 0.5));
    let p = product(&vec![1, 2], &vec![3, 4]);
    assert_eq!(p, vec![(1, 3), (1, 4), (2, 3), (2, 4)]);
    assert!(sweep_grid(&Vec::<u8>::new(), &vec![1], &vec![1], &vec![1], &vec![1]).is_empty());
}

#[test]
fn default_sweep_grid_has_512_points() {
    let g = sweep_grid(
        &vec![30.0, 35.0, 40.0, 45.0],
        &vec![55.0, 60.0, 65.0, 70.0],
        &vec![1.0, 1.5, 2.0, 2.5],
        &vec![3.0, 5.0, 7.0, 10.0],
        &vec![10u8, 20],
    );
    assert_eq!(g.len(), 512);
    assert_eq!(g[511], (45.0, 70.0, 2.5, 10.0, 20));
}

#[test]
fn integers_parse_like_std() {
    assert_eq!(parse_i64("1700000000"), Some(1_700_000_000));
    assert_eq!(parse_i64("-42"), Some(-42));
    assert_eq!(parse_i64("+7"), Some(7));
    assert_eq!(parse_i64("-9223372036854775808"), Some(i64::MIN));
    assert_eq!(parse_i64("9223372036854775807"), Some(i64::MAX));
    assert_eq!(parse_i64("9223372036854775808"), None);
    assert_eq!(parse_i64(""), None);
    assert_eq!(parse_i64("-"), None);
    assert_eq!(parse_i64("12a"), None);
    assert_eq!(parse_i64(" 1"), None);
    for s in ["0", "-0", "123456", "+99", "-1", "007"] {
        assert_eq!(parse_i64(s), s.parse::<i64>().ok());
    }
}

#[test]
fn dates_as_seconds_or_calendar_days() {
    assert_eq!(parse_date("1700000000"), Ok(1_700_000_000_000));
    assert_eq!(parse_date("2024-01-01"), Ok(1_704_067_200_000));
    assert_eq!(parse_date("1970-01-02"), Ok(86_400_000));
    assert_eq!(parse_date("2024-13-01"), Err(DateError::InvalidDate));
    assert_eq!(parse_date("yesterday"), Err(DateError::InvalidDate));
}

#[test]
fn symbols() {
    assert_eq!(ticker("BTCUSDT"), "BTC");
    assert_eq!(ticker("ETH"), "ETH");
    assert_eq!(ticker("USDTUSDTX"), "X");
    assert_eq!(ticker("UUSDTSDT"), "USDT");
    assert!(has_quote("SOLUSDT"));
    assert!(!has_quote("SOLUSD"));
    assert_eq!(binance_symbol("BTCUSDT"), "BTCUSDT");
    assert_eq!(binance_symbol("BTC"), "BTCUSDT");
    assert_eq!(fallback_price("SOLUSDT"), 190);
    assert_eq!(fallback_price("ETHUSDT"), 3500);
    assert_eq!(fallback_price("BTCUSDT"), 95000);
    assert_eq!(api_base(true), "https://api.hyperliquid-testnet.xyz");
    assert_eq!(api_base(false), "https://api.hyperliquid.xyz");
}

#[test]
fn orders_open_and_close_opposite_sides() {
    let e = entry_order("ETHUSDT", 20, false);
    assert_eq!(e.asset, "ETH");
    assert!(!e.is_buy);
    assert!(!e.reduce_only);
    assert_eq!(e.leverage, Some(20));
    let x = exit_order("ETHUSDT", false);
    assert_eq!(x.asset, "ETH");
    assert!(x.is_buy);
    assert!(x.reduce_only);
    assert_eq!(x.leverage, None);
}

#[test]
fn grid_lists_each_combination_once() {
    let g = sweep_grid(&vec![1u8, 2], &vec![3u8, 4, 5], &vec![6u8, 7], &vec![8u8], &vec![9u8, 10]);
    assert_eq!(g.len(), 24);
    let mut seen = std::collections::HashSet::new();
    for t in &g {
        assert!(seen.insert(*t));
    }
    let mut at = 0;
    for a in [1u8, 2] {
        for b in [3u8, 4, 5] {
            for c in [6u8, 7] {
                for d in [8u8] {
                    for e in [9u8, 10] {
                        assert_eq!(g[at], (a, b, c, d, e));
                        at += 1;
                    }
                }
            }
        }
    }
}

#[test]
fn price_text_from_replies() {
    let mids = r#"{"BTC":"71860.5","ETH":"3500.1","SOL":190}"#;
    assert_eq!(reply_price_text(mids, "BTC"), Some("71860.5".to_string()));
    assert_eq!(reply_price_text(mids, "ETH"), Some("3500.1".to_string()));
    assert_eq!(reply_price_text(mids, "SOL"), None);
    assert_eq!(reply_price_text(mids, "DOGE"), None);
    let ticker = r#"{"symbol":"BTCUSDT","price":"95000.00000000"}"#;
    assert_eq!(reply_price_text(ticker, "price"), Some("95000.00000000".to_string()));
    assert_eq!(reply_price_text("[1,2]", "price"), None);
    assert_eq!(reply_price_text("not json", "price"), None);
    assert_eq!(reply_price_text(r#"{"price":"1","price":"2"}"#, "price"), Some("2".to_string()));
}

#[test]
fn fetch_reads_reply_text() {
    let mut f = KlineFetch::new(0, 10_000_000, 100, Interval::M5);
    let body = r#"[[300000,"1.0","2.0","0.5","1.5","10",999],[600000,"1.5"],"junk",[900000,"1.6","2.1","1.1","1.7",12.5]]"#;
    let ks = f.absorb_reply(body).unwrap().unwrap();
    assert_eq!(ks.len(), 2);
    assert_eq!(ks[0].timestamp, 300000);
    assert_eq!(ks[0].close, "1.5");
    assert_eq!(ks[1].volume, "0");
    assert_eq!(f.fetched, 2);
    assert_eq!(f.next_start, 1_200_000);
    assert_eq!(f.absorb_reply(r#"{"code":-1121}"#).unwrap().err(), Some(FetchError::InvalidResponse));
    assert_eq!(f.absorb_reply("not json").unwrap().err(), Some(FetchError::InvalidResponse));
    let late = format!(r#"[[{},"1","1","1","1","1"]]"#, i64::MAX - 10);
    assert!(f.absorb_reply(&late).is_none());
    assert_eq!(f.fetched, 2);
    assert_eq!(f.next_start, 1_200_000);
}
