//! Trading symbols, venues and the orders the agent sends.

use vstd::prelude::*;
use vstd::string::StringExecFns;

use vstd::string::StrSliceExecFns;

use crate::text::{chars_of, text_eq};

verus! {

/// The quote currency that Binance symbols end in.
pub open spec fn quote() -> Seq<char> {
    seq!['U', 'S', 'D', 'T']
}

/// `s` with every occurrence of `pat` removed, matches taken left to
/// right without overlapping (as `str::replace(pat, "")` does).
pub open spec fn remove_all(s: Seq<char>, pat: Seq<char>) -> Seq<char>
    decreases s.len(),
{
    if pat.len() == 0 || s.len() < pat.len() {
        s
    } else if s.take(pat.len() as int) == pat {
        remove_all(s.skip(pat.len() as int), pat)
    } else {
        seq![s[0]] + remove_all(s.drop_first(), pat)
    }
}

/// Whether `pat` occurs in `s`.
pub open spec fn occurs_in(pat: Seq<char>, s: Seq<char>) -> bool {
    exists|i: int| 0 <= i && i + pat.len() <= s.len() && #[trigger] s.subrange(i, i + pat.len()) == pat
}

fn quote_at(cs: &Vec<char>, i: usize) -> (b: bool)
    requires
        i + 4 <= cs.len(),
    ensures
        b == (cs@.subrange(i as int, i + 4) == quote()),
{
    let b = cs[i] == 'U' && cs[i + 1] == 'S' && cs[i + 2] == 'D' && cs[i + 3] == 'T';
    if b {
        assert(cs@.subrange(i as int, i + 4) =~= quote());
    } else {
        proof {
            if cs@.subrange(i as int, i + 4) == quote() {
                assert(cs@.subrange(i as int, i + 4)[0] == 'U');
                assert(cs@.subrange(i as int, i + 4)[1] == 'S');
                assert(cs@.subrange(i as int, i + 4)[2] == 'D');
                assert(cs@.subrange(i as int, i + 4)[3] == 'T');
            }
        }
    }
    b
}

/// The coin of a symbol, as Hyperliquid names it: the symbol with "USDT"
/// removed wherever it occurs.
pub fn ticker(symbol: &str) -> (t: String)
    ensures
        t@ == remove_all(symbol@, quote()),
{
    let cs = chars_of(symbol);
    let n = cs.len();
    let mut out = String::new();
    let mut i: usize = 0;
    assert(cs@.skip(0) =~= cs@);
    assert(out@ + remove_all(cs@, quote()) =~= remove_all(cs@, quote()));
    while i < n
        invariant
            cs@ == symbol@,
            n == cs@.len(),
            i <= n,
            out@ + remove_all(cs@.skip(i as int), quote()) == remove_all(cs@, quote()),
        decreases n - i,
    {
        let ghost rest = cs@.skip(i as int);
        if n - i >= 4 && quote_at(&cs, i) {
            assert(rest.take(4) =~= cs@.subrange(i as int, i + 4));
            assert(rest.skip(4) =~= cs@.skip(i + 4));
            i = i + 4;
        } else {
            if n - i >= 4 {
                assert(rest.take(4) =~= cs@.subrange(i as int, i + 4));
            }
            assert(rest.drop_first() =~= cs@.skip(i + 1));
            let ghost before = out@;
            let piece = symbol.substring_char(i, i + 1);
            assert(piece@ =~= seq![cs@[i as int]]);
            out.append(piece);
            assert(out@ + remove_all(cs@.skip(i + 1), quote()) =~= before + (seq![cs@[i as int]] + remove_all(rest.drop_first(), quote())));
            i = i + 1;
        }
    }
    assert(cs@.skip(n as int) =~= Seq::<char>::empty());
    assert(out@ + Seq::<char>::empty() =~= out@);
    out
}

/// Whether "USDT" occurs in `symbol`.
pub fn has_quote(symbol: &str) -> (b: bool)
    ensures
        b == occurs_in(quote(), symbol@),
{
    let cs = chars_of(symbol);
    let n = cs.len();
    let mut i: usize = 0;
    while i < n && n - i >= 4
        invariant
            cs@ == symbol@,
            n == cs@.len(),
            i <= n,
            forall|j: int| 0 <= j < i && j + 4 <= n ==> #[trigger] cs@.subrange(j, j + 4) != quote(),
        decreases n - i,
    {
        if quote_at(&cs, i) {
            assert(symbol@.subrange(i as int, i + quote().len()) == quote());
            return true;
        }
        i = i + 1;
    }
    assert forall|j: int| 0 <= j && j + quote().len() <= symbol@.len() implies #[trigger] symbol@.subrange(
        j,
        j + quote().len(),
    ) != quote() by {
        assert(j < i);
    }
    false
}

/// The Binance symbol for a user-given symbol: as given when it holds
/// "USDT", with "USDT" appended otherwise.
pub open spec fn spec_binance_symbol(symbol: Seq<char>) -> Seq<char> {
    if occurs_in(quote(), symbol) {
        symbol
    } else {
        symbol + quote()
    }
}

pub fn binance_symbol(symbol: &str) -> (s: String)
    ensures
        s@ == spec_binance_symbol(symbol@),
{
    if has_quote(symbol) {
        String::from_str(symbol)
    } else {
        proof {
            reveal_strlit("USDT");
            assert("USDT"@ =~= quote());
        }
        String::from_str(symbol).concat("USDT")
    }
}

/// Every Binance symbol the agent asks for is quoted in USDT.
pub proof fn law_binance_symbol_quoted(symbol: Seq<char>)
    ensures
        occurs_in(quote(), spec_binance_symbol(symbol)),
{
    if !occurs_in(quote(), symbol) {
        let s = symbol + quote();
        assert(s.subrange(symbol.len() as int, symbol.len() + quote().len() as int) =~= quote());
    }
}

/// The entries of a JSON object: each key with its value when the value is
/// a string, `None` for a value of any other kind.
pub open spec fn entry_view(e: (String, Option<String>)) -> (Seq<char>, Option<Seq<char>>) {
    (
        e.0@,
        match e.1 {
            Some(t) => Some(t@),
            None => None,
        },
    )
}

/// What serde_json reads from a reply body: `None` when the body is not
/// JSON text or not an object, otherwise the object's entries in serde_json's
/// own order, each key with its string value (or `None` for a value that
/// is not a string).
pub uninterp spec fn spec_object_strings(body: Seq<char>) -> Option<Seq<(Seq<char>, Option<Seq<char>>)>>;

/// Calls `serde_json::from_str::<serde_json::Value>(body)` and, on an
/// object, converts its entries one for one (`Value::as_str` for the
/// values).  Claimed: the result depends on the text of `body` alone, as
/// named by [`spec_object_strings`]; which texts serde_json accepts, and in
/// what order it keeps the keys, is not stated.
#[verifier::external_body]
fn object_strings(body: &str) -> (r: Option<Vec<(String, Option<String>)>>)
    ensures
        r is None <==> spec_object_strings(body@) is None,
        r matches Some(v) ==> v@.map_values(|e: (String, Option<String>)| entry_view(e))
            == spec_object_strings(body@)->0,
{
    match serde_json::from_str::<serde_json::Value>(body) {
        Ok(serde_json::Value::Object(m)) => {
            let mut v = Vec::new();
            for (k, x) in m.iter() {
                v.push((k.clone(), x.as_str().map(String::from)));
            }
            Some(v)
        },
        _ => None,
    }
}

/// The string stored under `key` among `entries`: the value of the first
/// entry with that key, if that value is a string.
pub open spec fn spec_string_at(entries: Seq<(Seq<char>, Option<Seq<char>>)>, key: Seq<char>) -> Option<Seq<char>>
    decreases entries.len(),
{
    if entries.len() == 0 {
        None
    } else if entries[0].0 == key {
        entries[0].1
    } else {
        spec_string_at(entries.drop_first(), key)
    }
}

/// The price text that a venue's JSON reply holds under `key` (the coin for
/// Hyperliquid's mid prices, "price" for Binance's ticker): `None` when the
/// reply is not a JSON object or holds no string under that key.
pub fn reply_price_text(body: &str, key: &str) -> (r: Option<String>)
    ensures
        (match r {
            Some(t) => Some(t@),
            None => None,
        }) == match spec_object_strings(body@) {
            Some(es) => spec_string_at(es, key@),
            None => None,
        },
{
    let entries = match object_strings(body) {
        Some(v) => v,
        None => return None,
    };
    let ghost es = spec_object_strings(body@)->0;
    let n = entries.len();
    let mut i: usize = 0;
    assert(es.skip(0) =~= es);
    while i < n
        invariant
            n == entries@.len(),
            i <= n,
            es == entries@.map_values(|e: (String, Option<String>)| entry_view(e)),
            spec_object_strings(body@) == Some(es),
            spec_string_at(es, key@) == spec_string_at(es.skip(i as int), key@),
        decreases n - i,
    {
        let e = &entries[i];
        assert(es.skip(i as int)[0] == entry_view(*e));
        assert(es.skip(i as int).drop_first() =~= es.skip(i + 1));
        if text_eq(e.0.as_str(), key) {
            assert(es.skip(i as int).len() > 0);
            assert(spec_string_at(es.skip(i as int), key@) == entry_view(*e).1);
            let r = match &e.1 {
                Some(t) => Some(t.clone()),
                None => None,
            };
            assert(spec_object_strings(body@) == Some(es));
            assert((match r {
                Some(t) => Some(t@),
                None => None,
            }) == entry_view(*e).1);
            return r;
        }
        i = i + 1;
    }
    None
}

/// The price, in whole dollars, assumed for a symbol when no venue answers.
pub open spec fn spec_fallback_price(symbol: Seq<char>) -> u32 {
    if symbol == "SOLUSDT"@ {
        190
    } else if symbol == "ETHUSDT"@ {
        3500
    } else {
        95000
    }
}

pub fn fallback_price(symbol: &str) -> (p: u32)
    ensures
        p == spec_fallback_price(symbol@),
{
    if text_eq(symbol, "SOLUSDT") {
        190
    } else if text_eq(symbol, "ETHUSDT") {
        3500
    } else {
        95000
    }
}

/// The Hyperliquid API root, on testnet or mainnet.
pub fn api_base(testnet: bool) -> (s: &'static str)
    ensures
        testnet ==> s@ == "https://api.hyperliquid-testnet.xyz"@,
        !testnet ==> s@ == "https://api.hyperliquid.xyz"@,
{
    if testnet {
        "https://api.hyperliquid-testnet.xyz"
    } else {
        "https://api.hyperliquid.xyz"
    }
}

/// A market order, without its size: the coin, the side (buy or sell),
/// whether it may only reduce a position, and the leverage it opens with.
pub struct OrderIntent {
    pub asset: String,
    pub is_buy: bool,
    pub reduce_only: bool,
    pub leverage: Option<u8>,
}

pub struct OrderView {
    pub asset: Seq<char>,
    pub is_buy: bool,
    pub reduce_only: bool,
    pub leverage: Option<u8>,
}

impl View for OrderIntent {
    type V = OrderView;

    open spec fn view(&self) -> OrderView {
        OrderView {
            asset: self.asset@,
            is_buy: self.is_buy,
            reduce_only: self.reduce_only,
            leverage: self.leverage,
        }
    }
}

pub open spec fn spec_entry_order(symbol: Seq<char>, leverage: u8, is_long: bool) -> OrderView {
    OrderView { asset: remove_all(symbol, quote()), is_buy: is_long, reduce_only: false, leverage: Some(leverage) }
}

pub open spec fn spec_exit_order(symbol: Seq<char>, is_long: bool) -> OrderView {
    OrderView { asset: remove_all(symbol, quote()), is_buy: !is_long, reduce_only: true, leverage: None }
}

/// The order that opens a position on `symbol`: a buy for a long, a sell
/// for a short, at the given leverage, not reduce-only.
pub fn entry_order(symbol: &str, leverage: u8, is_long: bool) -> (o: OrderIntent)
    ensures
        o@ == spec_entry_order(symbol@, leverage, is_long),
{
    OrderIntent { asset: ticker(symbol), is_buy: is_long, reduce_only: false, leverage: Some(leverage) }
}

/// The order that closes a position on `symbol`: the opposite side to the
/// entry, reduce-only, with no leverage of its own.
pub fn exit_order(symbol: &str, is_long: bool) -> (o: OrderIntent)
    ensures
        o@ == spec_exit_order(symbol@, is_long),
{
    OrderIntent { asset: ticker(symbol), is_buy: !is_long, reduce_only: true, leverage: None }
}

/// An entry order is a market order on the symbol's coin, on the side of the
/// position (buy for a long), at exactly the leverage asked for, and not
/// reduce-only; two entries that differ only in leverage differ in it.  An
/// exit order carries no leverage and can only reduce.
pub proof fn law_order_fields(symbol: Seq<char>, leverage: u8, other: u8, is_long: bool)
    ensures
        spec_entry_order(symbol, leverage, is_long).leverage == Some(leverage),
        spec_entry_order(symbol, leverage, is_long).is_buy == is_long,
        !spec_entry_order(symbol, leverage, is_long).reduce_only,
        spec_entry_order(symbol, leverage, is_long).asset == remove_all(symbol, quote()),
        leverage != other ==> spec_entry_order(symbol, leverage, is_long).leverage != spec_entry_order(
            symbol,
            other,
            is_long,
        ).leverage,
        spec_exit_order(symbol, is_long).leverage is None,
        spec_exit_order(symbol, is_long).reduce_only,
        spec_exit_order(symbol, is_long).is_buy == !is_long,
        spec_exit_order(symbol, is_long).asset == remove_all(symbol, quote()),
{
}

/// The order that closes a position trades the same coin as the order
/// that opened it, on the other side, and can only reduce the position.
pub proof fn law_exit_reverses_entry(symbol: Seq<char>, leverage: u8, is_long: bool)
    ensures
        spec_exit_order(symbol, is_long).asset == spec_entry_order(symbol, leverage, is_long).asset,
        spec_exit_order(symbol, is_long).is_buy != spec_entry_order(symbol, leverage, is_long).is_buy,
        spec_exit_order(symbol, is_long).reduce_only,
        !spec_entry_order(symbol, leverage, is_long).reduce_only,
{
}

} // verus!
