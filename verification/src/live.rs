//! The live trader: the orders it sends as positions open and close.

use vstd::prelude::*;
use vstd::string::StringExecFns;

use crate::market::{entry_order, exit_order, quote, remove_all, spec_entry_order, spec_exit_order, OrderIntent, OrderView};
use crate::trading::{Book, ExitReason, Position};

verus! {

/// Order `i` of a live trader's orders on `symbol`: the even ones open a
/// position (at `leverage`, on their own side), each odd one closes the
/// position that the order before it opened.
pub open spec fn order_fits(orders: Seq<OrderView>, symbol: Seq<char>, leverage: u8, i: int) -> bool {
    if i % 2 == 0 {
        orders[i] == spec_entry_order(symbol, leverage, orders[i].is_buy)
    } else {
        orders[i] == spec_exit_order(symbol, orders[i - 1].is_buy)
    }
}

/// Entry and exit orders alternate, starting with an entry, and each exit
/// reverses the entry before it.
pub open spec fn orders_alternate(orders: Seq<OrderView>, symbol: Seq<char>, leverage: u8) -> bool {
    forall|i: int| 0 <= i < orders.len() ==> #[trigger] order_fits(orders, symbol, leverage, i)
}

/// In a trader's orders, every even-numbered one opens a position at the
/// trader's leverage on its coin, not reduce-only; every odd-numbered one
/// closes the position before it: same coin, opposite side, reduce-only,
/// no leverage.
pub proof fn law_orders_alternate(orders: Seq<OrderView>, symbol: Seq<char>, leverage: u8, i: int)
    requires
        orders_alternate(orders, symbol, leverage),
        0 <= i < orders.len(),
    ensures
        i % 2 == 0 ==> orders[i].leverage == Some(leverage) && !orders[i].reduce_only && orders[i].asset
            == remove_all(symbol, quote()),
        i % 2 == 1 ==> orders[i].leverage is None && orders[i].reduce_only && orders[i].is_buy
            == !orders[i - 1].is_buy && orders[i].asset == orders[i - 1].asset,
{
    assert(order_fits(orders, symbol, leverage, i));
    if i % 2 == 1 {
        assert(order_fits(orders, symbol, leverage, i - 1));
    }
}

/// A live trader on one symbol at one leverage: its book and every order
/// it has sent.
pub struct LiveTrader {
    symbol: String,
    leverage: u8,
    book: Book,
    orders: Ghost<Seq<OrderView>>,
}

impl LiveTrader {
    #[verifier::type_invariant]
    spec fn well_kept(self) -> bool {
        &&& orders_alternate(self.orders@, self.symbol@, self.leverage)
        &&& (self.book.spec_position() != Position::Flat <==> self.orders@.len() % 2 == 1)
        &&& (self.book.spec_position() != Position::Flat ==> self.orders@.last().is_buy == (
        self.book.spec_position() == Position::Long))
    }

    pub closed spec fn spec_symbol(&self) -> Seq<char> {
        self.symbol@
    }

    pub closed spec fn spec_leverage(&self) -> u8 {
        self.leverage
    }

    /// Every order sent so far, oldest first.
    pub closed spec fn orders(&self) -> Seq<OrderView> {
        self.orders@
    }

    pub closed spec fn spec_position(&self) -> Position {
        self.book.spec_position()
    }

    /// A flat trader that has sent nothing.
    pub fn new(symbol: &str, leverage: u8) -> (t: LiveTrader)
        ensures
            t.spec_symbol() == symbol@,
            t.spec_leverage() == leverage,
            t.orders() == Seq::<OrderView>::empty(),
            t.spec_position() == Position::Flat,
    {
        LiveTrader { symbol: String::from_str(symbol), leverage, book: Book::new(), orders: Ghost(Seq::empty()) }
    }

    pub fn position(&self) -> (p: Position)
        ensures
            p == self.spec_position(),
            orders_alternate(self.orders(), self.spec_symbol(), self.spec_leverage()),
    {
        proof {
            use_type_invariant(self);
        }
        self.book.position()
    }

    /// Opens `decision` at `time` when flat and the decision is a direction,
    /// and returns the entry order to send; otherwise nothing changes.
    pub fn open(&mut self, decision: Position, time: i64) -> (o: Option<OrderIntent>)
        ensures
            final(self).spec_symbol() == old(self).spec_symbol(),
            final(self).spec_leverage() == old(self).spec_leverage(),
            orders_alternate(final(self).orders(), final(self).spec_symbol(), final(self).spec_leverage()),
            (old(self).spec_position() == Position::Flat && decision != Position::Flat) ==> {
                &&& o matches Some(x) && x@ == spec_entry_order(
                    old(self).spec_symbol(),
                    old(self).spec_leverage(),
                    decision == Position::Long,
                )
                &&& final(self).orders() == old(self).orders().push(o->0@)
                &&& final(self).spec_position() == decision
            },
            !(old(self).spec_position() == Position::Flat && decision != Position::Flat) ==> {
                &&& o is None
                &&& final(self).orders() == old(self).orders()
                &&& final(self).spec_position() == old(self).spec_position()
            },
    {
        proof {
            use_type_invariant(&*self);
        }
        if self.book.position() != Position::Flat || decision == Position::Flat {
            return None;
        }
        let mut taken = LiveTrader { symbol: String::new(), leverage: 0, book: Book::new(), orders: Ghost(Seq::empty()) };
        std::mem::swap(&mut taken, self);
        let LiveTrader { symbol, leverage, mut book, orders } = taken;
        let is_long = decision == Position::Long;
        let order = entry_order(symbol.as_str(), leverage, is_long);
        book.enter(decision, time);
        let ghost os = orders@.push(order@);
        proof {
            assert forall|i: int| 0 <= i < os.len() implies #[trigger] order_fits(os, symbol@, leverage, i) by {
                if i < orders@.len() {
                    assert(order_fits(orders@, symbol@, leverage, i));
                    if i % 2 == 1 {
                        assert(os[i - 1] == orders@[i - 1]);
                    }
                }
            }
        }
        *self = LiveTrader { symbol, leverage, book, orders: Ghost(os) };
        Some(order)
    }

    /// Closes the open position at `time` for `reason` and returns the exit
    /// order to send; on a flat trader nothing changes.
    pub fn close(&mut self, time: i64, reason: ExitReason) -> (o: Option<OrderIntent>)
        requires
            reason != ExitReason::EndOfPeriod,
        ensures
            final(self).spec_symbol() == old(self).spec_symbol(),
            final(self).spec_leverage() == old(self).spec_leverage(),
            orders_alternate(final(self).orders(), final(self).spec_symbol(), final(self).spec_leverage()),
            final(self).spec_position() == Position::Flat,
            old(self).spec_position() != Position::Flat ==> {
                &&& o matches Some(x) && x@ == spec_exit_order(
                    old(self).spec_symbol(),
                    old(self).spec_position() == Position::Long,
                )
                &&& final(self).orders() == old(self).orders().push(o->0@)
            },
            old(self).spec_position() == Position::Flat ==> o is None && final(self).orders() == old(
                self,
            ).orders(),
    {
        proof {
            use_type_invariant(&*self);
        }
        if self.book.position() == Position::Flat {
            return None;
        }
        let mut taken = LiveTrader { symbol: String::new(), leverage: 0, book: Book::new(), orders: Ghost(Seq::empty()) };
        std::mem::swap(&mut taken, self);
        let LiveTrader { symbol, leverage, mut book, orders } = taken;
        let is_long = book.position() == Position::Long;
        let order = exit_order(symbol.as_str(), is_long);
        let _ = book.close(time, reason);
        let ghost os = orders@.push(order@);
        proof {
            assert forall|i: int| 0 <= i < os.len() implies #[trigger] order_fits(os, symbol@, leverage, i) by {
                if i < orders@.len() {
                    assert(order_fits(orders@, symbol@, leverage, i));
                    if i % 2 == 1 {
                        assert(os[i - 1] == orders@[i - 1]);
                    }
                } else {
                    assert(os[i - 1] == orders@.last());
                }
            }
        }
        *self = LiveTrader { symbol, leverage, book, orders: Ghost(os) };
        Some(order)
    }
}

} // verus!
