//! Shopping carts: their items, quantities and coupons.

use crate::text::{spells, text_view};
use vstd::prelude::*;
use vstd::string::StringExecFns;

verus! {

/// An amount of money. The library carries amounts and never computes with
/// them: one is nothing, or the JSON number that it was given as.
#[derive(Debug, Clone, PartialEq)]
pub enum Amount {
    Zero,
    Given(serde_json::Number),
}

/// One line of a cart.
#[derive(Debug, Clone, PartialEq)]
pub struct CartItem {
    pub sku: String,
    pub pid: String,
    pub prod_name: String,
    pub qty: u32,
    pub base_price: Amount,
    pub price: Amount,
    pub variations: Option<Vec<(String, String)>>,
}

/// The totals of a cart.
#[derive(Debug, Clone, PartialEq)]
pub struct CartSummary {
    pub items_total: Amount,
    pub shipping_total: Amount,
    pub tax_total: Amount,
    pub discount_total: Amount,
    pub balance_due: Amount,
}

/// How the customer wants to check out.
#[derive(Debug, Clone, PartialEq, Eq)]
pub struct CheckoutPreferences {
    pub shipping_id: Option<String>,
    pub payby: Option<String>,
}

/// A cart: its lines in the order in which they were added, its totals, the
/// checkout preferences and the coupon codes entered.
#[derive(Debug, Clone, PartialEq)]
pub struct Cart {
    pub cart_id: String,
    pub items: Vec<CartItem>,
    pub sum: CartSummary,
    pub want: CheckoutPreferences,
    pub coupons: Vec<String>,
}

/// Why an operation on a cart was not carried out.
#[derive(Debug, Clone, PartialEq, Eq)]
pub enum CartError {
    /// There is no cart of this id.
    CartNotFound(String),
    /// The cart has no line of this stock-keeping unit.
    ItemNotFound(String),
    /// The quantities of this stock-keeping unit, or of the whole cart, add
    /// up to more than a quantity can hold.
    QuantityOverflow,
}

/// What a `CartError` says.
pub enum CartErrorView {
    CartNotFound(Seq<char>),
    ItemNotFound(Seq<char>),
    QuantityOverflow,
}

impl View for CartError {
    type V = CartErrorView;

    open spec fn view(&self) -> CartErrorView {
        match *self {
            CartError::CartNotFound(id) => CartErrorView::CartNotFound(id@),
            CartError::ItemNotFound(sku) => CartErrorView::ItemNotFound(sku@),
            CartError::QuantityOverflow => CartErrorView::QuantityOverflow,
        }
    }
}

impl CartErrorView {
    /// The sentence that tells the error.
    pub open spec fn message(self) -> Seq<char> {
        match self {
            CartErrorView::CartNotFound(id) => "Cart "@ + id + " not found"@,
            CartErrorView::ItemNotFound(sku) => "Item "@ + sku + " not found in cart"@,
            CartErrorView::QuantityOverflow => "Quantity out of range"@,
        }
    }
}

impl CartError {
    /// The sentence that tells the error.
    pub fn message(&self) -> (text: String)
        ensures
            text@ == self@.message(),
    {
        match self {
            CartError::CartNotFound(id) => "Cart ".to_owned().concat(id.as_str()).concat(
                " not found",
            ),
            CartError::ItemNotFound(sku) => "Item ".to_owned().concat(sku.as_str()).concat(
                " not found in cart",
            ),
            CartError::QuantityOverflow => "Quantity out of range".to_owned(),
        }
    }
}

/// What a list of pairs of texts says.
pub open spec fn pair_views(pairs: Seq<(String, String)>) -> Seq<(Seq<char>, Seq<char>)> {
    pairs.map_values(|p: (String, String)| (p.0@, p.1@))
}

/// What a `CartItem` says.
pub struct CartItemView {
    pub sku: Seq<char>,
    pub pid: Seq<char>,
    pub prod_name: Seq<char>,
    pub qty: u32,
    pub base_price: Amount,
    pub price: Amount,
    pub variations: Option<Seq<(Seq<char>, Seq<char>)>>,
}

impl View for CartItem {
    type V = CartItemView;

    open spec fn view(&self) -> CartItemView {
        CartItemView {
            sku: self.sku@,
            pid: self.pid@,
            prod_name: self.prod_name@,
            qty: self.qty,
            base_price: self.base_price,
            price: self.price,
            variations: match self.variations {
                Some(pairs) => Some(pair_views(pairs@)),
                None => None,
            },
        }
    }
}

/// What `CheckoutPreferences` say.
pub struct CheckoutPreferencesView {
    pub shipping_id: Option<Seq<char>>,
    pub payby: Option<Seq<char>>,
}

impl View for CheckoutPreferences {
    type V = CheckoutPreferencesView;

    open spec fn view(&self) -> CheckoutPreferencesView {
        CheckoutPreferencesView {
            shipping_id: text_view(self.shipping_id),
            payby: text_view(self.payby),
        }
    }
}

/// What a list of lines says.
pub open spec fn item_views(items: Seq<CartItem>) -> Seq<CartItemView> {
    items.map_values(|item: CartItem| item@)
}

/// What a list of texts says.
pub open spec fn text_views(texts: Seq<String>) -> Seq<Seq<char>> {
    texts.map_values(|text: String| text@)
}

/// What a `Cart` says.
pub struct CartView {
    pub cart_id: Seq<char>,
    pub items: Seq<CartItemView>,
    pub sum: CartSummary,
    pub want: CheckoutPreferencesView,
    pub coupons: Seq<Seq<char>>,
}

impl View for Cart {
    type V = CartView;

    open spec fn view(&self) -> CartView {
        CartView {
            cart_id: self.cart_id@,
            items: item_views(self.items@),
            sum: self.sum,
            want: self.want@,
            coupons: text_views(self.coupons@),
        }
    }
}

/// Totals of nothing.
pub open spec fn no_totals() -> CartSummary {
    CartSummary {
        items_total: Amount::Zero,
        shipping_total: Amount::Zero,
        tax_total: Amount::Zero,
        discount_total: Amount::Zero,
        balance_due: Amount::Zero,
    }
}

/// The place of the first line of a stock-keeping unit, or the number of
/// lines where there is none.
pub open spec fn line_of(items: Seq<CartItemView>, sku: Seq<char>) -> int
    decreases items.len(),
{
    if items.len() == 0 || items[0].sku == sku {
        0
    } else {
        1 + line_of(items.drop_first(), sku)
    }
}

/// The lines that are not of a stock-keeping unit, in their order.
pub open spec fn without_sku(items: Seq<CartItemView>, sku: Seq<char>) -> Seq<CartItemView> {
    items.filter(|item: CartItemView| item.sku != sku)
}

/// The sum of the quantities of all lines.
pub open spec fn total_quantity(items: Seq<CartItemView>) -> nat
    decreases items.len(),
{
    if items.len() == 0 {
        0
    } else {
        total_quantity(items.drop_last()) + items.last().qty as nat
    }
}

impl CartView {
    /// A cart with no lines, no coupons, no preferences and totals of nothing.
    pub open spec fn empty(cart_id: Seq<char>) -> CartView {
        CartView {
            cart_id,
            items: Seq::empty(),
            sum: no_totals(),
            want: CheckoutPreferencesView { shipping_id: None, payby: None },
            coupons: Seq::empty(),
        }
    }

    /// The cart after an item was added: the first line of the item's
    /// stock-keeping unit takes the item's quantity on top of its own; where
    /// there is no such line, the item becomes the last line. Nothing where
    /// the quantities add up to more than a quantity can hold.
    pub open spec fn with_item(self, item: CartItemView) -> Option<CartView> {
        let line = line_of(self.items, item.sku);
        if line >= self.items.len() {
            Some(CartView { items: self.items.push(item), ..self })
        } else if self.items[line].qty + item.qty > u32::MAX {
            None
        } else {
            Some(
                CartView {
                    items: self.items.update(
                        line,
                        CartItemView {
                            qty: (self.items[line].qty + item.qty) as u32,
                            ..self.items[line]
                        },
                    ),
                    ..self
                },
            )
        }
    }

    /// The cart after the quantity of a stock-keeping unit was set: the first
    /// line of the unit gets the quantity, and a quantity of 0 removes every
    /// line of the unit. Nothing where the cart has no line of the unit.
    pub open spec fn with_quantity(self, sku: Seq<char>, qty: u32) -> Option<CartView> {
        let line = line_of(self.items, sku);
        if line >= self.items.len() {
            None
        } else if qty == 0 {
            Some(self.without(sku))
        } else {
            Some(
                CartView {
                    items: self.items.update(line, CartItemView { qty, ..self.items[line] }),
                    ..self
                },
            )
        }
    }

    /// The cart without the lines of a stock-keeping unit.
    pub open spec fn without(self, sku: Seq<char>) -> CartView {
        CartView { items: without_sku(self.items, sku), ..self }
    }

    /// The cart after a coupon code was entered: a code that is new becomes
    /// the last one, a code that is there already changes nothing.
    pub open spec fn with_coupon(self, coupon: Seq<char>) -> CartView {
        if self.coupons.contains(coupon) {
            self
        } else {
            CartView { coupons: self.coupons.push(coupon), ..self }
        }
    }

    /// The cart after it was cleared: no lines, no coupons, totals of nothing.
    pub open spec fn cleared(self) -> CartView {
        CartView { items: Seq::empty(), coupons: Seq::empty(), sum: no_totals(), ..self }
    }

    /// The cart with the total of its items and the balance due replaced.
    pub open spec fn with_totals(self, items_total: Amount, balance_due: Amount) -> CartView {
        CartView { sum: CartSummary { items_total, balance_due, ..self.sum }, ..self }
    }
}

/// The place of the first line of a stock-keeping unit, or the number of
/// lines where there is none.
fn find_line(items: &Vec<CartItem>, sku: &str) -> (line: usize)
    ensures
        line == line_of(item_views(items@), sku@),
        line <= items@.len(),
        line < items@.len() ==> items@[line as int].sku@ == sku@,
{
    let ghost all = item_views(items@);
    let mut line: usize = 0;
    proof {
        assert(all.skip(0) =~= all);
    }
    while line < items.len()
        invariant
            line <= items.len(),
            all == item_views(items@),
            line_of(all, sku@) == line + line_of(all.skip(line as int), sku@),
        decreases items.len() - line,
    {
        proof {
            assert(all.skip(line as int).drop_first() =~= all.skip(line + 1));
            assert(all.skip(line as int)[0] == items@[line as int]@);
        }
        if spells(&items[line].sku, sku) {
            return line;
        }
        line = line + 1;
    }
    line
}

impl Cart {
    /// A cart with no lines, no coupons, no preferences and totals of nothing.
    pub fn new(cart_id: String) -> (cart: Cart)
        ensures
            cart@ == CartView::empty(cart_id@),
    {
        let cart = Cart {
            cart_id,
            items: Vec::new(),
            sum: CartSummary {
                items_total: Amount::Zero,
                shipping_total: Amount::Zero,
                tax_total: Amount::Zero,
                discount_total: Amount::Zero,
                balance_due: Amount::Zero,
            },
            want: CheckoutPreferences { shipping_id: None, payby: None },
            coupons: Vec::new(),
        };
        proof {
            assert(item_views(cart.items@) =~= Seq::empty());
            assert(text_views(cart.coupons@) =~= Seq::empty());
        }
        cart
    }

    /// Adds an item: its quantity goes on top of the first line of the same
    /// stock-keeping unit, or the item becomes a new last line. Where the
    /// quantities do not fit, the cart stays as it was.
    pub fn add_item(&mut self, item: CartItem) -> (outcome: Result<(), CartError>)
        ensures
            match old(self)@.with_item(item@) {
                Some(cart) => outcome is Ok && final(self)@ == cart,
                None => outcome == Err::<(), CartError>(CartError::QuantityOverflow) && final(self)@
                    == old(self)@,
            },
    {
        let line = find_line(&self.items, item.sku.as_str());
        if line >= self.items.len() {
            proof {
                assert(item_views(self.items@.push(item)) =~= item_views(self.items@).push(item@));
            }
            self.items.push(item);
            Ok(())
        } else {
            match self.items[line].qty.checked_add(item.qty) {
                Some(qty) => {
                    let ghost before = self.items@;
                    self.items[line].qty = qty;
                    proof {
                        assert(item_views(self.items@) =~= item_views(before).update(
                            line as int,
                            CartItemView { qty, ..before[line as int]@ },
                        ));
                    }
                    Ok(())
                },
                None => Err(CartError::QuantityOverflow),
            }
        }
    }

    /// Sets the quantity of a stock-keeping unit: the first line of the unit
    /// gets the quantity, and a quantity of 0 removes every line of the unit.
    /// A cart without a line of the unit stays as it was.
    pub fn update_item(&mut self, sku: &str, qty: u32) -> (outcome: Result<(), CartError>)
        ensures
            match old(self)@.with_quantity(sku@, qty) {
                Some(cart) => outcome is Ok && final(self)@ == cart,
                None => final(self)@ == old(self)@ && (outcome matches Err(e) && e@
                    == CartErrorView::ItemNotFound(sku@)),
            },
    {
        let line = find_line(&self.items, sku);
        if line >= self.items.len() {
            return Err(CartError::ItemNotFound(sku.to_owned()));
        }
        if qty == 0 {
            self.remove_item(sku);
        } else {
            let ghost before = self.items@;
            self.items[line].qty = qty;
            proof {
                assert(item_views(self.items@) =~= item_views(before).update(
                    line as int,
                    CartItemView { qty, ..before[line as int]@ },
                ));
            }
        }
        Ok(())
    }

    /// Removes every line of a stock-keeping unit.
    pub fn remove_item(&mut self, sku: &str)
        ensures
            final(self)@ == old(self)@.without(sku@),
    {
        let mut lines: Vec<CartItem> = Vec::new();
        std::mem::swap(&mut self.items, &mut lines);
        let ghost all = item_views(lines@);
        proof {
            assert(item_views(self.items@) =~= without_sku(all.take(0), sku@));
        }
        for item in it: lines
            invariant
                all == item_views(it.seq()),
                item_views(self.items@) == without_sku(all.take(it.index() as int), sku@),
                self.cart_id == old(self).cart_id,
                self.sum == old(self).sum,
                self.want == old(self).want,
                self.coupons == old(self).coupons,
        {
            proof {
                let i = it.index() as int;
                reveal(Seq::filter);
                assert(all.take(i + 1).drop_last() =~= all.take(i));
                assert(all.take(i + 1).last() == item@);
                assert(item_views(self.items@.push(item)) =~= item_views(self.items@).push(item@));
            }
            if !spells(&item.sku, sku) {
                self.items.push(item);
            }
        }
        proof {
            assert(all.take(all.len() as int) =~= all);
        }
    }

    /// Enters a coupon code, unless it is there already.
    pub fn add_coupon(&mut self, coupon: String)
        ensures
            final(self)@ == old(self)@.with_coupon(coupon@),
    {
        let ghost codes = text_views(self.coupons@);
        let mut i: usize = 0;
        while i < self.coupons.len()
            invariant
                i <= self.coupons.len(),
                *self == *old(self),
                codes == text_views(self.coupons@),
                forall|k: int| 0 <= k < i ==> codes[k] != coupon@,
            decreases self.coupons.len() - i,
        {
            if self.coupons[i] == coupon {
                proof {
                    assert(codes[i as int] == coupon@);
                }
                return ;
            }
            i = i + 1;
        }
        proof {
            assert(text_views(self.coupons@.push(coupon)) =~= codes.push(coupon@));
        }
        self.coupons.push(coupon);
    }

    /// The number of pieces in the cart: the sum of the quantities of its
    /// lines, where that fits a quantity.
    pub fn item_count(&self) -> (count: Result<u32, CartError>)
        ensures
            match count {
                Ok(n) => n == total_quantity(self@.items),
                Err(e) => e == CartError::QuantityOverflow && total_quantity(self@.items)
                    > u32::MAX,
            },
    {
        let ghost all = item_views(self.items@);
        let mut sum: u32 = 0;
        let mut i: usize = 0;
        while i < self.items.len()
            invariant
                i <= self.items.len(),
                all == item_views(self.items@),
                sum == total_quantity(all.take(i as int)),
            decreases self.items.len() - i,
        {
            proof {
                assert(all.take(i + 1).drop_last() =~= all.take(i as int));
                assert(all.take(i + 1).last() == self.items@[i as int]@);
                lemma_total_quantity_grows(all, i + 1);
            }
            sum = match sum.checked_add(self.items[i].qty) {
                Some(next) => next,
                None => { return Err(CartError::QuantityOverflow); },
            };
            i = i + 1;
        }
        proof {
            assert(all.take(all.len() as int) =~= all);
        }
        Ok(sum)
    }

    /// Empties the cart: no lines, no coupons, totals of nothing. The id and
    /// the checkout preferences stay.
    pub fn clear(&mut self)
        ensures
            final(self)@ == old(self)@.cleared(),
    {
        self.items.clear();
        self.coupons.clear();
        self.sum = CartSummary {
            items_total: Amount::Zero,
            shipping_total: Amount::Zero,
            tax_total: Amount::Zero,
            discount_total: Amount::Zero,
            balance_due: Amount::Zero,
        };
        proof {
            assert(item_views(self.items@) =~= Seq::empty());
            assert(text_views(self.coupons@) =~= Seq::empty());
        }
    }

    /// Records the total of the items and the balance due, as computed by the
    /// caller; the other totals stay.
    pub fn set_totals(&mut self, items_total: Amount, balance_due: Amount)
        ensures
            final(self)@ == old(self)@.with_totals(items_total, balance_due),
    {
        self.sum.items_total = items_total;
        self.sum.balance_due = balance_due;
    }
}

/// The quantities of a longer run of lines add up to no less than those of
/// its beginning.
pub proof fn lemma_total_quantity_grows(items: Seq<CartItemView>, count: int)
    requires
        0 <= count <= items.len(),
    ensures
        total_quantity(items.take(count)) <= total_quantity(items),
    decreases items.len() - count,
{
    if count == items.len() {
        assert(items.take(count) =~= items);
    } else {
        lemma_total_quantity_grows(items, count + 1);
        assert(items.take(count + 1).drop_last() =~= items.take(count));
    }
}

/// The place of the first cart of an id, or the number of carts where there
/// is none.
pub open spec fn cart_place(carts: Seq<Cart>, id: Seq<char>) -> int
    decreases carts.len(),
{
    if carts.len() == 0 || carts[0].cart_id@ == id {
        0
    } else {
        1 + cart_place(carts.drop_first(), id)
    }
}

/// The carts of a list by their ids: under each id the first cart of that id.
pub open spec fn carts_by_id(carts: Seq<Cart>) -> Map<Seq<char>, CartView> {
    Map::new(
        |id: Seq<char>| cart_place(carts, id) < carts.len(),
        |id: Seq<char>| carts[cart_place(carts, id)]@,
    )
}

/// The place of an id lies within the list or just behind it, and a place
/// within the list holds a cart of that id.
pub proof fn lemma_cart_place_bounds(carts: Seq<Cart>, id: Seq<char>)
    ensures
        0 <= cart_place(carts, id) <= carts.len(),
        cart_place(carts, id) < carts.len() ==> carts[cart_place(carts, id)].cart_id@ == id,
    decreases carts.len(),
{
    if carts.len() > 0 && carts[0].cart_id@ != id {
        lemma_cart_place_bounds(carts.drop_first(), id);
    }
}

/// Putting a cart in the place of another of the same id moves no id.
pub proof fn lemma_cart_place_after_update(carts: Seq<Cart>, place: int, cart: Cart, id: Seq<char>)
    requires
        0 <= place < carts.len(),
        carts[place].cart_id@ == cart.cart_id@,
    ensures
        cart_place(carts.update(place, cart), id) == cart_place(carts, id),
    decreases carts.len(),
{
    let after = carts.update(place, cart);
    if place == 0 {
        assert(after.drop_first() =~= carts.drop_first());
    } else {
        assert(after[0] == carts[0]);
        assert(after.drop_first() =~= carts.drop_first().update(place - 1, cart));
        lemma_cart_place_after_update(carts.drop_first(), place - 1, cart, id);
    }
}

/// A cart at the end of the list is found under its id where no earlier cart
/// has that id, and moves no id that was found before.
pub proof fn lemma_cart_place_after_push(carts: Seq<Cart>, cart: Cart, id: Seq<char>)
    ensures
        cart_place(carts.push(cart), id) == if cart_place(carts, id) < carts.len()
            || cart.cart_id@ == id {
            cart_place(carts, id)
        } else {
            carts.len() as int + 1
        },
    decreases carts.len(),
{
    let after = carts.push(cart);
    if carts.len() == 0 {
        assert(after.drop_first() =~= Seq::<Cart>::empty());
        assert(cart_place(after.drop_first(), id) == 0);
    } else {
        assert(after[0] == carts[0]);
        assert(after.drop_first() =~= carts.drop_first().push(cart));
        lemma_cart_place_after_push(carts.drop_first(), cart, id);
    }
}

/// Putting a cart in the place of the first cart of its id files it under
/// that id and leaves the other ids as they were.
pub proof fn lemma_carts_after_update(carts: Seq<Cart>, place: int, cart: Cart)
    requires
        0 <= place < carts.len(),
        place == cart_place(carts, cart.cart_id@),
    ensures
        carts_by_id(carts.update(place, cart)) == carts_by_id(carts).insert(cart.cart_id@, cart@),
{
    lemma_cart_place_bounds(carts, cart.cart_id@);
    let after = carts.update(place, cart);
    assert forall|id: Seq<char>| cart_place(after, id) == cart_place(carts, id) by {
        lemma_cart_place_after_update(carts, place, cart, id);
    }
    let wanted = carts_by_id(carts).insert(cart.cart_id@, cart@);
    assert forall|id: Seq<char>| #[trigger]
        carts_by_id(after).dom().contains(id) implies carts_by_id(after)[id] == wanted[id] by {
        lemma_cart_place_bounds(carts, id);
    }
    assert(carts_by_id(after) =~= wanted);
}

/// Putting a cart of a new id at the end files it under that id and leaves
/// the other ids as they were.
pub proof fn lemma_carts_after_push(carts: Seq<Cart>, cart: Cart)
    requires
        cart_place(carts, cart.cart_id@) == carts.len(),
    ensures
        carts_by_id(carts.push(cart)) == carts_by_id(carts).insert(cart.cart_id@, cart@),
{
    let after = carts.push(cart);
    assert forall|id: Seq<char>|
        cart_place(after, id) == if cart_place(carts, id) < carts.len() || cart.cart_id@ == id {
            cart_place(carts, id)
        } else {
            carts.len() as int + 1
        } by {
        lemma_cart_place_after_push(carts, cart, id);
    }
    assert forall|id: Seq<char>| 0 <= #[trigger] cart_place(carts, id) <= carts.len() by {
        lemma_cart_place_bounds(carts, id);
    }
    let wanted = carts_by_id(carts).insert(cart.cart_id@, cart@);
    assert forall|id: Seq<char>| #[trigger]
        carts_by_id(after).dom().contains(id) implies carts_by_id(after)[id] == wanted[id] by {
        lemma_cart_place_bounds(carts, id);
    }
    assert(carts_by_id(after) =~= wanted);
}

/// Keeps the carts of a session, each under its id.
pub struct CartManager {
    carts: Vec<Cart>,
}

impl View for CartManager {
    type V = Map<Seq<char>, CartView>;

    closed spec fn view(&self) -> Map<Seq<char>, CartView> {
        carts_by_id(self.carts@)
    }
}

impl CartManager {
    /// A manager without carts.
    pub fn new() -> (manager: CartManager)
        ensures
            manager@ == Map::<Seq<char>, CartView>::empty(),
    {
        let manager = CartManager { carts: Vec::new() };
        proof {
            assert(manager@ =~= Map::<Seq<char>, CartView>::empty());
        }
        manager
    }

    /// The place of the first cart of an id, or the number of carts.
    fn place(&self, cart_id: &str) -> (place: usize)
        ensures
            place == cart_place(self.carts@, cart_id@),
            place <= self.carts@.len(),
            place < self.carts@.len() <==> self@.contains_key(cart_id@),
            place < self.carts@.len() ==> self.carts@[place as int]@ == self@[cart_id@],
    {
        let mut place: usize = 0;
        proof {
            assert(self.carts@.skip(0) =~= self.carts@);
        }
        while place < self.carts.len()
            invariant
                place <= self.carts.len(),
                cart_place(self.carts@, cart_id@) == place + cart_place(
                    self.carts@.skip(place as int),
                    cart_id@,
                ),
            decreases self.carts.len() - place,
        {
            proof {
                assert(self.carts@.skip(place as int).drop_first() =~= self.carts@.skip(place + 1));
            }
            if spells(&self.carts[place].cart_id, cart_id) {
                return place;
            }
            place = place + 1;
        }
        place
    }

    /// Files a cart under its id, in place of any cart of that id.
    fn put(&mut self, cart: Cart)
        ensures
            final(self)@ == old(self)@.insert(cart.cart_id@, cart@),
    {
        let place = self.place(cart.cart_id.as_str());
        proof {
            if place < self.carts@.len() {
                lemma_carts_after_update(self.carts@, place as int, cart);
            } else {
                lemma_carts_after_push(self.carts@, cart);
            }
        }
        if place < self.carts.len() {
            self.carts[place] = cart;
        } else {
            self.carts.push(cart);
        }
    }

    /// Starts an empty cart under an id, in place of any cart of that id.
    pub fn create_cart(&mut self, cart_id: String)
        ensures
            final(self)@ == old(self)@.insert(cart_id@, CartView::empty(cart_id@)),
    {
        self.put(Cart::new(cart_id));
    }

    /// Files a cart under its id, in place of any cart of that id, and hands
    /// the id back.
    pub fn load_cart(&mut self, cart: Cart) -> (cart_id: String)
        ensures
            cart_id@ == cart.cart_id@,
            final(self)@ == old(self)@.insert(cart.cart_id@, cart@),
    {
        let cart_id = cart.cart_id.clone();
        self.put(cart);
        cart_id
    }

    /// The cart of an id.
    pub fn get_cart(&self, cart_id: &str) -> (cart: Result<&Cart, CartError>)
        ensures
            match cart {
                Ok(found) => self@.contains_key(cart_id@) && found@ == self@[cart_id@],
                Err(e) => !self@.contains_key(cart_id@) && e@ == CartErrorView::CartNotFound(
                    cart_id@,
                ),
            },
    {
        let place = self.place(cart_id);
        if place < self.carts.len() {
            Ok(&self.carts[place])
        } else {
            Err(CartError::CartNotFound(cart_id.to_owned()))
        }
    }

    /// Adds an item to the cart of an id, as `Cart::add_item` does.
    pub fn add_item(&mut self, cart_id: &str, item: CartItem) -> (outcome: Result<(), CartError>)
        ensures
            match outcome {
                Ok(_) => old(self)@.contains_key(cart_id@) && old(self)@[cart_id@].with_item(item@)
                    is Some && final(self)@ == old(self)@.insert(
                    cart_id@,
                    old(self)@[cart_id@].with_item(item@)->0,
                ),
                Err(e) => final(self)@ == old(self)@ && if old(self)@.contains_key(cart_id@) {
                    old(self)@[cart_id@].with_item(item@) is None && e@
                        == CartErrorView::QuantityOverflow
                } else {
                    e@ == CartErrorView::CartNotFound(cart_id@)
                },
            },
    {
        let place = self.place(cart_id);
        if place >= self.carts.len() {
            return Err(CartError::CartNotFound(cart_id.to_owned()));
        }
        let ghost before = self.carts@;
        let outcome = self.carts[place].add_item(item);
        proof {
            lemma_cart_place_bounds(before, cart_id@);
            if outcome is Ok {
                assert(self.carts@ =~= before.update(place as int, self.carts@[place as int]));
                lemma_carts_after_update(before, place as int, self.carts@[place as int]);
            } else {
                lemma_carts_same(before, self.carts@);
            }
        }
        outcome
    }

    /// Sets the quantity of a stock-keeping unit in the cart of an id, as
    /// `Cart::update_item` does.
    pub fn update_item(&mut self, cart_id: &str, sku: &str, qty: u32) -> (outcome: Result<
        (),
        CartError,
    >)
        ensures
            match outcome {
                Ok(_) => old(self)@.contains_key(cart_id@) && old(self)@[cart_id@].with_quantity(
                    sku@,
                    qty,
                ) is Some && final(self)@ == old(self)@.insert(
                    cart_id@,
                    old(self)@[cart_id@].with_quantity(sku@, qty)->0,
                ),
                Err(e) => final(self)@ == old(self)@ && if old(self)@.contains_key(cart_id@) {
                    old(self)@[cart_id@].with_quantity(sku@, qty) is None && e@
                        == CartErrorView::ItemNotFound(sku@)
                } else {
                    e@ == CartErrorView::CartNotFound(cart_id@)
                },
            },
    {
        let place = self.place(cart_id);
        if place >= self.carts.len() {
            return Err(CartError::CartNotFound(cart_id.to_owned()));
        }
        let ghost before = self.carts@;
        let outcome = self.carts[place].update_item(sku, qty);
        proof {
            lemma_cart_place_bounds(before, cart_id@);
            if outcome is Ok {
                assert(self.carts@ =~= before.update(place as int, self.carts@[place as int]));
                lemma_carts_after_update(before, place as int, self.carts@[place as int]);
            } else {
                lemma_carts_same(before, self.carts@);
            }
        }
        outcome
    }

    /// Removes every line of a stock-keeping unit from the cart of an id.
    pub fn remove_item(&mut self, cart_id: &str, sku: &str) -> (outcome: Result<(), CartError>)
        ensures
            match outcome {
                Ok(_) => old(self)@.contains_key(cart_id@) && final(self)@ == old(self)@.insert(
                    cart_id@,
                    old(self)@[cart_id@].without(sku@),
                ),
                Err(e) => final(self)@ == old(self)@ && !old(self)@.contains_key(cart_id@) && e@
                    == CartErrorView::CartNotFound(cart_id@),
            },
    {
        let place = self.place(cart_id);
        if place >= self.carts.len() {
            return Err(CartError::CartNotFound(cart_id.to_owned()));
        }
        let ghost before = self.carts@;
        self.carts[place].remove_item(sku);
        proof {
            lemma_cart_place_bounds(before, cart_id@);
            assert(self.carts@ =~= before.update(place as int, self.carts@[place as int]));
            lemma_carts_after_update(before, place as int, self.carts@[place as int]);
        }
        Ok(())
    }

    /// Enters a coupon code in the cart of an id, unless it is there already.
    pub fn add_coupon(&mut self, cart_id: &str, coupon: String) -> (outcome: Result<(), CartError>)
        ensures
            match outcome {
                Ok(_) => old(self)@.contains_key(cart_id@) && final(self)@ == old(self)@.insert(
                    cart_id@,
                    old(self)@[cart_id@].with_coupon(coupon@),
                ),
                Err(e) => final(self)@ == old(self)@ && !old(self)@.contains_key(cart_id@) && e@
                    == CartErrorView::CartNotFound(cart_id@),
            },
    {
        let place = self.place(cart_id);
        if place >= self.carts.len() {
            return Err(CartError::CartNotFound(cart_id.to_owned()));
        }
        let ghost before = self.carts@;
        self.carts[place].add_coupon(coupon);
        proof {
            lemma_cart_place_bounds(before, cart_id@);
            assert(self.carts@ =~= before.update(place as int, self.carts@[place as int]));
            lemma_carts_after_update(before, place as int, self.carts@[place as int]);
        }
        Ok(())
    }

    /// Records, in the cart of an id, the total of the items and the balance
    /// due as computed by the caller.
    pub fn set_totals(&mut self, cart_id: &str, items_total: Amount, balance_due: Amount) -> (outcome:
        Result<(), CartError>)
        ensures
            match outcome {
                Ok(_) => old(self)@.contains_key(cart_id@) && final(self)@ == old(self)@.insert(
                    cart_id@,
                    old(self)@[cart_id@].with_totals(items_total, balance_due),
                ),
                Err(e) => final(self)@ == old(self)@ && !old(self)@.contains_key(cart_id@) && e@
                    == CartErrorView::CartNotFound(cart_id@),
            },
    {
        let place = self.place(cart_id);
        if place >= self.carts.len() {
            return Err(CartError::CartNotFound(cart_id.to_owned()));
        }
        let ghost before = self.carts@;
        self.carts[place].set_totals(items_total, balance_due);
        proof {
            lemma_cart_place_bounds(before, cart_id@);
            assert(self.carts@ =~= before.update(place as int, self.carts@[place as int]));
            lemma_carts_after_update(before, place as int, self.carts@[place as int]);
        }
        Ok(())
    }

    /// The number of pieces in the cart of an id: the sum of the quantities
    /// of its lines.
    pub fn get_item_count(&self, cart_id: &str) -> (count: Result<u32, CartError>)
        ensures
            match count {
                Ok(n) => self@.contains_key(cart_id@) && n == total_quantity(self@[cart_id@].items),
                Err(e) => if self@.contains_key(cart_id@) {
                    total_quantity(self@[cart_id@].items) > u32::MAX && e@
                        == CartErrorView::QuantityOverflow
                } else {
                    e@ == CartErrorView::CartNotFound(cart_id@)
                },
            },
    {
        let place = self.place(cart_id);
        if place >= self.carts.len() {
            return Err(CartError::CartNotFound(cart_id.to_owned()));
        }
        self.carts[place].item_count()
    }

    /// Empties the cart of an id: no lines, no coupons, totals of nothing.
    pub fn clear_cart(&mut self, cart_id: &str) -> (outcome: Result<(), CartError>)
        ensures
            match outcome {
                Ok(_) => old(self)@.contains_key(cart_id@) && final(self)@ == old(self)@.insert(
                    cart_id@,
                    old(self)@[cart_id@].cleared(),
                ),
                Err(e) => final(self)@ == old(self)@ && !old(self)@.contains_key(cart_id@) && e@
                    == CartErrorView::CartNotFound(cart_id@),
            },
    {
        let place = self.place(cart_id);
        if place >= self.carts.len() {
            return Err(CartError::CartNotFound(cart_id.to_owned()));
        }
        let ghost before = self.carts@;
        self.carts[place].clear();
        proof {
            lemma_cart_place_bounds(before, cart_id@);
            assert(self.carts@ =~= before.update(place as int, self.carts@[place as int]));
            lemma_carts_after_update(before, place as int, self.carts@[place as int]);
        }
        Ok(())
    }
}

/// Lists of carts that say the same, cart by cart, file the same carts under
/// the same ids.
pub proof fn lemma_carts_same(before: Seq<Cart>, after: Seq<Cart>)
    requires
        before.len() == after.len(),
        forall|i: int| 0 <= i < before.len() ==> (#[trigger] before[i])@ == after[i]@,
    ensures
        carts_by_id(before) == carts_by_id(after),
{
    assert forall|id: Seq<char>| cart_place(before, id) == cart_place(after, id) by {
        lemma_cart_place_same(before, after, id);
    }
    assert forall|id: Seq<char>| #[trigger]
        carts_by_id(before).dom().contains(id) implies carts_by_id(before)[id] == carts_by_id(
        after,
    )[id] by {
        lemma_cart_place_bounds(before, id);
    }
    assert(carts_by_id(before) =~= carts_by_id(after));
}

/// Lists of carts with the same ids, cart by cart, have every id at the same
/// place.
pub proof fn lemma_cart_place_same(before: Seq<Cart>, after: Seq<Cart>, id: Seq<char>)
    requires
        before.len() == after.len(),
        forall|i: int| 0 <= i < before.len() ==> (#[trigger] before[i])@ == after[i]@,
    ensures
        cart_place(before, id) == cart_place(after, id),
    decreases before.len(),
{
    if before.len() > 0 {
        assert(before[0]@ == after[0]@);
        if before[0].cart_id@ != id {
            let b = before.drop_first();
            let a = after.drop_first();
            assert forall|i: int| 0 <= i < b.len() implies (#[trigger] b[i])@ == a[i]@ by {
                assert(b[i] == before[i + 1]);
                assert(a[i] == after[i + 1]);
            }
            lemma_cart_place_same(b, a, id);
        }
    }
}

} // verus!
