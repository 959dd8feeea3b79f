//! What holds of a cart over its operations.

use crate::cart::{line_of, total_quantity, without_sku, CartItemView, CartView};
use vstd::prelude::*;

verus! {

/// The place of a stock-keeping unit lies within the lines or just behind
/// them; a place within the lines holds the first line of that unit.
pub proof fn lemma_line_of(items: Seq<CartItemView>, sku: Seq<char>)
    ensures
        0 <= line_of(items, sku) <= items.len(),
        line_of(items, sku) < items.len() ==> items[line_of(items, sku)].sku == sku,
        forall|i: int| 0 <= i < line_of(items, sku) ==> (#[trigger] items[i]).sku != sku,
    decreases items.len(),
{
    if items.len() > 0 && items[0].sku != sku {
        let rest = items.drop_first();
        lemma_line_of(rest, sku);
        assert forall|i: int| 0 <= i < line_of(items, sku) implies (#[trigger] items[i]).sku
            != sku by {
            if i > 0 {
                assert(items[i] == rest[i - 1]);
            }
        }
    }
}

/// The quantities of a run of lines with one quantity changed add up to the
/// old sum, less the old quantity, plus the new one.
pub proof fn lemma_total_quantity_after_update(items: Seq<CartItemView>, line: int, qty: u32)
    requires
        0 <= line < items.len(),
    ensures
        total_quantity(items.update(line, CartItemView { qty, ..items[line] }))
            == total_quantity(items) - items[line].qty + qty,
    decreases items.len(),
{
    let after = items.update(line, CartItemView { qty, ..items[line] });
    if line == items.len() - 1 {
        assert(after.drop_last() =~= items.drop_last());
    } else {
        assert(after.drop_last() =~= items.drop_last().update(
            line,
            CartItemView { qty, ..items[line] },
        ));
        assert(items.drop_last()[line] == items[line]);
        lemma_total_quantity_after_update(items.drop_last(), line, qty);
    }
}

/// Adding an item adds its quantity to the pieces in the cart, whether it
/// joins a line or becomes one, and changes nothing but the lines.
pub proof fn lemma_add_item_adds_quantity(cart: CartView, item: CartItemView)
    ensures
        match cart.with_item(item) {
            Some(after) => {
                &&& total_quantity(after.items) == total_quantity(cart.items) + item.qty
                &&& line_of(after.items, item.sku) < after.items.len()
                &&& after == (CartView { items: after.items, ..cart })
            },
            None => line_of(cart.items, item.sku) < cart.items.len()
                && cart.items[line_of(cart.items, item.sku)].qty + item.qty > u32::MAX,
        },
{
    lemma_line_of(cart.items, item.sku);
    let line = line_of(cart.items, item.sku);
    match cart.with_item(item) {
        Some(after) => {
            if line >= cart.items.len() {
                assert(after.items.drop_last() =~= cart.items);
                lemma_line_of(after.items, item.sku);
                if line_of(after.items, item.sku) == after.items.len() {
                    assert(after.items[after.items.len() - 1].sku == item.sku);
                    assert(false);
                }
            } else {
                let qty = (cart.items[line].qty + item.qty) as u32;
                lemma_total_quantity_after_update(cart.items, line, qty);
                lemma_line_of(after.items, item.sku);
                if line_of(after.items, item.sku) == after.items.len() {
                    assert(after.items[line].sku == item.sku);
                    assert(false);
                }
            }
        },
        None => {},
    }
}

/// After the lines of a stock-keeping unit were removed, the cart has no line
/// of that unit, and removing them again changes nothing.
pub proof fn lemma_remove_item_leaves_none(cart: CartView, sku: Seq<char>)
    ensures
        line_of(cart.without(sku).items, sku) == cart.without(sku).items.len(),
        cart.without(sku).with_quantity(sku, 0) is None,
        cart.without(sku).without(sku) == cart.without(sku),
        cart.without(sku).items.len() <= cart.items.len(),
{
    let kept = without_sku(cart.items, sku);
    lemma_kept_lines(cart.items, sku);
    lemma_line_of(kept, sku);
    if line_of(kept, sku) < kept.len() {
        assert(kept[line_of(kept, sku)].sku == sku);
        assert(false);
    }
    lemma_kept_lines_kept(kept, sku);
}

/// The lines that are kept when a stock-keeping unit is removed are of other
/// units, and no more than there were.
pub proof fn lemma_kept_lines(items: Seq<CartItemView>, sku: Seq<char>)
    ensures
        without_sku(items, sku).len() <= items.len(),
        forall|i: int|
            0 <= i < without_sku(items, sku).len() ==> (#[trigger] without_sku(items, sku)[i]).sku
                != sku,
    decreases items.len(),
{
    reveal(Seq::filter);
    if items.len() > 0 {
        lemma_kept_lines(items.drop_last(), sku);
    }
}

/// Removing a stock-keeping unit from lines that are all of other units
/// removes nothing.
pub proof fn lemma_kept_lines_kept(items: Seq<CartItemView>, sku: Seq<char>)
    requires
        forall|i: int| 0 <= i < items.len() ==> (#[trigger] items[i]).sku != sku,
    ensures
        without_sku(items, sku) == items,
    decreases items.len(),
{
    reveal(Seq::filter);
    if items.len() > 0 {
        let rest = items.drop_last();
        assert forall|i: int| 0 <= i < rest.len() implies (#[trigger] rest[i]).sku != sku by {
            assert(rest[i] == items[i]);
        }
        lemma_kept_lines_kept(rest, sku);
        assert(items.last() == items[items.len() - 1]);
        assert(rest.push(items.last()) =~= items);
    }
}

/// Entering a coupon code twice is entering it once, and a code that was
/// entered is there.
pub proof fn lemma_coupon_entered_once(cart: CartView, coupon: Seq<char>)
    ensures
        cart.with_coupon(coupon).coupons.contains(coupon),
        cart.with_coupon(coupon).with_coupon(coupon) == cart.with_coupon(coupon),
{
    let after = cart.with_coupon(coupon);
    if !cart.coupons.contains(coupon) {
        assert(after.coupons[after.coupons.len() - 1] == coupon);
    }
}

/// A cleared cart holds no pieces, and clearing it again changes nothing.
pub proof fn lemma_cleared_is_empty(cart: CartView)
    ensures
        total_quantity(cart.cleared().items) == 0,
        cart.cleared().cleared() == cart.cleared(),
        cart.cleared() == (CartView { want: cart.want, ..CartView::empty(cart.cart_id) }),
{
}

} // verus!
