use wasm_api::cart::{
    Amount, Cart, CartError, CartItem, CartManager, CartSummary, CheckoutPreferences,
};

fn amount(value: f64) -> Amount {
    Amount::Given(serde_json::Number::from_f64(value).unwrap())
}

fn item(sku: &str, qty: u32) -> CartItem {
    CartItem {
        sku: sku.to_string(),
        pid: sku.split(':').next().unwrap().to_string(),
        prod_name: "Test Product".to_string(),
        qty,
        base_price: amount(99.99),
        price: amount(99.99),
        variations: None,
    }
}

fn no_totals() -> CartSummary {
    CartSummary {
        items_total: Amount::Zero,
        shipping_total: Amount::Zero,
        tax_total: Amount::Zero,
        discount_total: Amount::Zero,
        balance_due: Amount::Zero,
    }
}

fn skus(cart: &Cart) -> Vec<(String, u32)> {
    cart.items.iter().map(|i| (i.sku.clone(), i.qty)).collect()
}

fn line(sku: &str, qty: u32) -> (String, u32) {
    (sku.to_string(), qty)
}

#[test]
fn test_cart_operations() {
    let mut manager = CartManager::new();

    // Create cart
    let cart_id = "TEST_CART".to_string();
    manager.create_cart(cart_id.clone());

    // Add item
    let item = CartItem {
        sku: "TEST:00".to_string(),
        pid: "TEST".to_string(),
        prod_name: "Test Product".to_string(),
        qty: 1,
        base_price: amount(99.99),
        price: amount(99.99),
        variations: None,
    };

    manager.add_item(&cart_id, item).unwrap();

    // Check item count
    assert_eq!(manager.get_item_count(&cart_id).unwrap(), 1);
}

#[test]
fn a_new_cart_is_empty() {
    let mut manager = CartManager::new();
    manager.create_cart("C1".to_string());
    assert_eq!(
        manager.get_cart("C1"),
        Ok(&Cart {
            cart_id: "C1".to_string(),
            items: vec![],
            sum: no_totals(),
            want: CheckoutPreferences { shipping_id: None, payby: None },
            coupons: vec![],
        })
    );
    assert_eq!(manager.get_item_count("C1"), Ok(0));
    assert_eq!(Cart::new("C1".to_string()), *manager.get_cart("C1").unwrap());
}

#[test]
fn create_cart_starts_over() {
    let mut manager = CartManager::new();
    manager.create_cart("C1".to_string());
    manager.add_item("C1", item("A:00", 2)).unwrap();
    manager.create_cart("C2".to_string());
    manager.add_item("C2", item("B:00", 5)).unwrap();
    manager.create_cart("C1".to_string());
    assert_eq!(manager.get_item_count("C1"), Ok(0));
    assert_eq!(manager.get_item_count("C2"), Ok(5));
}

#[test]
fn load_cart_files_the_cart_under_its_id() {
    let mut manager = CartManager::new();
    let mut cart = Cart::new("LOADED".to_string());
    cart.items.push(item("A:00", 3));
    cart.coupons.push("SAVE10".to_string());
    cart.sum.shipping_total = amount(4.5);
    cart.want.payby = Some("CREDIT".to_string());
    assert_eq!(manager.load_cart(cart.clone()), "LOADED");
    assert_eq!(manager.get_cart("LOADED"), Ok(&cart));
    let replacement = Cart::new("LOADED".to_string());
    assert_eq!(manager.load_cart(replacement.clone()), "LOADED");
    assert_eq!(manager.get_cart("LOADED"), Ok(&replacement));
}

#[test]
fn every_operation_on_an_unknown_cart_fails() {
    let mut manager = CartManager::new();
    manager.create_cart("C1".to_string());
    let unknown = CartError::CartNotFound("NOPE".to_string());
    assert_eq!(manager.get_cart("NOPE"), Err(unknown.clone()));
    assert_eq!(manager.add_item("NOPE", item("A:00", 1)), Err(unknown.clone()));
    assert_eq!(manager.update_item("NOPE", "A:00", 1), Err(unknown.clone()));
    assert_eq!(manager.remove_item("NOPE", "A:00"), Err(unknown.clone()));
    assert_eq!(manager.add_coupon("NOPE", "SAVE10".to_string()), Err(unknown.clone()));
    assert_eq!(manager.set_totals("NOPE", Amount::Zero, Amount::Zero), Err(unknown.clone()));
    assert_eq!(manager.get_item_count("NOPE"), Err(unknown.clone()));
    assert_eq!(manager.clear_cart("NOPE"), Err(unknown));
    assert_eq!(manager.get_item_count("C1"), Ok(0));
}

#[test]
fn add_item_merges_quantities_by_sku() {
    let mut manager = CartManager::new();
    manager.create_cart("C1".to_string());
    manager.add_item("C1", item("A:00", 1)).unwrap();
    manager.add_item("C1", item("B:00", 2)).unwrap();
    manager.add_item("C1", item("A:00", 3)).unwrap();
    manager.add_item("C1", item("A:01", 7)).unwrap();
    let cart = manager.get_cart("C1").unwrap();
    assert_eq!(skus(cart), vec![line("A:00", 4), line("B:00", 2), line("A:01", 7)]);
    assert_eq!(manager.get_item_count("C1"), Ok(13));
}

#[test]
fn add_item_refuses_a_quantity_that_does_not_fit() {
    let mut manager = CartManager::new();
    manager.create_cart("C1".to_string());
    manager.add_item("C1", item("A:00", u32::MAX - 1)).unwrap();
    assert_eq!(manager.add_item("C1", item("A:00", 2)), Err(CartError::QuantityOverflow));
    assert_eq!(skus(manager.get_cart("C1").unwrap()), vec![line("A:00", u32::MAX - 1)]);
    manager.add_item("C1", item("A:00", 1)).unwrap();
    assert_eq!(manager.get_item_count("C1"), Ok(u32::MAX));
    manager.add_item("C1", item("B:00", 1)).unwrap();
    assert_eq!(manager.get_item_count("C1"), Err(CartError::QuantityOverflow));
}

#[test]
fn update_item_sets_the_quantity() {
    let mut manager = CartManager::new();
    manager.create_cart("C1".to_string());
    manager.add_item("C1", item("A:00", 1)).unwrap();
    manager.add_item("C1", item("B:00", 2)).unwrap();
    manager.update_item("C1", "B:00", 9).unwrap();
    assert_eq!(skus(manager.get_cart("C1").unwrap()), vec![line("A:00", 1), line("B:00", 9)]);
    assert_eq!(
        manager.update_item("C1", "C:00", 1),
        Err(CartError::ItemNotFound("C:00".to_string()))
    );
    assert_eq!(
        manager.update_item("C1", "C:00", 0),
        Err(CartError::ItemNotFound("C:00".to_string()))
    );
    assert_eq!(skus(manager.get_cart("C1").unwrap()), vec![line("A:00", 1), line("B:00", 9)]);
}

#[test]
fn update_item_to_zero_removes_the_lines() {
    let mut manager = CartManager::new();
    let mut cart = Cart::new("C1".to_string());
    cart.items = vec![item("A:00", 1), item("B:00", 2), item("A:00", 3)];
    manager.load_cart(cart);
    manager.update_item("C1", "A:00", 0).unwrap();
    assert_eq!(skus(manager.get_cart("C1").unwrap()), vec![line("B:00", 2)]);
}

#[test]
fn update_item_changes_the_first_line_of_a_sku() {
    let mut manager = CartManager::new();
    let mut cart = Cart::new("C1".to_string());
    cart.items = vec![item("A:00", 1), item("B:00", 2), item("A:00", 3)];
    manager.load_cart(cart);
    manager.update_item("C1", "A:00", 5).unwrap();
    assert_eq!(
        skus(manager.get_cart("C1").unwrap()),
        vec![line("A:00", 5), line("B:00", 2), line("A:00", 3)]
    );
    manager.add_item("C1", item("A:00", 1)).unwrap();
    assert_eq!(
        skus(manager.get_cart("C1").unwrap()),
        vec![line("A:00", 6), line("B:00", 2), line("A:00", 3)]
    );
}

#[test]
fn remove_item_removes_every_line_of_the_sku() {
    let mut manager = CartManager::new();
    let mut cart = Cart::new("C1".to_string());
    cart.items = vec![item("A:00", 1), item("B:00", 2), item("A:00", 3), item("C:00", 4)];
    manager.load_cart(cart);
    manager.remove_item("C1", "A:00").unwrap();
    assert_eq!(skus(manager.get_cart("C1").unwrap()), vec![line("B:00", 2), line("C:00", 4)]);
    manager.remove_item("C1", "Z:00").unwrap();
    assert_eq!(skus(manager.get_cart("C1").unwrap()), vec![line("B:00", 2), line("C:00", 4)]);
    assert_eq!(manager.get_item_count("C1"), Ok(6));
}

#[test]
fn coupons_are_entered_once() {
    let mut manager = CartManager::new();
    manager.create_cart("C1".to_string());
    manager.add_coupon("C1", "SAVE10".to_string()).unwrap();
    manager.add_coupon("C1", "FREESHIP".to_string()).unwrap();
    manager.add_coupon("C1", "SAVE10".to_string()).unwrap();
    assert_eq!(manager.get_cart("C1").unwrap().coupons, vec!["SAVE10", "FREESHIP"]);
}

#[test]
fn clear_cart_keeps_id_and_preferences() {
    let mut manager = CartManager::new();
    let mut cart = Cart::new("C1".to_string());
    cart.items = vec![item("A:00", 1)];
    cart.coupons = vec!["SAVE10".to_string()];
    cart.sum.tax_total = amount(1.25);
    cart.sum.items_total = amount(99.99);
    cart.want.shipping_id = Some("UPS".to_string());
    manager.load_cart(cart);
    manager.clear_cart("C1").unwrap();
    assert_eq!(
        manager.get_cart("C1"),
        Ok(&Cart {
            cart_id: "C1".to_string(),
            items: vec![],
            sum: no_totals(),
            want: CheckoutPreferences { shipping_id: Some("UPS".to_string()), payby: None },
            coupons: vec![],
        })
    );
}

#[test]
fn set_totals_keeps_the_other_totals() {
    let mut manager = CartManager::new();
    let mut cart = Cart::new("C1".to_string());
    cart.sum.shipping_total = amount(5.0);
    cart.sum.tax_total = amount(1.0);
    cart.sum.discount_total = amount(2.0);
    manager.load_cart(cart);
    manager.set_totals("C1", amount(10.0), amount(14.0)).unwrap();
    assert_eq!(
        manager.get_cart("C1").unwrap().sum,
        CartSummary {
            items_total: amount(10.0),
            shipping_total: amount(5.0),
            tax_total: amount(1.0),
            discount_total: amount(2.0),
            balance_due: amount(14.0),
        }
    );
}

#[test]
fn carts_do_not_mix() {
    let mut manager = CartManager::new();
    manager.create_cart("C1".to_string());
    manager.create_cart("C2".to_string());
    manager.add_item("C1", item("A:00", 1)).unwrap();
    manager.add_item("C2", item("A:00", 2)).unwrap();
    manager.add_coupon("C2", "SAVE10".to_string()).unwrap();
    manager.remove_item("C1", "A:00").unwrap();
    assert_eq!(manager.get_item_count("C1"), Ok(0));
    assert_eq!(manager.get_item_count("C2"), Ok(2));
    assert!(manager.get_cart("C1").unwrap().coupons.is_empty());
}

#[test]
fn cart_errors_tell_what_is_missing() {
    assert_eq!(CartError::CartNotFound("C1".to_string()).message(), "Cart C1 not found");
    assert_eq!(
        CartError::ItemNotFound("A:00".to_string()).message(),
        "Item A:00 not found in cart"
    );
    assert_eq!(CartError::QuantityOverflow.message(), "Quantity out of range");
}
