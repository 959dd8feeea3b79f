use wasm_api::json::Json;
use wasm_api::product::{
    sku_stem, InventoryItem, PriceParts, Product, ProductError, ProductProcessor, Variation,
    VariationOption,
};

fn option(v: &str, prompt: &str, price_mod: Option<serde_json::Number>) -> VariationOption {
    VariationOption { v: v.to_string(), prompt: prompt.to_string(), price_mod }
}

fn variation(id: &str, prompt: &str, options: Vec<VariationOption>) -> Variation {
    Variation {
        id: id.to_string(),
        prompt: prompt.to_string(),
        variation_type: "select".to_string(),
        options,
    }
}

fn selections(pairs: &[(&str, &str)]) -> Vec<(String, String)> {
    pairs.iter().map(|(k, v)| (k.to_string(), v.to_string())).collect()
}

fn number(text: &str) -> serde_json::Number {
    text.parse().unwrap()
}

fn shirt() -> Product {
    Product {
        pid: "SHIRT".to_string(),
        variations: vec![
            variation(
                "A0",
                "Size",
                vec![
                    option("00", "Small", None),
                    option("01", "Large", Some(number("2.5"))),
                ],
            ),
            variation(
                "A1",
                "Colour",
                vec![
                    option("RD", "Red", Some(number("1"))),
                    option("BL", "Blue", None),
                ],
            ),
        ],
        inventory: vec![
            (
                "SHIRT:00RD".to_string(),
                InventoryItem {
                    sku: "SHIRT:00RD".to_string(),
                    available: "4".to_string(),
                    onshelf: "5".to_string(),
                },
            ),
        ],
        attribs: vec![
            ("zoovy:prod_name".to_string(), Json::Text("Shirt".to_string())),
            ("zoovy:base_price".to_string(), Json::Text("99.99".to_string())),
        ],
    }
}

fn plain(pid: &str) -> Product {
    Product { pid: pid.to_string(), variations: vec![], inventory: vec![], attribs: vec![] }
}

#[test]
fn test_calculate_sku() {
    let mut processor = ProductProcessor::new();

    let product = Product {
        pid: "TEST".to_string(),
        variations: vec![variation(
            "02",
            "Size",
            vec![option("00", "Small", None), option("01", "Medium", None)],
        )],
        inventory: vec![],
        attribs: vec![("zoovy:base_price".to_string(), Json::Text("99.99".to_string()))],
    };
    processor.load_product(product);

    let selections = selections(&[("02", "00")]);

    let sku = processor.calculate_sku("TEST", &selections).unwrap();
    assert_eq!(sku, "TEST:00");
}

#[test]
fn load_product_hands_the_id_back() {
    let mut processor = ProductProcessor::new();
    assert_eq!(processor.load_product(shirt()), "SHIRT");
    assert_eq!(processor.load_product(plain("MUG")), "MUG");
    assert_eq!(processor.get_variations("SHIRT").unwrap().len(), 2);
    assert_eq!(processor.get_variations("MUG").unwrap().len(), 0);
}

#[test]
fn load_product_replaces_a_product_of_the_same_id() {
    let mut processor = ProductProcessor::new();
    processor.load_product(shirt());
    processor.load_product(plain("SHIRT"));
    assert_eq!(processor.get_variations("SHIRT"), Ok(&vec![]));
    assert_eq!(processor.calculate_sku("SHIRT", &vec![]), Ok("SHIRT".to_string()));
}

#[test]
fn sku_joins_the_selected_values_in_the_order_of_the_variations() {
    let mut processor = ProductProcessor::new();
    processor.load_product(shirt());
    let chosen = selections(&[("A1", "RD"), ("A0", "01"), ("ZZ", "??")]);
    assert_eq!(processor.calculate_sku("SHIRT", &chosen), Ok("SHIRT:01RD".to_string()));
    let repeated = selections(&[("A0", "00"), ("A1", "BL"), ("A0", "01")]);
    assert_eq!(processor.calculate_sku("SHIRT", &repeated), Ok("SHIRT:00BL".to_string()));
}

#[test]
fn sku_of_a_product_without_variations_is_its_id() {
    let mut processor = ProductProcessor::new();
    processor.load_product(plain("MUG"));
    assert_eq!(processor.calculate_sku("MUG", &vec![]), Ok("MUG".to_string()));
    assert_eq!(
        processor.calculate_sku("MUG", &selections(&[("A0", "00")])),
        Ok("MUG".to_string())
    );
}

#[test]
fn sku_names_the_first_variation_without_a_selection() {
    let mut processor = ProductProcessor::new();
    processor.load_product(shirt());
    assert_eq!(
        processor.calculate_sku("SHIRT", &vec![]),
        Err(ProductError::MissingSelection("A0".to_string()))
    );
    assert_eq!(
        processor.calculate_sku("SHIRT", &selections(&[("A0", "00")])),
        Err(ProductError::MissingSelection("A1".to_string()))
    );
    assert_eq!(
        processor.calculate_sku("SHIRT", &selections(&[("A1", "RD")])),
        Err(ProductError::MissingSelection("A0".to_string()))
    );
}

#[test]
fn every_question_about_an_unknown_product_fails() {
    let processor = ProductProcessor::new();
    let unknown = ProductError::ProductNotFound("NOPE".to_string());
    assert_eq!(processor.calculate_sku("NOPE", &vec![]), Err(unknown.clone()));
    assert_eq!(processor.get_variations("NOPE"), Err(unknown.clone()));
    assert_eq!(processor.get_attribute("NOPE", "zoovy:prod_name"), Err(unknown.clone()));
    assert_eq!(processor.check_inventory("NOPE:00"), Err(unknown.clone()));
    assert_eq!(processor.check_inventory("NOPE"), Err(unknown.clone()));
    assert_eq!(processor.price_parts("NOPE", &vec![]), Err(unknown));
}

#[test]
fn inventory_is_looked_up_in_the_product_of_the_stem() {
    let mut processor = ProductProcessor::new();
    processor.load_product(shirt());
    let item = processor.check_inventory("SHIRT:00RD").unwrap();
    assert_eq!(item.available, "4");
    assert_eq!(item.onshelf, "5");
    assert_eq!(
        processor.check_inventory("SHIRT:01RD"),
        Err(ProductError::InventoryNotFound("SHIRT:01RD".to_string()))
    );
    assert_eq!(
        processor.check_inventory("SHIRT"),
        Err(ProductError::InventoryNotFound("SHIRT".to_string()))
    );
    assert_eq!(
        processor.check_inventory(":SHIRT"),
        Err(ProductError::ProductNotFound("".to_string()))
    );
}

#[test]
fn stem_is_what_stands_before_the_first_colon() {
    assert_eq!(sku_stem("TEST:00"), "TEST");
    assert_eq!(sku_stem("TEST:00:01"), "TEST");
    assert_eq!(sku_stem("TEST"), "TEST");
    assert_eq!(sku_stem("TEST:"), "TEST");
    assert_eq!(sku_stem(":00"), "");
    assert_eq!(sku_stem(""), "");
    assert_eq!(sku_stem("\u{20ac}uro:\u{20ac}"), "\u{20ac}uro");
    for sku in ["TEST:00", "a:b:c", "", ":", "::", "plain", "\u{e9}t\u{e9}:1"] {
        assert_eq!(sku_stem(sku), sku.split(':').next().unwrap_or(sku));
    }
}

#[test]
fn attributes_are_looked_up_by_name() {
    let mut processor = ProductProcessor::new();
    processor.load_product(shirt());
    assert_eq!(
        processor.get_attribute("SHIRT", "zoovy:prod_name"),
        Ok(&Json::Text("Shirt".to_string()))
    );
    assert_eq!(
        processor.get_attribute("SHIRT", "zoovy:weight"),
        Err(ProductError::AttributeNotFound("zoovy:weight".to_string(), "SHIRT".to_string()))
    );
}

#[test]
fn price_parts_are_the_base_price_and_the_selected_modifiers() {
    let mut processor = ProductProcessor::new();
    processor.load_product(shirt());
    assert_eq!(
        processor.price_parts("SHIRT", &selections(&[("A1", "RD"), ("A0", "01")])),
        Ok(PriceParts {
            base_price: Some("99.99".to_string()),
            modifiers: vec![number("2.5"), number("1")],
        })
    );
    assert_eq!(
        processor.price_parts("SHIRT", &selections(&[("A0", "00"), ("A1", "RD")])),
        Ok(PriceParts { base_price: Some("99.99".to_string()), modifiers: vec![number("1")] })
    );
    assert_eq!(
        processor.price_parts("SHIRT", &selections(&[("A0", "77"), ("A9", "RD")])),
        Ok(PriceParts { base_price: Some("99.99".to_string()), modifiers: vec![] })
    );
}

#[test]
fn base_price_must_be_a_string() {
    let mut processor = ProductProcessor::new();
    let mut mug = plain("MUG");
    mug.attribs = vec![("zoovy:base_price".to_string(), Json::Number(number("5")))];
    processor.load_product(mug);
    processor.load_product(plain("CUP"));
    assert_eq!(
        processor.price_parts("MUG", &vec![]),
        Ok(PriceParts { base_price: None, modifiers: vec![] })
    );
    assert_eq!(
        processor.price_parts("CUP", &vec![]),
        Ok(PriceParts { base_price: None, modifiers: vec![] })
    );
}

#[test]
fn product_errors_tell_what_is_missing() {
    assert_eq!(ProductError::ProductNotFound("TEST".to_string()).message(), "Product TEST not found");
    assert_eq!(
        ProductError::MissingSelection("02".to_string()).message(),
        "Missing selection for variation 02"
    );
    assert_eq!(
        ProductError::InventoryNotFound("TEST:00".to_string()).message(),
        "Inventory not found for SKU TEST:00"
    );
    assert_eq!(
        ProductError::AttributeNotFound("zoovy:x".to_string(), "TEST".to_string()).message(),
        "Attribute zoovy:x not found for product TEST"
    );
}
