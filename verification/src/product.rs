//! The product catalogue: variations, stock-keeping units, inventory and
//! attributes.

use crate::json::{entry_views, find, lookup, Json, JsonView};
use crate::text::{chars_of, spells, text_view};
use vstd::hash_map::StringHashMap;
use vstd::prelude::*;
use vstd::string::StringExecFns;

verus! {

/// One choice of a variation.
#[derive(Debug, Clone, PartialEq)]
pub struct VariationOption {
    pub v: String,
    pub prompt: String,
    /// What the choice adds to the price, as the JSON number it was given as.
    pub price_mod: Option<serde_json::Number>,
}

/// A way in which a product varies, with the choices it offers.
#[derive(Debug, Clone, PartialEq)]
pub struct Variation {
    pub id: String,
    pub prompt: String,
    pub variation_type: String,
    pub options: Vec<VariationOption>,
}

/// The stock of one stock-keeping unit.
#[derive(Debug, Clone, PartialEq, Eq)]
pub struct InventoryItem {
    pub sku: String,
    pub available: String,
    pub onshelf: String,
}

/// A product: its variations in their order, its inventory by stock-keeping
/// unit and its attributes by name. In both lists the first entry of a key
/// counts.
#[derive(Debug, PartialEq)]
pub struct Product {
    pub pid: String,
    pub variations: Vec<Variation>,
    pub inventory: Vec<(String, InventoryItem)>,
    pub attribs: Vec<(String, Json)>,
}

/// Why a question about a product has no answer.
#[derive(Debug, Clone, PartialEq, Eq)]
pub enum ProductError {
    /// No product of this id is loaded.
    ProductNotFound(String),
    /// The variation of this id has no selection.
    MissingSelection(String),
    /// The product keeps no inventory of this stock-keeping unit.
    InventoryNotFound(String),
    /// The product, named second, has no attribute of the name given first.
    AttributeNotFound(String, String),
}

/// What a `ProductError` says.
pub enum ProductErrorView {
    ProductNotFound(Seq<char>),
    MissingSelection(Seq<char>),
    InventoryNotFound(Seq<char>),
    AttributeNotFound(Seq<char>, Seq<char>),
}

impl View for ProductError {
    type V = ProductErrorView;

    open spec fn view(&self) -> ProductErrorView {
        match *self {
            ProductError::ProductNotFound(pid) => ProductErrorView::ProductNotFound(pid@),
            ProductError::MissingSelection(id) => ProductErrorView::MissingSelection(id@),
            ProductError::InventoryNotFound(sku) => ProductErrorView::InventoryNotFound(sku@),
            ProductError::AttributeNotFound(name, pid) => ProductErrorView::AttributeNotFound(
                name@,
                pid@,
            ),
        }
    }
}

impl ProductErrorView {
    /// The sentence that tells the error.
    pub open spec fn message(self) -> Seq<char> {
        match self {
            ProductErrorView::ProductNotFound(pid) => "Product "@ + pid + " not found"@,
            ProductErrorView::MissingSelection(id) => "Missing selection for variation "@ + id,
            ProductErrorView::InventoryNotFound(sku) => "Inventory not found for SKU "@ + sku,
            ProductErrorView::AttributeNotFound(name, pid) => "Attribute "@ + name
                + " not found for product "@ + pid,
        }
    }
}

impl ProductError {
    /// The sentence that tells the error.
    pub fn message(&self) -> (text: String)
        ensures
            text@ == self@.message(),
    {
        match self {
            ProductError::ProductNotFound(pid) => {
                "Product ".to_owned().concat(pid.as_str()).concat(" not found")
            },
            ProductError::MissingSelection(id) => {
                "Missing selection for variation ".to_owned().concat(id.as_str())
            },
            ProductError::InventoryNotFound(sku) => {
                "Inventory not found for SKU ".to_owned().concat(sku.as_str())
            },
            ProductError::AttributeNotFound(name, pid) => {
                "Attribute ".to_owned().concat(name.as_str()).concat(
                    " not found for product ",
                ).concat(pid.as_str())
            },
        }
    }
}

/// The value selected for a variation: that of the first selection filed
/// under the variation's id.
pub open spec fn chosen(selections: Seq<(String, String)>, id: Seq<char>) -> Option<Seq<char>>
    decreases selections.len(),
{
    if selections.len() == 0 {
        None
    } else if selections[0].0@ == id {
        Some(selections[0].1@)
    } else {
        chosen(selections.drop_first(), id)
    }
}

/// The selected values of a run of variations, one after the other in the
/// order of the variations; or the id of the first variation without a
/// selection.
pub open spec fn sku_suffix(variations: Seq<Variation>, selections: Seq<(String, String)>) -> Result<
    Seq<char>,
    Seq<char>,
>
    decreases variations.len(),
{
    if variations.len() == 0 {
        Ok(Seq::empty())
    } else {
        match chosen(selections, variations[0].id@) {
            None => Err(variations[0].id@),
            Some(value) => match sku_suffix(variations.drop_first(), selections) {
                Ok(rest) => Ok(value + rest),
                Err(id) => Err(id),
            },
        }
    }
}

/// The stock-keeping unit of a product under a selection: the product's id
/// alone where the product does not vary, else the id, a colon and the
/// selected values.
pub open spec fn sku_of(
    pid: Seq<char>,
    variations: Seq<Variation>,
    selections: Seq<(String, String)>,
) -> Result<Seq<char>, ProductErrorView> {
    if variations.len() == 0 {
        Ok(pid)
    } else {
        match sku_suffix(variations, selections) {
            Ok(suffix) => Ok(pid + seq![':'] + suffix),
            Err(id) => Err(ProductErrorView::MissingSelection(id)),
        }
    }
}

/// Looks up the value selected for a variation.
fn selected<'a>(selections: &'a Vec<(String, String)>, id: &String) -> (value: Option<&'a String>)
    ensures
        match value {
            Some(found) => chosen(selections@, id@) == Some(found@),
            None => chosen(selections@, id@) is None,
        },
{
    let mut i: usize = 0;
    proof {
        assert(selections@.skip(0) =~= selections@);
    }
    while i < selections.len()
        invariant
            i <= selections.len(),
            chosen(selections@, id@) == chosen(selections@.skip(i as int), id@),
        decreases selections.len() - i,
    {
        proof {
            assert(selections@.skip(i as int).drop_first() =~= selections@.skip(i + 1));
        }
        if selections[i].0 == *id {
            return Some(&selections[i].1);
        }
        i += 1;
    }
    None
}

/// The stock that a product keeps of a stock-keeping unit: that of the first
/// inventory entry filed under it.
pub open spec fn stock(inventory: Seq<(String, InventoryItem)>, sku: Seq<char>) -> Option<
    InventoryItem,
>
    decreases inventory.len(),
{
    if inventory.len() == 0 {
        None
    } else if inventory[0].0@ == sku {
        Some(inventory[0].1)
    } else {
        stock(inventory.drop_first(), sku)
    }
}

/// The place of the first colon of a text, or the length of the text where it
/// has none.
pub open spec fn stem_len(sku: Seq<char>) -> int
    decreases sku.len(),
{
    if sku.len() == 0 || sku[0] == ':' {
        0
    } else {
        1 + stem_len(sku.drop_first())
    }
}

/// The product id within a stock-keeping unit: what stands before its first
/// colon, or all of it where it has none.
pub open spec fn stem(sku: Seq<char>) -> Seq<char> {
    sku.take(stem_len(sku))
}

/// The stem of a text is a beginning of it that holds no colon, and what
/// follows it, where anything does, begins with a colon.
pub proof fn lemma_stem_len_bounds(sku: Seq<char>)
    ensures
        0 <= stem_len(sku) <= sku.len(),
        stem_len(sku) < sku.len() ==> sku[stem_len(sku)] == ':',
        forall|i: int| 0 <= i < stem_len(sku) ==> sku[i] != ':',
    decreases sku.len(),
{
    if sku.len() > 0 && sku[0] != ':' {
        let rest = sku.drop_first();
        lemma_stem_len_bounds(rest);
        assert forall|i: int| 0 <= i < stem_len(sku) implies sku[i] != ':' by {
            if i > 0 {
                assert(sku[i] == rest[i - 1]);
            }
        }
    }
}

/// The option of a variation that offers a value: the first one that does.
pub open spec fn option_for(options: Seq<VariationOption>, value: Seq<char>) -> Option<
    VariationOption,
>
    decreases options.len(),
{
    if options.len() == 0 {
        None
    } else if options[0].v@ == value {
        Some(options[0])
    } else {
        option_for(options.drop_first(), value)
    }
}

/// What a variation adds to the price under a selection: the modifier of the
/// selected option, where the variation has a selection, offers the selected
/// value and that option has a modifier.
pub open spec fn modifier_of(variation: Variation, selections: Seq<(String, String)>) -> Option<
    serde_json::Number,
> {
    match chosen(selections, variation.id@) {
        Some(value) => match option_for(variation.options@, value) {
            Some(option) => option.price_mod,
            None => None,
        },
        None => None,
    }
}

/// The price modifiers that apply under a selection, in the order of the
/// variations.
pub open spec fn modifiers_of(variations: Seq<Variation>, selections: Seq<(String, String)>) -> Seq<
    serde_json::Number,
>
    decreases variations.len(),
{
    if variations.len() == 0 {
        Seq::empty()
    } else {
        let before = modifiers_of(variations.drop_last(), selections);
        match modifier_of(variations.last(), selections) {
            Some(modifier) => before.push(modifier),
            None => before,
        }
    }
}

/// The text of a product's base price: what stands under the attribute
/// `zoovy:base_price`, where that is a string.
pub open spec fn base_price_of(attribs: Seq<(Seq<char>, JsonView)>) -> Option<Seq<char>> {
    match lookup(attribs, "zoovy:base_price"@) {
        Some(JsonView::Text(text)) => Some(text),
        _ => None,
    }
}

/// What a price is made of: the text of the base price, where the product
/// states one, and the modifiers to add to it.
#[derive(Debug, Clone, PartialEq)]
pub struct PriceParts {
    pub base_price: Option<String>,
    pub modifiers: Vec<serde_json::Number>,
}

/// Looks up the option that offers a value.
fn find_option<'a>(options: &'a Vec<VariationOption>, value: &String) -> (option: Option<
    &'a VariationOption,
>)
    ensures
        match option {
            Some(found) => option_for(options@, value@) == Some(*found),
            None => option_for(options@, value@) is None,
        },
{
    let mut i: usize = 0;
    proof {
        assert(options@.skip(0) =~= options@);
    }
    while i < options.len()
        invariant
            i <= options.len(),
            option_for(options@, value@) == option_for(options@.skip(i as int), value@),
        decreases options.len() - i,
    {
        proof {
            assert(options@.skip(i as int).drop_first() =~= options@.skip(i + 1));
        }
        if options[i].v == *value {
            return Some(&options[i]);
        }
        i += 1;
    }
    None
}

/// Looks up the stock of a stock-keeping unit.
fn find_stock<'a>(inventory: &'a Vec<(String, InventoryItem)>, sku: &str) -> (item: Option<
    &'a InventoryItem,
>)
    ensures
        match item {
            Some(found) => stock(inventory@, sku@) == Some(*found),
            None => stock(inventory@, sku@) is None,
        },
{
    let mut i: usize = 0;
    proof {
        assert(inventory@.skip(0) =~= inventory@);
    }
    while i < inventory.len()
        invariant
            i <= inventory.len(),
            stock(inventory@, sku@) == stock(inventory@.skip(i as int), sku@),
        decreases inventory.len() - i,
    {
        proof {
            assert(inventory@.skip(i as int).drop_first() =~= inventory@.skip(i + 1));
        }
        if spells(&inventory[i].0, sku) {
            return Some(&inventory[i].1);
        }
        i += 1;
    }
    None
}

/// The product id within a stock-keeping unit.
pub fn sku_stem(sku: &str) -> (pid: &str)
    ensures
        pid@ == stem(sku@),
{
    let chars = chars_of(sku);
    let mut count: usize = 0;
    proof {
        assert(sku@.skip(0) =~= sku@);
    }
    while count < chars.len() && chars[count] != ':'
        invariant
            chars@ == sku@,
            count <= chars.len(),
            stem_len(sku@) == count + stem_len(sku@.skip(count as int)),
        decreases chars.len() - count,
    {
        proof {
            assert(sku@.skip(count as int).drop_first() =~= sku@.skip(count + 1));
        }
        count = count + 1;
    }
    sku.substring_char(0, count)
}

/// Keeps the products that were loaded, and answers questions about them.
pub struct ProductProcessor {
    products: StringHashMap<Product>,
}

impl View for ProductProcessor {
    type V = Map<Seq<char>, Product>;

    closed spec fn view(&self) -> Map<Seq<char>, Product> {
        self.products@
    }
}

impl ProductProcessor {
    /// A processor with no product loaded.
    pub fn new() -> (processor: ProductProcessor)
        ensures
            processor@ == Map::<Seq<char>, Product>::empty(),
    {
        ProductProcessor { products: StringHashMap::new() }
    }

    /// Loads a product under its id, in place of any product loaded under
    /// that id before, and hands the id back.
    pub fn load_product(&mut self, product: Product) -> (pid: String)
        ensures
            pid@ == product.pid@,
            final(self)@ == old(self)@.insert(product.pid@, product),
    {
        let pid = product.pid.clone();
        self.products.insert(product.pid.clone(), product);
        pid
    }

    /// Looks a product up by its id.
    fn product(&self, pid: &str) -> (found: Result<&Product, ProductError>)
        ensures
            match found {
                Ok(product) => self@.contains_key(pid@) && *product == self@[pid@],
                Err(e) => !self@.contains_key(pid@) && e@ == ProductErrorView::ProductNotFound(
                    pid@,
                ),
            },
    {
        match self.products.get(pid) {
            Some(product) => Ok(product),
            None => Err(ProductError::ProductNotFound(pid.to_owned())),
        }
    }

    /// The stock-keeping unit of a product under a selection of one value for
    /// each of its variations.
    pub fn calculate_sku(&self, pid: &str, selections: &Vec<(String, String)>) -> (sku: Result<
        String,
        ProductError,
    >)
        ensures
            match sku {
                Ok(text) => self@.contains_key(pid@) && sku_of(
                    pid@,
                    self@[pid@].variations@,
                    selections@,
                ) == Ok::<Seq<char>, ProductErrorView>(text@),
                Err(e) => if self@.contains_key(pid@) {
                    sku_of(pid@, self@[pid@].variations@, selections@) == Err::<
                        Seq<char>,
                        ProductErrorView,
                    >(e@)
                } else {
                    e@ == ProductErrorView::ProductNotFound(pid@)
                },
            },
    {
        let product = match self.product(pid) {
            Ok(product) => product,
            Err(e) => { return Err(e); },
        };
        let variations = &product.variations;
        if variations.len() == 0 {
            return Ok(pid.to_owned());
        }
        let mut suffix = String::new();
        let mut i: usize = 0;
        proof {
            assert(variations@.skip(0) =~= variations@);
        }
        while i < variations.len()
            invariant
                i <= variations.len(),
                variations@.len() > 0,
                self@.contains_key(pid@),
                variations@ == self@[pid@].variations@,
                sku_suffix(variations@, selections@) == (match sku_suffix(
                    variations@.skip(i as int),
                    selections@,
                ) {
                    Ok(rest) => Ok::<Seq<char>, Seq<char>>(suffix@ + rest),
                    Err(id) => Err::<Seq<char>, Seq<char>>(id),
                }),
            decreases variations.len() - i,
        {
            proof {
                assert(variations@.skip(i as int).drop_first() =~= variations@.skip(i + 1));
                assert(variations@.skip(i as int)[0] == variations@[i as int]);
            }
            match selected(selections, &variations[i].id) {
                Some(value) => {
                    proof {
                        match sku_suffix(variations@.skip(i + 1), selections@) {
                            Ok(rest) => {
                                assert(suffix@ + (value@ + rest) =~= (suffix@ + value@) + rest);
                            },
                            Err(_) => {},
                        }
                    }
                    suffix.append(value.as_str());
                },
                None => {
                    return Err(ProductError::MissingSelection(variations[i].id.clone()));
                },
            }
            i += 1;
        }
        proof {
            assert(suffix@ + Seq::<char>::empty() =~= suffix@);
            reveal_strlit(":");
            assert(":"@ =~= seq![':']);
        }
        Ok(pid.to_owned().concat(":").concat(suffix.as_str()))
    }

    /// The stock of a stock-keeping unit, looked up in the product that the
    /// unit's stem names.
    pub fn check_inventory(&self, sku: &str) -> (item: Result<&InventoryItem, ProductError>)
        ensures
            match item {
                Ok(found) => self@.contains_key(stem(sku@)) && stock(
                    self@[stem(sku@)].inventory@,
                    sku@,
                ) == Some(*found),
                Err(e) => if self@.contains_key(stem(sku@)) {
                    stock(self@[stem(sku@)].inventory@, sku@) is None && e@
                        == ProductErrorView::InventoryNotFound(sku@)
                } else {
                    e@ == ProductErrorView::ProductNotFound(stem(sku@))
                },
            },
    {
        let pid = sku_stem(sku);
        let product = match self.product(pid) {
            Ok(product) => product,
            Err(e) => { return Err(e); },
        };
        match find_stock(&product.inventory, sku) {
            Some(found) => Ok(found),
            None => Err(ProductError::InventoryNotFound(sku.to_owned())),
        }
    }

    /// The variations of a product, in their order.
    pub fn get_variations(&self, pid: &str) -> (variations: Result<&Vec<Variation>, ProductError>)
        ensures
            match variations {
                Ok(found) => self@.contains_key(pid@) && *found == self@[pid@].variations,
                Err(e) => !self@.contains_key(pid@) && e@ == ProductErrorView::ProductNotFound(
                    pid@,
                ),
            },
    {
        match self.product(pid) {
            Ok(product) => Ok(&product.variations),
            Err(e) => Err(e),
        }
    }

    /// An attribute of a product: the value of the first attribute entry filed
    /// under the name.
    pub fn get_attribute(&self, pid: &str, attr_name: &str) -> (value: Result<&Json, ProductError>)
        ensures
            match value {
                Ok(found) => self@.contains_key(pid@) && lookup(
                    entry_views(self@[pid@].attribs@),
                    attr_name@,
                ) == Some(found@),
                Err(e) => if self@.contains_key(pid@) {
                    lookup(entry_views(self@[pid@].attribs@), attr_name@) is None && e@
                        == ProductErrorView::AttributeNotFound(attr_name@, pid@)
                } else {
                    e@ == ProductErrorView::ProductNotFound(pid@)
                },
            },
    {
        let product = match self.product(pid) {
            Ok(product) => product,
            Err(e) => { return Err(e); },
        };
        match find(&product.attribs, attr_name) {
            Some(found) => Ok(found),
            None => Err(ProductError::AttributeNotFound(attr_name.to_owned(), pid.to_owned())),
        }
    }

    /// What the price of a product under a selection is made of: the text of
    /// its base price and the modifiers of the selected options, in the order
    /// of the variations.
    pub fn price_parts(&self, pid: &str, selections: &Vec<(String, String)>) -> (parts: Result<
        PriceParts,
        ProductError,
    >)
        ensures
            match parts {
                Ok(found) => {
                    &&& self@.contains_key(pid@)
                    &&& text_view(found.base_price) == base_price_of(
                        entry_views(self@[pid@].attribs@),
                    )
                    &&& found.modifiers@ == modifiers_of(self@[pid@].variations@, selections@)
                },
                Err(e) => !self@.contains_key(pid@) && e@ == ProductErrorView::ProductNotFound(
                    pid@,
                ),
            },
    {
        let product = match self.product(pid) {
            Ok(product) => product,
            Err(e) => { return Err(e); },
        };
        let base_price = match find(&product.attribs, "zoovy:base_price") {
            Some(Json::Text(text)) => Some(text.clone()),
            _ => None,
        };
        let variations = &product.variations;
        let mut modifiers: Vec<serde_json::Number> = Vec::new();
        let mut i: usize = 0;
        while i < variations.len()
            invariant
                i <= variations.len(),
                modifiers@ == modifiers_of(variations@.take(i as int), selections@),
            decreases variations.len() - i,
        {
            proof {
                assert(variations@.take(i + 1).drop_last() =~= variations@.take(i as int));
            }
            match selected(selections, &variations[i].id) {
                Some(value) => match find_option(&variations[i].options, value) {
                    Some(option) => match &option.price_mod {
                        Some(modifier) => {
                            modifiers.push(modifier.clone());
                        },
                        None => {},
                    },
                    None => {},
                },
                None => {},
            }
            i += 1;
        }
        proof {
            assert(variations@.take(variations@.len() as int) =~= variations@);
        }
        Ok(PriceParts { base_price, modifiers })
    }
}

} // verus!
