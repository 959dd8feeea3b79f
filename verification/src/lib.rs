//! The logic of a commerce front end: a dispatch queue for outbound API
//! requests, and beside it shopping carts, the product catalogue and field
//! validation.

pub mod cart;
pub mod cart_laws;
pub mod dispatch;
pub mod json;
pub mod product;
pub mod queue_laws;
pub mod request;
pub mod request_laws;
pub mod text;
pub mod utils;
pub mod validation;

pub use cart::{Cart, CartItem, CartManager, CartSummary, CheckoutPreferences};
pub use dispatch::{DispatchQueue, QueueType};
pub use product::{InventoryItem, Product, ProductProcessor, Variation, VariationOption};
pub use request::{ApiRequest, RequestTag};
pub use validation::{ValidationError, ValidationRule, ValidationType, Validator};
