use tracker::Item;
use tracker::ItemParseError;

fn item_eq(name: &str, amount: u32, price: f64, result: Item) {
    assert_eq!(name, result.name);
    assert_eq!(amount, result.amount);
    assert_eq!(price, result.price.parse::<f64>().unwrap());
}

#[test]
fn item_from_str_full_syntax() {
    let result = Item::from_str("banana<x3>::66RUB").unwrap();

    item_eq("banana", 3, 66.0, result);
}

#[test]
fn item_from_str_no_amount_prefix() {
    let result = Item::from_str("banana<3>::66RUB").unwrap();

    item_eq("banana", 3, 66.0, result);
}

#[test]
fn item_from_str_no_price_postfix() {
    let result = Item::from_str("banana<x3>::66").unwrap();

    item_eq("banana", 3, 66.0, result);
}

#[test]
fn item_from_str_no_prefix_and_postfix() {
    let result = Item::from_str("banana<3>::66").unwrap();

    item_eq("banana", 3, 66.0, result);
}

#[test]
fn item_from_str_float_price() {
    let result = Item::from_str("banana<x3>::66.50RUB").unwrap();

    item_eq("banana", 3, 66.5, result);
}

#[test]
fn item_from_str_with_price_underscore() {
    let result = Item::from_str("banana<x3>::66_RUB").unwrap();

    item_eq("banana", 3, 66.0, result);
}

#[test]
fn item_from_str_full_syntax_single_colon() {
    let expecting = ItemParseError::EmptyPrice;
    let result = Item::from_str("banana<x3>:66RUB");

    assert_eq!(Err(expecting), result);
}

#[test]
fn item_from_str_no_open_bracket() {
    let expecting = ItemParseError::InvalidAmount(":66RUB".to_owned());
    let result = Item::from_str("bananax3>:66RUB");

    assert_eq!(Err(expecting), result);
}

#[test]
fn item_from_str_no_close_bracket() {
    let expecting = ItemParseError::InvalidAmount("x3:66RUB".to_owned());
    let result = Item::from_str("banana<x3:66RUB");

    assert_eq!(Err(expecting), result);
}

#[test]
fn item_total_price() {
    let item = Item::from_str("banana<x3>::66RUB").unwrap();
    let tp = item.price.parse::<f64>().unwrap() * item.amount as f64;

    assert_eq!(66.0 * 3.0, tp);
}

#[test]
fn item_from_str_empty_input() {
    assert_eq!(Err(ItemParseError::EmptyInput), Item::from_str(""));
    assert_eq!(Err(ItemParseError::EmptyInput), Item::from_str("::"));
}

#[test]
fn item_from_str_missing_amount() {
    assert_eq!(Err(ItemParseError::EmptyAmount), Item::from_str("banana::66"));
    assert_eq!(Err(ItemParseError::EmptyAmount), Item::from_str("banana<>::66"));
}

#[test]
fn item_from_str_missing_price_segment() {
    assert_eq!(Err(ItemParseError::EmptyPrice), Item::from_str("banana<3>"));
    assert_eq!(Err(ItemParseError::EmptyPrice), Item::from_str("banana<3>::"));
}

#[test]
fn item_from_str_bad_price() {
    let expecting = ItemParseError::InvalidPrice("sixty".to_owned());
    assert_eq!(Err(expecting), Item::from_str("banana<3>::sixty"));
    let expecting = ItemParseError::InvalidPrice("6_6RUB".to_owned());
    assert_eq!(Err(expecting), Item::from_str("banana<3>::6_6RUB"));
}

#[test]
fn item_from_str_bad_amount_value() {
    let expecting = ItemParseError::InvalidAmount("x99999999999".to_owned());
    assert_eq!(Err(expecting), Item::from_str("banana<x99999999999>::66"));
}

#[test]
fn item_from_str_exponent_price() {
    let result = Item::from_str("banana<2>::6.6e1RUB").unwrap();

    item_eq("banana", 2, 66.0, result);
}

#[test]
fn item_from_str_plus_amount() {
    let result = Item::from_str("banana<x+3>::66").unwrap();

    item_eq("banana", 3, 66.0, result);
}

#[test]
fn item_from_str_missing_name() {
    assert_eq!(Err(ItemParseError::EmptyName), Item::from_str("<>::66"));
}

#[test]
fn item_error_messages() {
    assert_eq!("Item input was empty", ItemParseError::EmptyInput.to_message());
    assert_eq!("Item name was empty", ItemParseError::EmptyName.to_message());
    assert_eq!("Item amount was empty", ItemParseError::EmptyAmount.to_message());
    assert_eq!(
        "Item invalid amount (x3:66RUB)",
        ItemParseError::InvalidAmount("x3:66RUB".to_owned()).to_message()
    );
    assert_eq!("Item price was empty", ItemParseError::EmptyPrice.to_message());
    assert_eq!(
        "Item invalid price (sixty)",
        ItemParseError::InvalidPrice("sixty".to_owned()).to_message()
    );
}

#[test]
fn item_round_trip_canonical_form() {
    let result = Item::from_str("cookies<5>::15.25").unwrap();

    assert_eq!("cookies", result.name);
    assert_eq!(5, result.amount);
    assert_eq!("15.25", result.price);
}
