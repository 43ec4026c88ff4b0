use tracker::Store;

#[test]
fn store_magnit_aliases() {
    assert_eq!(Ok(Store::Magnit), Store::from_str("magnit"));
    assert_eq!(Ok(Store::Magnit), Store::from_str("MAGNIT"));
    assert_eq!(Ok(Store::Magnit), Store::from_str("магнит"));
    assert_eq!(Ok(Store::Magnit), Store::from_str("Магнит"));
}

#[test]
fn store_five_aliases() {
    assert_eq!(Ok(Store::Five), Store::from_str("five"));
    assert_eq!(Ok(Store::Five), Store::from_str("5ka"));
    assert_eq!(Ok(Store::Five), Store::from_str("пятерочка"));
    assert_eq!(Ok(Store::Five), Store::from_str("пятёрочка"));
    assert_eq!(Ok(Store::Five), Store::from_str("пятерка"));
    assert_eq!(Ok(Store::Five), Store::from_str("ПЯТЁРКА"));
}

#[test]
fn store_lenta_aliases() {
    assert_eq!(Ok(Store::Lenta), Store::from_str("lenta"));
    assert_eq!(Ok(Store::Lenta), Store::from_str("Lenta"));
    assert_eq!(Ok(Store::Lenta), Store::from_str("ЛЕНТА"));
}

#[test]
fn store_is_total_on_any_input() {
    assert_eq!(Ok(Store::Other(String::new())), Store::from_str(""));
    assert_eq!(
        Ok(Store::Other("corner shop".to_owned())),
        Store::from_str("corner shop")
    );
}

#[test]
fn store_other_carries_lowercased_text() {
    assert_eq!(
        Ok(Store::Other("walmart".to_owned())),
        Store::from_str("WalMart")
    );
}
