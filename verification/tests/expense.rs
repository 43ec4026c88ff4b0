use tracker::Expense;
use tracker::ExpenseParseError;
use tracker::Month;
use tracker::Store;

fn tokens(words: &[&str]) -> Vec<String> {
    words.iter().map(|w| w.to_string()).collect()
}

#[test]
fn parse_iter_full_record() {
    let toks = tokens(&["15", "mar", "lenta", "milk<2>::50"]);
    let expense = Expense::parse_iter(&toks).unwrap();

    assert_eq!(15, expense.date.day);
    assert_eq!(Month::March, expense.date.month);
    assert_eq!(Store::Lenta, expense.store);
    assert_eq!("milk", expense.item.name);
    assert_eq!(2, expense.item.amount);
    assert_eq!(50.0, expense.item.price.parse::<f64>().unwrap());
}

#[test]
fn parse_iter_today_consumes_one_token() {
    let toks = tokens(&["today", "magnit", "banana<x3>::66RUB"]);
    let expense = Expense::parse_iter(&toks).unwrap();

    assert_eq!(Store::Magnit, expense.store);
    assert_eq!("banana", expense.item.name);
    assert_eq!(3, expense.item.amount);
    let total = expense.item.price.parse::<f64>().unwrap() * expense.item.amount as f64;
    assert_eq!(198.0, total);
}

#[test]
fn parse_iter_missing_fields() {
    assert_eq!(
        Err(ExpenseParseError::EmptyDate),
        Expense::parse_iter(&tokens(&[]))
    );
    assert_eq!(
        Err(ExpenseParseError::EmptyDate),
        Expense::parse_iter(&tokens(&["15"]))
    );
    assert_eq!(
        Err(ExpenseParseError::EmptyStore),
        Expense::parse_iter(&tokens(&["today"]))
    );
    assert_eq!(
        Err(ExpenseParseError::EmptyItem),
        Expense::parse_iter(&tokens(&["today", "magnit"]))
    );
}

#[test]
fn parse_iter_date_error_reported_first() {
    // every field is malformed; the date's diagnostic wins
    let toks = tokens(&["15", "xyz", "anything", "bananax3>:66RUB"]);
    let result = Expense::parse_iter(&toks);

    assert_eq!(
        Err(ExpenseParseError::InvalidDate(
            "Date month invalid input (xyz)".to_owned()
        )),
        result
    );
}

#[test]
fn parse_iter_item_error_after_good_date() {
    let toks = tokens(&["today", "nowhere", "banana<x3>:66RUB"]);
    let result = Expense::parse_iter(&toks);

    assert_eq!(
        Err(ExpenseParseError::InvalidItem("Item price was empty".to_owned())),
        result
    );
}

#[test]
fn builder_empty_slots_report_date_first() {
    let result = Expense::builder().build();

    assert!(matches!(result, Err(ExpenseParseError::EmptyDate)));
}

#[test]
fn builder_date_error_before_item_error() {
    let result = Expense::builder().date("9 nothing").store("magnit").item("broken").build();

    assert_eq!(
        Err(ExpenseParseError::InvalidDate(
            "Date month invalid input (nothing)".to_owned()
        )),
        result
    );
}

#[test]
fn builder_item_error_surfaces_when_date_is_good() {
    let result = Expense::builder().date("today").store("magnit").item("broken").build();

    assert_eq!(
        Err(ExpenseParseError::InvalidItem("Item amount was empty".to_owned())),
        result
    );
}

#[test]
fn builder_complete_record() {
    let result = Expense::builder().date("1 jan").store("5ka").item("tea<1>::100").build().unwrap();

    assert_eq!(1, result.date.day);
    assert_eq!(Month::January, result.date.month);
    assert_eq!(Store::Five, result.store);
    assert_eq!("tea", result.item.name);
}
