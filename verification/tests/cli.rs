use tracker::App;
use tracker::AppError;
use tracker::Command;
use tracker::ExpenseParseError;
use tracker::Month;
use tracker::Store;

#[test]
fn app_new_keeps_prompt() {
    let app = App::new("$ ");

    assert_eq!("$ ", app.promt);
}

#[test]
fn get_command_exit() {
    let result = App::get_command("exit");

    assert!(matches!(result, Ok(Command::Exit)));
}

#[test]
fn get_command_blank_line() {
    let result = App::get_command("   ");

    assert!(matches!(result, Err(AppError::NoCommand)));
}

#[test]
fn get_command_unknown_keyword() {
    let result = App::get_command("help me");

    match result {
        Ok(Command::Unknown(word)) => assert_eq!("help", word),
        _ => panic!("expected an unknown command"),
    }
}

#[test]
fn get_command_new_expense() {
    let result = App::get_command("new 15 mar lenta milk<2>::50RUB");

    match result {
        Ok(Command::New(expense)) => {
            assert_eq!(15, expense.date.day);
            assert_eq!(Month::March, expense.date.month);
            assert_eq!(Store::Lenta, expense.store);
            assert_eq!("milk", expense.item.name);
            assert_eq!(2, expense.item.amount);
            assert_eq!(50.0, expense.item.price.parse::<f64>().unwrap());
        },
        _ => panic!("expected a new expense"),
    }
}

#[test]
fn get_command_new_without_tokens() {
    let result = App::get_command("new");

    match result {
        Err(AppError::ExpenseErr(e)) => assert_eq!(ExpenseParseError::EmptyDate, e),
        _ => panic!("expected a missing date"),
    }
}
