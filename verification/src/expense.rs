use crate::chars::lower_of;
use crate::chars::segments;
use crate::chars::str_eq;
use crate::chars::SepKind;
use crate::date::date_error_message;
use crate::date::date_result_matches;
use crate::date::Date;
use crate::date::DateError;
use crate::item::item_error_message;
use crate::item::item_result_matches;
use crate::item::Item;
use crate::item::ItemParseError;
use crate::store::store_matches;
use crate::store::Store;
use vstd::prelude::*;
use vstd::string::StringExecFns;

verus! {

/// The top-level diagnostics of the record pipeline, one per field failure.
/// `InvalidStore` and `InvalidTotalPrice` are reserved: store classification
/// is total and the total price is always derived, so neither is produced.
#[derive(Debug, PartialEq)]
pub enum ExpenseParseError {
    EmptyDate,
    EmptyStore,
    EmptyItem,
    InvalidDate(String),
    InvalidStore(String),
    InvalidItem(String),
    InvalidTotalPrice(String),
}

impl ExpenseParseError {
    /// The top-level form of a date diagnostic: its rendered message under
    /// `InvalidDate`.
    pub fn from_date_error(e: DateError) -> (r: Self)
        ensures
            r matches ExpenseParseError::InvalidDate(m) && m@ == date_error_message(e),
    {
        ExpenseParseError::InvalidDate(e.to_message())
    }

    /// The top-level form of an item diagnostic: its rendered message under
    /// `InvalidItem`.
    pub fn from_item_error(e: ItemParseError) -> (r: Self)
        ensures
            r matches ExpenseParseError::InvalidItem(m) && m@ == item_error_message(e),
    {
        ExpenseParseError::InvalidItem(e.to_message())
    }
}

/// A fully parsed expense record. The total owed is the item's unit price
/// times its amount; being a floating-point product of the item's fields,
/// it is computed by the caller when the record is rendered.
#[derive(Debug, PartialEq)]
pub struct Expense {
    pub date: Date,
    pub store: Store,
    pub item: Item,
}

/// The date slot a builder holds after being fed `s`: the parsed date, or
/// the date diagnostic rendered into the top-level taxonomy.
pub open spec fn date_field_matches(s: Seq<char>, f: Result<Date, ExpenseParseError>) -> bool {
    match f {
        Ok(d) => date_result_matches(s, Ok(d)),
        Err(e) => e matches ExpenseParseError::InvalidDate(m) && exists|de: DateError|
            date_result_matches(s, Err(de)) && m@ == date_error_message(de),
    }
}

/// The store slot after being fed `s`: classification is total.
pub open spec fn store_field_matches(s: Seq<char>, f: Result<Store, ExpenseParseError>) -> bool {
    f matches Ok(st) && store_matches(lower_of(s), st)
}

/// The item slot after being fed `s`: the parsed item, or the item
/// diagnostic rendered into the top-level taxonomy.
pub open spec fn item_field_matches(s: Seq<char>, f: Result<Item, ExpenseParseError>) -> bool {
    match f {
        Ok(it) => item_result_matches(s, Ok(it)),
        Err(e) => e matches ExpenseParseError::InvalidItem(m) && exists|ie: ItemParseError|
            item_result_matches(s, Err(ie)) && m@ == item_error_message(ie),
    }
}

/// Accumulates the three field results independently, then yields the
/// record or the first failing field in date, store, item order.
pub struct ExpenseBuilder {
    pub date: Result<Date, ExpenseParseError>,
    pub store: Result<Store, ExpenseParseError>,
    pub item: Result<Item, ExpenseParseError>,
}

impl ExpenseBuilder {
    /// A fresh builder: every slot reports its field as missing until fed.
    pub fn new() -> (r: Self)
        ensures
            r.date == Err::<Date, ExpenseParseError>(ExpenseParseError::EmptyDate),
            r.store == Err::<Store, ExpenseParseError>(ExpenseParseError::EmptyStore),
            r.item == Err::<Item, ExpenseParseError>(ExpenseParseError::EmptyItem),
    {
        Self {
            date: Err(ExpenseParseError::EmptyDate),
            store: Err(ExpenseParseError::EmptyStore),
            item: Err(ExpenseParseError::EmptyItem),
        }
    }

    /// Parse the date tokens into the date slot.
    pub fn date(self, date: &str) -> (r: Self)
        ensures
            r.store == self.store,
            r.item == self.item,
            date_field_matches(date@, r.date),
    {
        let slot = match Date::from_str(date) {
            Ok(d) => Ok(d),
            Err(e) => Err(ExpenseParseError::from_date_error(e)),
        };
        Self { date: slot, store: self.store, item: self.item }
    }

    /// Classify the store token into the store slot; classification never
    /// fails.
    pub fn store(self, store: &str) -> (r: Self)
        ensures
            r.date == self.date,
            r.item == self.item,
            store_field_matches(store@, r.store),
    {
        let slot = match Store::from_str(store) {
            Ok(st) => Ok(st),
            Err(_) => Err(ExpenseParseError::EmptyStore),
        };
        Self { date: self.date, store: slot, item: self.item }
    }

    /// Parse the item token into the item slot.
    pub fn item(self, item: &str) -> (r: Self)
        ensures
            r.date == self.date,
            r.store == self.store,
            item_field_matches(item@, r.item),
    {
        let slot = match Item::from_str(item) {
            Ok(it) => Ok(it),
            Err(e) => Err(ExpenseParseError::from_item_error(e)),
        };
        Self { date: self.date, store: self.store, item: slot }
    }

    /// Yield the record, or the first failing field's error in the fixed
    /// date, store, item priority order: a date error is reported before a
    /// store or item error whenever several fields are malformed at once.
    pub fn build(self) -> (r: Result<Expense, ExpenseParseError>)
        ensures
            self.date matches Err(e) ==> r == Err::<Expense, ExpenseParseError>(e),
            self.date is Ok ==> (self.store matches Err(e) ==> r == Err::<
                Expense,
                ExpenseParseError,
            >(e)),
            self.date is Ok && self.store is Ok ==> (self.item matches Err(e) ==> r == Err::<
                Expense,
                ExpenseParseError,
            >(e)),
            self.date matches Ok(d) ==> (self.store matches Ok(st) ==> (self.item matches Ok(it)
                ==> r matches Ok(x) && x.date == d && x.store == st && x.item == it)),
    {
        let date = match self.date {
            Ok(d) => d,
            Err(e) => {
                return Err(e);
            },
        };
        let store = match self.store {
            Ok(st) => st,
            Err(e) => {
                return Err(e);
            },
        };
        let item = match self.item {
            Ok(it) => it,
            Err(e) => {
                return Err(e);
            },
        };
        Ok(Expense { date, store, item })
    }
}

/// The build step over raw field strings: the record whose slots match all
/// three fields, or the error of the first failing field (the store never
/// fails, so it is the date's error or else the item's).
pub open spec fn built_matches(
    date_s: Seq<char>,
    store_s: Seq<char>,
    item_s: Seq<char>,
    r: Result<Expense, ExpenseParseError>,
) -> bool {
    match r {
        Ok(x) => date_field_matches(date_s, Ok(x.date)) && store_field_matches(
            store_s,
            Ok(x.store),
        ) && item_field_matches(item_s, Ok(x.item)),
        Err(e) => date_field_matches(date_s, Err(e)) || ((exists|d: Date|
            date_field_matches(date_s, Ok(d))) && item_field_matches(item_s, Err(e))),
    }
}

/// What the record pipeline yields for a token stream: one or two date
/// tokens (`today`, or a day and a month joined by one space), then a store
/// token, then an item token, each missing position reported as its own
/// field's absence.
pub open spec fn expense_result_matches(
    toks: Seq<Seq<char>>,
    r: Result<Expense, ExpenseParseError>,
) -> bool {
    if toks.len() == 0 {
        r matches Err(ExpenseParseError::EmptyDate)
    } else {
        let today = toks[0] == "today"@;
        if !today && toks.len() < 2 {
            r matches Err(ExpenseParseError::EmptyDate)
        } else {
            let used: int = if today {
                1
            } else {
                2
            };
            let date_s = if today {
                toks[0]
            } else {
                toks[0] + seq![' '] + toks[1]
            };
            if toks.len() <= used {
                r matches Err(ExpenseParseError::EmptyStore)
            } else if toks.len() <= used + 1 {
                r matches Err(ExpenseParseError::EmptyItem)
            } else {
                built_matches(date_s, toks[used], toks[used + 1], r)
            }
        }
    }
}

impl Expense {
    pub fn builder() -> (r: ExpenseBuilder)
        ensures
            r.date == Err::<Date, ExpenseParseError>(ExpenseParseError::EmptyDate),
            r.store == Err::<Store, ExpenseParseError>(ExpenseParseError::EmptyStore),
            r.item == Err::<Item, ExpenseParseError>(ExpenseParseError::EmptyItem),
    {
        ExpenseBuilder::new()
    }

    /// Run the whole pipeline over a token stream: pull the date tokens,
    /// the store token and the item token in that fixed order, parse each
    /// field, and build.
    pub fn parse_iter(tokens: &Vec<String>) -> (r: Result<Expense, ExpenseParseError>)
        ensures
            expense_result_matches(tokens.deep_view(), r),
    {
        let n = tokens.len();
        proof {
            assert(tokens.deep_view().len() == n);
        }
        if n == 0 {
            return Err(ExpenseParseError::EmptyDate);
        }
        let t0 = &tokens[0];
        proof {
            assert(tokens.deep_view()[0] == t0@);
        }
        let today = str_eq(t0.as_str(), "today");
        let date_str: String;
        let used: usize;
        if today {
            date_str = t0.clone();
            used = 1;
        } else {
            if n < 2 {
                return Err(ExpenseParseError::EmptyDate);
            }
            proof {
                assert(tokens.deep_view()[1] == tokens@[1]@);
                reveal_strlit(" ");
            }
            let mut d = t0.clone();
            d.append(" ");
            d.append(tokens[1].as_str());
            proof {
                assert(" "@ =~= seq![' ']);
            }
            date_str = d;
            used = 2;
        }
        if n <= used {
            return Err(ExpenseParseError::EmptyStore);
        }
        if n <= used + 1 {
            return Err(ExpenseParseError::EmptyItem);
        }
        proof {
            assert(tokens.deep_view()[used as int] == tokens@[used as int]@);
            assert(tokens.deep_view()[used as int + 1] == tokens@[used as int + 1]@);
        }
        Expense::builder().date(date_str.as_str()).store(tokens[used].as_str()).item(
            tokens[used + 1].as_str(),
        ).build()
    }
}

} // verus!
