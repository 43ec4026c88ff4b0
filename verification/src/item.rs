use crate::chars::char_subvec;
use crate::chars::lemma_find_sep_is;
use crate::chars::lemma_find_sep_none;
use crate::chars::segments;
use crate::chars::sep_at;
use crate::chars::sep_fields;
use crate::chars::split_sep_from;
use crate::chars::to_char_vec;
use crate::chars::SepKind;
use crate::numerals::accepts_float;
use crate::numerals::dec_digits_of;
use crate::numerals::is_digit;
use crate::numerals::is_float_text;
use crate::numerals::lemma_accepts_float_chars;
use crate::numerals::lemma_dec_digits_of;
use crate::numerals::numeral_digits;
use crate::numerals::parse_u32;
use crate::numerals::parses_as_u32;
use crate::numerals::u32_of;
use vstd::prelude::*;
use vstd::string::StrSliceExecFns;
use vstd::string::StringExecFns;

verus! {

/// Why an item token could not be read, each variant carrying the offending
/// raw text where there is any.
#[derive(Debug, PartialEq)]
pub enum ItemParseError {
    EmptyInput,
    EmptyName,
    EmptyAmount,
    InvalidAmount(String),
    EmptyPrice,
    InvalidPrice(String),
}

/// A purchased item: a name, a quantity, and the unit price kept as the
/// numeral text the token carried (a form Rust's float parser accepts).
/// The total owed for the item is the price times the amount; being a
/// floating-point product, it is computed by the caller from these fields.
#[derive(Debug, PartialEq)]
pub struct Item {
    pub name: String,
    pub amount: u32,
    pub price: String,
}

/// A single leading `x` stripped from an amount numeral.
pub open spec fn strip_x(a: Seq<char>) -> Seq<char> {
    if a.len() > 0 && a[0] == 'x' {
        a.drop_first()
    } else {
        a
    }
}

/// A single trailing `RUB` stripped from a price numeral.
pub open spec fn strip_rub(p: Seq<char>) -> Seq<char> {
    if p.len() >= 3 && p[p.len() - 3] == 'R' && p[p.len() - 2] == 'U' && p[p.len() - 1] == 'B' {
        p.take(p.len() - 3)
    } else {
        p
    }
}

/// A single trailing `_` stripped after the currency mark.
pub open spec fn strip_underscore(p: Seq<char>) -> Seq<char> {
    if p.len() > 0 && p.last() == '_' {
        p.drop_last()
    } else {
        p
    }
}

/// The price numeral once its optional `RUB` and `_` suffixes are gone.
pub open spec fn stripped_price(p: Seq<char>) -> Seq<char> {
    strip_underscore(strip_rub(p))
}

/// What parsing an item token yields, stated over character sequences.
#[verifier::ext_equal]
pub enum ItemOutcome {
    Parsed { name: Seq<char>, amount: u32, price: Seq<char> },
    NoInput,
    NoName,
    NoAmount,
    BadAmount(Seq<char>),
    NoPrice,
    BadPrice(Seq<char>),
}

/// The item grammar `name<[x]amount>::price[_][RUB]`: split on `::` keeping
/// non-empty segments, split the first such segment on `<` and `>` the same
/// way, read the amount after stripping one `x`, and read the price after
/// stripping one `RUB` and one `_`.
pub open spec fn item_outcome(s: Seq<char>) -> ItemOutcome {
    let dcs = segments(SepKind::DoubleColon, s);
    if dcs.len() == 0 {
        ItemOutcome::NoInput
    } else {
        let brs = segments(SepKind::Bracket, dcs[0]);
        if brs.len() == 0 {
            ItemOutcome::NoName
        } else if brs.len() == 1 {
            ItemOutcome::NoAmount
        } else if !parses_as_u32(strip_x(brs[1])) {
            ItemOutcome::BadAmount(brs[1])
        } else if dcs.len() == 1 {
            ItemOutcome::NoPrice
        } else if !accepts_float(stripped_price(dcs[1])) {
            ItemOutcome::BadPrice(dcs[1])
        } else {
            ItemOutcome::Parsed {
                name: brs[0],
                amount: u32_of(strip_x(brs[1])) as u32,
                price: stripped_price(dcs[1]),
            }
        }
    }
}

/// The parse result `r` is exactly what the grammar assigns to `s`.
pub open spec fn item_result_matches(s: Seq<char>, r: Result<Item, ItemParseError>) -> bool {
    match item_outcome(s) {
        ItemOutcome::Parsed { name, amount, price } => r matches Ok(it) && it.name@ == name
            && it.amount == amount && it.price@ == price,
        ItemOutcome::NoInput => r matches Err(ItemParseError::EmptyInput),
        ItemOutcome::NoName => r matches Err(ItemParseError::EmptyName),
        ItemOutcome::NoAmount => r matches Err(ItemParseError::EmptyAmount),
        ItemOutcome::BadAmount(a) => r matches Err(ItemParseError::InvalidAmount(t)) && t@ == a,
        ItemOutcome::NoPrice => r matches Err(ItemParseError::EmptyPrice),
        ItemOutcome::BadPrice(p) => r matches Err(ItemParseError::InvalidPrice(t)) && t@ == p,
    }
}

impl Item {
    /// Parse a token shaped `name<[x]amount>::price`, where the amount may
    /// carry a leading `x` and the price a trailing `RUB`, optionally
    /// preceded by `_`.
    pub fn from_str(s: &str) -> (r: Result<Item, ItemParseError>)
        ensures
            item_result_matches(s@, r),
    {
        let v = to_char_vec(s);
        let dcs = sep_fields(SepKind::DoubleColon, &v);
        let ghost dcs_segs = segments(SepKind::DoubleColon, s@);
        if dcs.len() == 0 {
            return Err(ItemParseError::EmptyInput);
        }
        let (na_a, na_b) = dcs[0];
        let na = char_subvec(&v, na_a, na_b);
        proof {
            assert(na@ == dcs_segs[0]);
        }
        let brs = sep_fields(SepKind::Bracket, &na);
        let ghost brs_segs = segments(SepKind::Bracket, dcs_segs[0]);
        if brs.len() == 0 {
            return Err(ItemParseError::EmptyName);
        }
        let (name_a, name_b) = brs[0];
        proof {
            assert(na@.subrange(name_a as int, name_b as int) == brs_segs[0]);
            assert(s@.subrange((na_a + name_a) as int, (na_a + name_b) as int) =~= na@.subrange(
                name_a as int,
                name_b as int,
            ));
        }
        let name = s.substring_char(na_a + name_a, na_a + name_b).to_owned();
        if brs.len() == 1 {
            return Err(ItemParseError::EmptyAmount);
        }
        let (am_a, am_b) = brs[1];
        proof {
            assert(na@.subrange(am_a as int, am_b as int) == brs_segs[1]);
        }
        let am_start = if na[am_a] == 'x' {
            am_a + 1
        } else {
            am_a
        };
        let am_digits = char_subvec(&na, am_start, am_b);
        proof {
            assert(am_digits@ =~= strip_x(brs_segs[1]));
        }
        let amount = match parse_u32(&am_digits) {
            Some(a) => a,
            None => {
                proof {
                    assert(s@.subrange((na_a + am_a) as int, (na_a + am_b) as int)
                        =~= brs_segs[1]);
                }
                let atext = s.substring_char(na_a + am_a, na_a + am_b).to_owned();
                return Err(ItemParseError::InvalidAmount(atext));
            },
        };
        if dcs.len() == 1 {
            return Err(ItemParseError::EmptyPrice);
        }
        let (pr_a, pr_b) = dcs[1];
        proof {
            assert(v@.subrange(pr_a as int, pr_b as int) == dcs_segs[1]);
        }
        let mut pe = pr_b;
        if pe - pr_a >= 3 && v[pe - 3] == 'R' && v[pe - 2] == 'U' && v[pe - 1] == 'B' {
            pe = pe - 3;
        }
        proof {
            assert(v@.subrange(pr_a as int, pe as int) =~= strip_rub(dcs_segs[1]));
        }
        if pe > pr_a && v[pe - 1] == '_' {
            pe = pe - 1;
        }
        proof {
            assert(v@.subrange(pr_a as int, pe as int) =~= stripped_price(dcs_segs[1]));
        }
        let pchars = char_subvec(&v, pr_a, pe);
        if !is_float_text(&pchars) {
            let ptext = s.substring_char(pr_a, pr_b).to_owned();
            return Err(ItemParseError::InvalidPrice(ptext));
        }
        let price = s.substring_char(pr_a, pe).to_owned();
        Ok(Item { name, amount, price })
    }
}

/// The canonical text of an item: `name<amount>::price`, with no amount
/// prefix and no price suffix.
pub open spec fn format_item(name: Seq<char>, amount: u32, price: Seq<char>) -> Seq<char> {
    name + seq!['<'] + dec_digits_of(amount as int) + seq!['>', ':', ':'] + price
}

/// Parsing is a left-inverse of the canonical formatter: a token written
/// `name<amount>::price` parses back to exactly that name, amount and
/// price, provided the name is non-empty and free of the delimiters `<`,
/// `>` and `:`, and the price is a numeral the float syntax accepts (which
/// rules out the delimiters and the optional suffixes by itself).
pub proof fn lemma_parse_formatted_item(name: Seq<char>, amount: u32, price: Seq<char>)
    requires
        name.len() > 0,
        forall|i: int| 0 <= i < name.len() ==> #[trigger] name[i] != '<' && name[i] != '>'
            && name[i] != ':',
        accepts_float(price),
    ensures
        item_outcome(format_item(name, amount, price)) == (ItemOutcome::Parsed {
            name,
            amount,
            price,
        }),
{
    lemma_accepts_float_chars(price);
    assert(forall|i: int| 0 <= i < price.len() ==> #[trigger] price[i] != ':');
    assert(price.last() != '_');
    assert(price[price.len() - 1] != 'B');
    let digits = dec_digits_of(amount as int);
    lemma_dec_digits_of(amount as int);
    let f = format_item(name, amount, price);
    let na = name + seq!['<'] + digits + seq!['>'];
    let nal = na.len() as int;
    let nl = name.len() as int;
    let dl = digits.len() as int;
    assert(f =~= na + seq![':', ':'] + price);
    assert(forall|i: int| 0 <= i < nl ==> na[i] == name[i]);
    assert(na[nl] == '<');
    assert(forall|i: int| 0 <= i < dl ==> na[nl + 1 + i] == digits[i]);
    assert(na[nal - 1] == '>');
    assert(forall|i: int| 0 <= i < nal ==> f[i] == na[i]);
    assert(f[nal] == ':' && f[nal + 1] == ':');
    assert(forall|i: int| 0 <= i < price.len() ==> f[nal + 2 + i] == price[i]);
    // the double colon at `nal` is the first one
    assert forall|m: int| 0 <= m < nal implies !sep_at(SepKind::DoubleColon, f, m) by {
        assert(na[m] != ':') by {
            if nl + 1 <= m < nal - 1 {
                assert(is_digit(digits[m - nl - 1]));
            }
        }
        assert(f[m] != ':');
    }
    lemma_find_sep_is(SepKind::DoubleColon, f, 0, nal);
    // and none stands after it
    assert forall|m: int| nal + 2 <= m implies !sep_at(SepKind::DoubleColon, f, m) by {
        if m + 2 <= f.len() {
            assert(f[m] == price[m - nal - 2]);
            assert(f[m] != ':');
        }
    }
    lemma_find_sep_none(SepKind::DoubleColon, f, nal + 2);
    assert(split_sep_from(SepKind::DoubleColon, f, nal + 2) =~~= seq![price]) by {
        assert(f.subrange(nal + 2, f.len() as int) =~= price);
    }
    assert(split_sep_from(SepKind::DoubleColon, f, 0) =~~= seq![na, price]) by {
        assert(f.subrange(0, nal) =~= na);
    }
    crate::chars::lemma_drop_empty_two(na, price);
    assert(segments(SepKind::DoubleColon, f) =~~= seq![na, price]);
    // brackets inside the head: `<` after the name, `>` after the digits
    assert forall|m: int| 0 <= m < nl implies !sep_at(SepKind::Bracket, na, m) by {
        assert(na[m] == name[m]);
    }
    assert(sep_at(SepKind::Bracket, na, nl));
    lemma_find_sep_is(SepKind::Bracket, na, 0, nl);
    assert forall|m: int| nl + 1 <= m < nal - 1 implies !sep_at(SepKind::Bracket, na, m) by {
        assert(is_digit(digits[m - nl - 1]));
    }
    assert(sep_at(SepKind::Bracket, na, nal - 1));
    lemma_find_sep_is(SepKind::Bracket, na, nl + 1, nal - 1);
    assert forall|m: int| nal <= m implies !sep_at(SepKind::Bracket, na, m) by {}
    lemma_find_sep_none(SepKind::Bracket, na, nal);
    assert(split_sep_from(SepKind::Bracket, na, nal) =~~= seq![Seq::<char>::empty()]) by {
        assert(na.subrange(nal, nal) =~= Seq::<char>::empty());
    }
    assert(split_sep_from(SepKind::Bracket, na, nl + 1) =~~= seq![digits, Seq::<char>::empty()])
        by {
        assert(na.subrange(nl + 1, nal - 1) =~= digits);
    }
    assert(split_sep_from(SepKind::Bracket, na, 0) =~~= seq![name, digits, Seq::<char>::empty()])
        by {
        assert(na.subrange(0, nl) =~= name);
    }
    crate::chars::lemma_drop_empty_two_then_empty(name, digits);
    assert(segments(SepKind::Bracket, na) =~~= seq![name, digits]);
    // the amount reads back
    assert(is_digit(digits[0]));
    assert(strip_x(digits) == digits);
    assert(numeral_digits(digits) == digits);
    assert(parses_as_u32(digits));
    assert(u32_of(digits) == amount);
    // the price carries no suffix to strip
    assert(strip_rub(price) == price);
    assert(strip_underscore(price) == price);
    assert(item_outcome(f) =~~= (ItemOutcome::Parsed { name, amount, price }));
}

/// The user-facing message each item diagnostic renders to.
pub open spec fn item_error_message(e: ItemParseError) -> Seq<char> {
    match e {
        ItemParseError::EmptyInput => "Item input was empty"@,
        ItemParseError::EmptyName => "Item name was empty"@,
        ItemParseError::EmptyAmount => "Item amount was empty"@,
        ItemParseError::InvalidAmount(t) => "Item invalid amount ("@ + t@ + ")"@,
        ItemParseError::EmptyPrice => "Item price was empty"@,
        ItemParseError::InvalidPrice(t) => "Item invalid price ("@ + t@ + ")"@,
    }
}

impl ItemParseError {
    /// Render the diagnostic as text.
    pub fn to_message(&self) -> (r: String)
        ensures
            r@ == item_error_message(*self),
    {
        match self {
            ItemParseError::EmptyInput => "Item input was empty".to_owned(),
            ItemParseError::EmptyName => "Item name was empty".to_owned(),
            ItemParseError::EmptyAmount => "Item amount was empty".to_owned(),
            ItemParseError::InvalidAmount(t) => {
                let mut m = "Item invalid amount (".to_owned();
                m.append(t.as_str());
                m.append(")");
                m
            },
            ItemParseError::EmptyPrice => "Item price was empty".to_owned(),
            ItemParseError::InvalidPrice(t) => {
                let mut m = "Item invalid price (".to_owned();
                m.append(t.as_str());
                m.append(")");
                m
            },
        }
    }
}

} // verus!
