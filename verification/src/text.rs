//! Text building blocks: equality of texts and decimal numerals.
use vstd::prelude::*;
use vstd::string::*;

verus! {

/// `str` equality compares contents.
pub assume_specification[ <str as PartialEq<str>>::eq ](a: &str, b: &str) -> (same: bool)
    ensures
        same == (a@ == b@),
;

/// Whether two texts hold the same characters.
pub fn same_text(a: &str, b: &str) -> (same: bool)
    ensures
        same == (a@ == b@),
{
    *a == *b
}

/// The decimal digit of `d`, for `d` below ten.
pub open spec fn digit(d: nat) -> char {
    ((48 + d) as u8) as char
}

/// The decimal numeral of `n`, without leading zeros.
pub open spec fn decimal(n: nat) -> Seq<char>
    decreases n,
{
    if n < 10 {
        seq![digit(n)]
    } else {
        decimal(n / 10).push(digit(n % 10))
    }
}

fn digit_text(d: u64) -> (text: &'static str)
    requires
        d < 10,
    ensures
        text@ == seq![digit(d as nat)],
{
    proof {
        reveal_strlit("0");
        reveal_strlit("1");
        reveal_strlit("2");
        reveal_strlit("3");
        reveal_strlit("4");
        reveal_strlit("5");
        reveal_strlit("6");
        reveal_strlit("7");
        reveal_strlit("8");
        reveal_strlit("9");
    }
    let text = if d == 0 {
        "0"
    } else if d == 1 {
        "1"
    } else if d == 2 {
        "2"
    } else if d == 3 {
        "3"
    } else if d == 4 {
        "4"
    } else if d == 5 {
        "5"
    } else if d == 6 {
        "6"
    } else if d == 7 {
        "7"
    } else if d == 8 {
        "8"
    } else {
        "9"
    };
    assert(text@ =~= seq![digit(d as nat)]);
    text
}

/// Renders `n` in decimal.
pub fn decimal_text(n: u64) -> (text: String)
    ensures
        text@ == decimal(n as nat),
    decreases n,
{
    if n < 10 {
        digit_text(n).to_owned()
    } else {
        let mut text = decimal_text(n / 10);
        text.append(digit_text(n % 10));
        assert(text@ =~= decimal(n as nat));
        text
    }
}

/// The contents of an optional text.
pub open spec fn text_option(text: Option<String>) -> Option<Seq<char>> {
    match text {
        Some(t) => Some(t@),
        None => None,
    }
}

/// The contents of a sequence of texts.
pub open spec fn text_list(texts: Seq<String>) -> Seq<Seq<char>> {
    texts.map_values(|t: String| t@)
}

/// The contents of a sequence of pairs of texts.
pub open spec fn text_pairs(pairs: Seq<(String, String)>) -> Seq<(Seq<char>, Seq<char>)> {
    pairs.map_values(|p: (String, String)| (p.0@, p.1@))
}

/// The texts one after another, with `separator` between neighbours.
pub open spec fn joined(texts: Seq<Seq<char>>, separator: Seq<char>) -> Seq<char>
    decreases texts.len(),
{
    if texts.len() == 0 {
        Seq::empty()
    } else if texts.len() == 1 {
        texts[0]
    } else {
        joined(texts.drop_last(), separator) + separator + texts.last()
    }
}

/// Joins texts with a separator between neighbours.
pub fn join(texts: &Vec<String>, separator: &str) -> (text: String)
    ensures
        text@ == joined(text_list(texts@), separator@),
{
    let mut text = String::new();
    let mut i: usize = 0;
    while i < texts.len()
        invariant
            i <= texts@.len(),
            text@ == joined(text_list(texts@).take(i as int), separator@),
        decreases texts.len() - i,
    {
        let ghost before = text_list(texts@).take(i as int);
        let ghost after = text_list(texts@).take(i + 1);
        if i > 0 {
            text.append(separator);
        }
        text.append(texts[i].as_str());
        proof {
            assert(after.drop_last() =~= before);
            assert(after.last() == texts@[i as int]@);
            if i == 0 {
                assert(text@ =~= after[0]);
            }
        }
        i = i + 1;
    }
    assert(text_list(texts@).take(texts@.len() as int) =~= text_list(texts@));
    text
}

/// Texts that are joined come one after another, each with the separator before
/// it but for the first: joining one more text adds the separator and the text.
pub proof fn law_joining_adds_one_by_one(
    texts: &Vec<String>,
    more: &Vec<String>,
    separator: &str,
    text: String,
    longer: String,
)
    requires
        call_ensures(join, (texts, separator), text),
        call_ensures(join, (more, separator), longer),
        more@.len() == texts@.len() + 1,
        forall|i: int| 0 <= i < texts@.len() ==> (#[trigger] more@[i])@ == texts@[i]@,
    ensures
        texts@.len() == 0 ==> text@.len() == 0 && longer@ == more@[0]@,
        texts@.len() > 0 ==> longer@ == text@ + separator@ + more@.last()@,
{
    assert(text_list(more@).drop_last() =~= text_list(texts@));
    assert(text_list(more@).last() == more@.last()@);
    assert(text_list(more@)[0] == more@[0]@);
}

/// A numeral is read back digit by digit: without its last digit it is that of
/// the tenth part, and its last digit is the rest.
pub proof fn law_numerals_are_decimal(n: u64, text: String)
    requires
        call_ensures(decimal_text, (n,), text),
    ensures
        text@.len() > 0,
        text@.last() == ((48 + n % 10) as u8) as char,
        n < 10 ==> text@.len() == 1,
        n >= 10 ==> text@.drop_last() == decimal((n / 10) as nat),
{
    assert(n >= 10 ==> text@.drop_last() =~= decimal((n / 10) as nat));
}

} // verus!
