//! Text building blocks: appending characters, decimal numerals, quoted
//! texts, lists, and the "occurs in" relation on character sequences.

use vstd::prelude::*;
use vstd::string::*;

verus! {

/// `String::push`: the character is appended at the end, nothing else changes.
pub assume_specification[ String::push ](s: &mut String, ch: char)
    ensures
        final(s)@ == old(s)@.push(ch),
;

/// The character of the decimal digit `d`.
pub open spec fn digit_char(d: nat) -> char
    recommends
        d < 10,
{
    (d + 48) as char
}

/// The decimal numeral of `n`, without sign or leading zeros.
pub open spec fn decimal(n: nat) -> Seq<char>
    decreases n,
{
    if n < 10 {
        seq![digit_char(n)]
    } else {
        decimal(n / 10).push(digit_char(n % 10))
    }
}

/// The decimal numeral of `n`, with a leading `-` when `n` is negative.
pub open spec fn signed_decimal(n: int) -> Seq<char> {
    if n < 0 {
        seq!['-'] + decimal((-n) as nat)
    } else {
        decimal(n as nat)
    }
}

/// Appends the decimal numeral of `n` to `out`.
pub fn push_decimal(out: &mut String, n: u64)
    ensures
        final(out)@ == old(out)@ + decimal(n as nat),
{
    let mut low: Vec<char> = Vec::new();
    let mut rest: u64 = n;
    while rest >= 10
        invariant
            decimal(n as nat) == decimal(rest as nat) + low@.reverse(),
        decreases rest,
    {
        let d: u8 = (rest % 10) as u8;
        low.push((d + 48) as char);
        rest = rest / 10;
    }
    out.push(((rest as u8) + 48) as char);
    let mut i: usize = low.len();
    while i > 0
        invariant
            i <= low.len(),
            rest < 10,
            out@ == old(out)@ + seq![digit_char(rest as nat)] + low@.reverse().subrange(
                0,
                low.len() - i,
            ),
        decreases i,
    {
        i = i - 1;
        out.push(low[i]);
    }
}

/// Appends the decimal numeral of `n` to `out`, with `-` before a negative one.
pub fn push_signed_decimal(out: &mut String, n: i64)
    ensures
        final(out)@ == old(out)@ + signed_decimal(n as int),
{
    if n < 0 {
        out.push('-');
        let magnitude: u64 = ((-(n + 1)) as u64) + 1;
        push_decimal(out, magnitude);
    } else {
        push_decimal(out, n as u64);
    }
}

/// `part` occurs in `text` as a run of consecutive characters.
pub open spec fn occurs_in(part: Seq<char>, text: Seq<char>) -> bool {
    exists|at: int| occurs_at(part, text, at)
}

/// `part` occurs in `text` starting at index `at`.
pub open spec fn occurs_at(part: Seq<char>, text: Seq<char>, at: int) -> bool {
    0 <= at && at + part.len() <= text.len() && text.subrange(at, at + part.len()) == part
}

/// A string occurs in every text that is built by writing something before
/// it and something after it.
pub proof fn lemma_occurs_between(before: Seq<char>, part: Seq<char>, after: Seq<char>)
    ensures
        occurs_in(part, before + part + after),
{
    let text = before + part + after;
    assert(text.subrange(before.len() as int, (before.len() + part.len()) as int) =~= part);
    assert(occurs_at(part, text, before.len() as int));
}

/// Whatever occurs in a text occurs in every text that contains that text.
pub proof fn lemma_occurs_transitive(part: Seq<char>, inner: Seq<char>, text: Seq<char>)
    requires
        occurs_in(part, inner),
        occurs_in(inner, text),
    ensures
        occurs_in(part, text),
{
    let i = choose|at: int| occurs_at(part, inner, at);
    let j = choose|at: int| occurs_at(inner, text, at);
    assert(text.subrange(j + i, j + i + part.len()) =~= text.subrange(j, j + inner.len()).subrange(
        i,
        i + part.len(),
    ));
    assert(occurs_at(part, text, j + i));
}

/// A text between double quotes, written as it is.
pub open spec fn quoted(s: Seq<char>) -> Seq<char> {
    "\""@ + s + "\""@
}

/// Returns `s` between double quotes, written as it is.
pub fn quote(s: &str) -> (r: String)
    ensures
        r@ == quoted(s@),
{
    String::from_str("\"").concat(s).concat("\"")
}

/// A text occurs in the same text between quotes.
pub proof fn lemma_quoted_shows_text(s: Seq<char>)
    ensures
        occurs_in(s, quoted(s)),
{
    lemma_occurs_between("\""@, s, "\""@);
}

/// One line of a record's text: the field's name, a colon and a space, the
/// value, and a line feed.
pub open spec fn field_line(name: Seq<char>, value: Seq<char>) -> Seq<char> {
    name + ": "@ + value + "\n"@
}

/// The items of a list with `, ` between each two.
pub open spec fn joined(items: Seq<Seq<char>>) -> Seq<char>
    decreases items.len(),
{
    if items.len() == 0 {
        Seq::empty()
    } else if items.len() == 1 {
        items[0]
    } else {
        joined(items.drop_last()) + ", "@ + items.last()
    }
}

/// A list as text: the items between square brackets, `, ` between each two.
pub open spec fn list_text(items: Seq<Seq<char>>) -> Seq<char> {
    "["@ + joined(items) + "]"@
}

/// Appends one line of a record's text.
pub fn push_line(out: &mut String, name: &str, value: &str)
    ensures
        final(out)@ == old(out)@ + field_line(name@, value@),
{
    out.append(name);
    out.append(": ");
    out.append(value);
    out.append("\n");
}

/// Appends a list of texts: the items between square brackets, `, `
/// between each two.
pub fn push_list(out: &mut String, items: &Vec<String>)
    ensures
        final(out)@ == old(out)@ + list_text(items@.map_values(|s: String| s@)),
{
    let ghost texts = items@.map_values(|s: String| s@);
    let mut list = String::from_str("[");
    let mut i: usize = 0;
    while i < items.len()
        invariant
            i <= items.len(),
            texts == items@.map_values(|s: String| s@),
            list@ == "["@ + joined(texts.subrange(0, i as int)),
        decreases items.len() - i,
    {
        if i > 0 {
            list.append(", ");
        }
        list.append(items[i].as_str());
        assert(texts.subrange(0, i + 1).drop_last() =~= texts.subrange(0, i as int));
        i = i + 1;
    }
    assert(texts.subrange(0, i as int) =~= texts);
    list.append("]");
    out.append(list.as_str());
}

/// A line of a record's text shows the field's name and its value.
pub proof fn lemma_line_shows_field(name: Seq<char>, value: Seq<char>)
    ensures
        occurs_in(name, field_line(name, value)),
        occurs_in(value, field_line(name, value)),
{
    let line = field_line(name, value);
    lemma_occurs_between(Seq::empty(), name, ": "@ + value + "\n"@);
    assert(line =~= Seq::empty() + name + (": "@ + value + "\n"@));
    lemma_occurs_between(name + ": "@, value, "\n"@);
}

/// Every item of a list occurs in the list's text.
pub proof fn lemma_list_shows_items(items: Seq<Seq<char>>, i: int)
    requires
        0 <= i < items.len(),
    ensures
        occurs_in(items[i], list_text(items)),
    decreases items.len(),
{
    lemma_joined_shows_items(items, i);
    lemma_occurs_between("["@, joined(items), "]"@);
    lemma_occurs_transitive(items[i], joined(items), list_text(items));
}

/// Every item of a list occurs in the items joined by `, `.
proof fn lemma_joined_shows_items(items: Seq<Seq<char>>, i: int)
    requires
        0 <= i < items.len(),
    ensures
        occurs_in(items[i], joined(items)),
    decreases items.len(),
{
    if items.len() == 1 {
        lemma_occurs_between(Seq::empty(), items[0], Seq::empty());
    } else {
        let front = joined(items.drop_last());
        if i == items.len() - 1 {
            lemma_occurs_between(front + ", "@, items.last(), Seq::empty());
        } else {
            lemma_joined_shows_items(items.drop_last(), i);
            lemma_occurs_between(Seq::empty(), front, ", "@ + items.last());
            assert(joined(items) =~= Seq::empty() + front + (", "@ + items.last()));
            lemma_occurs_transitive(items[i], front, joined(items));
        }
    }
}

} // verus!
