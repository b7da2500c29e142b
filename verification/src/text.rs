//! Texts: comparing two, joining lines, reading and writing numbers in decimal.
//!
//! A text is modelled by its sequence of characters, the view of `str` and `String`.

use vstd::prelude::*;
use vstd::string::StringSliceAdditionalSpecFns;

verus! {

/// The texts of a sequence of strings.
pub open spec fn texts(lines: Seq<String>) -> Seq<Seq<char>> {
    Seq::new(lines.len(), |i: int| lines[i]@)
}

/// The lines written one after another with a line feed between each two:
/// no line feed in front of the first line, none behind the last.
pub open spec fn joined(lines: Seq<Seq<char>>) -> Seq<char>
    decreases lines.len(),
{
    if lines.len() == 0 {
        Seq::empty()
    } else if lines.len() == 1 {
        lines[0]
    } else {
        joined(lines.drop_last()) + seq!['\n'] + lines.last()
    }
}

/// The lines of a text: what stands between its line feeds, before the first
/// and behind the last. A text without a line feed is one line.
pub open spec fn lines_of(text: Seq<char>) -> Seq<Seq<char>>
    decreases text.len(),
{
    if text.len() == 0 {
        seq![Seq::empty()]
    } else {
        let before = lines_of(text.drop_last());
        if text.last() == '\n' {
            before.push(Seq::empty())
        } else {
            before.drop_last().push(before.last().push(text.last()))
        }
    }
}

/// Whether a line holds no line feed.
pub open spec fn is_line(line: Seq<char>) -> bool {
    forall|i: int| 0 <= i < line.len() ==> line[i] != '\n'
}

/// Whether `c` is one of the ASCII digits `0` to `9`.
pub open spec fn is_digit(c: char) -> bool {
    '0' <= c && c <= '9'
}

/// The number that the ASCII digit `c` stands for.
pub open spec fn digit_value(c: char) -> nat
    recommends
        is_digit(c),
{
    (c as nat - '0' as nat) as nat
}

/// The number that a sequence of ASCII digits spells in decimal. Leading
/// zeros do not count; no digits spell zero.
pub open spec fn decimal_value(digits: Seq<char>) -> nat
    decreases digits.len(),
{
    if digits.len() == 0 {
        0
    } else {
        decimal_value(digits.drop_last()) * 10 + digit_value(digits.last())
    }
}

/// The decimal digit that stands for `d`.
pub open spec fn digit_char(d: nat) -> char
    recommends
        d < 10,
{
    ('0' as u8 + d) as char
}

/// The number `n` in decimal, without leading zeros; `0` is written "0".
pub open spec fn decimal(n: nat) -> Seq<char>
    decreases n,
{
    if n < 10 {
        seq![digit_char(n)]
    } else {
        decimal(n / 10).push(digit_char(n % 10))
    }
}

/// The digits `digits`, least significant first, written most significant first.
pub open spec fn written(digits: Seq<u8>) -> Seq<char> {
    Seq::new(digits.len(), |k: int| digit_char(digits[digits.len() - 1 - k] as nat))
}

/// A number written in decimal spells that number: what is written can be
/// read back.
pub proof fn lemma_decimal_spells_its_number(n: nat)
    ensures
        decimal_value(decimal(n)) == n,
    decreases n,
{
    let last = digit_char(n % 10);
    assert(digit_value(last) == n % 10);
    assert(decimal(n).last() == last);
    if n < 10 {
        assert(decimal(n).drop_last() =~= Seq::<char>::empty());
        assert(decimal_value(Seq::<char>::empty()) == 0);
    } else {
        lemma_decimal_spells_its_number(n / 10);
        assert(decimal(n).drop_last() =~= decimal(n / 10));
    }
}

/// A text has at least one line.
proof fn lemma_lines_of_some(text: Seq<char>)
    ensures
        lines_of(text).len() > 0,
    decreases text.len(),
{
    if text.len() > 0 {
        lemma_lines_of_some(text.drop_last());
    }
}

/// What is written behind a text without a line feed in it goes to the
/// text's last line.
proof fn lemma_lines_of_more(text: Seq<char>, more: Seq<char>)
    requires
        is_line(more),
    ensures
        lines_of(text + more) == lines_of(text).drop_last().push(lines_of(text).last() + more),
    decreases more.len(),
{
    lemma_lines_of_some(text);
    let lines = lines_of(text);
    if more.len() == 0 {
        assert(text + more =~= text);
        assert(lines.last() + more =~= lines.last());
        assert(lines.drop_last().push(lines.last()) =~= lines);
    } else {
        let front = more.drop_last();
        lemma_lines_of_more(text, front);
        assert((text + more).drop_last() =~= text + front);
        assert((text + more).last() == more.last());
        let before = lines_of(text + front);
        assert(before.drop_last() =~= lines.drop_last());
        assert(before.last().push(more.last()) =~= lines.last() + more);
    }
}

/// Joining lines and taking the text apart at its line feeds gives the
/// lines back, each as it was: none is cut short, none is added, and no line
/// feed follows the last. It holds where there is a line and no line holds
/// a line feed.
pub proof fn lemma_joined_lines_come_back(lines: Seq<Seq<char>>)
    requires
        lines.len() > 0,
        forall|i: int| 0 <= i < lines.len() ==> is_line(#[trigger] lines[i]),
    ensures
        lines_of(joined(lines)) == lines,
    decreases lines.len(),
{
    let nothing = Seq::<char>::empty();
    if lines.len() == 1 {
        lemma_lines_of_more(nothing, lines[0]);
        assert(nothing + lines[0] =~= lines[0]);
        assert(lines_of(nothing) =~= seq![nothing]);
        assert(lines_of(nothing).drop_last().push(nothing + lines[0]) =~= lines);
    } else {
        let front = lines.drop_last();
        assert forall|i: int| 0 <= i < front.len() implies is_line(#[trigger] front[i]) by {
            assert(front[i] == lines[i]);
        }
        lemma_joined_lines_come_back(front);
        let fed = joined(front) + seq!['\n'];
        assert(fed.drop_last() =~= joined(front));
        assert(lines_of(fed) == front.push(nothing));
        lemma_lines_of_more(fed, lines.last());
        assert(front.push(nothing).drop_last() =~= front);
        assert(nothing + lines.last() =~= lines.last());
        assert(front.push(lines.last()) =~= lines);
    }
}

/// Whether two strings hold the same text.
pub fn same_text(a: &str, b: &str) -> (same: bool)
    ensures
        same == (a@ == b@),
{
    let x = a.as_bytes();
    let y = b.as_bytes();
    if x.len() != y.len() {
        return false;
    }
    let mut i: usize = 0;
    while i < x.len()
        invariant
            i <= x.len(),
            x@.len() == y@.len(),
            x@ == a.spec_bytes(),
            y@ == b.spec_bytes(),
            forall|j: int| 0 <= j < i ==> x@[j] == y@[j],
        decreases x.len() - i,
    {
        if x[i] != y[i] {
            return false;
        }
        i += 1;
    }
    proof {
        // A text is recovered from its encoding, so equal encodings mean equal texts.
        assert(x@ =~= y@);
        vstd::utf8::encode_utf8_decode_utf8(a@);
        vstd::utf8::encode_utf8_decode_utf8(b@);
    }
    true
}

/// Joins the lines with a line feed between each two.
pub fn join_lines(lines: &[String]) -> (text: String)
    ensures
        text@ == joined(texts(lines@)),
{
    let mut text = String::new();
    let mut i: usize = 0;
    while i < lines.len()
        invariant
            i <= lines.len(),
            text@ == joined(texts(lines@).take(i as int)),
        decreases lines.len() - i,
    {
        if i > 0 {
            text.append("\n");
        }
        text.append(lines[i].as_str());
        proof {
            let before = texts(lines@).take(i as int);
            let now = texts(lines@).take(i + 1);
            assert(now.drop_last() =~= before);
            assert(now.last() == lines@[i as int]@);
            assert("\n"@ =~= seq!['\n']) by {
                reveal_strlit("\n");
            }
            if i == 0 {
                assert(text@ =~= now[0]);
            }
        }
        i += 1;
    }
    assert(texts(lines@).take(lines@.len() as int) =~= texts(lines@));
    text
}

/// The one-character text of a decimal digit.
fn digit_text(d: u8) -> (text: &'static str)
    requires
        d < 10,
    ensures
        text@ == seq![digit_char(d as nat)],
{
    proof {
        reveal_strlit("0");
        reveal_strlit("1");
        reveal_strlit("2");
        reveal_strlit("3");
        reveal_strlit("4");
        reveal_strlit("5");
        reveal_strlit("6");
        reveal_strlit("7");
        reveal_strlit("8");
        reveal_strlit("9");
    }
    if d == 0 {
        "0"
    } else if d == 1 {
        "1"
    } else if d == 2 {
        "2"
    } else if d == 3 {
        "3"
    } else if d == 4 {
        "4"
    } else if d == 5 {
        "5"
    } else if d == 6 {
        "6"
    } else if d == 7 {
        "7"
    } else if d == 8 {
        "8"
    } else {
        "9"
    }
}

/// Appends `n`, written in decimal, to `text`.
pub fn append_decimal(text: &mut String, n: u128)
    ensures
        final(text)@ == old(text)@ + decimal(n as nat),
{
    let mut digits: Vec<u8> = Vec::new();
    let mut rest: u128 = n;
    while rest >= 10
        invariant
            decimal(n as nat) == decimal(rest as nat) + written(digits@),
            forall|k: int| 0 <= k < digits@.len() ==> digits@[k] < 10,
        decreases rest,
    {
        let ghost before = digits@;
        digits.push((rest % 10) as u8);
        proof {
            assert(decimal(rest as nat) == decimal(rest as nat / 10).push(
                digit_char(rest as nat % 10),
            ));
            assert(decimal(rest as nat) + written(before) =~= decimal(rest as nat / 10) + written(
                digits@,
            ));
        }
        rest = rest / 10;
    }
    text.append(digit_text(rest as u8));
    let mut i: usize = digits.len();
    while i > 0
        invariant
            i <= digits@.len(),
            forall|k: int| 0 <= k < digits@.len() ==> digits@[k] < 10,
            text@ == old(text)@ + decimal(rest as nat) + written(digits@).take(digits@.len() - i),
        decreases i,
    {
        i -= 1;
        text.append(digit_text(digits[i]));
    }
    proof {
        assert(old(text)@ + decimal(rest as nat) + written(digits@) =~= old(text)@ + (decimal(
            rest as nat,
        ) + written(digits@)));
    }
}

} // verus!
