//! The text of a command line.

use vstd::prelude::*;

verus! {

/// The words of a command line as mathematical values.
pub open spec fn texts(words: Seq<String>) -> Seq<Seq<char>> {
    words.map_values(|w: String| w@)
}

/// The words, in their order, with one space between each two of them.
pub open spec fn joined(words: Seq<Seq<char>>) -> Seq<char>
    decreases words.len(),
{
    if words.len() == 0 {
        Seq::empty()
    } else if words.len() == 1 {
        words[0]
    } else {
        joined(words.drop_last()) + seq![' '] + words.last()
    }
}

/// Joins the words of a command line into one text, with one space between
/// each two of them. No words give the empty text.
pub fn join_words(words: &Vec<String>) -> (line: String)
    ensures
        line@ == joined(texts(words@)),
{
    let mut line = String::new();
    let mut i: usize = 0;
    while i < words.len()
        invariant
            i <= words@.len(),
            line@ == joined(texts(words@).take(i as int)),
        decreases words@.len() - i,
    {
        let ghost before = texts(words@).take(i as int);
        let ghost after = texts(words@).take(i + 1);
        proof {
            reveal_strlit(" ");
            assert(" "@ =~= seq![' ']);
            assert(after.drop_last() =~= before);
            assert(after.last() == words@[i as int]@);
        }
        if i > 0 {
            line.append(" ");
        }
        line.append(words[i].as_str());
        assert(line@ =~= joined(after));
        i = i + 1;
    }
    assert(texts(words@).take(words@.len() as int) =~= texts(words@));
    line
}

/// The character of a decimal digit.
pub open spec fn digit(d: int) -> char
    recommends
        0 <= d < 10,
{
    if d == 0 {
        '0'
    } else if d == 1 {
        '1'
    } else if d == 2 {
        '2'
    } else if d == 3 {
        '3'
    } else if d == 4 {
        '4'
    } else if d == 5 {
        '5'
    } else if d == 6 {
        '6'
    } else if d == 7 {
        '7'
    } else if d == 8 {
        '8'
    } else {
        '9'
    }
}

/// The decimal digits of a natural number, without leading zeros.
pub open spec fn digits(n: nat) -> Seq<char>
    decreases n,
{
    if n < 10 {
        seq![digit(n as int)]
    } else {
        digits(n / 10).push(digit((n % 10) as int))
    }
}

/// An integer in decimal notation, with a minus sign where it is negative.
pub open spec fn decimal(n: int) -> Seq<char> {
    if n < 0 {
        seq!['-'] + digits((-n) as nat)
    } else {
        digits(n as nat)
    }
}

/// The text of one decimal digit.
fn digit_text(d: u64) -> (text: &'static str)
    requires
        d < 10,
    ensures
        text@ == seq![digit(d as int)],
{
    proof {
        reveal_strlit("0");
        reveal_strlit("1");
        reveal_strlit("2");
        reveal_strlit("3");
        reveal_strlit("4");
        reveal_strlit("5");
        reveal_strlit("6");
        reveal_strlit("7");
        reveal_strlit("8");
        reveal_strlit("9");
    }
    let text: &'static str = if d == 0 {
        "0"
    } else if d == 1 {
        "1"
    } else if d == 2 {
        "2"
    } else if d == 3 {
        "3"
    } else if d == 4 {
        "4"
    } else if d == 5 {
        "5"
    } else if d == 6 {
        "6"
    } else if d == 7 {
        "7"
    } else if d == 8 {
        "8"
    } else {
        "9"
    };
    assert(text@ =~= seq![digit(d as int)]);
    text
}

/// Appends the decimal digits of `n` to `line`.
fn append_digits(line: &mut String, n: u64)
    ensures
        final(line)@ == old(line)@ + digits(n as nat),
    decreases n,
{
    if n >= 10 {
        append_digits(line, n / 10);
    }
    line.append(digit_text(n % 10));
    assert(line@ =~= old(line)@ + digits(n as nat));
}

/// Appends `n` in decimal notation to `line`.
pub fn append_decimal(line: &mut String, n: i64)
    ensures
        final(line)@ == old(line)@ + decimal(n as int),
{
    if n < 0 {
        proof {
            reveal_strlit("-");
        }
        line.append("-");
        // The magnitude of the least `i64` is no `i64`: it is taken in `u64`.
        let magnitude: u64 = if n == i64::MIN {
            0x8000_0000_0000_0000u64
        } else {
            (-n) as u64
        };
        append_digits(line, magnitude);
        assert(line@ =~= old(line)@ + decimal(n as int));
    } else {
        append_digits(line, n as u64);
    }
}

} // verus!
