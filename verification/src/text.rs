//! Text operations that the protocol rules are written in.

use vstd::prelude::*;
use vstd::string::*;

verus! {

/// `text` begins with `prefix`.
pub open spec fn begins_with(text: Seq<char>, prefix: Seq<char>) -> bool {
    prefix.len() <= text.len() && text.subrange(0, prefix.len() as int) == prefix
}

/// The position of the first `wanted` in `text`, or the length of `text` where there is none.
pub open spec fn first_index(text: Seq<char>, wanted: char) -> int
    decreases text.len(),
{
    if text.len() == 0 {
        0
    } else if text[0] == wanted {
        0
    } else {
        1 + first_index(text.drop_first(), wanted)
    }
}

/// The decimal digits of `n`, without leading zeros.
pub open spec fn decimal(n: nat) -> Seq<char>
    decreases n,
{
    if n < 10 {
        seq![digit(n)]
    } else {
        decimal(n / 10).push(digit(n % 10))
    }
}

/// The character of a single decimal digit.
pub open spec fn digit(d: nat) -> char {
    (0x30 + d) as char
}

/// Whether both texts hold the same characters.
pub fn same(a: &str, b: &str) -> (res: bool)
    ensures
        res == (a@ == b@),
{
    a.to_owned() == b.to_owned()
}

/// Whether `text` begins with `prefix`.
pub fn starts_with(text: &str, prefix: &str) -> (res: bool)
    ensures
        res == begins_with(text@, prefix@),
{
    let n: usize = prefix.unicode_len();
    n <= text.unicode_len() && same(text.substring_char(0, n), prefix)
}

/// The characters before the first `wanted`, and the rest from it on.
/// `None` where `wanted` does not occur.
pub fn split_before(text: &str, wanted: char) -> (res: Option<(String, String)>)
    ensures
        res is Some <==> text@.contains(wanted),
        res matches Some(parts) ==> {
            let at = first_index(text@, wanted);
            &&& 0 <= at < text@.len()
            &&& text@[at] == wanted
            &&& parts.0@ == text@.subrange(0, at)
            &&& parts.1@ == text@.subrange(at, text@.len() as int)
        },
{
    let n: usize = text.unicode_len();
    let mut i: usize = 0;
    while i < n
        invariant
            n == text@.len(),
            i <= n,
            forall|k: int| 0 <= k < i ==> text@[k] != wanted,
        decreases n - i,
    {
        if text.get_char(i) == wanted {
            proof {
                lemma_first_index(text@, wanted, i as int);
            }
            return Some((text.substring_char(0, i).to_owned(), text.substring_char(i, n).to_owned()));
        }
        i = i + 1;
    }
    None
}

/// The first occurrence is where nothing before it matches.
pub proof fn lemma_first_index(text: Seq<char>, wanted: char, at: int)
    requires
        0 <= at < text.len(),
        text[at] == wanted,
        forall|k: int| 0 <= k < at ==> text[k] != wanted,
    ensures
        first_index(text, wanted) == at,
    decreases text.len(),
{
    if at > 0 {
        assert(text[0] != wanted);
        assert forall|k: int| 0 <= k < at - 1 implies text.drop_first()[k] != wanted by {
            assert(text.drop_first()[k] == text[k + 1]);
        }
        lemma_first_index(text.drop_first(), wanted, at - 1);
    }
}

/// `left` followed by `right`.
pub fn join(left: &str, right: &str) -> (res: String)
    ensures
        res@ == left@ + right@,
{
    let mut out: String = left.to_owned();
    out.append(right);
    out
}

/// A number written in decimal.
pub fn decimal_text(n: u32) -> (res: String)
    ensures
        res@ == decimal(n as nat),
    decreases n,
{
    let mut out: String = if n < 10 {
        String::new()
    } else {
        decimal_text(n / 10)
    };
    let last: u32 = n % 10;
    out.append(digit_text(last));
    proof {
        if n < 10 {
            assert(out@ =~= decimal(n as nat));
        } else {
            assert(out@ =~= decimal((n / 10) as nat).push(digit((n % 10) as nat)));
        }
    }
    out
}

fn digit_text(d: u32) -> (res: &'static str)
    requires
        d < 10,
    ensures
        res@ == seq![digit(d as nat)],
{
    proof {
        reveal_strlit("0");
        reveal_strlit("1");
        reveal_strlit("2");
        reveal_strlit("3");
        reveal_strlit("4");
        reveal_strlit("5");
        reveal_strlit("6");
        reveal_strlit("7");
        reveal_strlit("8");
        reveal_strlit("9");
    }
    if d == 0 {
        "0"
    } else if d == 1 {
        "1"
    } else if d == 2 {
        "2"
    } else if d == 3 {
        "3"
    } else if d == 4 {
        "4"
    } else if d == 5 {
        "5"
    } else if d == 6 {
        "6"
    } else if d == 7 {
        "7"
    } else if d == 8 {
        "8"
    } else {
        "9"
    }
}

/// The first occurrence of a character has it, and nothing before does.
pub proof fn law_first_index_is_first(text: Seq<char>, wanted: char)
    ensures
        0 <= first_index(text, wanted) <= text.len(),
        forall|k: int| 0 <= k < first_index(text, wanted) ==> text[k] != wanted,
        first_index(text, wanted) < text.len() ==> text[first_index(text, wanted)] == wanted,
    decreases text.len(),
{
    if text.len() > 0 && text[0] != wanted {
        let rest = text.drop_first();
        law_first_index_is_first(rest, wanted);
        assert forall|k: int| 0 <= k < first_index(text, wanted) implies text[k] != wanted by {
            if k > 0 {
                assert(rest[k - 1] == text[k]);
            }
        }
    }
}

/// A text begins with another one exactly where something makes the one up from the other.
pub proof fn law_begins_with(prefix: Seq<char>, rest: Seq<char>, text: Seq<char>)
    ensures
        begins_with(prefix + rest, prefix),
        begins_with(text, prefix) ==> text == prefix + text.skip(prefix.len() as int),
{
    assert((prefix + rest).subrange(0, prefix.len() as int) =~= prefix);
    if begins_with(text, prefix) {
        assert(text =~= text.subrange(0, prefix.len() as int) + text.skip(prefix.len() as int));
    }
}

/// The number that a row of decimal digits stands for.
pub open spec fn number_of(digits: Seq<char>) -> int
    decreases digits.len(),
{
    if digits.len() == 0 {
        0
    } else {
        10 * number_of(digits.drop_last()) + (digits.last() as int - '0' as int)
    }
}

/// A number written in decimal reads back as the number, consists of the digits `0` to `9`, and
/// has no leading zero.
pub proof fn law_decimal_reads_back(n: nat)
    ensures
        number_of(decimal(n)) == n,
        decimal(n).len() > 0,
        forall|i: int| 0 <= i < decimal(n).len() ==> '0' <= #[trigger] decimal(n)[i] <= '9',
        n > 0 ==> decimal(n)[0] != '0',
        n == 0 ==> decimal(n) == seq!['0'],
    decreases n,
{
    assert('0' as int == 0x30 && '9' as int == 0x39);
    let d = n % 10;
    assert(digit(d) as int == 0x30 + d);
    assert(decimal(n).last() == digit(d));
    if n >= 10 {
        law_decimal_reads_back(n / 10);
        assert(decimal(n).drop_last() =~= decimal(n / 10));
        assert(decimal(n)[0] == decimal(n / 10)[0]);
        assert(n == 10 * (n / 10) + n % 10);
    } else {
        assert(decimal(n).drop_last() =~= seq![]);
        assert(number_of(decimal(n).drop_last()) == 0);
    }
}

} // verus!
