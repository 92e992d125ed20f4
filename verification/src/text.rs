//! Small text operations: decimal numbers, searching, comparing, lower case.

use vstd::arithmetic::power::{lemma_pow0, lemma_pow1, lemma_pow_adds, lemma_pow_positive, pow};
use vstd::prelude::*;
use vstd::string::StrSliceExecFns;
use vstd::string::StringExecFns;

verus! {

/// The decimal digit for `d`, which is below ten.
pub open spec fn digit(d: nat) -> char {
    (48 + d) as char
}

/// `n` written in decimal, without leading zeros.
pub open spec fn decimal(n: nat) -> Seq<char>
    decreases n,
{
    if n < 10 {
        seq![digit(n)]
    } else {
        decimal(n / 10).push(digit(n % 10))
    }
}

/// Whether `needle` occurs in `text`, as a run of consecutive characters.
pub open spec fn contains_text(text: Seq<char>, needle: Seq<char>) -> bool {
    exists|at: int| #[trigger] occurs_at(text, needle, at)
}

/// Whether `needle` occurs in `text` at position `at`.
pub open spec fn occurs_at(text: Seq<char>, needle: Seq<char>, at: int) -> bool {
    &&& 0 <= at
    &&& at + needle.len() <= text.len()
    &&& text.subrange(at, at + needle.len()) == needle
}

/// Whether every character of `text` is an ASCII character.
pub open spec fn is_ascii_text(text: Seq<char>) -> bool {
    forall|i: int| 0 <= i < text.len() ==> (#[trigger] text[i]) as u32 <= 127
}

/// `c` with the letters `A` to `Z` replaced by `a` to `z`.
pub open spec fn ascii_lower(c: char) -> char {
    if 'A' <= c && c <= 'Z' {
        (c as u32 + 32) as char
    } else {
        c
    }
}

/// `text` with each of the letters `A` to `Z` replaced by its lower case.
pub open spec fn ascii_lowercase(text: Seq<char>) -> Seq<char> {
    text.map_values(|c: char| ascii_lower(c))
}

/// The lower case of a text by the Unicode rules that `str::to_lowercase` follows.
pub uninterp spec fn unicode_lowercase(text: Seq<char>) -> Seq<char>;

/// The lower case of a text. On ASCII text the Unicode rules touch `A` to `Z` only.
pub open spec fn lowercase(text: Seq<char>) -> Seq<char> {
    if is_ascii_text(text) {
        ascii_lowercase(text)
    } else {
        unicode_lowercase(text)
    }
}

/// Calls `str::to_lowercase`. Claimed of it: on ASCII text it lowers the letters
/// `A` to `Z` and keeps everything else; on other text its result is a function
/// of the text alone, which goes by the name `unicode_lowercase`.
#[verifier::external_body]
pub(crate) fn to_lowercase(text: &str) -> (lower: String)
    ensures
        is_ascii_text(text@) ==> lower@ == ascii_lowercase(text@),
        !is_ascii_text(text@) ==> lower@ == unicode_lowercase(text@),
{
    text.to_lowercase()
}

/// Whether two texts hold the same characters.
pub fn same_text(a: &str, b: &str) -> (same: bool)
    ensures
        same == (a@ == b@),
{
    a.to_owned() == b.to_owned()
}

/// Whether `text` begins with `first`.
pub fn starts_with_char(text: &str, first: char) -> (starts: bool)
    ensures
        starts == (text@.len() > 0 && text@[0] == first),
{
    !text.is_empty() && text.get_char(0) == first
}

/// The characters of `text`, in order.
fn chars_of(text: &str) -> (chars: Vec<char>)
    ensures
        chars@ == text@,
{
    let mut chars: Vec<char> = Vec::new();
    for c in it: text.chars()
        invariant
            chars@ == it.seq().take(it.index() as int),
            it.seq() == text@,
    {
        chars.push(c);
    }
    chars
}

/// Whether `needle` occurs in `text`.
pub fn find_text(text: &str, needle: &str) -> (found: bool)
    ensures
        found == contains_text(text@, needle@),
{
    let hay = chars_of(text);
    let pin = chars_of(needle);
    if pin.len() > hay.len() {
        return false;
    }
    let size: usize = hay.len();
    let last: usize = size - pin.len();
    let mut at: usize = 0;
    while at <= last
        invariant
            hay@ == text@,
            pin@ == needle@,
            size == hay@.len(),
            last == hay@.len() - pin@.len(),
            0 <= at <= last + 1,
            forall|p: int| 0 <= p < at ==> !#[trigger] occurs_at(text@, needle@, p),
        decreases last + 1 - at,
    {
        let mut k: usize = 0;
        while k < pin.len() && hay[at + k] == pin[k]
            invariant
                hay@ == text@,
                pin@ == needle@,
                size == hay@.len(),
                last == hay@.len() - pin@.len(),
                at <= last,
                k <= pin@.len(),
                forall|m: int| 0 <= m < k ==> hay@[at + m] == #[trigger] pin@[m],
            decreases pin@.len() - k,
        {
            k = k + 1;
        }
        if k == pin.len() {
            assert(text@.subrange(at as int, at + needle@.len()) =~= needle@);
            assert(occurs_at(text@, needle@, at as int));
            return true;
        }
        proof {
            if occurs_at(text@, needle@, at as int) {
                assert(text@.subrange(at as int, at + needle@.len())[k as int] == needle@[k as int]);
            }
        }
        if at == last {
            return false;
        }
        at = at + 1;
    }
    false
}

/// The one-character text for `d`, which is below ten.
fn digit_text(d: u64) -> (text: &'static str)
    requires
        d < 10,
    ensures
        text@ == seq![digit(d as nat)],
{
    proof {
        reveal_strlit("0");
        reveal_strlit("1");
        reveal_strlit("2");
        reveal_strlit("3");
        reveal_strlit("4");
        reveal_strlit("5");
        reveal_strlit("6");
        reveal_strlit("7");
        reveal_strlit("8");
        reveal_strlit("9");
    }
    match d {
        0 => "0",
        1 => "1",
        2 => "2",
        3 => "3",
        4 => "4",
        5 => "5",
        6 => "6",
        7 => "7",
        8 => "8",
        _ => "9",
    }
}

/// `n` written in decimal.
pub fn decimal_text(n: u64) -> (text: String)
    ensures
        text@ == decimal(n as nat),
    decreases n,
{
    if n < 10 {
        digit_text(n).to_owned()
    } else {
        let mut text = decimal_text(n / 10);
        text.append(digit_text(n % 10));
        assert(text@ =~= decimal(n as nat));
        text
    }
}

/// Decimal writing is one to one.
pub proof fn decimal_is_injective(m: nat, n: nat)
    ensures
        decimal(m) == decimal(n) ==> m == n,
    decreases m,
{
    if decimal(m) == decimal(n) {
        assert(decimal(m).last() == decimal(n).last());
        decimal_is_not_empty(m / 10);
        decimal_is_not_empty(n / 10);
        if m >= 10 && n >= 10 {
            assert(decimal(m).drop_last() =~= decimal(m / 10));
            assert(decimal(n).drop_last() =~= decimal(n / 10));
            decimal_is_injective(m / 10, n / 10);
        } else if m >= 10 {
            assert(decimal(m).len() >= 2);
        } else if n >= 10 {
            assert(decimal(n).len() >= 2);
        }
    }
}

proof fn decimal_is_not_empty(n: nat)
    ensures
        decimal(n).len() > 0,
    decreases n,
{
    if n >= 10 {
        decimal_is_not_empty(n / 10);
    }
}

/// A decimal holds digits only.
pub proof fn decimal_holds_digits(n: nat, i: int)
    requires
        0 <= i < decimal(n).len(),
    ensures
        '0' <= decimal(n)[i] <= '9',
    decreases n,
{
    if n >= 10 && i < decimal(n).len() - 1 {
        decimal_holds_digits(n / 10, i);
    }
}

/// On ASCII text, lower case keeps every character in its place and replaces the letters
/// from `A` to `Z`, and nothing else, by those from `a` to `z`.
pub proof fn ascii_letters_are_lowered(text: Seq<char>, i: int)
    requires
        forall|k: int| 0 <= k < text.len() ==> (#[trigger] text[k]) as u32 <= 127,
        0 <= i < text.len(),
    ensures
        lowercase(text).len() == text.len(),
        65 <= text[i] as int <= 90 ==> lowercase(text)[i] as int == text[i] as int + 32,
        !(65 <= text[i] as int <= 90) ==> lowercase(text)[i] == text[i],
{
    assert(text[i] as u32 <= 127);
}

/// A text is found exactly where it stands between something and something.
pub proof fn text_is_found_between(
    text: &str,
    needle: &str,
    before: Seq<char>,
    after: Seq<char>,
    found: bool,
)
    requires
        call_ensures(find_text, (text, needle), found),
    ensures
        text@ == before + needle@ + after ==> found,
        found ==> exists|start: Seq<char>, end: Seq<char>|
            text@ == #[trigger] (start + needle@ + end),
{
    if text@ == before + needle@ + after {
        let at = before.len() as int;
        assert(text@.subrange(at, at + needle@.len()) =~= needle@);
        assert(occurs_at(text@, needle@, at));
    }
    if found {
        let at = choose|at: int| #[trigger] occurs_at(text@, needle@, at);
        let start = text@.take(at);
        let end = text@.skip(at + needle@.len());
        assert(text@ =~= start + text@.subrange(at, at + needle@.len()) + end);
        assert(text@ == start + needle@ + end);
    }
}

/// In a decimal, the digit at distance `k` from the end counts the powers of ten of that
/// order, and a decimal of several digits does not begin with a zero.
pub proof fn decimal_digits_count_powers_of_ten(n: nat, k: nat)
    requires
        k < decimal(n).len(),
    ensures
        decimal(n)[decimal(n).len() - 1 - k] as int == 48 + (n as int / pow(10, k)) % 10,
        n > 0 ==> decimal(n)[0] as int != 48,
        pow(10, decimal(n).len()) > n,
    decreases n,
{
    decimal_is_not_empty(n);
    lemma_pow0(10);
    lemma_pow1(10);
    if n >= 10 {
        let rest = decimal(n / 10);
        decimal_is_not_empty(n / 10);
        assert(decimal(n) == rest.push(digit(n % 10)));
        decimal_digits_count_powers_of_ten(n / 10, 0);
        lemma_pow_adds(10, 1, rest.len());
        assert(decimal(n)[0] == rest[0]);
        if k > 0 {
            let j = (k - 1) as nat;
            decimal_digits_count_powers_of_ten(n / 10, j);
            lemma_pow_adds(10, 1, j);
            lemma_pow_positive(10, j);
            vstd::arithmetic::div_mod::lemma_div_denominator(n as int, 10, pow(10, j));
            assert(decimal(n)[decimal(n).len() - 1 - k] == rest[rest.len() - 1 - j]);
        }
    }
}

/// Numbers are written as decimals.
pub proof fn numbers_are_written_as_decimals(n: u64, text: String)
    requires
        call_ensures(decimal_text, (n,), text),
    ensures
        text@ == decimal(n as nat),
{
}

/// Two texts are the same exactly if they have the same length and the same character at each
/// place. A text starts with a character exactly if it is that character and what follows.
pub proof fn texts_are_compared_by_character(
    a: &str,
    b: &str,
    same: bool,
    first: char,
    rest: Seq<char>,
    starts: bool,
)
    requires
        call_ensures(same_text, (a, b), same),
        call_ensures(starts_with_char, (a, first), starts),
    ensures
        same <==> a@.len() == b@.len() && forall|i: int|
            0 <= i < a@.len() ==> #[trigger] a@[i] == b@[i],
        a@ == seq![first] + rest ==> starts,
        starts ==> a@ == seq![first] + a@.skip(1),
{
    if a@.len() == b@.len() && forall|i: int| 0 <= i < a@.len() ==> #[trigger] a@[i] == b@[i] {
        assert(a@ =~= b@);
    }
    if starts {
        assert(a@ =~= seq![first] + a@.skip(1));
    }
}

} // verus!
