//! Text as sequences of characters.

use vstd::prelude::*;

verus! {

/// `String::push` appends the character at the end of the string.
pub assume_specification[ String::push ](text: &mut String, ch: char)
    ensures
        final(text)@ == old(text)@.push(ch),
;

/// The characters of `text`.
pub fn chars_of(text: &str) -> (chars: Vec<char>)
    ensures
        chars@ == text@,
{
    let mut chars: Vec<char> = Vec::new();
    for c in it: text.chars()
        invariant
            it.seq() == text@,
            chars@ == text@.take(it.index()),
    {
        chars.push(c);
        assert(text@.take(it.index() + 1) =~= text@.take(it.index()).push(c));
    }
    assert(text@.take(text@.len() as int) =~= text@);
    chars
}

/// The text made of `chars`.
pub fn text_of(chars: &Vec<char>) -> (text: String)
    ensures
        text@ == chars@,
{
    let mut text: String = String::new();
    let mut i: usize = 0;
    while i < chars.len()
        invariant
            i <= chars.len(),
            text@ == chars@.take(i as int),
        decreases chars.len() - i,
    {
        text.push(chars[i]);
        assert(chars@.take(i + 1) =~= chars@.take(i as int).push(chars@[i as int]));
        i = i + 1;
    }
    assert(chars@.take(chars.len() as int) =~= chars@);
    text
}

/// Append `more` to `text`.
pub fn append(text: &mut String, more: &str)
    ensures
        final(text)@ == old(text)@ + more@,
{
    let chars = chars_of(more);
    let mut i: usize = 0;
    while i < chars.len()
        invariant
            i <= chars.len(),
            chars@ == more@,
            text@ == old(text)@ + more@.take(i as int),
        decreases chars.len() - i,
    {
        text.push(chars[i]);
        assert(more@.take(i + 1) =~= more@.take(i as int).push(chars@[i as int]));
        assert(text@ =~= old(text)@ + more@.take(i + 1));
        i = i + 1;
    }
    assert(more@.take(more@.len() as int) =~= more@);
}

/// The decimal digit of `d`.
pub open spec fn digit(d: int) -> char {
    if d == 0 {
        '0'
    } else if d == 1 {
        '1'
    } else if d == 2 {
        '2'
    } else if d == 3 {
        '3'
    } else if d == 4 {
        '4'
    } else if d == 5 {
        '5'
    } else if d == 6 {
        '6'
    } else if d == 7 {
        '7'
    } else if d == 8 {
        '8'
    } else {
        '9'
    }
}

/// `n` in decimal, without leading zeros.
pub open spec fn decimal(n: nat) -> Seq<char>
    decreases n,
{
    if n < 10 {
        seq![digit(n as int)]
    } else {
        decimal(n / 10).push(digit((n % 10) as int))
    }
}

fn digit_char(d: u64) -> (c: char)
    requires
        d < 10,
    ensures
        c == digit(d as int),
{
    if d == 0 {
        '0'
    } else if d == 1 {
        '1'
    } else if d == 2 {
        '2'
    } else if d == 3 {
        '3'
    } else if d == 4 {
        '4'
    } else if d == 5 {
        '5'
    } else if d == 6 {
        '6'
    } else if d == 7 {
        '7'
    } else if d == 8 {
        '8'
    } else {
        '9'
    }
}

/// Append `n` in decimal to `text`.
pub fn append_number(text: &mut String, n: u64)
    ensures
        final(text)@ == old(text)@ + decimal(n as nat),
    decreases n,
{
    if n < 10 {
        text.push(digit_char(n));
        assert(text@ =~= old(text)@ + decimal(n as nat));
    } else {
        append_number(text, n / 10);
        text.push(digit_char(n % 10));
        assert(text@ =~= old(text)@ + decimal(n as nat));
    }
}

/// `text` with every backslash replaced by a slash.
pub open spec fn with_slashes(text: Seq<char>) -> Seq<char> {
    text.map_values(
        |c: char|
            if c == '\\' {
                '/'
            } else {
                c
            },
    )
}

/// `text` with every backslash replaced by a slash.
pub fn slashed(text: &Vec<char>) -> (result: Vec<char>)
    ensures
        result@ == with_slashes(text@),
{
    let mut result: Vec<char> = Vec::new();
    let mut i: usize = 0;
    while i < text.len()
        invariant
            i <= text.len(),
            result@ == with_slashes(text@.take(i as int)),
        decreases text.len() - i,
    {
        let c: char = text[i];
        result.push(
            if c == '\\' {
                '/'
            } else {
                c
            },
        );
        assert(result@ =~= with_slashes(text@.take(i + 1)));
        i = i + 1;
    }
    assert(text@.take(text.len() as int) =~= text@);
    result
}

/// Whether `text` begins with `prefix`.
pub open spec fn starts_with(text: Seq<char>, prefix: Seq<char>) -> bool {
    prefix.len() <= text.len() && text.take(prefix.len() as int) == prefix
}

/// Whether `text` begins with `prefix`.
pub fn has_prefix(text: &Vec<char>, prefix: &Vec<char>) -> (result: bool)
    ensures
        result == starts_with(text@, prefix@),
{
    if prefix.len() > text.len() {
        return false;
    }
    let mut i: usize = 0;
    while i < prefix.len()
        invariant
            i <= prefix.len() <= text.len(),
            forall|j: int| 0 <= j < i ==> text[j] == prefix[j],
        decreases prefix.len() - i,
    {
        if text[i] != prefix[i] {
            assert(text@.take(prefix.len() as int)[i as int] != prefix@[i as int]);
            return false;
        }
        i = i + 1;
    }
    assert(text@.take(prefix.len() as int) =~= prefix@);
    true
}

/// Whether two texts are equal.
pub fn same_text(a: &Vec<char>, b: &Vec<char>) -> (same: bool)
    ensures
        same == (a@ == b@),
{
    if a.len() != b.len() {
        return false;
    }
    let mut i: usize = 0;
    while i < a.len()
        invariant
            i <= a.len(),
            a.len() == b.len(),
            forall|j: int| 0 <= j < i ==> a[j] == b[j],
        decreases a.len() - i,
    {
        if a[i] != b[i] {
            return false;
        }
        i = i + 1;
    }
    assert(a@ =~= b@);
    true
}

/// The number that a row of decimal digits stands for.
pub open spec fn value(digits: Seq<char>) -> nat
    decreases digits.len(),
{
    if digits.len() == 0 {
        0
    } else {
        value(digits.drop_last()) * 10 + (digits.last() as int - '0' as int) as nat
    }
}

/// A number is written in digits that stand for it, without a leading zero.
pub proof fn law_a_number_is_written_as_it_is(n: nat)
    ensures
        value(decimal(n)) == n,
        decimal(n).len() > 0,
        forall|i: int| 0 <= i < decimal(n).len() ==> '0' <= #[trigger] decimal(n)[i] <= '9',
        decimal(n).len() > 1 ==> decimal(n)[0] != '0',
    decreases n,
{
    if n < 10 {
        assert(decimal(n) =~= Seq::empty().push(digit(n as int)));
        assert(decimal(n).drop_last() =~= Seq::empty());
        assert(value(Seq::empty()) == 0);
    } else {
        let front = decimal(n / 10);
        law_a_number_is_written_as_it_is(n / 10);
        assert(decimal(n).drop_last() =~= front);
        assert(decimal(n).last() == digit((n % 10) as int));
        assert forall|i: int| 0 <= i < decimal(n).len() implies '0' <= #[trigger] decimal(n)[i]
            <= '9' by {
            if i < front.len() {
                assert(decimal(n)[i] == front[i]);
            }
        }
        if front.len() == 1 {
            assert(n / 10 > 0);
            lemma_nonzero_digit(n / 10);
        }
        assert(decimal(n)[0] == front[0]);
    }
}

proof fn lemma_nonzero_digit(n: nat)
    requires
        n > 0,
    ensures
        decimal(n)[0] != '0',
    decreases n,
{
    if n >= 10 {
        lemma_nonzero_digit(n / 10);
        assert(decimal(n / 10).len() > 0) by {
            reveal_with_fuel(decimal, 2);
        }
    }
}

/// Slashes take the place of backslashes, and every other character stays.
pub proof fn law_slashes_replace_backslashes(text: Seq<char>, at: int)
    requires
        0 <= at < text.len(),
    ensures
        with_slashes(text).len() == text.len(),
        text[at] == '\\' ==> with_slashes(text)[at] == '/',
        text[at] != '\\' ==> with_slashes(text)[at] == text[at],
{
}

/// A text begins with a prefix exactly where some rest follows it.
pub proof fn law_a_prefix_is_followed_by_the_rest(text: Seq<char>, prefix: Seq<char>)
    ensures
        starts_with(text, prefix) <==> exists|rest: Seq<char>| #[trigger] (prefix + rest) == text,
{
    if starts_with(text, prefix) {
        assert(prefix + text.skip(prefix.len() as int) =~= text);
    }
    if exists|rest: Seq<char>| #[trigger] (prefix + rest) == text {
        let rest = choose|rest: Seq<char>| #[trigger] (prefix + rest) == text;
        assert(text.take(prefix.len() as int) =~= prefix);
    }
}

} // verus!
