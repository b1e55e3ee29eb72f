//! Text helpers: prefixes, blank text, decimal numerals and joined lists.

use vstd::prelude::*;

verus! {

/// Whether `c` has the Unicode `White_Space` property.
pub open spec fn is_white(c: char) -> bool {
    let n = c as int;
    ||| 0x9 <= n <= 0xd
    ||| n == 0x20
    ||| n == 0x85
    ||| n == 0xa0
    ||| n == 0x1680
    ||| 0x2000 <= n <= 0x200a
    ||| n == 0x2028
    ||| n == 0x2029
    ||| n == 0x202f
    ||| n == 0x205f
    ||| n == 0x3000
}

/// Whether nothing is left of `s` once surrounding white space is trimmed.
pub open spec fn is_blank(s: Seq<char>) -> bool {
    forall|i: int| 0 <= i < s.len() ==> is_white(#[trigger] s[i])
}

/// Whether `s` begins with `prefix`.
pub open spec fn has_prefix(s: Seq<char>, prefix: Seq<char>) -> bool {
    &&& prefix.len() <= s.len()
    &&& s.take(prefix.len() as int) == prefix
}

/// The decimal digit for a number below ten.
pub open spec fn digit(n: nat) -> char {
    if n == 0 {
        '0'
    } else if n == 1 {
        '1'
    } else if n == 2 {
        '2'
    } else if n == 3 {
        '3'
    } else if n == 4 {
        '4'
    } else if n == 5 {
        '5'
    } else if n == 6 {
        '6'
    } else if n == 7 {
        '7'
    } else if n == 8 {
        '8'
    } else {
        '9'
    }
}

/// The decimal numeral of `n`, without leading zeros.
pub open spec fn numeral(n: nat) -> Seq<char>
    decreases n,
{
    if n < 10 {
        seq![digit(n)]
    } else {
        numeral(n / 10).push(digit(n % 10))
    }
}

/// `parts` one after the other, with `separator` between neighbours.
pub open spec fn joined(parts: Seq<Seq<char>>, separator: Seq<char>) -> Seq<char>
    decreases parts.len(),
{
    if parts.len() == 0 {
        Seq::empty()
    } else if parts.len() == 1 {
        parts[0]
    } else {
        joined(parts.drop_last(), separator) + separator + parts.last()
    }
}

/// The views of a list of strings.
pub open spec fn views(parts: Seq<String>) -> Seq<Seq<char>> {
    parts.map_values(|part: String| part@)
}

/// The characters of `s`.
pub fn chars_of(s: &str) -> (chars: Vec<char>)
    ensures
        chars@ == s@,
{
    let mut chars: Vec<char> = Vec::new();
    for c in it: s.chars()
        invariant
            it.seq() == s@,
            chars@ == s@.take(it.index() as int),
    {
        chars.push(c);
    }
    assert(s@.take(s@.len() as int) == s@);
    chars
}

/// Tells white space from every other character.
pub fn is_white_space(c: char) -> (white: bool)
    ensures
        white == is_white(c),
{
    let n: u32 = c as u32;
    (0x9 <= n && n <= 0xd) || n == 0x20 || n == 0x85 || n == 0xa0 || n == 0x1680 || (0x2000 <= n
        && n <= 0x200a) || n == 0x2028 || n == 0x2029 || n == 0x202f || n == 0x205f || n == 0x3000
}

/// Tells whether `s` is empty or white space only.
pub fn is_blank_text(s: &str) -> (blank: bool)
    ensures
        blank == is_blank(s@),
{
    let chars = chars_of(s);
    for i in 0..chars.len()
        invariant
            chars@ == s@,
            forall|j: int| 0 <= j < i ==> is_white(#[trigger] s@[j]),
    {
        if !is_white_space(chars[i]) {
            assert(!is_white(s@[i as int]));
            return false;
        }
    }
    true
}

/// Tells whether `s` begins with `prefix`.
pub fn begins_with(s: &str, prefix: &str) -> (begins: bool)
    ensures
        begins == has_prefix(s@, prefix@),
{
    let chars = chars_of(s);
    let wanted = chars_of(prefix);
    if wanted.len() > chars.len() {
        return false;
    }
    for i in 0..wanted.len()
        invariant
            chars@ == s@,
            wanted@ == prefix@,
            wanted.len() <= chars.len(),
            forall|j: int| 0 <= j < i ==> s@[j] == #[trigger] prefix@[j],
    {
        if chars[i] != wanted[i] {
            assert(s@.take(prefix@.len() as int)[i as int] != prefix@[i as int]);
            return false;
        }
    }
    assert(s@.take(prefix@.len() as int) =~= prefix@);
    true
}

/// Tells whether two texts are the same.
pub fn same_text(a: &str, b: &str) -> (same: bool)
    ensures
        same == (a@ == b@),
{
    let left = chars_of(a);
    let right = chars_of(b);
    if left.len() != right.len() {
        return false;
    }
    for i in 0..left.len()
        invariant
            left@ == a@,
            right@ == b@,
            left.len() == right.len(),
            forall|j: int| 0 <= j < i ==> a@[j] == #[trigger] b@[j],
    {
        if left[i] != right[i] {
            assert(a@[i as int] != b@[i as int]);
            return false;
        }
    }
    assert(a@ =~= b@);
    true
}

/// What follows `prefix` in `s`, where `s` begins with it.
pub fn after_prefix<'a>(s: &'a str, prefix: &str) -> (rest: Option<&'a str>)
    ensures
        rest is Some <==> has_prefix(s@, prefix@),
        rest matches Some(tail) ==> tail@ == s@.skip(prefix@.len() as int),
{
    if begins_with(s, prefix) {
        let from: usize = prefix.unicode_len();
        let to: usize = s.unicode_len();
        let tail = s.substring_char(from, to);
        assert(tail@ =~= s@.skip(prefix@.len() as int));
        Some(tail)
    } else {
        None
    }
}

/// `a` followed by `b`.
pub fn concat(a: &str, b: &str) -> (text: String)
    ensures
        text@ == a@ + b@,
{
    let mut text = a.to_string();
    text.append(b);
    text
}

fn digit_text(n: u64) -> (text: &'static str)
    requires
        n < 10,
    ensures
        text@ == seq![digit(n as nat)],
{
    proof {
        reveal_strlit("0");
        reveal_strlit("1");
        reveal_strlit("2");
        reveal_strlit("3");
        reveal_strlit("4");
        reveal_strlit("5");
        reveal_strlit("6");
        reveal_strlit("7");
        reveal_strlit("8");
        reveal_strlit("9");
    }
    let text = match n {
        0 => "0",
        1 => "1",
        2 => "2",
        3 => "3",
        4 => "4",
        5 => "5",
        6 => "6",
        7 => "7",
        8 => "8",
        _ => "9",
    };
    assert(text@ =~= seq![digit(n as nat)]);
    text
}

/// Writes `n` in decimal.
pub fn decimal(n: u64) -> (text: String)
    ensures
        text@ == numeral(n as nat),
    decreases n,
{
    if n < 10 {
        digit_text(n).to_string()
    } else {
        let mut text = decimal(n / 10);
        let last = digit_text(n % 10);
        text.append(last);
        assert(text@ =~= numeral((n / 10) as nat).push(digit((n % 10) as nat)));
        text
    }
}

/// Joins `parts` with `separator` between neighbours.
pub fn join(parts: &Vec<String>, separator: &str) -> (text: String)
    ensures
        text@ == joined(views(parts@), separator@),
{
    let mut text = String::new();
    for i in 0..parts.len()
        invariant
            text@ == joined(views(parts@).take(i as int), separator@),
    {
        proof {
            let upto = views(parts@).take(i + 1);
            assert(upto.drop_last() =~= views(parts@).take(i as int));
            assert(upto.last() == parts@[i as int]@);
        }
        if i > 0 {
            text.append(separator);
        }
        text.append(parts[i].as_str());
        assert(i == 0 ==> text@ =~= parts@[0]@);
    }
    assert(views(parts@).take(parts.len() as int) =~= views(parts@));
    text
}

/// Different numbers have different numerals.
pub proof fn numeral_is_injective(a: nat, b: nat)
    requires
        numeral(a) == numeral(b),
    ensures
        a == b,
    decreases a,
{
    let x = numeral(a);
    let y = numeral(b);
    numeral_is_nonempty(a / 10);
    numeral_is_nonempty(b / 10);
    assert(x.last() == digit(if a < 10 { a } else { a % 10 }));
    assert(y.last() == digit(if b < 10 { b } else { b % 10 }));
    if a >= 10 && b >= 10 {
        assert(x.drop_last() =~= numeral(a / 10));
        assert(y.drop_last() =~= numeral(b / 10));
        numeral_is_injective(a / 10, b / 10);
    }
}

proof fn numeral_is_nonempty(n: nat)
    ensures
        numeral(n).len() > 0,
{
}

/// White space is exactly what Unicode calls so: the tab and its four
/// neighbours, the space, the next-line and no-break controls, and the spaces
/// and separators beyond.
pub proof fn white_space_is_listed(c: char)
    ensures
        is_white(c) <==> {
            ||| c as int == 9 || c as int == 10 || c as int == 11 || c as int == 12 || c as int == 13
            ||| c as int == 32 || c as int == 133 || c as int == 160 || c as int == 5760
            ||| 8192 <= c as int <= 8202
            ||| c as int == 8232 || c as int == 8233 || c as int == 8239 || c as int == 8287
            ||| c as int == 12288
        },
{
}

/// A text is blank as long as white space is all that it is made of: the empty
/// text is blank, and two texts in a row are blank if both are.
pub proof fn blank_is_white_throughout(a: Seq<char>, b: Seq<char>, c: char)
    ensures
        is_blank(Seq::<char>::empty()),
        is_blank(seq![c]) <==> is_white(c),
        is_blank(a + b) <==> is_blank(a) && is_blank(b),
{
    let both = a + b;
    if is_blank(both) {
        assert forall|i: int| 0 <= i < a.len() implies is_white(#[trigger] a[i]) by {
            assert(both[i] == a[i]);
        }
        assert forall|i: int| 0 <= i < b.len() implies is_white(#[trigger] b[i]) by {
            assert(both[a.len() + i] == b[i]);
        }
    }
    if is_blank(seq![c]) {
        assert(is_white(seq![c][0]));
    }
}

/// A text begins with a prefix exactly when it is that prefix and what follows
/// it.
pub proof fn prefix_and_rest_make_the_text(s: Seq<char>, prefix: Seq<char>, rest: Seq<char>)
    ensures
        has_prefix(prefix + rest, prefix),
        has_prefix(s, prefix) ==> s == prefix + s.skip(prefix.len() as int),
        (prefix + rest).skip(prefix.len() as int) == rest,
{
    assert((prefix + rest).take(prefix.len() as int) =~= prefix);
    assert((prefix + rest).skip(prefix.len() as int) =~= rest);
    if has_prefix(s, prefix) {
        assert(s =~= s.take(prefix.len() as int) + s.skip(prefix.len() as int));
    }
}

/// The number that a row of decimal digits stands for.
pub open spec fn horner(digits: Seq<char>) -> int
    decreases digits.len(),
{
    if digits.len() == 0 {
        0
    } else {
        10 * horner(digits.drop_last()) + (digits.last() as int - 48)
    }
}

/// A numeral is made of the digits from 0 to 9, has no zero in front unless it
/// is the zero, and stands for its number.
pub proof fn numeral_stands_for_its_number(n: nat)
    ensures
        numeral(n).len() > 0,
        forall|i: int| 0 <= i < numeral(n).len() ==> 48 <= (#[trigger] numeral(n)[i]) as int <= 57,
        horner(numeral(n)) == n,
        numeral(n)[0] as int == 48 ==> n == 0,
    decreases n,
{
    if n >= 10 {
        let high = numeral(n / 10);
        numeral_stands_for_its_number(n / 10);
        assert(numeral(n).drop_last() =~= high);
        assert(numeral(n)[0] == high[0]);
        assert forall|i: int| 0 <= i < numeral(n).len() implies 48 <= (
        #[trigger] numeral(n)[i]) as int <= 57 by {
            if i < high.len() {
                assert(numeral(n)[i] == high[i]);
            }
        }
    } else {
        reveal_with_fuel(horner, 2);
        assert(seq![digit(n)].drop_last() =~= Seq::empty());
    }
}

/// Lists are joined piece by piece: what is joined of two lists that are not
/// empty is what is joined of the first, the separator, and what is joined of
/// the second; a single part stands by itself, and of no parts nothing is
/// joined.
pub proof fn joined_lists_join(
    first: Seq<Seq<char>>,
    second: Seq<Seq<char>>,
    part: Seq<char>,
    separator: Seq<char>,
)
    ensures
        joined(Seq::empty(), separator) == Seq::<char>::empty(),
        joined(seq![part], separator) == part,
        first.len() > 0 && second.len() > 0 ==> joined(first + second, separator) == joined(
            first,
            separator,
        ) + separator + joined(second, separator),
    decreases second.len(),
{
    if first.len() > 0 && second.len() > 0 {
        let all = first + second;
        assert(all.last() == second.last());
        assert(all.drop_last() =~= first + second.drop_last());
        if second.len() == 1 {
            assert(all.drop_last() =~= first);
            assert(second[0] == second.last());
        } else {
            joined_lists_join(first, second.drop_last(), part, separator);
            assert(joined(all, separator) =~= joined(first, separator) + separator + joined(
                second,
                separator,
            ));
        }
    }
}

/// The views of a list of texts are those of its texts, in their order.
pub proof fn views_keep_their_order(parts: Seq<String>, i: int)
    requires
        0 <= i < parts.len(),
    ensures
        views(parts).len() == parts.len(),
        views(parts)[i] == parts[i]@,
{
}

} // verus!
