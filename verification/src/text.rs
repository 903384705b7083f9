//! Character-level operations on text, each stated over the text's
//! sequence of characters.

use vstd::prelude::*;
use vstd::string::*;

verus! {

/// Whether two texts are the same, character for character.
pub fn same_text(a: &str, b: &str) -> (same: bool)
    ensures
        same == (a@ == b@),
{
    a.to_owned() == b.to_owned()
}

/// Whether `s` begins with `prefix`.
pub fn starts_with(s: &str, prefix: &str) -> (yes: bool)
    ensures
        yes == prefix@.is_prefix_of(s@),
{
    let n: usize = prefix.unicode_len();
    if s.unicode_len() < n {
        return false;
    }
    same_text(s.substring_char(0, n), prefix)
}

/// The text before and after the first occurrence of `c`, if there is one.
pub open spec fn halves(s: Seq<char>, c: char) -> Option<(Seq<char>, Seq<char>)> {
    match s.index_of_first(c) {
        Some(i) => Some((s.take(i), s.skip(i + 1))),
        None => None,
    }
}

/// Splits `s` at the first occurrence of `c`, which belongs to neither half.
pub fn split_once<'a>(s: &'a str, c: char) -> (parts: Option<(&'a str, &'a str)>)
    ensures
        match parts {
            Some((before, after)) => halves(s@, c) == Some((before@, after@)),
            None => halves(s@, c) is None,
        },
{
    let n: usize = s.unicode_len();
    let mut i: usize = 0;
    while i < n
        invariant
            i <= n,
            n == s@.len(),
            forall|k: int| 0 <= k < i ==> s@[k] != c,
        decreases n - i,
    {
        if s.get_char(i) == c {
            proof {
                s@.index_of_first_ensures(c);
                assert(s@.contains(s@[i as int]));
                assert(s@.index_of_first(c) == Some(i as int));
                assert(s@.subrange(0, i as int) =~= s@.take(i as int));
                assert(s@.subrange(i as int + 1, n as int) =~= s@.skip(i as int + 1));
            }
            return Some((s.substring_char(0, i), s.substring_char(i + 1, n)));
        }
        i = i + 1;
    }
    proof {
        s@.index_of_first_ensures(c);
        assert(!s@.contains(c));
    }
    None
}

/// The pieces of `s` between the occurrences of `c`: always one more piece
/// than there are occurrences.
pub open spec fn pieces(s: Seq<char>, c: char) -> Seq<Seq<char>>
    decreases s.len(),
{
    if s.len() == 0 {
        seq![s]
    } else if s.last() == c {
        pieces(s.drop_last(), c).push(Seq::empty())
    } else {
        let init = pieces(s.drop_last(), c);
        init.drop_last().push(init.last().push(s.last()))
    }
}

/// Every text has at least one piece.
pub(crate) proof fn lemma_pieces_nonempty(s: Seq<char>, c: char)
    ensures
        pieces(s, c).len() > 0,
    decreases s.len(),
{
    if s.len() > 0 {
        lemma_pieces_nonempty(s.drop_last(), c);
    }
}

/// The first piece is what stands before the first occurrence.
pub proof fn lemma_first_piece(s: Seq<char>, c: char)
    ensures
        pieces(s, c)[0] == match halves(s, c) {
            Some((before, _)) => before,
            None => s,
        },
    decreases s.len(),
{
    s.index_of_first_ensures(c);
    if s.len() > 0 {
        let init = s.drop_last();
        lemma_first_piece(init, c);
        lemma_pieces_nonempty(init, c);
        init.index_of_first_ensures(c);
        if init.contains(c) {
            let i = init.index_of_first(c).unwrap();
            assert(s[i] == c);
            assert(s.contains(c));
            let j = s.index_of_first(c).unwrap();
            assert(i == j) by {
                if j < i {
                    assert(init[j] == c);
                }
            }
            assert(init.take(i) =~= s.take(i));
            lemma_more_pieces(init, c);
        } else {
            assert(halves(init, c) is None);
            lemma_single_piece(init, c);
            if s.last() == c {
                assert(s[s.len() - 1] == c);
                assert(s.contains(c));
                let i = s.index_of_first(c).unwrap();
                assert(i == s.len() - 1) by {
                    if i < s.len() - 1 {
                        assert(init[i] == c);
                    }
                }
                assert(s.take(i) =~= init);
            } else {
                assert(!s.contains(c)) by {
                    if s.contains(c) {
                        let k = choose|k: int| 0 <= k < s.len() && s[k] == c;
                        assert(init[k] == c);
                    }
                }
                assert(init.push(s.last()) =~= s);
            }
        }
    }
}

/// A text with the separator has more than one piece.
proof fn lemma_more_pieces(s: Seq<char>, c: char)
    requires
        s.contains(c),
    ensures
        pieces(s, c).len() > 1,
    decreases s.len(),
{
    let init = s.drop_last();
    lemma_pieces_nonempty(init, c);
    if s.last() != c {
        let k = choose|k: int| 0 <= k < s.len() && s[k] == c;
        assert(init[k] == c);
        lemma_more_pieces(init, c);
    }
}

/// A text without the separator is its own only piece.
proof fn lemma_single_piece(s: Seq<char>, c: char)
    requires
        !s.contains(c),
    ensures
        pieces(s, c) == seq![s],
    decreases s.len(),
{
    if s.len() > 0 {
        let init = s.drop_last();
        assert(!init.contains(c)) by {
            if init.contains(c) {
                let k = choose|k: int| 0 <= k < init.len() && init[k] == c;
                assert(s[k] == c);
            }
        }
        lemma_single_piece(init, c);
        assert(s[s.len() - 1] != c);
        assert(init.push(s.last()) =~= s);
        assert(pieces(s, c) =~= seq![s]);
    }
}

/// The contents of a list of texts.
pub open spec fn texts(v: Seq<&str>) -> Seq<Seq<char>> {
    v.map_values(|t: &str| t@)
}

/// Splits `s` at every occurrence of `c`.
pub fn split<'a>(s: &'a str, c: char) -> (parts: Vec<&'a str>)
    ensures
        texts(parts@) == pieces(s@, c),
{
    let n: usize = s.unicode_len();
    let mut parts: Vec<&'a str> = Vec::new();
    let mut start: usize = 0;
    let mut i: usize = 0;
    proof {
        assert(s@.take(0) =~= Seq::empty());
        assert(texts(parts@).push(s@.subrange(0, 0)) =~= pieces(s@.take(0), c));
    }
    while i < n
        invariant
            start <= i <= n,
            n == s@.len(),
            texts(parts@).push(s@.subrange(start as int, i as int)) =~~= pieces(s@.take(i as int), c),
        decreases n - i,
    {
        proof {
            assert(s@.take(i as int + 1).drop_last() =~= s@.take(i as int));
            assert(s@.take(i as int + 1).last() == s@[i as int]);
        }
        if s.get_char(i) == c {
            let piece: &'a str = s.substring_char(start, i);
            let ghost before = parts@;
            parts.push(piece);
            start = i + 1;
            proof {
                assert(texts(parts@) =~= texts(before).push(piece@));
                assert(s@.subrange(start as int, i as int + 1) =~= Seq::empty());
            }
        } else {
            proof {
                assert(s@.subrange(start as int, i as int + 1) =~= s@.subrange(
                    start as int,
                    i as int,
                ).push(s@[i as int]));
                let t = texts(parts@);
                assert(t.push(s@.subrange(start as int, i as int)).drop_last() =~= t);
            }
        }
        i = i + 1;
    }
    let ghost before = parts@;
    let piece: &'a str = s.substring_char(start, n);
    parts.push(piece);
    proof {
        assert(texts(parts@) =~= texts(before).push(piece@));
        assert(s@.take(n as int) =~= s@);
    }
    parts
}

/// Whether `c` is one of `0` to `9`.
pub open spec fn is_digit(c: char) -> bool {
    '0' <= c <= '9'
}

/// Whether `s` is one digit or more and nothing else.
pub open spec fn is_number(s: Seq<char>) -> bool {
    s.len() > 0 && forall|i: int| 0 <= i < s.len() ==> is_digit(#[trigger] s[i])
}

/// The number that a run of digits writes in decimal.
pub open spec fn decimal_value(s: Seq<char>) -> nat
    decreases s.len(),
{
    if s.len() == 0 {
        0
    } else {
        decimal_value(s.drop_last()) * 10 + (s.last() as nat - '0' as nat) as nat
    }
}

/// Whether `s` is one digit or more and nothing else.
pub fn all_digits(s: &str) -> (yes: bool)
    ensures
        yes == is_number(s@),
{
    let n: usize = s.unicode_len();
    if n == 0 {
        return false;
    }
    let mut i: usize = 0;
    while i < n
        invariant
            i <= n,
            n == s@.len(),
            forall|k: int| 0 <= k < i ==> is_digit(#[trigger] s@[k]),
        decreases n - i,
    {
        let c: char = s.get_char(i);
        if c < '0' || c > '9' {
            assert(!is_digit(s@[i as int]));
            return false;
        }
        i = i + 1;
    }
    true
}

/// The decimal digits of `s` behind one leading `+`, where there is one.
pub open spec fn unsigned_digits(s: Seq<char>) -> Seq<char> {
    if s.len() > 0 && s[0] == '+' {
        s.skip(1)
    } else {
        s
    }
}

/// The unsigned 64-bit number that `s` writes: digits, at least one, with at
/// most one `+` before them, and a value that fits.
pub open spec fn u64_of(s: Seq<char>) -> Option<u64> {
    let digits = unsigned_digits(s);
    if is_number(digits) && decimal_value(digits) <= u64::MAX {
        Some(decimal_value(digits) as u64)
    } else {
        None
    }
}

proof fn lemma_decimal_value_grows(s: Seq<char>, i: int)
    requires
        0 <= i <= s.len(),
    ensures
        decimal_value(s.take(i)) <= decimal_value(s),
    decreases s.len(),
{
    if i == s.len() {
        assert(s.take(i) =~= s);
    } else {
        lemma_decimal_value_grows(s.drop_last(), i);
        assert(s.drop_last().take(i) =~= s.take(i));
    }
}

/// Reads an unsigned 64-bit number.
pub fn parse_u64(s: &str) -> (value: Option<u64>)
    ensures
        value == u64_of(s@),
{
    let n: usize = s.unicode_len();
    let start: usize = if n > 0 && s.get_char(0) == '+' { 1 } else { 0 };
    let digits: &str = s.substring_char(start, n);
    proof {
        assert(digits@ =~= unsigned_digits(s@));
    }
    if !all_digits(digits) {
        return None;
    }
    let m: usize = digits.unicode_len();
    let mut value: u64 = 0;
    let mut i: usize = 0;
    proof {
        assert(digits@.take(0) =~= Seq::empty());
    }
    while i < m
        invariant
            i <= m,
            m == digits@.len(),
            is_number(digits@),
            digits@ == unsigned_digits(s@),
            value == decimal_value(digits@.take(i as int)),
        decreases m - i,
    {
        let c: char = digits.get_char(i);
        assert(is_digit(digits@[i as int]));
        let d: u64 = (c as u64) - ('0' as u64);
        proof {
            assert(digits@.take(i as int + 1).drop_last() =~= digits@.take(i as int));
            assert(decimal_value(digits@.take(i as int + 1)) == value * 10 + d);
            lemma_decimal_value_grows(digits@, i as int + 1);
        }
        if value > 1844674407370955161 || (value == 1844674407370955161 && d > 5) {
            return None;
        }
        value = value * 10 + d;
        i = i + 1;
    }
    proof {
        assert(digits@.take(m as int) =~= digits@);
    }
    Some(value)
}

/// Whether `c` is white space.
pub open spec fn is_white_space(c: char) -> bool {
    ||| '\u{9}' <= c <= '\u{d}'
    ||| c == ' '
    ||| c == '\u{85}'
    ||| c == '\u{a0}'
    ||| c == '\u{1680}'
    ||| '\u{2000}' <= c <= '\u{200a}'
    ||| c == '\u{2028}'
    ||| c == '\u{2029}'
    ||| c == '\u{202f}'
    ||| c == '\u{205f}'
    ||| c == '\u{3000}'
}

fn white_space(c: char) -> (yes: bool)
    ensures
        yes == is_white_space(c),
{
    ('\u{9}' <= c && c <= '\u{d}') || c == ' ' || c == '\u{85}' || c == '\u{a0}' || c == '\u{1680}'
        || ('\u{2000}' <= c && c <= '\u{200a}') || c == '\u{2028}' || c == '\u{2029}' || c
        == '\u{202f}' || c == '\u{205f}' || c == '\u{3000}'
}

/// `s` without the white space at its beginning.
pub open spec fn trimmed_start(s: Seq<char>) -> Seq<char>
    decreases s.len(),
{
    if s.len() > 0 && is_white_space(s[0]) {
        trimmed_start(s.skip(1))
    } else {
        s
    }
}

/// `s` without the white space at its end.
pub open spec fn trimmed_end(s: Seq<char>) -> Seq<char>
    decreases s.len(),
{
    if s.len() > 0 && is_white_space(s.last()) {
        trimmed_end(s.drop_last())
    } else {
        s
    }
}

/// Removes the white space around a text.
pub fn trim<'a>(s: &'a str) -> (inner: &'a str)
    ensures
        inner@ == trimmed_end(trimmed_start(s@)),
{
    let n: usize = s.unicode_len();
    let mut from: usize = 0;
    proof {
        assert(s@.skip(0) =~= s@);
    }
    while from < n && white_space(s.get_char(from))
        invariant
            from <= n,
            n == s@.len(),
            trimmed_start(s@) == trimmed_start(s@.skip(from as int)),
        decreases n - from,
    {
        proof {
            assert(s@.skip(from as int).skip(1) =~= s@.skip(from as int + 1));
        }
        from = from + 1;
    }
    let mut to: usize = n;
    proof {
        assert(s@.subrange(from as int, n as int) =~= s@.skip(from as int));
        assert(trimmed_start(s@) == s@.skip(from as int));
    }
    while to > from && white_space(s.get_char(to - 1))
        invariant
            from <= to <= n,
            n == s@.len(),
            trimmed_end(trimmed_start(s@)) == trimmed_end(s@.subrange(from as int, to as int)),
        decreases to,
    {
        proof {
            assert(s@.subrange(from as int, to as int).drop_last() =~= s@.subrange(
                from as int,
                to as int - 1,
            ));
        }
        to = to - 1;
    }
    s.substring_char(from, to)
}

/// `s` without the occurrences of `c` at its end.
pub open spec fn without_trailing(s: Seq<char>, c: char) -> Seq<char>
    decreases s.len(),
{
    if s.len() > 0 && s.last() == c {
        without_trailing(s.drop_last(), c)
    } else {
        s
    }
}

/// Removes every occurrence of `c` at the end of a text.
pub fn trim_end_matches<'a>(s: &'a str, c: char) -> (rest: &'a str)
    ensures
        rest@ == without_trailing(s@, c),
{
    let mut to: usize = s.unicode_len();
    proof {
        assert(s@.take(to as int) =~= s@);
    }
    while to > 0 && s.get_char(to - 1) == c
        invariant
            to <= s@.len(),
            without_trailing(s@, c) == without_trailing(s@.take(to as int), c),
        decreases to,
    {
        proof {
            assert(s@.take(to as int).drop_last() =~= s@.take(to as int - 1));
        }
        to = to - 1;
    }
    proof {
        assert(s@.subrange(0, to as int) =~= s@.take(to as int));
    }
    s.substring_char(0, to)
}

/// `s` with `with` in the place of every occurrence of `c`.
pub open spec fn replaced(s: Seq<char>, c: char, with: Seq<char>) -> Seq<char>
    decreases s.len(),
{
    if s.len() == 0 {
        s
    } else if s.last() == c {
        replaced(s.drop_last(), c, with) + with
    } else {
        replaced(s.drop_last(), c, with).push(s.last())
    }
}

/// Replaces every occurrence of `c` by `with`.
pub fn replace(s: &str, c: char, with: &str) -> (result: String)
    ensures
        result@ == replaced(s@, c, with@),
{
    let n: usize = s.unicode_len();
    let mut result: String = String::new();
    let mut i: usize = 0;
    proof {
        assert(s@.take(0) =~= Seq::empty());
        assert(result@ =~= replaced(s@.take(0), c, with@));
    }
    while i < n
        invariant
            i <= n,
            n == s@.len(),
            result@ == replaced(s@.take(i as int), c, with@),
        decreases n - i,
    {
        proof {
            assert(s@.take(i as int + 1).drop_last() =~= s@.take(i as int));
        }
        if s.get_char(i) == c {
            result.append(with);
        } else {
            let ghost before = result@;
            result.append(s.substring_char(i, i + 1));
            proof {
                assert(result@ =~= before.push(s@[i as int]));
            }
        }
        i = i + 1;
    }
    proof {
        assert(s@.take(n as int) =~= s@);
    }
    result
}

/// The digit that writes a number below ten.
pub open spec fn digit_char(d: nat) -> char {
    ('0' as nat + d) as char
}

/// The decimal digits that write `n`, without leading zeros.
pub open spec fn decimal_digits(n: nat) -> Seq<char>
    decreases n,
{
    if n < 10 {
        seq![digit_char(n)]
    } else {
        decimal_digits(n / 10).push(digit_char(n % 10))
    }
}

fn digit_text(d: u64) -> (t: &'static str)
    requires
        d < 10,
    ensures
        t@ == seq![digit_char(d as nat)],
{
    proof {
        reveal_strlit("0");
        reveal_strlit("1");
        reveal_strlit("2");
        reveal_strlit("3");
        reveal_strlit("4");
        reveal_strlit("5");
        reveal_strlit("6");
        reveal_strlit("7");
        reveal_strlit("8");
        reveal_strlit("9");
    }
    match d {
        0 => "0",
        1 => "1",
        2 => "2",
        3 => "3",
        4 => "4",
        5 => "5",
        6 => "6",
        7 => "7",
        8 => "8",
        _ => "9",
    }
}

/// Writes a number in decimal.
pub fn decimal(n: u64) -> (t: String)
    ensures
        t@ == decimal_digits(n as nat),
    decreases n,
{
    if n < 10 {
        digit_text(n).to_owned()
    } else {
        let mut t: String = decimal(n / 10);
        t.append(digit_text(n % 10));
        proof {
            assert(t@ =~= decimal_digits(n as nat));
        }
        t
    }
}

/// Splitting once is putting together undone: a text splits into these halves
/// exactly if it is the one, the separator and the other, and the separator
/// does not occur in the first. A text without the separator does not split.
pub proof fn law_halves_make_the_text(s: Seq<char>, c: char, before: Seq<char>, after: Seq<char>)
    ensures
        halves(s, c) == Some((before, after)) <==> s == before + seq![c] + after
            && !before.contains(c),
        halves(s, c) is None <==> !s.contains(c),
{
    s.index_of_first_ensures(c);
    if let Some((a, b)) = halves(s, c) {
        let i = s.index_of_first(c).unwrap();
        assert(s =~= a + seq![c] + b);
        assert(!a.contains(c)) by {
            if a.contains(c) {
                let k = choose|k: int| 0 <= k < a.len() && a[k] == c;
                assert(s[k] == c);
            }
        }
    }
    if s == before + seq![c] + after && !before.contains(c) {
        let n = before.len() as int;
        assert(s[n] == c);
        assert(s.contains(c));
        let i = s.index_of_first(c).unwrap();
        assert(i == n) by {
            if i < n {
                assert(before[i] == c);
                assert(before.contains(c));
            }
        }
        assert(s.take(n) =~= before);
        assert(s.skip(n + 1) =~= after);
    }
}

/// Splitting everywhere is putting together undone: the pieces of two texts
/// with a separator between them are the pieces of the one and then those of
/// the other, and a text without the separator is its own only piece.
pub proof fn law_pieces_make_the_text(a: Seq<char>, b: Seq<char>, c: char)
    ensures
        pieces(a + seq![c] + b, c) == pieces(a, c) + pieces(b, c),
        !a.contains(c) ==> pieces(a, c) == seq![a],
    decreases b.len(),
{
    if !a.contains(c) {
        lemma_single_piece(a, c);
    }
    let s = a + seq![c] + b;
    lemma_pieces_nonempty(a, c);
    if b.len() == 0 {
        assert(s.drop_last() =~= a);
        assert(b =~= Seq::empty());
        assert(pieces(s, c) =~= pieces(a, c) + seq![b]);
    } else {
        let init = b.drop_last();
        assert(s.drop_last() =~= a + seq![c] + init);
        law_pieces_make_the_text(a, init, c);
        lemma_pieces_nonempty(init, c);
        let left = pieces(a, c);
        let right = pieces(init, c);
        if b.last() == c {
            assert(pieces(s, c) =~= left + pieces(b, c));
        } else {
            assert((left + right).drop_last() =~= left + right.drop_last());
            assert((left + right).last() == right.last());
            assert(pieces(s, c) =~= left + pieces(b, c));
        }
    }
}

/// A number is written with the digits `0` to `9`, the most significant first
/// and without leading zeros: a number below ten is one digit, and ten times
/// a number and a digit is the number's digits and that digit.
pub proof fn law_decimal_digits_are_positional(n: nat, d: nat)
    requires
        d < 10,
    ensures
        decimal_digits(d) == seq![('0' as nat + d) as char],
        n > 0 ==> decimal_digits(n * 10 + d) == decimal_digits(n).push(('0' as nat + d) as char),
{
    if n > 0 {
        assert((n * 10 + d) / 10 == n && (n * 10 + d) % 10 == d);
    }
}

pub(crate) proof fn lemma_digits_of_number(n: nat)
    ensures
        is_number(decimal_digits(n)),
        decimal_value(decimal_digits(n)) == n,
        decimal_digits(n).len() > 0,
        decimal_digits(n)[0] != '+',
    decreases n,
{
    if n < 10 {
        let s = decimal_digits(n);
        assert(s.drop_last() =~= Seq::empty());
        assert(decimal_value(s.drop_last()) == 0);
        assert(s.last() as nat == '0' as nat + n);
    } else {
        lemma_digits_of_number(n / 10);
        let s = decimal_digits(n);
        let init = decimal_digits(n / 10);
        assert(s.drop_last() =~= init);
        assert(s.last() as nat == '0' as nat + n % 10);
        assert forall|i: int| 0 <= i < s.len() implies is_digit(#[trigger] s[i]) by {
            if i < init.len() {
                assert(is_digit(init[i]));
            }
        }
    }
}

/// A number reads back as it was written, with a leading `+` too, if it fits
/// into 64 bits, and only then.
pub proof fn law_numbers_read_back(n: nat)
    ensures
        u64_of(decimal_digits(n)) == if n <= u64::MAX {
            Some(n as u64)
        } else {
            None::<u64>
        },
        u64_of(seq!['+'] + decimal_digits(n)) == u64_of(decimal_digits(n)),
{
    lemma_digits_of_number(n);
    assert((seq!['+'] + decimal_digits(n)).skip(1) =~= decimal_digits(n));
}

/// Nothing but digits, with at most one `+` before them, is a number: where
/// any other character stands, or no digit at all, nothing is read. Zeros in
/// front change nothing.
pub proof fn law_only_digits_are_numbers(s: Seq<char>, i: int)
    ensures
        0 <= i < s.len() && !('0' <= s[i] <= '9') && !(i == 0 && s[0] == '+') ==> u64_of(s) is None,
        s.len() == 0 ==> u64_of(s) is None,
        s.len() > 0 && '0' <= s[0] <= '9' ==> u64_of(seq!['0'] + s) == u64_of(s),
        is_number(s) <==> s.len() > 0 && forall|k: int|
            0 <= k < s.len() ==> '0' <= #[trigger] s[k] <= '9',
{
    let digits = unsigned_digits(s);
    if 0 <= i < s.len() && !('0' <= s[i] <= '9') && !(i == 0 && s[0] == '+') {
        if s[0] == '+' {
            assert(digits[i - 1] == s[i]);
            assert(!is_digit(digits[i - 1]));
        } else {
            assert(!is_digit(digits[i]));
        }
    }
    if s.len() > 0 && '0' <= s[0] <= '9' {
        let t = seq!['0'] + s;
        lemma_zero_in_front(s);
        if is_number(s) {
            assert forall|k: int| 0 <= k < t.len() implies is_digit(#[trigger] t[k]) by {
                if k > 0 {
                    assert(is_digit(s[k - 1]));
                }
            }
        }
        if is_number(t) {
            assert forall|k: int| 0 <= k < s.len() implies is_digit(#[trigger] s[k]) by {
                assert(is_digit(t[k + 1]));
            }
        }
    }
    if s.len() > 0 && forall|k: int| 0 <= k < s.len() ==> '0' <= #[trigger] s[k] <= '9' {
        assert(is_number(s));
    }
    if is_number(s) {
        assert forall|k: int| 0 <= k < s.len() implies '0' <= #[trigger] s[k] <= '9' by {
            assert(is_digit(s[k]));
        }
    }
}

proof fn lemma_zero_in_front(s: Seq<char>)
    ensures
        decimal_value(seq!['0'] + s) == decimal_value(s),
    decreases s.len(),
{
    let t = seq!['0'] + s;
    if s.len() == 0 {
        assert(t.drop_last() =~= Seq::empty());
        assert(decimal_value(t.drop_last()) == 0);
        assert(t.last() == '0');
    } else {
        lemma_zero_in_front(s.drop_last());
        assert(t.drop_last() =~= seq!['0'] + s.drop_last());
    }
}

/// Trimming takes away white space at both ends, all of it and nothing else:
/// a text with white space around it trims to what is inside, if that itself
/// neither begins nor ends with white space. Space, tabulator and line ends
/// are white space; no other printable character of ASCII is.
pub proof fn law_trimming_keeps_the_inside(
    front: Seq<char>,
    inside: Seq<char>,
    back: Seq<char>,
    c: char,
)
    requires
        forall|i: int| 0 <= i < front.len() ==> is_white_space(#[trigger] front[i]),
        forall|i: int| 0 <= i < back.len() ==> is_white_space(#[trigger] back[i]),
        inside.len() > 0 ==> !is_white_space(inside[0]) && !is_white_space(inside.last()),
    ensures
        trimmed_end(trimmed_start(front + inside + back)) == inside,
        is_white_space(' ') && is_white_space('\t') && is_white_space('\n') && is_white_space('\r'),
        '!' <= c <= '~' ==> !is_white_space(c),
{
    lemma_trimmed_start(front, inside + back);
    assert(front + inside + back =~= front + (inside + back));
    if inside.len() == 0 {
        assert(inside + back =~= back + Seq::empty());
        lemma_trimmed_start(back, Seq::empty());
        assert(inside =~= Seq::empty());
    } else {
        assert((inside + back)[0] == inside[0]);
        lemma_trimmed_end(inside, back);
    }
}

proof fn lemma_trimmed_start(front: Seq<char>, rest: Seq<char>)
    requires
        forall|i: int| 0 <= i < front.len() ==> is_white_space(#[trigger] front[i]),
    ensures
        trimmed_start(front + rest) == trimmed_start(rest),
    decreases front.len(),
{
    if front.len() == 0 {
        assert(front + rest =~= rest);
    } else {
        assert((front + rest)[0] == front[0]);
        assert((front + rest).skip(1) =~= front.skip(1) + rest);
        assert forall|i: int| 0 <= i < front.skip(1).len() implies is_white_space(
            #[trigger] front.skip(1)[i],
        ) by {
            assert(is_white_space(front[i + 1]));
        }
        lemma_trimmed_start(front.skip(1), rest);
    }
}

proof fn lemma_trimmed_end(rest: Seq<char>, back: Seq<char>)
    requires
        forall|i: int| 0 <= i < back.len() ==> is_white_space(#[trigger] back[i]),
        rest.len() > 0 && !is_white_space(rest.last()),
    ensures
        trimmed_end(rest + back) == rest,
    decreases back.len(),
{
    if back.len() == 0 {
        assert(rest + back =~= rest);
    } else {
        assert((rest + back).last() == back.last());
        assert(is_white_space(back[back.len() - 1]));
        assert((rest + back).drop_last() =~= rest + back.drop_last());
        assert forall|i: int| 0 <= i < back.drop_last().len() implies is_white_space(
            #[trigger] back.drop_last()[i],
        ) by {
            assert(is_white_space(back[i]));
        }
        lemma_trimmed_end(rest, back.drop_last());
    }
}

/// What is taken away at the end of a text are occurrences of one character,
/// all of them: any number of them behind a text that does not end with it.
pub proof fn law_trailing_characters_go(s: Seq<char>, c: char, n: nat)
    requires
        s.len() == 0 || s.last() != c,
    ensures
        without_trailing(s + Seq::new(n, |i: int| c), c) == s,
    decreases n,
{
    let t = s + Seq::new(n, |i: int| c);
    if n == 0 {
        assert(t =~= s);
    } else {
        law_trailing_characters_go(s, c, (n - 1) as nat);
        assert(t.last() == c);
        assert(t.drop_last() =~= s + Seq::new((n - 1) as nat, |i: int| c));
    }
}

/// Replacing goes character by character: what is replaced in two texts put
/// together is what is replaced in each, the character itself becomes the
/// replacement, and any other stays.
pub proof fn law_replacing_goes_by_character(
    a: Seq<char>,
    b: Seq<char>,
    c: char,
    d: char,
    with: Seq<char>,
)
    ensures
        replaced(a + b, c, with) == replaced(a, c, with) + replaced(b, c, with),
        replaced(seq![c], c, with) == with,
        d != c ==> replaced(seq![d], c, with) == seq![d],
        !a.contains(c) ==> replaced(a, c, with) == a,
    decreases a.len() + b.len(),
{
    lemma_one_replaced(c, c, with);
    lemma_one_replaced(d, c, with);
    if b.len() == 0 {
        assert(a + b =~= a);
        assert(replaced(a, c, with) + replaced(b, c, with) =~= replaced(a, c, with));
    } else {
        law_replacing_goes_by_character(a, b.drop_last(), c, d, with);
        assert((a + b).drop_last() =~= a + b.drop_last());
        assert(replaced(a + b, c, with) =~= replaced(a, c, with) + replaced(b, c, with));
    }
    if !a.contains(c) && a.len() > 0 {
        let init = a.drop_last();
        assert(!init.contains(c)) by {
            if init.contains(c) {
                let k = choose|k: int| 0 <= k < init.len() && init[k] == c;
                assert(a[k] == c);
            }
        }
        assert(a.last() != c) by {
            assert(a[a.len() - 1] == a.last());
        }
        lemma_nothing_replaced(a, c, with);
    }
}

proof fn lemma_one_replaced(d: char, c: char, with: Seq<char>)
    ensures
        replaced(seq![d], c, with) == if d == c {
            with
        } else {
            seq![d]
        },
{
    reveal_with_fuel(replaced, 2);
    let s = seq![d];
    assert(s.drop_last() =~= Seq::empty());
    assert(replaced(Seq::empty(), c, with) =~= Seq::empty());
    assert(s.last() == d);
    assert(Seq::<char>::empty() + with =~= with);
    assert(Seq::<char>::empty() + seq![d] =~= seq![d]);
    assert(Seq::<char>::empty().push(d) =~= seq![d]);
}

proof fn lemma_nothing_replaced(a: Seq<char>, c: char, with: Seq<char>)
    requires
        !a.contains(c),
    ensures
        replaced(a, c, with) == a,
    decreases a.len(),
{
    if a.len() > 0 {
        let init = a.drop_last();
        assert(!init.contains(c)) by {
            if init.contains(c) {
                let k = choose|k: int| 0 <= k < init.len() && init[k] == c;
                assert(a[k] == c);
            }
        }
        assert(a[a.len() - 1] == a.last());
        lemma_nothing_replaced(init, c, with);
        assert(init.push(a.last()) =~= a);
    }
}

pub(crate) proof fn lemma_number_has_no_dot(s: Seq<char>)
    requires
        is_number(s),
    ensures
        !s.contains('.'),
{
    if s.contains('.') {
        let k = choose|k: int| 0 <= k < s.len() && s[k] == '.';
        assert(is_digit(s[k]));
    }
}

/// A text of one character trims to nothing exactly if the character is white
/// space: the tabulator and the line ends from 9 to 13, the spaces 32 and
/// 160, and those beyond ASCII.
pub proof fn law_what_is_trimmed(c: char)
    ensures
        ({
            let n = c as nat;
            let blank = 9 <= n <= 13 || n == 32 || n == 133 || n == 160 || n == 5760 || 8192 <= n
                <= 8202 || n == 8232 || n == 8233 || n == 8239 || n == 8287 || n == 12288;
            &&& blank ==> trimmed_start(seq![c]).len() == 0 && trimmed_end(seq![c]).len() == 0
            &&& !blank ==> trimmed_start(seq![c]) == seq![c] && trimmed_end(seq![c]) == seq![c]
        }),
{
    reveal_with_fuel(trimmed_start, 2);
    reveal_with_fuel(trimmed_end, 2);
    assert(seq![c].skip(1) =~= Seq::empty());
    assert(seq![c].drop_last() =~= Seq::empty());
    assert(seq![c][0] == c && seq![c].last() == c);
}

} // verus!
