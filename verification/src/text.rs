//! Text, as sequences of characters.

use vstd::prelude::*;
use vstd::string::*;

verus! {

/// `c` with the letters A to Z made small.
pub open spec fn lower_char(c: char) -> char {
    if 'A' <= c && c <= 'Z' {
        ((c as u32 + 32) as u8) as char
    } else {
        c
    }
}

/// `text` with the letters A to Z made small.
pub open spec fn lower(text: Seq<char>) -> Seq<char> {
    text.map_values(|c: char| lower_char(c))
}

/// `str::to_ascii_lowercase`: a copy in which the ASCII letters A to Z are mapped to a to z and every
/// other character is unchanged.
pub assume_specification[ str::to_ascii_lowercase ](text: &str) -> (small: String)
    ensures
        small@ == lower(text@),
;

/// The decimal digit of a number below ten.
pub open spec fn digit(d: nat) -> char {
    ('0' as nat + d) as char
}

/// A number in decimal digits, without leading zeros.
pub open spec fn numeral(n: nat) -> Seq<char>
    decreases n,
{
    if n < 10 {
        seq![digit(n)]
    } else {
        numeral(n / 10).push(digit(n % 10))
    }
}

fn digit_text(d: usize) -> (text: &'static str)
    requires
        d < 10,
    ensures
        text@ == seq![digit(d as nat)],
{
    proof {
        reveal_strlit("0");
        reveal_strlit("1");
        reveal_strlit("2");
        reveal_strlit("3");
        reveal_strlit("4");
        reveal_strlit("5");
        reveal_strlit("6");
        reveal_strlit("7");
        reveal_strlit("8");
        reveal_strlit("9");
    }
    match d {
        0 => "0",
        1 => "1",
        2 => "2",
        3 => "3",
        4 => "4",
        5 => "5",
        6 => "6",
        7 => "7",
        8 => "8",
        _ => "9",
    }
}

/// Writes a number behind a text.
pub fn append_number(text: &mut String, n: usize)
    ensures
        final(text)@ == old(text)@ + numeral(n as nat),
    decreases n,
{
    if n >= 10 {
        append_number(text, n / 10);
    }
    text.append(digit_text(n % 10));
    assert(text@ =~= old(text)@ + numeral(n as nat));
}

/// The parts of a sequence between separators: one more than there are separators.
pub open spec fn pieces<T>(s: Seq<T>, separator: T) -> Seq<Seq<T>>
    decreases s.len(),
{
    if s.len() == 0 {
        seq![Seq::empty()]
    } else {
        let before = pieces(s.drop_last(), separator);
        if s.last() == separator {
            before.push(Seq::empty())
        } else {
            before.drop_last().push(before.last().push(s.last()))
        }
    }
}

/// There is always a piece.
pub proof fn there_is_a_piece<T>(s: Seq<T>, separator: T)
    ensures
        pieces(s, separator).len() >= 1,
    decreases s.len(),
{
    if s.len() > 0 {
        there_is_a_piece(s.drop_last(), separator);
    }
}

/// No piece holds the separator.
pub proof fn pieces_hold_no_separator<T>(s: Seq<T>, separator: T)
    ensures
        forall|k: int|
            0 <= k < pieces(s, separator).len() ==> !(#[trigger] pieces(s, separator)[k]).contains(separator),
    decreases s.len(),
{
    if s.len() > 0 {
        let before = pieces(s.drop_last(), separator);
        pieces_hold_no_separator(s.drop_last(), separator);
        there_is_a_piece(s.drop_last(), separator);
        assert(!before.last().contains(separator));
        if s.last() != separator {
            let grown = before.last().push(s.last());
            assert forall|i: int| 0 <= i < grown.len() implies grown[i] != separator by {
                if i < before.last().len() {
                    assert(before.last()[i] == grown[i]);
                }
            }
        }
    }
}

/// Whether a character has Unicode's property White_Space.
pub open spec fn is_white_space(c: char) -> bool {
    let n = c as u32;
    ||| 0x9 <= n <= 0xd
    ||| n == 0x20
    ||| n == 0x85
    ||| n == 0xa0
    ||| n == 0x1680
    ||| 0x2000 <= n <= 0x200a
    ||| n == 0x2028
    ||| n == 0x2029
    ||| n == 0x202f
    ||| n == 0x205f
    ||| n == 0x3000
}

/// Whether a character has Unicode's property White_Space.
pub fn white_space(c: char) -> (is: bool)
    ensures
        is == is_white_space(c),
{
    let n: u32 = c as u32;
    (0x9 <= n && n <= 0xd) || n == 0x20 || n == 0x85 || n == 0xa0 || n == 0x1680 || (0x2000 <= n && n <= 0x200a)
        || n == 0x2028 || n == 0x2029 || n == 0x202f || n == 0x205f || n == 0x3000
}

/// `inner` is `text` without the white space around it.
pub open spec fn is_trimmed(text: Seq<char>, inner: Seq<char>) -> bool {
    exists|from: int, to: int| #[trigger] is_trimmed_at(text, from, to) && inner == text.subrange(from, to)
}

/// Everything before `from` and from `to` on is white space, and nothing more can be left out.
pub open spec fn is_trimmed_at(text: Seq<char>, from: int, to: int) -> bool {
    &&& 0 <= from <= to <= text.len()
    &&& forall|i: int| 0 <= i < from ==> is_white_space(#[trigger] text[i])
    &&& forall|i: int| to <= i < text.len() ==> is_white_space(#[trigger] text[i])
    &&& from < to ==> !is_white_space(text[from]) && !is_white_space(text[to - 1])
}

/// `text` without the white space around it.
pub open spec fn trimmed(text: Seq<char>) -> Seq<char> {
    choose|inner: Seq<char>| is_trimmed(text, inner)
}

/// There is one way to leave out the white space around a text.
pub proof fn trimming_has_one_result(text: Seq<char>, from: int, to: int)
    requires
        is_trimmed_at(text, from, to),
    ensures
        trimmed(text) == text.subrange(from, to),
{
    assert(is_trimmed(text, text.subrange(from, to)));
    let inner = trimmed(text);
    let (f, t): (int, int) = choose|f: int, t: int|
        #[trigger] is_trimmed_at(text, f, t) && inner == text.subrange(f, t);
    if from < to {
        // The first and the last of what stays are no white space, so the other way leaves neither out.
        assert(!is_white_space(text[from]) && !is_white_space(text[to - 1]));
        assert(f <= from && to <= t);
        assert(f < t);
        assert(!is_white_space(text[f]) && !is_white_space(text[t - 1]));
    } else {
        if f < t {
            assert(!is_white_space(text[f]));
            assert(false);
        }
        assert(inner =~= text.subrange(from, to));
    }
}

/// `text` without the white space around it.
pub fn trim(text: &str) -> (inner: &str)
    ensures
        inner@ == trimmed(text@),
{
    let length: usize = text.unicode_len();
    let mut from: usize = 0;
    while from < length && white_space(text.get_char(from))
        invariant
            from <= length,
            length == text@.len(),
            forall|i: int| 0 <= i < from ==> is_white_space(#[trigger] text@[i]),
        decreases length - from,
    {
        from += 1;
    }
    let mut to: usize = length;
    while to > from && white_space(text.get_char(to - 1))
        invariant
            from <= to <= length,
            length == text@.len(),
            forall|i: int| to <= i < length ==> is_white_space(#[trigger] text@[i]),
        decreases to,
    {
        to -= 1;
    }
    proof {
        trimming_has_one_result(text@, from as int, to as int);
    }
    text.substring_char(from, to)
}

/// Whether two texts are equal.
pub fn same(a: &str, b: &str) -> (equal: bool)
    ensures
        equal == (a@ == b@),
{
    a.to_owned() == b.to_owned()
}

/// Whether `text` ends in `end`.
pub open spec fn ends_in(text: Seq<char>, end: Seq<char>) -> bool {
    text.len() >= end.len() && text.subrange(text.len() - end.len(), text.len() as int) == end
}

/// Whether `text` ends in `end`.
pub fn has_ending(text: &str, end: &str) -> (ends: bool)
    ensures
        ends == ends_in(text@, end@),
{
    let length: usize = text.unicode_len();
    let wanted: usize = end.unicode_len();
    length >= wanted && same(text.substring_char(length - wanted, length), end)
}

/// A text without the separator is its own one piece.
pub proof fn an_unparted_text_is_one_piece<T>(s: Seq<T>, separator: T)
    requires
        !s.contains(separator),
    ensures
        pieces(s, separator) == seq![s],
    decreases s.len(),
{
    if s.len() > 0 {
        let rest = s.drop_last();
        assert forall|i: int| 0 <= i < rest.len() implies rest[i] != separator by {
            assert(rest[i] == s[i]);
            assert(s.contains(s[i]));
        }
        assert(s.contains(s.last()));
        an_unparted_text_is_one_piece(rest, separator);
        assert(rest.push(s.last()) =~= s);
        assert(pieces(s, separator) =~= seq![s]);
    } else {
        assert(s =~= Seq::empty());
    }
}

/// The pieces of two texts with the separator between them are those of the one, and behind them those of
/// the other.
pub proof fn a_separator_parts_the_pieces<T>(a: Seq<T>, separator: T, b: Seq<T>)
    ensures
        pieces(a.push(separator) + b, separator) == pieces(a, separator) + pieces(b, separator),
    decreases b.len(),
{
    let s = a.push(separator) + b;
    if b.len() == 0 {
        assert(s =~= a.push(separator));
        assert(s.drop_last() =~= a);
        assert(pieces(s, separator) =~= pieces(a, separator) + pieces(b, separator));
    } else {
        let rest = b.drop_last();
        assert(s.drop_last() =~= a.push(separator) + rest);
        assert(s.last() == b.last());
        a_separator_parts_the_pieces(a, separator, rest);
        there_is_a_piece(rest, separator);
        let (x, y) = (pieces(a, separator), pieces(rest, separator));
        if b.last() == separator {
            assert((x + y).push(Seq::empty()) =~= x + y.push(Seq::empty()));
        } else {
            assert((x + y).last() == y.last());
            assert((x + y).drop_last() =~= x + y.drop_last());
            let grown = y.last().push(b.last());
            assert((x + y.drop_last()).push(grown) =~= x + y.drop_last().push(grown));
        }
    }
}

/// Whether `s` from `from` up to `to` stands between separators, or between one and an end, and holds none.
pub open spec fn stands_between<T>(s: Seq<T>, separator: T, from: int, to: int) -> bool {
    &&& 0 <= from <= to <= s.len()
    &&& from == 0 || s[from - 1] == separator
    &&& to == s.len() || s[to] == separator
    &&& forall|i: int| from <= i < to ==> #[trigger] s[i] != separator
}

/// What stands between separators is a piece.
pub proof fn what_stands_between_is_a_piece<T>(s: Seq<T>, separator: T, from: int, to: int)
    requires
        stands_between(s, separator, from, to),
    ensures
        pieces(s, separator).contains(s.subrange(from, to)),
{
    let inner = s.subrange(from, to);
    assert forall|i: int| 0 <= i < inner.len() implies inner[i] != separator by {
        assert(inner[i] == s[from + i]);
    }
    an_unparted_text_is_one_piece(inner, separator);
    let tail = s.skip(from);
    if to < s.len() {
        let after = s.skip(to + 1);
        assert(tail =~= inner.push(separator) + after);
        a_separator_parts_the_pieces(inner, separator, after);
    } else {
        assert(tail =~= inner);
    }
    assert(pieces(tail, separator)[0] == inner);
    if from > 0 {
        let before = s.take(from - 1);
        assert(s =~= before.push(separator) + tail);
        a_separator_parts_the_pieces(before, separator, tail);
        assert(pieces(s, separator)[pieces(before, separator).len() as int] == inner);
    } else {
        assert(tail =~= s);
    }
}

/// A piece is what stands between separators somewhere: the last ends with the text, and any other at a
/// separator.
pub proof fn a_piece_stands_between<T>(s: Seq<T>, separator: T, k: int)
    requires
        0 <= k < pieces(s, separator).len(),
    ensures
        exists|from: int, to: int|
            {
                &&& #[trigger] stands_between(s, separator, from, to)
                &&& pieces(s, separator)[k] == s.subrange(from, to)
                &&& to == s.len() <==> k == pieces(s, separator).len() - 1
            },
    decreases s.len(),
{
    let n = s.len() as int;
    if n == 0 {
        assert(stands_between(s, separator, 0, 0));
        assert(s.subrange(0, 0) =~= Seq::<T>::empty());
    } else {
        let rest = s.drop_last();
        let before = pieces(rest, separator);
        there_is_a_piece(rest, separator);
        if s.last() == separator && k == before.len() {
            assert(stands_between(s, separator, n, n));
            assert(s.subrange(n, n) =~= Seq::<T>::empty());
        } else {
            a_piece_stands_between(rest, separator, k);
            let (from, to): (int, int) = choose|from: int, to: int|
                {
                    &&& #[trigger] stands_between(rest, separator, from, to)
                    &&& before[k] == rest.subrange(from, to)
                    &&& to == rest.len() <==> k == before.len() - 1
                };
            assert(from > 0 ==> rest[from - 1] == s[from - 1]);
            assert(to < n - 1 ==> rest[to] == s[to]);
            assert forall|i: int| from <= i < to implies #[trigger] s[i] != separator by {
                assert(rest[i] == s[i]);
            }
            if s.last() == separator || k < before.len() - 1 {
                assert(stands_between(s, separator, from, to));
                assert(s.subrange(from, to) =~= rest.subrange(from, to));
            } else {
                assert(stands_between(s, separator, from, n));
                assert(s.subrange(from, n) =~= rest.subrange(from, to).push(s.last()));
            }
        }
    }
}

/// White space is the tab, the line breaks, the space, and the spaces of Unicode.
pub proof fn white_space_is_unicodes(c: char)
    ensures
        is_white_space(c) <==> seq![
            0x9u32,
            0xa,
            0xb,
            0xc,
            0xd,
            0x20,
            0x85,
            0xa0,
            0x1680,
            0x2000,
            0x2001,
            0x2002,
            0x2003,
            0x2004,
            0x2005,
            0x2006,
            0x2007,
            0x2008,
            0x2009,
            0x200a,
            0x2028,
            0x2029,
            0x202f,
            0x205f,
            0x3000,
        ].contains(c as u32),
{
    let all = seq![
        0x9u32,
        0xa,
        0xb,
        0xc,
        0xd,
        0x20,
        0x85,
        0xa0,
        0x1680,
        0x2000,
        0x2001,
        0x2002,
        0x2003,
        0x2004,
        0x2005,
        0x2006,
        0x2007,
        0x2008,
        0x2009,
        0x200a,
        0x2028,
        0x2029,
        0x202f,
        0x205f,
        0x3000,
    ];
    let n = c as u32;
    assert(all.len() == 25);
    if is_white_space(c) {
        assert(exists|i: int| 0 <= i < 25 && all[i] == n) by {
            assert(all[0] == 0x9 && all[1] == 0xa && all[2] == 0xb && all[3] == 0xc && all[4] == 0xd && all[5] == 0x20);
            assert(all[6] == 0x85 && all[7] == 0xa0 && all[8] == 0x1680 && all[9] == 0x2000 && all[10] == 0x2001);
            assert(all[11] == 0x2002 && all[12] == 0x2003 && all[13] == 0x2004 && all[14] == 0x2005 && all[15] == 0x2006);
            assert(all[16] == 0x2007 && all[17] == 0x2008 && all[18] == 0x2009 && all[19] == 0x200a && all[20] == 0x2028);
            assert(all[21] == 0x2029 && all[22] == 0x202f && all[23] == 0x205f && all[24] == 0x3000);
        }
    }
}

/// A number is what its numeral says, in digits from 0 to 9, and no numeral of more than one digit begins
/// with a 0.
pub proof fn a_numeral_says_its_number(n: nat)
    ensures
        numeral(n).fold_left(0int, |sum: int, c: char| 10 * sum + (c as int - 48)) == n,
        forall|i: int| 0 <= i < numeral(n).len() ==> 48 <= (#[trigger] numeral(n)[i]) as int <= 57,
        numeral(n).len() > 0,
        n > 0 ==> numeral(n)[0] as int != 48,
    decreases n,
{
    let f = |sum: int, c: char| 10 * sum + (c as int - 48);
    if n >= 10 {
        a_numeral_says_its_number(n / 10);
        let shorter = numeral(n / 10);
        assert(numeral(n).drop_last() =~= shorter);
        assert(numeral(n).last() as int == 48 + n % 10);
        assert(numeral(n).fold_left(0int, f) == f(shorter.fold_left(0int, f), numeral(n).last()));
        assert(numeral(n)[0] == shorter[0]);
    } else {
        assert(numeral(n).last() as int == 48 + n);
        assert(numeral(n).drop_last() =~= Seq::<char>::empty());
        assert(numeral(n).fold_left(0int, f) == f(Seq::<char>::empty().fold_left(0int, f), numeral(n).last()));
    }
}

/// The white space around a text is left out, all of it and nothing else.
pub proof fn only_white_space_is_left_out(before: Seq<char>, inner: Seq<char>, after: Seq<char>)
    requires
        forall|i: int| 0 <= i < before.len() ==> is_white_space(#[trigger] before[i]),
        forall|i: int| 0 <= i < after.len() ==> is_white_space(#[trigger] after[i]),
        inner.len() > 0 ==> !is_white_space(inner[0]) && !is_white_space(inner.last()),
    ensures
        trimmed(before + inner + after) == inner,
{
    let text = before + inner + after;
    let (from, to) = (before.len() as int, (before.len() + inner.len()) as int);
    assert forall|i: int| 0 <= i < from implies is_white_space(#[trigger] text[i]) by {
        assert(text[i] == before[i]);
    }
    assert forall|i: int| to <= i < text.len() implies is_white_space(#[trigger] text[i]) by {
        assert(text[i] == after[i - to]);
    }
    if inner.len() > 0 {
        assert(text[from] == inner[0] && text[to - 1] == inner.last());
    }
    trimming_has_one_result(text, from, to);
    assert(text.subrange(from, to) =~= inner);
}

/// A text ends in what stands at its end, and in nothing else.
pub proof fn a_text_ends_in_its_end(start: Seq<char>, end: Seq<char>, other: Seq<char>)
    ensures
        ends_in(start + end, end),
        other.len() == end.len() && ends_in(start + end, other) ==> other == end,
        other.len() > start.len() + end.len() ==> !ends_in(start + end, other),
{
    let text = start + end;
    assert(text.subrange(text.len() - end.len(), text.len() as int) =~= end);
}

/// Small letters: A to Z become the letters that stand 32 places further on, and every other character
/// stays, in its place.
pub proof fn only_large_letters_change(text: Seq<char>, i: int)
    requires
        0 <= i < text.len(),
    ensures
        lower(text).len() == text.len(),
        65 <= text[i] as int <= 90 ==> lower(text)[i] as int == text[i] as int + 32,
        !(65 <= text[i] as int <= 90) ==> lower(text)[i] == text[i],
{
}

} // verus!
