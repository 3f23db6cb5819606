//! Text handling for configuration values: trimming, splitting on a
//! separator, and decimal numbers. Every function is stated over the
//! sequence of characters that a string holds.

use vstd::prelude::*;

verus! {

/// The characters with the Unicode property `White_Space`, which are the ones
/// that trimming removes.
pub open spec fn is_whitespace(c: char) -> bool {
    let n = c as u32;
    ||| 0x09 <= n <= 0x0D
    ||| n == 0x20
    ||| n == 0x85
    ||| n == 0xA0
    ||| n == 0x1680
    ||| 0x2000 <= n <= 0x200A
    ||| n == 0x2028
    ||| n == 0x2029
    ||| n == 0x202F
    ||| n == 0x205F
    ||| n == 0x3000
}

/// `s` without its leading whitespace.
pub open spec fn trim_start(s: Seq<char>) -> Seq<char>
    decreases s.len(),
{
    if s.len() > 0 && is_whitespace(s.first()) {
        trim_start(s.drop_first())
    } else {
        s
    }
}

/// `s` without its trailing whitespace.
pub open spec fn trim_end(s: Seq<char>) -> Seq<char>
    decreases s.len(),
{
    if s.len() > 0 && is_whitespace(s.last()) {
        trim_end(s.drop_last())
    } else {
        s
    }
}

/// `s` without leading and trailing whitespace.
pub open spec fn trim(s: Seq<char>) -> Seq<char> {
    trim_end(trim_start(s))
}

/// The pieces of `s` between occurrences of `sep`, from left to right.
/// There is always at least one piece: a string without `sep` is its own
/// single piece, and two separators in a row enclose an empty piece.
pub open spec fn split(s: Seq<char>, sep: char) -> Seq<Seq<char>>
    decreases s.len(),
{
    if s.len() == 0 {
        seq![Seq::empty()]
    } else {
        let before = split(s.drop_last(), sep);
        if s.last() == sep {
            before.push(Seq::empty())
        } else {
            before.drop_last().push(before.last().push(s.last()))
        }
    }
}

/// The longest suffix of `s` that holds no `sep`.
pub open spec fn last_segment(s: Seq<char>, sep: char) -> Seq<char>
    decreases s.len(),
{
    if s.len() == 0 || s.last() == sep {
        Seq::empty()
    } else {
        last_segment(s.drop_last(), sep).push(s.last())
    }
}

/// Every piece of `pieces`, trimmed.
pub open spec fn trim_all(pieces: Seq<Seq<char>>) -> Seq<Seq<char>> {
    pieces.map_values(|piece: Seq<char>| trim(piece))
}

/// Whether `c` is whitespace.
pub fn char_is_whitespace(c: char) -> (r: bool)
    ensures
        r == is_whitespace(c),
{
    let n: u32 = c as u32;
    (0x09 <= n && n <= 0x0D) || n == 0x20 || n == 0x85 || n == 0xA0 || n == 0x1680 || (0x2000 <= n
        && n <= 0x200A) || n == 0x2028 || n == 0x2029 || n == 0x202F || n == 0x205F || n == 0x3000
}

/// The characters of `s`, one by one.
pub fn characters(s: &str) -> (chars: Vec<char>)
    ensures
        chars@ == s@,
{
    let mut chars: Vec<char> = Vec::new();
    for c in it: s.chars()
        invariant
            it.seq() == s@,
            chars@ == s@.take(it.index() as int),
    {
        chars.push(c);
        assert(chars@ == s@.take(it.index() + 1));
    }
    assert(s@.take(s@.len() as int) == s@);
    chars
}

/// The bounds of what trimming leaves of `chars[start..end]`.
pub fn trimmed_bounds(chars: &Vec<char>, start: usize, end: usize) -> (r: (usize, usize))
    requires
        start <= end <= chars.len(),
    ensures
        start <= r.0 <= r.1 <= end,
        chars@.subrange(r.0 as int, r.1 as int) == trim(chars@.subrange(start as int, end as int)),
{
    let ghost whole = chars@.subrange(start as int, end as int);
    let mut a: usize = start;
    while a < end && char_is_whitespace(chars[a])
        invariant
            start <= a <= end <= chars.len(),
            trim_start(whole) == trim_start(chars@.subrange(a as int, end as int)),
        decreases end - a,
    {
        assert(chars@.subrange(a as int, end as int).drop_first() == chars@.subrange(
            a + 1,
            end as int,
        ));
        a = a + 1;
    }
    let ghost front = chars@.subrange(a as int, end as int);
    assert(trim_start(whole) == front);
    let mut b: usize = end;
    while b > a && char_is_whitespace(chars[b - 1])
        invariant
            a <= b <= end <= chars.len(),
            trim_end(front) == trim_end(chars@.subrange(a as int, b as int)),
        decreases b - a,
    {
        assert(chars@.subrange(a as int, b as int).drop_last() == chars@.subrange(
            a as int,
            b - 1,
        ));
        b = b - 1;
    }
    (a, b)
}

/// What each string of `v` holds.
pub open spec fn texts(v: Seq<String>) -> Seq<Seq<char>> {
    v.map_values(|s: String| s@)
}

/// The pieces of `s` between occurrences of `sep`, each trimmed.
pub fn split_and_trim(s: &str, sep: char) -> (pieces: Vec<String>)
    ensures
        texts(pieces@) == trim_all(split(s@, sep)),
{
    let chars = characters(s);
    let n = chars.len();
    let mut pieces: Vec<String> = Vec::new();
    let mut start: usize = 0;
    let mut i: usize = 0;
    assert(s@.take(0) == Seq::<char>::empty());
    while i < n
        invariant
            chars@ == s@,
            n == chars.len(),
            start <= i <= n,
            split(s@.take(i as int), sep).len() == pieces.len() + 1,
            split(s@.take(i as int), sep).last() == s@.subrange(start as int, i as int),
            texts(pieces@) == trim_all(split(s@.take(i as int), sep).drop_last()),
        decreases n - i,
    {
        let ghost before = split(s@.take(i as int), sep);
        assert(s@.take(i + 1).drop_last() == s@.take(i as int));
        if chars[i] == sep {
            let (a, b) = trimmed_bounds(&chars, start, i);
            let piece = s.substring_char(a, b);
            pieces.push(String::from_str(piece));
            start = i + 1;
            proof {
                let after = split(s@.take(i + 1), sep);
                assert(after == before.push(Seq::empty()));
                assert(after.drop_last() == before);
                assert(before == before.drop_last().push(before.last()));
                assert(trim_all(before) == trim_all(before.drop_last()).push(trim(before.last())));
                assert(s@.subrange(start as int, i + 1) == Seq::<char>::empty());
            }
        } else {
            proof {
                let after = split(s@.take(i + 1), sep);
                assert(after == before.drop_last().push(before.last().push(s@[i as int])));
                assert(after.drop_last() == before.drop_last());
                assert(s@.subrange(start as int, i + 1) == s@.subrange(
                    start as int,
                    i as int,
                ).push(s@[i as int]));
            }
        }
        i = i + 1;
    }
    let (a, b) = trimmed_bounds(&chars, start, n);
    let piece = s.substring_char(a, b);
    pieces.push(String::from_str(piece));
    proof {
        let all = split(s@, sep);
        assert(s@.take(n as int) == s@);
        assert(all == all.drop_last().push(all.last()));
        assert(trim_all(all) == trim_all(all.drop_last()).push(trim(all.last())));
    }
    pieces
}

/// The last piece of a split is the longest suffix without the separator.
pub proof fn lemma_last_segment_is_last_piece(s: Seq<char>, sep: char)
    ensures
        split(s, sep).len() >= 1,
        split(s, sep).last() == last_segment(s, sep),
    decreases s.len(),
{
    if s.len() > 0 {
        lemma_last_segment_is_last_piece(s.drop_last(), sep);
    }
}

/// `last_segment` by position: it starts right after the last separator.
pub proof fn lemma_last_segment_from(s: Seq<char>, sep: char, start: int)
    requires
        0 <= start <= s.len(),
        start == 0 || s[start - 1] == sep,
        forall|k: int| start <= k < s.len() ==> s[k] != sep,
    ensures
        last_segment(s, sep) == s.skip(start),
    decreases s.len(),
{
    if s.len() == 0 || start == s.len() {
        assert(s.skip(start) == Seq::<char>::empty());
    } else {
        lemma_last_segment_from(s.drop_last(), sep, start);
        assert(s.drop_last().skip(start).push(s.last()) == s.skip(start));
    }
}

/// What follows the last `sep` in `s`; all of `s` when it holds no `sep`.
pub fn after_last<'a>(s: &'a str, sep: char) -> (r: &'a str)
    ensures
        r@ == last_segment(s@, sep),
{
    let chars = characters(s);
    let n = chars.len();
    let mut start: usize = n;
    while start > 0 && chars[start - 1] != sep
        invariant
            chars@ == s@,
            n == chars.len(),
            start <= n,
            forall|k: int| start <= k < n ==> s@[k] != sep,
        decreases start,
    {
        start = start - 1;
    }
    proof {
        lemma_last_segment_from(s@, sep, start as int);
        assert(s@.skip(start as int) == s@.subrange(start as int, n as int));
    }
    s.substring_char(start, n)
}

/// Whether `c` is one of the ten decimal digits.
pub open spec fn is_digit(c: char) -> bool {
    '0' <= c <= '9'
}

/// The number that the digit `c` stands for.
pub open spec fn digit_value(c: char) -> nat {
    (c as u32 - '0' as u32) as nat
}

/// The digit that stands for `d`, for `d` below ten.
pub open spec fn digit_char(d: nat) -> char {
    ('0' as u32 + d) as char
}

/// Whether `s` is made of decimal digits only.
pub open spec fn all_digits(s: Seq<char>) -> bool {
    forall|i: int| 0 <= i < s.len() ==> is_digit(#[trigger] s[i])
}

/// The number that the digits `s` write in base ten.
pub open spec fn digits_value(s: Seq<char>) -> nat
    decreases s.len(),
{
    if s.len() == 0 {
        0
    } else {
        digits_value(s.drop_last()) * 10 + digit_value(s.last())
    }
}

/// The 16-bit number that `s` writes: an optional `+`, then one or more
/// decimal digits and nothing else, of a value up to 65535. Leading zeros
/// are allowed.
pub open spec fn u16_of(s: Seq<char>) -> Option<u16> {
    let digits = if s.len() > 0 && s.first() == '+' {
        s.drop_first()
    } else {
        s
    };
    if digits.len() > 0 && all_digits(digits) && digits_value(digits) <= u16::MAX {
        Some(digits_value(digits) as u16)
    } else {
        None
    }
}

/// `n` in base ten, without leading zeros.
pub open spec fn decimal(n: nat) -> Seq<char>
    decreases n,
{
    if n < 10 {
        seq![digit_char(n)]
    } else {
        decimal(n / 10).push(digit_char(n % 10))
    }
}

/// The value of a prefix is not above the value of the whole.
pub proof fn lemma_digits_value_grows(s: Seq<char>, k: int)
    requires
        0 <= k <= s.len(),
    ensures
        digits_value(s.take(k)) <= digits_value(s),
    decreases s.len() - k,
{
    if k == s.len() {
        assert(s.take(k) == s);
    } else {
        lemma_digits_value_grows(s, k + 1);
        assert(s.take(k + 1).drop_last() == s.take(k));
    }
}

/// Reads `s` as a 16-bit decimal number.
pub fn parse_u16(s: &str) -> (r: Option<u16>)
    ensures
        r == u16_of(s@),
{
    let chars = characters(s);
    let n = chars.len();
    let first: usize = if n > 0 && chars[0] == '+' {
        1
    } else {
        0
    };
    let ghost digits = s@.skip(first as int);
    assert(first == 1 ==> digits == s@.drop_first());
    assert(first == 0 ==> digits == s@);
    if first == n {
        return None;
    }
    let ghost meaning = if all_digits(digits) && digits_value(digits) <= u16::MAX {
        Some(digits_value(digits) as u16)
    } else {
        None
    };
    assert(u16_of(s@) == meaning);
    let mut value: u32 = 0;
    let mut i: usize = first;
    assert(digits.take(0) == Seq::<char>::empty());
    while i < n
        invariant
            chars@ == s@,
            n == chars.len(),
            first <= i <= n,
            digits == s@.skip(first as int),
            meaning == if all_digits(digits) && digits_value(digits) <= u16::MAX {
                Some(digits_value(digits) as u16)
            } else {
                None
            },
            u16_of(s@) == meaning,
            all_digits(digits.take(i - first)),
            value == digits_value(digits.take(i - first)),
            value <= u16::MAX,
        decreases n - i,
    {
        let c = chars[i];
        assert(digits[i - first] == c);
        assert(digits.take(i - first + 1).drop_last() == digits.take(i - first));
        if !('0' <= c && c <= '9') {
            assert(!is_digit(digits[i - first]));
            return None;
        }
        value = value * 10 + (c as u32 - '0' as u32);
        if value > 65535 {
            proof {
                lemma_digits_value_grows(digits, i - first + 1);
            }
            return None;
        }
        i = i + 1;
    }
    assert(digits.take(n - first) == digits);
    Some(value as u16)
}

/// The one-character text of the digit `d`.
fn digit_text(d: u16) -> (r: &'static str)
    requires
        d < 10,
    ensures
        r@ == seq![digit_char(d as nat)],
{
    let digits = "0123456789";
    proof {
        reveal_strlit("0123456789");
    }
    let one = digits.substring_ascii(d as usize, d as usize + 1);
    assert(one@ == seq![digit_char(d as nat)]);
    one
}

/// `n` written in base ten.
pub fn u16_to_decimal(n: u16) -> (r: String)
    ensures
        r@ == decimal(n as nat),
    decreases n,
{
    if n < 10 {
        String::from_str(digit_text(n))
    } else {
        let mut text = u16_to_decimal(n / 10);
        text.append(digit_text(n % 10));
        text
    }
}

/// The pieces `pieces` put together again with `sep` between them.
pub open spec fn join(pieces: Seq<Seq<char>>, sep: char) -> Seq<char>
    decreases pieces.len(),
{
    if pieces.len() == 0 {
        Seq::empty()
    } else if pieces.len() == 1 {
        pieces.last()
    } else {
        join(pieces.drop_last(), sep).push(sep) + pieces.last()
    }
}

/// Splitting loses nothing and cuts at every separator: the pieces joined
/// by the separator are the text again, and no piece holds the separator.
pub proof fn lemma_split_join(s: Seq<char>, sep: char)
    ensures
        split(s, sep).len() >= 1,
        join(split(s, sep), sep) == s,
        forall|i: int| 0 <= i < split(s, sep).len() ==> !(#[trigger] split(s, sep)[i]).contains(sep),
    decreases s.len(),
{
    if s.len() == 0 {
        assert(join(split(s, sep), sep) == s);
    } else {
        let before = split(s.drop_last(), sep);
        let pieces = split(s, sep);
        lemma_split_join(s.drop_last(), sep);
        assert(s == s.drop_last().push(s.last()));
        if s.last() == sep {
            assert(pieces.drop_last() == before);
            assert(join(pieces, sep) == join(before, sep).push(sep) + Seq::<char>::empty());
            assert(join(pieces, sep) == s);
            assert forall|i: int| 0 <= i < pieces.len() implies !(#[trigger] pieces[i]).contains(
                sep,
            ) by {
                if i < before.len() {
                    assert(pieces[i] == before[i]);
                }
            }
        } else {
            let last = before.last().push(s.last());
            assert(pieces.last() == last);
            assert(pieces.drop_last() == before.drop_last());
            if before.len() == 1 {
                assert(join(before, sep) == before.last());
                assert(join(pieces, sep) == last);
            } else {
                assert(join(before, sep) == join(before.drop_last(), sep).push(sep)
                    + before.last());
                assert(join(pieces, sep) == join(before.drop_last(), sep).push(sep) + last);
                assert(join(before.drop_last(), sep).push(sep) + last == (join(
                    before.drop_last(),
                    sep,
                ).push(sep) + before.last()).push(s.last()));
            }
            assert(join(pieces, sep) == s);
            assert forall|i: int| 0 <= i < pieces.len() implies !(#[trigger] pieces[i]).contains(
                sep,
            ) by {
                if i < before.len() - 1 {
                    assert(pieces[i] == before[i]);
                } else {
                    assert(!before[before.len() - 1].contains(sep));
                    if last.contains(sep) {
                        let k = choose|k: int| 0 <= k < last.len() && last[k] == sep;
                        if k < before.last().len() {
                            assert(before.last()[k] == sep);
                        }
                    }
                }
            }
        }
    }
}

/// Trimming takes whitespace off both ends and nothing else: what is left
/// is a stretch of the text that neither starts nor ends with whitespace,
/// and all that stands before and after it is whitespace.
pub proof fn lemma_trim(s: Seq<char>) -> (bounds: (int, int))
    ensures
        0 <= bounds.0 <= bounds.1 <= s.len(),
        trim(s) == s.subrange(bounds.0, bounds.1),
        forall|i: int| 0 <= i < bounds.0 ==> is_whitespace(#[trigger] s[i]),
        forall|i: int| bounds.1 <= i < s.len() ==> is_whitespace(#[trigger] s[i]),
        trim(s).len() > 0 ==> !is_whitespace(trim(s).first()) && !is_whitespace(trim(s).last()),
{
    let from = lemma_trim_start(s);
    let front = trim_start(s);
    let len = lemma_trim_end(front);
    assert(front.take(len) == s.subrange(from, from + len));
    assert forall|i: int| from + len <= i < s.len() implies is_whitespace(#[trigger] s[i]) by {
        assert(s[i] == front[i - from]);
    }
    if trim(s).len() > 0 {
        assert(trim(s).first() == front[0]);
    }
    (from, from + len)
}

/// Where `trim_start` starts: after the whitespace at the front.
pub proof fn lemma_trim_start(s: Seq<char>) -> (from: int)
    ensures
        0 <= from <= s.len(),
        trim_start(s) == s.skip(from),
        forall|i: int| 0 <= i < from ==> is_whitespace(#[trigger] s[i]),
        from < s.len() ==> !is_whitespace(s[from]),
    decreases s.len(),
{
    if s.len() > 0 && is_whitespace(s.first()) {
        let rest = lemma_trim_start(s.drop_first());
        assert(s.drop_first().skip(rest) == s.skip(rest + 1));
        assert forall|i: int| 0 <= i < rest + 1 implies is_whitespace(#[trigger] s[i]) by {
            if i > 0 {
                assert(s[i] == s.drop_first()[i - 1]);
            }
        }
        rest + 1
    } else {
        assert(s.skip(0) == s);
        0
    }
}

/// Where `trim_end` ends: before the whitespace at the back.
pub proof fn lemma_trim_end(s: Seq<char>) -> (len: int)
    ensures
        0 <= len <= s.len(),
        trim_end(s) == s.take(len),
        forall|i: int| len <= i < s.len() ==> is_whitespace(#[trigger] s[i]),
        len > 0 ==> !is_whitespace(s[len - 1]),
    decreases s.len(),
{
    if s.len() > 0 && is_whitespace(s.last()) {
        let len = lemma_trim_end(s.drop_last());
        assert(s.drop_last().take(len) == s.take(len));
        assert forall|i: int| len <= i < s.len() implies is_whitespace(#[trigger] s[i]) by {
            if i < s.len() - 1 {
                assert(s[i] == s.drop_last()[i]);
            }
        }
        len
    } else {
        assert(s.take(s.len() as int) == s);
        s.len() as int
    }
}

/// A number in base ten is made of one or more digits, and they write
/// this number.
pub proof fn lemma_decimal_digits(n: nat)
    ensures
        decimal(n).len() >= 1,
        all_digits(decimal(n)),
        digits_value(decimal(n)) == n,
    decreases n,
{
    if n < 10 {
        let one = decimal(n);
        assert(one.drop_last().len() == 0);
        assert(digits_value(one) == digits_value(one.drop_last()) * 10 + digit_value(one.last()));
    } else {
        lemma_decimal_digits(n / 10);
        let all = decimal(n);
        assert(all.drop_last() == decimal(n / 10));
        assert(all.last() == digit_char(n % 10));
        assert forall|i: int| 0 <= i < all.len() implies is_digit(#[trigger] all[i]) by {
            if i < all.len() - 1 {
                assert(all[i] == decimal(n / 10)[i]);
            }
        }
    }
}

/// Reading what was written gives the number back.
pub proof fn lemma_decimal_round_trip(n: u16)
    ensures
        u16_of(decimal(n as nat)) == Some(n),
{
    lemma_decimal_digits(n as nat);
    assert(is_digit(decimal(n as nat)[0]));
}

} // verus!
