//! Text as sequences of characters: the searches and rewrites that the
//! loader and the template helpers are made of.

use vstd::prelude::*;
use vstd::std_specs::iter::IteratorSpec;

verus! {

/// `String::push` appends one character to the end of the string.
pub assume_specification[ String::push ](text: &mut String, ch: char)
    ensures
        final(text)@ == old(text)@.push(ch),
;

/// The characters of `text`, in order.
pub fn chars_of(text: &str) -> (chars: Vec<char>)
    ensures
        chars@ == text@,
{
    broadcast use vstd::string::group_string_axioms;

    let mut chars: Vec<char> = Vec::new();
    let mut rest = text.chars();
    loop
        invariant
            rest.obeys_prophetic_iter_laws(),
            rest.decrease() is Some,
            chars@ + rest.remaining() == text@,
        ensures
            chars@ == text@,
        decreases rest.decrease()->0,
    {
        match rest.next() {
            Some(c) => {
                chars.push(c);
            },
            None => {
                break ;
            },
        }
    }
    chars
}

/// The string made of `chars`, in order.
pub fn string_of(chars: &Vec<char>) -> (text: String)
    ensures
        text@ == chars@,
{
    let mut text = String::new();
    let mut i: usize = 0;
    while i < chars.len()
        invariant
            i <= chars.len(),
            text@ == chars@.take(i as int),
        decreases chars.len() - i,
    {
        text.push(chars[i]);
        i += 1;
    }
    text
}

/// Whether `pattern` stands in `text` at position `at`.
pub open spec fn occurs_at(text: Seq<char>, at: int, pattern: Seq<char>) -> bool {
    &&& 0 <= at
    &&& at + pattern.len() <= text.len()
    &&& text.subrange(at, at + pattern.len()) == pattern
}

/// `text` from position `at` on, with `with` put after each character.
pub open spec fn interleaved_from(text: Seq<char>, at: int, with: Seq<char>) -> Seq<char>
    decreases text.len() - at,
{
    if at < 0 || at >= text.len() {
        Seq::empty()
    } else {
        seq![text[at]] + with + interleaved_from(text, at + 1, with)
    }
}

/// `text` from position `at` on, read left to right: where the non-empty
/// `from` stands, `to` takes its place and reading goes on behind it.
pub open spec fn replaced_from(text: Seq<char>, at: int, from: Seq<char>, to: Seq<char>) -> Seq<
    char,
>
    decreases text.len() - at,
{
    if at < 0 || at >= text.len() || from.len() == 0 {
        Seq::empty()
    } else if occurs_at(text, at, from) {
        to + replaced_from(text, at + from.len(), from, to)
    } else {
        seq![text[at]] + replaced_from(text, at + 1, from, to)
    }
}

/// `text` with every occurrence of `from` replaced by `to`. Occurrences are
/// found from left to right and do not overlap. An empty `from` is found
/// before every character and at the end.
pub open spec fn replaced(text: Seq<char>, from: Seq<char>, to: Seq<char>) -> Seq<char> {
    if from.len() == 0 {
        to + interleaved_from(text, 0, to)
    } else {
        replaced_from(text, 0, from, to)
    }
}

/// The texts of `parts` one after the other.
pub open spec fn concatenated(parts: Seq<Seq<char>>) -> Seq<char>
    decreases parts.len(),
{
    if parts.len() == 0 {
        Seq::empty()
    } else {
        concatenated(parts.drop_last()) + parts.last()
    }
}

/// The texts of `parts` one after the other, with `separator` between each two.
pub open spec fn joined(parts: Seq<Seq<char>>, separator: Seq<char>) -> Seq<char>
    decreases parts.len(),
{
    if parts.len() == 0 {
        Seq::empty()
    } else if parts.len() == 1 {
        parts[0]
    } else {
        joined(parts.drop_last(), separator) + separator + parts.last()
    }
}

/// Whether `pattern` stands in `text` at position `at`.
pub fn starts_at(text: &Vec<char>, at: usize, pattern: &Vec<char>) -> (found: bool)
    ensures
        found == occurs_at(text@, at as int, pattern@),
{
    if pattern.len() > text.len() || at > text.len() - pattern.len() {
        return false;
    }
    let mut k: usize = 0;
    while k < pattern.len()
        invariant
            k <= pattern.len(),
            at + pattern.len() <= text.len(),
            forall|j: int| 0 <= j < k ==> text@[at + j] == pattern@[j],
        decreases pattern.len() - k,
    {
        if text[at + k] != pattern[k] {
            assert(text@.subrange(at as int, at + pattern.len())[k as int] != pattern@[k as int]);
            return false;
        }
        k += 1;
    }
    assert(text@.subrange(at as int, at + pattern.len()) =~= pattern@);
    true
}

/// Appends `more` to `out`.
pub fn append_chars(out: &mut Vec<char>, more: &Vec<char>)
    ensures
        final(out)@ == old(out)@ + more@,
{
    let mut k: usize = 0;
    while k < more.len()
        invariant
            k <= more.len(),
            out@ == old(out)@ + more@.take(k as int),
        decreases more.len() - k,
    {
        out.push(more[k]);
        k += 1;
    }
}

/// `text` with every occurrence of `from` replaced by `to`.
pub fn replace_all(text: &Vec<char>, from: &Vec<char>, to: &Vec<char>) -> (out: Vec<char>)
    ensures
        out@ == replaced(text@, from@, to@),
{
    let mut out: Vec<char> = Vec::new();
    let mut i: usize = 0;
    if from.len() == 0 {
        append_chars(&mut out, to);
        while i < text.len()
            invariant
                i <= text.len(),
                out@ + interleaved_from(text@, i as int, to@) == replaced(text@, from@, to@),
            decreases text.len() - i,
        {
            let ghost before = out@;
            out.push(text[i]);
            append_chars(&mut out, to);
            assert(out@ + interleaved_from(text@, i + 1, to@) =~= before + interleaved_from(
                text@,
                i as int,
                to@,
            ));
            i += 1;
        }
        assert(out@ + interleaved_from(text@, i as int, to@) =~= out@);
        return out;
    }
    while i < text.len()
        invariant
            i <= text.len(),
            from.len() > 0,
            out@ + replaced_from(text@, i as int, from@, to@) == replaced(text@, from@, to@),
        decreases text.len() - i,
    {
        let ghost before = out@;
        if starts_at(text, i, from) {
            append_chars(&mut out, to);
            assert(out@ + replaced_from(text@, i + from.len(), from@, to@) =~= before
                + replaced_from(text@, i as int, from@, to@));
            i += from.len();
        } else {
            out.push(text[i]);
            assert(out@ + replaced_from(text@, i + 1, from@, to@) =~= before + replaced_from(
                text@,
                i as int,
                from@,
                to@,
            ));
            i += 1;
        }
    }
    assert(out@ + replaced_from(text@, i as int, from@, to@) =~= out@);
    out
}

/// Whether `c` is one of the characters of `text`.
pub fn has_char(text: &Vec<char>, c: char) -> (found: bool)
    ensures
        found == text@.contains(c),
{
    let mut i: usize = 0;
    while i < text.len()
        invariant
            i <= text.len(),
            forall|j: int| 0 <= j < i ==> text@[j] != c,
        decreases text.len() - i,
    {
        if text[i] == c {
            return true;
        }
        i += 1;
    }
    false
}

/// Whether the two texts hold the same characters.
pub fn same_chars(a: &Vec<char>, b: &Vec<char>) -> (equal: bool)
    ensures
        equal == (a@ == b@),
{
    if a.len() != b.len() {
        return false;
    }
    let found = starts_at(a, 0, b);
    assert(a@.subrange(0, a@.len() as int) =~= a@);
    found
}

/// Whether `text` reads exactly as `word`.
pub fn reads_as(text: &str, word: &str) -> (equal: bool)
    ensures
        equal == (text@ == word@),
{
    let a = chars_of(text);
    let b = chars_of(word);
    same_chars(&a, &b)
}

/// The texts of `parts` one after the other.
pub fn concat_all(parts: &Vec<String>) -> (out: String)
    ensures
        out@ == concatenated(parts.deep_view()),
{
    let mut out: Vec<char> = Vec::new();
    let mut i: usize = 0;
    while i < parts.len()
        invariant
            i <= parts.len(),
            out@ == concatenated(parts.deep_view().take(i as int)),
        decreases parts.len() - i,
    {
        let part = chars_of(parts[i].as_str());
        let ghost seen = parts.deep_view().take(i + 1);
        assert(seen.drop_last() =~= parts.deep_view().take(i as int));
        assert(seen.last() == part@);
        append_chars(&mut out, &part);
        i += 1;
    }
    assert(parts.deep_view().take(i as int) =~= parts.deep_view());
    string_of(&out)
}

/// The character that stands for the decimal digit `d`.
pub open spec fn digit(d: int) -> char {
    if d == 0 {
        '0'
    } else if d == 1 {
        '1'
    } else if d == 2 {
        '2'
    } else if d == 3 {
        '3'
    } else if d == 4 {
        '4'
    } else if d == 5 {
        '5'
    } else if d == 6 {
        '6'
    } else if d == 7 {
        '7'
    } else if d == 8 {
        '8'
    } else {
        '9'
    }
}

/// The decimal digits of `n`, without leading zeros.
pub open spec fn decimal(n: nat) -> Seq<char>
    decreases n,
{
    if n < 10 {
        seq![digit(n as int)]
    } else {
        decimal(n / 10).push(digit((n % 10) as int))
    }
}

/// The decimal text of the integer `n`: a minus sign before the digits of a
/// negative one.
pub open spec fn signed_decimal(n: int) -> Seq<char> {
    if n < 0 {
        seq!['-'] + decimal((-n) as nat)
    } else {
        decimal(n as nat)
    }
}

/// A number has at least one decimal digit.
pub proof fn lemma_decimal_nonempty(n: nat)
    ensures
        decimal(n).len() >= 1,
        n >= 10 ==> decimal(n).len() >= 2,
    decreases n,
{
    if n >= 10 {
        lemma_decimal_nonempty(n / 10);
    }
}

/// Two numbers with the same decimal digits are the same number.
pub proof fn lemma_decimal_injective(a: nat, b: nat)
    requires
        decimal(a) == decimal(b),
    ensures
        a == b,
    decreases a,
{
    lemma_decimal_nonempty(a);
    lemma_decimal_nonempty(b);
    if a < 10 && b < 10 {
        assert(decimal(a)[0] == digit(a as int));
        assert(decimal(b)[0] == digit(b as int));
    } else if a >= 10 && b >= 10 {
        let da = decimal(a / 10);
        let db = decimal(b / 10);
        assert(decimal(a).drop_last() =~= da);
        assert(decimal(b).drop_last() =~= db);
        assert(decimal(a).last() == digit((a % 10) as int));
        assert(decimal(b).last() == digit((b % 10) as int));
        lemma_decimal_injective(a / 10, b / 10);
    } else {
        assert(decimal(a).len() != decimal(b).len());
    }
}

/// The character that stands for the decimal digit `d`.
pub fn digit_char(d: u8) -> (c: char)
    requires
        d < 10,
    ensures
        c == digit(d as int),
{
    if d == 0 {
        '0'
    } else if d == 1 {
        '1'
    } else if d == 2 {
        '2'
    } else if d == 3 {
        '3'
    } else if d == 4 {
        '4'
    } else if d == 5 {
        '5'
    } else if d == 6 {
        '6'
    } else if d == 7 {
        '7'
    } else if d == 8 {
        '8'
    } else {
        '9'
    }
}

/// Appends the decimal digits of `n` to `out`.
pub fn push_decimal(n: u64, out: &mut Vec<char>)
    ensures
        final(out)@ == old(out)@ + decimal(n as nat),
    decreases n,
{
    if n >= 10 {
        push_decimal(n / 10, out);
    }
    out.push(digit_char((n % 10) as u8));
    assert(out@ =~= old(out)@ + decimal(n as nat));
}

/// The size of the integer `n`, without its sign.
pub fn magnitude(n: i64) -> (m: u64)
    ensures
        m == (if n < 0 {
            -n
        } else {
            n as int
        }),
{
    if n < 0 {
        ((-(n + 1)) as u64) + 1
    } else {
        n as u64
    }
}

/// Appends the decimal text of `n` to `out`.
pub fn push_signed_decimal(n: i64, out: &mut Vec<char>)
    ensures
        final(out)@ == old(out)@ + signed_decimal(n as int),
{
    if n < 0 {
        out.push('-');
    }
    push_decimal(magnitude(n), out);
    assert(out@ =~= old(out)@ + signed_decimal(n as int));
}

/// Whether `pattern` stands somewhere in `text`.
pub open spec fn contains_text(text: Seq<char>, pattern: Seq<char>) -> bool {
    exists|at: int| occurs_at(text, at, pattern)
}

/// Whether `pattern` stands somewhere in `text`.
pub fn has_text(text: &Vec<char>, pattern: &Vec<char>) -> (found: bool)
    ensures
        found == contains_text(text@, pattern@),
{
    if pattern.len() > text.len() {
        return false;
    }
    let last = text.len() - pattern.len();
    let mut i: usize = 0;
    while i < last
        invariant
            i <= last,
            last + pattern.len() == text.len(),
            forall|at: int| 0 <= at < i ==> !occurs_at(text@, at, pattern@),
        decreases last - i,
    {
        if starts_at(text, i, pattern) {
            return true;
        }
        i += 1;
    }
    starts_at(text, last, pattern)
}

/// Whether `c` is a decimal digit.
pub open spec fn is_digit(c: char) -> bool {
    '0' <= c && c <= '9'
}

/// The number that the decimal digit `c` stands for.
pub open spec fn digit_value(c: char) -> int {
    c as int - '0' as int
}

/// The number that the decimal digits `digits` stand for.
pub open spec fn digits_value(digits: Seq<char>) -> nat
    decreases digits.len(),
{
    if digits.len() == 0 {
        0
    } else {
        (digits_value(digits.drop_last()) * 10 + digit_value(digits.last())) as nat
    }
}

/// Whether `text` is made of decimal digits, and of one at least.
pub open spec fn is_number(text: Seq<char>) -> bool {
    text.len() > 0 && forall|i: int| 0 <= i < text.len() ==> is_digit(#[trigger] text[i])
}

/// The integer that `text` stands for: decimal digits, with or without a
/// sign before them. Nothing else stands for an integer.
pub open spec fn integer_of(text: Seq<char>) -> Option<int> {
    if text.len() > 0 && text[0] == '-' {
        if is_number(text.skip(1)) {
            Some(-(digits_value(text.skip(1)) as int))
        } else {
            None
        }
    } else if text.len() > 0 && text[0] == '+' {
        if is_number(text.skip(1)) {
            Some(digits_value(text.skip(1)) as int)
        } else {
            None
        }
    } else if is_number(text) {
        Some(digits_value(text) as int)
    } else {
        None
    }
}

/// The integer that `text` stands for, where it is one from `low` to `high`.
pub open spec fn integer_within(text: Seq<char>, low: int, high: int) -> Option<int> {
    match integer_of(text) {
        Some(value) => if low <= value <= high {
            Some(value)
        } else {
            None
        },
        None => None,
    }
}

/// The smaller of two numbers.
pub open spec fn at_most(value: int, cap: int) -> int {
    if value < cap {
        value
    } else {
        cap
    }
}

/// The integer that `text` stands for, where it is one from `low` to `high`.
pub fn parse_integer(text: &Vec<char>, low: i64, high: i64) -> (parsed: Option<i64>)
    ensures
        match parsed {
            Some(value) => integer_within(text@, low as int, high as int) == Some(value as int),
            None => integer_within(text@, low as int, high as int) is None,
        },
{
    if text.len() == 0 {
        return None;
    }
    let negative = text[0] == '-';
    let start: usize = if text[0] == '-' || text[0] == '+' {
        1
    } else {
        0
    };
    if start == text.len() {
        return None;
    }
    let ghost digits = text@.skip(start as int);
    assert(text@.skip(0) =~= text@);
    let cap: u128 = 0x8000_0000_0000_0001;
    let mut acc: u128 = 0;
    let mut i: usize = start;
    while i < text.len()
        invariant
            start <= i <= text.len(),
            start < text.len(),
            negative == (text@[0] == '-'),
            start == (if text@[0] == '-' || text@[0] == '+' {
                1int
            } else {
                0int
            }),
            digits == text@.skip(start as int),
            cap == 0x8000_0000_0000_0001,
            forall|k: int| 0 <= k < i - start ==> is_digit(#[trigger] digits[k]),
            acc == at_most(digits_value(digits.take(i - start)) as int, cap as int),
        decreases text.len() - i,
    {
        let c = text[i];
        assert(digits[i - start] == c);
        if !(c >= '0' && c <= '9') {
            assert(!is_digit(digits[i - start]));
            return None;
        }
        let d: u128 = (c as u32 - '0' as u32) as u128;
        let ghost seen = digits.take(i + 1 - start);
        assert(seen.drop_last() =~= digits.take(i - start));
        assert(seen.last() == c);
        let next = acc * 10 + d;
        acc = if next < cap {
            next
        } else {
            cap
        };
        i += 1;
    }
    assert(digits.take(i - start) =~= digits);
    assert(is_number(digits));
    if acc >= cap {
        return None;
    }
    let signed: i128 = if negative {
        -(acc as i128)
    } else {
        acc as i128
    };
    if signed < low as i128 || signed > high as i128 {
        return None;
    }
    Some(signed as i64)
}

/// The character that stands for the hexadecimal digit `d`, in lower case.
pub open spec fn hex_digit(d: int) -> char {
    if d < 10 {
        digit(d)
    } else if d == 10 {
        'a'
    } else if d == 11 {
        'b'
    } else if d == 12 {
        'c'
    } else if d == 13 {
        'd'
    } else if d == 14 {
        'e'
    } else {
        'f'
    }
}

/// The hexadecimal digits of `n`, in lower case and without leading zeros.
pub open spec fn hexadecimal(n: nat) -> Seq<char>
    decreases n,
{
    if n < 16 {
        seq![hex_digit(n as int)]
    } else {
        hexadecimal(n / 16).push(hex_digit((n % 16) as int))
    }
}

/// The character that stands for the hexadecimal digit `d`, in lower case.
pub fn hex_digit_char(d: u8) -> (c: char)
    requires
        d < 16,
    ensures
        c == hex_digit(d as int),
{
    if d < 10 {
        digit_char(d)
    } else if d == 10 {
        'a'
    } else if d == 11 {
        'b'
    } else if d == 12 {
        'c'
    } else if d == 13 {
        'd'
    } else if d == 14 {
        'e'
    } else {
        'f'
    }
}

/// Appends the hexadecimal digits of `n` to `out`.
pub fn push_hexadecimal(n: u64, out: &mut Vec<char>)
    ensures
        final(out)@ == old(out)@ + hexadecimal(n as nat),
    decreases n,
{
    if n >= 16 {
        push_hexadecimal(n / 16, out);
    }
    out.push(hex_digit_char((n % 16) as u8));
    assert(out@ =~= old(out)@ + hexadecimal(n as nat));
}

/// The pieces of `text` from position `at` on, cut at every `separator`,
/// where the piece being read began at `start`.
pub open spec fn pieces(text: Seq<char>, separator: char, start: int, at: int) -> Seq<Seq<char>>
    decreases text.len() - at,
{
    if at < 0 || at >= text.len() {
        seq![text.subrange(start, text.len() as int)]
    } else if text[at] == separator {
        seq![text.subrange(start, at)] + pieces(text, separator, at + 1, at + 1)
    } else {
        pieces(text, separator, start, at + 1)
    }
}

/// The pieces into which the `separator`s cut `text`: one more than there
/// are separators, the empty ones included.
pub open spec fn split(text: Seq<char>, separator: char) -> Seq<Seq<char>> {
    pieces(text, separator, 0, 0)
}

/// What a list of texts stands for.
pub open spec fn texts_model(texts: Seq<Vec<char>>) -> Seq<Seq<char>> {
    Seq::new(texts.len(), |i: int| texts[i]@)
}

/// The pieces into which the `separator`s cut `text`.
pub fn split_at(text: &Vec<char>, separator: char) -> (parts: Vec<Vec<char>>)
    ensures
        texts_model(parts@) == split(text@, separator),
        parts@.len() >= 1,
{
    let mut parts: Vec<Vec<char>> = Vec::new();
    let mut piece: Vec<char> = Vec::new();
    let ghost mut start: int = 0;
    let mut at: usize = 0;
    assert(texts_model(parts@) + pieces(text@, separator, 0, 0) =~= split(text@, separator));
    while at < text.len()
        invariant
            0 <= start <= at <= text.len(),
            piece@ == text@.subrange(start, at as int),
            texts_model(parts@) + pieces(text@, separator, start, at as int) == split(
                text@,
                separator,
            ),
        decreases text.len() - at,
    {
        let ghost before = texts_model(parts@);
        if text[at] == separator {
            parts.push(piece);
            piece = Vec::new();
            proof {
                assert(texts_model(parts@) =~= before + seq![text@.subrange(start, at as int)]);
                assert(texts_model(parts@) + pieces(text@, separator, at + 1, at + 1) =~= before
                    + pieces(text@, separator, start, at as int));
                start = at + 1;
            }
        } else {
            piece.push(text[at]);
            assert(piece@ =~= text@.subrange(start, at + 1));
        }
        at += 1;
    }
    let ghost before = texts_model(parts@);
    parts.push(piece);
    assert(texts_model(parts@) =~= before + seq![text@.subrange(start, text@.len() as int)]);
    parts
}

/// Putting nothing after each character leaves the text as it is.
pub proof fn lemma_interleaved_with_nothing(text: Seq<char>, at: int)
    requires
        0 <= at <= text.len(),
    ensures
        interleaved_from(text, at, Seq::empty()) == text.subrange(at, text.len() as int),
    decreases text.len() - at,
{
    if at < text.len() {
        lemma_interleaved_with_nothing(text, at + 1);
        assert(seq![text[at]] + Seq::<char>::empty() + text.subrange(at + 1, text.len() as int)
            =~= text.subrange(at, text.len() as int));
    } else {
        assert(text.subrange(at, text.len() as int) =~= Seq::<char>::empty());
    }
}

/// Replacing a pattern by itself, from `at` on, leaves the text as it is.
pub proof fn lemma_replaced_from_by_itself(text: Seq<char>, at: int, from: Seq<char>)
    requires
        0 <= at <= text.len(),
        from.len() > 0,
    ensures
        replaced_from(text, at, from, from) == text.subrange(at, text.len() as int),
    decreases text.len() - at,
{
    if at >= text.len() {
        assert(text.subrange(at, text.len() as int) =~= Seq::<char>::empty());
    } else if occurs_at(text, at, from) {
        lemma_replaced_from_by_itself(text, at + from.len(), from);
        assert(text.subrange(at, at + from.len()) + text.subrange(
            at + from.len(),
            text.len() as int,
        ) =~= text.subrange(at, text.len() as int));
    } else {
        lemma_replaced_from_by_itself(text, at + 1, from);
        assert(seq![text[at]] + text.subrange(at + 1, text.len() as int) =~= text.subrange(
            at,
            text.len() as int,
        ));
    }
}

/// Replacing a pattern by itself leaves the text as it is.
pub proof fn lemma_replaced_by_itself(text: Seq<char>, from: Seq<char>)
    ensures
        replaced(text, from, from) == text,
{
    if from.len() == 0 {
        assert(from =~= Seq::<char>::empty());
        lemma_interleaved_with_nothing(text, 0);
        assert(from + text.subrange(0, text.len() as int) =~= text);
    } else {
        lemma_replaced_from_by_itself(text, 0, from);
        assert(text.subrange(0, text.len() as int) =~= text);
    }
}

} // verus!
