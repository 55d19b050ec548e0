//! Small text utilities shared by the parsers and formatters of this crate.

use vstd::prelude::*;

verus! {

/// The characters of `s`, in order.
pub fn chars_of(s: &str) -> (out: Vec<char>)
    ensures
        out@ == s@,
{
    let mut out: Vec<char> = Vec::new();
    for c in it: s.chars()
        invariant
            out@ == it.seq().take(it.index() as int),
            it.seq() == s@,
    {
        out.push(c);
    }
    out
}

/// The decimal digit that stands for `d`, for `d` below ten.
pub open spec fn digit_char(d: int) -> char {
    if d == 0 {
        '0'
    } else if d == 1 {
        '1'
    } else if d == 2 {
        '2'
    } else if d == 3 {
        '3'
    } else if d == 4 {
        '4'
    } else if d == 5 {
        '5'
    } else if d == 6 {
        '6'
    } else if d == 7 {
        '7'
    } else if d == 8 {
        '8'
    } else {
        '9'
    }
}

/// `n` written in base ten, without sign or leading zeros.
pub open spec fn decimal_text(n: nat) -> Seq<char>
    decreases n,
{
    if n < 10 {
        seq![digit_char(n as int)]
    } else {
        decimal_text(n / 10).push(digit_char((n % 10) as int))
    }
}

/// `n` written in base ten, with one leading zero where it has one digit.
pub open spec fn two_digit_text(n: nat) -> Seq<char> {
    if n < 10 {
        seq!['0', digit_char(n as int)]
    } else {
        decimal_text(n)
    }
}

/// The text of one decimal digit.
fn digit_str(d: u64) -> (s: &'static str)
    requires
        d < 10,
    ensures
        s@ == seq![digit_char(d as int)],
{
    proof {
        reveal_strlit("0");
        reveal_strlit("1");
        reveal_strlit("2");
        reveal_strlit("3");
        reveal_strlit("4");
        reveal_strlit("5");
        reveal_strlit("6");
        reveal_strlit("7");
        reveal_strlit("8");
        reveal_strlit("9");
    }
    let s = if d == 0 {
        "0"
    } else if d == 1 {
        "1"
    } else if d == 2 {
        "2"
    } else if d == 3 {
        "3"
    } else if d == 4 {
        "4"
    } else if d == 5 {
        "5"
    } else if d == 6 {
        "6"
    } else if d == 7 {
        "7"
    } else if d == 8 {
        "8"
    } else {
        "9"
    };
    assert(s@ =~= seq![digit_char(d as int)]);
    s
}

/// Appends `n` in base ten to `out`.
pub fn push_decimal(out: &mut String, n: u64)
    ensures
        final(out)@ == old(out)@ + decimal_text(n as nat),
    decreases n,
{
    if n >= 10 {
        push_decimal(out, n / 10);
    }
    out.append(digit_str(n % 10));
    proof {
        if n >= 10 {
            assert(out@ =~= old(out)@ + decimal_text((n / 10) as nat).push(
                digit_char((n % 10) as int),
            ));
        } else {
            assert(out@ =~= old(out)@ + seq![digit_char(n as int)]);
        }
    }
}

/// Appends `n` in base ten to `out`, padded with a zero to two digits.
pub fn push_two_digits(out: &mut String, n: u64)
    ensures
        final(out)@ == old(out)@ + two_digit_text(n as nat),
{
    if n < 10 {
        proof {
            reveal_strlit("0");
        }
        out.append("0");
        out.append(digit_str(n));
        assert(out@ =~= old(out)@ + seq!['0', digit_char(n as int)]);
    } else {
        push_decimal(out, n);
    }
}

/// Whether `c` has the Unicode property White_Space.
pub open spec fn is_space(c: char) -> bool {
    let code = c as u32;
    ||| 0x09 <= code <= 0x0D
    ||| code == 0x20
    ||| code == 0x85
    ||| code == 0xA0
    ||| code == 0x1680
    ||| 0x2000 <= code <= 0x200A
    ||| code == 0x2028
    ||| code == 0x2029
    ||| code == 0x202F
    ||| code == 0x205F
    ||| code == 0x3000
}

/// Tests a character for the Unicode property White_Space.
pub fn char_is_space(c: char) -> (space: bool)
    ensures
        space == is_space(c),
{
    let code = c as u32;
    (0x09 <= code && code <= 0x0D) || code == 0x20 || code == 0x85 || code == 0xA0 || code
        == 0x1680 || (0x2000 <= code && code <= 0x200A) || code == 0x2028 || code == 0x2029
        || code == 0x202F || code == 0x205F || code == 0x3000
}

/// The first position at or after `from` that holds no white space, or the
/// length of `s` where there is none.
pub open spec fn word_start(s: Seq<char>, from: int) -> int
    decreases s.len() - from,
{
    if from < 0 || from >= s.len() {
        s.len() as int
    } else if !is_space(s[from]) {
        from
    } else {
        word_start(s, from + 1)
    }
}

/// The first position at or after `from` that holds white space, or the
/// length of `s` where there is none.
pub open spec fn word_end(s: Seq<char>, from: int) -> int
    decreases s.len() - from,
{
    if from < 0 || from >= s.len() {
        s.len() as int
    } else if is_space(s[from]) {
        from
    } else {
        word_end(s, from + 1)
    }
}

/// The words of `s` from position `from` on: its maximal runs of characters
/// that are not white space, in order.
pub open spec fn words_from(s: Seq<char>, from: int) -> Seq<Seq<char>>
    decreases s.len() - from,
    via words_from_decreases
{
    let start = word_start(s, from);
    if 0 <= from && start < s.len() {
        seq![s.subrange(start, word_end(s, start))] + words_from(s, word_end(s, start))
    } else {
        Seq::empty()
    }
}

#[via_fn]
proof fn words_from_decreases(s: Seq<char>, from: int) {
    if 0 <= from && word_start(s, from) < s.len() {
        lemma_word_start(s, from);
        lemma_word_end(s, word_start(s, from));
    }
}

/// The words of `s`, as `str::split_whitespace` yields them.
pub open spec fn words(s: Seq<char>) -> Seq<Seq<char>> {
    words_from(s, 0)
}

/// Where a word starts: at or after `from`, on a character that is no white
/// space, with only white space before it.
pub proof fn lemma_word_start(s: Seq<char>, from: int)
    requires
        0 <= from,
    ensures
        from <= s.len() ==> from <= word_start(s, from) <= s.len(),
        from > s.len() ==> word_start(s, from) == s.len(),
        word_start(s, from) < s.len() ==> !is_space(s[word_start(s, from)]),
        forall|i: int| from <= i < word_start(s, from) ==> is_space(#[trigger] s[i]),
    decreases s.len() - from,
{
    if from < s.len() && is_space(s[from]) {
        lemma_word_start(s, from + 1);
    }
}

/// Where a word ends: at or after `from`, on white space or at the end, with
/// no white space before it.
pub proof fn lemma_word_end(s: Seq<char>, from: int)
    requires
        0 <= from,
    ensures
        from <= s.len() ==> from <= word_end(s, from) <= s.len(),
        from < s.len() && !is_space(s[from]) ==> from < word_end(s, from),
        word_end(s, from) < s.len() ==> is_space(s[word_end(s, from)]),
        forall|i: int| from <= i < word_end(s, from) ==> !is_space(#[trigger] s[i]),
    decreases s.len() - from,
{
    if from < s.len() && !is_space(s[from]) {
        lemma_word_end(s, from + 1);
    }
}

/// Splits `s` at white space into its words.
pub fn split_words(s: &str) -> (out: Vec<String>)
    ensures
        out.deep_view() == words(s@),
{
    let chars = chars_of(s);
    let n = chars.len();
    let mut out: Vec<String> = Vec::new();
    let mut at: usize = 0;
    loop
        invariant
            chars@ == s@,
            n == chars.len(),
            at <= n,
            out.deep_view() + words_from(s@, at as int) == words(s@),
        ensures
            out.deep_view() == words(s@),
        decreases n - at,
    {
        let mut start = at;
        while start < n && char_is_space(chars[start])
            invariant
                chars@ == s@,
                n == chars.len(),
                at <= start <= n,
                word_start(s@, start as int) == word_start(s@, at as int),
            decreases n - start,
        {
            start += 1;
        }
        if start >= n {
            proof {
                assert(words_from(s@, at as int) == Seq::<Seq<char>>::empty());
                assert(out.deep_view() + Seq::<Seq<char>>::empty() =~= out.deep_view());
            }
            break;
        }
        let mut end = start;
        while end < n && !char_is_space(chars[end])
            invariant
                chars@ == s@,
                n == chars.len(),
                start <= end <= n,
                start < n,
                !is_space(s@[start as int]),
                word_end(s@, end as int) == word_end(s@, start as int),
            decreases n - end,
        {
            end += 1;
        }
        let word = String::from_str(s.substring_char(start, end));
        proof {
            lemma_word_end(s@, start as int);
            let before = out.deep_view();
            let rest = words_from(s@, end as int);
            assert(words_from(s@, at as int) == seq![word@] + rest);
            assert((before.push(word@)) + rest =~= before + (seq![word@] + rest));
        }
        let ghost before = out.deep_view();
        out.push(word);
        proof {
            assert(out.deep_view() =~= before.push(word@));
        }
        at = end;
    }
    out
}

/// Whether `c` is one of the ten decimal digits.
pub open spec fn is_digit(c: char) -> bool {
    '0' <= c <= '9'
}

/// The number that the decimal digit `c` stands for.
pub open spec fn digit_value(c: char) -> nat
    recommends
        is_digit(c),
{
    (c as u32 - 48) as nat
}

/// Whether `s` holds decimal digits only.
pub open spec fn all_digits(s: Seq<char>) -> bool {
    forall|i: int| 0 <= i < s.len() ==> is_digit(#[trigger] s[i])
}

/// The number that the decimal digits `s` spell; zero for no digits.
pub open spec fn digits_value(s: Seq<char>) -> nat
    recommends
        all_digits(s),
    decreases s.len(),
{
    if s.len() == 0 {
        0
    } else {
        digits_value(s.drop_last()) * 10 + digit_value(s.last())
    }
}

/// `s` without the plus sign that may stand at its head.
pub open spec fn unsigned_digits(s: Seq<char>) -> Seq<char> {
    if s.len() > 0 && s[0] == '+' {
        s.skip(1)
    } else {
        s
    }
}

/// The number that `s` spells as `str::parse::<u32>` reads it: an optional
/// plus sign, then one decimal digit or more and nothing else, with a value
/// that fits in `u32`.
pub open spec fn parsed_u32(s: Seq<char>) -> Option<u32> {
    let body = unsigned_digits(s);
    if body.len() > 0 && all_digits(body) && digits_value(body) <= u32::MAX {
        Some(digits_value(body) as u32)
    } else {
        None
    }
}

/// The digits at the head of a number spell no more than all of its digits.
pub proof fn lemma_digits_value_prefix(s: Seq<char>, k: int)
    requires
        0 <= k <= s.len(),
    ensures
        digits_value(s.take(k)) <= digits_value(s),
    decreases s.len(),
{
    if k == s.len() {
        assert(s.take(k) =~= s);
    } else {
        assert(s.drop_last().take(k) =~= s.take(k));
        lemma_digits_value_prefix(s.drop_last(), k);
    }
}

/// A number that is written in base ten is read back from its digits.
pub proof fn lemma_decimal_text_is_read_back(n: nat)
    ensures
        decimal_text(n).len() >= 1,
        all_digits(decimal_text(n)),
        digits_value(decimal_text(n)) == n,
    decreases n,
{
    let text = decimal_text(n);
    if n < 10 {
        assert(text.drop_last() =~= Seq::<char>::empty());
        assert(digits_value(text.drop_last()) == 0);
    } else {
        lemma_decimal_text_is_read_back(n / 10);
        assert(text.drop_last() =~= decimal_text(n / 10));
    }
}

/// A number that is written on two digits or more is read back from them.
pub proof fn lemma_two_digit_text_is_read_back(n: nat)
    ensures
        two_digit_text(n).len() >= 2,
        all_digits(two_digit_text(n)),
        digits_value(two_digit_text(n)) == n,
{
    let text = two_digit_text(n);
    if n < 10 {
        assert(text.drop_last() =~= seq!['0']);
        assert(text.drop_last().drop_last() =~= Seq::<char>::empty());
        reveal_with_fuel(digits_value, 3);
    } else {
        lemma_decimal_text_is_read_back(n);
        lemma_decimal_text_is_read_back(n / 10);
    }
}

/// Digits are read as the number that they spell, where it fits.
pub proof fn lemma_digits_are_parsed(digits: Seq<char>)
    requires
        digits.len() >= 1,
        all_digits(digits),
        digits_value(digits) <= u32::MAX,
    ensures
        parsed_u32(digits) == Some(digits_value(digits) as u32),
{
    assert(is_digit(digits[0]));
}

/// Reads the characters of `chars` from `from` up to `to` as a `u32`.
pub fn parse_u32(chars: &Vec<char>, from: usize, to: usize) -> (value: Option<u32>)
    requires
        from <= to <= chars.len(),
    ensures
        value == parsed_u32(chars@.subrange(from as int, to as int)),
{
    let ghost field = chars@.subrange(from as int, to as int);
    let start = if from < to && chars[from] == '+' {
        from + 1
    } else {
        from
    };
    let ghost body = unsigned_digits(field);
    assert(body =~= chars@.subrange(start as int, to as int));
    if start == to {
        return None;
    }
    let mut value: u64 = 0;
    let mut i = start;
    while i < to
        invariant
            from <= start <= i <= to <= chars.len(),
            body == unsigned_digits(chars@.subrange(from as int, to as int)),
            body == chars@.subrange(start as int, to as int),
            all_digits(body.take(i - start)),
            value == digits_value(body.take(i - start)),
            value <= u32::MAX,
        decreases to - i,
    {
        let c = chars[i];
        assert(body[i - start] == c);
        if !('0' <= c && c <= '9') {
            return None;
        }
        let ghost head = body.take(i - start + 1);
        assert(head.drop_last() =~= body.take(i - start));
        assert(head.last() == c);
        value = value * 10 + (c as u32 - 48) as u64;
        if value > u32::MAX as u64 {
            proof {
                if all_digits(body) {
                    lemma_digits_value_prefix(body, i - start + 1);
                }
            }
            return None;
        }
        i += 1;
    }
    assert(body.take(i - start) =~= body);
    Some(value as u32)
}

/// The first position at or after `from` that holds `mark`, or the length of
/// `s` where there is none.
pub open spec fn field_end(s: Seq<char>, from: int, mark: char) -> int
    decreases s.len() - from,
{
    if from < 0 || from >= s.len() {
        s.len() as int
    } else if s[from] == mark {
        from
    } else {
        field_end(s, from + 1, mark)
    }
}

/// Where a field ends: at or after `from`, on the mark or at the end, with no
/// mark before it.
pub proof fn lemma_field_end(s: Seq<char>, from: int, mark: char)
    requires
        0 <= from <= s.len(),
    ensures
        from <= field_end(s, from, mark) <= s.len(),
        field_end(s, from, mark) < s.len() ==> s[field_end(s, from, mark)] == mark,
        forall|i: int| from <= i < field_end(s, from, mark) ==> #[trigger] s[i] != mark,
    decreases s.len() - from,
{
    if from < s.len() && s[from] != mark {
        lemma_field_end(s, from + 1, mark);
    }
}

/// A field ends where the mark stands, if it does not stand before.
pub proof fn lemma_field_ends_at(s: Seq<char>, from: int, mark: char, end: int)
    requires
        0 <= from <= end <= s.len(),
        end < s.len() ==> s[end] == mark,
        forall|i: int| from <= i < end ==> #[trigger] s[i] != mark,
    ensures
        field_end(s, from, mark) == end,
{
    lemma_field_end(s, from, mark);
}

/// Finds the first position at or after `from` that holds `mark`.
pub fn find_field_end(chars: &Vec<char>, from: usize, mark: char) -> (end: usize)
    requires
        from <= chars.len(),
    ensures
        end == field_end(chars@, from as int, mark),
        from <= end <= chars.len(),
{
    let mut end = from;
    while end < chars.len() && chars[end] != mark
        invariant
            from <= end <= chars.len(),
            field_end(chars@, end as int, mark) == field_end(chars@, from as int, mark),
        decreases chars.len() - end,
    {
        end += 1;
    }
    end
}

/// The position after the last character of `s` before `to` that is no
/// white space, or zero where there is none.
pub open spec fn trim_end(s: Seq<char>, to: int) -> int
    decreases to,
{
    if to <= 0 || to > s.len() {
        0
    } else if !is_space(s[to - 1]) {
        to
    } else {
        trim_end(s, to - 1)
    }
}

/// `s` without the white space at its head and at its end, as `str::trim`
/// gives it.
pub open spec fn trimmed(s: Seq<char>) -> Seq<char> {
    let start = word_start(s, 0);
    let end = trim_end(s, s.len() as int);
    if start < end {
        s.subrange(start, end)
    } else {
        Seq::empty()
    }
}

/// The fields of `s` from position `from` on, where `mark` parts one field
/// from the next. There is always one field at least; a field may be empty.
pub open spec fn fields_from(s: Seq<char>, from: int, mark: char) -> Seq<Seq<char>>
    decreases s.len() - from,
    via fields_from_decreases
{
    let end = field_end(s, from, mark);
    if 0 <= from <= end < s.len() {
        seq![s.subrange(from, end)] + fields_from(s, end + 1, mark)
    } else if 0 <= from <= s.len() {
        seq![s.subrange(from, s.len() as int)]
    } else {
        Seq::empty()
    }
}

#[via_fn]
proof fn fields_from_decreases(s: Seq<char>, from: int, mark: char) {
}

/// The fields of `s`, as `str::split` by a character gives them.
pub open spec fn fields(s: Seq<char>, mark: char) -> Seq<Seq<char>> {
    fields_from(s, 0, mark)
}

/// Splits `s` into its fields, where `mark` parts one field from the next.
pub fn split_fields(s: &str, mark: char) -> (out: Vec<String>)
    ensures
        out.deep_view() == fields(s@, mark),
{
    let chars = chars_of(s);
    let n = chars.len();
    let mut out: Vec<String> = Vec::new();
    let mut at: usize = 0;
    loop
        invariant_except_break
            out.deep_view() + fields_from(s@, at as int, mark) == fields(s@, mark),
        invariant
            chars@ == s@,
            n == chars.len(),
            at <= n,
        ensures
            out.deep_view() == fields(s@, mark),
        decreases n - at,
    {
        let end = find_field_end(&chars, at, mark);
        let field = String::from_str(s.substring_char(at, end));
        let ghost before = out.deep_view();
        let ghost rest = fields_from(s@, at as int, mark);
        out.push(field);
        assert(out.deep_view() =~= before.push(field@));
        if end >= n {
            proof {
                assert(rest =~= seq![field@]);
                assert(before.push(field@) =~= before + rest);
            }
            break;
        }
        proof {
            let later = fields_from(s@, end + 1, mark);
            assert(rest == seq![field@] + later);
            assert(before.push(field@) + later =~= before + rest);
        }
        at = end + 1;
    }
    out
}

/// Takes the white space from the head and the end of `s`.
pub fn trim(s: &str) -> (inner: &str)
    ensures
        inner@ == trimmed(s@),
{
    let chars = chars_of(s);
    let n = chars.len();
    let mut start: usize = 0;
    while start < n && char_is_space(chars[start])
        invariant
            chars@ == s@,
            n == chars.len(),
            start <= n,
            word_start(s@, start as int) == word_start(s@, 0),
        decreases n - start,
    {
        start += 1;
    }
    let mut end: usize = n;
    while end > 0 && char_is_space(chars[end - 1])
        invariant
            chars@ == s@,
            n == chars.len(),
            end <= n,
            trim_end(s@, end as int) == trim_end(s@, n as int),
        decreases end,
    {
        end -= 1;
    }
    if start < end {
        s.substring_char(start, end)
    } else {
        let inner = s.substring_char(0, 0);
        assert(inner@ =~= Seq::<char>::empty());
        inner
    }
}

} // verus!
