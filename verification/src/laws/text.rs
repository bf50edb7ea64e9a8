//! Numbers, order and pieces of text.

use vstd::prelude::*;

use crate::text::{
    ascii_lower, contains_text, decimal, decimal_reads_back, decimal_text, decimal_wide, digit_char,
    digits_value, is_digit, is_unsigned, is_white_space, join, joined, lowered, parse_unsigned,
    pieces, pieces_nonempty, same_text, same_text_ignoring_case, split_on, split_words, strings,
    text_before, text_less, texts, trim, trimmed, trimmed_end, trimmed_start, unsigned_digits,
    words, words_so_far,
};

verus! {

/// What a row of digits is worth, each place ten times the one behind it.
pub open spec fn worth(digits: Seq<char>) -> int
    decreases digits.len(),
{
    if digits.len() == 0 {
        0
    } else {
        worth(digits.drop_last()) * 10 + (digits[digits.len() - 1] as int - 48)
    }
}

/// Whether a text is one or more decimal digits.
pub open spec fn all_digits(s: Seq<char>) -> bool {
    s.len() > 0 && forall|i: int| 0 <= i < s.len() ==> 48 <= #[trigger] (s[i] as int) <= 57
}

/// Whether a text is a number written in decimal, without leading zeros.
pub open spec fn is_numeral(s: Seq<char>, n: int) -> bool {
    all_digits(s) && worth(s) == n && (s.len() > 1 ==> s[0] != '0')
}

proof fn worth_is_value(s: Seq<char>)
    requires
        forall|i: int| 0 <= i < s.len() ==> 48 <= #[trigger] (s[i] as int) <= 57,
    ensures
        worth(s) == digits_value(s),
    decreases s.len(),
{
    if s.len() > 0 {
        let rest = s.drop_last();
        assert forall|i: int| 0 <= i < rest.len() implies 48 <= #[trigger] (rest[i] as int)
            <= 57 by {
            assert(rest[i] == s[i]);
            assert(48 <= s[i] as int <= 57);
        }
        worth_is_value(rest);
        assert(48 <= s[s.len() - 1] as int <= 57);
    }
}

proof fn worth_is_positive(s: Seq<char>)
    requires
        all_digits(s),
        s[0] != '0',
    ensures
        worth(s) > 0,
    decreases s.len(),
{
    let rest = s.drop_last();
    assert(48 <= s[s.len() - 1] as int <= 57);
    if rest.len() > 0 {
        assert forall|i: int| 0 <= i < rest.len() implies 48 <= #[trigger] (rest[i] as int)
            <= 57 by {
            assert(rest[i] == s[i]);
            assert(48 <= s[i] as int <= 57);
        }
        worth_is_positive(rest);
    } else {
        assert(worth(rest) == 0);
    }
}

/// A number is written in decimal by its numeral, and by nothing else.
pub proof fn numbers_are_written_as_numerals(s: Seq<char>, n: nat)
    ensures
        s == decimal_text(n) <==> is_numeral(s, n as int),
    decreases n,
{
    if s == decimal_text(n) {
        decimal_reads_back(n);
        assert forall|i: int| 0 <= i < s.len() implies 48 <= #[trigger] (s[i] as int) <= 57 by {
            assert(is_digit(s[i]));
        }
        worth_is_value(s);
        no_leading_zero(n);
    }
    if is_numeral(s, n as int) {
        let rest = s.drop_last();
        let last = s[s.len() - 1];
        assert(48 <= last as int <= 57);
        assert(s =~= rest.push(last));
        if rest.len() == 0 {
            assert(worth(rest) == 0);
            assert(n < 10);
            assert(digit_char(n) == last);
            assert(s =~= seq![last]);
        } else {
            assert forall|i: int| 0 <= i < rest.len() implies 48 <= #[trigger] (rest[i] as int)
                <= 57 by {
                assert(rest[i] == s[i]);
                assert(48 <= s[i] as int <= 57);
            }
            worth_is_positive(rest);
            assert(n >= 10);
            assert(worth(rest) == n / 10);
            assert(last as int - 48 == n % 10);
            numbers_are_written_as_numerals(rest, n / 10);
            assert(digit_char(n % 10) == last);
        }
    }
}

proof fn no_leading_zero(n: nat)
    ensures
        decimal_text(n).len() > 1 ==> decimal_text(n)[0] != '0',
        n > 0 ==> decimal_text(n)[0] != '0',
        decimal_text(n).len() > 0,
    decreases n,
{
    if n >= 10 {
        no_leading_zero(n / 10);
    }
}

/// Writing a number gives its numeral.
pub proof fn written_numbers_are_numerals(n: u64, r: String, m: u128, w: String)
    requires
        call_ensures(decimal, (n,), r),
        call_ensures(decimal_wide, (m,), w),
    ensures
        is_numeral(r@, n as int),
        is_numeral(w@, m as int),
{
    numbers_are_written_as_numerals(r@, n as nat);
    numbers_are_written_as_numerals(w@, m as nat);
}

/// A text is read as a number exactly where it is made of digits, with a plus
/// sign before them or none, and is worth no more than the limit.
pub proof fn digits_are_read_by_their_worth(s: &Vec<char>, max: u64, r: Option<u64>)
    requires
        call_ensures(parse_unsigned, (s, max), r),
    ensures
        r matches Some(n) ==> n <= max && ((all_digits(s@) && worth(s@) == n) || (s@.len() > 0
            && s@[0] == '+' && all_digits(s@.skip(1)) && worth(s@.skip(1)) == n)),
        r is None ==> !(all_digits(s@) && worth(s@) <= max) && !(s@.len() > 0 && s@[0] == '+'
            && all_digits(s@.skip(1)) && worth(s@.skip(1)) <= max),
{
    let digits = unsigned_digits(s@);
    if r is Some {
        assert forall|i: int| 0 <= i < digits.len() implies 48 <= #[trigger] (digits[i] as int)
            <= 57 by {
            assert(is_digit(digits[i]));
        }
        worth_is_value(digits);
    } else {
        if all_digits(s@) && worth(s@) <= max {
            assert(48 <= s@[0] as int <= 57);
            assert(digits == s@);
            worth_is_value(s@);
            assert forall|i: int| 0 <= i < digits.len() implies is_digit(#[trigger] digits[i]) by {
                assert(48 <= s@[i] as int <= 57);
            }
        }
        if s@.len() > 0 && s@[0] == '+' && all_digits(s@.skip(1)) && worth(s@.skip(1)) <= max {
            assert(digits == s@.skip(1));
            worth_is_value(digits);
            assert forall|i: int| 0 <= i < digits.len() implies is_digit(#[trigger] digits[i]) by {
                assert(48 <= digits[i] as int <= 57);
            }
        }
    }
}

/// A text is an unsigned number exactly where it is made of digits, with a plus
/// sign before them or none, that are worth no more than the limit.
pub proof fn digits_are_unsigned(s: Seq<char>, max: nat)
    ensures
        is_unsigned(s, max) <==> (all_digits(s) && worth(s) <= max) || (s.len() > 0 && s[0] == '+'
            && all_digits(s.skip(1)) && worth(s.skip(1)) <= max),
        all_digits(s) ==> worth(s) == digits_value(unsigned_digits(s)),
        s.len() > 0 && s[0] == '+' && all_digits(s.skip(1)) ==> !all_digits(s) && worth(s.skip(1))
            == digits_value(unsigned_digits(s)),
{
    let digits = unsigned_digits(s);
    if is_unsigned(s, max) {
        assert forall|i: int| 0 <= i < digits.len() implies 48 <= #[trigger] (digits[i] as int)
            <= 57 by {
            assert(is_digit(digits[i]));
        }
        worth_is_value(digits);
    }
    if all_digits(s) {
        assert(48 <= s[0] as int <= 57);
        worth_is_value(s);
        assert forall|i: int| 0 <= i < digits.len() implies is_digit(#[trigger] digits[i]) by {
            assert(48 <= s[i] as int <= 57);
        }
    }
    if s.len() > 0 && s[0] == '+' && all_digits(s.skip(1)) {
        worth_is_value(digits);
        assert(!(48 <= s[0] as int <= 57));
        assert forall|i: int| 0 <= i < digits.len() implies is_digit(#[trigger] digits[i]) by {
            assert(48 <= digits[i] as int <= 57);
        }
    }
}

/// Texts are equal where they hold the same characters.
pub proof fn equal_texts_hold_the_same(a: &str, b: &str, r: bool)
    requires
        call_ensures(same_text, (a, b), r),
    ensures
        r <==> a@.len() == b@.len() && forall|i: int|
            0 <= i < a@.len() ==> #[trigger] a@[i] == b@[i],
{
    if a@.len() == b@.len() && forall|i: int| 0 <= i < a@.len() ==> #[trigger] a@[i] == b@[i] {
        assert(a@ =~= b@);
    }
}

/// Whether a text goes on where another ends, or has the larger character where
/// they first differ.
pub open spec fn goes_first(a: Seq<char>, b: Seq<char>) -> bool {
    exists|k: int|
        0 <= k <= a.len() && k < b.len() && #[trigger] a.take(k) == b.take(k) && (k == a.len() || (
        a[k] as int) < (b[k] as int))
}

/// Texts are in the order of their first difference.
pub proof fn order_is_by_first_difference(a: Seq<char>, b: Seq<char>)
    ensures
        text_less(a, b) <==> goes_first(a, b),
    decreases a.len(),
{
    if b.len() == 0 {
    } else if a.len() == 0 {
        assert(a.take(0) =~= b.take(0));
    } else if a[0] != b[0] {
        assert(a.take(0) =~= b.take(0));
        if goes_first(a, b) {
            let k = choose|k: int|
                0 <= k <= a.len() && k < b.len() && #[trigger] a.take(k) == b.take(k) && (k
                    == a.len() || (a[k] as int) < (b[k] as int));
            if k > 0 {
                assert(a.take(k)[0] == b.take(k)[0]);
            }
        }
    } else {
        let x = a.skip(1);
        let y = b.skip(1);
        order_is_by_first_difference(x, y);
        if goes_first(x, y) {
            let k = choose|k: int|
                0 <= k <= x.len() && k < y.len() && #[trigger] x.take(k) == y.take(k) && (k
                    == x.len() || (x[k] as int) < (y[k] as int));
            assert(a.take(k + 1) =~= seq![a[0]] + x.take(k));
            assert(b.take(k + 1) =~= seq![b[0]] + y.take(k));
            assert(a.take(k + 1) == b.take(k + 1));
        }
        if goes_first(a, b) {
            let k = choose|k: int|
                0 <= k <= a.len() && k < b.len() && #[trigger] a.take(k) == b.take(k) && (k
                    == a.len() || (a[k] as int) < (b[k] as int));
            assert(k > 0);
            assert(x.take(k - 1) =~= a.take(k).skip(1));
            assert(y.take(k - 1) =~= b.take(k).skip(1));
            assert(x.take(k - 1) == y.take(k - 1));
        }
    }
}

/// Texts are in the order of their first difference.
pub proof fn texts_are_ordered_by_their_first_difference(a: &str, b: &str, r: bool)
    requires
        call_ensures(text_before, (a, b), r),
    ensures
        r <==> goes_first(a@, b@),
{
    order_is_by_first_difference(a@, b@);
}

/// Texts are equal up to case where each character is the same, or the same
/// letter of the English alphabet.
pub proof fn case_is_ignored_letter_by_letter(a: &str, b: &str, r: bool)
    requires
        call_ensures(same_text_ignoring_case, (a, b), r),
    ensures
        r <==> a@.len() == b@.len() && forall|i: int|
            0 <= i < a@.len() ==> same_letter(#[trigger] a@[i], b@[i]),
{
    let x = lowered(a@);
    let y = lowered(b@);
    assert forall|i: int| 0 <= i < a@.len() && i < b@.len() implies (x[i] == y[i] <==> same_letter(
        #[trigger] a@[i],
        b@[i],
    )) by {
        lower_is_same_letter(a@[i], b@[i]);
        assert(x[i] == ascii_lower(a@[i]));
        assert(y[i] == ascii_lower(b@[i]));
    }
    if a@.len() == b@.len() && forall|i: int|
        0 <= i < a@.len() ==> same_letter(#[trigger] a@[i], b@[i]) {
        assert(x =~= y);
    }
    if r {
        assert(x.len() == a@.len() && y.len() == b@.len());
        assert forall|i: int| 0 <= i < a@.len() implies same_letter(#[trigger] a@[i], b@[i]) by {
            assert(x[i] == y[i]);
        }
    }
}

/// Whether two characters are the same, or one letter in two cases.
pub open spec fn same_letter(a: char, b: char) -> bool {
    a == b || (65 <= a as int <= 90 && b as int == a as int + 32) || (65 <= b as int <= 90
        && a as int == b as int + 32)
}

proof fn lower_is_same_letter(a: char, b: char)
    ensures
        ascii_lower(a) == ascii_lower(b) <==> same_letter(a, b),
{
    lower_is_shifted(a);
    lower_is_shifted(b);
}

proof fn lower_is_shifted(a: char)
    ensures
        65 <= a as int <= 90 ==> ascii_lower(a) as int == a as int + 32,
        !(65 <= a as int <= 90) ==> ascii_lower(a) == a,
{
}

/// Whether a character is white space.
pub open spec fn is_blank(c: char) -> bool {
    9 <= c as int <= 13 || c as int == 32 || c as int == 0x85 || c as int == 0xa0 || c as int
        == 0x1680 || 0x2000 <= c as int <= 0x200a || c as int == 0x2028 || c as int == 0x2029
        || c as int == 0x202f || c as int == 0x205f || c as int == 0x3000
}

proof fn start_is_trimmed(s: Seq<char>) -> (k: int)
    ensures
        0 <= k <= s.len(),
        trimmed_start(s) == s.skip(k),
        forall|i: int| 0 <= i < k ==> is_blank(#[trigger] s[i]),
        k < s.len() ==> !is_blank(s[k]),
    decreases s.len(),
{
    if s.len() > 0 && is_white_space(s[0]) {
        let rest = s.skip(1);
        let k = start_is_trimmed(rest);
        assert(rest.skip(k) =~= s.skip(k + 1));
        assert forall|i: int| 0 <= i < k + 1 implies is_blank(#[trigger] s[i]) by {
            if i > 0 {
                assert(is_blank(rest[i - 1]));
            }
        }
        if k + 1 < s.len() {
            assert(rest[k] == s[k + 1]);
        }
        k + 1
    } else {
        assert(s.skip(0) =~= s);
        0
    }
}

proof fn end_is_trimmed(s: Seq<char>) -> (k: int)
    ensures
        0 <= k <= s.len(),
        trimmed_end(s) == s.take(k),
        forall|i: int| k <= i < s.len() ==> is_blank(#[trigger] s[i]),
        k > 0 ==> !is_blank(s[k - 1]),
    decreases s.len(),
{
    if s.len() > 0 && is_white_space(s.last()) {
        let rest = s.drop_last();
        let k = end_is_trimmed(rest);
        assert(rest.take(k) =~= s.take(k));
        assert forall|i: int| k <= i < s.len() implies is_blank(#[trigger] s[i]) by {
            if i < rest.len() {
                assert(is_blank(rest[i]));
            }
        }
        if k > 0 {
            assert(rest[k - 1] == s[k - 1]);
        }
        k
    } else {
        assert(s.take(s.len() as int) =~= s);
        s.len() as int
    }
}

/// Whether a text is what is left of another without the white space around it.
pub open spec fn is_trimmed_of(r: Seq<char>, s: Seq<char>) -> bool {
    &&& exists|from: int, to: int|
        0 <= from <= to <= s.len() && r == #[trigger] s.subrange(from, to) && (forall|i: int|
            0 <= i < from ==> is_blank(#[trigger] s[i])) && forall|i: int|
            to <= i < s.len() ==> is_blank(#[trigger] s[i])
    &&& r.len() > 0 ==> !is_blank(r[0]) && !is_blank(r[r.len() - 1])
}

/// Trimming drops the white space around a text and nothing else.
pub proof fn trimming_drops_white_space_around(s: &Vec<char>, r: Vec<char>)
    requires
        call_ensures(trim, (s,), r),
    ensures
        is_trimmed_of(r@, s@),
{
    trimmed_texts(s@);
}

/// A trimmed text is the text without the white space around it.
pub proof fn trimmed_texts(s: Seq<char>)
    ensures
        is_trimmed_of(trimmed(s), s),
{
    let from = start_is_trimmed(s);
    let middle = s.skip(from);
    let count = end_is_trimmed(middle);
    let to = from + count;
    let r = trimmed(s);
    assert(r =~= s.subrange(from, to));
    assert forall|i: int| to <= i < s.len() implies is_blank(#[trigger] s[i]) by {
        assert(middle[i - from] == s[i]);
        assert(is_blank(middle[i - from]));
    }
    if r.len() > 0 {
        assert(r[0] == s[from]);
        assert(r[r.len() - 1] == middle[count - 1]);
    }
}

/// Split pieces, joined by the separator, give the text back, and no piece holds
/// a separator.
pub proof fn pieces_join_to_the_text(s: &Vec<char>, separator: char, r: Vec<Vec<char>>)
    requires
        call_ensures(split_on, (s, separator), r),
    ensures
        r@.len() > 0,
        joined(texts(r@), seq![separator]) == s@,
        forall|i: int| 0 <= i < r@.len() ==> !(#[trigger] r@[i])@.contains(separator),
{
    pieces_are_between_separators(s@, separator);
    assert forall|i: int| 0 <= i < r@.len() implies !(#[trigger] r@[i])@.contains(separator) by {
        assert(texts(r@)[i] == r@[i]@);
    }
}

/// The pieces of a text hold no separator, and joined by it are the text.
pub proof fn pieces_are_between_separators(s: Seq<char>, separator: char)
    ensures
        pieces(s, separator).len() > 0,
        joined(pieces(s, separator), seq![separator]) == s,
        forall|i: int|
            0 <= i < pieces(s, separator).len() ==> !(#[trigger] pieces(s, separator)[i]).contains(
                separator,
            ),
    decreases s.len(),
{
    pieces_nonempty(s, separator);
    let list = pieces(s, separator);
    if s.len() == 0 {
        assert(joined(list, seq![separator]) =~= s);
    } else {
        let rest = s.drop_last();
        let before = pieces(rest, separator);
        let last = s[s.len() - 1];
        pieces_are_between_separators(rest, separator);
        assert(s =~= rest.push(last));
        if last == separator {
            assert(list.drop_last() =~= before);
            assert(list.last() =~= Seq::<char>::empty());
            assert(joined(list, seq![separator]) =~= rest + seq![separator] + Seq::<char>::empty());
            assert forall|i: int| 0 <= i < list.len() implies !(#[trigger] list[i]).contains(
                separator,
            ) by {
                if i < before.len() {
                    assert(list[i] == before[i]);
                }
            }
        } else {
            let open = before.last();
            assert(list.drop_last() =~= before.drop_last());
            assert(list.last() == open.push(last));
            if before.len() == 1 {
                assert(joined(before, seq![separator]) == open);
            }
            assert(joined(list, seq![separator]) =~= rest.push(last));
            assert(!before[before.len() - 1].contains(separator));
            assert forall|i: int| 0 <= i < list.len() implies !(#[trigger] list[i]).contains(
                separator,
            ) by {
                if i < before.len() - 1 {
                    assert(list[i] == before[i]);
                } else if list[i].contains(separator) {
                    let k = choose|k: int| 0 <= k < list[i].len() && list[i][k] == separator;
                    assert(open[k] == separator);
                }
            }
        }
    }
}

/// Joining puts the separator between the texts: there is nothing in an empty
/// list, one text stands alone, and one more comes behind a separator.
pub proof fn joining_puts_separators_between(
    list: &Vec<String>,
    separator: &str,
    r: String,
    more: &Vec<String>,
    last: String,
    s: String,
)
    requires
        call_ensures(join, (list, separator), r),
        call_ensures(join, (more, separator), s),
        more@ == list@.push(last),
    ensures
        list@.len() == 0 ==> r@ == Seq::<char>::empty() && s@ == last@,
        list@.len() > 0 ==> s@ == r@ + separator@ + last@,
{
    assert(strings(more@) =~= strings(list@).push(last@));
    assert(strings(more@).drop_last() =~= strings(list@));
}

/// A text is in another where the other is what is before it, it, and what is
/// behind it.
pub proof fn texts_are_found_where_they_stand(whole: &str, part: &str, r: bool)
    requires
        call_ensures(contains_text, (whole, part), r),
    ensures
        r <==> exists|a: Seq<char>, b: Seq<char>| whole@ == #[trigger] (a + part@ + b),
{
    let w = whole@;
    let p = part@;
    if r {
        let i = choose|i: int|
            0 <= i <= w.len() - p.len() && #[trigger] w.subrange(i, i + p.len()) == p;
        assert(w =~= w.take(i) + p + w.skip(i + p.len()));
    }
    if exists|a: Seq<char>, b: Seq<char>| w == #[trigger] (a + p + b) {
        let (a, b) = choose|a: Seq<char>, b: Seq<char>| w == #[trigger] (a + p + b);
        let i = a.len() as int;
        assert(w.subrange(i, i + p.len()) =~= p);
    }
}

/// Whether a character parts words.
pub open spec fn parts_words(c: char) -> bool {
    c as int == 32 || c as int == 9 || c as int == 10 || c as int == 12 || c as int == 13
}

/// A text without white space is one word, unless it is empty, and white space
/// parts the words before it from those behind it.
pub proof fn words_are_parted_by_white_space(a: Seq<char>, b: Seq<char>, space: char)
    requires
        parts_words(space),
    ensures
        words(Seq::<char>::empty()) == Seq::<Seq<char>>::empty(),
        a.len() > 0 && (forall|i: int| 0 <= i < a.len() ==> !parts_words(#[trigger] a[i]))
            ==> words(a) == seq![a],
        words(a.push(space) + b) == words(a) + words(b),
{
    assert(words_so_far(Seq::<char>::empty()) == (Seq::<Seq<char>>::empty(), Seq::<char>::empty()));
    if forall|i: int| 0 <= i < a.len() ==> !parts_words(#[trigger] a[i]) {
        one_word(a);
        if a.len() > 0 {
            assert(words(a) =~= seq![a]);
        }
    }
    words_after(a, b, space);
    let (done, current) = words_so_far(b);
    assert(words(a.push(space) + b) =~= words(a) + words(b));
}

proof fn one_word(a: Seq<char>)
    requires
        forall|i: int| 0 <= i < a.len() ==> !parts_words(#[trigger] a[i]),
    ensures
        words_so_far(a) == (Seq::<Seq<char>>::empty(), a),
    decreases a.len(),
{
    if a.len() > 0 {
        let rest = a.drop_last();
        assert forall|i: int| 0 <= i < rest.len() implies !parts_words(#[trigger] rest[i]) by {
            assert(!parts_words(a[i]));
        }
        one_word(rest);
        assert(!parts_words(a[a.len() - 1]));
        assert(a =~= rest.push(a[a.len() - 1]));
    } else {
        assert(a =~= Seq::<char>::empty());
    }
}

proof fn words_after(a: Seq<char>, b: Seq<char>, space: char)
    requires
        parts_words(space),
    ensures
        words_so_far(a.push(space) + b) == (words(a) + words_so_far(b).0, words_so_far(b).1),
    decreases b.len(),
{
    let whole = a.push(space) + b;
    if b.len() == 0 {
        assert(whole =~= a.push(space));
        assert(whole.drop_last() =~= a);
        assert(whole.last() == space);
        assert(words(a) + Seq::<Seq<char>>::empty() =~= words(a));
        let (done, current) = words_so_far(a);
        if current.len() == 0 {
            assert(current =~= Seq::<char>::empty());
        }
    } else {
        words_after(a, b.drop_last(), space);
        assert(whole.drop_last() =~= a.push(space) + b.drop_last());
        assert(whole.last() == b.last());
        let (done, current) = words_so_far(b.drop_last());
        assert(words(a) + done.push(current) =~= (words(a) + done).push(current));
    }
}

/// Splitting a text with white space in the middle gives the words before it and
/// then those behind it.
pub proof fn splitting_parts_words(
    a: &Vec<char>,
    b: &Vec<char>,
    whole: &Vec<char>,
    space: char,
    ra: Vec<Vec<char>>,
    rb: Vec<Vec<char>>,
    r: Vec<Vec<char>>,
)
    requires
        parts_words(space),
        whole@ == a@.push(space) + b@,
        call_ensures(split_words, (a,), ra),
        call_ensures(split_words, (b,), rb),
        call_ensures(split_words, (whole,), r),
    ensures
        texts(r@) == texts(ra@) + texts(rb@),
        a@.len() == 0 ==> ra@.len() == 0,
        a@.len() > 0 && (forall|i: int| 0 <= i < a@.len() ==> !parts_words(#[trigger] a@[i]))
            ==> texts(ra@) == seq![a@],
{
    words_are_parted_by_white_space(a@, b@, space);
    if a@.len() == 0 {
        assert(a@ =~= Seq::<char>::empty());
        assert(texts(ra@).len() == ra@.len());
    }
}

} // verus!
