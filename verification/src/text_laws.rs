//! How the texts that are written relate to each other.

use crate::text;
use vstd::prelude::*;

verus! {

/// A number is written digit by digit: one more digit at the end of the text is
/// ten times the number and that digit, and a minus sign in front of it is the
/// number's negative.
pub proof fn law_decimal_grows_by_digits(a: nat, d: nat, c: char)
    requires
        d < 10,
        c as int == 48 + d,
    ensures
        text::decimal(d as int) == seq![c],
        a > 0 ==> text::decimal((10 * a + d) as int) == text::decimal(a as int).push(c),
        a > 0 ==> text::decimal(-(a as int)) == seq!['-'] + text::decimal(a as int),
{
    assert(text::digit_char(d as int) == c);
    if a > 0 {
        let n = (10 * a + d) as nat;
        assert(n / 10 == a);
        assert(n % 10 == d);
        assert(text::in_base(n, 10) == text::in_base(n / 10, 10).push(
            text::digit_char((n % 10) as int),
        ));
    }
}

/// A number is written in hexadecimal digit by digit.
pub proof fn law_hexadecimal_grows_by_digits(a: nat, d: nat, c: char)
    requires
        d < 16,
        c as int == (if d < 10 {
            48 + d
        } else {
            87 + d
        }),
    ensures
        text::hexadecimal(d) == seq![c],
        a > 0 ==> text::hexadecimal((16 * a + d) as nat) == text::hexadecimal(a).push(c),
{
    assert(text::digit_char(d as int) == c);
    if a > 0 {
        let n = (16 * a + d) as nat;
        assert(n / 16 == a);
        assert(n % 16 == d);
        assert(text::in_base(n, 16) == text::in_base(n / 16, 16).push(
            text::digit_char((n % 16) as int),
        ));
    }
}

/// What reads as a number is digits, with at most one sign before them.
pub proof fn law_only_digits_read_as_a_number(s: Seq<char>)
    requires
        text::parsed(s) is Some,
    ensures
        s.len() > 0,
        s[0] == '-' || s[0] == '+' ==> s.len() > 1,
        forall|i: int|
            0 <= i < s.len() ==> '0' <= #[trigger] s[i] <= '9' || i == 0 && (s[0] == '-' || s[0]
                == '+'),
{
    let signed = s[0] == '-' || s[0] == '+';
    if s.len() > 0 && signed {
        assert forall|i: int| 0 < i < s.len() implies '0' <= #[trigger] s[i] <= '9' by {
            assert(text::is_digit(s.skip(1)[i - 1]));
        }
    } else {
        assert forall|i: int| 0 <= i < s.len() implies '0' <= #[trigger] s[i] <= '9' by {
            assert(text::is_digit(s[i]));
        }
    }
}

/// Reading a number goes digit by digit, and a sign in front of it is its sign;
/// one that does not fit into 64 bits does not read as a number.
pub proof fn law_reading_goes_by_digits(s: Seq<char>, m: i64, d: nat, c: char)
    requires
        d < 10,
        c as int == 48 + d,
    ensures
        text::parsed(seq![c]) == Some(d as i64),
        text::parsed(s) == Some(m) && '0' <= s[0] <= '9' ==> {
            &&& 10 * m + d <= i64::MAX ==> text::parsed(s.push(c)) == Some((10 * m + d) as i64)
            &&& 10 * m + d > i64::MAX ==> text::parsed(s.push(c)) is None
            &&& text::parsed(seq!['-'] + s) == Some((-m) as i64)
            &&& text::parsed(seq!['+'] + s) == Some(m)
        },
{
    let one = seq![c];
    assert(one.drop_last() =~= Seq::<char>::empty());
    reveal_with_fuel(text::digits_value, 2);
    assert(text::digits_value(one) == d);
    assert(text::all_digits(one)) by {
        assert(text::is_digit(one[0]));
    }
    if text::parsed(s) == Some(m) && '0' <= s[0] <= '9' {
        let more = s.push(c);
        assert(more.drop_last() =~= s);
        assert(more[0] == s[0]);
        assert(text::digits_value(more) == 10 * text::digits_value(s) + d);
        assert forall|i: int| 0 <= i < more.len() implies text::is_digit(#[trigger] more[i]) by {
            if i < s.len() {
                assert(text::is_digit(s[i]));
            }
        }
        assert((seq!['-'] + s).skip(1) =~= s);
        assert((seq!['+'] + s).skip(1) =~= s);
        assert((seq!['-'] + s)[0] == '-');
        assert((seq!['+'] + s)[0] == '+');
    }
}

/// A text begins with a piece exactly where it is that piece and something more.
pub proof fn law_beginning_is_a_piece_and_the_rest(a: Seq<char>, b: Seq<char>)
    ensures
        text::begins_with(a + b, a),
        text::begins_with(a, b) ==> exists|rest: Seq<char>| a == #[trigger] (b + rest),
{
    assert((a + b).take(a.len() as int) =~= a);
    if text::begins_with(a, b) {
        let rest = a.skip(b.len() as int);
        assert(a =~= b + rest);
    }
}

/// A text holds a piece exactly where it is something, that piece, and
/// something more.
pub proof fn law_holding_is_a_piece_between(a: Seq<char>, b: Seq<char>, c: Seq<char>)
    ensures
        text::holds(a + b + c, b),
        text::holds(a, b) ==> exists|front: Seq<char>, back: Seq<char>|
            a == #[trigger] (front + b + back),
{
    let all = a + b + c;
    assert(all.subrange(a.len() as int, (a.len() + b.len()) as int) =~= b);
    assert(text::stands_at(all, b, a.len() as int));
    if text::holds(a, b) {
        let i = choose|i: int| text::stands_at(a, b, i);
        let front = a.take(i);
        let back = a.skip(i + b.len());
        assert(a =~= front + b + back);
    }
}

/// The first characters of a text are its beginning, as many as are asked for
/// or as there are.
pub proof fn law_first_characters_are_the_beginning(s: Seq<char>, n: nat)
    ensures
        text::first_chars(s, n).len() == (if s.len() < n {
            s.len()
        } else {
            n
        }),
        forall|i: int|
            0 <= i < text::first_chars(s, n).len() ==> #[trigger] text::first_chars(s, n)[i]
                == s[i],
{
}

/// Texts are put together in order, with the separator between each two and
/// nowhere else.
pub proof fn law_texts_are_joined_in_order(items: Seq<Seq<char>>, x: Seq<char>, sep: Seq<char>)
    ensures
        text::joined(Seq::empty(), sep) == Seq::<char>::empty(),
        text::joined(seq![x], sep) == x,
        items.len() > 0 ==> text::joined(items.push(x), sep) == text::joined(items, sep) + sep + x,
{
    if items.len() > 0 {
        assert(items.push(x).drop_last() =~= items);
    }
}

/// Of two texts that differ, exactly one comes before the other.
pub proof fn law_one_of_two_texts_comes_first(a: Seq<char>, b: Seq<char>)
    ensures
        a == b ==> !text::before(a, b),
        a != b ==> text::before(a, b) != text::before(b, a),
{
    text::lemma_before_irreflexive(a);
    if text::before(a, b) && text::before(b, a) {
        text::lemma_before_transitive(a, b, a);
    }
    if a != b {
        lemma_first_difference(a, b, 0);
    }
}

proof fn lemma_first_difference(a: Seq<char>, b: Seq<char>, n: int)
    requires
        0 <= n <= a.len(),
        n <= b.len(),
        forall|i: int| 0 <= i < n ==> #[trigger] a[i] == b[i],
        a != b,
    ensures
        text::before(a, b) || text::before(b, a),
    decreases a.len() - n,
{
    if n == a.len() || n == b.len() {
        if a.len() == b.len() {
            assert(a =~= b);
        } else if n == a.len() {
            assert(text::parts_at(a, b, n));
        } else {
            assert(text::parts_at(b, a, n));
        }
    } else if a[n] == b[n] {
        lemma_first_difference(a, b, n + 1);
    } else if a[n] < b[n] {
        assert(text::parts_at(a, b, n));
    } else {
        assert(text::parts_at(b, a, n));
    }
}

/// A shorter text comes before a longer one that begins with it, and a smaller
/// character decides where two texts part.
pub proof fn law_dictionary_order(a: Seq<char>, x: char, y: char, b: Seq<char>, c: Seq<char>)
    ensures
        text::before(a, a.push(x)),
        x < y ==> text::before(a.push(x) + b, a.push(y) + c),
{
    assert(text::parts_at(a, a.push(x), a.len() as int));
    if x < y {
        assert(text::parts_at(a.push(x) + b, a.push(y) + c, a.len() as int));
    }
}

/// A list is quoted item by item, with a comma between each two, in brackets.
pub proof fn law_lists_are_quoted_in_order(items: Seq<String>, s: String)
    ensures
        text::quoted_list(items) == "["@ + text::quoted_items(items) + "]"@,
        text::quoted_items(Seq::<String>::empty()) == Seq::<char>::empty(),
        text::quoted_items(seq![s]) == text::quoted(s@),
        items.len() > 0 ==> text::quoted_items(items.push(s)) == text::quoted_items(items) + ", "@
            + text::quoted(s@),
{
    assert(items.push(s).drop_last() =~= items);
}

/// A flag is written as a word.
pub proof fn law_flags_are_words()
    ensures
        text::flag_text(true) == "true"@,
        text::flag_text(false) == "false"@,
{
}

} // verus!
