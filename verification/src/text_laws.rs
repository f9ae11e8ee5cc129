//! What holds of texts and numbers, however they are put together.

use vstd::prelude::*;

use crate::split::{begins_with, ends_in, joined, last_part, occurs, occurs_at, parts};
use crate::text::{
    decimal, first_chars, in_uppercase, integer, is_space, last_chars, padded_left, padded_right,
    parsed, repeated, trimmed, trimmed_end, trimmed_end_of, trimmed_start, utf8_len,
};

verus! {

/// Repeating a character gives that many of it and nothing else.
pub proof fn law_repeated(c: char, n: nat)
    ensures
        repeated(c, n).len() == n,
        forall|i: int| 0 <= i < n ==> #[trigger] repeated(c, n)[i] == c,
{
}

/// A text padded on its right begins with itself, goes on with spaces alone, and is as long as
/// was asked for, or as it was where that is longer.
pub proof fn law_padded_right(s: Seq<char>, width: nat)
    ensures
        padded_right(s, width).len() == if s.len() < width {
            width
        } else {
            s.len()
        },
        padded_right(s, width).take(s.len() as int) == s,
        forall|i: int|
            s.len() <= i < padded_right(s, width).len() ==> #[trigger] padded_right(s, width)[i]
                == ' ',
{
    assert(padded_right(s, width).take(s.len() as int) =~= s);
}

/// A text padded on its left ends with itself, has spaces alone in front, and is as long as was
/// asked for, or as it was where that is longer.
pub proof fn law_padded_left(s: Seq<char>, width: nat)
    ensures
        padded_left(s, width).len() == if s.len() < width {
            width
        } else {
            s.len()
        },
        padded_left(s, width).skip(padded_left(s, width).len() - s.len()) == s,
        forall|i: int|
            0 <= i < padded_left(s, width).len() - s.len() ==> #[trigger] padded_left(s, width)[i]
                == ' ',
{
    assert(padded_left(s, width).skip(padded_left(s, width).len() - s.len()) =~= s);
}

/// Cutting a text off keeps its beginning: all of it where it is short enough, and otherwise as
/// many characters as there is room for.
pub proof fn law_first_chars(s: Seq<char>, n: nat)
    ensures
        s.len() <= n ==> first_chars(s, n) == s,
        s.len() > n ==> first_chars(s, n).len() == n,
        forall|i: int|
            0 <= i < first_chars(s, n).len() ==> i < s.len() && #[trigger] first_chars(s, n)[i]
                == s[i],
{
    if s.len() <= n {
        assert(first_chars(s, n) =~= s);
    }
}

/// Keeping the end of a text keeps all of it where it is short enough, and otherwise as many
/// of its last characters as there is room for.
pub proof fn law_last_chars(s: Seq<char>, n: nat)
    ensures
        s.len() <= n ==> last_chars(s, n) == s,
        s.len() > n ==> last_chars(s, n).len() == n,
        forall|i: int|
            0 <= i < last_chars(s, n).len() ==> #[trigger] last_chars(s, n)[i] == s[s.len()
                - last_chars(s, n).len() + i],
{
    if s.len() <= n {
        assert(last_chars(s, n) =~= s);
    }
}

/// Numbers are written by the ten digits, most significant first: one below ten is its digit,
/// and ten times a number plus a digit is that number with the digit behind it.
pub proof fn law_decimal_digits(n: nat, d: nat)
    requires
        d < 10,
    ensures
        decimal(d) == seq!["0123456789"@[d as int]],
        n > 0 ==> decimal(10 * n + d) == decimal(n).push("0123456789"@[d as int]),
{
    reveal_strlit("0123456789");
    assert((10 * n + d) / 10 == n && (10 * n + d) % 10 == d) by (nonlinear_arith)
        requires
            d < 10,
    ;
    assert("0123456789"@[d as int] == crate::text::digit_char(d as int)) by {
        assert(d == 0 || d == 1 || d == 2 || d == 3 || d == 4 || d == 5 || d == 6 || d == 7 || d
            == 8 || d == 9);
    }
}

/// A negative number has a minus sign in front of what it is without it; others have none.
pub proof fn law_integer_sign(n: nat)
    ensures
        integer(n as int) == decimal(n),
        n > 0 ==> integer(-(n as int)) == seq!['-'] + decimal(n),
{
}

/// Only digits are read as a number, with a plus sign in front at most: a text that holds
/// anything else, or nothing at all, is none. A plus sign changes nothing.
pub proof fn law_only_digits_are_read(s: Seq<char>, i: int, max: nat)
    requires
        0 <= i < s.len(),
    ensures
        parsed(Seq::<char>::empty(), max) is None,
        !('0' <= s[i] <= '9') && (i > 0 || s[i] != '+') ==> parsed(s, max) is None,
        '0' <= s[0] <= '9' ==> parsed(seq!['+'] + s, max) == parsed(s, max),
{
    let body = crate::text::without_plus(s);
    if !('0' <= s[i] <= '9') && (i > 0 || s[i] != '+') {
        if s[0] == '+' {
            assert(body[i - 1] == s[i]);
            assert(!crate::text::is_digit(body[i - 1]));
        } else {
            assert(!crate::text::is_digit(body[i]));
        }
    }
    assert((seq!['+'] + s).drop_first() =~= s);
}

/// A number that is read is what its digits say: with a digit more at its end it is ten times
/// as much and that digit, as long as that is within the limit, and no number beyond it.
pub proof fn law_read_digit_by_digit(s: Seq<char>, n: nat, d: nat, max: nat)
    requires
        d < 10,
        parsed(s, max) == Some(n),
    ensures
        n <= max,
        parsed(s.push("0123456789"@[d as int]), max) == if 10 * n + d <= max {
            Some(10 * n + d)
        } else {
            None
        },
{
    reveal_strlit("0123456789");
    let c = "0123456789"@[d as int];
    assert(c as nat - '0' as nat == d && '0' <= c <= '9') by {
        assert(d == 0 || d == 1 || d == 2 || d == 3 || d == 4 || d == 5 || d == 6 || d == 7 || d
            == 8 || d == 9);
    }
    let body = crate::text::without_plus(s);
    let longer = crate::text::without_plus(s.push(c));
    assert(longer =~= body.push(c));
    assert(longer.drop_last() =~= body);
    assert forall|i: int| 0 <= i < longer.len() implies crate::text::is_digit(
        #[trigger] longer[i],
    ) by {
        if i < body.len() {
            assert(crate::text::is_digit(body[i]));
        }
    }
}

/// The limit decides only whether a number is read, not which: a text that is read under one
/// limit is read as the same number under another, unless it is beyond that.
pub proof fn law_limit_of_reading(s: Seq<char>, max: nat, other: nat)
    ensures
        parsed(s, max) matches Some(n) ==> n <= max && parsed(s, other) == if n <= other {
            Some(n)
        } else {
            None
        },
{
}

/// Spaces, tabs and line ends are white space, and so are the other characters that Unicode
/// calls so; letters, digits and signs are not.
pub proof fn law_space(c: char)
    ensures
        c == ' ' || c == '\t' || c == '\n' || c == '\r' ==> is_space(c),
        '!' <= c <= '~' ==> !is_space(c),
        is_space(c) <==> ({
            let code = c as int;
            9 <= code <= 13 || code == 32 || code == 0x85 || code == 0xa0 || code == 0x1680
                || 0x2000 <= code <= 0x200a || 0x2028 <= code <= 0x2029 || code == 0x202f || code
                == 0x205f || code == 0x3000
        }),
{
}

/// Trimming takes off white space at both ends and nothing else.
pub proof fn law_trimmed(s: Seq<char>)
    ensures
        exists|from: int, to: int|
            #![trigger s.subrange(from, to)]
            {
                &&& 0 <= from <= to <= s.len()
                &&& trimmed(s) == s.subrange(from, to)
                &&& forall|i: int| 0 <= i < from ==> is_space(#[trigger] s[i])
                &&& forall|i: int| to <= i < s.len() ==> is_space(#[trigger] s[i])
            },
        trimmed(s).len() > 0 ==> !is_space(trimmed(s)[0]) && !is_space(trimmed(s).last()),
{
    let a = trimmed_start(s);
    let b = trimmed_end(a);
    lemma_trimmed_start(s);
    lemma_trimmed_end(a);
    let from = s.len() - a.len();
    let to = from + b.len();
    assert(b =~= s.subrange(from, to)) by {
        assert forall|i: int| 0 <= i < b.len() implies b[i] == s[from + i] by {
            assert(a[i] == s.skip(from)[i]);
            assert(b[i] == a.take(b.len() as int)[i]);
        }
    }
    assert forall|i: int| to <= i < s.len() implies is_space(#[trigger] s[i]) by {
        assert(a[i - from] == s.skip(from)[i - from]);
        assert(is_space(a[i - from]));
    }
    if b.len() > 0 {
        assert(b[0] == a[0]);
    }
}

/// A text that neither begins nor ends with white space comes out of any white space around it.
pub proof fn law_trimmed_within(left: Seq<char>, s: Seq<char>, right: Seq<char>)
    requires
        s.len() > 0 ==> !is_space(s[0]) && !is_space(s.last()),
        forall|i: int| 0 <= i < left.len() ==> is_space(#[trigger] left[i]),
        forall|i: int| 0 <= i < right.len() ==> is_space(#[trigger] right[i]),
    ensures
        trimmed(left + s + right) == s,
{
    let whole = left + s + right;
    law_trimmed(whole);
    let t = trimmed(whole);
    let (from, to) = choose|from: int, to: int|
        #![trigger whole.subrange(from, to)]
        {
            &&& 0 <= from <= to <= whole.len()
            &&& t == whole.subrange(from, to)
            &&& forall|i: int| 0 <= i < from ==> is_space(#[trigger] whole[i])
            &&& forall|i: int| to <= i < whole.len() ==> is_space(#[trigger] whole[i])
        };
    if s.len() == 0 {
        if t.len() > 0 {
            assert(t[0] == whole[from]);
            if from < left.len() {
                assert(is_space(left[from]));
            } else {
                assert(whole[from] == right[from - left.len()]);
            }
        }
        assert(t =~= s);
    } else {
        let first = left.len() as int;
        let last = left.len() + s.len() - 1;
        assert(whole[first] == s[0]);
        assert(whole[last] == s.last());
        assert(from <= first && last < to);
        assert(t[0] == whole[from]);
        assert(t.last() == whole[to - 1]);
        if from < first {
            assert(whole[from] == left[from]);
        }
        if to - 1 > last {
            assert(whole[to - 1] == right[to - 1 - left.len() - s.len()]);
        }
        assert(t =~= s);
    }
}

proof fn lemma_trimmed_start(s: Seq<char>)
    ensures
        trimmed_start(s).len() <= s.len(),
        trimmed_start(s) == s.skip(s.len() - trimmed_start(s).len()),
        forall|i: int| 0 <= i < s.len() - trimmed_start(s).len() ==> is_space(#[trigger] s[i]),
        trimmed_start(s).len() > 0 ==> !is_space(trimmed_start(s)[0]),
    decreases s.len(),
{
    if s.len() > 0 && is_space(s[0]) {
        let rest = s.drop_first();
        let t = trimmed_start(rest);
        lemma_trimmed_start(rest);
        assert(rest.skip(rest.len() - t.len()) =~= s.skip(s.len() - t.len()));
        assert forall|i: int| 0 <= i < s.len() - t.len() implies is_space(#[trigger] s[i]) by {
            if i > 0 {
                assert(is_space(rest[i - 1]));
            }
        }
    } else {
        assert(s.skip(0) =~= s);
    }
}

proof fn lemma_trimmed_end(s: Seq<char>)
    ensures
        trimmed_end(s).len() <= s.len(),
        trimmed_end(s) == s.take(trimmed_end(s).len() as int),
        forall|i: int| trimmed_end(s).len() <= i < s.len() ==> is_space(#[trigger] s[i]),
        trimmed_end(s).len() > 0 ==> !is_space(trimmed_end(s).last()),
    decreases s.len(),
{
    if s.len() > 0 && is_space(s.last()) {
        let rest = s.drop_last();
        let t = trimmed_end(rest);
        lemma_trimmed_end(rest);
        assert(rest.take(t.len() as int) =~= s.take(t.len() as int));
        assert forall|i: int| t.len() <= i < s.len() implies is_space(#[trigger] s[i]) by {
            if i < rest.len() {
                assert(is_space(rest[i]));
            }
        }
    } else {
        assert(s.take(s.len() as int) =~= s);
    }
}

/// Taking a character off the end of a text takes off all of it there and nothing else.
pub proof fn law_trimmed_end_of(s: Seq<char>, c: char, n: nat)
    requires
        s.len() == 0 || s.last() != c,
    ensures
        trimmed_end_of(s + repeated(c, n), c) == s,
    decreases n,
{
    if n == 0 {
        assert(s + repeated(c, n) =~= s);
    } else {
        law_trimmed_end_of(s, c, (n - 1) as nat);
        assert((s + repeated(c, n)).drop_last() =~= s + repeated(c, (n - 1) as nat));
    }
}

/// In upper case a text of ASCII characters keeps its length, its small letters become the
/// capital ones, and the rest stays as it is.
pub proof fn law_uppercase(s: Seq<char>)
    requires
        forall|i: int| 0 <= i < s.len() ==> '\0' <= #[trigger] s[i] <= '\u{7f}',
    ensures
        in_uppercase(s).len() == s.len(),
        forall|i: int|
            0 <= i < s.len() ==> (#[trigger] in_uppercase(s)[i]) as int == if 'a' <= s[i] <= 'z' {
                s[i] as int - 32
            } else {
                s[i] as int
            },
{
    assert(vstd::utf8::is_ascii_chars(s));
}

/// The states of a station as they are shown.
pub proof fn lemma_state_names()
    ensures
        in_uppercase("connected"@) == "CONNECTED"@,
        in_uppercase("disconnected"@) == "DISCONNECTED"@,
        in_uppercase("connecting"@) == "CONNECTING"@,
{
    reveal_strlit("connected");
    reveal_strlit("CONNECTED");
    reveal_strlit("disconnected");
    reveal_strlit("DISCONNECTED");
    reveal_strlit("connecting");
    reveal_strlit("CONNECTING");
    assert(vstd::utf8::is_ascii_chars("connected"@));
    assert(vstd::utf8::is_ascii_chars("disconnected"@));
    assert(vstd::utf8::is_ascii_chars("connecting"@));
    assert(in_uppercase("connected"@) =~= "CONNECTED"@);
    assert(in_uppercase("disconnected"@) =~= "DISCONNECTED"@);
    assert(in_uppercase("connecting"@) =~= "CONNECTING"@);
}

/// A text begins with another where the first characters agree one by one, and ends with it
/// where the last do; it holds it where they agree from some place on.
pub proof fn law_begin_end_and_occur(s: Seq<char>, part: Seq<char>)
    ensures
        begins_with(s, part) <==> part.len() <= s.len() && forall|i: int|
            0 <= i < part.len() ==> s[i] == #[trigger] part[i],
        ends_in(s, part) <==> part.len() <= s.len() && forall|i: int|
            0 <= i < part.len() ==> s[s.len() - part.len() + i] == #[trigger] part[i],
        occurs(s, part) <==> exists|before: Seq<char>, after: Seq<char>|
            s == #[trigger] before.add(part).add(after),
{
    if part.len() <= s.len() {
        if forall|i: int| 0 <= i < part.len() ==> s[i] == #[trigger] part[i] {
            assert(s.take(part.len() as int) =~= part);
        }
        if begins_with(s, part) {
            assert forall|i: int| 0 <= i < part.len() implies s[i] == #[trigger] part[i] by {
                assert(s.take(part.len() as int)[i] == part[i]);
            }
        }
        if forall|i: int| 0 <= i < part.len() ==> s[s.len() - part.len() + i] == #[trigger] part[i] {
            assert(s.skip(s.len() - part.len()) =~= part);
        }
        if ends_in(s, part) {
            assert forall|i: int| 0 <= i < part.len() implies s[s.len() - part.len() + i]
                == #[trigger] part[i] by {
                assert(s.skip(s.len() - part.len())[i] == part[i]);
            }
        }
    }
    if occurs(s, part) {
        let at = choose|at: int| #[trigger] occurs_at(s, part, at);
        let before = s.take(at);
        let after = s.skip(at + part.len());
        assert(s =~= before.add(part).add(after)) by {
            assert forall|i: int| at <= i < at + part.len() implies s[i] == part[i - at] by {
                assert(s.subrange(at, at + part.len())[i - at] == part[i - at]);
            }
        }
    }
    if exists|before: Seq<char>, after: Seq<char>| s == #[trigger] before.add(part).add(after) {
        let (before, after) = choose|before: Seq<char>, after: Seq<char>|
            s == #[trigger] before.add(part).add(after);
        let at = before.len() as int;
        assert(s.subrange(at, at + part.len()) =~= part);
        assert(occurs_at(s, part, at));
    }
}

/// A text takes as many bytes as its encoding has.
pub proof fn law_bytes_of_a_text(s: Seq<char>)
    ensures
        utf8_len(s) == vstd::utf8::encode_utf8(s).len(),
{
}

/// A text of ASCII characters has a byte for each of them.
pub proof fn law_ascii_bytes(s: Seq<char>)
    requires
        forall|i: int| 0 <= i < s.len() ==> '\0' <= #[trigger] s[i] <= '\u{7f}',
    ensures
        utf8_len(s) == s.len(),
{
    assert(vstd::utf8::is_ascii_chars(s));
    vstd::utf8::is_ascii_chars_encode_utf8(s);
}

/// What follows the last separator of a text is what stands behind one and holds none itself.
pub proof fn law_behind_the_last(a: Seq<char>, sep: Seq<char>, b: Seq<char>)
    requires
        sep.len() == 1 || sep == ": "@,
        !occurs(b, sep),
    ensures
        last_part(a + sep + b, sep) == b,
        last_part(b, sep) == b,
    decreases b.len(),
{
    reveal_strlit(": ");
    let s = a + sep + b;
    if b.len() == 0 {
        assert(s.skip(s.len() - sep.len()) =~= sep);
        assert(last_part(s, sep) =~= b);
        assert(last_part(b, sep) =~= b);
    } else {
        let head = b.drop_last();
        assert forall|at: int| !#[trigger] occurs_at(head, sep, at) by {
            if occurs_at(head, sep, at) {
                assert(b.subrange(at, at + sep.len()) =~= head.subrange(at, at + sep.len()));
                assert(occurs_at(b, sep, at));
            }
        }
        law_behind_the_last(a, sep, head);
        assert(s.drop_last() =~= a + sep + head);
        if s.skip(s.len() - sep.len()) == sep {
            let end = s.skip(s.len() - sep.len());
            if b.len() >= sep.len() {
                let at = b.len() - sep.len();
                assert(b.subrange(at, at + sep.len()) =~= end);
                assert(occurs_at(b, sep, at));
            } else {
                assert(end[0] == sep[1]);
            }
        }
        assert(last_part(s, sep) =~= b);
        if b.len() >= sep.len() && b.skip(b.len() - sep.len()) == sep {
            let at = b.len() - sep.len();
            assert(b.subrange(at, at + sep.len()) =~= b.skip(at));
            assert(occurs_at(b, sep, at));
        }
        assert(last_part(b, sep) =~= b);
    }
}

/// Taking a text apart undoes joining: texts that hold no separator come out as they went in.
pub proof fn law_parts_of_joined(list: Seq<Seq<char>>, sep: char)
    requires
        list.len() > 0,
        forall|i: int| 0 <= i < list.len() ==> !(#[trigger] list[i]).contains(sep),
    ensures
        parts(joined(list, sep), sep) == list,
    decreases list.len(),
{
    let last = list.last();
    assert(list[list.len() - 1] == last);
    if list.len() == 1 {
        lemma_parts_with(Seq::empty(), last, sep);
        assert(Seq::<char>::empty() + last =~= last);
        assert(parts(Seq::<char>::empty(), sep) =~= seq![Seq::<char>::empty()]);
        assert(Seq::<Seq<char>>::empty().push(last) =~= list);
        assert(seq![Seq::<char>::empty()].drop_last() =~= Seq::<Seq<char>>::empty());
        assert(Seq::<char>::empty() + last =~= last);
    } else {
        let rest = list.drop_last();
        assert forall|i: int| 0 <= i < rest.len() implies !(#[trigger] rest[i]).contains(sep) by {
            assert(rest[i] == list[i]);
        }
        law_parts_of_joined(rest, sep);
        let before = joined(rest, sep).push(sep);
        assert(before.drop_last() =~= joined(rest, sep));
        assert(parts(before, sep) =~= rest.push(Seq::empty()));
        lemma_parts_with(before, last, sep);
        assert(rest.push(Seq::<char>::empty()).drop_last() =~= rest);
        assert(Seq::<char>::empty() + last =~= last);
        assert(rest.push(last) =~= list);
    }
}

proof fn lemma_parts_with(s: Seq<char>, more: Seq<char>, sep: char)
    requires
        !more.contains(sep),
    ensures
        parts(s, sep).len() > 0,
        parts(s + more, sep) == parts(s, sep).drop_last().push(parts(s, sep).last() + more),
    decreases more.len(),
{
    crate::split::law_parts(s, sep);
    let before = parts(s, sep);
    if more.len() == 0 {
        assert(s + more =~= s);
        assert(before.last() + more =~= before.last());
        assert(before.drop_last().push(before.last()) =~= before);
    } else {
        let head = more.drop_last();
        if head.contains(sep) {
            let i = choose|i: int| 0 <= i < head.len() && head[i] == sep;
            assert(more[i] == sep);
        }
        lemma_parts_with(s, head, sep);
        assert((s + more).drop_last() =~= s + head);
        assert((s + more).last() == more.last());
        assert(more[more.len() - 1] != sep);
        let mid = before.drop_last().push(before.last() + head);
        assert(mid.drop_last() =~= before.drop_last());
        assert((before.last() + head).push(more.last()) =~= before.last() + more);
    }
}

} // verus!
