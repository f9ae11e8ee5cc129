//! Taking text apart.

use vstd::prelude::*;

use crate::text::{chars_of, is_space, space, string_of};

verus! {

/// Whether `part` stands in `s` at position `at`.
pub open spec fn occurs_at(s: Seq<char>, part: Seq<char>, at: int) -> bool {
    0 <= at && at + part.len() <= s.len() && s.subrange(at, at + part.len()) == part
}

/// Whether `part` stands somewhere in `s`.
pub open spec fn occurs(s: Seq<char>, part: Seq<char>) -> bool {
    exists|at: int| #[trigger] occurs_at(s, part, at)
}

/// Whether `s` begins with `part`.
pub open spec fn begins_with(s: Seq<char>, part: Seq<char>) -> bool {
    part.len() <= s.len() && s.take(part.len() as int) == part
}

/// Whether `s` ends with `part`.
pub open spec fn ends_in(s: Seq<char>, part: Seq<char>) -> bool {
    part.len() <= s.len() && s.skip(s.len() - part.len()) == part
}

/// Whether `part` stands in `s` at position `at`.
fn matches_at(s: &Vec<char>, part: &Vec<char>, at: usize) -> (res: bool)
    requires
        at + part@.len() <= s@.len(),
    ensures
        res == occurs_at(s@, part@, at as int),
{
    let n = s.len();
    let mut i: usize = 0;
    while i < part.len()
        invariant
            i <= part@.len(),
            at + part@.len() <= s@.len(),
            n == s@.len(),
            forall|k: int| 0 <= k < i ==> s@[at + k] == #[trigger] part@[k],
        decreases part@.len() - i,
    {
        if s[at + i] != part[i] {
            assert(s@.subrange(at as int, at + part@.len())[i as int] != part@[i as int]);
            return false;
        }
        i += 1;
    }
    assert(s@.subrange(at as int, at + part@.len()) =~= part@);
    true
}

/// Whether `part` stands somewhere in `s`.
pub fn contains(s: &str, part: &str) -> (res: bool)
    ensures
        res == occurs(s@, part@),
{
    let chars = chars_of(s);
    let wanted = chars_of(part);
    if wanted.len() > chars.len() {
        return false;
    }
    let last = chars.len() - wanted.len();
    let mut at: usize = 0;
    while at <= last
        invariant
            chars@ == s@,
            wanted@ == part@,
            last == chars@.len() - wanted@.len(),
            at <= last + 1,
            forall|k: int| 0 <= k < at ==> !#[trigger] occurs_at(s@, part@, k),
        decreases last + 1 - at,
    {
        if matches_at(&chars, &wanted, at) {
            return true;
        }
        if at == last {
            return false;
        }
        at += 1;
    }
    false
}

/// Whether `s` begins with `part`.
pub fn starts_with(s: &str, part: &str) -> (res: bool)
    ensures
        res == begins_with(s@, part@),
{
    let chars = chars_of(s);
    let wanted = chars_of(part);
    if wanted.len() > chars.len() {
        return false;
    }
    assert(s@.take(part@.len() as int) =~= s@.subrange(0, part@.len() as int));
    matches_at(&chars, &wanted, 0)
}

/// Whether `s` ends with `part`.
pub fn ends_with(s: &str, part: &str) -> (res: bool)
    ensures
        res == ends_in(s@, part@),
{
    let chars = chars_of(s);
    let wanted = chars_of(part);
    if wanted.len() > chars.len() {
        return false;
    }
    let at = chars.len() - wanted.len();
    assert(s@.skip(at as int) =~= s@.subrange(at as int, at + part@.len()));
    matches_at(&chars, &wanted, at)
}

/// What follows the last `sep` in `s`; all of `s` where there is none.
pub open spec fn last_part(s: Seq<char>, sep: Seq<char>) -> Seq<char>
    decreases s.len(),
{
    if s.len() == 0 || s.len() < sep.len() {
        s
    } else if s.skip(s.len() - sep.len()) == sep {
        Seq::empty()
    } else {
        last_part(s.drop_last(), sep).push(s.last())
    }
}

/// What follows the last `sep` in `s` and all of `s` where there is none.
pub fn after_last(s: &str, sep: &str) -> (res: String)
    requires
        sep@.len() > 0,
    ensures
        res@ == last_part(s@, sep@),
{
    let chars = chars_of(s);
    let wanted = chars_of(sep);
    let n = chars.len();
    let m = wanted.len();
    // `from` is where the part begins, as far as the search has got.
    let mut from: usize = n;
    assert(s@.take(n as int) =~= s@);
    assert(s@.skip(n as int) =~= Seq::<char>::empty());
    while from >= m && !matches_at(&chars, &wanted, from - m)
        invariant
            chars@ == s@,
            wanted@ == sep@,
            n == s@.len(),
            m == sep@.len(),
            m > 0,
            from <= n,
            last_part(s@, sep@) == last_part(s@.take(from as int), sep@) + s@.skip(from as int),
        decreases from,
    {
        let ghost head = s@.take(from as int);
        assert(head.skip(from - m) =~= s@.subrange(from - m, from - m + m));
        assert(head.drop_last() =~= s@.take(from - 1));
        assert(s@.skip(from - 1) =~= seq![head.last()] + s@.skip(from as int));
        assert(last_part(s@, sep@) =~= last_part(s@.take(from - 1), sep@) + s@.skip(from - 1));
        from -= 1;
    }
    let ghost head = s@.take(from as int);
    if from >= m {
        assert(head.skip(from - m) =~= s@.subrange(from - m, from - m + m));
        assert(last_part(s@, sep@) =~= s@.skip(from as int));
        assert(s@.skip(from as int) =~= s@.subrange(from as int, n as int));
        string_of(&chars, from, n)
    } else {
        assert(head + s@.skip(from as int) =~= s@);
        s.to_owned()
    }
}

/// What follows the last separator is the end of the text, holds no separator, and is either
/// all of the text or stands right behind a separator.
pub proof fn law_last_part(s: Seq<char>, sep: Seq<char>)
    requires
        sep.len() > 0,
    ensures
        ends_in(s, last_part(s, sep)),
        !occurs(last_part(s, sep), sep),
        last_part(s, sep) == s || occurs_at(s, sep, s.len() - last_part(s, sep).len() - sep.len()),
    decreases s.len(),
{
    let t = last_part(s, sep);
    if s.len() == 0 || s.len() < sep.len() {
        assert(s.skip(0) =~= s);
    } else if s.skip(s.len() - sep.len()) == sep {
        assert(s.skip(s.len() as int) =~= Seq::<char>::empty());
        assert(s.subrange(s.len() - sep.len(), s.len() as int) =~= s.skip(s.len() - sep.len()));
    } else {
        let head = s.drop_last();
        law_last_part(head, sep);
        let inner = last_part(head, sep);
        assert(t =~= s.skip(s.len() - t.len())) by {
            assert(head.skip(head.len() - inner.len()) == inner);
            assert forall|i: int| 0 <= i < t.len() implies t[i] == s.skip(s.len() - t.len())[i] by {
                if i < inner.len() {
                    assert(inner[i] == head.skip(head.len() - inner.len())[i]);
                }
            }
        }
        if inner == head {
            assert(t =~= s);
        } else {
            let at = head.len() - inner.len() - sep.len();
            assert(head.subrange(at, at + sep.len()) =~= s.subrange(at, at + sep.len()));
        }
        assert forall|at: int| !#[trigger] occurs_at(t, sep, at) by {
            if occurs_at(t, sep, at) {
                if at + sep.len() < t.len() {
                    assert(t.subrange(at, at + sep.len()) =~= inner.subrange(at, at + sep.len()));
                    assert(occurs_at(inner, sep, at));
                } else {
                    assert(s.skip(s.len() - sep.len()) =~= t.subrange(at, at + sep.len()));
                }
            }
        }
    }
}

/// What stands before the first `sep` in `s`; all of `s` where there is none.
pub open spec fn first_part(s: Seq<char>, sep: char) -> Seq<char>
    decreases s.len(),
{
    if s.len() == 0 || s[0] == sep {
        Seq::empty()
    } else {
        seq![s[0]] + first_part(s.drop_first(), sep)
    }
}

/// What stands before the first separator holds none, and is followed by one or by nothing.
pub proof fn law_first_part(s: Seq<char>, sep: char)
    ensures
        !first_part(s, sep).contains(sep),
        first_part(s, sep).len() <= s.len(),
        s.take(first_part(s, sep).len() as int) == first_part(s, sep),
        first_part(s, sep).len() < s.len() ==> s[first_part(s, sep).len() as int] == sep,
        s.contains(sep) == (first_part(s, sep).len() < s.len()),
    decreases s.len(),
{
    let p = first_part(s, sep);
    if s.len() == 0 || s[0] == sep {
        assert(s.take(0) =~= p);
        if s.len() > 0 {
            assert(s.contains(s[0]));
        }
    } else {
        let rest = s.drop_first();
        let q = first_part(rest, sep);
        law_first_part(rest, sep);
        assert(s.take(p.len() as int) =~= p) by {
            assert forall|i: int| 0 <= i < p.len() implies s[i] == p[i] by {
                if i > 0 {
                    assert(rest.take(q.len() as int)[i - 1] == q[i - 1]);
                }
            }
        }
        if p.contains(sep) {
            let i = choose|i: int| 0 <= i < p.len() && p[i] == sep;
            assert(q[i - 1] == sep);
        }
        if s.contains(sep) {
            let i = choose|i: int| 0 <= i < s.len() && s[i] == sep;
            assert(rest[i - 1] == sep);
        }
        if p.len() < s.len() {
            assert(s[p.len() as int] == rest[q.len() as int]);
        }
    }
}

/// What stands before the first `sep` in `s`, and all of `s` where there is none.
pub fn before_first(s: &str, sep: char) -> (res: String)
    ensures
        res@ == first_part(s@, sep),
{
    let chars = chars_of(s);
    let mut to: usize = 0;
    assert(s@.skip(0) =~= s@);
    assert(s@.take(0) =~= Seq::<char>::empty());
    assert(first_part(s@, sep) =~= s@.take(0) + first_part(s@.skip(0), sep));
    while to < chars.len() && chars[to] != sep
        invariant
            chars@ == s@,
            to <= s@.len(),
            first_part(s@, sep) == s@.take(to as int) + first_part(s@.skip(to as int), sep),
        decreases s@.len() - to,
    {
        assert(s@.skip(to as int).drop_first() =~= s@.skip(to + 1));
        assert(s@.take(to + 1) =~= s@.take(to as int) + seq![s@[to as int]]);
        assert(first_part(s@, sep) =~= s@.take(to + 1) + first_part(s@.skip(to + 1), sep));
        to += 1;
    }
    assert(first_part(s@, sep) =~= s@.subrange(0, to as int));
    string_of(&chars, 0, to)
}

/// The parts of `s` between its separators: one more than there are separators.
pub open spec fn parts(s: Seq<char>, sep: char) -> Seq<Seq<char>>
    decreases s.len(),
{
    if s.len() == 0 {
        seq![Seq::empty()]
    } else {
        let before = parts(s.drop_last(), sep);
        if s.last() == sep {
            before.push(Seq::empty())
        } else {
            before.drop_last().push(before.last().push(s.last()))
        }
    }
}

/// The texts of a list with a separator between each two.
pub open spec fn joined(list: Seq<Seq<char>>, sep: char) -> Seq<char>
    decreases list.len(),
{
    if list.len() == 0 {
        Seq::empty()
    } else if list.len() == 1 {
        list[0]
    } else {
        joined(list.drop_last(), sep).push(sep) + list.last()
    }
}

/// The parts of a text hold no separator, and joined by it they give the text back.
pub proof fn law_parts(s: Seq<char>, sep: char)
    ensures
        parts(s, sep).len() > 0,
        forall|i: int|
            0 <= i < parts(s, sep).len() ==> !(#[trigger] parts(s, sep)[i]).contains(sep),
        joined(parts(s, sep), sep) == s,
    decreases s.len(),
{
    let all = parts(s, sep);
    if s.len() > 0 {
        let before = parts(s.drop_last(), sep);
        law_parts(s.drop_last(), sep);
        assert(s =~= s.drop_last().push(s.last()));
        if s.last() == sep {
            assert(all.drop_last() =~= before);
            assert(joined(all, sep) =~= s);
            assert forall|i: int| 0 <= i < all.len() implies !(#[trigger] all[i]).contains(sep) by {
                if i < before.len() {
                    assert(all[i] == before[i]);
                }
            }
        } else {
            let last = before.last().push(s.last());
            assert(all.drop_last() =~= before.drop_last());
            assert(joined(all, sep) =~= joined(before, sep).push(s.last()));
            assert forall|i: int| 0 <= i < all.len() implies !(#[trigger] all[i]).contains(sep) by {
                if i < all.len() - 1 {
                    assert(all[i] == before[i]);
                } else if last.contains(sep) {
                    let k = choose|k: int| 0 <= k < last.len() && last[k] == sep;
                    assert(!before[before.len() - 1].contains(sep));
                    assert(before.last()[k] == sep);
                }
            }
        }
    }
}

/// The texts that a list of strings holds.
pub open spec fn texts(list: Seq<String>) -> Seq<Seq<char>> {
    list.map_values(|s: String| s@)
}

/// Cuts a string at each separator.
pub fn split_on(s: &str, sep: char) -> (res: Vec<String>)
    ensures
        texts(res@) == parts(s@, sep),
{
    let chars = chars_of(s);
    let mut done: Vec<String> = Vec::new();
    let mut open = String::new();
    let mut i: usize = 0;
    assert(s@.take(0) =~= Seq::<char>::empty());
    assert(texts(done@).push(open@) =~= parts(s@.take(0), sep));
    while i < chars.len()
        invariant
            chars@ == s@,
            i <= s@.len(),
            texts(done@).push(open@) == parts(s@.take(i as int), sep),
        decreases s@.len() - i,
    {
        let c = chars[i];
        let ghost before = texts(done@).push(open@);
        assert(s@.take(i + 1).drop_last() =~= s@.take(i as int));
        assert(s@.take(i + 1).last() == c);
        assert(before.drop_last() =~= texts(done@));
        if c == sep {
            let ghost done_before = done@;
            done.push(open);
            open = String::new();
            assert(texts(done@) =~= before);
        } else {
            open.push(c);
        }
        assert(texts(done@).push(open@) =~= parts(s@.take(i + 1), sep));
        i += 1;
    }
    assert(s@.take(i as int) =~= s@);
    let ghost before = texts(done@).push(open@);
    done.push(open);
    assert(texts(done@) =~= before);
    done
}

/// The words of `s`: its longest stretches without white space, in order.
pub open spec fn words(s: Seq<char>) -> Seq<Seq<char>>
    decreases s.len(),
{
    if s.len() == 0 {
        Seq::empty()
    } else {
        let before = words(s.drop_last());
        if is_space(s.last()) {
            before
        } else if s.len() == 1 || is_space(s[s.len() - 2]) {
            before.push(seq![s.last()])
        } else {
            before.drop_last().push(before.last().push(s.last()))
        }
    }
}

/// A text without its white space.
pub open spec fn without_space(s: Seq<char>) -> Seq<char> {
    s.filter(|c: char| !is_space(c))
}

/// No word is empty or holds white space, and one after another the words give the text back
/// without its white space. The last word ends where the text does, unless white space does.
pub proof fn law_words(s: Seq<char>)
    ensures
        forall|i: int| 0 <= i < words(s).len() ==> (#[trigger] words(s)[i]).len() > 0,
        forall|i: int, k: int|
            0 <= i < words(s).len() && 0 <= k < words(s)[i].len() ==> !is_space(
                #[trigger] words(s)[i][k],
            ),
        words(s).flatten() == without_space(s),
        s.len() > 0 && !is_space(s.last()) ==> words(s).len() > 0,
    decreases s.len(),
{
    let all = words(s);
    if s.len() == 0 {
        assert(without_space(s) =~= Seq::<char>::empty()) by {
            reveal(Seq::filter);
        }
        assert(all.flatten() =~= Seq::<char>::empty());
    } else {
        let rest = s.drop_last();
        let before = words(rest);
        law_words(rest);
        assert(without_space(s) == if is_space(s.last()) {
            without_space(rest)
        } else {
            without_space(rest).push(s.last())
        }) by {
            reveal(Seq::filter);
        }
        if is_space(s.last()) {
        } else if s.len() == 1 || is_space(s[s.len() - 2]) {
            lemma_flatten_push(before, seq![s.last()]);
            assert(all.flatten() =~= before.flatten().push(s.last()));
            assert forall|i: int| 0 <= i < all.len() implies (#[trigger] all[i]).len() > 0 by {
                if i < before.len() {
                    assert(all[i] == before[i]);
                }
            }
            assert forall|i: int, k: int| 0 <= i < all.len() && 0 <= k < all[i].len() implies
                !is_space(#[trigger] all[i][k]) by {
                if i < before.len() {
                    assert(all[i] == before[i]);
                    assert(!is_space(before[i][k]));
                }
            }
        } else {
            assert(rest.last() == s[s.len() - 2]);
            let head = before.drop_last();
            let last = before.last();
            assert(before =~= head.push(last));
            lemma_flatten_push(head, last);
            lemma_flatten_push(head, last.push(s.last()));
            assert(all.flatten() =~= before.flatten().push(s.last()));
            assert forall|i: int| 0 <= i < all.len() implies (#[trigger] all[i]).len() > 0 by {
                if i < head.len() {
                    assert(all[i] == before[i]);
                }
            }
            assert forall|i: int, k: int| 0 <= i < all.len() && 0 <= k < all[i].len() implies
                !is_space(#[trigger] all[i][k]) by {
                if i < head.len() {
                    assert(all[i] == before[i]);
                    assert(!is_space(before[i][k]));
                } else if k < last.len() {
                    assert(!is_space(before[before.len() - 1][k]));
                }
            }
        }
    }
}

/// White space parts words, and nothing else does: the words of a text are those on one side
/// of any white space in it and then those on the other, and a text without white space is one
/// word, unless it is empty.
pub proof fn law_words_are_parted_by_space(a: Seq<char>, c: char, b: Seq<char>)
    ensures
        is_space(c) ==> words(a.push(c) + b) == words(a) + words(b),
        b.len() > 0 && (forall|i: int| 0 <= i < b.len() ==> !is_space(#[trigger] b[i])) ==> words(b)
            == seq![b],
        words(Seq::<char>::empty()) == Seq::<Seq<char>>::empty(),
    decreases b.len(),
{
    let s = a.push(c) + b;
    if b.len() == 0 {
        assert(s =~= a.push(c));
        assert(s.drop_last() =~= a);
        assert(words(a) + words(b) =~= words(a));
    } else {
        let rest = b.drop_last();
        law_words_are_parted_by_space(a, c, rest);
        assert(s.drop_last() =~= a.push(c) + rest);
        assert(s.last() == b.last());
        if is_space(c) {
            if is_space(b.last()) {
            } else if b.len() == 1 || is_space(b[b.len() - 2]) {
                assert(is_space(s[s.len() - 2]));
                assert(words(s) =~= words(a) + words(b));
            } else {
                assert(s[s.len() - 2] == b[b.len() - 2]);
                assert(rest.last() == b[b.len() - 2]);
                law_words(rest);
                assert((words(a) + words(rest)).drop_last() =~= words(a) + words(rest).drop_last());
                assert(words(s) =~= words(a) + words(b));
            }
        }
        if forall|i: int| 0 <= i < b.len() ==> !is_space(#[trigger] b[i]) {
            assert(!is_space(b.last()));
            if b.len() > 1 {
                assert forall|i: int| 0 <= i < rest.len() implies !is_space(#[trigger] rest[i]) by {
                    assert(!is_space(b[i]));
                }
                assert(!is_space(b[b.len() - 2]));
                assert(rest.push(b.last()) =~= b);
                assert(words(b) =~= seq![b]);
            } else {
                assert(seq![b.last()] =~= b);
                assert(rest =~= Seq::<char>::empty());
                assert(words(b) =~= seq![b]);
            }
        }
    }
}

proof fn lemma_flatten_push(list: Seq<Seq<char>>, text: Seq<char>)
    ensures
        list.push(text).flatten() == list.flatten() + text,
    decreases list.len(),
{
    let all = list.push(text);
    if list.len() == 0 {
        assert(all.drop_first() =~= Seq::<Seq<char>>::empty());
        assert(all.drop_first().flatten() =~= Seq::<char>::empty());
        assert(list.flatten() =~= Seq::<char>::empty());
        assert(all.flatten() =~= text);
    } else {
        lemma_flatten_push(list.drop_first(), text);
        assert(all.drop_first() =~= list.drop_first().push(text));
        assert(all.flatten() =~= list.flatten() + text);
    }
}

/// Cuts a string into its words.
pub fn split_words(s: &str) -> (res: Vec<String>)
    ensures
        texts(res@) == words(s@),
{
    let chars = chars_of(s);
    let mut done: Vec<String> = Vec::new();
    let mut open = String::new();
    // Whether a word has begun that may still grow.
    let mut in_word: bool = false;
    let mut i: usize = 0;
    assert(s@.take(0) =~= Seq::<char>::empty());
    assert(texts(done@) =~= words(s@.take(0)));
    while i < chars.len()
        invariant
            chars@ == s@,
            i <= s@.len(),
            in_word == (i > 0 && !is_space(s@[i - 1])),
            !in_word ==> open@.len() == 0,
            words(s@.take(i as int)) == if in_word {
                texts(done@).push(open@)
            } else {
                texts(done@)
            },
        decreases s@.len() - i,
    {
        let c = chars[i];
        let ghost head = s@.take(i + 1);
        let ghost before = words(s@.take(i as int));
        assert(head.drop_last() =~= s@.take(i as int));
        assert(head.last() == c);
        if space(c) {
            if in_word {
                done.push(open);
                open = String::new();
                in_word = false;
                assert(texts(done@) =~= before);
            }
        } else {
            if in_word {
                assert(before.drop_last() =~= texts(done@));
            } else {
                assert(open@.push(c) =~= seq![c]);
            }
            open.push(c);
            in_word = true;
        }
        i += 1;
    }
    assert(s@.take(i as int) =~= s@);
    if in_word {
        let ghost before = texts(done@).push(open@);
        done.push(open);
        assert(texts(done@) =~= before);
    }
    done
}

} // verus!
