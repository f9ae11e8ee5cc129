//! Internet addresses, with the part that tells machines apart hidden.

use vstd::prelude::*;

use crate::split::{before_first, first_part, parts, split_on, split_words, texts, words};
use crate::text::{index_of, lemma_index_of, push_text, same_text};

verus! {

/// The text that `String::from_utf8_lossy` reads out of bytes.
pub uninterp spec fn lossy_text(bytes: Seq<u8>) -> Seq<char>;

/// `String::from_utf8_lossy`: bytes read as UTF-8. Valid UTF-8 is decoded as it stands. The
/// result depends on the bytes alone; where replacement characters come in for bytes that are
/// not valid is left unsaid.
#[verifier::external_body]
fn text_from_bytes(bytes: &[u8]) -> (res: String)
    ensures
        res@ == lossy_text(bytes@),
        vstd::utf8::valid_utf8(bytes@) ==> res@ == vstd::utf8::decode_utf8(bytes@),
{
    String::from_utf8_lossy(bytes).into_owned()
}

/// The word behind the first `inet` in a list of words.
pub open spec fn word_after_inet(list: Seq<Seq<char>>) -> Option<Seq<char>> {
    let at = index_of(list, "inet"@);
    if at + 1 < list.len() {
        Some(list[at + 1int])
    } else {
        None
    }
}

/// An address with its last two numbers hidden; only what has four parts is an address.
pub open spec fn masked(address: Seq<char>) -> Option<Seq<char>> {
    let numbers = parts(address, '.');
    if numbers.len() == 4 {
        Some(numbers[0] + "."@ + numbers[1] + ".███.███"@)
    } else {
        None
    }
}

/// The masked address in what `ip -4 -o addr show` prints: the word behind the first `inet`,
/// up to its slash.
pub open spec fn masked_in(output: Seq<char>) -> Option<Seq<char>> {
    match word_after_inet(words(output)) {
        Some(word) => masked(first_part(word, '/')),
        None => None,
    }
}

/// Hides the last two numbers of an address.
pub fn mask(address: &str) -> (res: Option<String>)
    ensures
        crate::network::text_of(res) == masked(address@),
{
    let numbers = split_on(address, '.');
    let ghost expected = parts(address@, '.');
    assert(texts(numbers@).len() == numbers@.len());
    if numbers.len() != 4 {
        return None;
    }
    assert(expected[0] == numbers@[0]@ && expected[1] == numbers@[1]@);
    let mut res = numbers[0].clone();
    push_text(&mut res, ".");
    push_text(&mut res, numbers[1].as_str());
    push_text(&mut res, ".███.███");
    Some(res)
}

/// Finds the address in what `ip -4 -o addr show` prints and masks it.
pub fn mask_ipv4(output: &str) -> (res: Option<String>)
    ensures
        crate::network::text_of(res) == masked_in(output@),
{
    let list = split_words(output);
    let ghost all = words(output@);
    assert(all == texts(list@));
    let n = list.len();
    let mut at: usize = 0;
    while at < n && !same_text(list[at].as_str(), "inet")
        invariant
            all == texts(list@),
            n == list@.len(),
            at <= n,
            forall|i: int| 0 <= i < at ==> #[trigger] all[i] != "inet"@,
        decreases n - at,
    {
        assert(all[at as int] == list@[at as int]@);
        at += 1;
    }
    proof {
        if at < n {
            assert(all[at as int] == list@[at as int]@);
        }
        lemma_index_of(all, "inet"@, at as nat);
    }
    if n == 0 || at >= n - 1 {
        return None;
    }
    assert(all[at + 1] == list@[at + 1]@);
    let address = before_first(list[at + 1].as_str(), '/');
    mask(address.as_str())
}

/// Finds the address in the bytes that `ip -4 -o addr show` prints, where it could be run, and
/// masks it.
pub fn get_masked_ipv4(output: &Option<Vec<u8>>) -> (res: Option<String>)
    ensures
        crate::network::text_of(res) == (match output {
            Some(bytes) => masked_in(lossy_text(bytes@)),
            None => None,
        }),
{
    match output {
        Some(bytes) => {
            let text = text_from_bytes(bytes.as_slice());
            mask_ipv4(text.as_str())
        },
        None => None,
    }
}

/// Two addresses that begin with the same two numbers are shown alike: the rest of an address
/// leaves no trace.
pub proof fn law_mask_hides_the_rest(a: Seq<char>, b: Seq<char>)
    requires
        parts(a, '.').len() == 4,
        parts(b, '.').len() == 4,
        parts(a, '.')[0] == parts(b, '.')[0],
        parts(a, '.')[1] == parts(b, '.')[1],
    ensures
        masked(a) == masked(b),
        masked(a) is Some,
{
}

} // verus!
