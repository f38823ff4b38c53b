//! Text as the moderation rules see it: sequences of characters.

use vstd::prelude::*;

verus! {

/// Whether `needle` occurs in `hay` as a contiguous run of characters.
pub open spec fn occurs_in(needle: Seq<char>, hay: Seq<char>) -> bool {
    exists|start: int| #[trigger] occurs_at(needle, hay, start)
}

/// Whether `needle` occurs in `hay` at position `start`.
pub open spec fn occurs_at(needle: Seq<char>, hay: Seq<char>, start: int) -> bool {
    &&& 0 <= start
    &&& start + needle.len() <= hay.len()
    &&& hay.subrange(start, start + needle.len()) == needle
}

/// The lowercase form of `text`, as `str::to_lowercase` computes it from the Unicode tables.
pub uninterp spec fn lowercase(text: Seq<char>) -> Seq<char>;

/// An ASCII character, a Han ideograph of the basic block, a CJK symbol or punctuation mark, or a
/// fullwidth punctuation mark or digit. Among these only `A` to `Z` have another lowercase form.
pub open spec fn is_plain(c: char) -> bool {
    ||| c as int <= 0x7f
    ||| 0x3000 <= c as int <= 0x303f
    ||| 0x4e00 <= c as int <= 0x9fff
    ||| 0xff01 <= c as int <= 0xff20
}

/// Whether every character of `text` is plain.
pub open spec fn is_plain_text(text: Seq<char>) -> bool {
    forall|i: int| 0 <= i < text.len() ==> is_plain(#[trigger] text[i])
}

/// `c`, with `A` to `Z` taken to `a` to `z`.
pub open spec fn ascii_lower(c: char) -> char {
    if 'A' <= c <= 'Z' {
        (c as int + 32) as char
    } else {
        c
    }
}

/// `text` with `A` to `Z` taken to `a` to `z`, character by character.
pub open spec fn ascii_lower_text(text: Seq<char>) -> Seq<char> {
    text.map_values(|c: char| ascii_lower(c))
}

/// `c`, with the sigma that ends a word written as any other small sigma.
pub open spec fn merge_sigma(c: char) -> char {
    if c == 'ς' {
        'σ'
    } else {
        c
    }
}

/// `text` with all small sigmas written alike.
pub open spec fn merge_sigmas(text: Seq<char>) -> Seq<char> {
    text.map_values(|c: char| merge_sigma(c))
}

/// The lowercase form of one character, with all small sigmas written alike.
pub open spec fn char_lowered(c: char) -> Seq<char> {
    if is_plain(c) {
        seq![ascii_lower(c)]
    } else {
        merge_sigmas(lowercase(seq![c]))
    }
}

/// The lowercase forms of the characters of `text` one after the other, with all small sigmas
/// written alike.
pub open spec fn lowered_by_char(text: Seq<char>) -> Seq<char> {
    text.flat_map(|c: char| char_lowered(c))
}

/// `str::to_lowercase`: its result depends on the text alone. `A` to `Z` have `a` to `z` as their
/// lowercase forms, so it makes no difference whether they are lowered beforehand. The result is
/// in lowercase: it holds no `A` to `Z`, and lowering it again changes nothing. On plain text
/// only `A` to `Z` change. The capital sigma becomes `ς` at the end of a word and `σ` elsewhere;
/// but for that, each character is lowered by itself.
#[verifier::external_body]
fn to_lowercase(text: &str) -> (res: String)
    ensures
        res@ == lowercase(text@),
        res@ == lowercase(ascii_lower_text(text@)),
        res@ == lowercase(res@),
        res@ == ascii_lower_text(res@),
        is_plain_text(text@) ==> res@ == ascii_lower_text(text@),
        merge_sigmas(res@) == lowered_by_char(text@),
{
    text.to_lowercase()
}

/// The lowercase form of `text`: on plain text, the text with `A` to `Z` taken to `a` to `z`; on
/// other text, what the Unicode tables give for it.
pub open spec fn lowered(text: Seq<char>) -> Seq<char> {
    if is_plain_text(text) {
        ascii_lower_text(text)
    } else {
        lowercase(ascii_lower_text(text))
    }
}

/// The lowercase form of a text, which is its own lowercase form.
pub fn lower(text: &str) -> (res: String)
    ensures
        res@ == lowered(text@),
        res@ == lowered(res@),
        merge_sigmas(res@) == lowered_by_char(text@),
{
    to_lowercase(text)
}

/// `str::contains` with a string pattern: whether the pattern is a part of the text.
#[verifier::external_body]
pub(crate) fn contains(hay: &str, needle: &str) -> (found: bool)
    ensures
        found == occurs_in(needle@, hay@),
{
    hay.contains(needle)
}

/// `parts` in order, with `sep` between each two.
pub open spec fn joined(parts: Seq<Seq<char>>, sep: Seq<char>) -> Seq<char>
    decreases parts.len(),
{
    if parts.len() == 0 {
        seq![]
    } else if parts.len() == 1 {
        parts[0]
    } else {
        joined(parts.drop_last(), sep) + sep + parts.last()
    }
}

/// Joins `parts` into one string.
pub fn join(parts: &Vec<String>, sep: &str) -> (res: String)
    ensures
        res@ == joined(parts.deep_view(), sep@),
{
    let mut res = String::new();
    let n: usize = parts.len();
    let mut i: usize = 0;
    while i < n
        invariant
            n == parts@.len(),
            i <= n,
            res@ == joined(parts.deep_view().take(i as int), sep@),
        decreases n - i,
    {
        proof {
            let all = parts.deep_view();
            assert(all.take(i as int + 1).drop_last() =~= all.take(i as int));
            assert(all.take(i as int + 1).last() == parts@[i as int]@);
            if i == 0 {
                assert(res@ =~= seq![]);
            }
        }
        if i > 0 {
            res.append(sep);
        }
        res.append(parts[i].as_str());
        i += 1;
    }
    proof {
        assert(parts.deep_view().take(n as int) =~= parts.deep_view());
    }
    res
}

/// Whether `item` is one of `items`.
pub fn contains_string(items: &Vec<String>, item: &str) -> (found: bool)
    ensures
        found == items.deep_view().contains(item@),
{
    let wanted = item.to_owned();
    let n: usize = items.len();
    let mut i: usize = 0;
    while i < n
        invariant
            n == items@.len(),
            i <= n,
            wanted@ == item@,
            forall|j: int| 0 <= j < i ==> #[trigger] items@[j]@ != item@,
        decreases n - i,
    {
        if items[i] == wanted {
            assert(items.deep_view()[i as int] == item@);
            return true;
        }
        i += 1;
    }
    assert(forall|j: int| 0 <= j < n ==> #[trigger] items.deep_view()[j] == items@[j]@);
    false
}

} // verus!
