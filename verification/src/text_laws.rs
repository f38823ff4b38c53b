//! What holds of texts: their parts, their lowercase forms, and lists joined into one.

use crate::moderation::verdict;
use crate::moderation_laws::{lemma_lowered_part_occurs, violation_iff_a_pattern_occurs};
use crate::rules::{is_folded, lemma_table_is_folded, rule_table};
use crate::text::{
    char_lowered, is_plain, joined, lowered, lowered_by_char, occurs_at, occurs_in,
};
use vstd::prelude::*;

verus! {

/// A text occurs in another exactly when the other is the text with something before and
/// something after it.
pub proof fn occurrence_splits_the_text(needle: Seq<char>, hay: Seq<char>)
    ensures
        occurs_in(needle, hay) <==> exists|before: Seq<char>, after: Seq<char>|
            hay == #[trigger] (before + needle + after),
{
    if occurs_in(needle, hay) {
        let start = choose|start: int| #[trigger] occurs_at(needle, hay, start);
        let before = hay.take(start);
        let after = hay.skip(start + needle.len());
        assert(hay.subrange(start, start + needle.len()) == needle);
        assert forall|i: int| 0 <= i < needle.len() implies needle[i] == #[trigger] hay[start
            + i] by {
            assert(hay.subrange(start, start + needle.len())[i] == hay[start + i]);
        }
        assert(hay =~= before + needle + after);
    }
    if exists|before: Seq<char>, after: Seq<char>|
        hay == #[trigger] (before + needle + after) {
        let (before, after) = choose|before: Seq<char>, after: Seq<char>|
            hay == #[trigger] (before + needle + after);
        assert(hay.subrange(before.len() as int, (before.len() + needle.len()) as int)
            =~= needle);
        assert(occurs_at(needle, hay, before.len() as int));
    }
}

/// Joining two lists is joining each, with the separator between. A single part is itself, and
/// no parts make the empty text.
pub proof fn lists_are_joined_with_the_separator(
    a: Seq<Seq<char>>,
    b: Seq<Seq<char>>,
    part: Seq<char>,
    sep: Seq<char>,
)
    ensures
        a.len() > 0 && b.len() > 0 ==> joined(a + b, sep) == joined(a, sep) + sep + joined(b, sep),
        joined(seq![part], sep) == part,
        joined(seq![], sep).len() == 0,
    decreases b.len(),
{
    if a.len() > 0 && b.len() > 0 {
        let front = b.drop_last();
        assert((a + b).drop_last() =~= a + front);
        assert((a + b).last() == b.last());
        if front.len() > 0 {
            lists_are_joined_with_the_separator(a, front, part, sep);
            assert(joined(a + b, sep) =~= joined(a, sep) + sep + joined(b, sep));
        } else {
            assert(a + front =~= a);
            assert(joined(a + b, sep) =~= joined(a, sep) + sep + joined(b, sep));
        }
    }
}

/// Lowering a text of ASCII characters, Han ideographs and their punctuation takes `A` to `Z` to
/// `a` to `z` and keeps every other character, each in its place.
pub proof fn lowering_changes_only_capitals(text: Seq<char>)
    requires
        forall|i: int|
            0 <= i < text.len() ==> {
                let c = #[trigger] text[i] as int;
                ||| c <= 0x7f
                ||| 0x3000 <= c <= 0x303f
                ||| 0x4e00 <= c <= 0x9fff
                ||| 0xff01 <= c <= 0xff20
            },
    ensures
        lowered(text).len() == text.len(),
        forall|i: int|
            0 <= i < text.len() ==> (#[trigger] lowered(text)[i]) as int == if 'A' <= text[i]
                <= 'Z' {
                text[i] as int + 32
            } else {
                text[i] as int
            },
{
}

/// Texts are lowered character by character: two texts together as the one and then the other,
/// and a single ASCII character or Han ideograph to itself, or from `A` to `Z` to `a` to `z`.
pub proof fn texts_are_lowered_one_by_one(a: Seq<char>, b: Seq<char>, c: char)
    requires
        c as int <= 0x7f || 0x4e00 <= c as int <= 0x9fff,
    ensures
        lowered_by_char(a + b) == lowered_by_char(a) + lowered_by_char(b),
        lowered_by_char(seq![c]).len() == 1,
        lowered_by_char(seq![c])[0] as int == if 'A' <= c <= 'Z' {
            c as int + 32
        } else {
            c as int
        },
{
    let f = |x: char| char_lowered(x);
    assert((a + b).map_values(f) =~= a.map_values(f) + b.map_values(f));
    vstd::seq_lib::lemma_flatten_concat(a.map_values(f), b.map_values(f));
    lemma_one_character(c);
}

proof fn lemma_one_character(c: char)
    ensures
        lowered_by_char(seq![c]) == char_lowered(c),
{
    let f = |x: char| char_lowered(x);
    assert(seq![c].map_values(f) =~= Seq::<Seq<char>>::empty().push(char_lowered(c)));
    Seq::<Seq<char>>::empty().lemma_flatten_push(char_lowered(c));
    assert(Seq::<Seq<char>>::empty().flatten() =~= Seq::<char>::empty());
    assert(Seq::<char>::empty() + char_lowered(c) =~= char_lowered(c));
}

proof fn lemma_folded_is_kept(pattern: Seq<char>)
    requires
        is_folded(pattern),
    ensures
        lowered_by_char(pattern) == pattern,
    decreases pattern.len(),
{
    let f = |x: char| char_lowered(x);
    if pattern.len() == 0 {
        assert(pattern.map_values(f) =~= Seq::<Seq<char>>::empty());
        assert(lowered_by_char(pattern) =~= pattern);
    } else {
        let front = pattern.drop_last();
        let c = pattern.last();
        assert(is_folded(front)) by {
            assert forall|i: int| 0 <= i < front.len() implies is_plain(
                #[trigger] front[i],
            ) && !('A' <= front[i] <= 'Z') by {
                assert(front[i] == pattern[i]);
            }
        }
        lemma_folded_is_kept(front);
        assert(is_plain(pattern[pattern.len() - 1]));
        assert(pattern.map_values(f) =~= front.map_values(f).push(char_lowered(c)));
        front.map_values(f).lemma_flatten_push(char_lowered(c));
        assert(char_lowered(c) =~= seq![c]);
        assert(front + seq![c] =~= pattern);
    }
}

/// A message that holds a word of the rule table as it is spelled there is a violation, whatever
/// stands around the word.
pub proof fn word_in_a_message_is_found(text: Seq<char>, r: int, k: int)
    requires
        0 <= r < rule_table().len(),
        0 <= k < rule_table()[r].patterns.len(),
        occurs_in(rule_table()[r].patterns[k], text),
    ensures
        verdict(lowered_by_char(text)).is_violation,
{
    let pattern = rule_table()[r].patterns[k];
    lemma_table_is_folded();
    assert(rule_table()[r].is_folded());
    assert(is_folded(pattern));
    lemma_folded_is_kept(pattern);
    lemma_lowered_part_occurs(pattern, text);
    assert(occurs_in(rule_table()[r].patterns[k], lowered_by_char(text)));
    violation_iff_a_pattern_occurs(lowered_by_char(text));
}

} // verus!
