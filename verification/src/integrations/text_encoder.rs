//! Plain text as a sequence of keys.
//!
//! A character that no key types is never dropped in silence: its position is reported, in
//! UTF-16 units, as the callers index their strings.
use vstd::prelude::*;

use crate::integrations::hid_report;
use crate::integrations::hid_report::{hid_char_for, EncodedChar};
use crate::seqs;
use crate::text;

verus! {

/// A text as keys.
#[derive(Debug, PartialEq, Eq)]
pub struct TextEncoding {
    /// The keys of the characters that can be typed, in the order of the text.
    pub chars: Vec<EncodedChar>,
    /// The positions of the other characters, in UTF-16 units, in ascending order.
    pub unencodable_positions: Vec<u32>,
    /// The length of the text in UTF-8 bytes.
    pub byte_count: usize,
    /// The length of the text in UTF-16 units.
    pub char_count: usize,
}

/// The key of a character, as it is typed.
pub open spec fn encoded(c: char) -> Option<EncodedChar> {
    match hid_report::key_for(c) {
        Some(k) => Some(EncodedChar { usage: k.usage, shift: k.shift }),
        None => None,
    }
}

/// The keys of a text.
pub open spec fn keys_of(s: Seq<char>) -> Seq<EncodedChar> {
    seqs::collect(s, |c: char| encoded(c))
}

/// The number of UTF-16 units of a character.
pub open spec fn utf16_width(c: char) -> nat {
    if (c as u32) < 0x10000 {
        1
    } else {
        2
    }
}

/// The length of a text in UTF-16 units.
pub open spec fn utf16_length(s: Seq<char>) -> nat
    decreases s.len(),
{
    if s.len() == 0 {
        0
    } else {
        utf16_length(s.drop_last()) + utf16_width(s.last())
    }
}

/// The positions, in UTF-16 units, of the characters that no key types.
pub open spec fn untyped_positions(s: Seq<char>) -> Seq<nat>
    decreases s.len(),
{
    if s.len() == 0 {
        Seq::empty()
    } else if encoded(s.last()) is None {
        untyped_positions(s.drop_last()).push(utf16_length(s.drop_last()))
    } else {
        untyped_positions(s.drop_last())
    }
}

/// The positions as numbers.
pub open spec fn numbers(v: Seq<u32>) -> Seq<nat> {
    Seq::new(v.len(), |i: int| v[i] as nat)
}

pub proof fn lemma_utf16_length_step(s: Seq<char>, i: int)
    requires
        0 <= i < s.len(),
    ensures
        utf16_length(s.take(i + 1)) == utf16_length(s.take(i)) + utf16_width(s[i]),
        untyped_positions(s.take(i + 1)) == (if encoded(s[i]) is None {
            untyped_positions(s.take(i)).push(utf16_length(s.take(i)))
        } else {
            untyped_positions(s.take(i))
        }),
{
    assert(s.take(i + 1).drop_last() =~= s.take(i));
}

pub proof fn lemma_utf16_length_grows(s: Seq<char>, i: int)
    requires
        0 <= i <= s.len(),
    ensures
        utf16_length(s.take(i)) <= utf16_length(s),
    decreases s.len() - i,
{
    if i < s.len() {
        lemma_utf16_length_grows(s, i + 1);
        lemma_utf16_length_step(s, i);
    } else {
        assert(s.take(i) =~= s);
    }
}

/// A text has at most as many UTF-16 units as UTF-8 bytes.
pub proof fn lemma_utf16_within_bytes(s: Seq<char>)
    ensures
        utf16_length(s) <= text::byte_length(s),
    decreases s.len(),
{
    if s.len() > 0 {
        lemma_utf16_within_bytes(s.drop_last());
        text::lemma_byte_length_push(s.drop_last(), s.last());
        assert(s.drop_last().push(s.last()) =~= s);
    }
}

/// The number of UTF-16 units of a text.
pub fn utf16_len(text: &str) -> (r: usize)
    ensures
        r == utf16_length(text@),
{
    let v = crate::text::chars_of(text);
    let n: usize = v.len();
    let bytes: usize = crate::text::byte_len(text);
    let mut count: usize = 0;
    let mut i: usize = 0;
    assert(v@.take(0) =~= Seq::<char>::empty());
    while i < n
        invariant
            i <= n,
            n == v@.len(),
            v@ == text@,
            bytes == crate::text::byte_length(text@),
            count == utf16_length(v@.take(i as int)),
        decreases n - i,
    {
        proof {
            let now = v@.take(i + 1);
            assert(now.drop_last() =~= v@.take(i as int));
            lemma_utf16_length_grows(v@, i + 1);
            lemma_utf16_within_bytes(v@);
        }
        count = count + if crate::text::width_of(v[i]) == 4 {
            2
        } else {
            1
        };
        i = i + 1;
    }
    assert(v@.take(n as int) =~= v@);
    count
}

/// Encodes a text. Positions are 32-bit numbers, so the text may have at most that many
/// UTF-16 units.
pub fn encode_ascii_text(text: &str) -> (r: TextEncoding)
    requires
        utf16_length(text@) <= u32::MAX,
    ensures
        r.chars@ == keys_of(text@),
        numbers(r.unencodable_positions@) == untyped_positions(text@),
        r.byte_count == crate::text::byte_length(text@),
        r.char_count == utf16_length(text@),
{
    let v = crate::text::chars_of(text);
    let ghost f = |c: char| encoded(c);
    let mut chars: Vec<EncodedChar> = Vec::new();
    let mut positions: Vec<u32> = Vec::new();
    let mut utf16_index: u32 = 0;
    let mut i: usize = 0;
    proof {
        seqs::lemma_collect_ends(v@, f);
        assert(v@.take(0) =~= Seq::<char>::empty());
        assert(numbers(positions@) =~= Seq::<nat>::empty());
    }
    while i < v.len()
        invariant
            i <= v@.len(),
            v@ == text@,
            utf16_length(v@) <= u32::MAX,
            f == (|c: char| encoded(c)),
            chars@ == seqs::collect(v@.take(i as int), f),
            numbers(positions@) == untyped_positions(v@.take(i as int)),
            utf16_index == utf16_length(v@.take(i as int)),
        decreases v@.len() - i,
    {
        let c = v[i];
        proof {
            seqs::lemma_collect_step(v@, f, i as int);
            lemma_utf16_length_step(v@, i as int);
            lemma_utf16_length_grows(v@, i + 1);
        }
        let width: u32 = if (c as u32) < 0x10000 {
            1
        } else {
            2
        };
        match hid_char_for(c) {
            Some(h) => {
                chars.push(EncodedChar { usage: h.usage, shift: h.shift });
            },
            None => {
                let ghost before = positions@;
                positions.push(utf16_index);
                assert(numbers(positions@) =~= numbers(before).push(utf16_index as nat));
            },
        }
        utf16_index = utf16_index + width;
        i = i + 1;
    }
    proof {
        seqs::lemma_collect_ends(v@, f);
        assert(v@.take(i as int) =~= v@);
    }
    TextEncoding {
        chars,
        unencodable_positions: positions,
        byte_count: crate::text::byte_len(text),
        char_count: utf16_index as usize,
    }
}

/// No character is lost: each one has a key or a reported position, and the positions ascend.
pub proof fn encoding_loses_nothing(s: Seq<char>)
    ensures
        keys_of(s).len() + untyped_positions(s).len() == s.len(),
        forall|i: int, j: int|
            0 <= i < j < untyped_positions(s).len() ==> #[trigger] untyped_positions(s)[i]
                < #[trigger] untyped_positions(s)[j],
        forall|i: int|
            0 <= i < untyped_positions(s).len() ==> #[trigger] untyped_positions(s)[i]
                < utf16_length(s),
    decreases s.len(),
{
    if s.len() > 0 {
        encoding_loses_nothing(s.drop_last());
    }
}

/// A text of characters that keys type has one key for each character, in order.
pub proof fn typed_text_keeps_its_order(s: Seq<char>)
    requires
        untyped_positions(s).len() == 0,
    ensures
        keys_of(s).len() == s.len(),
        forall|i: int| 0 <= i < s.len() ==> encoded(s[i]) == Some(#[trigger] keys_of(s)[i]),
        utf16_length(s) == s.len(),
    decreases s.len(),
{
    encoding_loses_nothing(s);
    if s.len() > 0 {
        typed_text_keeps_its_order(s.drop_last());
        hid_report::typed_characters_are_ascii(s.last());
    }
}

/// The text that keys print on the US layout.
pub open spec fn printed(keys: Seq<EncodedChar>) -> Seq<char> {
    keys.map_values(|k: EncodedChar| hid_report::us_layout(k.usage, k.shift)->0)
}

/// What is typed reads back as the text: a text of characters that stand on the keyboard is
/// typed whole, and its keys print it, an end of a line being the Enter key in either form.
pub proof fn typed_text_reads_back(s: Seq<char>)
    requires
        forall|i: int| 0 <= i < s.len() ==> hid_report::on_keyboard(#[trigger] s[i]),
    ensures
        untyped_positions(s).len() == 0,
        keys_of(s).len() == s.len(),
        printed(keys_of(s)) == s.map_values(
            |c: char|
                if c == '\r' {
                    '\n'
                } else {
                    c
                },
        ),
        (forall|i: int| 0 <= i < s.len() ==> #[trigger] s[i] != '\r') ==> printed(keys_of(s)) == s,
    decreases s.len(),
{
    let t = s.map_values(
        |c: char|
            if c == '\r' {
                '\n'
            } else {
                c
            },
    );
    if s.len() > 0 {
        let front = s.drop_last();
        assert forall|i: int| 0 <= i < front.len() implies hid_report::on_keyboard(
            #[trigger] front[i],
        ) by {
            assert(front[i] == s[i]);
        }
        typed_text_reads_back(front);
        assert(hid_report::on_keyboard(s[s.len() - 1]));
        hid_report::keys_print_their_character(s.last());
        let keys = keys_of(s);
        assert(keys == keys_of(front).push(encoded(s.last())->0));
        assert forall|i: int| 0 <= i < s.len() implies printed(keys)[i] == #[trigger] t[i] by {
            if i < front.len() {
                assert(keys[i] == keys_of(front)[i]);
                assert(printed(keys_of(front))[i] == printed(keys)[i]);
                assert(front[i] == s[i]);
            }
        }
    }
    assert(printed(keys_of(s)) =~= t);
    if forall|i: int| 0 <= i < s.len() ==> #[trigger] s[i] != '\r' {
        assert(t =~= s);
    }
}

/// The positions that are reported are those of the characters that do not stand on the
/// keyboard, each counted in UTF-16 units: one for each character before it, and one more for
/// each of those that lies outside the basic plane.
pub proof fn reported_positions_are_those_of_untyped_characters(s: Seq<char>, p: nat)
    ensures
        untyped_positions(s).contains(p) <==> exists|k: int|
            0 <= k < s.len() && !hid_report::on_keyboard(#[trigger] s[k]) && p == k + s.take(
                k,
            ).filter(|c: char| c as u32 >= 0x10000).len(),
    decreases s.len(),
{
    if s.len() > 0 {
        let front = s.drop_last();
        let n = front.len() as int;
        reported_positions_are_those_of_untyped_characters(front, p);
        hid_report::keys_print_their_character(s.last());
        lemma_utf16_length_counts(front);
        assert(s.take(n) =~= front);
        let f = |c: char| c as u32 >= 0x10000;
        let all = untyped_positions(s);
        let before = untyped_positions(front);
        if all.contains(p) {
            let i = choose|i: int| 0 <= i < all.len() && all[i] == p;
            if i < before.len() {
                assert(before[i] == p);
                let k = choose|k: int|
                    0 <= k < front.len() && !hid_report::on_keyboard(#[trigger] front[k]) && p == k
                        + front.take(k).filter(f).len();
                assert(front.take(k) =~= s.take(k));
                assert(!hid_report::on_keyboard(s[k]));
            } else {
                assert(!hid_report::on_keyboard(s[n]));
            }
        }
        if exists|k: int|
            0 <= k < s.len() && !hid_report::on_keyboard(#[trigger] s[k]) && p == k + s.take(
                k,
            ).filter(f).len() {
            let k = choose|k: int|
                0 <= k < s.len() && !hid_report::on_keyboard(#[trigger] s[k]) && p == k + s.take(
                    k,
                ).filter(f).len();
            if k < n {
                assert(front.take(k) =~= s.take(k));
                assert(!hid_report::on_keyboard(front[k]));
                let i = choose|i: int| 0 <= i < before.len() && before[i] == p;
                assert(all[i] == p);
            } else {
                assert(all[before.len() as int] == p);
            }
        }
    }
}

proof fn lemma_utf16_length_counts(s: Seq<char>)
    ensures
        utf16_length(s) == s.len() + s.filter(|c: char| c as u32 >= 0x10000).len(),
    decreases s.len(),
{
    reveal(Seq::filter);
    if s.len() > 0 {
        lemma_utf16_length_counts(s.drop_last());
    }
}

/// The length that is reported counts UTF-16 units.
pub proof fn reported_length_counts_utf16_units(s: Seq<char>)
    ensures
        utf16_length(s) == s.len() + s.filter(|c: char| c as u32 >= 0x10000).len(),
{
    lemma_utf16_length_counts(s);
}

} // verus!
