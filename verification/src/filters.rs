//! Tests and filters on sequences and strings.

use vstd::prelude::*;
use vstd::string::StringSliceAdditionalSpecFns;
use vstd::utf8::{
    decode_utf8, decode_utf8_split, encode_utf8, encode_utf8_decode_utf8, encode_utf8_valid_utf8,
    is_char_boundary, length_of_first_scalar, pop_first_scalar, valid_utf8,
};
use crate::text::{chars_of, string_of};

verus! {

/// The characters of each string of a list.
pub open spec fn texts_of(strings: Seq<String>) -> Seq<Seq<char>> {
    strings.map_values(|s: String| s@)
}

/// True when the sequence has no items.
pub fn tester_empty<T>(seq: &[T]) -> (empty: bool)
    ensures
        empty == (seq@.len() == 0),
{
    seq.len() == 0
}

/// The encoding of two texts, one behind the other, is the encoding of the
/// first followed by that of the second.
proof fn lemma_encode_concat(first: Seq<char>, second: Seq<char>)
    ensures
        encode_utf8(first + second) == encode_utf8(first) + encode_utf8(second),
    decreases first.len(),
{
    if first.len() == 0 {
        assert(first + second =~= second);
        assert(encode_utf8(first) + encode_utf8(second) =~= encode_utf8(second));
    } else {
        assert((first + second)[0] == first[0]);
        assert((first + second).drop_first() =~= first.drop_first() + second);
        lemma_encode_concat(first.drop_first(), second);
        assert(encode_utf8(first + second) =~= encode_utf8(first) + encode_utf8(second));
    }
}

/// Where the first `n` bytes of a valid encoding are a valid encoding
/// themselves, a character begins at `n`.
proof fn lemma_valid_head_ends_at_boundary(bytes: Seq<u8>, n: int)
    requires
        valid_utf8(bytes),
        0 <= n <= bytes.len(),
        valid_utf8(bytes.subrange(0, n)),
    ensures
        is_char_boundary(bytes, n),
    decreases bytes.len(),
{
    if n > 0 {
        let head = bytes.subrange(0, n);
        let width = length_of_first_scalar(bytes);
        assert(head[0] == bytes[0]);
        assert(length_of_first_scalar(head) == width);
        assert(width <= n);
        assert(pop_first_scalar(head) =~= pop_first_scalar(bytes).subrange(0, n - width));
        lemma_valid_head_ends_at_boundary(pop_first_scalar(bytes), n - width);
    }
}

/// A text begins with a prefix, character for character, exactly when its
/// bytes begin with the bytes of the prefix. The empty prefix begins every
/// text, and a prefix longer than the text begins none.
pub proof fn law_starting_with(value: Seq<char>, prefix: Seq<char>)
    ensures
        prefix.is_prefix_of(value) <==> encode_utf8(prefix).is_prefix_of(encode_utf8(value)),
        prefix.len() == 0 ==> prefix.is_prefix_of(value),
        prefix.len() > value.len() ==> !prefix.is_prefix_of(value),
{
    let bytes = encode_utf8(value);
    let start = encode_utf8(prefix);
    if prefix.is_prefix_of(value) {
        let rest = value.subrange(prefix.len() as int, value.len() as int);
        assert(value =~= prefix + rest);
        lemma_encode_concat(prefix, rest);
        assert(bytes.subrange(0, start.len() as int) =~= start);
    }
    if start.is_prefix_of(bytes) {
        let n = start.len() as int;
        encode_utf8_valid_utf8(value);
        encode_utf8_valid_utf8(prefix);
        assert(bytes.subrange(0, n) == start);
        lemma_valid_head_ends_at_boundary(bytes, n);
        decode_utf8_split(bytes, n);
        encode_utf8_decode_utf8(value);
        encode_utf8_decode_utf8(prefix);
        let rest = decode_utf8(bytes.subrange(n, bytes.len() as int));
        assert(value =~= prefix + rest);
        assert(value.subrange(0, prefix.len() as int) =~= prefix);
    }
}

/// True when `value` begins with `prefix`: character for character, which
/// is byte for byte.
pub fn tester_starting_with(value: &str, prefix: &str) -> (starts: bool)
    ensures
        starts == prefix@.is_prefix_of(value@),
        starts == prefix.spec_bytes().is_prefix_of(value.spec_bytes()),
{
    proof {
        law_starting_with(value@, prefix@);
    }
    let text = chars_of(value);
    let start = chars_of(prefix);
    if start.len() > text.len() {
        return false;
    }
    let mut i: usize = 0;
    while i < start.len()
        invariant
            i <= start.len() <= text.len(),
            start@ == prefix@,
            text@ == value@,
            prefix@.is_prefix_of(value@) == prefix.spec_bytes().is_prefix_of(value.spec_bytes()),
            start@.subrange(0, i as int) == text@.subrange(0, i as int),
        decreases start.len() - i,
    {
        if start[i] != text[i] {
            assert(!start@.is_prefix_of(text@)) by {
                let head = text@.subrange(0, start.len() as int);
                assert(head[i as int] == text@[i as int]);
                assert(start@[i as int] != head[i as int]);
            }
            return false;
        }
        assert(start@.subrange(0, i + 1) =~= start@.subrange(0, i as int).push(start@[i as int]));
        assert(text@.subrange(0, i + 1) =~= text@.subrange(0, i as int).push(text@[i as int]));
        i += 1;
    }
    assert(start@.subrange(0, start.len() as int) =~= start@);
    true
}

/// What a character becomes when slashes are added: a backslash, a double
/// quote and a single quote get a backslash in front.
pub open spec fn escaped_char(c: char) -> Seq<char> {
    if c == '\\' || c == '"' || c == '\'' {
        seq!['\\', c]
    } else {
        seq![c]
    }
}

/// The text with a backslash in front of every backslash, double quote and
/// single quote, and nothing else changed.
pub open spec fn escaped(text: Seq<char>) -> Seq<char>
    decreases text.len(),
{
    if text.len() == 0 {
        Seq::empty()
    } else {
        escaped(text.drop_last()) + escaped_char(text.last())
    }
}

/// Escapes backslashes and quotes, so that the value can stand inside a
/// quoted literal of a script.
pub fn filter_add_slashes(value: &str) -> (out: String)
    ensures
        out@ == escaped(value@),
{
    let text = chars_of(value);
    let mut out = String::new();
    let mut i: usize = 0;
    assert(text@.take(0) =~= Seq::<char>::empty());
    while i < text.len()
        invariant
            i <= text.len(),
            text@ == value@,
            out@ == escaped(text@.take(i as int)),
        decreases text.len() - i,
    {
        let c = text[i];
        proof {
            assert(text@.take(i + 1).drop_last() =~= text@.take(i as int));
            assert(text@.take(i + 1).last() == c);
        }
        let ghost before = out@;
        if c == '\\' || c == '"' || c == '\'' {
            out.push('\\');
        }
        out.push(c);
        assert(out@ =~= before + escaped_char(c));
        i += 1;
    }
    assert(text@.take(text.len() as int) =~= text@);
    out
}

/// `separator` stands in `text` at the position `at`.
pub open spec fn occurs_at(text: Seq<char>, separator: Seq<char>, at: int) -> bool {
    &&& 0 <= at
    &&& at + separator.len() <= text.len()
    &&& text.subrange(at, at + separator.len()) == separator
}

/// `at` is the first position of `text` at which `separator` stands.
pub open spec fn first_occurrence(text: Seq<char>, separator: Seq<char>, at: int) -> bool {
    &&& occurs_at(text, separator, at)
    &&& forall|earlier: int| 0 <= earlier < at ==> !occurs_at(text, separator, earlier)
}

/// The pieces of `text` between the occurrences of a separator that is not
/// empty, found from left to right without overlap. Empty pieces are kept.
pub open spec fn pieces(text: Seq<char>, separator: Seq<char>) -> Seq<Seq<char>>
    decreases text.len(),
{
    if separator.len() > 0 && exists|at: int| first_occurrence(text, separator, at) {
        let at = choose|at: int| first_occurrence(text, separator, at);
        seq![text.subrange(0, at)] + pieces(
            text.subrange(at + separator.len(), text.len() as int),
            separator,
        )
    } else {
        seq![text]
    }
}

/// Every character of `text` as a text of its own.
pub open spec fn each_alone(text: Seq<char>) -> Seq<Seq<char>> {
    text.map_values(|c: char| seq![c])
}

/// What splitting `text` on `separator` gives. An empty separator stands
/// before, between and after the characters: the pieces are then an empty
/// text, each character by itself, and an empty text.
pub open spec fn split(text: Seq<char>, separator: Seq<char>) -> Seq<Seq<char>> {
    if separator.len() == 0 {
        seq![Seq::empty()] + each_alone(text) + seq![Seq::empty()]
    } else {
        pieces(text, separator)
    }
}

/// Where the separator first stands at `at`, the pieces are the text before
/// it and then the pieces of the text behind it.
proof fn lemma_pieces_found(text: Seq<char>, separator: Seq<char>, at: int)
    requires
        separator.len() > 0,
        first_occurrence(text, separator, at),
    ensures
        pieces(text, separator) == seq![text.subrange(0, at)] + pieces(
            text.subrange(at + separator.len(), text.len() as int),
            separator,
        ),
{
    let chosen = choose|at: int| first_occurrence(text, separator, at);
    assert(first_occurrence(text, separator, chosen));
    if chosen < at {
        assert(!occurs_at(text, separator, chosen));
    } else if at < chosen {
        assert(!occurs_at(text, separator, at));
    }
}

/// The parts put together again, with the separator between them.
pub open spec fn rejoined(parts: Seq<Seq<char>>, separator: Seq<char>) -> Seq<char>
    decreases parts.len(),
{
    if parts.len() == 0 {
        Seq::empty()
    } else if parts.len() == 1 {
        parts[0]
    } else {
        parts[0] + separator + rejoined(parts.drop_first(), separator)
    }
}

/// The pieces between the occurrences of a separator, put together with the
/// separator between them, are the text.
proof fn lemma_pieces_rejoin(text: Seq<char>, separator: Seq<char>)
    requires
        separator.len() > 0,
    ensures
        pieces(text, separator).len() >= 1,
        rejoined(pieces(text, separator), separator) == text,
    decreases text.len(),
{
    if exists|at: int| first_occurrence(text, separator, at) {
        let at = choose|at: int| first_occurrence(text, separator, at);
        let rest = text.subrange(at + separator.len(), text.len() as int);
        lemma_pieces_rejoin(rest, separator);
        let all = seq![text.subrange(0, at)] + pieces(rest, separator);
        assert(all.drop_first() =~= pieces(rest, separator));
        assert(all[0] == text.subrange(0, at));
        assert(text =~= text.subrange(0, at) + text.subrange(at, at + separator.len()) + rest);
    }
}

/// The characters of a text, each alone and followed by an empty text, put
/// together with nothing between them, are the text.
proof fn lemma_each_alone_rejoins(text: Seq<char>)
    ensures
        rejoined(each_alone(text) + seq![Seq::empty()], Seq::empty()) == text,
    decreases text.len(),
{
    let all = each_alone(text) + seq![Seq::<char>::empty()];
    if text.len() == 0 {
        assert(all[0] =~= text);
    } else {
        lemma_each_alone_rejoins(text.drop_first());
        assert(all.drop_first() =~= each_alone(text.drop_first()) + seq![Seq::<char>::empty()]);
        assert(all[0] == seq![text[0]]);
        assert(text =~= seq![text[0]] + Seq::<char>::empty() + text.drop_first());
    }
}

/// Splitting loses nothing: there is always a piece, and the pieces put
/// together again with the separator between them are the text.
pub proof fn law_split_rejoins(text: Seq<char>, separator: Seq<char>)
    ensures
        split(text, separator).len() >= 1,
        rejoined(split(text, separator), separator) == text,
{
    if separator.len() == 0 {
        let all = split(text, separator);
        let tail = each_alone(text) + seq![Seq::<char>::empty()];
        lemma_each_alone_rejoins(text);
        assert(all.drop_first() =~= tail);
        assert(all[0] == Seq::<char>::empty());
        assert(separator =~= Seq::<char>::empty());
        assert(Seq::<char>::empty() + Seq::<char>::empty() + text =~= text);
    } else {
        lemma_pieces_rejoin(text, separator);
    }
}

/// True when `separator` stands in `text` at the position `at`.
fn stands_at(text: &Vec<char>, separator: &Vec<char>, at: usize) -> (found: bool)
    requires
        at + separator.len() <= text.len(),
    ensures
        found == occurs_at(text@, separator@, at as int),
{
    let ghost window = text@.subrange(at as int, at + separator.len());
    let mut k: usize = 0;
    while k < separator.len()
        invariant
            k <= separator.len(),
            at + separator.len() <= text.len(),
            window == text@.subrange(at as int, at + separator.len()),
            window.subrange(0, k as int) == separator@.subrange(0, k as int),
        decreases separator.len() - k,
    {
        if text[at + k] != separator[k] {
            assert(window[k as int] != separator@[k as int]);
            return false;
        }
        assert(window.subrange(0, k + 1) =~= window.subrange(0, k as int).push(window[k as int]));
        assert(separator@.subrange(0, k + 1) =~= separator@.subrange(0, k as int).push(
            separator@[k as int],
        ));
        k += 1;
    }
    assert(window.subrange(0, separator.len() as int) =~= window);
    assert(separator@.subrange(0, separator.len() as int) =~= separator@);
    true
}

/// Splits `text` at every character.
fn split_everywhere(text: &Vec<char>) -> (out: Vec<String>)
    ensures
        texts_of(out@) == split(text@, Seq::empty()),
{
    let mut out: Vec<String> = Vec::new();
    out.push(String::new());
    let mut i: usize = 0;
    while i < text.len()
        invariant
            i <= text.len(),
            texts_of(out@) =~= seq![Seq::<char>::empty()] + each_alone(text@.take(i as int)),
        decreases text.len() - i,
    {
        let piece = string_of(text, i, i + 1);
        let ghost before = texts_of(out@);
        assert(piece@ =~= seq![text@[i as int]]);
        out.push(piece);
        assert(texts_of(out@) =~= before.push(piece@));
        assert(each_alone(text@.take(i + 1)) =~= each_alone(text@.take(i as int)).push(
            seq![text@[i as int]],
        ));
        i += 1;
    }
    assert(text@.take(text.len() as int) =~= text@);
    out.push(String::new());
    assert(texts_of(out@) =~= split(text@, Seq::empty()));
    out
}

/// Splits a string on a separator. Every occurrence of the separator,
/// found from left to right without overlap, ends one piece and begins the
/// next; empty pieces are kept, so a value without the separator gives the
/// value itself as the only piece.
pub fn filter_split(value: &str, separator: &str) -> (out: Vec<String>)
    ensures
        texts_of(out@) == split(value@, separator@),
{
    let text = chars_of(value);
    let mark = chars_of(separator);
    if mark.len() == 0 {
        return split_everywhere(&text);
    }
    let mut out: Vec<String> = Vec::new();
    let mut start: usize = 0;
    let mut i: usize = 0;
    assert(text@.subrange(0, text.len() as int) =~= text@);
    while mark.len() <= text.len() - i
        invariant
            start <= i <= text.len(),
            mark.len() > 0,
            text@ == value@,
            mark@ == separator@,
            forall|j: int| start <= j < i ==> !occurs_at(text@, mark@, j),
            pieces(text@, mark@) == texts_of(out@) + pieces(
                text@.subrange(start as int, text.len() as int),
                mark@,
            ),
        decreases text.len() - i,
    {
        let ghost rest = text@.subrange(start as int, text.len() as int);
        if stands_at(&text, &mark, i) {
            proof {
                assert forall|j: int| 0 <= j implies (occurs_at(rest, mark@, j) <==> occurs_at(
                    text@,
                    mark@,
                    start + j,
                )) by {
                    if j + mark@.len() <= rest.len() {
                        assert(rest.subrange(j, j + mark@.len()) =~= text@.subrange(
                            start + j,
                            start + j + mark@.len(),
                        ));
                    }
                }
                assert(first_occurrence(rest, mark@, i - start));
                lemma_pieces_found(rest, mark@, i - start);
                assert(rest.subrange(0, i - start) =~= text@.subrange(start as int, i as int));
                assert(rest.subrange(i - start + mark@.len(), rest.len() as int)
                    =~= text@.subrange(i + mark@.len(), text.len() as int));
            }
            let piece = string_of(&text, start, i);
            let ghost before = texts_of(out@);
            out.push(piece);
            assert(texts_of(out@) =~= before + seq![piece@]);
            i += mark.len();
            start = i;
        } else {
            i += 1;
        }
    }
    proof {
        let rest = text@.subrange(start as int, text.len() as int);
        assert forall|j: int| !occurs_at(rest, mark@, j) by {
            if 0 <= j && j + mark@.len() <= rest.len() {
                assert(rest.subrange(j, j + mark@.len()) =~= text@.subrange(
                    start + j,
                    start + j + mark@.len(),
                ));
                assert(!occurs_at(text@, mark@, start + j));
            }
        }
    }
    let piece = string_of(&text, start, text.len());
    let ghost before = texts_of(out@);
    out.push(piece);
    assert(texts_of(out@) =~= before + seq![piece@]);
    out
}

} // verus!
