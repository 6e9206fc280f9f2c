//! Materializing collection: turning a fully captured byte buffer into
//! decoded text lines or words. Text decoding itself is done by the
//! standard library; everything around it — line and word boundaries,
//! ordering, de-duplication — is proved here.

use vstd::prelude::*;
use crate::command::{Classification, DecodeFailed};
use crate::lines::{spec_split_lines, split_lines};

verus! {

/// What a byte buffer decodes to as text, if it is valid; a pure function
/// of the bytes alone.
pub uninterp spec fn utf8_decode(bytes: Seq<u8>) -> Option<Seq<char>>;

/// The lowercase folding of a text; a pure function of the characters
/// alone.
pub uninterp spec fn lower_of(s: Seq<char>) -> Seq<char>;

/// Relies on String::from_utf8: it returns the text a byte buffer decodes
/// to exactly when the buffer is valid text, and which depends on the bytes
/// alone.
#[verifier::external_body]
fn decode_utf8(bytes: Vec<u8>) -> (r: Result<String, DecodeFailed>)
    ensures
        r matches Ok(s) ==> utf8_decode(bytes@) == Some(s@),
        r is Ok <==> utf8_decode(bytes@) is Some,
{
    match String::from_utf8(bytes) {
        Ok(s) => Ok(s),
        Err(_) => Err(DecodeFailed),
    }
}

/// Relies on str::to_lowercase: the result depends on the characters alone.
#[verifier::external_body]
fn lowercase(s: &str) -> (r: String)
    ensures
        r@ == lower_of(s@),
{
    s.to_lowercase()
}

/// Copy a byte buffer.
fn copy_bytes(v: &Vec<u8>) -> (r: Vec<u8>)
    ensures
        r@ == v@,
{
    let mut r: Vec<u8> = Vec::new();
    let mut i: usize = 0;
    while i < v.len()
        invariant
            0 <= i <= v@.len(),
            r@ == v@.take(i as int),
        decreases v@.len() - i,
    {
        r.push(v[i]);
        proof {
            assert(r@ =~= v@.take(i as int + 1));
        }
        i += 1;
    }
    proof {
        assert(r@ =~= v@);
    }
    r
}

/// Decode a captured buffer into its text lines. Succeeds exactly when
/// every line is valid text; the lines keep their order.
pub fn output_lines(bytes: &[u8]) -> (r: Result<Vec<String>, DecodeFailed>)
    ensures
        r is Ok <==> (forall|i: int|
            0 <= i < spec_split_lines(bytes@).len() ==> (#[trigger] utf8_decode(
                spec_split_lines(bytes@)[i],
            )) is Some),
        r matches Ok(ls) ==> {
            &&& ls.deep_view().len() == spec_split_lines(bytes@).len()
            &&& forall|i: int|
                0 <= i < ls.deep_view().len() ==> Some(#[trigger] ls.deep_view()[i])
                    == utf8_decode(spec_split_lines(bytes@)[i])
        },
{
    let raw = split_lines(bytes);
    let mut out: Vec<String> = Vec::new();
    let mut i: usize = 0;
    while i < raw.len()
        invariant
            0 <= i <= raw@.len(),
            raw.deep_view() == spec_split_lines(bytes@),
            raw.deep_view().len() == raw@.len(),
            forall|t: int|
                0 <= t < raw@.len() ==> (#[trigger] raw@[t])@ == raw.deep_view()[t],
            out.deep_view().len() == i,
            forall|t: int|
                0 <= t < i ==> Some(#[trigger] out.deep_view()[t]) == utf8_decode(
                    raw.deep_view()[t],
                ),
        decreases raw@.len() - i,
    {
        let line = copy_bytes(&raw[i]);
        match decode_utf8(line) {
            Ok(s) => {
                let ghost old_out = out.deep_view();
                let ghost sv = s@;
                out.push(s);
                proof {
                    assert(out.deep_view() =~~= old_out.push(sv));
                }
            },
            Err(e) => {
                proof {
                    assert(utf8_decode(spec_split_lines(bytes@)[i as int]) is None);
                }
                return Err(e);
            },
        }
        i += 1;
    }
    proof {
        assert forall|t: int|
            0 <= t < spec_split_lines(bytes@).len() implies (#[trigger] utf8_decode(
            spec_split_lines(bytes@)[t],
        )) is Some by {
            assert(Some(out.deep_view()[t]) == utf8_decode(raw.deep_view()[t]));
        }
    }
    Ok(out)
}

/// A run's final classification once its captured text was decoded: a
/// decode failure turns an otherwise successful run into `DecodeFailed`;
/// a run that already failed keeps its own classification.
pub fn final_classification(base: Classification, decode_ok: bool) -> (r: Classification)
    ensures
        r == if base == Classification::Success && !decode_ok {
            Classification::DecodeFailed
        } else {
            base
        },
{
    if !decode_ok {
        match base {
            Classification::Success => Classification::DecodeFailed,
            _ => base,
        }
    } else {
        base
    }
}

/// An ASCII whitespace byte: space, tab, line feed, vertical tab, form
/// feed, or carriage return.
pub open spec fn is_ws(b: u8) -> bool {
    b == 32 || b == 9 || b == 10 || b == 11 || b == 12 || b == 13
}

/// The words of `s` after `cur`: maximal non-empty runs of bytes between
/// whitespace, with `cur` the partial word already begun.
pub open spec fn words_from(s: Seq<u8>, cur: Seq<u8>) -> Seq<Seq<u8>>
    decreases s.len(),
{
    if s.len() == 0 {
        if cur.len() == 0 {
            Seq::<Seq<u8>>::empty()
        } else {
            seq![cur]
        }
    } else if is_ws(s[0]) {
        (if cur.len() == 0 {
            Seq::<Seq<u8>>::empty()
        } else {
            seq![cur]
        }) + words_from(s.skip(1), Seq::empty())
    } else {
        words_from(s.skip(1), cur.push(s[0]))
    }
}

/// The whitespace-separated words of a buffer, in order, none empty.
pub open spec fn spec_split_words(s: Seq<u8>) -> Seq<Seq<u8>> {
    words_from(s, Seq::empty())
}

/// Split a buffer into its whitespace-separated words.
pub fn split_words(bytes: &[u8]) -> (r: Vec<Vec<u8>>)
    ensures
        r.deep_view() == spec_split_words(bytes@),
{
    let mut acc: Vec<Vec<u8>> = Vec::new();
    let mut cur: Vec<u8> = Vec::new();
    let mut i: usize = 0;
    proof {
        assert(bytes@.skip(0) =~= bytes@);
        assert(acc.deep_view() + words_from(bytes@, cur@) =~= words_from(bytes@, cur@));
    }
    while i < bytes.len()
        invariant
            0 <= i <= bytes@.len(),
            spec_split_words(bytes@) == acc.deep_view() + words_from(
                bytes@.skip(i as int),
                cur@,
            ),
        decreases bytes@.len() - i,
    {
        let ghost rem = bytes@.skip(i as int);
        let ghost rem_next = bytes@.skip(i as int + 1);
        proof {
            assert(rem.len() > 0);
            assert(rem[0] == bytes@[i as int]);
            assert(rem.skip(1) =~= rem_next);
        }
        let b = bytes[i];
        if is_ws_byte(b) {
            proof {
                assert(words_from(rem, cur@) == (if cur@.len() == 0 {
                    Seq::<Seq<u8>>::empty()
                } else {
                    seq![cur@]
                }) + words_from(rem_next, Seq::empty()));
            }
            if cur.len() > 0 {
                let ghost old_acc = acc.deep_view();
                let ghost old_cur = cur@;
                acc.push(cur);
                cur = Vec::new();
                proof {
                    assert(acc.deep_view() =~~= old_acc.push(old_cur));
                    assert(old_acc + (seq![old_cur] + words_from(rem_next, Seq::empty()))
                        =~= old_acc.push(old_cur) + words_from(rem_next, Seq::empty()));
                }
            } else {
                proof {
                    assert(cur@ =~= Seq::<u8>::empty());
                    assert(Seq::<Seq<u8>>::empty() + words_from(rem_next, Seq::empty())
                        =~= words_from(rem_next, Seq::empty()));
                }
            }
        } else {
            let ghost old_cur = cur@;
            proof {
                assert(words_from(rem, old_cur) == words_from(rem_next, old_cur.push(b)));
            }
            cur.push(b);
        }
        i += 1;
    }
    proof {
        assert(bytes@.skip(i as int) =~= Seq::<u8>::empty());
    }
    if cur.len() > 0 {
        let ghost old_acc = acc.deep_view();
        let ghost old_cur = cur@;
        acc.push(cur);
        proof {
            assert(acc.deep_view() =~~= old_acc.push(old_cur));
            assert(old_acc + seq![old_cur] =~= old_acc.push(old_cur));
        }
    } else {
        proof {
            assert(acc.deep_view() + Seq::<Seq<u8>>::empty() =~= acc.deep_view());
        }
    }
    acc
}

/// Whether a byte is ASCII whitespace.
fn is_ws_byte(b: u8) -> (r: bool)
    ensures
        r == is_ws(b),
{
    b == 32 || b == 9 || b == 10 || b == 11 || b == 12 || b == 13
}

/// The given words with every later repetition of an earlier word removed:
/// first occurrences, in order.
pub open spec fn spec_dedup(s: Seq<Seq<char>>) -> Seq<Seq<char>>
    decreases s.len(),
{
    if s.len() == 0 {
        Seq::<Seq<char>>::empty()
    } else {
        let prior = spec_dedup(s.drop_last());
        if prior.contains(s.last()) {
            prior
        } else {
            prior.push(s.last())
        }
    }
}

/// Whether the collection already holds this text.
fn contains_string(v: &Vec<String>, w: &String) -> (r: bool)
    ensures
        r == v.deep_view().contains(w@),
{
    let mut j: usize = 0;
    while j < v.len()
        invariant
            0 <= j <= v@.len(),
            v.deep_view().len() == v@.len(),
            forall|t: int| 0 <= t < v@.len() ==> (#[trigger] v@[t])@ == v.deep_view()[t],
            forall|t: int| 0 <= t < j ==> v.deep_view()[t] != w@,
        decreases v@.len() - j,
    {
        if v[j] == *w {
            proof {
                assert(v.deep_view()[j as int] == w@);
            }
            return true;
        }
        j += 1;
    }
    proof {
        if v.deep_view().contains(w@) {
            let k = choose|k: int| 0 <= k < v.deep_view().len() && v.deep_view()[k] == w@;
            assert(v.deep_view()[k] != w@);
        }
    }
    false
}

/// Keep the first occurrence of every word, dropping later repetitions;
/// the surviving words keep their order of first insertion.
pub fn dedup_words(words: Vec<String>) -> (r: Vec<String>)
    ensures
        r.deep_view() == spec_dedup(words.deep_view()),
{
    let mut out: Vec<String> = Vec::new();
    let mut i: usize = 0;
    let words = words;
    proof {
        assert(words.deep_view().take(0) =~= Seq::<Seq<char>>::empty());
    }
    while i < words.len()
        invariant
            0 <= i <= words@.len(),
            words.deep_view().len() == words@.len(),
            forall|t: int|
                0 <= t < words@.len() ==> (#[trigger] words@[t])@ == words.deep_view()[t],
            out.deep_view() == spec_dedup(words.deep_view().take(i as int)),
        decreases words@.len() - i,
    {
        let ghost prefix_next = words.deep_view().take(i as int + 1);
        proof {
            assert(prefix_next.drop_last() =~= words.deep_view().take(i as int));
            assert(prefix_next.last() == words.deep_view()[i as int]);
        }
        let w = words[i].clone();
        proof {
            assert(w@ == words.deep_view()[i as int]);
        }
        if !contains_string(&out, &w) {
            let ghost old_out = out.deep_view();
            let ghost wv = w@;
            out.push(w);
            proof {
                assert(out.deep_view() =~~= old_out.push(wv));
            }
        }
        i += 1;
    }
    proof {
        assert(words.deep_view().take(words@.len() as int) =~= words.deep_view());
    }
    out
}

/// The normalized text of one word of raw output: its decoded characters,
/// folded to lowercase.
pub open spec fn word_text(w: Seq<u8>) -> Seq<char> {
    lower_of(utf8_decode(w)->Some_0)
}

/// The distinct lowercase words of a captured buffer, in order of first
/// appearance. Succeeds exactly when every word of the buffer is valid
/// text.
pub fn interpreter_words(bytes: &[u8]) -> (r: Result<Vec<String>, DecodeFailed>)
    ensures
        r is Ok <==> (forall|i: int|
            0 <= i < spec_split_words(bytes@).len() ==> (#[trigger] utf8_decode(
                spec_split_words(bytes@)[i],
            )) is Some),
        r matches Ok(ws) ==> ws.deep_view() == spec_dedup(
            spec_split_words(bytes@).map_values(|w: Seq<u8>| word_text(w)),
        ),
{
    let raw = split_words(bytes);
    let mut texts: Vec<String> = Vec::new();
    let mut i: usize = 0;
    while i < raw.len()
        invariant
            0 <= i <= raw@.len(),
            raw.deep_view() == spec_split_words(bytes@),
            raw.deep_view().len() == raw@.len(),
            forall|t: int|
                0 <= t < raw@.len() ==> (#[trigger] raw@[t])@ == raw.deep_view()[t],
            texts.deep_view().len() == i,
            forall|t: int|
                0 <= t < i ==> (#[trigger] utf8_decode(raw.deep_view()[t])) is Some,
            forall|t: int|
                0 <= t < i ==> #[trigger] texts.deep_view()[t] == word_text(raw.deep_view()[t]),
        decreases raw@.len() - i,
    {
        let word = copy_bytes(&raw[i]);
        match decode_utf8(word) {
            Ok(s) => {
                let folded = lowercase(s.as_str());
                let ghost old_texts = texts.deep_view();
                let ghost fv = folded@;
                texts.push(folded);
                proof {
                    assert(texts.deep_view() =~~= old_texts.push(fv));
                }
            },
            Err(e) => {
                return Err(e);
            },
        }
        i += 1;
    }
    proof {
        assert(texts.deep_view() =~~= spec_split_words(bytes@).map_values(
            |w: Seq<u8>| word_text(w),
        ));
    }
    Ok(dedup_words(texts))
}

} // verus!
