//! Splitting captured byte streams into lines. A line is a maximal run of
//! bytes without a newline; a trailing newline does not open an empty final
//! line, matching how line readers report text.

use vstd::prelude::*;

verus! {

/// The line separator.
pub const NEWLINE: u8 = 10;

/// Attach `cur` in front of the first line of `rest`; when `rest` is empty,
/// `cur` alone forms the last (unterminated) line unless it is empty too.
pub open spec fn prepend_line(cur: Seq<u8>, rest: Seq<Seq<u8>>) -> Seq<Seq<u8>> {
    if rest.len() == 0 {
        if cur.len() == 0 {
            Seq::<Seq<u8>>::empty()
        } else {
            seq![cur]
        }
    } else {
        seq![cur + rest[0]] + rest.skip(1)
    }
}

/// The lines of `s`: maximal newline-free runs, with a trailing newline
/// closing the last line rather than opening an empty one.
pub open spec fn spec_split_lines(s: Seq<u8>) -> Seq<Seq<u8>>
    decreases s.len(),
{
    if s.len() == 0 {
        Seq::<Seq<u8>>::empty()
    } else if s[0] == NEWLINE {
        seq![Seq::<u8>::empty()] + spec_split_lines(s.skip(1))
    } else {
        prepend_line(seq![s[0]], spec_split_lines(s.skip(1)))
    }
}

/// Prepending an empty partial line changes nothing.
pub proof fn lemma_prepend_empty(rest: Seq<Seq<u8>>)
    ensures
        prepend_line(Seq::<u8>::empty(), rest) == rest,
{
    if rest.len() == 0 {
    } else {
        assert(prepend_line(Seq::<u8>::empty(), rest) =~= rest);
    }
}

/// A newline after `cur` closes `cur` as a full line.
pub proof fn lemma_prepend_newline(cur: Seq<u8>, rest: Seq<Seq<u8>>)
    ensures
        prepend_line(cur, seq![Seq::<u8>::empty()] + rest) == seq![cur] + rest,
{
    let with_empty = seq![Seq::<u8>::empty()] + rest;
    assert(with_empty.len() > 0);
    assert(cur + with_empty[0] =~= cur);
    assert(with_empty.skip(1) =~= rest);
    assert(prepend_line(cur, with_empty) =~= seq![cur] + rest);
}

/// Extending the partial line byte by byte commutes with prepending.
pub proof fn lemma_prepend_push(cur: Seq<u8>, b: u8, rest: Seq<Seq<u8>>)
    ensures
        prepend_line(cur, prepend_line(seq![b], rest)) == prepend_line(cur.push(b), rest),
{
    if rest.len() == 0 {
        assert(cur + seq![b] =~= cur.push(b));
        assert(prepend_line(cur, seq![seq![b]]) =~= seq![cur.push(b)]);
    } else {
        let inner = seq![seq![b] + rest[0]] + rest.skip(1);
        assert(inner.len() > 0);
        assert(inner.skip(1) =~= rest.skip(1));
        assert(cur + inner[0] =~= cur.push(b) + rest[0]);
        assert(prepend_line(cur, inner) =~= seq![cur.push(b) + rest[0]] + rest.skip(1));
        assert(prepend_line(cur.push(b), rest) =~= seq![cur.push(b) + rest[0]] + rest.skip(1));
    }
}

/// Split a captured buffer into its lines.
pub fn split_lines(bytes: &[u8]) -> (r: Vec<Vec<u8>>)
    ensures
        r.deep_view() == spec_split_lines(bytes@),
{
    let mut acc: Vec<Vec<u8>> = Vec::new();
    let mut cur: Vec<u8> = Vec::new();
    let mut i: usize = 0;
    proof {
        lemma_prepend_empty(spec_split_lines(bytes@.skip(0)));
        assert(bytes@.skip(0) =~= bytes@);
        assert(acc.deep_view() + spec_split_lines(bytes@) =~= spec_split_lines(bytes@));
    }
    while i < bytes.len()
        invariant
            i <= bytes@.len(),
            spec_split_lines(bytes@) == acc.deep_view() + prepend_line(
                cur@,
                spec_split_lines(bytes@.skip(i as int)),
            ),
        decreases bytes@.len() - i,
    {
        let ghost rem = bytes@.skip(i as int);
        let ghost rem_next = bytes@.skip(i as int + 1);
        proof {
            assert(rem.len() > 0);
            assert(rem[0] == bytes@[i as int]);
            assert(rem.skip(1) =~= rem_next);
        }
        let b = bytes[i];
        if b == NEWLINE {
            let ghost old_acc = acc.deep_view();
            let ghost old_cur = cur@;
            proof {
                assert(spec_split_lines(rem) == seq![Seq::<u8>::empty()] + spec_split_lines(
                    rem_next,
                ));
                lemma_prepend_newline(old_cur, spec_split_lines(rem_next));
            }
            acc.push(cur);
            cur = Vec::new();
            proof {
                assert(acc.deep_view() =~~= old_acc.push(old_cur));
                lemma_prepend_empty(spec_split_lines(rem_next));
                assert(old_acc + (seq![old_cur] + spec_split_lines(rem_next)) =~= old_acc.push(
                    old_cur,
                ) + spec_split_lines(rem_next));
            }
        } else {
            proof {
                assert(spec_split_lines(rem) == prepend_line(
                    seq![rem[0]],
                    spec_split_lines(rem_next),
                ));
                lemma_prepend_push(cur@, b, spec_split_lines(rem_next));
            }
            cur.push(b);
        }
        i += 1;
    }
    proof {
        assert(bytes@.skip(i as int) =~= Seq::<u8>::empty());
    }
    if cur.len() > 0 {
        let ghost old_acc = acc.deep_view();
        let ghost old_cur = cur@;
        acc.push(cur);
        proof {
            assert(acc.deep_view() =~~= old_acc.push(old_cur));
            assert(old_acc + prepend_line(old_cur, Seq::<Seq<u8>>::empty()) =~= old_acc.push(
                old_cur,
            ));
        }
    } else {
        proof {
            assert(acc.deep_view() + prepend_line(cur@, Seq::<Seq<u8>>::empty())
                =~= acc.deep_view());
        }
    }
    acc
}

/// All bytes of the given lines joined back with one newline closing each
/// line.
pub open spec fn join_lines(lines: Seq<Seq<u8>>) -> Seq<u8>
    decreases lines.len(),
{
    if lines.len() == 0 {
        Seq::<u8>::empty()
    } else {
        lines[0] + seq![NEWLINE] + join_lines(lines.skip(1))
    }
}

/// Joining one more closed line appends its bytes and a newline.
pub proof fn lemma_join_push(lines: Seq<Seq<u8>>, l: Seq<u8>)
    ensures
        join_lines(lines.push(l)) == join_lines(lines) + l + seq![NEWLINE],
    decreases lines.len(),
{
    if lines.len() == 0 {
        assert(lines.push(l)[0] == l);
        assert(lines.push(l).skip(1) =~= Seq::<Seq<u8>>::empty());
        assert(join_lines(lines.push(l)) == lines.push(l)[0] + seq![NEWLINE] + join_lines(
            lines.push(l).skip(1),
        ));
        assert(join_lines(lines.push(l)) =~= join_lines(lines) + l + seq![NEWLINE]);
    } else {
        assert(lines.push(l).skip(1) =~= lines.skip(1).push(l));
        lemma_join_push(lines.skip(1), l);
        assert(lines.push(l)[0] == lines[0]);
        assert(join_lines(lines.push(l)) == lines[0] + seq![NEWLINE] + join_lines(
            lines.skip(1).push(l),
        ));
        assert(lines[0] + seq![NEWLINE] + (join_lines(lines.skip(1)) + l + seq![NEWLINE])
            =~= join_lines(lines) + l + seq![NEWLINE]);
    }
}

/// A closed, newline-free line at the front splits off as the first line.
pub proof fn lemma_split_closed_line(l: Seq<u8>, rest: Seq<u8>)
    requires
        !l.contains(NEWLINE),
    ensures
        spec_split_lines(l + seq![NEWLINE] + rest) == seq![l] + spec_split_lines(rest),
    decreases l.len(),
{
    let s = l + seq![NEWLINE] + rest;
    if l.len() == 0 {
        assert(s[0] == NEWLINE);
        assert(s.skip(1) =~= rest);
        assert(l =~= Seq::<u8>::empty());
        assert(seq![Seq::<u8>::empty()] + spec_split_lines(rest) =~= seq![l] + spec_split_lines(
            rest,
        ));
    } else {
        assert(l[0] != NEWLINE) by {
            if l[0] == NEWLINE {
                assert(l.contains(NEWLINE));
            }
        }
        assert(s[0] == l[0]);
        assert(s[0] != NEWLINE);
        let lt = l.skip(1);
        assert(!lt.contains(NEWLINE)) by {
            if lt.contains(NEWLINE) {
                let k = choose|k: int| 0 <= k < lt.len() && lt[k] == NEWLINE;
                assert(l[k + 1] == NEWLINE);
                assert(l.contains(NEWLINE));
            }
        }
        lemma_split_closed_line(lt, rest);
        assert(s.skip(1) =~= lt + seq![NEWLINE] + rest);
        assert(spec_split_lines(s) == prepend_line(
            seq![l[0]],
            seq![lt] + spec_split_lines(rest),
        ));
        let inner = seq![lt] + spec_split_lines(rest);
        assert(inner.len() > 0);
        assert(inner[0] == lt);
        assert(seq![l[0]] + lt =~= l);
        assert(inner.skip(1) =~= spec_split_lines(rest));
        assert(prepend_line(seq![l[0]], inner) =~= seq![l] + spec_split_lines(rest));
    }
}

/// Joined closed lines followed by any tail split back into those lines and
/// the tail's lines.
pub proof fn lemma_split_join(lines: Seq<Seq<u8>>, tail: Seq<u8>)
    requires
        forall|k: int| 0 <= k < lines.len() ==> !(#[trigger] lines[k]).contains(NEWLINE),
    ensures
        spec_split_lines(join_lines(lines) + tail) == lines + spec_split_lines(tail),
    decreases lines.len(),
{
    if lines.len() == 0 {
        assert(join_lines(lines) + tail =~= tail);
        assert(lines + spec_split_lines(tail) =~= spec_split_lines(tail));
    } else {
        lemma_split_join(lines.skip(1), tail);
        assert(join_lines(lines) + tail =~= lines[0] + seq![NEWLINE] + (join_lines(lines.skip(1))
            + tail));
        lemma_split_closed_line(lines[0], join_lines(lines.skip(1)) + tail);
        assert(seq![lines[0]] + (lines.skip(1) + spec_split_lines(tail)) =~= lines
            + spec_split_lines(tail));
    }
}

/// A newline-free buffer splits into at most the one line it is.
pub proof fn lemma_split_nl_free(l: Seq<u8>)
    requires
        !l.contains(NEWLINE),
    ensures
        spec_split_lines(l) == if l.len() == 0 {
            Seq::<Seq<u8>>::empty()
        } else {
            seq![l]
        },
    decreases l.len(),
{
    if l.len() == 0 {
    } else {
        assert(l[0] != NEWLINE) by {
            if l[0] == NEWLINE {
                assert(l.contains(NEWLINE));
            }
        }
        let lt = l.skip(1);
        assert(!lt.contains(NEWLINE)) by {
            if lt.contains(NEWLINE) {
                let k = choose|k: int| 0 <= k < lt.len() && lt[k] == NEWLINE;
                assert(l[k + 1] == NEWLINE);
                assert(l.contains(NEWLINE));
            }
        }
        lemma_split_nl_free(lt);
        if lt.len() == 0 {
            assert(seq![l[0]] =~= l);
            assert(prepend_line(seq![l[0]], Seq::<Seq<u8>>::empty()) =~= seq![l]);
        } else {
            let inner = seq![lt];
            assert(inner.skip(1) =~= Seq::<Seq<u8>>::empty());
            assert(seq![l[0]] + lt =~= l);
            assert(prepend_line(seq![l[0]], inner) =~= seq![l]);
        }
    }
}

/// Whether `needle` occurs as a contiguous run inside `hay`.
pub open spec fn contains_subrange(hay: Seq<u8>, needle: Seq<u8>) -> bool {
    exists|k: int|
        0 <= k <= hay.len() - needle.len() && #[trigger] hay.subrange(k, k + needle.len() as int)
            == needle
}

/// Whether `needle` occurs in `hay` starting at `k`.
fn matches_at(hay: &[u8], needle: &[u8], k: usize) -> (r: bool)
    requires
        k + needle@.len() <= hay@.len(),
    ensures
        r == (hay@.subrange(k as int, k as int + needle@.len() as int) == needle@),
{
    let hay_len = hay.len();
    let mut j: usize = 0;
    while j < needle.len()
        invariant
            0 <= j <= needle@.len(),
            k + needle@.len() <= hay@.len(),
            hay@.len() == hay_len,
            forall|t: int| 0 <= t < j ==> hay@[k + t] == needle@[t],
        decreases needle@.len() - j,
    {
        if hay[k + j] != needle[j] {
            proof {
                let sub = hay@.subrange(k as int, k as int + needle@.len() as int);
                assert(sub[j as int] == hay@[k + j]);
                assert(sub != needle@);
            }
            return false;
        }
        j += 1;
    }
    proof {
        assert(hay@.subrange(k as int, k as int + needle@.len() as int) =~= needle@);
    }
    true
}

/// Whether `needle` occurs as a contiguous run inside `hay`.
pub fn contains_bytes(hay: &[u8], needle: &[u8]) -> (r: bool)
    ensures
        r == contains_subrange(hay@, needle@),
{
    if needle.len() > hay.len() {
        return false;
    }
    if needle.len() == 0 {
        proof {
            assert(hay@.subrange(0, 0 + needle@.len() as int) =~= needle@);
        }
        return true;
    }
    let mut k: usize = 0;
    while k <= hay.len() - needle.len()
        invariant
            0 < needle@.len() <= hay@.len(),
            0 <= k <= hay@.len() - needle@.len() + 1,
            forall|t: int|
                0 <= t < k ==> #[trigger] hay@.subrange(t, t + needle@.len() as int) != needle@,
        decreases hay@.len() - needle@.len() + 1 - k,
    {
        if matches_at(hay, needle, k) {
            return true;
        }
        k += 1;
    }
    false
}

/// Keep, in order, the lines that contain `needle` as a contiguous run.
pub fn filter_lines_containing(lines: &Vec<Vec<u8>>, needle: &[u8]) -> (r: Vec<Vec<u8>>)
    ensures
        r.deep_view() == lines.deep_view().filter(|l: Seq<u8>| contains_subrange(l, needle@)),
{
    let mut r: Vec<Vec<u8>> = Vec::new();
    let mut i: usize = 0;
    while i < lines.len()
        invariant
            0 <= i <= lines@.len(),
            lines.deep_view().len() == lines@.len(),
            forall|t: int|
                0 <= t < lines@.len() ==> lines.deep_view()[t] == (#[trigger] lines@[t])@,
            r.deep_view() == lines.deep_view().take(i as int).filter(
                |l: Seq<u8>| contains_subrange(l, needle@),
            ),
        decreases lines@.len() - i,
    {
        let ghost prefix = lines.deep_view().take(i as int);
        let ghost prefix_next = lines.deep_view().take(i as int + 1);
        proof {
            assert(prefix_next.drop_last() =~= prefix);
            assert(prefix_next.last() == lines.deep_view()[i as int]);
            reveal(Seq::filter);
        }
        let keep = contains_bytes(lines[i].as_slice(), needle);
        if keep {
            let mut copied: Vec<u8> = Vec::new();
            let line = &lines[i];
            let mut j: usize = 0;
            while j < line.len()
                invariant
                    0 <= j <= line@.len(),
                    copied@ == line@.take(j as int),
                decreases line@.len() - j,
            {
                copied.push(line[j]);
                proof {
                    assert(copied@ =~= line@.take(j as int + 1));
                }
                j += 1;
            }
            proof {
                assert(copied@ =~= line@);
            }
            r.push(copied);
            proof {
                assert(r.deep_view() =~= r.deep_view().drop_last().push(line@));
                assert(r.deep_view() == prefix_next.filter(
                    |l: Seq<u8>| contains_subrange(l, needle@),
                ));
            }
        }
        i += 1;
    }
    proof {
        assert(lines.deep_view().take(lines@.len() as int) =~= lines.deep_view());
    }
    r
}

} // verus!
