//! Parsing the one-line log format a version-control tool prints: each
//! line opens with a hexadecimal commit hash, and the rest of the line is
//! the commit message. Lines that do not open with a hash are skipped, and
//! only the first few matches are kept.

use vstd::prelude::*;

verus! {

/// One parsed log line: the commit hash and its message.
#[derive(Clone, Debug)]
pub struct CommitObj {
    pub hash: String,
    pub message: String,
}

/// A hexadecimal digit.
pub open spec fn is_hex_char(c: char) -> bool {
    ('0' <= c && c <= '9') || ('a' <= c && c <= 'f') || ('A' <= c && c <= 'F')
}

/// A blank the message is trimmed of.
pub open spec fn is_blank(c: char) -> bool {
    c == ' ' || c == '\t'
}

/// How many hexadecimal digits the text opens with.
pub open spec fn hex_prefix_len(s: Seq<char>) -> int
    decreases s.len(),
{
    if s.len() == 0 || !is_hex_char(s[0]) {
        0
    } else {
        1 + hex_prefix_len(s.skip(1))
    }
}

/// The text with its leading blanks dropped.
pub open spec fn trim_front(s: Seq<char>) -> Seq<char>
    decreases s.len(),
{
    if s.len() > 0 && is_blank(s[0]) {
        trim_front(s.skip(1))
    } else {
        s
    }
}

/// The text with its trailing blanks dropped.
pub open spec fn trim_back(s: Seq<char>) -> Seq<char>
    decreases s.len(),
{
    if s.len() > 0 && is_blank(s.last()) {
        trim_back(s.drop_last())
    } else {
        s
    }
}

/// The text with leading and trailing blanks dropped.
pub open spec fn spec_trim(s: Seq<char>) -> Seq<char> {
    trim_back(trim_front(s))
}

/// What a log line parses to: the hash it opens with and the trimmed
/// message after it, or nothing when no hash opens the line.
pub open spec fn spec_parse_line(s: Seq<char>) -> Option<(Seq<char>, Seq<char>)> {
    let k = hex_prefix_len(s);
    if k == 0 {
        None
    } else {
        Some((s.subrange(0, k), spec_trim(s.subrange(k, s.len() as int))))
    }
}

/// The first `max` parsed lines, skipping lines without a hash.
pub open spec fn spec_parse_commits(lines: Seq<Seq<char>>, max: nat) -> Seq<(Seq<char>, Seq<char>)>
    decreases lines.len(),
{
    if lines.len() == 0 || max == 0 {
        Seq::<(Seq<char>, Seq<char>)>::empty()
    } else {
        match spec_parse_line(lines[0]) {
            Some(p) => seq![p] + spec_parse_commits(lines.skip(1), (max - 1) as nat),
            None => spec_parse_commits(lines.skip(1), max),
        }
    }
}

/// A scan that saw `k` hexadecimal digits and then a stop fixes the hash
/// prefix length.
proof fn lemma_hex_prefix(s: Seq<char>, k: int)
    requires
        0 <= k <= s.len(),
        forall|j: int| 0 <= j < k ==> is_hex_char(#[trigger] s[j]),
        k == s.len() || !is_hex_char(s[k]),
    ensures
        hex_prefix_len(s) == k,
    decreases k,
{
    if k == 0 {
    } else {
        lemma_hex_prefix(s.skip(1), k - 1);
    }
}

/// A scan that skipped `a` leading blanks and stopped fixes the front
/// trim.
proof fn lemma_trim_front(s: Seq<char>, a: int)
    requires
        0 <= a <= s.len(),
        forall|j: int| 0 <= j < a ==> is_blank(#[trigger] s[j]),
        a == s.len() || !is_blank(s[a]),
    ensures
        trim_front(s) == s.skip(a),
    decreases a,
{
    if a == 0 {
        assert(s.skip(0) =~= s);
    } else {
        lemma_trim_front(s.skip(1), a - 1);
        assert(s.skip(1).skip(a - 1) =~= s.skip(a));
    }
}

/// A scan that dropped the trailing blanks after `b` and stopped fixes the
/// back trim.
proof fn lemma_trim_back(s: Seq<char>, b: int)
    requires
        0 <= b <= s.len(),
        forall|j: int| b <= j < s.len() ==> is_blank(#[trigger] s[j]),
        b == 0 || !is_blank(s[b - 1]),
    ensures
        trim_back(s) == s.subrange(0, b),
    decreases s.len(),
{
    if s.len() > 0 && is_blank(s.last()) {
        assert(b < s.len());
        lemma_trim_back(s.drop_last(), b);
        assert(s.drop_last().subrange(0, b) =~= s.subrange(0, b));
    } else {
        assert(b == s.len());
        assert(s.subrange(0, b) =~= s);
    }
}

/// Parse one log line: `Some` exactly when the line opens with at least
/// one hexadecimal digit; then the hash is that maximal digit run and the
/// message the blank-trimmed rest.
pub fn parse_commit_line(line: &str) -> (r: Option<CommitObj>)
    ensures
        r is Some <==> spec_parse_line(line@) is Some,
        r matches Some(o) ==> spec_parse_line(line@) == Some((o.hash@, o.message@)),
{
    let n = line.unicode_len();
    let mut k: usize = 0;
    while k < n && is_hex_exec(line.get_char(k))
        invariant
            0 <= k <= n,
            n == line@.len(),
            forall|j: int| 0 <= j < k ==> is_hex_char(#[trigger] line@[j]),
        decreases n - k,
    {
        k += 1;
    }
    proof {
        lemma_hex_prefix(line@, k as int);
    }
    if k == 0 {
        return None;
    }
    let rest = line.substring_char(k, n);
    let m = n - k;
    proof {
        assert(rest@.len() == m);
    }
    let mut a: usize = 0;
    while a < m && is_blank_exec(rest.get_char(a))
        invariant
            0 <= a <= m,
            m == rest@.len(),
            forall|j: int| 0 <= j < a ==> is_blank(#[trigger] rest@[j]),
        decreases m - a,
    {
        a += 1;
    }
    let mut b: usize = m;
    while b > a && is_blank_exec(rest.get_char(b - 1))
        invariant
            a <= b <= m,
            m == rest@.len(),
            forall|j: int| b <= j < m ==> is_blank(#[trigger] rest@[j]),
        decreases b,
    {
        b -= 1;
    }
    let ghost tf = trim_front(rest@);
    proof {
        lemma_trim_front(rest@, a as int);
        assert(tf == rest@.skip(a as int));
        assert(tf.len() == m - a);
        assert forall|j: int| b - a <= j < tf.len() implies is_blank(#[trigger] tf[j]) by {
            assert(tf[j] == rest@[j + a]);
        }
        if b > a {
            assert(tf[b - a - 1] == rest@[b as int - 1]);
        }
        lemma_trim_back(tf, b as int - a as int);
        assert(tf.subrange(0, b as int - a as int) =~= rest@.subrange(a as int, b as int));
    }
    let message_part = rest.substring_char(a, b);
    let hash_part = line.substring_char(0, k);
    Some(CommitObj { hash: hash_part.to_owned(), message: message_part.to_owned() })
}

/// A hexadecimal digit.
fn is_hex_exec(c: char) -> (r: bool)
    ensures
        r == is_hex_char(c),
{
    ('0' <= c && c <= '9') || ('a' <= c && c <= 'f') || ('A' <= c && c <= 'F')
}

/// A blank.
fn is_blank_exec(c: char) -> (r: bool)
    ensures
        r == is_blank(c),
{
    c == ' ' || c == '\t'
}

/// Parse the log lines in order, skipping lines without a hash, and keep
/// the first `max` commits.
pub fn parse_commits(lines: &Vec<String>, max: usize) -> (r: Vec<CommitObj>)
    ensures
        r@.map_values(|o: CommitObj| (o.hash@, o.message@)) == spec_parse_commits(
            lines.deep_view(),
            max as nat,
        ),
{
    let mut out: Vec<CommitObj> = Vec::new();
    let mut i: usize = 0;
    let mut count: usize = 0;
    proof {
        assert(lines.deep_view().skip(0) =~= lines.deep_view());
        assert(out@.map_values(|o: CommitObj| (o.hash@, o.message@)) =~= Seq::<(
            Seq<char>,
            Seq<char>,
        )>::empty());
    }
    while i < lines.len() && count < max
        invariant
            0 <= i <= lines@.len(),
            0 <= count <= max,
            lines.deep_view().len() == lines@.len(),
            forall|t: int|
                0 <= t < lines@.len() ==> (#[trigger] lines@[t])@ == lines.deep_view()[t],
            out@.len() == count,
            spec_parse_commits(lines.deep_view(), max as nat) == out@.map_values(
                |o: CommitObj| (o.hash@, o.message@),
            ) + spec_parse_commits(lines.deep_view().skip(i as int), (max - count) as nat),
        decreases lines@.len() - i,
    {
        let ghost rem = lines.deep_view().skip(i as int);
        let ghost rem_next = lines.deep_view().skip(i as int + 1);
        proof {
            assert(rem.len() > 0);
            assert(rem[0] == lines.deep_view()[i as int]);
            assert(rem.skip(1) =~= rem_next);
        }
        match parse_commit_line(lines[i].as_str()) {
            Some(o) => {
                let ghost old_map = out@.map_values(|x: CommitObj| (x.hash@, x.message@));
                let ghost ov = (o.hash@, o.message@);
                proof {
                    assert(spec_parse_commits(rem, (max - count) as nat) == seq![ov]
                        + spec_parse_commits(rem_next, (max - count - 1) as nat));
                }
                out.push(o);
                proof {
                    assert(out@.map_values(|x: CommitObj| (x.hash@, x.message@)) =~= old_map.push(
                        ov,
                    ));
                    assert(old_map + (seq![ov] + spec_parse_commits(
                        rem_next,
                        (max - count - 1) as nat,
                    )) =~= old_map.push(ov) + spec_parse_commits(
                        rem_next,
                        (max - count - 1) as nat,
                    ));
                }
                count += 1;
            },
            None => {
                proof {
                    assert(spec_parse_commits(rem, (max - count) as nat) == spec_parse_commits(
                        rem_next,
                        (max - count) as nat,
                    ));
                }
            },
        }
        i += 1;
    }
    proof {
        if i == lines@.len() {
            assert(lines.deep_view().skip(i as int) =~= Seq::<Seq<char>>::empty());
        }
        assert(spec_parse_commits(lines.deep_view().skip(i as int), (max - count) as nat)
            =~= Seq::<(Seq<char>, Seq<char>)>::empty());
        assert(out@.map_values(|o: CommitObj| (o.hash@, o.message@)) + Seq::<(
            Seq<char>,
            Seq<char>,
        )>::empty() =~= out@.map_values(|o: CommitObj| (o.hash@, o.message@)));
    }
    out
}

} // verus!
