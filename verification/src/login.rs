//! Validating an email address and extracting the login before the `@`.
//! An address is a non-empty login without whitespace or `@`, one `@`, and
//! a domain of word-character labels separated by single dots.

use vstd::prelude::*;

verus! {

/// A whitespace character the login may not contain.
pub open spec fn is_space_char(c: char) -> bool {
    c == ' ' || c == '\t' || c == '\n' || c == '\r' || c == '\u{b}' || c == '\u{c}'
}

/// A word character: a letter, a digit, or an underscore.
pub open spec fn is_word_char(c: char) -> bool {
    ('a' <= c && c <= 'z') || ('A' <= c && c <= 'Z') || ('0' <= c && c <= '9') || c == '_'
}

/// A valid login: non-empty, with no `@` and no whitespace.
pub open spec fn valid_login(s: Seq<char>) -> bool {
    s.len() > 0 && forall|j: int|
        0 <= j < s.len() ==> #[trigger] s[j] != '@' && !is_space_char(s[j])
}

/// A valid domain: word-character labels separated by single dots, so
/// non-empty, only word characters and dots, neither opening nor closing
/// with a dot, and never two dots in a row.
pub open spec fn valid_domain(s: Seq<char>) -> bool {
    &&& s.len() > 0
    &&& forall|j: int| 0 <= j < s.len() ==> is_word_char(#[trigger] s[j]) || s[j] == '.'
    &&& s[0] != '.'
    &&& s[s.len() - 1] != '.'
    &&& forall|j: int| 0 <= j < s.len() - 1 ==> !((#[trigger] s[j]) == '.' && s[j + 1] == '.')
}

/// The text splits at position `k` into a valid login, the `@`, and a
/// valid domain.
pub open spec fn email_split_at(s: Seq<char>, k: int) -> bool {
    &&& 0 <= k < s.len()
    &&& s[k] == '@'
    &&& valid_login(s.subrange(0, k))
    &&& valid_domain(s.subrange(k + 1, s.len() as int))
}

/// A correctly formatted address: some split position works; since neither
/// login nor domain may hold an `@`, that position is the only `@`.
pub open spec fn email_matches(s: Seq<char>) -> bool {
    exists|k: int| email_split_at(s, k)
}

/// Whether a character may stand in a login.
fn login_char(c: char) -> (r: bool)
    ensures
        r == (c != '@' && !is_space_char(c)),
{
    c != '@' && c != ' ' && c != '\t' && c != '\n' && c != '\r' && c != '\u{b}' && c != '\u{c}'
}

/// Whether a character is a word character.
fn word_char(c: char) -> (r: bool)
    ensures
        r == is_word_char(c),
{
    ('a' <= c && c <= 'z') || ('A' <= c && c <= 'Z') || ('0' <= c && c <= '9') || c == '_'
}

/// Validate an address and extract everything before the `@`: the login,
/// exactly when the whole text is a correctly formatted address.
#[verifier::loop_isolation(false)]
pub fn extract_login(input: &str) -> (r: Option<String>)
    ensures
        r is Some <==> email_matches(input@),
        r matches Some(l) ==> exists|k: int| email_split_at(input@, k) && l@ == input@.subrange(
            0,
            k,
        ),
{
    let n = input.unicode_len();
    // find the first '@'
    let mut k: usize = 0;
    while k < n && input.get_char(k) != '@'
        invariant
            0 <= k <= n,
            n == input@.len(),
            forall|j: int| 0 <= j < k ==> (#[trigger] input@[j]) != '@',
        decreases n - k,
    {
        k += 1;
    }
    if k == n {
        // no '@' anywhere: no split position exists
        proof {
            if email_matches(input@) {
                let w = choose|w: int| email_split_at(input@, w);
                assert(input@[w] != '@');
            }
        }
        return None;
    }
    // any split position must be this first '@': a later one would leave
    // this '@' inside the login, which a valid login forbids
    proof {
        assert forall|w: int| email_split_at(input@, w) implies w == k by {
            if w < k {
                assert(input@[w] != '@');
            }
            if w > k {
                assert(input@.subrange(0, w)[k as int] == input@[k as int]);
                assert(!valid_login(input@.subrange(0, w)));
            }
        }
    }
    if k == 0 {
        proof {
            if email_matches(input@) {
                let w = choose|w: int| email_split_at(input@, w);
                assert(input@.subrange(0, w).len() == 0);
            }
        }
        return None;
    }
    // check the login: no whitespace before the '@' (no '@' by the scan)
    let mut j: usize = 0;
    while j < k
        invariant
            0 <= j <= k < n,
            n == input@.len(),
            forall|t: int| 0 <= t < k ==> (#[trigger] input@[t]) != '@',
            forall|t: int| 0 <= t < j ==> !is_space_char(#[trigger] input@[t]),
        decreases k - j,
    {
        if !login_char(input.get_char(j)) {
            proof {
                if email_matches(input@) {
                    let w = choose|w: int| email_split_at(input@, w);
                    assert(input@.subrange(0, w)[j as int] == input@[j as int]);
                }
            }
            return None;
        }
        j += 1;
    }
    proof {
        assert forall|t: int| 0 <= t < k implies (#[trigger] input@.subrange(0, k as int)[t])
            != '@' && !is_space_char(input@.subrange(0, k as int)[t]) by {
            assert(input@.subrange(0, k as int)[t] == input@[t]);
        }
        assert(valid_login(input@.subrange(0, k as int)));
    }
    // check the domain after the '@'
    if k + 1 == n {
        proof {
            if email_matches(input@) {
                let w = choose|w: int| email_split_at(input@, w);
                assert(input@.subrange(w + 1, n as int).len() == 0);
            }
        }
        return None;
    }
    let ghost dom = input@.subrange(k as int + 1, n as int);
    let mut t: usize = k + 1;
    while t < n
        invariant
            k + 1 <= t <= n,
            n == input@.len(),
            dom == input@.subrange(k as int + 1, n as int),
            forall|u: int|
                k + 1 <= u < t ==> is_word_char(#[trigger] input@[u]) || input@[u] == '.',
            forall|u: int|
                k + 1 <= u < t - 1 ==> !(#[trigger] input@[u] == '.' && input@[u + 1] == '.'),
            t > k + 1 ==> input@[k as int + 1] != '.',
        decreases n - t,
    {
        let c = input.get_char(t);
        let ok = if t == k + 1 {
            word_char(c)
        } else {
            word_char(c) || (c == '.' && input.get_char(t - 1) != '.')
        };
        if !ok {
            proof {
                assert(!valid_domain(dom)) by {
                    if valid_domain(dom) {
                        if t == k + 1 {
                            assert(dom[0] == input@[k as int + 1]);
                            assert(is_word_char(dom[0]) || dom[0] == '.');
                            assert(dom[0] != '.');
                        } else {
                            let u = t as int - (k as int + 1);
                            assert(dom[u] == input@[t as int]);
                            assert(is_word_char(dom[u]) || dom[u] == '.');
                            if input@[t as int] == '.' {
                                assert(dom[u - 1] == input@[t as int - 1]);
                                assert(input@[t as int - 1] == '.');
                                assert(dom[u - 1] != '.');
                            }
                        }
                    }
                }
                if email_matches(input@) {
                    let w = choose|w: int| email_split_at(input@, w);
                    assert(w == k);
                    assert(input@.subrange(w + 1, input@.len() as int) == dom);
                }
            }
            return None;
        }
        t += 1;
    }
    // the domain may not end with a dot
    if input.get_char(n - 1) == '.' {
        proof {
            assert(dom[dom.len() - 1] == input@[n - 1]);
            assert(!valid_domain(dom));
            if email_matches(input@) {
                let w = choose|w: int| email_split_at(input@, w);
                assert(w == k);
                assert(input@.subrange(w + 1, input@.len() as int) == dom);
            }
        }
        return None;
    }
    proof {
        assert(valid_domain(dom)) by {
            assert(dom.len() > 0);
            assert forall|u: int| 0 <= u < dom.len() implies is_word_char(#[trigger] dom[u])
                || dom[u] == '.' by {
                assert(dom[u] == input@[u + k + 1]);
            }
            assert(dom[0] == input@[k as int + 1]);
            assert(dom[dom.len() - 1] == input@[n - 1]);
            assert forall|u: int| 0 <= u < dom.len() - 1 implies !(#[trigger] dom[u] == '.'
                && dom[u + 1] == '.') by {
                assert(dom[u] == input@[u + k + 1]);
                assert(dom[u + 1] == input@[u + k + 2]);
            }
        }
        assert(email_split_at(input@, k as int));
    }
    let login = input.substring_char(0, k);
    Some(login.to_owned())
}

} // verus!
