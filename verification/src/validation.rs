//! Syntactic checks on registration and login credentials. These gate all
//! persistence and token work, so obviously bad input is rejected before any
//! expensive operation runs.

use vstd::prelude::*;
use vstd::string::StrSliceExecFns;

verus! {

/// Characters allowed inside an email's local-part segments and domain
/// labels: ASCII letters, digits, underscore and hyphen. The alphabet is
/// deliberately confined to this ASCII class — the conservative core of
/// the conventional shape — so acceptance never depends on Unicode
/// classification tables; an address with accented letters is rejected.
pub open spec fn is_word_char(c: char) -> bool {
    ('a' <= c && c <= 'z') || ('A' <= c && c <= 'Z') || ('0' <= c && c <= '9') || c == '_' || c
        == '-'
}

/// A dotted run of word characters: nonempty segments of word characters
/// separated by single dots, so no leading or trailing dot and no two
/// adjacent dots.
pub open spec fn is_dotted_words(s: Seq<char>) -> bool {
    &&& s.len() > 0
    &&& is_word_char(s[0])
    &&& is_word_char(s[s.len() - 1])
    &&& forall|i: int| 0 <= i < s.len() ==> is_word_char(#[trigger] s[i]) || s[i] == '.'
    &&& forall|i: int| 0 < i < s.len() && #[trigger] s[i] == '.' ==> s[i - 1] != '.'
}

/// Index of the last dot of `s`, or -1 if `s` has none.
pub open spec fn last_dot_index(s: Seq<char>) -> int
    decreases s.len(),
{
    if s.len() == 0 {
        -1
    } else if s[s.len() - 1] == '.' {
        s.len() - 1
    } else {
        last_dot_index(s.drop_last())
    }
}

/// A domain: at least one label followed by a dot, then a top-level label of
/// two to four word characters.
pub open spec fn is_email_domain(s: Seq<char>) -> bool {
    &&& is_dotted_words(s)
    &&& last_dot_index(s) >= 1
    &&& 2 <= s.len() - 1 - last_dot_index(s) <= 4
}

/// The accepted email shape: a dotted local part, one `@`, and a domain with
/// at least one label plus a two-to-four character top-level label.
pub open spec fn is_valid_email(s: Seq<char>) -> bool {
    exists|a: int|
        0 <= a < s.len() && s[a] == '@' && is_dotted_words(#[trigger] s.subrange(0, a))
            && is_email_domain(s.subrange(a + 1, s.len() as int))
}

/// A password passes the (intentionally weak) policy iff it is at least
/// eight characters long.
pub fn validate_password(password: &str) -> (r: bool)
    ensures
        r == (password@.len() >= 8),
{
    password.unicode_len() >= 8
}

fn is_word_char_exec(c: char) -> (r: bool)
    ensures
        r == is_word_char(c),
{
    ('a' <= c && c <= 'z') || ('A' <= c && c <= 'Z') || ('0' <= c && c <= '9') || c == '_' || c
        == '-'
}

/// Checks the dotted-words shape over the characters of `s` between `from`
/// (inclusive) and `to` (exclusive).
fn check_dotted_words(s: &str, from: usize, to: usize) -> (r: bool)
    requires
        from <= to <= s@.len(),
    ensures
        r == is_dotted_words(s@.subrange(from as int, to as int)),
{
    let ghost sub = s@.subrange(from as int, to as int);
    if from == to {
        return false;
    }
    let first = s.get_char(from);
    let last = s.get_char(to - 1);
    if !is_word_char_exec(first) || !is_word_char_exec(last) {
        return false;
    }
    let mut i: usize = from;
    while i < to
        invariant
            from <= i <= to <= s@.len(),
            sub == s@.subrange(from as int, to as int),
            is_word_char(sub[0]),
            is_word_char(sub[sub.len() - 1]),
            forall|j: int| from <= j < i ==> is_word_char(s@[j]) || s@[j] == '.',
            forall|j: int| from < j < i && #[trigger] s@[j] == '.' ==> s@[j - 1] != '.',
        decreases to - i,
    {
        let c = s.get_char(i);
        if !is_word_char_exec(c) && c != '.' {
            assert(!(is_word_char(sub[i - from]) || sub[i - from] == '.'));
            return false;
        }
        if c == '.' && i > from {
            if s.get_char(i - 1) == '.' {
                assert(sub[i - from] == '.' && sub[i - from - 1] == '.');
                return false;
            }
        }
        i += 1;
    }
    assert forall|j: int| 0 <= j < sub.len() implies is_word_char(sub[j]) || sub[j] == '.' by {
        assert(sub[j] == s@[from + j]);
    }
    assert forall|j: int| 0 < j < sub.len() && #[trigger] sub[j] == '.' implies sub[j - 1] != '.' by {
        assert(sub[j] == s@[from + j] && sub[j - 1] == s@[from + j - 1]);
    }
    true
}

/// Finds the last dot of `s` between `from` and `to`, as an offset into that
/// subrange, or returns `to - from` if there is none; mirrors
/// `last_dot_index` on the subrange.
fn find_last_dot(s: &str, from: usize, to: usize) -> (r: Option<usize>)
    requires
        from <= to <= s@.len(),
    ensures
        match r {
            Some(k) => last_dot_index(s@.subrange(from as int, to as int)) == k && k < to - from,
            None => last_dot_index(s@.subrange(from as int, to as int)) == -1,
        },
    decreases to - from,
{
    let ghost sub = s@.subrange(from as int, to as int);
    if from == to {
        return None;
    }
    let c = s.get_char(to - 1);
    if c == '.' {
        assert(sub[sub.len() - 1] == '.');
        Some(to - 1 - from)
    } else {
        let r = find_last_dot(s, from, to - 1);
        assert(sub.drop_last() =~= s@.subrange(from as int, to as int - 1));
        r
    }
}

/// Accepts exactly the conventional `local@domain.tld` shape described by
/// `is_valid_email`: a dotted local part, then `@`, then at least one label
/// and a two-to-four character top-level label.
pub fn validate_email(email: &str) -> (r: bool)
    ensures
        r == is_valid_email(email@),
{
    let n = email.unicode_len();
    // Find the first '@'.
    let mut a: usize = 0;
    while a < n && email.get_char(a) != '@'
        invariant
            0 <= a <= n == email@.len(),
            forall|j: int| 0 <= j < a ==> email@[j] != '@',
        decreases n - a,
    {
        a += 1;
    }
    if a == n {
        // No '@' at all.
        assert(!is_valid_email(email@)) by {
            if is_valid_email(email@) {
                let i = choose|i: int|
                    0 <= i < email@.len() && email@[i] == '@' && is_dotted_words(
                        #[trigger] email@.subrange(0, i),
                    ) && is_email_domain(email@.subrange(i + 1, email@.len() as int));
                assert(email@[i] != '@');
            }
        }
        return false;
    }
    let local_ok = check_dotted_words(email, 0, a);
    if !local_ok {
        // Any witness index would have to be `a` itself: the local part may
        // not contain '@', so an earlier witness is impossible, and a later
        // one would put our '@' inside its local part.
        assert(!is_valid_email(email@)) by {
            if is_valid_email(email@) {
                let i = choose|i: int|
                    0 <= i < email@.len() && email@[i] == '@' && is_dotted_words(
                        #[trigger] email@.subrange(0, i),
                    ) && is_email_domain(email@.subrange(i + 1, email@.len() as int));
                if i > a {
                    assert(email@.subrange(0, i)[a as int] == email@[a as int]);
                    assert(!is_word_char('@'));
                } else {
                    assert(i == a);
                }
            }
        }
        return false;
    }
    let domain_ok = check_email_domain(email, a + 1, n);
    proof {
        if domain_ok {
            assert(email@[a as int] == '@' && is_dotted_words(email@.subrange(0, a as int))
                && is_email_domain(email@.subrange(a as int + 1, email@.len() as int)));
        } else {
            if is_valid_email(email@) {
                let i = choose|i: int|
                    0 <= i < email@.len() && email@[i] == '@' && is_dotted_words(
                        #[trigger] email@.subrange(0, i),
                    ) && is_email_domain(email@.subrange(i + 1, email@.len() as int));
                if i > a {
                    assert(email@.subrange(0, i)[a as int] == email@[a as int]);
                    assert(!is_word_char('@'));
                } else {
                    assert(i == a);
                }
            }
        }
    }
    domain_ok
}

/// Checks the domain shape on the characters of `s` from `from` to `to`.
fn check_email_domain(s: &str, from: usize, to: usize) -> (r: bool)
    requires
        from <= to <= s@.len(),
    ensures
        r == is_email_domain(s@.subrange(from as int, to as int)),
{
    let dotted = check_dotted_words(s, from, to);
    if !dotted {
        return false;
    }
    match find_last_dot(s, from, to) {
        None => false,
        Some(k) => {
            let len = to - from;
            // The top-level label runs from k + 1 to len, so its length is
            // len - 1 - k; require it to be two to four characters.
            let tld_len = len - 1 - k;
            1 <= k && 2 <= tld_len && tld_len <= 4
        },
    }
}

} // verus!
