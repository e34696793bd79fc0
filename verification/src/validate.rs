//! Shape checks on names, guest names and emails, and the whitespace
//! trimming applied to register and sign-in fields.
//!
//! A name is acceptable when the whole trimmed name is letters and
//! whitespace, four to twenty-four characters; a guest name is one
//! containing `Guest` followed by a digit. Emails follow the usual atom
//! `@` labels, top-level label shape.

use vstd::prelude::*;

verus! {

/// The whitespace characters recognised by trimming and in names: the
/// Unicode white-space set.
pub open spec fn is_space(c: char) -> bool {
    c == ' ' || c == '\t' || c == '\n' || c == '\r' || c == '\u{b}' || c == '\u{c}' || c
        == '\u{85}' || c == '\u{a0}' || c == '\u{1680}' || ('\u{2000}' <= c && c
        <= '\u{200a}') || c == '\u{2028}' || c == '\u{2029}' || c == '\u{202f}' || c
        == '\u{205f}' || c == '\u{3000}'
}

/// Letters of either case.
pub open spec fn is_alpha(c: char) -> bool {
    (65 <= c as u32 && c as u32 <= 90) || (97 <= c as u32 && c as u32 <= 122)
}

/// Decimal digits.
pub open spec fn is_digit(c: char) -> bool {
    48 <= c as u32 && c as u32 <= 57
}

/// Characters allowed in a display name: letters and whitespace.
pub open spec fn is_name_char(c: char) -> bool {
    is_alpha(c) || is_space(c)
}

/// A name is acceptable when the whole of it is letters and whitespace,
/// and it has four to twenty-four characters.
pub open spec fn name_matches(s: Seq<char>) -> bool {
    4 <= s.len() <= 24 && (forall|j: int| 0 <= j < s.len() ==> is_name_char(#[trigger] s[j]))
}

/// The word `Guest` and a digit stand at position `i`.
pub open spec fn guest_run_at(s: Seq<char>, i: int) -> bool {
    s[i] == 'G' && s[i + 1] == 'u' && s[i + 2] == 'e' && s[i + 3] == 's' && s[i + 4] == 't'
        && is_digit(s[i + 5])
}

/// A guest name contains `Guest` immediately followed by a digit.
pub open spec fn guest_matches(s: Seq<char>) -> bool {
    exists|i: int| 0 <= i && i + 6 <= s.len() && #[trigger] guest_run_at(s, i)
}

/// Characters allowed in an atom of the local part of an email: ASCII
/// letters, digits and underscore, and the listed punctuation. Keeping the
/// word characters ASCII is deliberate: it draws a closed, checkable line
/// where an open-ended letter class would not be one.
pub open spec fn is_atom_char(c: char) -> bool {
    is_alpha(c) || is_digit(c) || c == '_' || c == '!' || c == '#' || c == '$' || c == '%' || c
        == '&' || c == '\u{2019}' || c == '*' || c == '+' || c == '/' || c == '=' || c == '?' || c
        == '`' || c == '{' || c == '|' || c == '}' || c == '~' || c == '^' || c == '-'
}

/// Characters allowed in a domain label other than the last.
pub open spec fn is_label_char(c: char) -> bool {
    is_alpha(c) || is_digit(c) || c == '-'
}

/// The local part: atoms of allowed characters separated by single dots.
pub open spec fn local_part_ok(t: Seq<char>) -> bool {
    &&& t.len() >= 1
    &&& forall|j: int| 0 <= j < t.len() ==> is_atom_char(t[j]) || t[j] == '.'
    &&& t[0] != '.'
    &&& t[t.len() - 1] != '.'
    &&& forall|j: int| 0 <= j < t.len() - 1 ==> !(#[trigger] t[j] == '.' && t[j + 1] == '.')
}

/// The domain: one or more dotted labels, then a final label of two to six
/// letters.
pub open spec fn domain_ok(t: Seq<char>) -> bool {
    exists|k: int|
        {
            &&& 0 <= k < t.len()
            &&& #[trigger] t[k] == '.'
            &&& 2 <= t.len() - (k + 1) <= 6
            &&& forall|j: int| k < j < t.len() ==> is_alpha(t[j])
            &&& forall|j: int| 0 <= j < k ==> is_label_char(t[j]) || t[j] == '.'
            &&& t[0] != '.'
            &&& forall|j: int| 0 <= j < k ==> !(#[trigger] t[j] == '.' && t[j + 1] == '.')
        }
}

/// An email is a local part and a domain joined by `@`.
pub open spec fn email_matches(s: Seq<char>) -> bool {
    exists|at: int|
        0 <= at < s.len() && s[at] == '@' && local_part_ok(s.subrange(0, at)) && domain_ok(
            s.subrange(at + 1, s.len() as int),
        )
}

/// The string with leading and trailing whitespace removed.
pub open spec fn spec_trim(s: Seq<char>) -> Seq<char>
    decreases s.len(),
{
    if s.len() == 0 {
        s
    } else if is_space(s[0]) {
        spec_trim(s.skip(1))
    } else if is_space(s[s.len() - 1]) {
        spec_trim(s.drop_last())
    } else {
        s
    }
}

/// Whether this character counts as whitespace for trimming.
pub fn is_space_char(c: char) -> (b: bool)
    ensures
        b == is_space(c),
{
    c == ' ' || c == '\t' || c == '\n' || c == '\r' || c == '\u{b}' || c == '\u{c}' || c
        == '\u{85}' || c == '\u{a0}' || c == '\u{1680}' || ('\u{2000}' <= c && c
        <= '\u{200a}') || c == '\u{2028}' || c == '\u{2029}' || c == '\u{202f}' || c
        == '\u{205f}' || c == '\u{3000}'
}

/// Whether this character may appear in a display name.
pub fn is_name_char_exec(c: char) -> (b: bool)
    ensures
        b == is_name_char(c),
{
    let v = c as u32;
    (65 <= v && v <= 90) || (97 <= v && v <= 122) || is_space_char(c)
}

proof fn lemma_trim_subrange(s: Seq<char>, lo: int, hi: int)
    requires
        0 <= lo <= hi <= s.len(),
        forall|j: int| 0 <= j < lo ==> is_space(s[j]),
        forall|j: int| hi <= j < s.len() ==> is_space(s[j]),
        lo == hi || (!is_space(s[lo]) && !is_space(s[hi - 1])),
    ensures
        spec_trim(s) == s.subrange(lo, hi),
    decreases s.len(),
{
    if s.len() == 0 {
        assert(spec_trim(s) == s.subrange(lo, hi));
    } else if is_space(s[0]) {
        let t = s.skip(1);
        let (lo2, hi2) = if lo == 0 { (0int, 0int) } else { (lo - 1, hi - 1) };
        if lo == 0 {
            // the whole string is whitespace: hi == lo == 0 would need s[0] not space
            assert(hi == 0 || !is_space(s[lo]));
            assert(hi == 0);
            assert(forall|j: int| 0 <= j < t.len() ==> is_space(t[j]));
            lemma_trim_subrange(t, 0, 0);
            assert(s.subrange(0, 0) =~= t.subrange(0, 0));
        } else {
            assert(forall|j: int| 0 <= j < lo2 ==> is_space(t[j]));
            assert(forall|j: int| hi2 <= j < t.len() ==> is_space(t[j]));
            lemma_trim_subrange(t, lo2, hi2);
            assert(s.subrange(lo, hi) =~= t.subrange(lo2, hi2));
        }
    } else if is_space(s[s.len() - 1]) {
        let t = s.drop_last();
        assert(lo == 0);
        assert(hi < s.len());
        assert(forall|j: int| hi <= j < t.len() ==> is_space(t[j]));
        lemma_trim_subrange(t, lo, hi);
        assert(s.subrange(lo, hi) =~= t.subrange(lo, hi));
    } else {
        assert(lo == 0);
        assert(hi == s.len());
        assert(s.subrange(0, s.len() as int) =~= s);
    }
}

/// Remove leading and trailing whitespace, as applied to submitted names
/// and emails.
pub fn trimmed<'a>(s: &'a str) -> (r: &'a str)
    ensures
        r@ == spec_trim(s@),
{
    let n = s.unicode_len();
    let mut lo: usize = 0;
    while lo < n && is_space_char(s.get_char(lo))
        invariant
            0 <= lo <= n,
            n == s@.len(),
            forall|j: int| 0 <= j < lo ==> is_space(s@[j]),
        decreases n - lo,
    {
        lo = lo + 1;
    }
    if lo == n {
        proof {
            lemma_trim_subrange(s@, n as int, n as int);
        }
        return s.substring_char(n, n);
    }
    let mut hi: usize = n;
    while hi > lo + 1 && is_space_char(s.get_char(hi - 1))
        invariant
            lo < hi <= n,
            n == s@.len(),
            forall|j: int| hi <= j < n ==> is_space(s@[j]),
        decreases hi,
    {
        hi = hi - 1;
    }
    proof {
        lemma_trim_subrange(s@, lo as int, hi as int);
    }
    s.substring_char(lo, hi)
}

/// Whether this character may appear in a local-part atom.
pub fn is_atom_char_exec(c: char) -> (b: bool)
    ensures
        b == is_atom_char(c),
{
    let v = c as u32;
    (65 <= v && v <= 90) || (97 <= v && v <= 122) || (48 <= v && v <= 57) || c == '_' || c == '!'
        || c == '#' || c == '$' || c == '%' || c == '&' || c == '\u{2019}' || c == '*' || c == '+'
        || c == '/' || c == '=' || c == '?' || c == '`' || c == '{' || c == '|' || c == '}' || c
        == '~' || c == '^' || c == '-'
}

/// Whether this character may appear in a domain label.
pub fn is_label_char_exec(c: char) -> (b: bool)
    ensures
        b == is_label_char(c),
{
    let v = c as u32;
    (65 <= v && v <= 90) || (97 <= v && v <= 122) || (48 <= v && v <= 57) || c == '-'
}

/// Check the local part of an email, the characters before the `@`.
fn local_part_check(s: &str, at: usize) -> (b: bool)
    requires
        at < s@.len(),
    ensures
        b == local_part_ok(s@.subrange(0, at as int)),
{
    let ghost t = s@.subrange(0, at as int);
    if at == 0 {
        return false;
    }
    if s.get_char(0) == '.' {
        proof {
            assert(t[0] == s@[0]);
        }
        return false;
    }
    if s.get_char(at - 1) == '.' {
        proof {
            assert(t[at - 1] == s@[at - 1]);
        }
        return false;
    }
    let mut j: usize = 0;
    while j < at
        invariant
            0 <= j <= at < s@.len(),
            t == s@.subrange(0, at as int),
            forall|k: int| 0 <= k < j ==> is_atom_char(#[trigger] t[k]) || t[k] == '.',
            forall|k: int| 0 <= k < j - 1 ==> !(#[trigger] t[k] == '.' && t[k + 1] == '.'),
        decreases at - j,
    {
        let c = s.get_char(j);
        proof {
            assert(t[j as int] == s@[j as int]);
        }
        if !is_atom_char_exec(c) && c != '.' {
            proof {
                assert(!(is_atom_char(t[j as int]) || t[j as int] == '.'));
            }
            return false;
        }
        if c == '.' && j > 0 && s.get_char(j - 1) == '.' {
            proof {
                assert(t[j - 1] == s@[j - 1]);
                assert(t[j - 1] == '.' && t[j as int] == '.');
            }
            return false;
        }
        proof {
            assert forall|k: int| 0 <= k < j implies !(#[trigger] t[k] == '.' && t[k + 1]
                == '.') by {
                if k == j - 1 {
                    assert(t[j as int] == s@[j as int]);
                }
            }
        }
        j = j + 1;
    }
    true
}

/// Check the domain of an email, the characters after the `@`.
fn domain_check(s: &str, at: usize) -> (b: bool)
    requires
        at < s@.len(),
    ensures
        b == domain_ok(s@.subrange(at + 1, s@.len() as int)),
{
    let n = s.unicode_len();
    let ghost t = s@.subrange(at + 1, s@.len() as int);
    let dlen = n - (at + 1);
    if dlen == 0 {
        return false;
    }
    // find the last dot, scanning from the end
    let mut back: usize = 0;
    while back < dlen && s.get_char(n - 1 - back) != '.'
        invariant
            0 <= back <= dlen,
            dlen == t.len(),
            n == s@.len(),
            at + 1 + dlen == n,
            t == s@.subrange(at + 1, s@.len() as int),
            forall|j: int| dlen - back <= j < dlen ==> #[trigger] t[j] != '.',
        decreases dlen - back,
    {
        proof {
            assert(t[dlen - 1 - back] == s@[n - 1 - back]);
        }
        back = back + 1;
    }
    if back == dlen {
        // no dot at all: no split point exists
        proof {
            assert forall|k: int| 0 <= k < t.len() implies #[trigger] t[k] != '.' by {}
        }
        return false;
    }
    let k = dlen - 1 - back;
    proof {
        assert(t[k as int] == s@[n - 1 - back]);
        assert(forall|j: int| k < j < t.len() ==> #[trigger] t[j] != '.');
    }
    // every split point must have only letters after it, so only the last
    // dot can serve
    if back < 2 || back > 6 {
        proof {
            assert forall|k2: int|
                0 <= k2 < t.len() && #[trigger] t[k2] == '.' implies !(2 <= t.len() - (k2 + 1)
                <= 6 && (forall|j: int| k2 < j < t.len() ==> is_alpha(#[trigger] t[j]))) by {
                if k2 > k {
                    assert(t[k2] != '.');
                } else if k2 == k {
                } else {
                    assert(t[k as int] == '.');
                    assert(!is_alpha('.'));
                }
            }
        }
        return false;
    }
    let mut j: usize = k + 1;
    while j < dlen
        invariant
            k < j <= dlen,
            dlen == t.len(),
            n == s@.len(),
            at + 1 + dlen == n,
            t == s@.subrange(at + 1, s@.len() as int),
            t[k as int] == '.',
            forall|j2: int| k < j2 < t.len() ==> #[trigger] t[j2] != '.',
            forall|i2: int| k < i2 < j ==> is_alpha(#[trigger] t[i2]),
        decreases dlen - j,
    {
        let c = s.get_char(at + 1 + j);
        proof {
            assert(t[j as int] == s@[at + 1 + j]);
        }
        let v = c as u32;
        if !((65 <= v && v <= 90) || (97 <= v && v <= 122)) {
            proof {
                assert(!is_alpha(t[j as int]));
                assert forall|k2: int|
                    0 <= k2 < t.len() && #[trigger] t[k2] == '.' implies !(forall|i2: int|
                    k2 < i2 < t.len() ==> is_alpha(#[trigger] t[i2])) by {
                    if k2 < k {
                        assert(!is_alpha(t[k as int]));
                    } else if k2 == k {
                        assert(!is_alpha(t[j as int]));
                    } else {
                        assert(t[k2] != '.');
                    }
                }
            }
            return false;
        }
        j = j + 1;
    }
    // check the labels before the last dot
    if s.get_char(at + 1) == '.' {
        proof {
            assert(t[0] == s@[at + 1]);
            assert forall|k2: int|
                0 <= k2 < t.len() && #[trigger] t[k2] == '.' implies !(t[0] != '.') by {}
        }
        return false;
    }
    let mut i: usize = 0;
    while i < k
        invariant
            0 <= i <= k < dlen,
            dlen == t.len(),
            n == s@.len(),
            at + 1 + dlen == n,
            t == s@.subrange(at + 1, s@.len() as int),
            t[k as int] == '.',
            forall|j2: int| k < j2 < t.len() ==> is_alpha(#[trigger] t[j2]),
            2 <= t.len() - (k + 1) <= 6,
            t[0] != '.',
            forall|j2: int| 0 <= j2 < i ==> is_label_char(#[trigger] t[j2]) || t[j2] == '.',
            forall|j2: int| 0 <= j2 < i ==> !(#[trigger] t[j2] == '.' && t[j2 + 1] == '.'),
        decreases k - i,
    {
        let c = s.get_char(at + 1 + i);
        proof {
            assert(t[i as int] == s@[at + 1 + i]);
        }
        if !is_label_char_exec(c) && c != '.' {
            proof {
                assert forall|k2: int|
                    0 <= k2 < t.len() && #[trigger] t[k2] == '.' implies !((forall|j2: int|
                    0 <= j2 < k2 ==> is_label_char(t[j2]) || t[j2] == '.') && (forall|j2: int|
                    k2 < j2 < t.len() ==> is_alpha(t[j2]))) by {
                    if k2 <= i {
                        assert(!is_alpha(t[i as int]));
                    } else {
                        assert(!(is_label_char(t[i as int]) || t[i as int] == '.'));
                    }
                }
            }
            return false;
        }
        if c == '.' {
            let c2 = s.get_char(at + 1 + i + 1);
            proof {
                assert(t[i + 1] == s@[at + 1 + i + 1]);
            }
            if c2 == '.' {
                proof {
                    assert forall|k2: int|
                        0 <= k2 < t.len() && #[trigger] t[k2] == '.' implies !((forall|j2: int|
                        0 <= j2 < k2 ==> !(#[trigger] t[j2] == '.' && t[j2 + 1] == '.')) && (
                    forall|j2: int| k2 < j2 < t.len() ==> is_alpha(#[trigger] t[j2]))) by {
                        if i + 1 < k2 {
                            assert(t[i as int] == '.' && t[i + 1] == '.');
                        } else {
                            // a dot sits at or after the split point's tail
                            if k2 < i {
                                assert(!is_alpha(t[i as int]));
                            } else if k2 < i + 1 {
                            } else {
                                assert(!is_alpha(t[i + 1]));
                            }
                        }
                    }
                }
                return false;
            }
        }
        i = i + 1;
    }
    proof {
        assert({
            &&& 0 <= k < t.len()
            &&& #[trigger] t[k as int] == '.'
            &&& 2 <= t.len() - (k + 1) <= 6
            &&& forall|j2: int| k < j2 < t.len() ==> is_alpha(t[j2])
            &&& forall|j2: int| 0 <= j2 < k ==> is_label_char(t[j2]) || t[j2] == '.'
            &&& t[0] != '.'
            &&& forall|j2: int| 0 <= j2 < k ==> !(#[trigger] t[j2] == '.' && t[j2 + 1] == '.')
        });
    }
    true
}

/// Whether a submitted email has the acceptable shape.
pub fn email_is_valid(s: &str) -> (b: bool)
    ensures
        b == email_matches(s@),
{
    let n = s.unicode_len();
    // locate the separator; a valid email has exactly one '@'
    let mut i: usize = 0;
    let mut at_pos: usize = 0;
    let mut at2_pos: usize = 0;
    let mut at_count: usize = 0;
    while i < n
        invariant
            0 <= i <= n,
            n == s@.len(),
            at_count == 0 ==> forall|j: int| 0 <= j < i ==> s@[j] != '@',
            at_count == 1 ==> at_pos < i && s@[at_pos as int] == '@' && forall|j: int|
                0 <= j < i && j != at_pos ==> s@[j] != '@',
            at_count >= 2 ==> at_pos < at2_pos < i && s@[at_pos as int] == '@' && s@.index(
                at2_pos as int,
            ) == '@',
        decreases n - i,
    {
        if s.get_char(i) == '@' {
            if at_count == 0 {
                at_pos = i;
            } else if at_count == 1 {
                at2_pos = i;
            }
            if at_count < 2 {
                at_count = at_count + 1;
            }
        }
        i = i + 1;
    }
    if at_count == 0 {
        return false;
    }
    if at_count >= 2 {
        // with two separators, neither can split the string acceptably
        proof {
            let a = at_pos as int;
            let b = at2_pos as int;
            assert forall|at: int|
                0 <= at < s@.len() && #[trigger] s@[at] == '@' implies !(local_part_ok(
                s@.subrange(0, at),
            ) && domain_ok(s@.subrange(at + 1, s@.len() as int))) by {
                if at > a {
                    // the local part holds the first separator
                    let t = s@.subrange(0, at);
                    assert(t[a] == '@');
                    assert(!(is_atom_char('@') || '@' == '.'));
                } else {
                    // the domain holds the second separator
                    let t = s@.subrange(at + 1, s@.len() as int);
                    let p = b - (at + 1);
                    assert(t[p] == '@');
                    if domain_ok(t) {
                        let k = choose|k: int|
                            {
                                &&& 0 <= k < t.len()
                                &&& #[trigger] t[k] == '.'
                                &&& 2 <= t.len() - (k + 1) <= 6
                                &&& forall|j: int| k < j < t.len() ==> is_alpha(t[j])
                                &&& forall|j: int|
                                    0 <= j < k ==> is_label_char(t[j]) || t[j] == '.'
                                &&& t[0] != '.'
                                &&& forall|j: int|
                                    0 <= j < k ==> !(#[trigger] t[j] == '.' && t[j + 1] == '.')
                            };
                        if p < k {
                            assert(is_label_char(t[p]) || t[p] == '.');
                        } else if p > k {
                            assert(is_alpha(t[p]));
                        }
                    }
                }
            }
        }
        return false;
    }
    let local_ok = local_part_check(s, at_pos);
    let dom_ok = domain_check(s, at_pos);
    proof {
        assert forall|at: int|
            0 <= at < s@.len() && #[trigger] s@[at] == '@' implies at == at_pos as int by {}
    }
    local_ok && dom_ok
}

/// Whether a submitted name has the acceptable shape.
pub fn name_is_valid(s: &str) -> (b: bool)
    ensures
        b == name_matches(s@),
{
    let n = s.unicode_len();
    if n < 4 || n > 24 {
        return false;
    }
    let mut i: usize = 0;
    while i < n
        invariant
            0 <= i <= n,
            n == s@.len(),
            forall|j: int| 0 <= j < i ==> is_name_char(#[trigger] s@[j]),
        decreases n - i,
    {
        if !is_name_char_exec(s.get_char(i)) {
            return false;
        }
        i = i + 1;
    }
    true
}

/// Whether a name signs in as a guest: it contains `Guest` then a digit.
pub fn name_is_guest(s: &str) -> (b: bool)
    ensures
        b == guest_matches(s@),
{
    let n = s.unicode_len();
    if n < 6 {
        return false;
    }
    let mut i: usize = 0;
    while i <= n - 6
        invariant
            0 <= i,
            6 <= n,
            i <= n - 5,
            n == s@.len(),
            forall|k: int| 0 <= k < i ==> !#[trigger] guest_run_at(s@, k),
        decreases n - i,
    {
        let d = s.get_char(i + 5);
        if s.get_char(i) == 'G' && s.get_char(i + 1) == 'u' && s.get_char(i + 2) == 'e'
            && s.get_char(i + 3) == 's' && s.get_char(i + 4) == 't' && 48 <= d as u32 && d as u32
            <= 57 {
            assert(guest_run_at(s@, i as int));
            return true;
        }
        i = i + 1;
    }
    false
}

} // verus!
