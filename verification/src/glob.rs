//! Shell-style wildcard matching for resource patterns.
//!
//! A pattern matches a subject string as a whole (full-string anchor,
//! case-sensitive): `*` matches any run of characters, including the empty
//! run, `?` matches exactly one character, and every other pattern character
//! matches only itself. There are no escape characters.

use vstd::prelude::*;

verus! {

/// Whether `p[i..]` matches `s[j..]` under the wildcard rules: at the end of
/// the pattern the subject must be exhausted too; `*` either matches the
/// empty run (advance the pattern) or swallows one more subject character;
/// any other pattern character consumes exactly one subject character, which
/// it must equal unless the pattern character is `?`.
pub open spec fn glob_match_at(p: Seq<char>, s: Seq<char>, i: int, j: int) -> bool
    decreases p.len() - i, s.len() - j,
{
    if !(0 <= i <= p.len() && 0 <= j <= s.len()) {
        false
    } else if i == p.len() {
        j == s.len()
    } else if p[i] == '*' {
        glob_match_at(p, s, i + 1, j) || (j < s.len() && glob_match_at(p, s, i, j + 1))
    } else {
        j < s.len() && (p[i] == '?' || p[i] == s[j]) && glob_match_at(p, s, i + 1, j + 1)
    }
}

/// Whether pattern `p` matches the whole of `s`.
pub open spec fn glob_match(p: Seq<char>, s: Seq<char>) -> bool {
    glob_match_at(p, s, 0, 0)
}

/// What `*` stands for: with a star at pattern position `i`, the suffixes
/// match exactly when the star can swallow some run — possibly empty — of
/// the subject, and the rest of the pattern matches what is left.
pub proof fn lemma_star_swallows_any_run(p: Seq<char>, s: Seq<char>, i: int, j: int)
    requires
        0 <= i < p.len(),
        0 <= j <= s.len(),
        p[i] == '*',
    ensures
        glob_match_at(p, s, i, j) <==> exists|k: int|
            j <= k <= s.len() && #[trigger] glob_match_at(p, s, i + 1, k),
    decreases s.len() - j,
{
    if glob_match_at(p, s, i, j) {
        if glob_match_at(p, s, i + 1, j) {
            assert(j <= j <= s.len() && glob_match_at(p, s, i + 1, j));
        } else {
            lemma_star_swallows_any_run(p, s, i, j + 1);
            let k = choose|k: int| j + 1 <= k <= s.len() && #[trigger] glob_match_at(p, s, i + 1, k);
            assert(j <= k <= s.len() && glob_match_at(p, s, i + 1, k));
        }
    }
    if exists|k: int| j <= k <= s.len() && #[trigger] glob_match_at(p, s, i + 1, k) {
        let k = choose|k: int| j <= k <= s.len() && #[trigger] glob_match_at(p, s, i + 1, k);
        if k == j {
            assert(glob_match_at(p, s, i, j));
        } else {
            lemma_star_swallows_any_run(p, s, i, j + 1);
            assert(j + 1 <= k <= s.len() && glob_match_at(p, s, i + 1, k));
            assert(glob_match_at(p, s, i, j + 1));
            assert(glob_match_at(p, s, i, j));
        }
    }
}

/// The characters of `s`, in order, as a vector.
pub fn str_chars(s: &str) -> (v: Vec<char>)
    ensures
        v@ == s@,
{
    let n = s.unicode_len();
    let mut v: Vec<char> = Vec::new();
    let mut i: usize = 0;
    while i < n
        invariant
            0 <= i <= n,
            n == s@.len(),
            v@ =~= s@.take(i as int),
        decreases n - i,
    {
        v.push(s.get_char(i));
        i += 1;
    }
    proof {
        assert(v@ =~= s@);
    }
    v
}

/// Whether pattern `p` matches the whole of `s`, by filling the table of
/// suffix matches from the back of the pattern forward.
pub fn glob_match_chars(p: &Vec<char>, s: &Vec<char>) -> (r: bool)
    ensures
        r == glob_match(p@, s@),
{
    let plen = p.len();
    let slen = s.len();

    // Row for pattern position `i + 1`: `next_end` is the match at subject
    // position `slen`, `next[j]` the match at subject position `j < slen`.
    let mut next_end: bool = true;
    let mut next: Vec<bool> = Vec::new();
    let mut j: usize = 0;
    while j < slen
        invariant
            0 <= j <= slen,
            slen == s@.len(),
            next@.len() == j,
            forall|k: int| 0 <= k < j ==> next@[k] == glob_match_at(p@, s@, p@.len() as int, k),
        decreases slen - j,
    {
        next.push(false);
        j += 1;
    }

    let mut i: usize = plen;
    while i > 0
        invariant
            0 <= i <= plen,
            plen == p@.len(),
            slen == s@.len(),
            next@.len() == slen,
            next_end == glob_match_at(p@, s@, i as int, slen as int),
            forall|k: int| 0 <= k < slen ==> next@[k] == glob_match_at(p@, s@, i as int, k),
        decreases i,
    {
        i -= 1;
        let star = p[i] == '*';
        let row_end: bool = if star { next_end } else { false };
        let mut row: Vec<bool> = Vec::new();
        let mut j: usize = 0;
        while j < slen
            invariant
                0 <= j <= slen,
                row@.len() == j,
            decreases slen - j,
        {
            row.push(false);
            j += 1;
        }
        let mut j: usize = slen;
        while j > 0
            invariant
                0 <= j <= slen,
                plen == p@.len(),
                slen == s@.len(),
                i < plen,
                star == (p@[i as int] == '*'),
                next@.len() == slen,
                next_end == glob_match_at(p@, s@, i as int + 1, slen as int),
                forall|k: int| 0 <= k < slen ==> next@[k] == glob_match_at(p@, s@, i as int + 1, k),
                row@.len() == slen,
                row_end == glob_match_at(p@, s@, i as int, slen as int),
                forall|k: int| j <= k < slen ==> row@[k] == glob_match_at(p@, s@, i as int, k),
            decreases j,
        {
            j -= 1;
            let val: bool = if star {
                let tail = if j + 1 < slen {
                    row[j + 1]
                } else {
                    row_end
                };
                next[j] || tail
            } else {
                let here = p[i] == '?' || p[i] == s[j];
                let rest = if j + 1 < slen {
                    next[j + 1]
                } else {
                    next_end
                };
                here && rest
            };
            row[j] = val;
        }
        next_end = row_end;
        next = row;
    }
    if slen == 0 {
        next_end
    } else {
        next[0]
    }
}

/// Whether `pattern` matches the whole of `text` under the wildcard rules.
pub fn wild_match(pattern: &str, text: &str) -> (r: bool)
    ensures
        r == glob_match(pattern@, text@),
{
    let p = str_chars(pattern);
    let s = str_chars(text);
    glob_match_chars(&p, &s)
}

} // verus!
