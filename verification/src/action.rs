//! Action patterns: compiling a `service:action` pattern string and testing
//! it against a concrete action string.
//!
//! A pattern is either the lone wildcard `*`, which matches every action, or
//! `service:action_part`, where the service is one or more ASCII
//! alphanumerics and the action part is one or more ASCII alphanumerics and
//! `*` wildcards. Matching is ASCII case-insensitive; each `*` in the action
//! part stands for zero or more arbitrary characters.

use vstd::prelude::*;
use crate::text::str_to_chars;

verus! {

/// ASCII uppercase letter.
pub open spec fn is_upper(c: char) -> bool {
    'A' <= c && c <= 'Z'
}

/// ASCII letter or digit.
pub open spec fn is_alnum(c: char) -> bool {
    ('a' <= c && c <= 'z') || ('A' <= c && c <= 'Z') || ('0' <= c && c <= '9')
}

/// A character the action part of a pattern may contain.
pub open spec fn is_action_char(c: char) -> bool {
    is_alnum(c) || c == '*'
}

/// ASCII case-insensitive character equality.
pub open spec fn char_eq_ci(a: char, b: char) -> bool {
    ||| a == b
    ||| (is_upper(a) && a as int + 32 == b as int)
    ||| (is_upper(b) && b as int + 32 == a as int)
}

/// ASCII case-insensitive string equality.
pub open spec fn seq_eq_ci(a: Seq<char>, b: Seq<char>) -> bool {
    a.len() == b.len() && forall|i: int| 0 <= i < a.len() ==> char_eq_ci(a[i], b[i])
}

/// Wildcard matching: `p` matches `s` when the literal characters of `p`
/// line up with `s` case-insensitively and each `*` in `p` covers zero or
/// more arbitrary characters of `s`.
pub open spec fn glob_match(p: Seq<char>, s: Seq<char>) -> bool
    decreases p.len(), s.len(),
{
    if p.len() == 0 {
        s.len() == 0
    } else if p[0] == '*' {
        glob_match(p.skip(1), s) || (s.len() > 0 && glob_match(p, s.skip(1)))
    } else {
        s.len() > 0 && char_eq_ci(p[0], s[0]) && glob_match(p.skip(1), s.skip(1))
    }
}

/// A valid service name: one or more ASCII alphanumerics.
pub open spec fn valid_service(s: Seq<char>) -> bool {
    s.len() > 0 && forall|i: int| 0 <= i < s.len() ==> is_alnum(s[i])
}

/// A valid action part: one or more ASCII alphanumerics or `*`.
pub open spec fn valid_action_part(s: Seq<char>) -> bool {
    s.len() > 0 && forall|i: int| 0 <= i < s.len() ==> is_action_char(s[i])
}

/// The single-character pattern `*`, which matches every action.
pub open spec fn is_star_pattern(p: Seq<char>) -> bool {
    p.len() == 1 && p[0] == '*'
}

/// Position `i` splits `p` into a valid service and a valid action part.
pub open spec fn valid_pattern_at(p: Seq<char>, i: int) -> bool {
    &&& 0 <= i < p.len()
    &&& p[i] == ':'
    &&& valid_service(p.take(i))
    &&& valid_action_part(p.skip(i + 1))
}

/// `p` is a well-formed `service:action` pattern.
pub open spec fn valid_pattern(p: Seq<char>) -> bool {
    exists|i: int| valid_pattern_at(p, i)
}

/// Position `i` holds the first colon of `p`.
pub open spec fn is_first_colon(p: Seq<char>, i: int) -> bool {
    &&& 0 <= i < p.len()
    &&& p[i] == ':'
    &&& forall|j: int| 0 <= j < i ==> p[j] != ':'
}

/// `p` contains a colon somewhere.
pub open spec fn has_colon(p: Seq<char>) -> bool {
    exists|i: int| 0 <= i < p.len() && p[i] == ':'
}

/// `compile` accepts exactly these pattern strings.
pub open spec fn pattern_ok(p: Seq<char>) -> bool {
    is_star_pattern(p) || valid_pattern(p)
}

/// What it means for the pattern string `p` to match the action string `a`:
/// the lone wildcard matches everything; a well-formed pattern matches by
/// the wildcard rules; an ill-formed pattern matches nothing.
pub open spec fn pattern_matches(p: Seq<char>, a: Seq<char>) -> bool {
    if is_star_pattern(p) {
        true
    } else {
        valid_pattern(p) && glob_match(p, a)
    }
}

/// Why a pattern string was rejected.
#[derive(PartialEq, Eq, Structural, Copy, Clone, Debug)]
pub enum ParseError {
    /// The pattern is not `*` and contains no `:` separator.
    MissingSeparator,
    /// The part before the first `:` is not one or more ASCII alphanumerics.
    InvalidService,
    /// The part after the first `:` is not one or more ASCII alphanumerics
    /// and `*` wildcards.
    InvalidActionGlob,
}

/// A compiled action pattern: a wildcard, a literal, or a glob.
#[derive(Clone, Debug)]
pub enum ActionGlob {
    /// The pattern `*`: matches any action unconditionally.
    Star,
    /// A pattern without wildcards: matches one action string, compared
    /// case-insensitively.
    Literal(String),
    /// A validated pattern whose action part contains `*` wildcards.
    Pattern(String),
}

impl ActionGlob {
    /// The set of action strings this compiled pattern matches.
    pub open spec fn spec_matches(&self, a: Seq<char>) -> bool {
        match self {
            ActionGlob::Star => true,
            ActionGlob::Literal(s) => seq_eq_ci(s@, a),
            ActionGlob::Pattern(s) => glob_match(s@, a),
        }
    }
}

// ---------------------------------------------------------------------------
// Executable helpers
// ---------------------------------------------------------------------------

fn exec_is_upper(c: char) -> (r: bool)
    ensures
        r == is_upper(c),
{
    'A' <= c && c <= 'Z'
}

fn exec_is_alnum(c: char) -> (r: bool)
    ensures
        r == is_alnum(c),
{
    ('a' <= c && c <= 'z') || ('A' <= c && c <= 'Z') || ('0' <= c && c <= '9')
}

fn exec_char_eq_ci(a: char, b: char) -> (r: bool)
    ensures
        r == char_eq_ci(a, b),
{
    if a == b {
        true
    } else if exec_is_upper(a) {
        a as u32 + 32 == b as u32
    } else if exec_is_upper(b) {
        b as u32 + 32 == a as u32
    } else {
        false
    }
}

/// The wildcard matcher on `p[pi..]` against `s[si..]`, following
/// `glob_match` case for case.
fn glob_match_at(p: &Vec<char>, pi: usize, s: &Vec<char>, si: usize) -> (r: bool)
    requires
        pi <= p@.len(),
        si <= s@.len(),
    ensures
        r == glob_match(p@.skip(pi as int), s@.skip(si as int)),
    decreases p@.len() - pi, s@.len() - si,
{
    let ghost pv = p@.skip(pi as int);
    let ghost sv = s@.skip(si as int);
    if pi == p.len() {
        assert(pv.len() == 0);
        si == s.len()
    } else {
        assert(pv[0] == p@[pi as int]);
        if p[pi] == '*' {
            assert(pv.skip(1) =~= p@.skip(pi + 1 as int));
            if glob_match_at(p, pi + 1, s, si) {
                true
            } else if si < s.len() {
                assert(sv.skip(1) =~= s@.skip(si + 1 as int));
                glob_match_at(p, pi, s, si + 1)
            } else {
                false
            }
        } else {
            if si == s.len() {
                assert(sv.len() == 0);
                false
            } else {
                assert(sv[0] == s@[si as int]);
                if exec_char_eq_ci(p[pi], s[si]) {
                    assert(pv.skip(1) =~= p@.skip(pi + 1 as int));
                    assert(sv.skip(1) =~= s@.skip(si + 1 as int));
                    glob_match_at(p, pi + 1, s, si + 1)
                } else {
                    false
                }
            }
        }
    }
}

// ---------------------------------------------------------------------------
// Lemmas about wildcard matching
// ---------------------------------------------------------------------------

/// On patterns without `*`, wildcard matching is exactly case-insensitive
/// string equality.
pub proof fn lemma_no_star_glob_is_eq_ci(p: Seq<char>, s: Seq<char>)
    requires
        forall|i: int| 0 <= i < p.len() ==> p[i] != '*',
    ensures
        glob_match(p, s) == seq_eq_ci(p, s),
    decreases p.len(),
{
    if p.len() == 0 {
        assert(glob_match(p, s) == (s.len() == 0));
    } else {
        assert(p[0] != '*');
        if s.len() > 0 && char_eq_ci(p[0], s[0]) {
            assert(forall|i: int| 0 <= i < p.skip(1).len() ==> p.skip(1)[i] != '*');
            lemma_no_star_glob_is_eq_ci(p.skip(1), s.skip(1));
            if glob_match(p, s) {
                assert(seq_eq_ci(p.skip(1), s.skip(1)));
                assert forall|i: int| 0 <= i < p.len() implies char_eq_ci(p[i], s[i]) by {
                    if i > 0 {
                        assert(p.skip(1)[i - 1] == p[i]);
                        assert(s.skip(1)[i - 1] == s[i]);
                    }
                }
            }
            if seq_eq_ci(p, s) {
                assert forall|i: int| 0 <= i < p.skip(1).len() implies char_eq_ci(
                    p.skip(1)[i],
                    s.skip(1)[i],
                ) by {
                    assert(p.skip(1)[i] == p[i + 1]);
                    assert(s.skip(1)[i] == s[i + 1]);
                }
                assert(seq_eq_ci(p.skip(1), s.skip(1)));
            }
        } else {
            assert(!glob_match(p, s));
            assert(!seq_eq_ci(p, s));
        }
    }
}

/// A leading `*` stands for zero or more characters: `*p` matches `s`
/// exactly when `p` matches some suffix of `s`.
pub proof fn lemma_star_expands(p: Seq<char>, s: Seq<char>)
    ensures
        glob_match(seq!['*'] + p, s) <==> exists|k: int|
            0 <= k <= s.len() && glob_match(p, s.skip(k)),
    decreases s.len(),
{
    let sp = seq!['*'] + p;
    assert(sp[0] == '*');
    assert(sp.skip(1) =~= p);
    if glob_match(sp, s) {
        if glob_match(p, s) {
            assert(s.skip(0) =~= s);
            assert(0 <= 0 <= s.len() && glob_match(p, s.skip(0)));
        } else {
            assert(s.len() > 0 && glob_match(sp, s.skip(1)));
            lemma_star_expands(p, s.skip(1));
            let k = choose|k: int| 0 <= k <= s.skip(1).len() && glob_match(p, s.skip(1).skip(k));
            assert(s.skip(1).skip(k) =~= s.skip(1 + k));
            assert(0 <= 1 + k <= s.len() && glob_match(p, s.skip(1 + k)));
        }
    }
    if exists|k: int| 0 <= k <= s.len() && glob_match(p, s.skip(k)) {
        let k = choose|k: int| 0 <= k <= s.len() && glob_match(p, s.skip(k));
        if k == 0 {
            assert(s.skip(0) =~= s);
            assert(glob_match(sp.skip(1), s));
        } else {
            assert(s.len() > 0);
            lemma_star_expands(p, s.skip(1));
            assert(s.skip(1).skip(k - 1) =~= s.skip(k));
            assert(0 <= k - 1 <= s.skip(1).len() && glob_match(p, s.skip(1).skip(k - 1)));
            assert(glob_match(sp, s.skip(1)));
        }
        assert(glob_match(sp, s));
    }
}

/// The lone wildcard pattern matches every action string.
pub proof fn lemma_star_matches_everything(a: Seq<char>)
    ensures
        pattern_matches(seq!['*'], a),
{
    assert(is_star_pattern(seq!['*']));
}

/// A valid literal pattern (one with no `*` in it) matches exactly the
/// action strings that equal it up to ASCII case.
pub proof fn lemma_literal_matches_case_insensitive(p: Seq<char>, a: Seq<char>)
    requires
        valid_pattern(p),
        forall|i: int| 0 <= i < p.len() ==> p[i] != '*',
    ensures
        pattern_matches(p, a) == seq_eq_ci(p, a),
{
    let i = choose|i: int| valid_pattern_at(p, i);
    assert(p[i] == ':');
    assert(!is_star_pattern(p));
    lemma_no_star_glob_is_eq_ci(p, a);
}

// ---------------------------------------------------------------------------
// Compiling and matching
// ---------------------------------------------------------------------------

impl ActionGlob {
    /// Parse and validate a pattern string.
    ///
    /// Returns `Star` for the lone `*`; otherwise splits at the first `:`,
    /// checks the service and action parts against their character classes,
    /// and returns `Literal` when the action part has no wildcard and
    /// `Pattern` when it has one. The error names the first rule violated:
    /// no colon, then a bad service, then a bad action part.
    pub fn compile(pattern: &str) -> (r: Result<ActionGlob, ParseError>)
        ensures
            r is Ok <==> pattern_ok(pattern@),
            r matches Ok(g) ==> forall|a: Seq<char>|
                #[trigger] g.spec_matches(a) == pattern_matches(pattern@, a),
            r == Err::<ActionGlob, ParseError>(ParseError::MissingSeparator) <==> (!is_star_pattern(
                pattern@,
            ) && !has_colon(pattern@)),
            r == Err::<ActionGlob, ParseError>(ParseError::InvalidService) <==> (!is_star_pattern(
                pattern@,
            ) && exists|i: int| is_first_colon(pattern@, i) && !valid_service(pattern@.take(i))),
            r == Err::<ActionGlob, ParseError>(ParseError::InvalidActionGlob) <==> (
            !is_star_pattern(pattern@) && exists|i: int|
                is_first_colon(pattern@, i) && valid_service(pattern@.take(i))
                    && !valid_action_part(pattern@.skip(i + 1))),
    {
        let chars = str_to_chars(pattern);
        let n = chars.len();
        if n == 1 && chars[0] == '*' {
            assert(is_star_pattern(pattern@));
            proof {
                lemma_compile_star(pattern@);
            }
            return Ok(ActionGlob::Star);
        }
        assert(!is_star_pattern(pattern@));

        // Find the first colon.
        let mut ci: usize = 0;
        while ci < n && chars[ci] != ':'
            invariant
                ci <= n,
                n == pattern@.len(),
                chars@ == pattern@,
                forall|j: int| 0 <= j < ci ==> pattern@[j] != ':',
            decreases n - ci,
        {
            ci += 1;
        }
        if ci == n {
            assert(!has_colon(pattern@));
            assert(!valid_pattern(pattern@)) by {
                if valid_pattern(pattern@) {
                    let i = choose|i: int| valid_pattern_at(pattern@, i);
                    assert(pattern@[i] == ':');
                }
            }
            return Err(ParseError::MissingSeparator);
        }
        assert(is_first_colon(pattern@, ci as int));
        assert(has_colon(pattern@));

        // Validate the service part, pattern[0..ci].
        if ci == 0 {
            assert(!valid_service(pattern@.take(ci as int)));
            proof {
                lemma_invalid_split_invalid_pattern(pattern@, ci as int);
            }
            return Err(ParseError::InvalidService);
        }
        let mut i: usize = 0;
        while i < ci
            invariant
                i <= ci < n,
                n == pattern@.len(),
                chars@ == pattern@,
                is_first_colon(pattern@, ci as int),
                forall|j: int| 0 <= j < i ==> is_alnum(pattern@[j]),
            decreases ci - i,
        {
            if !exec_is_alnum(chars[i]) {
                assert(pattern@.take(ci as int)[i as int] == pattern@[i as int]);
                assert(!valid_service(pattern@.take(ci as int)));
                proof {
                    lemma_invalid_split_invalid_pattern(pattern@, ci as int);
                }
                return Err(ParseError::InvalidService);
            }
            i += 1;
        }
        assert(valid_service(pattern@.take(ci as int))) by {
            assert(forall|j: int|
                0 <= j < ci ==> pattern@.take(ci as int)[j] == pattern@[j]);
        }

        // Validate the action part, pattern[ci+1..], and look for wildcards.
        if ci + 1 == n {
            assert(pattern@.skip(ci + 1).len() == 0);
            assert(!valid_action_part(pattern@.skip(ci as int + 1)));
            proof {
                lemma_invalid_split_invalid_pattern(pattern@, ci as int);
            }
            return Err(ParseError::InvalidActionGlob);
        }
        let mut k: usize = ci + 1;
        let mut saw_star: bool = false;
        while k < n
            invariant
                ci + 1 <= k <= n,
                ci < n,
                n == pattern@.len(),
                chars@ == pattern@,
                is_first_colon(pattern@, ci as int),
                valid_service(pattern@.take(ci as int)),
                forall|j: int| ci + 1 <= j < k ==> is_action_char(pattern@[j]),
                saw_star == exists|j: int| ci + 1 <= j < k && #[trigger] pattern@[j] == '*',
            decreases n - k,
        {
            let c = chars[k];
            if c == '*' {
                saw_star = true;
            } else if !exec_is_alnum(c) {
                assert(pattern@.skip(ci as int + 1)[k - ci - 1] == pattern@[k as int]);
                assert(!valid_action_part(pattern@.skip(ci as int + 1)));
                proof {
                    lemma_invalid_split_invalid_pattern(pattern@, ci as int);
                }
                return Err(ParseError::InvalidActionGlob);
            }
            k += 1;
        }
        assert(valid_action_part(pattern@.skip(ci as int + 1))) by {
            assert(pattern@.skip(ci as int + 1).len() == n - ci - 1 > 0);
            assert(forall|j: int|
                0 <= j < n - ci - 1 ==> #[trigger] pattern@.skip(ci as int + 1)[j] == pattern@[j + ci + 1]);
        }
        assert(valid_pattern_at(pattern@, ci as int));
        assert(valid_pattern(pattern@));
        proof {
            let sk = pattern@.skip(ci as int + 1);
            assert(forall|j: int| 0 <= j < sk.len() ==> #[trigger] sk[j] == pattern@[j + ci + 1]);
            if saw_star {
                let j = choose|j: int| ci + 1 <= j < n && #[trigger] pattern@[j] == '*';
                assert(sk[j - ci - 1] == '*');
            }
            if exists|j: int| 0 <= j < sk.len() && #[trigger] sk[j] == '*' {
                let j = choose|j: int| 0 <= j < sk.len() && #[trigger] sk[j] == '*';
                assert(pattern@[j + ci + 1] == '*');
            }
            assert(saw_star == exists|j: int| 0 <= j < sk.len() && #[trigger] sk[j] == '*');
        }

        let owned: String = pattern.to_owned();
        if saw_star {
            let g = ActionGlob::Pattern(owned);
            proof {
                lemma_compile_valid(pattern@, ci as int);
            }
            Ok(g)
        } else {
            let g = ActionGlob::Literal(owned);
            proof {
                assert(forall|j: int| 0 <= j < pattern@.len() ==> pattern@[j] != '*') by {
                    lemma_valid_no_star_chars(pattern@, ci as int, saw_star);
                }
                lemma_compile_valid_literal(pattern@);
            }
            Ok(g)
        }
    }

    /// Test this compiled pattern against a concrete action string.
    pub fn matches(&self, action: &str) -> (r: bool)
        ensures
            r == self.spec_matches(action@),
    {
        match self {
            ActionGlob::Star => true,
            ActionGlob::Literal(s) => {
                let sc = str_to_chars(s.as_str());
                let ac = str_to_chars(action);
                let sn = sc.len();
                if sn != ac.len() {
                    return false;
                }
                let mut i: usize = 0;
                while i < sn
                    invariant
                        i <= sn,
                        sn == s@.len() == action@.len(),
                        sc@ == s@,
                        ac@ == action@,
                        self.spec_matches(action@) == seq_eq_ci(s@, action@),
                        forall|j: int| 0 <= j < i ==> char_eq_ci(s@[j], action@[j]),
                    decreases sn - i,
                {
                    if !exec_char_eq_ci(sc[i], ac[i]) {
                        assert(!char_eq_ci(s@[i as int], action@[i as int]));
                        return false;
                    }
                    i += 1;
                }
                true
            },
            ActionGlob::Pattern(s) => {
                let sc = str_to_chars(s.as_str());
                let ac = str_to_chars(action);
                assert(sc@.skip(0) =~= s@);
                assert(ac@.skip(0) =~= action@);
                glob_match_at(&sc, 0, &ac, 0)
            },
        }
    }
}


/// An ill-formed split at the first colon means no split is well-formed:
/// a valid pattern's colon is unique, so it must be the first one.
proof fn lemma_invalid_split_invalid_pattern(p: Seq<char>, i: int)
    requires
        is_first_colon(p, i),
        !(valid_service(p.take(i)) && valid_action_part(p.skip(i + 1))),
    ensures
        !valid_pattern(p),
{
    if valid_pattern(p) {
        let j = choose|j: int| valid_pattern_at(p, j);
        if j < i {
            assert(p[j] == ':');
        } else if j > i {
            // The colon at i would sit inside the valid service part.
            assert(p.take(j)[i] == p[i]);
            assert(is_alnum(':'));
        } else {
            assert(valid_service(p.take(i)) && valid_action_part(p.skip(i + 1)));
        }
    }
}

proof fn lemma_compile_star(p: Seq<char>)
    requires
        is_star_pattern(p),
    ensures
        forall|a: Seq<char>| #[trigger] ActionGlob::Star.spec_matches(a) == pattern_matches(p, a),
{
}

/// A valid pattern with no wildcard in its action part has no `*` at all.
proof fn lemma_valid_no_star_chars(p: Seq<char>, i: int, saw_star: bool)
    requires
        valid_pattern_at(p, i),
        !(exists|j: int| 0 <= j < p.skip(i + 1).len() && #[trigger] p.skip(i + 1)[j] == '*'),
    ensures
        forall|j: int| 0 <= j < p.len() ==> p[j] != '*',
{
    assert forall|j: int| 0 <= j < p.len() implies p[j] != '*' by {
        if j < i {
            assert(p.take(i)[j] == p[j]);
            assert(is_alnum(p[j]));
        } else if j == i {
        } else {
            assert(p.skip(i + 1)[j - i - 1] == p[j]);
        }
    }
}

proof fn lemma_compile_valid_literal(p: Seq<char>)
    requires
        valid_pattern(p),
        forall|j: int| 0 <= j < p.len() ==> p[j] != '*',
    ensures
        forall|a: Seq<char>, s: String| s@ == p ==> #[trigger] ActionGlob::Literal(s).spec_matches(
            a,
        ) == pattern_matches(p, a),
{
    assert forall|a: Seq<char>, s: String| s@ == p implies #[trigger] ActionGlob::Literal(
        s,
    ).spec_matches(a) == pattern_matches(p, a) by {
        lemma_literal_matches_case_insensitive(p, a);
    }
}

proof fn lemma_compile_valid(p: Seq<char>, i: int)
    requires
        valid_pattern_at(p, i),
    ensures
        forall|a: Seq<char>, s: String| s@ == p ==> #[trigger] ActionGlob::Pattern(s).spec_matches(
            a,
        ) == pattern_matches(p, a),
{
    assert(p[i] == ':');
    assert(!is_star_pattern(p));
    assert(valid_pattern(p));
}


/// A star-free prefix of a pattern must line up literally (up to ASCII
/// case) with the matched string, and the rest must match the rest.
pub proof fn lemma_glob_literal_prefix(p: Seq<char>, s: Seq<char>, k: int)
    requires
        0 <= k <= p.len(),
        forall|i: int| 0 <= i < k ==> p[i] != '*',
        glob_match(p, s),
    ensures
        s.len() >= k,
        seq_eq_ci(p.take(k), s.take(k)),
        glob_match(p.skip(k), s.skip(k)),
    decreases k,
{
    if k == 0 {
        assert(p.skip(0) =~= p);
        assert(s.skip(0) =~= s);
        assert(seq_eq_ci(p.take(0), s.take(0)));
    } else {
        assert(p[0] != '*');
        assert(s.len() > 0 && char_eq_ci(p[0], s[0]) && glob_match(p.skip(1), s.skip(1)));
        assert(forall|i: int| 0 <= i < k - 1 ==> p.skip(1)[i] != '*');
        lemma_glob_literal_prefix(p.skip(1), s.skip(1), k - 1);
        assert(p.skip(1).skip(k - 1) =~= p.skip(k));
        assert(s.skip(1).skip(k - 1) =~= s.skip(k));
        let pt = p.skip(1).take(k - 1);
        let st = s.skip(1).take(k - 1);
        assert forall|i: int| 0 <= i < k implies char_eq_ci(p.take(k)[i], s.take(k)[i]) by {
            if i == 0 {
                assert(p.take(k)[0] == p[0] && s.take(k)[0] == s[0]);
            } else {
                assert(pt[i - 1] == p[i] && st[i - 1] == s[i]);
                assert(char_eq_ci(pt[i - 1], st[i - 1]));
            }
        }
        assert(seq_eq_ci(p.take(k), s.take(k)));
    }
}

/// Wildcards expand within the action portion only: when a valid
/// pattern matches, its service name and the colon line up literally
/// (up to ASCII case) with the start of the action string.
pub proof fn lemma_service_must_match(p: Seq<char>, a: Seq<char>, i: int)
    requires
        valid_pattern_at(p, i),
        glob_match(p, a),
    ensures
        a.len() >= i + 1,
        seq_eq_ci(p.take(i + 1), a.take(i + 1)),
{
    assert(forall|j: int| 0 <= j < i ==> is_alnum(#[trigger] p.take(i)[j]));
    assert forall|j: int| 0 <= j < i + 1 implies p[j] != '*' by {
        if j < i {
            assert(p.take(i)[j] == p[j]);
            assert(is_alnum(p[j]));
        }
    }
    lemma_glob_literal_prefix(p, a, i + 1);
}


} // verus!
