//! Namespace patterns and their compiler.
//!
//! A pattern is a dotted sequence of segments. Within a segment the `*`
//! wildcard stands for one or more segment characters; a pattern whose last
//! segment is exactly `*` matches the preceding prefix followed by one or
//! more further segments (and never the bare prefix itself).

use vstd::prelude::*;
use vstd::string::StringSliceAdditionalSpecFns;

verus! {

/// The byte value of `.`, the namespace segment separator.
pub const DOT: u8 = 46;

/// The byte value of `*`, the wildcard marker in patterns.
pub const STAR: u8 = 42;

/// The byte value of the space character, forbidden in patterns.
pub const SPACE: u8 = 32;

/// Characters allowed inside one namespace segment: ASCII alphanumerics and
/// the symbol characters `* + ! - _ ? $ % & = < >`, excluding the dot.
pub open spec fn is_segment_byte(b: u8) -> bool {
    (48 <= b && b <= 57)  // 0-9
        || (97 <= b && b <= 122)  // a-z
        || (65 <= b && b <= 90)  // A-Z
        || b == 42 || b == 43 || b == 33 || b == 45 || b == 95 || b == 63  // * + ! - _ ?
        || b == 36 || b == 37 || b == 38 || b == 61 || b == 60 || b == 62  // $ % & = < >
}

/// Characters allowed anywhere in a dotted namespace: segment characters
/// plus the dot itself.
pub open spec fn is_namespace_byte(b: u8) -> bool {
    is_segment_byte(b) || b == DOT
}

fn segment_byte(b: u8) -> (r: bool)
    ensures
        r == is_segment_byte(b),
{
    (48 <= b && b <= 57)  // 0-9
        || (97 <= b && b <= 122)  // a-z
        || (65 <= b && b <= 90)  // A-Z
        || b == 42 || b == 43 || b == 33 || b == 45 || b == 95 || b == 63  // * + ! - _ ?
        || b == 36 || b == 37 || b == 38 || b == 61 || b == 60 || b == 62  // $ % & = < >
}

fn namespace_byte(b: u8) -> (r: bool)
    ensures
        r == is_namespace_byte(b),
{
    segment_byte(b) || b == DOT
}

/// One element of a compiled pattern.
#[derive(Clone, Copy, Debug, PartialEq, Eq, Structural)]
pub enum Token {
    /// Matches exactly this byte.
    Literal(u8),
    /// Matches one or more segment characters (never a dot).
    SegmentWild,
    /// Matches one or more namespace characters, dots included.
    SubtreeWild,
}

/// What it means for a token sequence to match a byte string in its
/// entirety: literals match themselves, and each wildcard consumes one or
/// more bytes of its character class.
pub open spec fn tokens_match(toks: Seq<Token>, s: Seq<u8>) -> bool
    decreases toks.len(), s.len(),
{
    if toks.len() == 0 {
        s.len() == 0
    } else {
        match toks[0] {
            Token::Literal(c) => s.len() > 0 && s[0] == c && tokens_match(
                toks.skip(1),
                s.skip(1),
            ),
            Token::SegmentWild => s.len() > 0 && is_segment_byte(s[0]) && (tokens_match(
                toks.skip(1),
                s.skip(1),
            ) || tokens_match(toks, s.skip(1))),
            Token::SubtreeWild => s.len() > 0 && is_namespace_byte(s[0]) && (tokens_match(
                toks.skip(1),
                s.skip(1),
            ) || tokens_match(toks, s.skip(1))),
        }
    }
}

/// The token a pattern byte compiles to when no recursive suffix applies:
/// `*` becomes the segment wildcard, everything else matches literally.
pub open spec fn token_of(b: u8) -> Token {
    if b == STAR {
        Token::SegmentWild
    } else {
        Token::Literal(b)
    }
}

/// Tokens of a plain (non-recursive) pattern: each byte stands for itself,
/// with `*` as a segment wildcard and dots as literal separators.
pub open spec fn plain_tokens(s: Seq<u8>) -> Seq<Token> {
    s.map_values(|b: u8| token_of(b))
}

/// A pattern whose last segment is exactly `*`: it ends in `.*`.
pub open spec fn ends_in_subtree_wildcard(s: Seq<u8>) -> bool {
    s.len() >= 2 && s[s.len() - 1] == STAR && s[s.len() - 2] == DOT
}

/// The complete compilation of a pattern string: a recursive pattern keeps
/// its prefix and requires a dot plus one or more further characters; any
/// other pattern must be matched end to end.
pub open spec fn pattern_tokens(s: Seq<u8>) -> Seq<Token> {
    if ends_in_subtree_wildcard(s) {
        plain_tokens(s.take(s.len() - 2)) + seq![Token::Literal(DOT), Token::SubtreeWild]
    } else {
        plain_tokens(s)
    }
}

/// A pattern string is well formed when it is non-empty, contains no space,
/// and neither starts nor ends with a dot.
pub open spec fn valid_pattern(s: Seq<u8>) -> bool {
    s.len() > 0 && !s.contains(SPACE) && s[0] != DOT && s[s.len() - 1] != DOT
}

/// Why a pattern string was rejected.
#[derive(Clone, Copy, Debug, PartialEq, Eq, Structural)]
pub enum PatternError {
    /// The pattern is the empty string.
    Empty,
    /// The pattern contains a space character.
    ContainsSpace,
    /// The pattern starts or ends with a dot.
    EdgeDot,
}

/// The error an ill-formed pattern string is rejected with; emptiness is
/// reported first, then spaces, then a leading or trailing dot.
pub open spec fn pattern_error_of(s: Seq<u8>) -> PatternError {
    if s.len() == 0 {
        PatternError::Empty
    } else if s.contains(SPACE) {
        PatternError::ContainsSpace
    } else {
        PatternError::EdgeDot
    }
}

impl PatternError {
    /// A human-readable description of the rejection.
    pub fn message(&self) -> (r: &'static str)
        ensures
            (match self {
                PatternError::Empty => r@ == "namespace patterns cannot be empty"@,
                PatternError::ContainsSpace => r@ == "namespace patterns cannot contains spaces"@,
                PatternError::EdgeDot => r@
                    == "namespace patterns cannot start with or end with '.'"@,
            }),
    {
        match self {
            PatternError::Empty => "namespace patterns cannot be empty",
            PatternError::ContainsSpace => "namespace patterns cannot contains spaces",
            PatternError::EdgeDot => "namespace patterns cannot start with or end with '.'",
        }
    }
}

/// A compiled namespace pattern: an anchored matcher over whole namespace
/// names.
#[derive(Debug)]
pub struct NamespaceMatcher {
    /// The compiled form of the pattern string.
    pub tokens: Vec<Token>,
}

impl View for NamespaceMatcher {
    type V = Seq<Token>;

    open spec fn view(&self) -> Seq<Token> {
        self.tokens@
    }
}

impl NamespaceMatcher {
    /// Compiles a pattern string, rejecting empty strings, spaces, and
    /// leading or trailing dots.
    pub fn from_str(pattern: &str) -> (r: Result<NamespaceMatcher, PatternError>)
        ensures
            (match r {
                Ok(m) => valid_pattern(pattern.spec_bytes()) && m@ == pattern_tokens(
                    pattern.spec_bytes(),
                ),
                Err(e) => !valid_pattern(pattern.spec_bytes()) && e == pattern_error_of(
                    pattern.spec_bytes(),
                ),
            }),
    {
        let b = pattern.as_bytes();
        let n = b.len();
        if n == 0 {
            return Err(PatternError::Empty);
        }
        let mut i: usize = 0;
        while i < n
            invariant
                b@ == pattern.spec_bytes(),
                n == b@.len(),
                n > 0,
                i <= n,
                forall|j: int| 0 <= j < i ==> b@[j] != SPACE,
            decreases n - i,
        {
            if b[i] == SPACE {
                proof {
                    assert(b@.contains(SPACE)) by {
                        assert(b@[i as int] == SPACE);
                    }
                }
                return Err(PatternError::ContainsSpace);
            }
            i += 1;
        }
        assert(!b@.contains(SPACE));
        if b[0] == DOT || b[n - 1] == DOT {
            return Err(PatternError::EdgeDot);
        }
        let recursive = n >= 2 && b[n - 1] == STAR && b[n - 2] == DOT;
        let head_len = if recursive {
            n - 2
        } else {
            n
        };
        let mut tokens: Vec<Token> = Vec::new();
        let mut i: usize = 0;
        while i < head_len
            invariant
                n == b@.len(),
                head_len <= n,
                i <= head_len,
                tokens@ == plain_tokens(b@.take(i as int)),
            decreases head_len - i,
        {
            if b[i] == STAR {
                tokens.push(Token::SegmentWild);
            } else {
                tokens.push(Token::Literal(b[i]));
            }
            assert(plain_tokens(b@.take(i + 1 as int)) =~= plain_tokens(b@.take(i as int)).push(
                token_of(b@[i as int]),
            ));
            i += 1;
        }
        if recursive {
            tokens.push(Token::Literal(DOT));
            tokens.push(Token::SubtreeWild);
            assert(tokens@ =~= plain_tokens(b@.take(n - 2)) + seq![
                Token::Literal(DOT),
                Token::SubtreeWild,
            ]);
        }
        assert(b@ =~= b@.take(n as int));
        Ok(NamespaceMatcher { tokens })
    }

    /// Whether the pattern matches the whole of the given namespace name,
    /// presented as bytes.
    pub fn matches_bytes(&self, namespace: &[u8]) -> (r: bool)
        ensures
            r == tokens_match(self@, namespace@),
    {
        let toks = &self.tokens;
        let nt = toks.len();
        let n = namespace.len();
        // Rows of a table over suffixes: row i, entry j states whether the
        // tokens from i onward match the namespace bytes from j onward.
        let mut next: Vec<bool> = Vec::new();
        let mut j: usize = 0;
        while j < n
            invariant
                n == namespace@.len(),
                nt == toks@.len(),
                j <= n,
                next@.len() == j,
                forall|x: int| 0 <= x < j ==> next@[x] == tokens_match(
                    toks@.skip(nt as int),
                    namespace@.skip(x),
                ),
            decreases n - j,
        {
            assert(toks@.skip(nt as int) =~= Seq::<Token>::empty());
            assert(namespace@.skip(j as int).len() == n - j);
            next.push(false);
            j += 1;
        }
        assert(toks@.skip(nt as int) =~= Seq::<Token>::empty());
        assert(namespace@.skip(n as int).len() == 0);
        next.push(true);
        let mut i: usize = nt;
        while i > 0
            invariant
                n == namespace@.len(),
                nt == toks@.len(),
                i <= nt,
                next@.len() == n + 1,
                forall|x: int| 0 <= x <= n ==> next@[x] == tokens_match(
                    toks@.skip(i as int),
                    namespace@.skip(x),
                ),
            decreases i,
        {
            i -= 1;
            let mut cur: Vec<bool> = Vec::new();
            let mut j: usize = 0;
            while j < n
                invariant
                    n == namespace@.len(),
                    j <= n,
                    cur@.len() == j,
                    forall|x: int| 0 <= x < j ==> cur@[x] == false,
                decreases n - j,
            {
                cur.push(false);
                j += 1;
            }
            cur.push(false);
            proof {
                let ts = toks@.skip(i as int);
                let se = namespace@.skip(n as int);
                assert(se.len() == 0);
                assert(ts.len() > 0);
                assert(!tokens_match(ts, se));
            }
            let mut j: usize = n;
            while j > 0
                invariant
                    n == namespace@.len(),
                    nt == toks@.len(),
                    i < nt,
                    j <= n,
                    cur@.len() == n + 1,
                    next@.len() == n + 1,
                    forall|x: int| 0 <= x <= n ==> next@[x] == tokens_match(
                        toks@.skip(i + 1),
                        namespace@.skip(x),
                    ),
                    forall|x: int| j <= x <= n ==> cur@[x] == tokens_match(
                        toks@.skip(i as int),
                        namespace@.skip(x),
                    ),
                decreases j,
            {
                j -= 1;
                let v: bool = match toks[i] {
                    Token::Literal(c) => j < n && namespace[j] == c && next[j + 1],
                    Token::SegmentWild => j < n && segment_byte(namespace[j]) && (next[j + 1]
                        || cur[j + 1]),
                    Token::SubtreeWild => j < n && namespace_byte(namespace[j]) && (next[j + 1]
                        || cur[j + 1]),
                };
                cur.set(j, v);
                proof {
                    let ts = toks@.skip(i as int);
                    let ss = namespace@.skip(j as int);
                    assert(ts[0] == toks@[i as int]);
                    assert(ts.skip(1) =~= toks@.skip(i + 1));
                    assert(ss.len() == n - j);
                    assert(ss[0] == namespace@[j as int]);
                    assert(ss.skip(1) =~= namespace@.skip(j + 1));
                }
            }
            next = cur;
        }
        proof {
            assert(toks@.skip(0) =~= toks@);
            assert(namespace@.skip(0) =~= namespace@);
        }
        next[0]
    }

    /// Whether the pattern matches the whole of the given namespace name.
    pub fn matches(&self, namespace: &str) -> (r: bool)
        ensures
            r == tokens_match(self@, namespace.spec_bytes()),
    {
        self.matches_bytes(namespace.as_bytes())
    }
}

/// A wildcard-free well-formed pattern is an exact matcher: it matches its
/// own text, and no other byte string whatever.
pub proof fn lemma_literal_pattern_exact(p: Seq<u8>, ns: Seq<u8>)
    requires
        valid_pattern(p),
        forall|i: int| 0 <= i < p.len() ==> p[i] != STAR,
    ensures
        tokens_match(pattern_tokens(p), ns) <==> ns == p,
{
    assert(!ends_in_subtree_wildcard(p));
    lemma_literal_tokens_exact(p, ns);
}

proof fn lemma_literal_tokens_exact(p: Seq<u8>, ns: Seq<u8>)
    requires
        forall|i: int| 0 <= i < p.len() ==> p[i] != STAR,
    ensures
        tokens_match(plain_tokens(p), ns) <==> ns == p,
    decreases p.len(),
{
    if p.len() == 0 {
        if ns.len() == 0 {
            assert(ns =~= p);
        }
    } else {
        assert(plain_tokens(p)[0] == Token::Literal(p[0]));
        assert(plain_tokens(p).skip(1) =~= plain_tokens(p.skip(1)));
        assert(forall|i: int| 0 <= i < p.skip(1).len() ==> p.skip(1)[i] == p[i + 1]);
        lemma_literal_tokens_exact(p.skip(1), ns.skip(1));
        if tokens_match(plain_tokens(p), ns) {
            assert(ns.len() > 0 && ns[0] == p[0] && ns.skip(1) == p.skip(1));
            assert forall|x: int| 0 <= x < ns.len() implies ns[x] == p[x] by {
                if x > 0 {
                    assert(ns.skip(1)[x - 1] == ns[x]);
                    assert(p.skip(1)[x - 1] == p[x]);
                }
            }
            assert(ns =~= p);
        }
        if ns == p {
            assert(ns.len() > 0 && ns[0] == p[0]);
            assert(ns.skip(1) == p.skip(1));
        }
    }
}

} // verus!
