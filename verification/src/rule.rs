//! Policy rules, their resolution against a corpus, and their application
//! to one unit's text.
//!
//! A rule guards the namespaces matching its guard pattern and carries an
//! ordered allow-list of patterns. Compiling a rule against the full corpus
//! resolves, once and for all, the concrete set of namespaces the rule
//! forbids: every corpus namespace that matches neither the guard itself
//! (a unit may always reference its own guarded hierarchy) nor any allow
//! pattern. Units discovered after compilation are invisible to the
//! compiled rule.

use vstd::prelude::*;
use vstd::slice::slice_to_vec;
use vstd::string::StringSliceAdditionalSpecFns;

use crate::pattern::NamespaceMatcher;
use crate::pattern::Token;
use crate::pattern::tokens_match;
use crate::report::Report;
use crate::scan::Violation;
use crate::scan::scan_code;
use crate::scan::scan_violations;
use crate::scan::views_of;
use crate::scan::violation_views;
use crate::source::ClojureSourceFile;

verus! {

/// The views of a list of compiled patterns.
pub open spec fn matcher_views(ms: Seq<NamespaceMatcher>) -> Seq<Seq<Token>> {
    ms.map_values(|m: NamespaceMatcher| m@)
}

/// The namespaces of a corpus, in corpus order.
pub open spec fn namespaces_of(files: Seq<ClojureSourceFile>) -> Seq<Seq<u8>> {
    files.map_values(|f: ClojureSourceFile| f@.ns)
}

/// Whether a rule permits a namespace to be referenced: it matches the
/// rule's own guard (self-reference inside the guarded hierarchy is always
/// permitted), or it matches some pattern of the allow-list.
pub open spec fn permitted(guard: Seq<Token>, allow: Seq<Seq<Token>>, ns: Seq<u8>) -> bool {
    tokens_match(guard, ns) || exists|k: int| 0 <= k < allow.len() && tokens_match(allow[k], ns)
}

/// The namespaces of the corpus that a rule forbids, in order of first
/// appearance, each distinct name kept once: exactly those the rule does
/// not permit. An empty corpus, or one whose every namespace is permitted,
/// yields the empty list.
pub open spec fn forbidden_namespaces(
    guard: Seq<Token>,
    allow: Seq<Seq<Token>>,
    corpus: Seq<Seq<u8>>,
) -> Seq<Seq<u8>>
    decreases corpus.len(),
{
    if corpus.len() == 0 {
        Seq::empty()
    } else {
        let pre = forbidden_namespaces(guard, allow, corpus.drop_last());
        let ns = corpus.last();
        if !permitted(guard, allow, ns) && !pre.contains(ns) {
            pre.push(ns)
        } else {
            pre
        }
    }
}

/// No namespace matching a rule's own guard is ever forbidden by that
/// rule, whatever the corpus and the allow-list: self-reference is always
/// permitted.
pub proof fn lemma_guard_never_forbidden(
    guard: Seq<Token>,
    allow: Seq<Seq<Token>>,
    corpus: Seq<Seq<u8>>,
    ns: Seq<u8>,
)
    requires
        tokens_match(guard, ns),
    ensures
        !forbidden_namespaces(guard, allow, corpus).contains(ns),
    decreases corpus.len(),
{
    if corpus.len() > 0 {
        lemma_guard_never_forbidden(guard, allow, corpus.drop_last(), ns);
    }
}

/// When every namespace of the corpus matches some pattern of the
/// allow-list, the rule forbids nothing.
pub proof fn lemma_all_allowed_nothing_forbidden(
    guard: Seq<Token>,
    allow: Seq<Seq<Token>>,
    corpus: Seq<Seq<u8>>,
)
    requires
        forall|i: int| 0 <= i < corpus.len() ==> exists|k: int|
            0 <= k < allow.len() && tokens_match(allow[k], #[trigger] corpus[i]),
    ensures
        forbidden_namespaces(guard, allow, corpus).len() == 0,
{
    let fb = forbidden_namespaces(guard, allow, corpus);
    if fb.len() > 0 {
        let ns = fb[0];
        assert(fb.contains(ns));
        lemma_forbidden_exactly(guard, allow, corpus, ns);
        let i = choose|i: int| 0 <= i < corpus.len() && corpus[i] == ns;
        let k0 = choose|k: int| 0 <= k < allow.len() && tokens_match(allow[k], corpus[i]);
        assert(tokens_match(allow[k0], ns));
        assert(permitted(guard, allow, ns));
    }
}

/// A namespace is forbidden exactly when it appears in the corpus and the
/// rule permits it neither as a self-reference nor through the allow-list.
pub proof fn lemma_forbidden_exactly(
    guard: Seq<Token>,
    allow: Seq<Seq<Token>>,
    corpus: Seq<Seq<u8>>,
    ns: Seq<u8>,
)
    ensures
        forbidden_namespaces(guard, allow, corpus).contains(ns) <==> (corpus.contains(ns)
            && !permitted(guard, allow, ns)),
    decreases corpus.len(),
{
    if corpus.len() > 0 {
        lemma_forbidden_exactly(guard, allow, corpus.drop_last(), ns);
        let pre = forbidden_namespaces(guard, allow, corpus.drop_last());
        let last = corpus.last();
        if !permitted(guard, allow, last) && !pre.contains(last) {
            assert(pre.push(last).contains(ns) <==> (pre.contains(ns) || ns == last)) by {
                if pre.contains(ns) {
                    let i = choose|i: int| 0 <= i < pre.len() && pre[i] == ns;
                    assert(pre.push(last)[i] == ns);
                }
                if ns == last {
                    assert(pre.push(last)[pre.len() as int] == ns);
                }
                if pre.push(last).contains(ns) {
                    let i = choose|i: int| 0 <= i < pre.push(last).len() && pre.push(last)[i]
                        == ns;
                    if i < pre.len() {
                        assert(pre[i] == ns);
                    }
                }
            }
        }
        assert(corpus.contains(ns) <==> (corpus.drop_last().contains(ns) || corpus.last() == ns))
            by {
            if corpus.contains(ns) {
                let i = choose|i: int| 0 <= i < corpus.len() && corpus[i] == ns;
                if i < corpus.len() - 1 {
                    assert(corpus.drop_last()[i] == ns);
                }
            }
            if corpus.drop_last().contains(ns) {
                let i = choose|i: int|
                    0 <= i < corpus.drop_last().len() && corpus.drop_last()[i] == ns;
                assert(corpus[i] == ns);
            }
            if corpus.last() == ns {
                assert(corpus[corpus.len() - 1] == ns);
            }
        }
    }
}

/// Whether two byte vectors hold the same bytes.
fn bytes_eq(a: &Vec<u8>, b: &Vec<u8>) -> (r: bool)
    ensures
        r == (a@ == b@),
{
    if a.len() != b.len() {
        return false;
    }
    let n = a.len();
    let mut i: usize = 0;
    while i < n
        invariant
            n == a@.len(),
            n == b@.len(),
            i <= n,
            forall|j: int| 0 <= j < i ==> a@[j] == b@[j],
        decreases n - i,
    {
        if a[i] != b[i] {
            return false;
        }
        i += 1;
    }
    proof {
        assert(a@ =~= b@);
    }
    true
}

/// A declared policy rule: a guard pattern and an ordered allow-list. A
/// rule whose allow-list resolved empty never reaches the core; the
/// configuration layer drops it with a warning.
#[derive(Debug)]
pub struct Rule {
    /// The pattern naming the namespaces this rule restricts.
    pub namespace: NamespaceMatcher,
    /// The patterns naming what the guarded namespaces may reference.
    pub allow: Vec<NamespaceMatcher>,
}

/// A rule bound to one corpus snapshot: its guard pattern, and the concrete
/// forbidden namespaces resolved once at compile time.
#[derive(Debug)]
pub struct CompiledRule {
    /// The pattern naming the namespaces this rule restricts.
    pub namespace: NamespaceMatcher,
    /// The resolved forbidden namespaces, in order of first appearance in
    /// the corpus.
    pub forbidden: Vec<Vec<u8>>,
}

/// The abstract value of a compiled rule: its guard tokens and the resolved
/// forbidden namespaces.
pub struct CompiledRuleView {
    /// The compiled guard pattern.
    pub guard: Seq<Token>,
    /// The resolved forbidden namespaces.
    pub forbidden: Seq<Seq<u8>>,
}

impl View for CompiledRule {
    type V = CompiledRuleView;

    open spec fn view(&self) -> CompiledRuleView {
        CompiledRuleView { guard: self.namespace@, forbidden: views_of(self.forbidden@) }
    }
}

/// The views of a list of compiled rules, in declaration order.
pub open spec fn rule_views(rs: Seq<CompiledRule>) -> Seq<CompiledRuleView> {
    rs.map_values(|r: CompiledRule| r@)
}

impl Rule {
    /// Resolves this rule against the full corpus: the compiled rule keeps
    /// the guard and forbids exactly the corpus namespaces permitted
    /// neither by the guard itself nor by any allow pattern.
    pub fn compile(self, source_files: &Vec<ClojureSourceFile>) -> (r: CompiledRule)
        ensures
            r.namespace@ == self.namespace@,
            views_of(r.forbidden@) == forbidden_namespaces(
                self.namespace@,
                matcher_views(self.allow@),
                namespaces_of(source_files@),
            ),
    {
        let ghost guard = self.namespace@;
        let ghost allows = matcher_views(self.allow@);
        let ghost corpus = namespaces_of(source_files@);
        let mut forbidden: Vec<Vec<u8>> = Vec::new();
        let n = source_files.len();
        let mut i: usize = 0;
        while i < n
            invariant
                n == source_files@.len(),
                i <= n,
                guard == self.namespace@,
                allows == matcher_views(self.allow@),
                corpus == namespaces_of(source_files@),
                views_of(forbidden@) == forbidden_namespaces(
                    guard,
                    allows,
                    corpus.take(i as int),
                ),
            decreases n - i,
        {
            let file_ns = &source_files[i].ns;
            let self_reference = self.namespace.matches_bytes(file_ns.as_slice());
            let mut in_allow_list = false;
            let mut k: usize = 0;
            while k < self.allow.len()
                invariant
                    k <= self.allow@.len(),
                    allows == matcher_views(self.allow@),
                    file_ns@ == source_files@[i as int]@.ns,
                    i < source_files@.len(),
                    in_allow_list ==> exists|j: int|
                        0 <= j < allows.len() && tokens_match(allows[j], file_ns@),
                    !in_allow_list ==> forall|j: int|
                        0 <= j < k ==> !tokens_match(allows[j], file_ns@),
                decreases self.allow@.len() - k,
            {
                if self.allow[k].matches_bytes(file_ns.as_slice()) {
                    in_allow_list = true;
                    assert(allows[k as int] == self.allow@[k as int]@);
                }
                k += 1;
            }
            if !in_allow_list && !self_reference {
                assert(!permitted(guard, allows, file_ns@));
                let mut already = false;
                let mut t: usize = 0;
                while t < forbidden.len()
                    invariant
                        t <= forbidden@.len(),
                        file_ns@ == source_files@[i as int]@.ns,
                        i < source_files@.len(),
                        already ==> views_of(forbidden@).contains(file_ns@),
                        !already ==> forall|j: int|
                            0 <= j < t ==> views_of(forbidden@)[j] != file_ns@,
                    decreases forbidden@.len() - t,
                {
                    if bytes_eq(&forbidden[t], file_ns) {
                        already = true;
                        assert(views_of(forbidden@)[t as int] == file_ns@);
                    }
                    t += 1;
                }
                if !already {
                    assert(!views_of(forbidden@).contains(file_ns@));
                    let ghost pre = views_of(forbidden@);
                    forbidden.push(slice_to_vec(file_ns.as_slice()));
                    assert(views_of(forbidden@) =~= pre.push(file_ns@));
                }
            } else {
                assert(permitted(guard, allows, file_ns@));
            }
            proof {
                assert(corpus.take(i + 1).drop_last() =~= corpus.take(i as int));
                assert(corpus.take(i + 1).last() == file_ns@);
            }
            i += 1;
        }
        proof {
            assert(corpus.take(n as int) =~= corpus);
        }
        CompiledRule { namespace: self.namespace, forbidden }
    }
}

impl CompiledRule {
    /// Whether this rule governs the given namespace, presented as bytes:
    /// the guard pattern matches it.
    pub fn matches_bytes(&self, namespace: &[u8]) -> (r: bool)
        ensures
            r == tokens_match(self.namespace@, namespace@),
    {
        self.namespace.matches_bytes(namespace)
    }

    /// Whether this rule governs the given namespace.
    pub fn matches(&self, namespace: &str) -> (r: bool)
        ensures
            r == tokens_match(self.namespace@, namespace.spec_bytes()),
    {
        self.namespace.matches(namespace)
    }

    /// Scans one governed unit's text and appends every violation found to
    /// the report; nothing else in the report changes.
    pub fn apply(&self, file: &ClojureSourceFile, code: &[u8], report: &mut Report)
        ensures
            violation_views(final(report).violations@) == violation_views(
                old(report).violations@,
            ) + scan_violations(file@.ns, file@.path, code@, views_of(self.forbidden@)),
            final(report).warnings@ == old(report).warnings@,
            final(report).files_checked == old(report).files_checked,
            final(report).rules_matched == old(report).rules_matched,
            final(report).files_skipped == old(report).files_skipped,
    {
        let mut found: Vec<Violation> = scan_code(file, code, &self.forbidden);
        let ghost scanned = found@;
        report.violations.append(&mut found);
        proof {
            assert(violation_views(old(report).violations@ + scanned) =~= violation_views(
                old(report).violations@,
            ) + violation_views(scanned));
        }
    }
}

} // verus!
