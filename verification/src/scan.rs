//! The reference scanner: locates every occurrence of a forbidden namespace
//! inside one unit's source text and derives each occurrence's context
//! window.
//!
//! The text is treated as opaque bytes: a reference is any literal
//! occurrence of a forbidden namespace's bytes, comments and string
//! literals included. Occurrences are found left to right and never
//! overlap; when several forbidden namespaces occur at the same offset the
//! first in the list wins. Each occurrence is reported with a context
//! window spanning up to five line breaks before and after it, clamped to
//! the start and end of the text.

use vstd::prelude::*;
use vstd::slice::slice_to_vec;

use crate::source::ClojureSourceFile;

verus! {

/// The byte value of the line feed, the line break the context window
/// counts.
pub const NEWLINE: u8 = 10;

/// How many line breaks the context window extends over, on each side of a
/// match.
pub const CONTEXT_LINE_BREAKS: usize = 5;

/// The views of a list of byte vectors.
pub open spec fn views_of(vs: Seq<Vec<u8>>) -> Seq<Seq<u8>> {
    vs.map_values(|v: Vec<u8>| v@)
}

/// Whether `needle` occurs in `text` at byte offset `i`. The empty needle
/// never occurs anywhere: an empty forbidden list matches nothing.
pub open spec fn occurs_at(text: Seq<u8>, needle: Seq<u8>, i: int) -> bool {
    needle.len() > 0 && 0 <= i && i + needle.len() <= text.len() && text.subrange(
        i,
        i + needle.len(),
    ) == needle
}

/// The index of the first needle, at position `k` or later in the list,
/// that occurs in `text` at offset `i`; `-1` when none does.
pub open spec fn first_needle_from(text: Seq<u8>, needles: Seq<Seq<u8>>, i: int, k: int) -> int
    decreases needles.len() - k,
{
    if k < 0 || k >= needles.len() {
        -1
    } else if occurs_at(text, needles[k], i) {
        k
    } else {
        first_needle_from(text, needles, i, k + 1)
    }
}

/// The index of the first needle in the list that occurs in `text` at
/// offset `i`; `-1` when none does.
pub open spec fn needle_at(text: Seq<u8>, needles: Seq<Seq<u8>>, i: int) -> int {
    first_needle_from(text, needles, i, 0)
}

proof fn lemma_needle_found(text: Seq<u8>, needles: Seq<Seq<u8>>, i: int, k: int)
    requires
        0 <= k <= needles.len(),
        first_needle_from(text, needles, i, k) >= 0,
    ensures
        k <= first_needle_from(text, needles, i, k) < needles.len(),
        occurs_at(text, needles[first_needle_from(text, needles, i, k)], i),
    decreases needles.len() - k,
{
    if k < needles.len() && !occurs_at(text, needles[k], i) {
        lemma_needle_found(text, needles, i, k + 1);
    }
}

proof fn lemma_no_needle(text: Seq<u8>, needles: Seq<Seq<u8>>, i: int, k: int)
    requires
        0 <= k <= needles.len(),
        forall|j: int| k <= j < needles.len() ==> !occurs_at(text, needles[j], i),
    ensures
        first_needle_from(text, needles, i, k) == -1,
    decreases needles.len() - k,
{
    if k < needles.len() {
        lemma_no_needle(text, needles, i, k + 1);
    }
}

proof fn lemma_needle_exact(text: Seq<u8>, needles: Seq<Seq<u8>>, i: int, k: int, j: int)
    requires
        0 <= k <= j < needles.len(),
        occurs_at(text, needles[j], i),
        forall|x: int| k <= x < j ==> !occurs_at(text, needles[x], i),
    ensures
        first_needle_from(text, needles, i, k) == j,
    decreases j - k,
{
    if k < j {
        lemma_needle_exact(text, needles, i, k + 1, j);
    }
}

/// The non-overlapping match spans in `text` from position `pos` onward, in
/// left-to-right order: at each position the first needle in the list that
/// occurs there matches, and scanning resumes at the end of the match.
pub open spec fn scan_spans(text: Seq<u8>, needles: Seq<Seq<u8>>, pos: int) -> Seq<(int, int)>
    decreases text.len() - pos,
    when pos >= 0
    via scan_spans_decreases
{
    if pos < 0 || pos >= text.len() {
        Seq::empty()
    } else {
        let k = needle_at(text, needles, pos);
        if k >= 0 {
            let end = pos + needles[k].len();
            seq![(pos, end)] + scan_spans(text, needles, end)
        } else {
            scan_spans(text, needles, pos + 1)
        }
    }
}

#[via_fn]
proof fn scan_spans_decreases(text: Seq<u8>, needles: Seq<Seq<u8>>, pos: int) {
    if 0 <= pos < text.len() {
        let k = needle_at(text, needles, pos);
        if k >= 0 {
            lemma_needle_found(text, needles, pos, 0);
        }
    }
}

/// The offset the context window of a match at offset `i` starts at: the
/// position just after the line break reached by counting `breaks` line
/// breaks backward from `i`, or the start of the text when there are fewer.
pub open spec fn context_start(text: Seq<u8>, i: int, breaks: int) -> int
    decreases i,
{
    if i <= 0 {
        0
    } else if text[i - 1] == NEWLINE {
        if breaks <= 1 {
            i
        } else {
            context_start(text, i - 1, breaks - 1)
        }
    } else {
        context_start(text, i - 1, breaks)
    }
}

/// The offset the context window of a match ending at offset `i` ends at:
/// the position of the line break reached by counting `breaks` line breaks
/// forward from `i`, or the end of the text when there are fewer.
pub open spec fn context_end(text: Seq<u8>, i: int, breaks: int) -> int
    decreases text.len() - i,
{
    if i < 0 || i >= text.len() {
        text.len() as int
    } else if text[i] == NEWLINE {
        if breaks <= 1 {
            i
        } else {
            context_end(text, i + 1, breaks - 1)
        }
    } else {
        context_end(text, i + 1, breaks)
    }
}

/// One detected disallowed reference: the owning unit's namespace and path,
/// the forbidden namespace's text as it appeared, the byte span of the
/// occurrence, and the context window around it.
#[derive(Debug, PartialEq, Eq)]
pub struct Violation {
    /// The namespace of the unit the reference was found in.
    pub src_ns: Vec<u8>,
    /// The path of the file the reference was found in.
    pub path: Vec<u8>,
    /// The referenced forbidden namespace, as it appeared in the text.
    pub ref_ns: Vec<u8>,
    /// The byte offset the occurrence starts at.
    pub start: usize,
    /// The byte offset just past the occurrence.
    pub end: usize,
    /// The byte offset the context window starts at.
    pub snippet_start: usize,
    /// The byte offset the context window ends at.
    pub snippet_end: usize,
}

/// The abstract value of a violation.
pub struct ViolationView {
    /// The namespace of the unit the reference was found in.
    pub src_ns: Seq<u8>,
    /// The path of the file the reference was found in.
    pub path: Seq<u8>,
    /// The referenced forbidden namespace, as it appeared in the text.
    pub ref_ns: Seq<u8>,
    /// The byte offset the occurrence starts at.
    pub start: int,
    /// The byte offset just past the occurrence.
    pub end: int,
    /// The byte offset the context window starts at.
    pub snippet_start: int,
    /// The byte offset the context window ends at.
    pub snippet_end: int,
}

impl View for Violation {
    type V = ViolationView;

    open spec fn view(&self) -> ViolationView {
        ViolationView {
            src_ns: self.src_ns@,
            path: self.path@,
            ref_ns: self.ref_ns@,
            start: self.start as int,
            end: self.end as int,
            snippet_start: self.snippet_start as int,
            snippet_end: self.snippet_end as int,
        }
    }
}

/// The views of a list of violations.
pub open spec fn violation_views(vs: Seq<Violation>) -> Seq<ViolationView> {
    vs.map_values(|v: Violation| v@)
}

/// The violation reported for a match span inside one unit's text.
pub open spec fn violation_for(
    src_ns: Seq<u8>,
    path: Seq<u8>,
    text: Seq<u8>,
    span: (int, int),
) -> ViolationView {
    ViolationView {
        src_ns: src_ns,
        path: path,
        ref_ns: text.subrange(span.0, span.1),
        start: span.0,
        end: span.1,
        snippet_start: context_start(text, span.0, CONTEXT_LINE_BREAKS as int),
        snippet_end: context_end(text, span.1, CONTEXT_LINE_BREAKS as int),
    }
}

/// The violations reported for one unit's text from position `pos` onward.
pub open spec fn scan_violations_from(
    src_ns: Seq<u8>,
    path: Seq<u8>,
    text: Seq<u8>,
    needles: Seq<Seq<u8>>,
    pos: int,
) -> Seq<ViolationView> {
    scan_spans(text, needles, pos).map_values(
        |span: (int, int)| violation_for(src_ns, path, text, span),
    )
}

/// Every violation in one unit's text: one per non-overlapping occurrence
/// of a forbidden namespace, in left-to-right order, duplicates kept.
pub open spec fn scan_violations(
    src_ns: Seq<u8>,
    path: Seq<u8>,
    text: Seq<u8>,
    needles: Seq<Seq<u8>>,
) -> Seq<ViolationView> {
    scan_violations_from(src_ns, path, text, needles, 0)
}

/// Scanning is a pure function of the unit, its text and the forbidden
/// list: two scans of the same input yield identical violation sequences.
pub proof fn lemma_scan_deterministic(
    src_ns: Seq<u8>,
    path: Seq<u8>,
    text: Seq<u8>,
    needles: Seq<Seq<u8>>,
    first: Seq<ViolationView>,
    second: Seq<ViolationView>,
)
    requires
        first == scan_violations(src_ns, path, text, needles),
        second == scan_violations(src_ns, path, text, needles),
    ensures
        first == second,
{
}

fn occurs_here(text: &[u8], needle: &Vec<u8>, pos: usize) -> (r: bool)
    requires
        pos <= text@.len(),
    ensures
        r == occurs_at(text@, needle@, pos as int),
{
    let m = needle.len();
    if m == 0 {
        return false;
    }
    if m > text.len() - pos {
        return false;
    }
    let mut j: usize = 0;
    while j < m
        invariant
            m == needle@.len(),
            m >= 1,
            pos + m <= text@.len(),
            pos + m <= usize::MAX,
            j <= m,
            forall|x: int| 0 <= x < j ==> text@[pos + x] == needle@[x],
        decreases m - j,
    {
        if text[pos + j] != needle[j] {
            proof {
                assert(text@.subrange(pos as int, pos + m as int)[j as int] == text@[pos + j]);
            }
            return false;
        }
        j += 1;
    }
    proof {
        assert(text@.subrange(pos as int, pos + m as int) =~= needle@);
    }
    true
}

fn find_needle_at(text: &[u8], needles: &Vec<Vec<u8>>, pos: usize) -> (r: Option<usize>)
    requires
        pos <= text@.len(),
    ensures
        (match r {
            Some(k) => k < needles@.len() && needle_at(text@, views_of(needles@), pos as int)
                == k as int,
            None => needle_at(text@, views_of(needles@), pos as int) == -1,
        }),
{
    let mut k: usize = 0;
    while k < needles.len()
        invariant
            pos <= text@.len(),
            k <= needles@.len(),
            forall|j: int| 0 <= j < k ==> !occurs_at(text@, views_of(needles@)[j], pos as int),
        decreases needles@.len() - k,
    {
        if occurs_here(text, &needles[k], pos) {
            proof {
                lemma_needle_exact(text@, views_of(needles@), pos as int, 0, k as int);
            }
            return Some(k);
        }
        k += 1;
    }
    proof {
        lemma_no_needle(text@, views_of(needles@), pos as int, 0);
    }
    None
}

fn find_context_start(text: &[u8], from: usize) -> (r: usize)
    requires
        from <= text@.len(),
    ensures
        r as int == context_start(text@, from as int, CONTEXT_LINE_BREAKS as int),
{
    let mut i = from;
    let mut breaks: usize = CONTEXT_LINE_BREAKS;
    while i > 0
        invariant
            i <= from <= text@.len(),
            1 <= breaks <= CONTEXT_LINE_BREAKS,
            context_start(text@, from as int, CONTEXT_LINE_BREAKS as int) == context_start(
                text@,
                i as int,
                breaks as int,
            ),
        decreases i,
    {
        if text[i - 1] == NEWLINE {
            if breaks == 1 {
                return i;
            }
            breaks -= 1;
        }
        i -= 1;
    }
    0
}

fn find_context_end(text: &[u8], from: usize) -> (r: usize)
    requires
        from <= text@.len(),
    ensures
        r as int == context_end(text@, from as int, CONTEXT_LINE_BREAKS as int),
{
    let n = text.len();
    let mut i = from;
    let mut breaks: usize = CONTEXT_LINE_BREAKS;
    while i < n
        invariant
            n == text@.len(),
            from <= i <= n,
            1 <= breaks <= CONTEXT_LINE_BREAKS,
            context_end(text@, from as int, CONTEXT_LINE_BREAKS as int) == context_end(
                text@,
                i as int,
                breaks as int,
            ),
        decreases n - i,
    {
        if text[i] == NEWLINE {
            if breaks == 1 {
                return i;
            }
            breaks -= 1;
        }
        i += 1;
    }
    n
}

/// Scans one unit's text for the given forbidden namespaces and reports
/// every non-overlapping occurrence, left to right, with its context
/// window. Repeated references to the same forbidden namespace are all
/// reported; a unit whose text holds no occurrence yields no violations.
pub fn scan_code(file: &ClojureSourceFile, code: &[u8], needles: &Vec<Vec<u8>>) -> (r: Vec<
    Violation,
>)
    ensures
        violation_views(r@) == scan_violations(file@.ns, file@.path, code@, views_of(needles@)),
{
    let ghost nds = views_of(needles@);
    let ghost target = scan_violations(file@.ns, file@.path, code@, nds);
    let mut out: Vec<Violation> = Vec::new();
    let mut pos: usize = 0;
    while pos < code.len()
        invariant
            pos <= code@.len(),
            nds == views_of(needles@),
            target == scan_violations(file@.ns, file@.path, code@, nds),
            target =~= violation_views(out@) + scan_violations_from(
                file@.ns,
                file@.path,
                code@,
                nds,
                pos as int,
            ),
        decreases code@.len() - pos,
    {
        match find_needle_at(code, needles, pos) {
            Some(k) => {
                proof {
                    lemma_needle_found(code@, nds, pos as int, 0);
                }
                let end = pos + needles[k].len();
                let reference = slice_to_vec(&code[pos..end]);
                let snippet_start = find_context_start(code, pos);
                let snippet_end = find_context_end(code, end);
                let violation = Violation {
                    src_ns: slice_to_vec(file.ns.as_slice()),
                    path: slice_to_vec(file.path.as_slice()),
                    ref_ns: reference,
                    start: pos,
                    end,
                    snippet_start,
                    snippet_end,
                };
                proof {
                    let span = (pos as int, end as int);
                    assert(violation@ == violation_for(file@.ns, file@.path, code@, span));
                    assert(scan_spans(code@, nds, pos as int) == seq![span] + scan_spans(
                        code@,
                        nds,
                        end as int,
                    ));
                    assert(scan_violations_from(file@.ns, file@.path, code@, nds, pos as int)
                        =~= seq![violation_for(file@.ns, file@.path, code@, span)]
                        + scan_violations_from(file@.ns, file@.path, code@, nds, end as int));
                    assert(violation_views(out@.push(violation)) =~= violation_views(out@)
                        + seq![violation@]);
                }
                out.push(violation);
                pos = end;
            },
            None => {
                proof {
                    assert(scan_spans(code@, nds, pos as int) == scan_spans(
                        code@,
                        nds,
                        pos + 1,
                    ));
                }
                pos += 1;
            },
        }
    }
    proof {
        assert(scan_spans(code@, nds, pos as int) =~= Seq::<(int, int)>::empty());
        assert(scan_violations_from(file@.ns, file@.path, code@, nds, pos as int) =~= Seq::<
            ViolationView,
        >::empty());
        assert(target =~= violation_views(out@));
    }
    out
}

} // verus!
