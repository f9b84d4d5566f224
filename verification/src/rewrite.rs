//! Replacing fragments of a document by their rendered artifacts.
//!
//! Fragment spans are byte ranges of the document as it is handed in. The rewriter
//! works through them from the last to the first, so that replacing one span
//! never moves a span that is still pending.

use vstd::prelude::*;
use vstd::string::*;
use vstd::utf8::*;
use crate::text::{
    join_three, lemma_between_boundaries, lemma_boundary_at_join, lemma_boundary_local, splice,
    spliced, utf8,
};

verus! {

/// How a fragment is set into the surrounding text.
#[derive(Debug, Clone, Copy, PartialEq, Eq, Structural)]
pub enum FragmentKind {
    /// Math within a line of text.
    Inline,
    /// Math set off as a block of its own.
    Display,
    /// A fenced code block whose content is rendered.
    EmbeddedCode,
}

/// A piece of a document that is rendered on its own.
#[derive(Debug, Clone, PartialEq, Eq)]
pub struct Fragment {
    /// Byte offset in the document at which the fragment begins.
    pub start: usize,
    /// Byte offset in the document just past the fragment.
    pub end: usize,
    /// The source handed to the engine: preamble, then body.
    pub source: String,
    /// How the rendered artifact is wrapped.
    pub kind: FragmentKind,
    /// The number of lines the preamble takes up in `source`.
    pub preamble_line_count: usize,
}

/// Why a document could not be rewritten.
#[derive(Debug, Clone, Copy, PartialEq, Eq, Structural)]
pub enum RewriteError {
    /// A fragment span lies outside the document, splits a character,
    /// overlaps another span, or is out of document order.
    InvalidSpan,
    /// The number of artifacts differs from the number of fragments.
    ArtifactCount,
    /// An artifact was applied or the text requested at the wrong time.
    OutOfTurn,
}

/// The byte ranges of a list of fragments.
pub open spec fn spans_of(fragments: Seq<Fragment>) -> Seq<(int, int)> {
    Seq::new(fragments.len(), |i: int| (fragments[i].start as int, fragments[i].end as int))
}

/// Every span lies within a document of `len` bytes, and the spans come in
/// document order without overlap.
pub open spec fn spans_ordered(spans: Seq<(int, int)>, len: int) -> bool {
    &&& forall|i: int| 0 <= i < spans.len() ==> 0 <= (#[trigger] spans[i]).0 <= spans[i].1 <= len
    &&& forall|i: int, j: int|
        0 <= i < j < spans.len() ==> (#[trigger] spans[i]).1 <= (#[trigger] spans[j]).0
}

/// Every span begins and ends on a character boundary of `doc`.
pub open spec fn spans_on_boundaries(doc: Seq<u8>, spans: Seq<(int, int)>) -> bool {
    forall|i: int|
        0 <= i < spans.len() ==> is_char_boundary(doc, (#[trigger] spans[i]).0)
            && is_char_boundary(doc, spans[i].1)
}

/// The spans can be cut out of the text `doc`.
pub open spec fn spans_fit(doc: Seq<u8>, spans: Seq<(int, int)>) -> bool {
    spans_ordered(spans, doc.len() as int) && spans_on_boundaries(doc, spans)
}

/// The document after the spans `k..` have been replaced, last span first:
/// each replacement cuts the working copy at the offsets of the initial text.
pub open spec fn spliced_from(
    doc: Seq<u8>,
    spans: Seq<(int, int)>,
    inserts: Seq<Seq<u8>>,
    k: int,
) -> Seq<u8>
    decreases spans.len() - k,
{
    if k >= spans.len() {
        doc
    } else {
        spliced(spliced_from(doc, spans, inserts, k + 1), spans[k].0, spans[k].1, inserts[k])
    }
}

/// The initial text from byte `from` on, with each of the spans `k..`
/// exchanged for its insert and everything between the spans untouched.
pub open spec fn interleaved(
    doc: Seq<u8>,
    spans: Seq<(int, int)>,
    inserts: Seq<Seq<u8>>,
    k: int,
    from: int,
) -> Seq<u8>
    decreases spans.len() - k,
{
    if k >= spans.len() {
        doc.subrange(from, doc.len() as int)
    } else {
        doc.subrange(from, spans[k].0) + inserts[k] + interleaved(
            doc,
            spans,
            inserts,
            k + 1,
            spans[k].1,
        )
    }
}

/// The opening tag of the container for a rendered artifact.
pub open spec fn container_open(kind: FragmentKind) -> Seq<char> {
    match kind {
        FragmentKind::Inline => "<span class=\"typst-inline\">"@,
        _ => "<div class=\"typst-display\">"@,
    }
}

/// The closing tag of the container for a rendered artifact.
pub open spec fn container_close(kind: FragmentKind) -> Seq<char> {
    match kind {
        FragmentKind::Inline => "</span>"@,
        _ => "</div>"@,
    }
}

/// A rendered artifact inside the container that its kind calls for.
pub open spec fn wrapped(kind: FragmentKind, artifact: Seq<char>) -> Seq<char> {
    container_open(kind) + artifact + container_close(kind)
}

/// Replacing spans last to first leaves the text before the first pending
/// span as it was at the beginning, whatever the lengths of the inserts: the
/// result is the initial text up to `from`, then the interleaving of untouched
/// text and inserts.
pub proof fn lemma_reverse_splice(
    doc: Seq<u8>,
    spans: Seq<(int, int)>,
    inserts: Seq<Seq<u8>>,
    k: int,
    from: int,
)
    requires
        spans_ordered(spans, doc.len() as int),
        inserts.len() == spans.len(),
        0 <= k <= spans.len(),
        0 <= from <= doc.len(),
        k < spans.len() ==> from <= spans[k].0,
        k > 0 ==> spans[k - 1].1 <= from,
    ensures
        spliced_from(doc, spans, inserts, k) == doc.subrange(0, from) + interleaved(
            doc,
            spans,
            inserts,
            k,
            from,
        ),
    decreases spans.len() - k,
{
    if k >= spans.len() {
        assert(doc =~= doc.subrange(0, from) + doc.subrange(from, doc.len() as int));
    } else {
        let s = spans[k].0;
        let e = spans[k].1;
        assert(k + 1 < spans.len() ==> spans[k].1 <= spans[k + 1].0);
        lemma_reverse_splice(doc, spans, inserts, k + 1, e);
        let rest = interleaved(doc, spans, inserts, k + 1, e);
        let before = spliced_from(doc, spans, inserts, k + 1);
        assert(before == doc.subrange(0, e) + rest);
        assert(before.subrange(0, s) =~= doc.subrange(0, s));
        assert(before.subrange(e, before.len() as int) =~= rest);
        assert(doc.subrange(0, s) =~= doc.subrange(0, from) + doc.subrange(from, s));
        assert(spliced(before, s, e, inserts[k]) =~= doc.subrange(0, from) + (doc.subrange(from, s)
            + inserts[k] + rest));
    }
}

/// Replacing all spans last to first gives the initial text with each span
/// exchanged for its insert: the text before the first span, between two
/// neighbouring spans, and after the last span is as it was.
pub proof fn lemma_reverse_splice_all(
    doc: Seq<u8>,
    spans: Seq<(int, int)>,
    inserts: Seq<Seq<u8>>,
)
    requires
        spans_ordered(spans, doc.len() as int),
        inserts.len() == spans.len(),
    ensures
        spliced_from(doc, spans, inserts, 0) == interleaved(doc, spans, inserts, 0, 0),
{
    lemma_reverse_splice(doc, spans, inserts, 0, 0);
    assert(doc.subrange(0, 0) + interleaved(doc, spans, inserts, 0, 0) =~= interleaved(
        doc,
        spans,
        inserts,
        0,
        0,
    ));
}

/// A document without fragments is left as it is.
pub proof fn lemma_no_fragments(doc: Seq<u8>, inserts: Seq<Seq<u8>>)
    ensures
        spliced_from(doc, Seq::empty(), inserts, 0) == doc,
        interleaved(doc, Seq::empty(), inserts, 0, 0) == doc,
{
    assert(doc.subrange(0, doc.len() as int) =~= doc);
}

/// The replacement of the spans `k..` does not depend on the inserts of
/// earlier spans.
pub proof fn lemma_spliced_from_later_inserts(
    doc: Seq<u8>,
    spans: Seq<(int, int)>,
    a: Seq<Seq<u8>>,
    b: Seq<Seq<u8>>,
    k: int,
)
    requires
        0 <= k,
        a.len() == spans.len(),
        b.len() == spans.len(),
        forall|i: int| k <= i < spans.len() ==> a[i] == b[i],
    ensures
        spliced_from(doc, spans, a, k) == spliced_from(doc, spans, b, k),
    decreases spans.len() - k,
{
    if k < spans.len() {
        lemma_spliced_from_later_inserts(doc, spans, a, b, k + 1);
    }
}

/// The interleaving of valid text with valid inserts is valid text.
pub proof fn lemma_interleaved_valid(
    doc: Seq<u8>,
    spans: Seq<(int, int)>,
    inserts: Seq<Seq<u8>>,
    k: int,
    from: int,
)
    requires
        valid_utf8(doc),
        spans_fit(doc, spans),
        inserts.len() == spans.len(),
        0 <= k <= spans.len(),
        is_char_boundary(doc, from),
        k < spans.len() ==> from <= spans[k].0,
        forall|i: int| k <= i < spans.len() ==> valid_utf8(#[trigger] inserts[i]),
    ensures
        valid_utf8(interleaved(doc, spans, inserts, k, from)),
    decreases spans.len() - k,
{
    if k >= spans.len() {
        is_char_boundary_start_end_of_seq(doc);
        lemma_between_boundaries(doc, from, doc.len() as int);
    } else {
        lemma_between_boundaries(doc, from, spans[k].0);
        lemma_interleaved_valid(doc, spans, inserts, k + 1, spans[k].1);
        valid_utf8_concat(doc.subrange(from, spans[k].0), inserts[k]);
        valid_utf8_concat(
            doc.subrange(from, spans[k].0) + inserts[k],
            interleaved(doc, spans, inserts, k + 1, spans[k].1),
        );
    }
}

/// Puts a rendered artifact into the container that its kind calls for.
pub fn wrap_artifact(kind: FragmentKind, artifact: &str) -> (out: String)
    ensures
        out@ == wrapped(kind, artifact@),
{
    match kind {
        FragmentKind::Inline => join_three("<span class=\"typst-inline\">", artifact, "</span>"),
        _ => join_three("<div class=\"typst-display\">", artifact, "</div>"),
    }
}

/// Tells whether the spans of `fragments` can be cut out of `text`: each within
/// the text and on character boundaries, all in document order without overlap.
pub fn spans_fit_text(text: &str, fragments: &Vec<Fragment>) -> (ok: bool)
    ensures
        ok == spans_fit(utf8(text@), spans_of(fragments@)),
{
    let len = text.as_bytes().len();
    let ghost doc = utf8(text@);
    let ghost spans = spans_of(fragments@);
    let mut prev_end: usize = 0;
    let mut i: usize = 0;
    while i < fragments.len()
        invariant
            i <= fragments.len(),
            doc == utf8(text@),
            len == doc.len(),
            spans == spans_of(fragments@),
            i == 0 ==> prev_end == 0,
            i > 0 ==> prev_end == fragments[i - 1].end,
            forall|a: int| 0 <= a < i ==> 0 <= (#[trigger] spans[a]).0 <= spans[a].1 <= len,
            forall|a: int, b: int|
                0 <= a < b < i ==> (#[trigger] spans[a]).1 <= (#[trigger] spans[b]).0,
            forall|a: int|
                0 <= a < i ==> is_char_boundary(doc, (#[trigger] spans[a]).0) && is_char_boundary(
                    doc,
                    spans[a].1,
                ),
        decreases fragments.len() - i,
    {
        let start = fragments[i].start;
        let end = fragments[i].end;
        assert(spans[i as int] == (start as int, end as int));
        if !(prev_end <= start && start <= end && end <= len) {
            assert(i > 0 ==> spans[i - 1].1 == prev_end);
            return false;
        }
        if !(text.is_char_boundary(start) && text.is_char_boundary(end)) {
            return false;
        }
        proof {
            assert forall|a: int, b: int| 0 <= a < b < i + 1 implies (#[trigger] spans[a]).1 <= (
            #[trigger] spans[b]).0 by {
                if b == i && a < i - 1 {
                    assert(spans[a].1 <= spans[i - 1].0);
                }
            }
        }
        prev_end = end;
        i = i + 1;
    }
    true
}

/// The inserts that a list of artifacts gives rise to: each artifact in the
/// container of its fragment, as bytes.
pub open spec fn wrapped_inserts(fragments: Seq<Fragment>, artifacts: Seq<String>) -> Seq<Seq<u8>> {
    Seq::new(fragments.len(), |i: int| utf8(wrapped(fragments[i].kind, artifacts[i]@)))
}

/// A document that is being rewritten: the working copy of its text, and the
/// fragments that are still to be replaced.
///
/// The fragments are handed out last to first. After each replacement the text
/// in front of the next pending fragment is still as it was at the beginning, so that
/// the spans of the pending fragments remain good.
pub struct DocumentRewriter {
    content: String,
    fragments: Vec<Fragment>,
    pending: usize,
    initial: Ghost<Seq<u8>>,
    inserts: Ghost<Seq<Seq<u8>>>,
}

impl DocumentRewriter {
    /// The bytes of the document as it was handed in.
    pub closed spec fn initial(&self) -> Seq<u8> {
        self.initial@
    }

    /// All fragments of the document, in document order.
    pub closed spec fn fragments(&self) -> Seq<Fragment> {
        self.fragments@
    }

    /// The number of fragments that are still to be replaced: the fragments
    /// `0..remaining()`.
    pub closed spec fn remaining(&self) -> nat {
        self.pending as nat
    }

    /// The inserts by index of fragment; those of the fragments `remaining()..`
    /// have been put into the text.
    pub closed spec fn inserted(&self) -> Seq<Seq<u8>> {
        self.inserts@
    }

    /// The working copy of the text.
    pub closed spec fn current(&self) -> Seq<char> {
        self.content@
    }

    /// What holds of every rewriter between two steps.
    pub closed spec fn wf(&self) -> bool {
        &&& self.pending <= self.fragments.len()
        &&& self.inserts@.len() == self.fragments.len()
        &&& valid_utf8(self.initial@)
        &&& spans_fit(self.initial@, spans_of(self.fragments@))
        &&& forall|i: int|
            self.pending <= i < self.fragments.len() ==> valid_utf8(#[trigger] self.inserts@[i])
        &&& utf8(self.content@) == spliced_from(
            self.initial@,
            spans_of(self.fragments@),
            self.inserts@,
            self.pending as int,
        )
    }

    /// The working copy is the initial text with the fragments `remaining()..`
    /// exchanged for their inserts, and the text in between untouched.
    pub proof fn lemma_current(&self)
        requires
            self.wf(),
        ensures
            self.remaining() <= self.fragments().len(),
            self.inserted().len() == self.fragments().len(),
            spans_fit(self.initial(), spans_of(self.fragments())),
            utf8(self.current()) == spliced_from(
                self.initial(),
                spans_of(self.fragments()),
                self.inserted(),
                self.remaining() as int,
            ),
            self.remaining() == 0 ==> utf8(self.current()) == interleaved(
                self.initial(),
                spans_of(self.fragments()),
                self.inserted(),
                0,
                0,
            ),
    {
        if self.pending == 0 {
            lemma_reverse_splice_all(self.initial@, spans_of(self.fragments@), self.inserts@);
        }
    }

    /// Starts rewriting `text`. The spans of the fragments must fit the text;
    /// if they do not, nothing is rewritten.
    pub fn new(text: String, fragments: Vec<Fragment>) -> (out: Result<
        DocumentRewriter,
        RewriteError,
    >)
        ensures
            out is Ok <==> spans_fit(utf8(text@), spans_of(fragments@)),
            out matches Err(e) ==> e is InvalidSpan,
            out matches Ok(rw) ==> {
                &&& rw.wf()
                &&& rw.initial() == utf8(text@)
                &&& rw.current() == text@
                &&& rw.fragments() == fragments@
                &&& rw.remaining() == fragments@.len()
            },
    {
        if !spans_fit_text(text.as_str(), &fragments) {
            return Err(RewriteError::InvalidSpan);
        }
        let pending = fragments.len();
        let ghost initial = utf8(text@);
        let ghost inserts = Seq::new(fragments@.len(), |i: int| Seq::<u8>::empty());
        proof {
            encode_utf8_valid_utf8(text@);
        }
        Ok(
            DocumentRewriter {
                content: text,
                fragments,
                pending,
                initial: Ghost(initial),
                inserts: Ghost(inserts),
            },
        )
    }

    /// The number of fragments that are still to be replaced.
    pub fn pending(&self) -> (n: usize)
        requires
            self.wf(),
        ensures
            n == self.remaining(),
    {
        self.pending
    }

    /// The fragment to render next: the last one that is still pending.
    pub fn next(&self) -> (out: Option<&Fragment>)
        requires
            self.wf(),
        ensures
            self.remaining() == 0 ==> out is None,
            self.remaining() > 0 ==> out == Some(&self.fragments()[self.remaining() - 1]),
    {
        if self.pending == 0 {
            None
        } else {
            Some(&self.fragments[self.pending - 1])
        }
    }

    /// Puts the artifact of the fragment that `next` handed out into the text,
    /// wrapped as its kind calls for. With no fragment pending nothing changes.
    pub fn apply(&mut self, artifact: &str) -> (out: Result<(), RewriteError>)
        requires
            old(self).wf(),
        ensures
            final(self).wf(),
            final(self).initial() == old(self).initial(),
            final(self).fragments() == old(self).fragments(),
            out is Ok <==> old(self).remaining() > 0,
            out matches Err(e) ==> e is OutOfTurn && *final(self) == *old(self),
            out is Ok ==> {
                let k = old(self).remaining() - 1;
                let f = old(self).fragments()[k];
                let insert = utf8(wrapped(f.kind, artifact@));
                &&& final(self).remaining() == k
                &&& final(self).inserted() == old(self).inserted().update(k, insert)
                &&& utf8(final(self).current()) == spliced(
                    utf8(old(self).current()),
                    f.start as int,
                    f.end as int,
                    insert,
                )
            },
    {
        if self.pending == 0 {
            return Err(RewriteError::OutOfTurn);
        }
        let k = self.pending - 1;
        let start = self.fragments[k].start;
        let end = self.fragments[k].end;
        let piece = wrap_artifact(self.fragments[k].kind, artifact);
        let ghost doc = self.initial@;
        let ghost spans = spans_of(self.fragments@);
        let ghost before = utf8(self.content@);
        let ghost insert = utf8(piece@);
        let ghost inserts = self.inserts@.update(k as int, insert);
        proof {
            let s = start as int;
            let e = end as int;
            assert(spans[k as int] == (s, e));
            assert(self.pending < spans.len() ==> spans[k as int].1
                <= spans[self.pending as int].0);
            let tail = interleaved(doc, spans, self.inserts@, self.pending as int, e);
            lemma_reverse_splice(doc, spans, self.inserts@, self.pending as int, e);
            lemma_interleaved_valid(doc, spans, self.inserts@, self.pending as int, e);
            valid_utf8_split(doc, e);
            lemma_boundary_at_join(doc.subrange(0, e), tail);
            encode_utf8_valid_utf8(self.content@);
            if s < e {
                assert(before[s] == doc[s]);
                lemma_boundary_local(doc, before, s);
            }
            encode_utf8_valid_utf8(piece@);
            lemma_spliced_from_later_inserts(
                doc,
                spans,
                self.inserts@,
                inserts,
                self.pending as int,
            );
        }
        let next = splice(self.content.as_str(), start, end, piece.as_str());
        self.content = next;
        self.pending = k;
        self.inserts = Ghost(inserts);
        Ok(())
    }

    /// The rewritten text, once every fragment has been replaced.
    pub fn finish(self) -> (out: Result<String, RewriteError>)
        requires
            self.wf(),
        ensures
            out is Ok <==> self.remaining() == 0,
            out matches Err(e) ==> e is OutOfTurn,
            out matches Ok(text) ==> text@ == self.current() && utf8(text@) == interleaved(
                self.initial(),
                spans_of(self.fragments()),
                self.inserted(),
                0,
                0,
            ),
    {
        if self.pending != 0 {
            return Err(RewriteError::OutOfTurn);
        }
        proof {
            self.lemma_current();
        }
        Ok(self.content)
    }
}

/// Rewrites `text`: each fragment is exchanged for its artifact, wrapped as its
/// kind calls for; everything outside the spans stays as it is.
///
/// `artifacts` holds one rendered artifact per fragment, in the order of the
/// fragments. The replacements are made last fragment first.
pub fn rewrite(text: String, fragments: Vec<Fragment>, artifacts: &Vec<String>) -> (out: Result<
    String,
    RewriteError,
>)
    ensures
        !spans_fit(utf8(text@), spans_of(fragments@)) ==> out matches Err(
            RewriteError::InvalidSpan,
        ),
        spans_fit(utf8(text@), spans_of(fragments@)) && artifacts@.len() != fragments@.len()
            ==> out matches Err(RewriteError::ArtifactCount),
        spans_fit(utf8(text@), spans_of(fragments@)) && artifacts@.len() == fragments@.len() ==> {
            &&& out matches Ok(s)
            &&& utf8(s@) == interleaved(
                utf8(text@),
                spans_of(fragments@),
                wrapped_inserts(fragments@, artifacts@),
                0,
                0,
            )
        },
{
    let count = fragments.len();
    let ghost all = fragments@;
    let ghost goal = wrapped_inserts(fragments@, artifacts@);
    let mut rw = match DocumentRewriter::new(text, fragments) {
        Ok(rw) => rw,
        Err(_) => {
            return Err(RewriteError::InvalidSpan);
        },
    };
    if artifacts.len() != count {
        return Err(RewriteError::ArtifactCount);
    }
    let mut k = count;
    while k > 0
        invariant
            rw.wf(),
            rw.fragments() == all,
            rw.initial() == utf8(text@),
            rw.remaining() == k,
            k <= count,
            count == all.len(),
            artifacts@.len() == count,
            goal == wrapped_inserts(all, artifacts@),
            rw.inserted().len() == count,
            forall|i: int| k <= i < count ==> rw.inserted()[i] == goal[i],
        decreases k,
    {
        match rw.apply(artifacts[k - 1].as_str()) {
            Ok(_) => {},
            Err(error) => {
                return Err(error);
            },
        }
        k = k - 1;
    }
    proof {
        rw.lemma_current();
        lemma_interleaved_later_inserts(utf8(text@), spans_of(all), rw.inserted(), goal, 0, 0);
    }
    match rw.finish() {
        Ok(s) => Ok(s),
        Err(e) => Err(e),
    }
}

/// The interleaving from the span `k` on does not depend on the inserts of
/// earlier spans.
pub proof fn lemma_interleaved_later_inserts(
    doc: Seq<u8>,
    spans: Seq<(int, int)>,
    a: Seq<Seq<u8>>,
    b: Seq<Seq<u8>>,
    k: int,
    from: int,
)
    requires
        0 <= k,
        forall|i: int| k <= i < spans.len() ==> a[i] == b[i],
    ensures
        interleaved(doc, spans, a, k, from) == interleaved(doc, spans, b, k, from),
    decreases spans.len() - k,
{
    if k < spans.len() {
        lemma_interleaved_later_inserts(doc, spans, a, b, k + 1, spans[k].1);
    }
}

} // verus!
