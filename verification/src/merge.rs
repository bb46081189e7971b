//! Merge planning for the final document: the rendered primary PDF first,
//! then every mergeable attachment in submission order. Each input is
//! parsed and its pages counted; a malformed input aborts the merge and
//! names the offender. The byte-level concatenation of the validated,
//! ordered inputs is carried out by the caller.

use vstd::prelude::*;

use crate::error::Error;
use crate::invoices::InvoiceAttachment;

verus! {

/// The page count of a PDF given by its bytes, when the bytes parse as a
/// PDF at all; the outcome is a function of the bytes alone.
pub uninterp spec fn page_count_of(bytes: Seq<u8>) -> Option<nat>;

/// Whether the bytes parse as a PDF document.
pub open spec fn pdf_parses(bytes: Seq<u8>) -> bool {
    page_count_of(bytes) is Some
}

/// The page count of a parsing PDF (zero where the bytes do not parse).
pub open spec fn spec_pages(bytes: Seq<u8>) -> nat {
    match page_count_of(bytes) {
        Some(n) => n,
        None => 0,
    }
}

/// Relies on `lopdf::Document::load_mem` and `Document::get_pages`:
/// whether bytes parse as a PDF, and how many pages they hold, is a
/// function of the bytes alone. The crate is built without its default
/// features, so parsing is sequential and deterministic even on
/// malformed input (its parallel reader can resolve a duplicated object
/// id in scheduling order).
#[verifier::external_body]
fn pdf_page_count(bytes: &Vec<u8>) -> (r: Option<usize>)
    ensures
        (r is Some) == (page_count_of(bytes@) is Some),
        r matches Some(n) ==> page_count_of(bytes@) == Some(n as nat),
{
    let doc = match lopdf::Document::load_mem(bytes.as_slice()) {
        Ok(doc) => doc,
        Err(_) => {
            return None;
        },
    };
    Some(doc.get_pages().len())
}

/// The total page count of a list of documents.
pub open spec fn spec_total_pages(inputs: Seq<Seq<u8>>) -> nat
    decreases inputs.len(),
{
    if inputs.len() == 0 {
        0
    } else {
        spec_total_pages(inputs.drop_last()) + spec_pages(inputs.last())
    }
}

/// A validated merge: the ordered inputs, each known to parse, with each
/// one's page count.
pub struct MergePlan {
    inputs: Vec<Vec<u8>>,
    pages: Vec<usize>,
}

impl MergePlan {
    /// The ordered input documents.
    pub closed spec fn spec_inputs(self) -> Seq<Seq<u8>> {
        Seq::new(self.inputs@.len(), |i: int| self.inputs@[i]@)
    }

    /// The per-input page counts, aligned with the inputs.
    pub closed spec fn spec_page_counts(self) -> Seq<usize> {
        self.pages@
    }

    /// Every input parses and its recorded page count is its page count.
    pub closed spec fn wf(self) -> bool {
        &&& self.pages@.len() == self.inputs@.len()
        &&& forall|i: int|
            0 <= i < self.inputs@.len() ==> pdf_parses((#[trigger] self.inputs@[i])@)
                && self.pages@[i] as nat == spec_pages(self.inputs@[i]@)
    }

    /// The ordered inputs, for the caller that concatenates them.
    pub fn inputs(&self) -> (r: &Vec<Vec<u8>>)
        ensures
            r@.len() == self.spec_inputs().len(),
            forall|i: int| 0 <= i < r@.len() ==> (#[trigger] r@[i])@ == self.spec_inputs()[i],
    {
        &self.inputs
    }

    /// The ordered inputs, by value.
    pub fn into_inputs(self) -> (r: Vec<Vec<u8>>)
        ensures
            r@.len() == self.spec_inputs().len(),
            forall|i: int| 0 <= i < r@.len() ==> (#[trigger] r@[i])@ == self.spec_inputs()[i],
    {
        self.inputs
    }

    /// The page count of each input, in order.
    pub fn page_counts(&self) -> (r: &Vec<usize>)
        ensures
            r@ == self.spec_page_counts(),
    {
        &self.pages
    }

    /// The merged document's page count: the exact sum of every input's
    /// pages; `None` only when that sum cannot be represented.
    pub fn total_pages(&self) -> (r: Option<usize>)
        requires
            self.wf(),
        ensures
            r matches Some(t) ==> t == spec_total_pages(self.spec_inputs()),
            (r is Some) <==> spec_total_pages(self.spec_inputs()) <= usize::MAX,
    {
        let ghost inputs = self.spec_inputs();
        let mut acc: usize = 0;
        let mut i: usize = 0;
        while i < self.pages.len()
            invariant
                self.wf(),
                inputs == self.spec_inputs(),
                0 <= i <= self.pages@.len(),
                self.pages@.len() == inputs.len(),
                acc == spec_total_pages(inputs.take(i as int)),
            decreases self.pages@.len() - i,
        {
            proof {
                assert(inputs.take(i + 1).drop_last() =~= inputs.take(i as int));
                assert(inputs.take(i + 1).last() == inputs[i as int]);
            }
            match acc.checked_add(self.pages[i]) {
                Some(next) => {
                    acc = next;
                },
                None => {
                    proof {
                        lemma_total_pages_grows(inputs, i + 1);
                    }
                    return None;
                },
            }
            i = i + 1;
        }
        proof {
            assert(inputs.take(inputs.len() as int) =~= inputs);
        }
        Some(acc)
    }
}

/// A prefix of the inputs never holds more pages than all of them.
proof fn lemma_total_pages_grows(inputs: Seq<Seq<u8>>, n: int)
    requires
        0 <= n <= inputs.len(),
    ensures
        spec_total_pages(inputs.take(n)) <= spec_total_pages(inputs),
    decreases inputs.len() - n,
{
    if n < inputs.len() {
        assert(inputs.take(n + 1).drop_last() =~= inputs.take(n));
        assert(inputs.take(n + 1).last() == inputs[n]);
        lemma_total_pages_grows(inputs, n + 1);
    } else {
        assert(inputs.take(n) =~= inputs);
    }
}

/// Validates and orders the given PDF byte streams for merging: output
/// order is input order, and every input must parse. A malformed input
/// yields the index of the first offender.
pub fn merge_pdf(pdfs: Vec<Vec<u8>>) -> (r: Result<MergePlan, usize>)
    ensures
        r matches Ok(plan) ==> {
            &&& plan.wf()
            &&& plan.spec_inputs().len() == pdfs@.len()
            &&& forall|i: int|
                0 <= i < pdfs@.len() ==> plan.spec_inputs()[i] == (#[trigger] pdfs@[i])@
        },
        (r is Ok) <==> (forall|i: int|
            0 <= i < pdfs@.len() ==> pdf_parses((#[trigger] pdfs@[i])@)),
        r matches Err(i) ==> i < pdfs@.len() && !pdf_parses(pdfs@[i as int]@) && (forall|j: int|
            0 <= j < i ==> pdf_parses((#[trigger] pdfs@[j])@)),
{
    let mut pages: Vec<usize> = Vec::new();
    let mut i: usize = 0;
    while i < pdfs.len()
        invariant
            0 <= i <= pdfs@.len(),
            pages@.len() == i,
            forall|j: int|
                0 <= j < i ==> pdf_parses((#[trigger] pdfs@[j])@) && pages@[j] as nat == spec_pages(
                    pdfs@[j]@,
                ),
        decreases pdfs@.len() - i,
    {
        match pdf_page_count(&pdfs[i]) {
            Some(n) => {
                pages.push(n);
            },
            None => {
                return Err(i);
            },
        }
        i = i + 1;
    }
    let plan = MergePlan { inputs: pdfs, pages };
    Ok(plan)
}

#[verifier::external_type_specification]
#[verifier::external_body]
pub struct ExPagedDocument(typst::layout::PagedDocument);

/// The PDF bytes the renderer emits for a compiled document, when it
/// emits any. Under the default options the output is a function of the
/// document alone: no timestamp is embedded and the document identifier
/// is derived from the document itself.
pub uninterp spec fn rendered_of(doc: typst::layout::PagedDocument) -> Option<Seq<u8>>;

/// Relies on `typst_pdf::pdf` with default options: serializes a compiled
/// document to PDF bytes; it can refuse a document (for instance over
/// standards conformance), and both the refusal and the emitted bytes
/// depend on the document alone.
#[verifier::external_body]
fn render_pdf(doc: &typst::layout::PagedDocument) -> (r: Option<Vec<u8>>)
    ensures
        (r is Some) == (rendered_of(*doc) is Some),
        r matches Some(b) ==> rendered_of(*doc) == Some(b@),
{
    typst_pdf::pdf(doc, &typst_pdf::PdfOptions::default()).ok()
}

/// Renders the compiled primary document and plans the merge: the primary
/// first, then each mergeable attachment in submission order. The call
/// succeeds exactly when the renderer emits bytes, those bytes parse and
/// every attachment parses; a failing renderer surfaces as
/// `RenderFailed`; a malformed input surfaces as a `MergeError` naming
/// the offending attachment (the empty name stands for the primary
/// document itself).
pub fn render_and_merge(doc: &typst::layout::PagedDocument, attachments: Vec<
    InvoiceAttachment,
>) -> (r: Result<MergePlan, Error>)
    ensures
        (r is Ok) <==> (rendered_of(*doc) matches Some(b) && pdf_parses(b) && (forall|i: int|
            0 <= i < attachments@.len() ==> pdf_parses((#[trigger] attachments@[i]).bytes@))),
        (r == Err::<MergePlan, Error>(Error::RenderFailed)) <==> (rendered_of(*doc) is None),
        r matches Ok(plan) ==> {
            &&& plan.wf()
            &&& plan.spec_inputs().len() == 1 + attachments@.len()
            &&& rendered_of(*doc) == Some(plan.spec_inputs()[0])
            &&& forall|i: int|
                0 <= i < attachments@.len() ==> plan.spec_inputs()[i + 1] == (
                #[trigger] attachments@[i]).bytes@
        },
        r matches Err(e) ==> e is RenderFailed || (e matches Error::MergeError { index, filename }
            && ({
            &&& 0 <= index <= attachments@.len()
            &&& (index == 0 ==> filename@ == Seq::<char>::empty() && (rendered_of(
                *doc,
            ) matches Some(b) && !pdf_parses(b)))
            &&& (index >= 1 ==> filename@ == attachments@[index - 1].filename@ && !pdf_parses(
                attachments@[index - 1].bytes@,
            ) && (forall|j: int|
                0 <= j < index - 1 ==> pdf_parses((#[trigger] attachments@[j]).bytes@)))
        })),
{
    let rendered = match render_pdf(doc) {
        Some(bytes) => bytes,
        None => {
            return Err(Error::RenderFailed);
        },
    };
    assemble_pdfs(rendered, attachments)
}

/// Plans the merge of an already rendered primary document with the
/// mergeable attachments, in submission order.
pub fn assemble_pdfs(primary: Vec<u8>, attachments: Vec<InvoiceAttachment>) -> (r: Result<
    MergePlan,
    Error,
>)
    ensures
        r matches Ok(plan) ==> {
            &&& plan.wf()
            &&& plan.spec_inputs().len() == 1 + attachments@.len()
            &&& plan.spec_inputs()[0] == primary@
            &&& forall|i: int|
                0 <= i < attachments@.len() ==> plan.spec_inputs()[i + 1] == (
                #[trigger] attachments@[i]).bytes@
        },
        (r is Ok) <==> pdf_parses(primary@) && (forall|i: int|
            0 <= i < attachments@.len() ==> pdf_parses((#[trigger] attachments@[i]).bytes@)),
        r matches Err(e) ==> e matches Error::MergeError { index, filename } && ({
            &&& 0 <= index <= attachments@.len()
            &&& (index == 0 ==> filename@ == Seq::<char>::empty() && !pdf_parses(primary@))
            &&& (index >= 1 ==> filename@ == attachments@[index - 1].filename@ && !pdf_parses(
                attachments@[index - 1].bytes@,
            ) && pdf_parses(primary@) && (forall|j: int|
                0 <= j < index - 1 ==> pdf_parses((#[trigger] attachments@[j]).bytes@)))
        }),
{
    let ghost atts = attachments@;
    let mut attachments = attachments;
    let mut names: Vec<String> = Vec::new();
    let mut inputs: Vec<Vec<u8>> = Vec::new();
    inputs.push(primary);
    let total = attachments.len();
    proof {
        assert(atts.len() == total as int);
    }
    let mut k: usize = 0;
    while attachments.len() > 0
        invariant
            0 <= k <= atts.len(),
            atts.len() <= usize::MAX,
            k + attachments@.len() == atts.len(),
            attachments@ == atts.skip(k as int),
            names@.len() == k,
            inputs@.len() == k + 1,
            inputs@[0]@ == primary@,
            forall|j: int| 0 <= j < k ==> (#[trigger] names@[j])@ == atts[j].filename@,
            forall|j: int| 0 <= j < k ==> (#[trigger] inputs@[j + 1])@ == atts[j].bytes@,
        decreases attachments@.len(),
    {
        let att = attachments.remove(0);
        proof {
            assert(atts.skip(k as int)[0] == atts[k as int]);
            assert(atts.skip(k as int).remove(0) =~= atts.skip(k + 1));
        }
        let InvoiceAttachment { filename, bytes } = att;
        names.push(filename);
        inputs.push(bytes);
        k = k + 1;
    }
    let ghost ins = inputs@;
    match merge_pdf(inputs) {
        Ok(plan) => {
            proof {
                assert forall|i: int| 0 <= i < atts.len() implies plan.spec_inputs()[i + 1] == (
                #[trigger] atts[i]).bytes@ by {
                    assert(ins[i + 1]@ == atts[i].bytes@);
                    assert(plan.spec_inputs()[i + 1] == ins[i + 1]@);
                }
                assert(plan.spec_inputs()[0] == ins[0]@);
                assert forall|i: int| 0 <= i < atts.len() implies pdf_parses(
                    (#[trigger] atts[i]).bytes@,
                ) by {
                    assert(pdf_parses(ins[i + 1]@));
                }
                assert(pdf_parses(ins[0]@));
            }
            Ok(plan)
        },
        Err(index) => {
            proof {
                if index != 0 {
                    let j = index - 1;
                    assert(ins[j + 1]@ == atts[j].bytes@);
                    assert(ins[index as int]@ == atts[index - 1].bytes@);
                    assert(pdf_parses(ins[0]@));
                    assert forall|j: int| 0 <= j < index - 1 implies pdf_parses(
                        (#[trigger] atts[j]).bytes@,
                    ) by {
                        assert(pdf_parses(ins[j + 1]@));
                    }
                } else {
                    assert(ins[0]@ == primary@);
                    assert forall|i: int|
                        0 <= i < atts.len() && !pdf_parses(
                            (#[trigger] atts[i]).bytes@,
                        ) implies !pdf_parses(ins[i + 1]@) by {
                        assert(ins[i + 1]@ == atts[i].bytes@);
                    }
                }
            }
            if index == 0 {
                Err(Error::MergeError { index: 0, filename: String::new() })
            } else {
                let mut names = names;
                let filename = names.swap_remove(index - 1);
                Err(Error::MergeError { index, filename })
            }
        },
    }
}

/// Law: rendering is deterministic. Under the default options the
/// renderer's output is a function of the compiled document alone, so
/// equal documents render to byte-identical PDF content; together with
/// the builder's own determinism, repeated generation of one invoice can
/// differ only in what the compilation engine itself makes of an equal
/// request.
pub proof fn lemma_render_deterministic(
    a: typst::layout::PagedDocument,
    b: typst::layout::PagedDocument,
)
    requires
        a == b,
    ensures
        rendered_of(a) == rendered_of(b),
{
}

/// Law: the merged output's page count is the primary document's page
/// count plus the sum of the merged attachments' page counts, with the
/// attachments following the primary in submission order.
pub proof fn lemma_merge_page_count(primary: Seq<u8>, atts: Seq<Seq<u8>>)
    ensures
        spec_total_pages(seq![primary] + atts) == spec_pages(primary) + spec_total_pages(atts),
    decreases atts.len(),
{
    if atts.len() == 0 {
        assert(seq![primary] + atts =~= seq![primary]);
        assert(seq![primary].drop_last() =~= Seq::<Seq<u8>>::empty());
        assert(seq![primary].last() == primary);
        assert(spec_total_pages(seq![primary]) == spec_total_pages(Seq::<Seq<u8>>::empty())
            + spec_pages(primary));
    } else {
        let s = seq![primary] + atts;
        assert(s.len() > 0);
        assert(s.drop_last() =~= seq![primary] + atts.drop_last());
        assert(s.last() == atts.last());
        assert(spec_total_pages(s) == spec_total_pages(s.drop_last()) + spec_pages(s.last()));
        lemma_merge_page_count(primary, atts.drop_last());
        assert(spec_total_pages(atts) == spec_total_pages(atts.drop_last()) + spec_pages(
            atts.last(),
        ));
    }
}

} // verus!
