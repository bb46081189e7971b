//! The document-generation pipeline: the font catalog with at-most-once
//! decoding, the per-compilation sandbox world, attachment classification,
//! and the builder that seeds a world from an invoice.
//!
//! The compilation engine itself runs outside this crate against the
//! capability surface the world exposes: the main template source, the
//! virtual file resolver, the font catalog and the snapshot date.

use vstd::prelude::*;

use crate::barcode::barcode_field;
use crate::barcode::spec_barcode_field;
use crate::error::Error;
use crate::error::VfsError;
use crate::invoices::Invoice;
use crate::invoices::InvoiceAttachment;
use crate::json::invoice_json;
use crate::json::payload_json;
use crate::vfs::Vfs;

verus! {

#[verifier::external_type_specification]
#[verifier::external_body]
pub struct ExFont(typst::text::Font);

pub assume_specification[ <typst::text::Font as Clone>::clone ](f: &typst::text::Font) -> (r:
    typst::text::Font)
    ensures
        r == f,
;

/// Whether a font file's bytes decode as a face at the given index; the
/// decode's outcome depends on the bytes and the index alone.
pub uninterp spec fn font_decodes(data: Seq<u8>, index: u32) -> bool;

/// Relies on `typst::text::Font::new`: parsing one face out of raw font
/// data; whether a face comes out is a function of the data and the index.
#[verifier::external_body]
fn font_new(data: &Vec<u8>, index: u32) -> (r: Option<typst::text::Font>)
    ensures
        (r is Some) == font_decodes(data@, index),
{
    typst::text::Font::new(typst::foundations::Bytes::new(data.clone()), index)
}

/// One slot of the font catalog: a font file's bytes, a face index within
/// the file, and the decoded face, computed at most once on first access.
/// A failed decode is remembered and never retried.
pub struct FontSlot {
    data: Vec<u8>,
    index: u32,
    font: Option<Option<typst::text::Font>>,
}

impl FontSlot {
    /// The slot's raw font data.
    pub closed spec fn spec_data(self) -> Seq<u8> {
        self.data@
    }

    /// The slot's face index.
    pub closed spec fn spec_index(self) -> u32 {
        self.index
    }

    /// Whether the decode has already happened.
    pub closed spec fn loaded(self) -> bool {
        self.font is Some
    }

    /// The memoized decode outcome, once there is one.
    pub closed spec fn spec_font(self) -> Option<Option<typst::text::Font>> {
        self.font
    }

    /// A memoized outcome always agrees with what decoding yields.
    pub closed spec fn wf(self) -> bool {
        self.font matches Some(c) ==> (c is Some) == font_decodes(self.data@, self.index)
    }

    /// A fresh, not yet decoded slot.
    pub fn new(data: Vec<u8>, index: u32) -> (r: Self)
        ensures
            r.wf(),
            !r.loaded(),
            r.spec_data() == data@,
            r.spec_index() == index,
    {
        FontSlot { data, index, font: None }
    }

    /// The slot's face: decoded on first access, the memo afterwards, so
    /// the decode runs at most once and a failure stays a failure.
    pub fn get(&mut self) -> (r: Option<typst::text::Font>)
        requires
            old(self).wf(),
        ensures
            final(self).wf(),
            final(self).loaded(),
            final(self).spec_data() == old(self).spec_data(),
            final(self).spec_index() == old(self).spec_index(),
            (r is Some) == font_decodes(old(self).spec_data(), old(self).spec_index()),
            final(self).spec_font() == Some(r),
            old(self).loaded() ==> *final(self) == *old(self),
    {
        if self.font.is_none() {
            let decoded = font_new(&self.data, self.index);
            self.font = Some(decoded);
        }
        match &self.font {
            Some(Some(f)) => Some(f.clone()),
            _ => None,
        }
    }
}

/// The process-wide asset cache: the fixed template source and the font
/// catalog. Font slots decode on demand, at most once each.
pub struct AssetCache {
    template: String,
    fonts: Vec<FontSlot>,
}

impl AssetCache {
    /// The template's source text.
    pub closed spec fn spec_template(self) -> Seq<char> {
        self.template@
    }

    /// The font slots.
    pub closed spec fn spec_fonts(self) -> Seq<FontSlot> {
        self.fonts@
    }

    /// Every slot's memo is sound.
    pub closed spec fn wf(self) -> bool {
        forall|i: int| 0 <= i < self.fonts@.len() ==> (#[trigger] self.fonts@[i]).wf()
    }

    /// A cache over the given template source and font slots.
    pub fn new(template: String, fonts: Vec<FontSlot>) -> (r: Self)
        requires
            forall|i: int| 0 <= i < fonts@.len() ==> (#[trigger] fonts@[i]).wf(),
        ensures
            r.wf(),
            r.spec_template() == template@,
            r.spec_fonts() == fonts@,
    {
        AssetCache { template, fonts }
    }

    /// The template source, always available.
    pub fn template_source(&self) -> (r: &String)
        ensures
            r@ == self.spec_template(),
    {
        &self.template
    }

    /// How many font slots the catalog holds.
    pub fn font_count(&self) -> (r: usize)
        ensures
            r == self.spec_fonts().len(),
    {
        self.fonts.len()
    }

    /// Font lookup: decodes slot `index` on its first access and reuses
    /// the memo afterwards; an out-of-range index yields nothing. Slot
    /// data and order never change.
    pub fn get_font(&mut self, index: usize) -> (r: Option<typst::text::Font>)
        requires
            old(self).wf(),
        ensures
            final(self).wf(),
            final(self).spec_template() == old(self).spec_template(),
            final(self).spec_fonts().len() == old(self).spec_fonts().len(),
            forall|k: int|
                0 <= k < old(self).spec_fonts().len() && k != index ==> final(self).spec_fonts()[k]
                    == old(self).spec_fonts()[k],
            index < old(self).spec_fonts().len() ==> {
                &&& final(self).spec_fonts()[index as int].spec_data() == old(
                    self,
                ).spec_fonts()[index as int].spec_data()
                &&& final(self).spec_fonts()[index as int].spec_index() == old(
                    self,
                ).spec_fonts()[index as int].spec_index()
                &&& final(self).spec_fonts()[index as int].loaded()
                &&& (r is Some) == font_decodes(
                    old(self).spec_fonts()[index as int].spec_data(),
                    old(self).spec_fonts()[index as int].spec_index(),
                )
            },
            index >= old(self).spec_fonts().len() ==> r is None && *final(self) == *old(self),
    {
        if index >= self.fonts.len() {
            return None;
        }
        let mut slot = FontSlot::new(Vec::new(), 0);
        self.fonts.set_and_swap(index, &mut slot);
        let r = slot.get();
        let ghost updated = slot;
        self.fonts.set_and_swap(index, &mut slot);
        proof {
            assert(self.fonts@ =~= old(self).fonts@.update(index as int, updated));
        }
        r
    }
}

/// The classification of a filename: an attachment whose extension is
/// `.pdf`, in any letter case, is merged after compilation; every other
/// attachment is inlined into the compilation world's file system.
pub open spec fn is_pdf_name(s: Seq<char>) -> bool {
    &&& s.len() >= 4
    &&& s[s.len() - 4] == '.'
    &&& (s[s.len() - 3] == 'p' || s[s.len() - 3] == 'P')
    &&& (s[s.len() - 2] == 'd' || s[s.len() - 2] == 'D')
    &&& (s[s.len() - 1] == 'f' || s[s.len() - 1] == 'F')
}

/// Whether the filename names a mergeable PDF attachment.
pub fn is_pdf_filename(name: &str) -> (r: bool)
    ensures
        r == is_pdf_name(name@),
{
    let n = name.unicode_len();
    if n < 4 {
        return false;
    }
    let dot = name.get_char(n - 4);
    let p = name.get_char(n - 3);
    let d = name.get_char(n - 2);
    let f = name.get_char(n - 1);
    dot == '.' && (p == 'p' || p == 'P') && (d == 'd' || d == 'D') && (f == 'f' || f == 'F')
}

/// The virtual path an inline attachment is stored under.
pub open spec fn spec_attachment_path(name: Seq<char>) -> Seq<char> {
    "/attachments/"@ + name
}

/// Builds the virtual path for an inline attachment's filename.
pub fn attachment_path(name: &String) -> (r: String)
    ensures
        r@ == spec_attachment_path(name@),
{
    let mut p = String::new();
    p.append("/attachments/");
    p.append(name.as_str());
    p
}

/// The mergeable PDFs among the attachments, in submission order.
pub open spec fn spec_split_pdfs(atts: Seq<InvoiceAttachment>) -> Seq<InvoiceAttachment>
    decreases atts.len(),
{
    if atts.len() == 0 {
        Seq::empty()
    } else {
        let rest = spec_split_pdfs(atts.drop_last());
        if is_pdf_name(atts.last().filename@) {
            rest.push(atts.last())
        } else {
            rest
        }
    }
}

/// The file mapping after inlining every non-PDF attachment, in order,
/// under its virtual path; a later duplicate filename overwrites.
pub open spec fn spec_insert_inline(
    m: Map<Seq<char>, Seq<u8>>,
    atts: Seq<InvoiceAttachment>,
) -> Map<Seq<char>, Seq<u8>>
    decreases atts.len(),
{
    if atts.len() == 0 {
        m
    } else {
        let prev = spec_insert_inline(m, atts.drop_last());
        if is_pdf_name(atts.last().filename@) {
            prev
        } else {
            prev.insert(spec_attachment_path(atts.last().filename@), atts.last().bytes@)
        }
    }
}

/// Law: classification never invents an entry, every entry of the merge
/// list carries a PDF name, and the list is empty exactly when no
/// attachment is PDF-named. Relative order is kept by construction: the
/// list equals the PDF-named subsequence of the attachments.
pub proof fn lemma_split_pdfs_sound(atts: Seq<InvoiceAttachment>)
    ensures
        spec_split_pdfs(atts).len() <= atts.len(),
        forall|i: int|
            0 <= i < spec_split_pdfs(atts).len() ==> is_pdf_name(
                (#[trigger] spec_split_pdfs(atts)[i]).filename@,
            ),
        (spec_split_pdfs(atts).len() == 0) <==> (forall|i: int|
            0 <= i < atts.len() ==> !is_pdf_name((#[trigger] atts[i]).filename@)),
    decreases atts.len(),
{
    if atts.len() > 0 {
        lemma_split_pdfs_sound(atts.drop_last());
        let prev = spec_split_pdfs(atts.drop_last());
        if is_pdf_name(atts.last().filename@) {
            assert(atts[atts.len() - 1] == atts.last());
            assert(spec_split_pdfs(atts).len() > 0);
        } else {
            assert(spec_split_pdfs(atts) == prev);
            if prev.len() > 0 {
                let i = choose|i: int|
                    0 <= i < atts.drop_last().len() && is_pdf_name(
                        (#[trigger] atts.drop_last()[i]).filename@,
                    );
                assert(is_pdf_name(atts[i].filename@));
            } else {
                assert forall|i: int| 0 <= i < atts.len() implies !is_pdf_name(
                    (#[trigger] atts[i]).filename@,
                ) by {
                    if i < atts.len() - 1 {
                        assert(atts.drop_last()[i] == atts[i]);
                    }
                }
            }
        }
    }
}

/// The per-request sandbox world: the capability surface the compilation
/// engine depends on. It holds the main template source, a fresh virtual
/// file system seeded with the bundled logo, the injected data payload
/// and a snapshot timestamp taken at world construction.
pub struct Sandbox {
    template: String,
    files: Vfs,
    data_json: String,
    time: i64,
}

/// The civil date (year, month, day) of a Unix timestamp, read in UTC.
pub uninterp spec fn civil_date_of(secs: i64) -> Option<(i32, u8, u8)>;

/// Relies on `time::OffsetDateTime::from_unix_timestamp` and
/// `to_calendar_date`: the civil date is a function of the timestamp
/// alone; it exists for every timestamp the `time` crate can represent,
/// in particular for everything up to the year 9999.
#[verifier::external_body]
fn civil_date(secs: i64) -> (r: Option<(i32, u8, u8)>)
    ensures
        r == civil_date_of(secs),
        r matches Some(d) ==> 1 <= d.1 <= 12 && 1 <= d.2 <= 31,
        0 <= secs < 250_000_000_000 ==> r is Some,
{
    let t = match time::OffsetDateTime::from_unix_timestamp(secs) {
        Ok(t) => t,
        Err(_) => {
            return None;
        },
    };
    let (y, m, d) = t.to_calendar_date();
    Some((y, m as u8, d))
}

/// What `today` answers for a snapshot time and an offset in whole hours:
/// nothing for an offset no zone has, else the civil date of the shifted
/// instant. A missing offset means UTC.
pub open spec fn spec_today(time: i64, offset: Option<i64>) -> Option<(i32, u8, u8)> {
    let h = match offset {
        Some(v) => v,
        None => 0,
    };
    if h < -25 || h > 25 {
        None
    } else if time + h * 3600 > i64::MAX || time + h * 3600 < i64::MIN {
        None
    } else {
        civil_date_of((time + h * 3600) as i64)
    }
}

impl Sandbox {
    /// The main template's source text.
    pub closed spec fn spec_template(self) -> Seq<char> {
        self.template@
    }

    /// The virtual file mapping.
    pub closed spec fn spec_files(self) -> Map<Seq<char>, Seq<u8>> {
        self.files@
    }

    /// The injected data payload.
    pub closed spec fn spec_data(self) -> Seq<char> {
        self.data_json@
    }

    /// The snapshot timestamp.
    pub closed spec fn spec_time(self) -> i64 {
        self.time
    }

    /// The world's file system is sound.
    pub closed spec fn wf(self) -> bool {
        self.files.wf()
    }

    /// A fresh world: the given template source, a file system holding
    /// only the bundled logo, an empty data scope, and the given snapshot
    /// timestamp.
    pub fn new(template: String, logo: Vec<u8>, now: i64) -> (r: Self)
        ensures
            r.wf(),
            r.spec_template() == template@,
            r.spec_files() == Map::<Seq<char>, Seq<u8>>::empty().insert("/tik.png"@, logo@),
            r.spec_data() == Seq::<char>::empty(),
            r.spec_time() == now,
    {
        let mut files = Vfs::new();
        let mut path = String::new();
        path.append("/tik.png");
        proof {
            assert(path@ =~= "/tik.png"@);
        }
        files.insert(path, logo);
        Sandbox { template, files, data_json: String::new(), time: now }
    }

    /// Injects the data payload the template reads; everything else in
    /// the world stays as it was.
    pub fn with_data(&mut self, data: String)
        requires
            old(self).wf(),
        ensures
            final(self).wf(),
            final(self).spec_data() == data@,
            final(self).spec_template() == old(self).spec_template(),
            final(self).spec_files() == old(self).spec_files(),
            final(self).spec_time() == old(self).spec_time(),
    {
        self.data_json = data;
    }

    /// Inserts an attachment file under its virtual path; a duplicate
    /// path is an explicit overwrite.
    pub fn insert_file(&mut self, path: String, bytes: Vec<u8>)
        requires
            old(self).wf(),
        ensures
            final(self).wf(),
            final(self).spec_files() == old(self).spec_files().insert(path@, bytes@),
            final(self).spec_template() == old(self).spec_template(),
            final(self).spec_data() == old(self).spec_data(),
            final(self).spec_time() == old(self).spec_time(),
    {
        self.files.insert(path, bytes);
    }

    /// The injected data payload.
    pub fn data(&self) -> (r: &String)
        ensures
            r@ == self.spec_data(),
    {
        &self.data_json
    }

    /// The main template's source text.
    pub fn template(&self) -> (r: &String)
        ensures
            r@ == self.spec_template(),
    {
        &self.template
    }

    /// The raw bytes of the virtual file at `path`; a path that was never
    /// inserted is a template/asset mismatch.
    pub fn file(&self, path: &String) -> (r: Result<&Vec<u8>, VfsError>)
        requires
            self.wf(),
        ensures
            r matches Ok(b) ==> self.spec_files().contains_key(path@) && b@
                == self.spec_files()[path@],
            r matches Err(e) ==> e matches VfsError::NotFound(p) && p@ == path@
                && !self.spec_files().contains_key(path@),
    {
        match self.files.get(path) {
            Some(b) => Ok(b),
            None => Err(VfsError::NotFound(path.clone())),
        }
    }

    /// The source text of the virtual file at `path`: decoded from its
    /// bytes once, with leading byte-order marks stripped, and cached.
    pub fn source(&mut self, path: &String) -> (r: Result<String, VfsError>)
        requires
            old(self).wf(),
        ensures
            final(self).wf(),
            final(self).spec_files() == old(self).spec_files(),
            final(self).spec_template() == old(self).spec_template(),
            final(self).spec_data() == old(self).spec_data(),
            final(self).spec_time() == old(self).spec_time(),
            (r is Ok) <==> old(self).spec_files().contains_key(path@) && crate::vfs::has_source(
                old(self).spec_files()[path@],
            ),
            r matches Ok(t) ==> t@ == crate::vfs::source_chars(old(self).spec_files()[path@]),
            r matches Err(e) ==> {
                &&& e matches VfsError::NotFound(p) ==> (p@ == path@ && !old(
                    self,
                ).spec_files().contains_key(path@))
                &&& e is InvalidEncoding ==> (old(self).spec_files().contains_key(path@)
                    && !crate::vfs::has_source(old(self).spec_files()[path@]))
            },
    {
        self.files.source(path)
    }

    /// Today's date under an optional UTC offset in whole hours, from the
    /// snapshot timestamp taken at world construction; an offset no time
    /// zone has yields no date rather than a default.
    pub fn today(&self, offset: Option<i64>) -> (r: Option<(i32, u8, u8)>)
        ensures
            r == spec_today(self.spec_time(), offset),
            r matches Some(d) ==> 1 <= d.1 <= 12 && 1 <= d.2 <= 31,
    {
        let h: i64 = match offset {
            Some(v) => v,
            None => 0,
        };
        if h < -25 || h > 25 {
            return None;
        }
        match self.time.checked_add(h * 3600) {
            Some(shifted) => civil_date(shifted),
            None => None,
        }
    }
}

/// The data payload injected for an invoice: the serialized invoice with
/// its barcode field (empty when no barcode could be built).
#[verifier::opaque]
pub open spec fn spec_payload(i: Invoice) -> Seq<char> {
    payload_json(i, spec_barcode_field(i))
}

/// The builder that turns an invoice and its raw attachments into a
/// seeded compilation world plus the list of PDFs to merge afterwards.
pub struct DocumentBuilder {
    invoice: Invoice,
    attachments: Vec<InvoiceAttachment>,
}

impl DocumentBuilder {
    /// The invoice being rendered.
    pub closed spec fn spec_invoice(self) -> Invoice {
        self.invoice
    }

    /// The submitted attachments, in order.
    pub closed spec fn spec_attachments(self) -> Seq<InvoiceAttachment> {
        self.attachments@
    }

    pub fn new(invoice: Invoice, attachments: Vec<InvoiceAttachment>) -> (r: Self)
        ensures
            r.spec_invoice() == invoice,
            r.spec_attachments() == attachments@,
    {
        Self { invoice, attachments }
    }

    /// The serialized data payload: the invoice plus its `barcode` field.
    /// A barcode failure degrades to an empty string and never aborts.
    pub fn data(&self) -> (r: String)
        requires
            self.spec_invoice().wf(),
        ensures
            r@ == spec_payload(self.spec_invoice()),
    {
        let barcode = barcode_field(&self.invoice);
        let out = invoice_json(&self.invoice, &barcode);
        proof {
            reveal(spec_payload);
        }
        out
    }

    /// Seeds `base` with the data payload and the inline attachments and
    /// returns it together with the mergeable PDF attachments, in
    /// submission order. The compilation engine then runs against the
    /// returned world; merging happens after rendering.
    pub fn build_with_pdfs(self, base: Sandbox) -> (r: (Sandbox, Vec<InvoiceAttachment>))
        requires
            base.wf(),
            self.spec_invoice().wf(),
        ensures
            r.0.wf(),
            r.0.spec_template() == base.spec_template(),
            r.0.spec_time() == base.spec_time(),
            r.0.spec_data() == spec_payload(self.spec_invoice()),
            r.0.spec_files() == spec_insert_inline(base.spec_files(), self.spec_attachments()),
            r.1@ == spec_split_pdfs(self.spec_attachments()),
    {
        let data = self.data();
        let ghost payload = data@;
        let ghost inv = self.spec_invoice();
        let DocumentBuilder { invoice: _, attachments: mut attachments } = self;
        let mut world = base;
        world.with_data(data);
        let ghost atts = attachments@;
        let total = attachments.len();
        proof {
            assert(atts.len() == total as int);
        }
        let ghost base_files = world.spec_files();
        let mut pdfs: Vec<InvoiceAttachment> = Vec::new();
        let mut k: usize = 0;
        while attachments.len() > 0
            invariant
                0 <= k <= atts.len(),
                atts.len() <= usize::MAX,
                k + attachments@.len() == atts.len(),
                attachments@ == atts.skip(k as int),
                world.wf(),
                world.spec_template() == base.spec_template(),
                world.spec_time() == base.spec_time(),
                world.spec_data() == payload,
                world.spec_files() == spec_insert_inline(base_files, atts.take(k as int)),
                pdfs@ == spec_split_pdfs(atts.take(k as int)),
            decreases attachments@.len(),
        {
            let att = attachments.remove(0);
            proof {
                assert(atts.skip(k as int)[0] == atts[k as int]);
                assert(atts.skip(k as int).remove(0) =~= atts.skip(k + 1));
                assert(atts.take(k + 1).drop_last() =~= atts.take(k as int));
                assert(atts.take(k + 1).last() == atts[k as int]);
            }
            if is_pdf_filename(att.filename.as_str()) {
                pdfs.push(att);
            } else {
                let InvoiceAttachment { filename, bytes } = att;
                let path = attachment_path(&filename);
                world.insert_file(path, bytes);
            }
            k = k + 1;
        }
        proof {
            assert(atts.take(atts.len() as int) =~= atts);
        }
        (world, pdfs)
    }

    /// The seeded compilation world alone, for callers that do not merge.
    pub fn build(self, base: Sandbox) -> (r: Sandbox)
        requires
            base.wf(),
            self.spec_invoice().wf(),
        ensures
            r.wf(),
            r.spec_template() == base.spec_template(),
            r.spec_time() == base.spec_time(),
            r.spec_data() == spec_payload(self.spec_invoice()),
            r.spec_files() == spec_insert_inline(base.spec_files(), self.spec_attachments()),
    {
        let (world, _) = self.build_with_pdfs(base);
        world
    }
}

/// The given diagnostic messages joined with newlines.
pub open spec fn join_newlines(msgs: Seq<Seq<char>>) -> Seq<char>
    decreases msgs.len(),
{
    if msgs.len() == 0 {
        Seq::empty()
    } else if msgs.len() == 1 {
        msgs[0]
    } else {
        join_newlines(msgs.drop_last()) + "\n"@ + msgs.last()
    }
}

/// The single error a failed compilation surfaces: every diagnostic
/// message the engine produced, joined with newlines — no partial
/// document is ever returned.
pub fn diagnostics_error(messages: Vec<String>) -> (r: Error)
    ensures
        r matches Error::TypstError(s) && s@ == join_newlines(
            messages@.map_values(|m: String| m@),
        ),
{
    let ghost parts = messages@.map_values(|m: String| m@);
    let mut out = String::new();
    let mut i: usize = 0;
    while i < messages.len()
        invariant
            0 <= i <= messages@.len(),
            parts == messages@.map_values(|m: String| m@),
            parts.len() == messages@.len(),
            out@ == join_newlines(parts.take(i as int)),
        decreases messages@.len() - i,
    {
        if i > 0 {
            out.append("\n");
        }
        out.append(messages[i].as_str());
        proof {
            assert(parts.take(i + 1).drop_last() =~= parts.take(i as int));
            assert(parts.take(i + 1).last() == parts[i as int]);
            if i == 0 {
                assert(join_newlines(parts.take(1)) == parts[0]);
                assert(out@ =~= parts[0]);
            }
            assert(out@ =~= join_newlines(parts.take(i + 1)));
        }
        i = i + 1;
    }
    proof {
        assert(parts.take(parts.len() as int) =~= parts);
    }
    Error::TypstError(out)
}

/// Law: the pipeline hands the compilation engine one request per
/// invoice, and that request is a function of the invoice, its
/// attachments and the base world alone. Two builders over equal inputs
/// produce equal payloads, equal mergeable lists, and equal file
/// mappings over any base — so repeated compilation of one invoice can
/// differ only inside the engine, never in what this pipeline feeds it.
pub proof fn lemma_build_request_deterministic(a: DocumentBuilder, b: DocumentBuilder)
    requires
        a.spec_invoice() == b.spec_invoice(),
        a.spec_attachments() == b.spec_attachments(),
    ensures
        spec_payload(a.spec_invoice()) == spec_payload(b.spec_invoice()),
        spec_split_pdfs(a.spec_attachments()) == spec_split_pdfs(b.spec_attachments()),
        forall|m: Map<Seq<char>, Seq<u8>>|
            spec_insert_inline(m, a.spec_attachments()) == #[trigger] spec_insert_inline(
                m,
                b.spec_attachments(),
            ),
{
}

} // verus!
