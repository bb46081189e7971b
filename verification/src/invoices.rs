//! The invoice data model handed to the document pipeline, together with
//! the integer total used for the payment barcode.

use vstd::prelude::*;

use crate::error::Error;

verus! {

/// An address consisting of a street, a city and a zipcode.
#[derive(Debug, Clone, PartialEq, Eq)]
pub struct Address {
    /// The recipient's street address.
    pub street: String,
    /// The recipient's city.
    pub city: String,
    /// The recipient's zip code.
    pub zip: String,
}

/// One row of an invoice: a product and its price.
#[derive(Debug, Clone, PartialEq, Eq)]
pub struct InvoiceRow {
    /// The product name.
    pub product: String,
    /// Unit price encoded as a number of cents, never floating point,
    /// to avoid rounding errors; must be positive.
    pub unit_price: i32,
}

/// An attachment submitted with an invoice: a filename and raw bytes.
#[derive(Debug, Clone, PartialEq, Eq)]
pub struct InvoiceAttachment {
    pub filename: String,
    pub bytes: Vec<u8>,
}

/// An invoice already validated by the intake collaborator; the pipeline
/// assumes its rows are non-empty and its prices positive.
#[derive(Debug, Clone, PartialEq, Eq)]
pub struct Invoice {
    pub recipient_name: String,
    pub recipient_email: String,
    pub address: Address,
    /// The recipient's bank account number as an IBAN string.
    pub bank_account_number: String,
    pub subject: String,
    pub description: String,
    pub phone_number: String,
    /// Descriptions for the attached files, in submission order.
    pub attachment_descriptions: Vec<String>,
    /// The rows of the invoice, never empty.
    pub rows: Vec<InvoiceRow>,
    /// Attachment stubs carried inside the data payload: filenames only,
    /// with the byte content left empty (the content lives in the
    /// compilation world's file system, never in the payload).
    pub attachments: Vec<InvoiceAttachment>,
}

impl InvoiceRow {
    /// The upstream validator admits only positive prices.
    pub open spec fn wf(self) -> bool {
        self.unit_price >= 1
    }
}

impl Invoice {
    /// What the intake collaborator guarantees of every invoice it hands
    /// over: at least one row, and every price positive.
    pub open spec fn wf(self) -> bool {
        &&& self.rows.len() >= 1
        &&& forall|i: int| 0 <= i < self.rows.len() ==> (#[trigger] self.rows[i]).wf()
    }
}

/// The exact integer total of a sequence of rows, in minor currency units.
pub open spec fn spec_total(rows: Seq<InvoiceRow>) -> int
    decreases rows.len(),
{
    if rows.len() == 0 {
        0
    } else {
        spec_total(rows.drop_last()) + rows.last().unit_price
    }
}

/// Sums the row prices in integer arithmetic only. Returns `None` exactly
/// when the total does not fit the barcode generator's 32-bit amount field.
pub fn total_minor_units(rows: &Vec<InvoiceRow>) -> (r: Option<u32>)
    requires
        forall|i: int| 0 <= i < rows@.len() ==> (#[trigger] rows@[i]).wf(),
    ensures
        r matches Some(t) ==> t == spec_total(rows@),
        r is Some <==> spec_total(rows@) <= u32::MAX,
{
    let mut acc: u32 = 0;
    let mut i: usize = 0;
    while i < rows.len()
        invariant
            0 <= i <= rows@.len(),
            forall|j: int| 0 <= j < rows@.len() ==> (#[trigger] rows@[j]).wf(),
            acc == spec_total(rows@.take(i as int)),
        decreases rows@.len() - i,
    {
        proof {
            assert(rows@.take(i + 1).drop_last() =~= rows@.take(i as int));
            assert(rows@.take(i + 1).last() == rows@[i as int]);
        }
        let price: i32 = rows[i].unit_price;
        match acc.checked_add(price as u32) {
            Some(next) => {
                acc = next;
            },
            None => {
                proof {
                    lemma_spec_total_grows(rows@, i + 1);
                }
                return None;
            },
        }
        i = i + 1;
    }
    proof {
        assert(rows@.take(rows@.len() as int) =~= rows@);
    }
    Some(acc)
}

/// Case-insensitive match of a character against an expected lower-case
/// ASCII character.
pub open spec fn eq_ci(a: char, b: char) -> bool {
    a == b || (97 <= b as u32 <= 122 && a as u32 + 32 == b as u32)
}

/// Whether `s` ends with the lower-case ASCII suffix `suf`, comparing
/// case-insensitively.
pub open spec fn has_suffix_ci(s: Seq<char>, suf: Seq<char>) -> bool {
    s.len() >= suf.len() && forall|k: int|
        0 <= k < suf.len() ==> eq_ci(s[s.len() - suf.len() + k], #[trigger] suf[k])
}

/// The attachment allowlist: a filename is accepted exactly when it ends
/// in `.jpg`, `.jpeg`, `.png`, `.gif`, `.svg` or `.pdf`, in any letter
/// case.
pub open spec fn allowed_filename(s: Seq<char>) -> bool {
    ||| has_suffix_ci(s, ".jpg"@)
    ||| has_suffix_ci(s, ".jpeg"@)
    ||| has_suffix_ci(s, ".png"@)
    ||| has_suffix_ci(s, ".gif"@)
    ||| has_suffix_ci(s, ".svg"@)
    ||| has_suffix_ci(s, ".pdf"@)
}

fn eq_ci_exec(a: char, b: char) -> (r: bool)
    ensures
        r == eq_ci(a, b),
{
    a == b || (97 <= b as u32 && b as u32 <= 122 && a as u32 + 32 == b as u32)
}

fn suffix_ci(name: &str, suf: &str) -> (r: bool)
    ensures
        r == has_suffix_ci(name@, suf@),
{
    let n = name.unicode_len();
    let m = suf.unicode_len();
    if n < m {
        return false;
    }
    let mut k: usize = 0;
    while k < m
        invariant
            0 <= k <= m,
            m == suf@.len(),
            n == name@.len(),
            m <= n,
            forall|j: int| 0 <= j < k ==> eq_ci(name@[n - m + j], #[trigger] suf@[j]),
        decreases m - k,
    {
        let a = name.get_char(n - m + k);
        let b = suf.get_char(k);
        if !eq_ci_exec(a, b) {
            return false;
        }
        k = k + 1;
    }
    true
}

/// Whether the filename passes the attachment allowlist.
pub fn check_filename(name: &String) -> (r: bool)
    ensures
        r == allowed_filename(name@),
{
    let s = name.as_str();
    suffix_ci(s, ".jpg") || suffix_ci(s, ".jpeg") || suffix_ci(s, ".png") || suffix_ci(s, ".gif")
        || suffix_ci(s, ".svg") || suffix_ci(s, ".pdf")
}

/// Turns one uploaded file into an attachment: the file must carry a
/// filename and the filename must pass the allowlist, else the upload is
/// rejected with the matching error.
pub fn try_handle_file(filename: Option<String>, bytes: Vec<u8>) -> (r: Result<
    InvoiceAttachment,
    Error,
>)
    ensures
        filename is None ==> r == Err::<InvoiceAttachment, Error>(Error::MissingFilename),
        filename matches Some(f) ==> {
            &&& allowed_filename(f@) ==> (r matches Ok(a) && a.filename@ == f@ && a.bytes@
                == bytes@)
            &&& !allowed_filename(f@) ==> (r matches Err(e) && e matches
            Error::UnsupportedFileFormat(g) && g@ == f@)
        },
{
    match filename {
        None => Err(Error::MissingFilename),
        Some(f) => {
            if !check_filename(&f) {
                Err(Error::UnsupportedFileFormat(f))
            } else {
                Ok(InvoiceAttachment { filename: f, bytes })
            }
        },
    }
}

/// The attachment stubs placed into the invoice before serialization: the
/// submitted filenames in order, each with empty content — inline bytes
/// live only in the compilation world's file system, never in the data
/// payload.
pub fn attachment_stubs(atts: &Vec<InvoiceAttachment>) -> (r: Vec<InvoiceAttachment>)
    ensures
        r@.len() == atts@.len(),
        forall|i: int|
            0 <= i < atts@.len() ==> (#[trigger] r@[i]).filename@ == atts@[i].filename@
                && r@[i].bytes@ == Seq::<u8>::empty(),
{
    let mut out: Vec<InvoiceAttachment> = Vec::new();
    let mut i: usize = 0;
    while i < atts.len()
        invariant
            0 <= i <= atts@.len(),
            out@.len() == i,
            forall|j: int|
                0 <= j < i ==> (#[trigger] out@[j]).filename@ == atts@[j].filename@
                    && out@[j].bytes@ == Seq::<u8>::empty(),
        decreases atts@.len() - i,
    {
        let stub = InvoiceAttachment { filename: atts[i].filename.clone(), bytes: Vec::new() };
        out.push(stub);
        i = i + 1;
    }
    out
}

/// A prefix total never exceeds the full total when every price is positive.
proof fn lemma_spec_total_grows(rows: Seq<InvoiceRow>, n: int)
    requires
        0 <= n <= rows.len(),
        forall|i: int| 0 <= i < rows.len() ==> (#[trigger] rows[i]).wf(),
    ensures
        spec_total(rows.take(n)) <= spec_total(rows),
    decreases rows.len() - n,
{
    if n < rows.len() {
        assert(rows.take(n + 1).drop_last() =~= rows.take(n));
        assert(rows.take(n + 1).last() == rows[n]);
        lemma_spec_total_grows(rows, n + 1);
    } else {
        assert(rows.take(n) =~= rows);
    }
}

} // verus!
