//! Derivation of the national payment barcode from an invoice's bank
//! account number and its integer total.
//!
//! Failure here is non-fatal by design: the orchestrator substitutes an
//! empty barcode string and document generation continues.

use vstd::prelude::*;

use crate::invoices::Invoice;
use crate::invoices::spec_total;
use crate::invoices::total_minor_units;

verus! {

/// The barcode digit string the generator yields for an account number and
/// a total in minor units, when it yields one. The generator's result
/// depends on these two values alone.
pub uninterp spec fn barcode_of(account: Seq<char>, total: u32) -> Option<Seq<char>>;

/// Relies on `bank_barcode::BarcodeBuilder::build` (barcode version 4) and
/// the display form of the barcode it yields: the digit string is a
/// function of the account number and the total alone; building fails
/// exactly when the account is not a valid Finnish IBAN or the total
/// overflows the format's six-digit euro field, and a successful barcode
/// is always 54 digits (one version digit, 16 account digits, 8 amount
/// digits, 23 reference digits, 6 due-date digits).
#[verifier::external_body]
fn build_barcode(account: &String, total: u32) -> (r: Option<String>)
    ensures
        (r is Some) == (barcode_of(account@, total) is Some),
        r matches Some(s) ==> barcode_of(account@, total) == Some(s@) && s@.len() == 54,
        total >= 99_999_900 ==> r is None,
{
    let barcode = bank_barcode::BarcodeBuilder::v4()
        .account_number(account)
        .sum(total)
        .build()
        .ok()?;
    Some(barcode.to_string())
}

/// The barcode an invoice gets, when it gets one: the generator applied to
/// its account number and its exact row total.
pub open spec fn spec_invoice_barcode(i: Invoice) -> Option<Seq<char>> {
    if spec_total(i.rows@) <= u32::MAX {
        barcode_of(i.bank_account_number@, spec_total(i.rows@) as u32)
    } else {
        None
    }
}

/// The barcode text carried in the data payload: the barcode when one
/// could be built, the empty string otherwise.
pub open spec fn spec_barcode_field(i: Invoice) -> Seq<char> {
    match spec_invoice_barcode(i) {
        Some(s) => s,
        None => Seq::empty(),
    }
}

/// Builds the payment barcode for `invoice`: its exact integer total and
/// its account number, in the version-4 format. `None` exactly when the
/// generator cannot encode the pair.
pub fn try_barcode(invoice: &Invoice) -> (r: Option<String>)
    requires
        invoice.wf(),
    ensures
        (r is Some) == (spec_invoice_barcode(*invoice) is Some),
        r matches Some(s) ==> spec_invoice_barcode(*invoice) == Some(s@) && s@.len() == 54,
{
    match total_minor_units(&invoice.rows) {
        Some(total) => build_barcode(&invoice.bank_account_number, total),
        None => None,
    }
}

/// The barcode field of the data payload: the built barcode, or the empty
/// string when building fails — a failed barcode never aborts generation.
pub fn barcode_field(invoice: &Invoice) -> (r: String)
    requires
        invoice.wf(),
    ensures
        r@ == spec_barcode_field(*invoice),
{
    match try_barcode(invoice) {
        Some(s) => s,
        None => String::new(),
    }
}

/// Law: the barcode generator is deterministic. Two invoices with the same
/// account number and the same rows are assigned the same barcode field,
/// across any two invocations.
pub proof fn lemma_barcode_deterministic(a: Invoice, b: Invoice)
    requires
        a.bank_account_number@ == b.bank_account_number@,
        a.rows@ == b.rows@,
    ensures
        spec_barcode_field(a) == spec_barcode_field(b),
{
}

} // verus!
