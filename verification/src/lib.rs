//! Invoice document generation: a sandboxed template-compilation world,
//! payment-barcode derivation, attachment classification, and PDF merge
//! planning, with verified contracts on every step.

use vstd::prelude::*;

mod barcode;
mod error;
mod invoices;
mod json;
mod key_extractor;
mod merge;
mod pdfgen;
mod schema;
mod vfs;

pub use barcode::barcode_field;
pub use barcode::try_barcode;
pub use error::Error;
pub use error::VfsError;
pub use invoices::allowed_filename;
pub use invoices::attachment_stubs;
pub use invoices::check_filename;
pub use invoices::total_minor_units;
pub use invoices::try_handle_file;
pub use json::invoice_json;
pub use key_extractor::IpExtractor;
pub use merge::MergePlan;
pub use merge::assemble_pdfs;
pub use merge::merge_pdf;
pub use merge::render_and_merge;
pub use pdfgen::AssetCache;
pub use pdfgen::DocumentBuilder;
pub use pdfgen::FontSlot;
pub use pdfgen::Sandbox;
pub use pdfgen::is_pdf_filename;
pub use pdfgen::attachment_path;
pub use pdfgen::diagnostics_error;
pub use schema::InvoiceStatus;
pub use vfs::FileEntry;
pub use vfs::Vfs;

pub use invoices::Address;
pub use invoices::Invoice;
pub use invoices::InvoiceAttachment;
pub use invoices::InvoiceRow;

verus! {

/// Configuration for the outbound mail collaborator. The pipeline itself
/// never reads it; it is validated here and carried to the delivery layer.
#[derive(Debug, Clone)]
pub struct MailgunConfig {
    pub disable: bool,
    pub url: Option<String>,
    pub user: Option<String>,
    pub password: Option<String>,
    pub to: Option<String>,
    pub from: Option<String>,
}

/// A complete delivery configuration: every field present.
#[derive(Debug, Clone)]
pub struct MailgunSettings {
    pub url: String,
    pub user: String,
    pub password: String,
    pub to: String,
    pub from: String,
}

impl MailgunConfig {
    /// Checks the configuration: disabled delivery and each missing field
    /// are rejected with their exact message, fields checked in order.
    pub fn validate(self) -> (r: Result<MailgunSettings, String>)
        ensures
            self.disable ==> (r matches Err(m) && m@ == "mailgun is disabled"@),
            !self.disable && self.url is None ==> (r matches Err(m) && m@
                == "mailgun URL is not configured"@),
            !self.disable && self.url is Some && self.user is None ==> (r matches Err(m) && m@
                == "mailgun user is not configured"@),
            !self.disable && self.url is Some && self.user is Some && self.password is None ==> (
            r matches Err(m) && m@ == "mailgun password is not configured"@),
            !self.disable && self.url is Some && self.user is Some && self.password is Some
                && self.to is None ==> (r matches Err(m) && m@
                == "mailgun 'to' address is not configured"@),
            !self.disable && self.url is Some && self.user is Some && self.password is Some
                && self.to is Some && self.from is None ==> (r matches Err(m) && m@
                == "mailgun 'from' address is not configured"@),
            !self.disable && self.url is Some && self.user is Some && self.password is Some
                && self.to is Some && self.from is Some ==> (r matches Ok(s) && s.url
                == self.url->0 && s.user == self.user->0 && s.password == self.password->0 && s.to
                == self.to->0 && s.from == self.from->0),
    {
        if self.disable {
            return Err(String::from_str("mailgun is disabled"));
        }
        let url = match self.url {
            Some(v) => v,
            None => {
                return Err(String::from_str("mailgun URL is not configured"));
            },
        };
        let user = match self.user {
            Some(v) => v,
            None => {
                return Err(String::from_str("mailgun user is not configured"));
            },
        };
        let password = match self.password {
            Some(v) => v,
            None => {
                return Err(String::from_str("mailgun password is not configured"));
            },
        };
        let to = match self.to {
            Some(v) => v,
            None => {
                return Err(String::from_str("mailgun 'to' address is not configured"));
            },
        };
        let from = match self.from {
            Some(v) => v,
            None => {
                return Err(String::from_str("mailgun 'from' address is not configured"));
            },
        };
        Ok(MailgunSettings { url, user, password, to, from })
    }
}

} // verus!
