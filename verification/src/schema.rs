//! Marker types mirroring the database schema's custom column types.
//! The pipeline never inspects them; persistence is an external collaborator.

use vstd::prelude::*;

verus! {

/// The database's custom `invoice_status` column type.
pub struct InvoiceStatus;

} // verus!
