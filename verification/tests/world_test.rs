use laskugeneraattori::Address;
use laskugeneraattori::DocumentBuilder;
use laskugeneraattori::FontSlot;
use laskugeneraattori::Invoice;
use laskugeneraattori::InvoiceAttachment;
use laskugeneraattori::InvoiceRow;
use laskugeneraattori::Sandbox;
use laskugeneraattori::VfsError;
use laskugeneraattori::diagnostics_error;
use laskugeneraattori::is_pdf_filename;
use laskugeneraattori::Error;
use laskugeneraattori::attachment_path;

fn sample_invoice() -> Invoice {
    Invoice {
        recipient_name: "Test User".to_string(),
        recipient_email: "test@example.com".to_string(),
        address: Address {
            street: "Street 1".to_string(),
            city: "City".to_string(),
            zip: "00100".to_string(),
        },
        bank_account_number: "FI2112345600000785".to_string(),
        subject: "Test Invoice".to_string(),
        description: String::new(),
        phone_number: "+358401234567".to_string(),
        attachment_descriptions: Vec::new(),
        rows: vec![InvoiceRow {
            product: "Product".to_string(),
            unit_price: 1000,
        }],
        attachments: Vec::new(),
    }
}

fn base_world() -> Sandbox {
    Sandbox::new("#set page(width: 10cm)".to_string(), vec![7, 7, 7], 0)
}

fn att(name: &str, bytes: &[u8]) -> InvoiceAttachment {
    InvoiceAttachment {
        filename: name.to_string(),
        bytes: bytes.to_vec(),
    }
}

#[test]
fn pdf_filenames_are_classified_case_insensitively() {
    assert!(is_pdf_filename("receipt.pdf"));
    assert!(is_pdf_filename("RECEIPT.PDF"));
    assert!(is_pdf_filename("r.PdF"));
    assert!(!is_pdf_filename("image.png"));
    assert!(!is_pdf_filename("pdf"));
    assert!(!is_pdf_filename("x.pdfx"));
}

#[test]
fn world_is_seeded_with_logo() {
    let world = base_world();
    assert_eq!(world.file(&"/tik.png".to_string()), Ok(&vec![7, 7, 7]));
    assert_eq!(
        world.file(&"/missing".to_string()),
        Err(VfsError::NotFound("/missing".to_string()))
    );
}

#[test]
fn build_routes_inline_and_pdf_attachments() {
    let builder = DocumentBuilder::new(
        sample_invoice(),
        vec![
            att("test.jpg", &[1, 2]),
            att("doc.pdf", &[3, 4]),
            att("logo.svg", &[5]),
        ],
    );
    let (world, pdfs) = builder.build_with_pdfs(base_world());
    assert_eq!(pdfs.len(), 1);
    assert_eq!(pdfs[0].filename, "doc.pdf");
    assert_eq!(pdfs[0].bytes, vec![3, 4]);
    assert_eq!(
        world.file(&"/attachments/test.jpg".to_string()),
        Ok(&vec![1, 2])
    );
    assert_eq!(
        world.file(&"/attachments/logo.svg".to_string()),
        Ok(&vec![5])
    );
    assert_eq!(
        world.file(&"/attachments/doc.pdf".to_string()),
        Err(VfsError::NotFound("/attachments/doc.pdf".to_string()))
    );
}

#[test]
fn pdf_attachment_order_is_submission_order() {
    let builder = DocumentBuilder::new(
        sample_invoice(),
        vec![
            att("b.pdf", &[2]),
            att("a.png", &[9]),
            att("a.pdf", &[1]),
            att("c.pdf", &[3]),
        ],
    );
    let (_, pdfs) = builder.build_with_pdfs(base_world());
    let names: Vec<&str> = pdfs.iter().map(|a| a.filename.as_str()).collect();
    assert_eq!(names, vec!["b.pdf", "a.pdf", "c.pdf"]);
}

#[test]
fn duplicate_inline_filename_overwrites() {
    let builder = DocumentBuilder::new(
        sample_invoice(),
        vec![att("test.jpg", &[1, 1]), att("test.jpg", &[2, 2, 2])],
    );
    let (world, pdfs) = builder.build_with_pdfs(base_world());
    assert!(pdfs.is_empty());
    assert_eq!(
        world.file(&"/attachments/test.jpg".to_string()),
        Ok(&vec![2, 2, 2])
    );
}

#[test]
fn build_injects_payload() {
    let builder = DocumentBuilder::new(sample_invoice(), Vec::new());
    let world = builder.build(base_world());
    let value: serde_json::Value =
        serde_json::from_str(world.data()).expect("payload must parse");
    assert_eq!(value["recipient_name"], "Test User");
}

#[test]
fn today_at_epoch_is_day_one() {
    let world = base_world();
    assert_eq!(world.today(None), Some((1970, 1, 1)));
    assert_eq!(world.today(Some(0)), Some((1970, 1, 1)));
}

#[test]
fn today_respects_negative_offset() {
    let world = base_world();
    assert_eq!(world.today(Some(-1)), Some((1969, 12, 31)));
}

#[test]
fn today_rejects_impossible_offsets() {
    let world = base_world();
    assert_eq!(world.today(Some(26)), None);
    assert_eq!(world.today(Some(-26)), None);
    assert_eq!(world.today(Some(1000)), None);
}

#[test]
fn font_slot_decodes_real_font_once() {
    let data = typst_assets::fonts().next().expect("bundled fonts").to_vec();
    let mut slot = FontSlot::new(data, 0);
    let first = slot.get();
    assert!(first.is_some());
    let second = slot.get();
    assert!(second.is_some());
}

#[test]
fn font_slot_remembers_failure() {
    let mut slot = FontSlot::new(vec![0, 1, 2, 3], 0);
    assert!(slot.get().is_none());
    assert!(slot.get().is_none());
}

#[test]
fn diagnostics_are_joined_with_newlines() {
    let err = diagnostics_error(vec!["first error".to_string(), "second error".to_string()]);
    assert_eq!(
        err,
        Error::TypstError("first error\nsecond error".to_string())
    );
}

#[test]
fn single_diagnostic_is_unchanged() {
    let err = diagnostics_error(vec!["only".to_string()]);
    assert_eq!(err, Error::TypstError("only".to_string()));
}

#[test]
fn attachment_paths_follow_the_convention() {
    assert_eq!(
        attachment_path(&"test.jpg".to_string()),
        "/attachments/test.jpg"
    );
}

#[test]
fn zero_attachments_leave_the_world_bare() {
    let builder = DocumentBuilder::new(sample_invoice(), Vec::new());
    let (world, pdfs) = builder.build_with_pdfs(base_world());
    assert!(pdfs.is_empty());
    assert_eq!(world.file(&"/tik.png".to_string()), Ok(&vec![7, 7, 7]));
    assert_eq!(
        world.file(&"/attachments/anything.png".to_string()),
        Err(VfsError::NotFound("/attachments/anything.png".to_string()))
    );
}
