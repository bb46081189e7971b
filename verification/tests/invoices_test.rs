use laskugeneraattori::Error;
use laskugeneraattori::InvoiceAttachment;
use laskugeneraattori::InvoiceRow;
use laskugeneraattori::attachment_stubs;
use laskugeneraattori::check_filename;
use laskugeneraattori::total_minor_units;
use laskugeneraattori::try_handle_file;

fn row(product: &str, unit_price: i32) -> InvoiceRow {
    InvoiceRow {
        product: product.to_string(),
        unit_price,
    }
}

#[test]
fn total_is_exact_integer_sum() {
    let rows = vec![row("Product A", 1000), row("Product B", 2500)];
    assert_eq!(total_minor_units(&rows), Some(3500));
}

#[test]
fn total_of_single_row() {
    let rows = vec![row("One", 1)];
    assert_eq!(total_minor_units(&rows), Some(1));
}

#[test]
fn total_overflow_yields_none() {
    let rows = vec![
        row("Big", 2_000_000_000),
        row("Big", 2_000_000_000),
        row("Big", 2_000_000_000),
    ];
    assert_eq!(total_minor_units(&rows), None);
}

#[test]
fn accept_uppercase_file_extensions() {
    assert!(check_filename(&"TEST.PNG".to_string()));
    assert!(check_filename(&"photo.JpG".to_string()));
    assert!(check_filename(&"scan.PDF".to_string()));
}

#[test]
fn allowlist_accepts_every_listed_extension() {
    for name in ["a.jpg", "a.jpeg", "a.png", "a.gif", "a.svg", "a.pdf"] {
        assert!(check_filename(&name.to_string()), "{} should pass", name);
    }
}

#[test]
fn allowlist_rejects_other_extensions() {
    for name in ["malicious.exe", "notes.txt", "archive.pdf.zip", "pdf", "x."] {
        assert!(!check_filename(&name.to_string()), "{} should fail", name);
    }
}

#[test]
fn reject_missing_filename() {
    let r = try_handle_file(None, vec![1, 2, 3]);
    assert_eq!(r, Err(Error::MissingFilename));
}

#[test]
fn reject_unsupported_file_format() {
    let r = try_handle_file(Some("malicious.exe".to_string()), vec![1, 2, 3]);
    assert_eq!(
        r,
        Err(Error::UnsupportedFileFormat("malicious.exe".to_string()))
    );
}

#[test]
fn reject_txt_file_format() {
    let r = try_handle_file(Some("notes.txt".to_string()), b"some text content".to_vec());
    assert_eq!(r, Err(Error::UnsupportedFileFormat("notes.txt".to_string())));
}

#[test]
fn accepted_file_keeps_name_and_bytes() {
    let r = try_handle_file(Some("test.jpg".to_string()), vec![9, 8, 7]).unwrap();
    assert_eq!(r.filename, "test.jpg");
    assert_eq!(r.bytes, vec![9, 8, 7]);
}

#[test]
fn attachment_stubs_carry_names_only() {
    let atts = vec![
        InvoiceAttachment {
            filename: "test.jpg".to_string(),
            bytes: vec![1, 2, 3],
        },
        InvoiceAttachment {
            filename: "doc.pdf".to_string(),
            bytes: vec![4, 5],
        },
    ];
    let stubs = attachment_stubs(&atts);
    assert_eq!(stubs.len(), 2);
    assert_eq!(stubs[0].filename, "test.jpg");
    assert_eq!(stubs[1].filename, "doc.pdf");
    assert!(stubs[0].bytes.is_empty());
    assert!(stubs[1].bytes.is_empty());
}
