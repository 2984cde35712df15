use wtmm::purchase::Purchase;
use wtmm::report::{PurchaseDigest, Report, ReportType, TryFromReportTypeError};

#[test]
fn test_report_generation() {
    let purchases = vec![
        Purchase::new("email", 100, "APPLE", 1),
        Purchase::new("email", 300, "KENMORE", 2),
        Purchase::new("email", 400, "DELL", 3),
        Purchase::new("email", 500, "USB", 4),
    ];

    let report = Report::PurchaseDigest(PurchaseDigest::new(purchases, 1, 4));

    let body = report.get_text_body().unwrap();

    println!("{body}");

    assert!(body.contains("$13.00"));
    // Only the first three transactions are displayed
    assert!(!body.contains("USB"));

    // For now
    assert_eq!(report.get_html_body(), None);
}

#[test]
fn test_report_generation_no_transactions() {
    let purchases: Vec<Purchase> = Vec::new();

    let report = Report::PurchaseDigest(PurchaseDigest::new(purchases, 1, 4));

    let body = report.get_text_body().unwrap();

    println!("{body}");
    assert!(body.contains("No transactions from"));
}

#[test]
fn test_report_period_dates_are_rendered() {
    let report = Report::PurchaseDigest(PurchaseDigest::new(Vec::new(), 1, 86_400));
    let body = report.get_text_body().unwrap();
    // One second and one day past the epoch: Thursday and Friday, 1 Jan 1970.
    assert!(body.contains("Thu, 1 Jan 1970"));
    assert!(body.contains("Fri, 2 Jan 1970"));
    assert!(body.contains("$0.00"));
}

#[test]
fn test_report_subject() {
    let report = Report::PurchaseDigest(PurchaseDigest::new(Vec::new(), 0, 0));
    assert_eq!(report.get_subject(), "Your Purchase Digest Report is here");
}

#[test]
fn test_digest_getters() {
    let digest = PurchaseDigest::new(vec![Purchase::new("email", 1, "A", 2)], 10, 20);
    assert_eq!(digest.get_period_start(), 10);
    assert_eq!(digest.get_period_end(), 20);
    assert_eq!(digest.get_purchases().len(), 1);
    assert_eq!(digest.render_html(), None);
}

#[test]
fn test_report_type_try_from() {
    assert_eq!(
        ReportType::try_from(String::from("purchase_digest")).unwrap(),
        ReportType::PurchaseDigest
    );
    assert_eq!(
        ReportType::try_from(String::from("PURCHASE_DIGEST")).unwrap(),
        ReportType::PurchaseDigest
    );
    let err: TryFromReportTypeError =
        ReportType::try_from(String::from("unknown")).err().unwrap();
    assert_eq!(err.0, "UNKNOWN");
}

#[test]
fn test_date_formatting() {
    let ten_days_ago = chrono::Utc::now()
        .checked_sub_signed(chrono::Duration::days(10))
        .unwrap();

    let formatted = wtmm::report::format_date(ten_days_ago.timestamp()).unwrap();

    println!("{} {}", formatted, ten_days_ago.to_rfc2822());

    assert!(ten_days_ago.to_rfc2822().contains(&formatted));
}
