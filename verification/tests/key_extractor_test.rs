use laskugeneraattori::IpExtractor;

#[test]
fn ip_extractor_implements_copy() {
    let extractor = IpExtractor::header_extractor("x-forwarded-for");
    let _extractor_copy = extractor;
    let _extractor_again = extractor;
}

#[test]
fn header_extractor_keeps_header_name() {
    let extractor = IpExtractor::header_extractor("x-real-ip");
    match extractor {
        IpExtractor::HeaderKeyExtractor { header_name } => assert_eq!(header_name, "x-real-ip"),
        IpExtractor::PeerIpKeyExtractor => panic!("wrong variant"),
    }
}
