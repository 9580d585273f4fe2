use master::dotenv::parse_dotenv;

fn pairs(v: &[(&str, &str)]) -> Vec<(String, String)> {
    v.iter().map(|(k, v)| (k.to_string(), v.to_string())).collect()
}

#[test]
fn assignments_are_read_line_by_line() {
    let content = "# comment\nDATABASE_URL = postgres://x \n\n  NORO_NAME=\"Noro\"\r\nBROKEN LINE\nEMPTY=\nA=b=c\n";
    assert_eq!(
        parse_dotenv(content),
        pairs(&[("DATABASE_URL", "postgres://x"), ("NORO_NAME", "Noro"), ("EMPTY", ""), ("A", "b=c")])
    );
}

#[test]
fn quotes_are_stripped_from_both_ends() {
    assert_eq!(parse_dotenv("K=\"\"v\"\""), pairs(&[("K", "v")]));
    assert_eq!(parse_dotenv("K=\"\"\""), pairs(&[("K", "")]));
    assert_eq!(parse_dotenv("K=\"a b\" "), pairs(&[("K", "a b")]));
    assert!(parse_dotenv("").is_empty());
    assert!(parse_dotenv("   # K=v").is_empty());
}

#[test]
fn a_written_line_reads_back() {
    for (k, v) in [("NORO_BIND", "0.0.0.0:8080"), ("K", ""), ("PATH_LIKE", "a b=c")] {
        assert_eq!(parse_dotenv(&format!("{k}={v}")), pairs(&[(k, v)]));
    }
}
