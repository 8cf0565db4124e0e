use issue_url::report::IssueReport;

const BASE: &str = "https://github.com/aws/amazon-q-developer-cli/issues/new?title=";

fn report(
    title: &str,
    expected: Option<&str>,
    actual: Option<&str>,
    steps: Option<&str>,
    env: Option<&str>,
) -> IssueReport {
    IssueReport {
        title: String::from(title),
        expected_behavior: expected.map(String::from),
        actual_behavior: actual.map(String::from),
        steps_to_reproduce: steps.map(String::from),
        additional_environment: env.map(String::from),
    }
}

fn percent_decode(s: &str) -> String {
    let bytes = s.as_bytes();
    let mut out: Vec<u8> = Vec::new();
    let mut i = 0;
    while i < bytes.len() {
        if bytes[i] == 0x25 {
            let hi = (bytes[i + 1] as char).to_digit(16).unwrap() as u8;
            let lo = (bytes[i + 2] as char).to_digit(16).unwrap() as u8;
            out.push(hi * 16 + lo);
            i += 3;
        } else {
            out.push(bytes[i]);
            i += 1;
        }
    }
    String::from_utf8(out).unwrap()
}

fn query_values(url: &str) -> (String, String) {
    let after_base = url.strip_prefix(BASE).unwrap();
    let (title_value, body_value) = after_base.split_once("&body=").unwrap();
    (String::from(title_value), String::from(body_value))
}

#[test]
fn minimal_report_url() {
    let url = report("Crash on save", None, None, None, None).build();
    assert_eq!(
        url,
        "https://github.com/aws/amazon-q-developer-cli/issues/new\
         ?title=Crash%20on%20save&body="
    );
}

#[test]
fn build_is_deterministic() {
    let r = report(
        "Crash on save",
        Some("It saves"),
        Some("It crashes"),
        Some("1. Open app\n2. Click save"),
        Some("linux"),
    );
    assert_eq!(r.build(), r.build());
}

#[test]
fn absent_sections_are_omitted() {
    let url = report(
        "Crash on save",
        None,
        None,
        Some("1. Open app\n2. Click save"),
        None,
    )
    .build();
    assert_eq!(
        url,
        String::from(BASE)
            + "Crash%20on%20save&body=%23%23%23%20Steps%20to%20reproduce%0A\
               1.%20Open%20app%0A2.%20Click%20save%0A%0A"
    );
    assert!(url.contains("Steps%20to%20reproduce"));
    assert!(url.contains("%0A"));
    assert!(!url.contains("Expected"));
    assert!(!url.contains("Actual"));
    assert!(!url.contains("environment"));
}

#[test]
fn query_values_decode_to_original_text() {
    let title = "weird title & more: 100% =fun? #tag";
    let steps = "1. Open app\n2. Click save";
    let url = report(title, Some("It saves"), None, Some(steps), None).build();
    let (title_value, body_value) = query_values(&url);
    assert_eq!(percent_decode(&title_value), title);
    assert_eq!(
        percent_decode(&body_value),
        "### Expected behavior\nIt saves\n\n\
         ### Steps to reproduce\n1. Open app\n2. Click save\n\n"
    );
}

#[test]
fn all_sections_in_fixed_order() {
    let url = report("T", Some("E"), Some("A"), Some("S"), Some("V")).build();
    let (_, body_value) = query_values(&url);
    assert_eq!(
        percent_decode(&body_value),
        "### Expected behavior\nE\n\n\
         ### Actual behavior\nA\n\n\
         ### Steps to reproduce\nS\n\n\
         ### Additional environment details\nV\n\n"
    );
}

#[test]
fn reserved_characters_are_escaped() {
    let url = report("a&b=c#d%e?f", None, None, None, None).build();
    let (title_value, body_value) = query_values(&url);
    assert_eq!(title_value, "a%26b%3Dc%23d%25e%3Ff");
    assert_eq!(body_value, "");
    for c in ['&', '=', '#', '?'] {
        assert!(!title_value.contains(c));
    }
}

#[test]
fn space_and_line_breaks_are_escaped() {
    let url = report("one two", None, None, Some("a\r\nb"), None).build();
    let (title_value, body_value) = query_values(&url);
    assert_eq!(title_value, "one%20two");
    assert_eq!(
        body_value,
        "%23%23%23%20Steps%20to%20reproduce%0Aa%0D%0Ab%0A%0A"
    );
}

#[test]
fn non_ascii_title_uses_utf8_escapes() {
    let url = report("café", None, None, None, None).build();
    let (title_value, _) = query_values(&url);
    assert_eq!(title_value, "caf%C3%A9");
    assert_eq!(percent_decode(&title_value), "café");
}

#[test]
fn unreserved_characters_pass_through() {
    let url = report("Ab9-._~", None, None, None, None).build();
    let (title_value, _) = query_values(&url);
    assert_eq!(title_value, "Ab9-._~");
}

#[test]
fn body_rendering_matches_sections() {
    let r = report("T", None, Some("looks wrong"), None, None);
    assert_eq!(r.render_body(), "### Actual behavior\nlooks wrong\n\n");
    let empty = report("T", None, None, None, None);
    assert_eq!(empty.render_body(), "");
}
