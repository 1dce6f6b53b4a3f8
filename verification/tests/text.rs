use battle_net_oauth::text::{push_decimal, push_signed_decimal, quote};
use battle_net_oauth::token::{Authority, OAuthToken, ValidatedToken};

fn decimal(n: u64) -> String {
    let mut out = String::new();
    push_decimal(&mut out, n);
    out
}

fn signed_decimal(n: i64) -> String {
    let mut out = String::new();
    push_signed_decimal(&mut out, n);
    out
}

fn sample_token() -> OAuthToken {
    OAuthToken {
        access_token: String::from("abc"),
        token_type: String::from("bearer"),
        expires_in: 3600,
    }
}

fn sample_report() -> ValidatedToken {
    ValidatedToken {
        scope: vec![String::from("sc1"), String::from("sc2")],
        exp: 1700000000,
        authorities: vec![Authority { authority: String::from("ROLE_USER") }],
        client_id: String::from("my-client"),
    }
}

#[test]
fn decimal_numerals() {
    assert_eq!(decimal(0), "0");
    assert_eq!(decimal(7), "7");
    assert_eq!(decimal(10), "10");
    assert_eq!(decimal(3600), "3600");
    assert_eq!(decimal(1000000), "1000000");
    assert_eq!(decimal(u64::MAX), "18446744073709551615");
}

#[test]
fn signed_decimal_numerals() {
    assert_eq!(signed_decimal(0), "0");
    assert_eq!(signed_decimal(-1), "-1");
    assert_eq!(signed_decimal(-120), "-120");
    assert_eq!(signed_decimal(1700000000), "1700000000");
    assert_eq!(signed_decimal(i64::MAX), "9223372036854775807");
    assert_eq!(signed_decimal(i64::MIN), "-9223372036854775808");
}

#[test]
fn numerals_are_appended_to_what_is_there() {
    let mut out = String::from("n=");
    push_decimal(&mut out, 42);
    push_signed_decimal(&mut out, -7);
    assert_eq!(out, "n=42-7");
}

#[test]
fn token_text_is_one_line_for_each_field() {
    assert_eq!(
        sample_token().to_string(),
        "access_token: abc\n token_type: bearer\n expires_in: 3600\n"
    );
}

#[test]
fn token_text_of_the_default_token() {
    assert_eq!(
        OAuthToken::default().to_string(),
        "access_token: \n token_type: \n expires_in: 0\n"
    );
}

#[test]
fn token_text_shows_every_field_and_its_value() {
    let text = sample_token().to_string();
    for part in ["access_token", "abc", "token_type", "bearer", "expires_in", "3600"] {
        assert!(text.contains(part), "{} is missing", part);
    }
}

#[test]
fn report_text_is_one_line_for_each_field() {
    assert_eq!(
        sample_report().to_string(),
        "scope: [\"sc1\", \"sc2\"]\n exp: 1700000000\n authorities: [Authority { authority: \"ROLE_USER\" }]\n client_id: my-client\n"
    );
}

#[test]
fn report_text_is_the_debug_format_where_nothing_needs_an_escape() {
    let report = ValidatedToken {
        scope: vec![String::from("wow.profile"), String::from("sc2 profile"), String::new()],
        exp: -1,
        authorities: vec![
            Authority { authority: String::from("ROLE_A") },
            Authority { authority: String::from("ROLE_B") },
        ],
        client_id: String::from("id with spaces"),
    };
    let expected = format!(
        "scope: {:?}\n exp: {:?}\n authorities: {:?}\n client_id: {}\n",
        report.scope, report.exp, report.authorities, report.client_id
    );
    assert_eq!(report.to_string(), expected);
}

#[test]
fn report_text_holds_every_value_as_it_is() {
    let report = ValidatedToken {
        scope: vec![String::from("a\"b"), String::from("tab\there"), String::from("é\\n")],
        exp: 0,
        authorities: vec![Authority { authority: String::from("back\\slash \"quoted\"") }],
        client_id: String::from("c"),
    };
    let text = report.to_string();
    assert_eq!(
        text,
        "scope: [\"a\"b\", \"tab\there\", \"é\\n\"]\n exp: 0\n authorities: [Authority { authority: \"back\\slash \"quoted\"\" }]\n client_id: c\n"
    );
    for part in ["scope", "exp", "authorities", "client_id", "a\"b", "tab\there", "é\\n", "0", "c"] {
        assert!(text.contains(part), "{} is missing", part);
    }
    assert!(text.contains("back\\slash \"quoted\""));
    assert!(!text.contains("a\\\"b"));
}

#[test]
fn report_text_of_empty_lists() {
    assert_eq!(
        ValidatedToken::default().to_string(),
        "scope: []\n exp: 0\n authorities: []\n client_id: \n"
    );
}

#[test]
fn report_text_shows_every_field_and_its_value() {
    let text = sample_report().to_string();
    for part in [
        "scope", "\"sc1\"", "\"sc2\"", "exp", "1700000000", "authorities", "\"ROLE_USER\"",
        "client_id", "my-client",
    ] {
        assert!(text.contains(part), "{} is missing", part);
    }
}

#[test]
fn authority_text_quotes_the_name() {
    let authority = Authority { authority: String::from("ROLE_USER") };
    assert_eq!(authority.to_string(), "Authority { authority: \"ROLE_USER\" }");
    assert_eq!(authority.to_string(), format!("{:?}", authority));
}

#[test]
fn authority_text_writes_the_name_as_it_is() {
    let authority = Authority { authority: String::from("a\"b\n") };
    assert_eq!(authority.to_string(), "Authority { authority: \"a\"b\n\" }");
}

#[test]
fn quoting_adds_the_two_quotes_and_nothing_else() {
    assert_eq!(quote(""), "\"\"");
    assert_eq!(quote("sc1"), "\"sc1\"");
    assert_eq!(quote("a\"b\\c"), "\"a\"b\\c\"");
}

#[test]
fn default_records_are_empty() {
    assert_eq!(
        OAuthToken::default(),
        OAuthToken { access_token: String::new(), token_type: String::new(), expires_in: 0 }
    );
    assert_eq!(Authority::default(), Authority { authority: String::new() });
    assert_eq!(
        ValidatedToken::default(),
        ValidatedToken {
            scope: Vec::new(),
            exp: 0,
            authorities: Vec::new(),
            client_id: String::new()
        }
    );
}
