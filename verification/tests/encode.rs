use battle_net_oauth::token::{Authority, OAuthToken, ValidatedToken};

fn tokens() -> Vec<OAuthToken> {
    vec![
        OAuthToken::default(),
        OAuthToken {
            access_token: String::from("abc"),
            token_type: String::from("bearer"),
            expires_in: 3600,
        },
        OAuthToken {
            access_token: String::from("quote \" back \\ line \n é \u{1F600}"),
            token_type: String::from("Bearer"),
            expires_in: usize::MAX,
        },
    ]
}

fn reports() -> Vec<ValidatedToken> {
    vec![
        ValidatedToken::default(),
        ValidatedToken {
            scope: vec![String::from("sc1"), String::from("sc2")],
            exp: 1700000000,
            authorities: vec![Authority { authority: String::from("ROLE_USER") }],
            client_id: String::from("my-client"),
        },
        ValidatedToken {
            scope: vec![String::new(), String::from("a b"), String::from("a b")],
            exp: i64::MIN,
            authorities: vec![
                Authority { authority: String::from("\"") },
                Authority { authority: String::new() },
            ],
            client_id: String::from("é"),
        },
        ValidatedToken {
            scope: Vec::new(),
            exp: i64::MAX,
            authorities: Vec::new(),
            client_id: String::from("c"),
        },
    ]
}

#[test]
fn a_token_is_described_by_an_object_of_its_fields() {
    let token = OAuthToken {
        access_token: String::from("abc"),
        token_type: String::from("bearer"),
        expires_in: 3600,
    };
    let expected: serde_json::Value =
        serde_json::from_str(r#"{"access_token":"abc","token_type":"bearer","expires_in":3600}"#)
            .unwrap();
    assert_eq!(token.to_json(), expected);
}

#[test]
fn an_authority_is_described_by_an_object_of_its_name() {
    let authority = Authority { authority: String::from("ROLE_USER") };
    let expected: serde_json::Value = serde_json::from_str(r#"{"authority":"ROLE_USER"}"#).unwrap();
    assert_eq!(authority.to_json(), expected);
}

#[test]
fn a_report_is_described_by_an_object_of_its_fields() {
    let report = ValidatedToken {
        scope: vec![String::from("sc1"), String::from("sc2")],
        exp: -5,
        authorities: vec![
            Authority { authority: String::from("ROLE_USER") },
            Authority { authority: String::from("ROLE_ADMIN") },
        ],
        client_id: String::from("my-client"),
    };
    let expected: serde_json::Value = serde_json::from_str(
        r#"{"scope":["sc1","sc2"],"exp":-5,"authorities":[{"authority":"ROLE_USER"},{"authority":"ROLE_ADMIN"}],"client_id":"my-client"}"#,
    )
    .unwrap();
    assert_eq!(report.to_json(), expected);
}

#[test]
fn a_token_comes_back_from_its_json_value() {
    for token in tokens() {
        assert_eq!(OAuthToken::from_json(&token.to_json()), Some(token));
    }
}

#[test]
fn a_token_comes_back_from_its_json_text() {
    for token in tokens() {
        let text = serde_json::to_vec(&token.to_json()).unwrap();
        assert_eq!(OAuthToken::decode(&text), Ok(token));
    }
}

#[test]
fn an_authority_comes_back_from_its_json_value() {
    for name in ["", "ROLE_USER", "a\"b"] {
        let authority = Authority { authority: String::from(name) };
        assert_eq!(Authority::from_json(&authority.to_json()), Some(authority));
    }
}

#[test]
fn a_report_comes_back_from_its_json_value() {
    for report in reports() {
        assert_eq!(ValidatedToken::from_json(&report.to_json()), Some(report));
    }
}

#[test]
fn a_report_comes_back_from_its_json_text() {
    for report in reports() {
        let text = serde_json::to_vec(&report.to_json()).unwrap();
        assert_eq!(ValidatedToken::decode(&text), Ok(report));
    }
}
