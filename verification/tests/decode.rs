use battle_net_oauth::decode::{first_written, written_at_most_once, DecodeError};
use battle_net_oauth::token::{Authority, OAuthToken, ValidatedToken};

fn report(scope: &[&str], exp: i64, authorities: &[&str], client_id: &str) -> ValidatedToken {
    ValidatedToken {
        scope: scope.iter().map(|s| String::from(*s)).collect(),
        exp,
        authorities: authorities
            .iter()
            .map(|a| Authority { authority: String::from(*a) })
            .collect(),
        client_id: String::from(client_id),
    }
}

#[test]
fn decodes_a_token_response() {
    let body = br#"{"access_token":"abc","token_type":"bearer","expires_in":3600}"#;
    assert_eq!(
        OAuthToken::decode(body),
        Ok(OAuthToken {
            access_token: String::from("abc"),
            token_type: String::from("bearer"),
            expires_in: 3600,
        })
    );
}

#[test]
fn decodes_an_introspection_response() {
    let body = br#"{"scope":["sc1","sc2"],"exp":1700000000,"authorities":[{"authority":"ROLE_USER"}],"client_id":"my-client"}"#;
    assert_eq!(
        ValidatedToken::decode(body),
        Ok(report(&["sc1", "sc2"], 1700000000, &["ROLE_USER"], "my-client"))
    );
}

#[test]
fn an_error_answer_is_refused() {
    let body = br#"{"error":"invalid_client","error_description":"Bad client credentials"}"#;
    assert_eq!(OAuthToken::decode(body), Err(DecodeError::UnexpectedShape));
    assert_eq!(ValidatedToken::decode(body), Err(DecodeError::UnexpectedShape));
}

#[test]
fn a_body_that_is_not_json_is_refused() {
    for body in [
        &b""[..],
        &b"<html><body>502 Bad Gateway</body></html>"[..],
        &b"{"[..],
        &b"{\"access_token\":\"abc\""[..],
        &b"{} {}"[..],
        &b"{'access_token':'abc'}"[..],
        &[0xff, 0xfe][..],
    ] {
        assert_eq!(OAuthToken::decode(body), Err(DecodeError::InvalidJson));
        assert_eq!(ValidatedToken::decode(body), Err(DecodeError::InvalidJson));
    }
}

#[test]
fn a_document_that_is_no_object_is_refused() {
    for body in [
        &b"null"[..],
        &b"true"[..],
        &b"3600"[..],
        &b"\"abc\""[..],
        &b"[]"[..],
        &b"[\"abc\",\"bearer\",3600]"[..],
    ] {
        assert_eq!(OAuthToken::decode(body), Err(DecodeError::UnexpectedShape));
        assert_eq!(ValidatedToken::decode(body), Err(DecodeError::UnexpectedShape));
    }
}

#[test]
fn a_token_response_without_a_field_is_refused() {
    for body in [
        &br#"{}"#[..],
        &br#"{"token_type":"bearer","expires_in":3600}"#[..],
        &br#"{"access_token":"abc","expires_in":3600}"#[..],
        &br#"{"access_token":"abc","token_type":"bearer"}"#[..],
        &br#"{"Access_Token":"abc","token_type":"bearer","expires_in":3600}"#[..],
    ] {
        assert_eq!(OAuthToken::decode(body), Err(DecodeError::UnexpectedShape));
    }
}

#[test]
fn a_token_response_with_a_field_of_another_type_is_refused() {
    for body in [
        &br#"{"access_token":1,"token_type":"bearer","expires_in":3600}"#[..],
        &br#"{"access_token":null,"token_type":"bearer","expires_in":3600}"#[..],
        &br#"{"access_token":"abc","token_type":["bearer"],"expires_in":3600}"#[..],
        &br#"{"access_token":"abc","token_type":"bearer","expires_in":"3600"}"#[..],
        &br#"{"access_token":"abc","token_type":"bearer","expires_in":3600.5}"#[..],
        &br#"{"access_token":"abc","token_type":"bearer","expires_in":3600.0}"#[..],
        &br#"{"access_token":"abc","token_type":"bearer","expires_in":36e2}"#[..],
        &br#"{"access_token":"abc","token_type":"bearer","expires_in":-1}"#[..],
        &br#"{"access_token":"abc","token_type":"bearer","expires_in":18446744073709551616}"#[..],
        &br#"{"access_token":"abc","token_type":"bearer","expires_in":null}"#[..],
    ] {
        assert_eq!(OAuthToken::decode(body), Err(DecodeError::UnexpectedShape));
    }
}

#[test]
fn members_that_the_record_does_not_have_are_ignored() {
    let body = br#"{"sub":"x","access_token":"abc","nested":{"a":[1,2.5,null]},"token_type":"bearer","expires_in":86399,"scope":null}"#;
    assert_eq!(
        OAuthToken::decode(body),
        Ok(OAuthToken {
            access_token: String::from("abc"),
            token_type: String::from("bearer"),
            expires_in: 86399,
        })
    );
}

#[test]
fn white_space_around_the_document_is_accepted() {
    let body = b" \n{ \"access_token\" : \"a\" ,\t\"token_type\" : \"b\" , \"expires_in\" : 0 }\r\n";
    assert_eq!(
        OAuthToken::decode(body),
        Ok(OAuthToken {
            access_token: String::from("a"),
            token_type: String::from("b"),
            expires_in: 0,
        })
    );
}

#[test]
fn texts_are_unescaped() {
    let body = r#"{"access_token":"a\"b\\cé\n\u0041","token_type":"","expires_in":1}"#;
    assert_eq!(
        OAuthToken::decode(body.as_bytes()),
        Ok(OAuthToken {
            access_token: String::from("a\"b\\cé\nA"),
            token_type: String::new(),
            expires_in: 1,
        })
    );
}

#[test]
fn the_largest_number_of_seconds_is_accepted() {
    let body = format!(
        "{{\"access_token\":\"a\",\"token_type\":\"b\",\"expires_in\":{}}}",
        usize::MAX
    );
    assert_eq!(
        OAuthToken::decode(body.as_bytes()),
        Ok(OAuthToken {
            access_token: String::from("a"),
            token_type: String::from("b"),
            expires_in: usize::MAX,
        })
    );
}

#[test]
fn an_expiry_may_be_negative() {
    let body = br#"{"scope":[],"exp":-1,"authorities":[],"client_id":""}"#;
    assert_eq!(ValidatedToken::decode(body), Ok(report(&[], -1, &[], "")));
    let body = br#"{"scope":[],"exp":-9223372036854775808,"authorities":[],"client_id":"c"}"#;
    assert_eq!(ValidatedToken::decode(body), Ok(report(&[], i64::MIN, &[], "c")));
    let body = br#"{"scope":[],"exp":9223372036854775807,"authorities":[],"client_id":"c"}"#;
    assert_eq!(ValidatedToken::decode(body), Ok(report(&[], i64::MAX, &[], "c")));
}

#[test]
fn an_expiry_outside_the_range_is_refused() {
    for body in [
        &br#"{"scope":[],"exp":9223372036854775808,"authorities":[],"client_id":"c"}"#[..],
        &br#"{"scope":[],"exp":-9223372036854775809,"authorities":[],"client_id":"c"}"#[..],
        &br#"{"scope":[],"exp":1.5,"authorities":[],"client_id":"c"}"#[..],
        &br#"{"scope":[],"exp":"1700000000","authorities":[],"client_id":"c"}"#[..],
    ] {
        assert_eq!(ValidatedToken::decode(body), Err(DecodeError::UnexpectedShape));
    }
}

#[test]
fn an_introspection_response_without_a_field_is_refused() {
    for body in [
        &br#"{"exp":1,"authorities":[],"client_id":"c"}"#[..],
        &br#"{"scope":[],"authorities":[],"client_id":"c"}"#[..],
        &br#"{"scope":[],"exp":1,"client_id":"c"}"#[..],
        &br#"{"scope":[],"exp":1,"authorities":[]}"#[..],
    ] {
        assert_eq!(ValidatedToken::decode(body), Err(DecodeError::UnexpectedShape));
    }
}

#[test]
fn lists_of_another_shape_are_refused() {
    for body in [
        &br#"{"scope":"sc1","exp":1,"authorities":[],"client_id":"c"}"#[..],
        &br#"{"scope":["sc1",2],"exp":1,"authorities":[],"client_id":"c"}"#[..],
        &br#"{"scope":[["sc1"]],"exp":1,"authorities":[],"client_id":"c"}"#[..],
        &br#"{"scope":null,"exp":1,"authorities":[],"client_id":"c"}"#[..],
        &br#"{"scope":[],"exp":1,"authorities":{"authority":"A"},"client_id":"c"}"#[..],
        &br#"{"scope":[],"exp":1,"authorities":["A"],"client_id":"c"}"#[..],
        &br#"{"scope":[],"exp":1,"authorities":[{"authority":"A"},{}],"client_id":"c"}"#[..],
        &br#"{"scope":[],"exp":1,"authorities":[{"authority":1}],"client_id":"c"}"#[..],
        &br#"{"scope":[],"exp":1,"authorities":[{"Authority":"A"}],"client_id":"c"}"#[..],
        &br#"{"scope":[],"exp":1,"authorities":[],"client_id":7}"#[..],
    ] {
        assert_eq!(ValidatedToken::decode(body), Err(DecodeError::UnexpectedShape));
    }
}

#[test]
fn lists_keep_their_order() {
    let body = br#"{"client_id":"c","authorities":[{"authority":"B","x":1},{"authority":"A"},{"authority":"B"}],"exp":5,"scope":["z","a","z",""]}"#;
    assert_eq!(
        ValidatedToken::decode(body),
        Ok(report(&["z", "a", "z", ""], 5, &["B", "A", "B"], "c"))
    );
}

#[test]
fn records_are_read_from_json_values() {
    let value: serde_json::Value =
        serde_json::from_str(r#"{"access_token":"abc","token_type":"bearer","expires_in":3600}"#)
            .unwrap();
    assert_eq!(
        OAuthToken::from_json(&value),
        Some(OAuthToken {
            access_token: String::from("abc"),
            token_type: String::from("bearer"),
            expires_in: 3600,
        })
    );
    assert_eq!(ValidatedToken::from_json(&value), None);
    assert_eq!(Authority::from_json(&value), None);
    let value: serde_json::Value = serde_json::from_str(r#"{"authority":"ROLE_USER"}"#).unwrap();
    assert_eq!(
        Authority::from_json(&value),
        Some(Authority { authority: String::from("ROLE_USER") })
    );
    assert_eq!(OAuthToken::from_json(&value), None);
    assert_eq!(OAuthToken::from_json(&serde_json::Value::Null), None);
}

#[test]
fn a_token_response_that_writes_a_field_twice_is_refused() {
    for body in [
        &br#"{"access_token":"a","access_token":"b","token_type":"t","expires_in":1}"#[..],
        &br#"{"access_token":"a","token_type":"t","expires_in":1,"access_token":"a"}"#[..],
        &br#"{"access_token":5,"access_token":"a","token_type":"t","expires_in":1}"#[..],
        &br#"{"access_token":"a","token_type":"t","token_type":"t","expires_in":1}"#[..],
        &br#"{"access_token":"a","token_type":"t","expires_in":1,"expires_in":2}"#[..],
        &br#"{"expires_in":1,"access_token":"a","token_type":"t","expires_in":1,"x":0}"#[..],
    ] {
        assert_eq!(OAuthToken::decode(body), Err(DecodeError::UnexpectedShape));
    }
}

#[test]
fn other_members_may_be_written_twice() {
    let body = br#"{"sub":1,"access_token":"a","sub":2,"token_type":"t","expires_in":1,"n":{"access_token":1,"access_token":2}}"#;
    assert_eq!(
        OAuthToken::decode(body),
        Ok(OAuthToken {
            access_token: String::from("a"),
            token_type: String::from("t"),
            expires_in: 1,
        })
    );
    let body = br#"{"x":[],"scope":["s"],"exp":1,"x":{},"authorities":[{"authority":"A","x":1,"x":2}],"client_id":"c"}"#;
    assert_eq!(ValidatedToken::decode(body), Ok(report(&["s"], 1, &["A"], "c")));
}

#[test]
fn an_introspection_response_that_writes_a_field_twice_is_refused() {
    for body in [
        &br#"{"scope":[],"scope":[],"exp":1,"authorities":[],"client_id":"c"}"#[..],
        &br#"{"scope":[],"exp":1,"exp":1,"authorities":[],"client_id":"c"}"#[..],
        &br#"{"scope":[],"exp":1,"authorities":[],"authorities":[],"client_id":"c"}"#[..],
        &br#"{"scope":[],"exp":1,"authorities":"x","authorities":[],"client_id":"c"}"#[..],
        &br#"{"scope":[],"exp":1,"authorities":[],"client_id":"c","client_id":"d"}"#[..],
    ] {
        assert_eq!(ValidatedToken::decode(body), Err(DecodeError::UnexpectedShape));
    }
}

#[test]
fn an_authority_that_writes_its_name_twice_is_refused() {
    for body in [
        &br#"{"scope":[],"exp":1,"authorities":[{"authority":"A","authority":"B"}],"client_id":"c"}"#[..],
        &br#"{"scope":[],"exp":1,"authorities":[{"authority":"A"},{"authority":"B","authority":"B"}],"client_id":"c"}"#[..],
        &br#"{"scope":[],"exp":1,"authorities":[ { "authority" : 1 , "authority" : "B" } ],"client_id":"c"}"#[..],
    ] {
        assert_eq!(ValidatedToken::decode(body), Err(DecodeError::UnexpectedShape));
    }
    let body = br#"{"scope":[],"exp":1,"authorities":[ {"authority":"A"} , {"authority":"B"} ],"client_id":"c"}"#;
    assert_eq!(ValidatedToken::decode(body), Ok(report(&[], 1, &["A", "B"], "c")));
}

#[test]
fn written_members_are_counted_by_name() {
    let members = vec![
        (String::from("a"), b"1".to_vec()),
        (String::from("b"), b"2".to_vec()),
        (String::from("a"), b"3".to_vec()),
    ];
    assert!(!written_at_most_once(&members, "a"));
    assert!(written_at_most_once(&members, "b"));
    assert!(written_at_most_once(&members, "c"));
    assert!(written_at_most_once(&Vec::new(), "a"));
    assert_eq!(first_written(&members, "a"), Some(&b"1".to_vec()));
    assert_eq!(first_written(&members, "b"), Some(&b"2".to_vec()));
    assert_eq!(first_written(&members, "c"), None);
}
