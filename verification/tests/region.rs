use battle_net_oauth::region::{
    check_token_endpoint, host_for_code, host_for_region, to_lowercase, token_endpoint,
};

#[test]
fn regional_hosts_are_the_lower_cased_code_before_the_domain() {
    assert_eq!(host_for_region("us"), "us.battle.net");
    assert_eq!(host_for_region("US"), "us.battle.net");
    assert_eq!(host_for_region("Eu"), "eu.battle.net");
    assert_eq!(host_for_region("APAC"), "apac.battle.net");
    assert_eq!(host_for_region("kR"), "kr.battle.net");
    assert_eq!(host_for_region("TW"), "tw.battle.net");
}

#[test]
fn china_has_a_fixed_host_in_any_case() {
    assert_eq!(host_for_region("cn"), "www.battlenet.com.cn");
    assert_eq!(host_for_region("CN"), "www.battlenet.com.cn");
    assert_eq!(host_for_region("Cn"), "www.battlenet.com.cn");
    assert_eq!(host_for_region("cN"), "www.battlenet.com.cn");
}

#[test]
fn codes_that_only_resemble_cn_are_regional() {
    assert_eq!(host_for_region("cnn"), "cnn.battle.net");
    assert_eq!(host_for_region("c"), "c.battle.net");
    assert_eq!(host_for_region(" cn"), " cn.battle.net");
}

#[test]
fn unknown_regions_are_not_checked() {
    assert_eq!(host_for_region("nowhere"), "nowhere.battle.net");
    assert_eq!(host_for_region(""), ".battle.net");
    assert_eq!(host_for_region("x-1_Y"), "x-1_y.battle.net");
}

#[test]
fn token_endpoints() {
    assert_eq!(token_endpoint("us"), "https://us.battle.net/oauth/token");
    assert_eq!(token_endpoint("EU"), "https://eu.battle.net/oauth/token");
    assert_eq!(token_endpoint("CN"), "https://www.battlenet.com.cn/oauth/token");
}

#[test]
fn check_token_endpoints() {
    assert_eq!(check_token_endpoint("us"), "https://us.battle.net/oauth/check_token");
    assert_eq!(check_token_endpoint("Kr"), "https://kr.battle.net/oauth/check_token");
    assert_eq!(check_token_endpoint("cn"), "https://www.battlenet.com.cn/oauth/check_token");
}

#[test]
fn ascii_text_is_lower_cased_letter_by_letter() {
    assert_eq!(to_lowercase("ABCXYZ"), "abcxyz");
    assert_eq!(to_lowercase("abcxyz"), "abcxyz");
    assert_eq!(to_lowercase("@[`{ 09~"), "@[`{ 09~");
    assert_eq!(to_lowercase(""), "");
}

#[test]
fn lower_casing_agrees_with_the_standard_library_on_ascii() {
    let mut all = String::new();
    for code in 0u8..128 {
        all.push(code as char);
    }
    assert_eq!(to_lowercase(&all), all.to_lowercase());
}

#[test]
fn other_text_is_lower_cased_by_unicode_rules() {
    assert_eq!(to_lowercase("ÄÖ"), "äö");
    assert_eq!(to_lowercase("ΑΒΓ"), "αβγ");
    assert_eq!(host_for_region("É"), "é.battle.net");
}

#[test]
fn the_host_of_a_code_in_lower_case() {
    assert_eq!(host_for_code(String::from("cn")), "www.battlenet.com.cn");
    assert_eq!(host_for_code(String::from("us")), "us.battle.net");
    assert_eq!(host_for_code(String::from("CN")), "CN.battle.net");
    assert_eq!(host_for_code(String::new()), ".battle.net");
}
