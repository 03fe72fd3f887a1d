use irc_ingress::validators::validate_channel;
use irc_ingress::validators::validate_prefixed_channel;
use irc_ingress::validators::validate_server;
use irc_ingress::validators::validate_server_mask;
use irc_ingress::validators::validate_source;
use irc_ingress::validators::validate_username;

#[test]
fn test_validate_source() {
    assert_eq!(true, validate_source("bob!bobby@host.com"));
    assert_eq!(true, validate_source("bobby@host.com"));
    assert_eq!(true, validate_source("bob!bobby"));
    assert_eq!(true, validate_source("host.com"));
    assert_eq!(false, validate_source("bob@bobby!host.com"));
}

#[test]
fn test_validate_username() {
    assert_eq!(true, validate_username("ala").is_ok());
    assert_eq!(false, validate_username("#ala").is_ok());
    assert_eq!(false, validate_username("&ala").is_ok());
    assert_eq!(false, validate_username("a.la").is_ok());
    assert_eq!(false, validate_username("a,la").is_ok());
    assert_eq!(false, validate_username("aL:a").is_ok());
}

#[test]
fn test_validate_username_empty() {
    assert_eq!(false, validate_username("").is_ok());
}

#[test]
fn test_validate_channel() {
    assert_eq!(true, validate_channel("#ala").is_ok());
    assert_eq!(true, validate_channel("&ala").is_ok());
    assert_eq!(false, validate_channel("&al:a").is_ok());
    assert_eq!(false, validate_channel("&al,a").is_ok());
    assert_eq!(false, validate_channel("#al:a").is_ok());
    assert_eq!(false, validate_channel("#al,a").is_ok());
    assert_eq!(false, validate_channel("ala").is_ok());
}

#[test]
fn test_validate_channel_empty() {
    assert_eq!(false, validate_channel("").is_ok());
}

#[test]
fn test_validate_server() {
    assert_eq!(true, validate_server("somebody.org"));
    assert_eq!(false, validate_server("somebodyorg"));
}

#[test]
fn test_validate_server_mask() {
    assert_eq!(true, validate_server_mask("somebody.org"));
    assert_eq!(true, validate_server_mask("*org"));
    assert_eq!(false, validate_server_mask("somebodyorg"));
}

#[test]
fn test_validate_prefixed_channel() {
    assert_eq!(true, validate_prefixed_channel("#ala"));
    assert_eq!(true, validate_prefixed_channel("&ala"));
    assert_eq!(false, validate_prefixed_channel("&al:a"));
    assert_eq!(false, validate_prefixed_channel("&al,a"));
    assert_eq!(false, validate_prefixed_channel("#al:a"));
    assert_eq!(false, validate_prefixed_channel("#al,a"));
    assert_eq!(false, validate_prefixed_channel("ala"));

    assert_eq!(true, validate_prefixed_channel("~#ala"));
    assert_eq!(true, validate_prefixed_channel("+#ala"));
    assert_eq!(true, validate_prefixed_channel("%#ala"));
    assert_eq!(true, validate_prefixed_channel("&#ala"));
    assert_eq!(true, validate_prefixed_channel("@#ala"));
    assert_eq!(true, validate_prefixed_channel("~&ala"));
    assert_eq!(true, validate_prefixed_channel("+&ala"));
    assert_eq!(true, validate_prefixed_channel("%&ala"));
    assert_eq!(true, validate_prefixed_channel("&&ala"));
    assert_eq!(true, validate_prefixed_channel("@&ala"));
    assert_eq!(false, validate_prefixed_channel("*#ala"));
    assert_eq!(false, validate_prefixed_channel("*&ala"));
}

#[test]
fn test_validate_prefixed_channel_all_prefixes() {
    assert_eq!(false, validate_prefixed_channel("&&&"));
    assert_eq!(false, validate_prefixed_channel("#"));
    assert_eq!(true, validate_prefixed_channel("&a"));
}
