use irc_ingress::codec::IRCLinesCodec;

#[test]
fn test_irc_lines_codec() {
    let mut codec = IRCLinesCodec::new_with_max_length(2000);
    let mut buf: Vec<u8> = Vec::new();
    codec.encode("my line".as_bytes(), &mut buf);
    assert_eq!("my line\r\n".as_bytes(), &buf[..]);
    let mut buf: Vec<u8> = "my line 2\n".as_bytes().to_vec();
    assert_eq!(
        codec.decode(&mut buf).map_err(|_| "line too long".to_string()),
        Ok(Some("my line 2".as_bytes().to_vec()))
    );
    assert_eq!(buf, Vec::<u8>::new());
    let mut buf: Vec<u8> = "my line 2\r\n".as_bytes().to_vec();
    assert_eq!(
        codec.decode(&mut buf).map_err(|_| "line too long".to_string()),
        Ok(Some("my line 2".as_bytes().to_vec()))
    );
    assert_eq!(buf, Vec::<u8>::new());
}

#[test]
fn test_codec_round_trip() {
    let mut codec = IRCLinesCodec::new_with_max_length(100);
    let mut buf: Vec<u8> = Vec::new();
    codec.encode("NICK alice".as_bytes(), &mut buf);
    let r = codec.decode(&mut buf).map_err(|_| "line too long".to_string());
    assert_eq!(r, Ok(Some("NICK alice".as_bytes().to_vec())));
}

#[test]
fn test_codec_partial_then_complete() {
    let mut codec = IRCLinesCodec::new_with_max_length(100);
    let mut buf: Vec<u8> = "par".as_bytes().to_vec();
    assert_eq!(codec.decode(&mut buf).map_err(|_| "line too long".to_string()), Ok(None));
    let mut buf: Vec<u8> = "tial\r\nnext".as_bytes().to_vec();
    assert_eq!(
        codec.decode(&mut buf).map_err(|_| "line too long".to_string()),
        Ok(Some("partial".as_bytes().to_vec()))
    );
    let mut buf: Vec<u8> = "\n".as_bytes().to_vec();
    assert_eq!(
        codec.decode(&mut buf).map_err(|_| "line too long".to_string()),
        Ok(Some("next".as_bytes().to_vec()))
    );
}

#[test]
fn test_codec_two_buffered_lines() {
    let mut codec = IRCLinesCodec::new_with_max_length(100);
    let mut buf: Vec<u8> = "one\r\ntwo\r\n".as_bytes().to_vec();
    assert_eq!(
        codec.decode(&mut buf).map_err(|_| "line too long".to_string()),
        Ok(Some("one".as_bytes().to_vec()))
    );
    let mut empty: Vec<u8> = Vec::new();
    assert_eq!(
        codec.decode(&mut empty).map_err(|_| "line too long".to_string()),
        Ok(Some("two".as_bytes().to_vec()))
    );
}

#[test]
fn test_codec_max_boundary() {
    let mut codec = IRCLinesCodec::new_with_max_length(5);
    let mut buf: Vec<u8> = "abcde\n".as_bytes().to_vec();
    assert_eq!(
        codec.decode(&mut buf).map_err(|_| "line too long".to_string()),
        Ok(Some("abcde".as_bytes().to_vec()))
    );
    let mut codec = IRCLinesCodec::new_with_max_length(5);
    let mut buf: Vec<u8> = "abcdef".as_bytes().to_vec();
    assert_eq!(
        codec.decode(&mut buf).map_err(|_| "line too long".to_string()),
        Err("line too long".to_string())
    );
    let mut codec = IRCLinesCodec::new_with_max_length(5);
    let mut buf: Vec<u8> = "abcde".as_bytes().to_vec();
    assert_eq!(codec.decode(&mut buf).map_err(|_| "line too long".to_string()), Ok(None));
}
