use actix_death::codec::{decode_text, encode_text};
use actix_death::gateway::{
    decode_death, decode_error, decode_response, encode_death, encode_error, encode_response,
    kill, AsciiDeath, GatewayError,
};

#[test]
fn text_round_trip_wide_characters() {
    for s in ["", "plain", "€a", "日本語", "🎉 emoji", "mixed ä ö ü ß €"] {
        let b = encode_text(s);
        assert_eq!(b, s.as_bytes().to_vec());
        assert_eq!(decode_text(&b), Some(s.to_string()));
    }
}

#[test]
fn text_euro_bytes() {
    assert_eq!(encode_text("€a"), vec![0xE2, 0x82, 0xAC, 0x61]);
}

#[test]
fn text_truncated_multibyte_rejected() {
    assert_eq!(decode_text(&[0xE2, 0x82]), None);
    assert_eq!(decode_text(&[0x61, 0xF0, 0x9F]), None);
    assert_eq!(decode_text(&[0xFF]), None);
}

#[test]
fn kill_returns_euro_record() {
    let d = kill().unwrap();
    assert_eq!(d, AsciiDeath { killer: "€a".to_string(), after: true });
}

#[test]
fn death_exact_bytes() {
    let d = AsciiDeath { killer: "€a".to_string(), after: true };
    assert_eq!(encode_death(&d), vec![4, 0, 0, 0, 0, 0, 0, 0, 0xE2, 0x82, 0xAC, 0x61, 1]);
}

#[test]
fn death_round_trip() {
    for (k, a) in [("€a", true), ("", false), ("ascii only", true), ("𝄞 clef", false)] {
        let d = AsciiDeath { killer: k.to_string(), after: a };
        assert_eq!(decode_death(&encode_death(&d)), Some(d));
    }
}

#[test]
fn death_rejects_bad_bytes() {
    let d = AsciiDeath { killer: "€a".to_string(), after: true };
    let mut b = encode_death(&d);
    // flag byte out of range
    let last = b.len() - 1;
    b[last] = 2;
    assert_eq!(decode_death(&b), None);
    // length that does not match
    let mut c = encode_death(&d);
    c[0] = 9;
    assert_eq!(decode_death(&c), None);
    // text cut inside the euro sign, length adjusted
    let cut = vec![2, 0, 0, 0, 0, 0, 0, 0, 0xE2, 0x82, 1];
    assert_eq!(decode_death(&cut), None);
    assert_eq!(decode_death(&[]), None);
}

#[test]
fn error_round_trip() {
    for e in [
        GatewayError::Serialize("bad €".to_string()),
        GatewayError::Transport("reset".to_string()),
        GatewayError::Deserialize(String::new()),
        GatewayError::Execution("ünïcödé".to_string()),
    ] {
        assert_eq!(decode_error(&encode_error(&e)), Some(e.clone()));
    }
}

#[test]
fn error_exact_bytes() {
    let e = GatewayError::Execution("x".to_string());
    assert_eq!(encode_error(&e), vec![3, b'x']);
    assert_eq!(decode_error(&[4, b'x']), None);
    assert_eq!(decode_error(&[]), None);
}

#[test]
fn response_round_trip() {
    let ok = kill();
    assert_eq!(decode_response(&encode_response(&ok)), ok);
    let err: Result<AsciiDeath, GatewayError> =
        Err(GatewayError::Execution("failed €".to_string()));
    assert_eq!(decode_response(&encode_response(&err)), err);
}

#[test]
fn response_garbage_is_deserialize_error() {
    assert!(matches!(decode_response(&[]), Err(GatewayError::Deserialize(_))));
    assert!(matches!(decode_response(&[7, 1, 2]), Err(GatewayError::Deserialize(_))));
    assert!(matches!(decode_response(&[0, 1, 2]), Err(GatewayError::Deserialize(_))));
    assert!(matches!(decode_response(&[1, 9]), Err(GatewayError::Deserialize(_))));
}

#[test]
fn response_detail_kept() {
    let r = decode_response(&[1, 1, b'd', b'o', b'w', b'n']);
    assert_eq!(r, Err(GatewayError::Transport("down".to_string())));
    assert_eq!(r.unwrap_err().detail(), "down");
}
