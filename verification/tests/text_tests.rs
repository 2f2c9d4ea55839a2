use lifecrypt::crypt::{Encrypted, EncryptedSerializable};
use lifecrypt::error::Error;
use lifecrypt::text::grammar::NESTING_LIMIT;
use lifecrypt::text::reader::parse;
use lifecrypt::text::writer::render;

fn sample() -> Encrypted {
    Encrypted {
        salt: (0u8..32).collect(),
        nonce: vec![1, 2, 3, 4, 5, 6, 7, 8],
        ciphertext: b"hello".to_vec(),
        tag: vec![0xff; 16],
    }
}

const SAMPLE_TEXT: &str = "{\"salt\":\"AAECAwQFBgcICQoLDA0ODxAREhMUFRYXGBkaGxwdHh8\",\"nonce\":\"AQIDBAUGBwg\",\"ciphertext\":\"aGVsbG8\",\"tag\":\"/////////////////////w\"}";

fn texts(salt: &str, nonce: &str, ciphertext: &str, tag: &str) -> EncryptedSerializable {
    EncryptedSerializable {
        salt: salt.to_string(),
        nonce: nonce.to_string(),
        ciphertext: ciphertext.to_string(),
        tag: tag.to_string(),
    }
}

fn pseudo_random(seed: u64, len: usize) -> Vec<u8> {
    let mut state = seed.wrapping_mul(0x9E37_79B9_7F4A_7C15).wrapping_add(1);
    (0..len)
        .map(|_| {
            state = state.wrapping_mul(6364136223846793005).wrapping_add(1442695040888963407);
            (state >> 33) as u8
        })
        .collect()
}

#[test]
fn to_text_writes_the_fixed_layout() {
    assert_eq!(sample().to_text(), SAMPLE_TEXT);
}

#[test]
fn to_text_of_empty_fields() {
    let empty = Encrypted { salt: vec![], nonce: vec![], ciphertext: vec![], tag: vec![] };
    assert_eq!(empty.to_text(), "{\"salt\":\"\",\"nonce\":\"\",\"ciphertext\":\"\",\"tag\":\"\"}");
    assert_eq!(Encrypted::from_text(&empty.to_text()), Ok(empty));
}

#[test]
fn from_text_reads_the_fixed_layout() {
    assert_eq!(Encrypted::from_text(SAMPLE_TEXT), Ok(sample()));
}

#[test]
fn from_text_inverts_to_text() {
    for seed in 0..60u64 {
        let container = Encrypted {
            salt: pseudo_random(seed, 32),
            nonce: pseudo_random(seed + 1000, 8),
            ciphertext: pseudo_random(seed + 2000, (seed as usize * 13) % 257),
            tag: pseudo_random(seed + 3000, 16),
        };
        let text = container.to_text();
        assert_eq!(Encrypted::from_text(&text), Ok(container.clone()));
        assert_eq!(Encrypted::from_bytes(text.into_bytes()), Ok(container));
    }
}

#[test]
fn from_text_inverts_to_text_for_unusual_lengths() {
    for len in 0..40usize {
        let container = Encrypted {
            salt: pseudo_random(1, len),
            nonce: pseudo_random(2, 40 - len),
            ciphertext: pseudo_random(3, len * 3),
            tag: pseudo_random(4, len / 2),
        };
        assert_eq!(Encrypted::from_text(&container.to_text()), Ok(container));
    }
}

#[test]
fn to_text_then_from_text_then_to_text_is_stable() {
    let text = sample().to_text();
    let again = Encrypted::from_text(&text).unwrap().to_text();
    assert_eq!(text, again);
}

#[test]
fn from_text_allows_white_space_between_tokens() {
    let text = " \t\r\n{ \n  \"salt\" : \"AAECAwQFBgcICQoLDA0ODxAREhMUFRYXGBkaGxwdHh8\" ,\n  \"nonce\":\t\"AQIDBAUGBwg\",\r\n  \"ciphertext\": \"aGVsbG8\",\n  \"tag\": \"/////////////////////w\"\n}\n\n";
    assert_eq!(Encrypted::from_text(text), Ok(sample()));
}

#[test]
fn from_text_allows_any_order_of_fields() {
    let text = "{\"tag\":\"/////////////////////w\",\"ciphertext\":\"aGVsbG8\",\"salt\":\"AAECAwQFBgcICQoLDA0ODxAREhMUFRYXGBkaGxwdHh8\",\"nonce\":\"AQIDBAUGBwg\"}";
    assert_eq!(Encrypted::from_text(text), Ok(sample()));
}

#[test]
fn from_text_ignores_unknown_fields() {
    let text = "{\"version\":2,\"salt\":\"AAECAwQFBgcICQoLDA0ODxAREhMUFRYXGBkaGxwdHh8\",\"comment\":\"a \\\"quoted\\\" note\",\"nonce\":\"AQIDBAUGBwg\",\"kdf\":{\"name\":\"scrypt\",\"params\":[20,8,1],\"extra\":{}},\"flags\":[true,false,null,[],[[]],-0.5e+10,1E3,0],\"ciphertext\":\"aGVsbG8\",\"tag\":\"/////////////////////w\",\"\":null,\"Salt\":\"not the salt\"}";
    assert_eq!(Encrypted::from_text(text), Ok(sample()));
}

#[test]
fn from_text_decodes_escapes_in_names_and_values() {
    let text = "{\"s\\u0061lt\":\"AAECAwQFBgcICQoLDA0ODxAREhMUFRYXGBkaGxwdHh8\",\"nonce\":\"\\u0041QIDBAUGBwg\",\"ciphertext\":\"aGVsbG8\",\"tag\":\"\\/\\/\\/\\/\\/////////////////w\"}";
    assert_eq!(Encrypted::from_text(text), Ok(sample()));
}

#[test]
fn from_text_rejects_missing_fields() {
    let fields = [
        "\"salt\":\"AAEC\"",
        "\"nonce\":\"AQID\"",
        "\"ciphertext\":\"aGVsbG8\"",
        "\"tag\":\"AAAA\"",
    ];
    let all = format!("{{{}}}", fields.join(","));
    assert!(Encrypted::from_text(&all).is_ok());
    for missing in 0..4 {
        let kept: Vec<&str> =
            fields.iter().enumerate().filter(|(i, _)| *i != missing).map(|(_, f)| *f).collect();
        let text = format!("{{{}}}", kept.join(","));
        assert_eq!(Encrypted::from_text(&text), Err(Error::MalformedContainer), "{}", text);
    }
    assert_eq!(Encrypted::from_text("{}"), Err(Error::MalformedContainer));
}

#[test]
fn from_text_rejects_invalid_base64() {
    let text = SAMPLE_TEXT.replace("aGVsbG8", "aGVs*G8");
    assert_eq!(Encrypted::from_text(&text), Err(Error::MalformedContainer));
    let text = SAMPLE_TEXT.replace("AQIDBAUGBwg", "AQIDBAUGBwg=x");
    assert_eq!(Encrypted::from_text(&text), Err(Error::MalformedContainer));
    let text = SAMPLE_TEXT.replace("aGVsbG8", "aGVsb G8");
    assert_eq!(Encrypted::from_text(&text), Err(Error::MalformedContainer));
}

#[test]
fn from_text_rejects_every_truncation() {
    for (end, _) in SAMPLE_TEXT.char_indices() {
        let truncated = &SAMPLE_TEXT[..end];
        assert_eq!(Encrypted::from_text(truncated), Err(Error::MalformedContainer), "{}", truncated);
    }
}

#[test]
fn from_text_rejects_structurally_invalid_text() {
    let salt = "\"salt\":\"AAEC\"";
    let rest = "\"nonce\":\"AQID\",\"ciphertext\":\"aGVsbG8\",\"tag\":\"AAAA\"";
    let cases = vec![
        String::new(),
        " ".to_string(),
        "null".to_string(),
        "[]".to_string(),
        "\"salt\"".to_string(),
        "42".to_string(),
        format!("[{},{}]", salt, rest),
        format!("{{{},{}}} x", salt, rest),
        format!("{{{},{}}}{{}}", salt, rest),
        format!("{{{},{},}}", salt, rest),
        format!("{{,{},{}}}", salt, rest),
        format!("{{{} {}}}", salt, rest),
        format!("{{{};{}}}", salt, rest),
        format!("{{\"salt\"=\"AAEC\",{}}}", rest),
        format!("{{\"salt\" \"AAEC\",{}}}", rest),
        format!("{{salt:\"AAEC\",{}}}", rest),
        format!("{{'salt':'AAEC',{}}}", rest),
        format!("{{\"salt\":\"AAEC,{}}}", rest),
        format!("{{{},{}", salt, rest),
        format!("{},{}}}", salt, rest),
        format!("{{{},{}}}}}", salt, rest),
        format!("{{{{{},{}}}}}", salt, rest),
    ];
    for text in cases.iter() {
        assert_eq!(Encrypted::from_text(text), Err(Error::MalformedContainer), "{}", text);
    }
}

#[test]
fn from_text_rejects_fields_that_are_not_strings() {
    let rest = "\"nonce\":\"AQID\",\"ciphertext\":\"aGVsbG8\",\"tag\":\"AAAA\"";
    for value in ["null", "1", "true", "[]", "{}", "[\"AAEC\"]", "{\"salt\":\"AAEC\"}"] {
        let text = format!("{{\"salt\":{},{}}}", value, rest);
        assert_eq!(Encrypted::from_text(&text), Err(Error::MalformedContainer), "{}", text);
    }
}

#[test]
fn from_text_rejects_a_field_given_twice() {
    let text = "{\"salt\":\"AAEC\",\"nonce\":\"AQID\",\"ciphertext\":\"aGVsbG8\",\"tag\":\"AAAA\",\"salt\":\"AAEC\"}";
    assert_eq!(Encrypted::from_text(text), Err(Error::MalformedContainer));
    let text = "{\"salt\":\"AAEC\",\"nonce\":\"AQID\",\"ciphertext\":\"aGVsbG8\",\"tag\":\"AAAA\",\"t\\u0061g\":\"AAAA\"}";
    assert_eq!(Encrypted::from_text(text), Err(Error::MalformedContainer));
    // An unknown name may stand twice.
    let text = "{\"x\":1,\"salt\":\"AAEC\",\"nonce\":\"AQID\",\"ciphertext\":\"aGVsbG8\",\"tag\":\"AAAA\",\"x\":2}";
    assert!(Encrypted::from_text(text).is_ok());
}

fn with_extra(value: &str) -> String {
    format!(
        "{{\"salt\":\"AAEC\",\"nonce\":\"AQID\",\"extra\":{},\"ciphertext\":\"aGVsbG8\",\"tag\":\"AAAA\"}}",
        value
    )
}

#[test]
fn ignored_values_must_still_be_json() {
    let good = [
        "0", "-0", "7", "-12", "1234567890", "0.5", "-0.25", "1e5", "1E5", "1e+5", "1e-5",
        "12.5e10", "0e0", "true", "false", "null", "\"\"", "\"text\"", "\"\\n\\t\\r\\b\\f\\\\\\/\\\"\"",
        "\"\\u00e9\"", "\"\\uD83D\\uDE00\"", "\"é😀\"", "[]", "[ ]", "[1]", "[1,2]", "[ 1 , 2 ]",
        "{}", "{ }", "{\"a\":1}", "{\"a\":1,\"b\":[{}]}", "[[[[]]]]", "{\"a\":{\"a\":{\"a\":{}}}}",
    ];
    for value in good.iter() {
        assert!(Encrypted::from_text(&with_extra(value)).is_ok(), "{}", value);
    }
    let bad = [
        "", "-", "+1", "01", "1.", ".5", "1e", "1e+", "1.e5", "0x10", "tru", "True", "nul",
        "falsey", "nan", "'text'", "\"open", "\"bad \\x escape\"", "\"\\u12\"", "\"\\u12G4\"",
        "\"\\uD83D\"", "\"\\uD83Dx\"", "\"\\uD83D\\u0041\"", "\"\\uDE00\"", "\"line\nbreak\"",
        "\"tab\there\"", "[", "[1", "[1,", "[1,]", "[,1]", "[1 2]", "{", "{\"a\"}", "{\"a\":}",
        "{\"a\":1,}", "{a:1}", "{\"a\":1 \"b\":2}", "{1:2}", "[}", "{]",
    ];
    for value in bad.iter() {
        assert_eq!(
            Encrypted::from_text(&with_extra(value)),
            Err(Error::MalformedContainer),
            "{}",
            value
        );
    }
}

#[test]
fn nesting_is_accepted_up_to_the_limit() {
    assert_eq!(NESTING_LIMIT, 127);
    let at_limit = format!("{}{}", "[".repeat(127), "]".repeat(127));
    assert!(Encrypted::from_text(&with_extra(&at_limit)).is_ok());
    let over_limit = format!("{}{}", "[".repeat(128), "]".repeat(128));
    assert_eq!(Encrypted::from_text(&with_extra(&over_limit)), Err(Error::MalformedContainer));
    let objects = format!("{}1{}", "{\"a\":".repeat(127), "}".repeat(127));
    assert!(Encrypted::from_text(&with_extra(&objects)).is_ok());
    let objects = format!("{}1{}", "{\"a\":".repeat(128), "}".repeat(128));
    assert_eq!(Encrypted::from_text(&with_extra(&objects)), Err(Error::MalformedContainer));
    let very_deep = "[".repeat(100_000);
    assert_eq!(Encrypted::from_text(&with_extra(&very_deep)), Err(Error::MalformedContainer));
}

#[test]
fn from_bytes_rejects_bytes_that_are_not_utf8() {
    let mut bytes = SAMPLE_TEXT.as_bytes().to_vec();
    assert_eq!(Encrypted::from_bytes(bytes.clone()), Ok(sample()));
    bytes.push(0xff);
    assert_eq!(Encrypted::from_bytes(bytes), Err(Error::MalformedContainer));
    assert_eq!(Encrypted::from_bytes(vec![0xc3, 0x28]), Err(Error::MalformedContainer));
    assert_eq!(Encrypted::from_bytes(Vec::new()), Err(Error::MalformedContainer));
}

#[test]
fn render_escapes_what_a_string_cannot_hold() {
    let fields = texts("a\"b", "c\\d", "\u{8}\u{c}\n\r\t", "\u{0}\u{1f}\u{7f}é😀/");
    let text = render(&fields);
    assert_eq!(
        text,
        "{\"salt\":\"a\\\"b\",\"nonce\":\"c\\\\d\",\"ciphertext\":\"\\b\\f\\n\\r\\t\",\"tag\":\"\\u0000\\u001f\u{7f}é😀/\"}"
    );
    assert_eq!(parse(&text), Ok(fields));
}

#[test]
fn parse_inverts_render_for_arbitrary_texts() {
    let mut all_controls = String::new();
    for code in 0u32..0x30 {
        all_controls.push(char::from_u32(code).unwrap());
    }
    let samples = [
        texts("", "", "", ""),
        texts("salt", "nonce", "ciphertext", "tag"),
        texts("\"", "\\", "\\\"", "\"\\"),
        texts(&all_controls, "\\u0041", "\\n", "{\"salt\":\"x\"}"),
        texts("\u{d7ff}\u{e000}\u{ffff}", "\u{10000}\u{10ffff}", "日本語", "\u{feff}"),
        texts(" leading", "trailing ", "\ttab", "new\nline"),
    ];
    for fields in samples.iter() {
        assert_eq!(parse(&render(fields)), Ok(fields.clone()));
    }
}

#[test]
fn parse_keeps_text_that_is_not_base64_for_decoding_to_reject() {
    let text = "{\"salt\":\"not base64!\",\"nonce\":\"\",\"ciphertext\":\"\",\"tag\":\"\"}";
    let fields = parse(text).unwrap();
    assert_eq!(fields.salt, "not base64!");
    assert_eq!(fields.to_encrypted(), Err(Error::MalformedContainer));
    assert_eq!(Encrypted::from_text(text), Err(Error::MalformedContainer));
}

#[test]
fn parse_decodes_surrogate_pairs() {
    let text = "{\"salt\":\"\\ud83d\\ude00\",\"nonce\":\"\\uD7FF\\uE000\",\"ciphertext\":\"\\u00E9\\u00e9\",\"tag\":\"\\uDBFF\\uDFFF\"}";
    assert_eq!(parse(text), Ok(texts("😀", "\u{d7ff}\u{e000}", "éé", "\u{10ffff}")));
}

#[test]
fn written_text_is_json_that_other_readers_agree_on() {
    let text = sample().to_text();
    let value: serde_json::Value = serde_json::from_str(&text).unwrap();
    let object = value.as_object().unwrap();
    assert_eq!(object.len(), 4);
    let fields = EncryptedSerializable::new(&sample());
    assert_eq!(object.get("salt").unwrap().as_str(), Some(fields.salt.as_str()));
    assert_eq!(object.get("nonce").unwrap().as_str(), Some(fields.nonce.as_str()));
    assert_eq!(object.get("ciphertext").unwrap().as_str(), Some(fields.ciphertext.as_str()));
    assert_eq!(object.get("tag").unwrap().as_str(), Some(fields.tag.as_str()));
}

#[test]
fn text_written_by_other_writers_is_read() {
    let fields = EncryptedSerializable::new(&sample());
    let mut object = serde_json::Map::new();
    object.insert("tag".to_string(), serde_json::Value::String(fields.tag.clone()));
    object.insert("salt".to_string(), serde_json::Value::String(fields.salt.clone()));
    object.insert("nonce".to_string(), serde_json::Value::String(fields.nonce.clone()));
    object.insert("ciphertext".to_string(), serde_json::Value::String(fields.ciphertext.clone()));
    object.insert("note".to_string(), serde_json::Value::Array(vec![serde_json::Value::Null]));
    let value = serde_json::Value::Object(object);
    let compact = serde_json::to_string(&value).unwrap();
    let pretty = serde_json::to_string_pretty(&value).unwrap();
    assert_eq!(Encrypted::from_text(&compact), Ok(sample()));
    assert_eq!(Encrypted::from_text(&pretty), Ok(sample()));
}

#[test]
fn escaping_agrees_with_other_writers() {
    let mut tricky = String::new();
    for code in 0u32..0x80 {
        tricky.push(char::from_u32(code).unwrap());
    }
    tricky.push_str("é😀\u{2028}");
    let fields = texts(&tricky, "", "", "");
    let text = render(&fields);
    let value: serde_json::Value = serde_json::from_str(&text).unwrap();
    assert_eq!(value.get("salt").unwrap().as_str(), Some(tricky.as_str()));
    let written = serde_json::to_string(&serde_json::Value::String(tricky.clone())).unwrap();
    assert!(text.starts_with(&format!("{{\"salt\":{},", written)));
}
