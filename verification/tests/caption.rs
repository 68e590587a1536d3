use client_backend::caption::{Caption, CaptionError};
use client_backend::vdf::{parse_vdf, VdfPair, VdfValue};

const VDF_CAPTION: &str = "\"lang\"\n{\n\t\"Language\"\t\"english\"\n\t\"Tokens\"\n\t{\n\t\t\"DIAG_TEXT_01\"\t\"<clr:255,125,240>A test caption!\"\n\t\t\"DIAG_TEXT_02\"\t\"<clr:55,250,240>Another test caption!\"\n\t}\n}\n";

fn test_tokens() -> Vec<(String, String)> {
    vec![
        (
            "DIAG_TEXT_01".to_string(),
            "<clr:255,125,240>A test caption!".to_string(),
        ),
        (
            "DIAG_TEXT_02".to_string(),
            "<clr:55,250,240>Another test caption!".to_string(),
        ),
    ]
}

fn utf16_le(s: &str) -> Vec<u8> {
    s.encode_utf16().flat_map(u16::to_le_bytes).collect()
}

#[test]
fn test_to_vdf() {
    let language = "english".to_string();
    let caption = Caption::new(language, test_tokens());

    let created_vdf = caption.to_vdf();

    let test_vdf = parse_vdf(VDF_CAPTION).expect("Failed to parse VDF");

    assert_eq!(created_vdf, test_vdf);
}

#[test]
fn test_from_vdf() {
    let caption = Caption::from_vdf(VDF_CAPTION).expect("Failed to create caption from VDF");

    let language = "english".to_string();
    let test_caption = Caption::new(language, test_tokens());

    assert_eq!(caption.language, test_caption.language);
    assert_eq!(caption.tokens, test_caption.tokens);
}

#[test]
fn test_compile_header() {
    let language = "english".to_string();
    let caption = Caption::new(language, test_tokens());

    let compiled = caption.compile().expect("Failed to compile caption");

    let t1 = utf16_le("<clr:255,125,240>A test caption!");
    let t2 = utf16_le("<clr:55,250,240>Another test caption!");
    let mut expected: Vec<u8> = Vec::new();
    expected.extend_from_slice(b"VCCD");
    expected.extend_from_slice(&1i32.to_le_bytes());
    expected.extend_from_slice(&1i32.to_le_bytes());
    expected.extend_from_slice(&8192i32.to_le_bytes());
    expected.extend_from_slice(&2i32.to_le_bytes());
    expected.extend_from_slice(&512i32.to_le_bytes());
    expected.extend_from_slice(&crc32fast::hash(b"diag_text_01").to_le_bytes());
    expected.extend_from_slice(&0u32.to_le_bytes());
    expected.extend_from_slice(&0u16.to_le_bytes());
    expected.extend_from_slice(&((t1.len() + 2) as u16).to_le_bytes());
    expected.extend_from_slice(&crc32fast::hash(b"diag_text_02").to_le_bytes());
    expected.extend_from_slice(&0u32.to_le_bytes());
    expected.extend_from_slice(&((t1.len() + 2) as u16).to_le_bytes());
    expected.extend_from_slice(&((t2.len() + 2) as u16).to_le_bytes());
    expected.resize(512, 0);
    expected.extend_from_slice(&t1);
    expected.extend_from_slice(&[0, 0]);
    expected.extend_from_slice(&t2);
    expected.extend_from_slice(&[0, 0]);

    assert_eq!(compiled, expected);
}

#[test]
fn caption_tokens_sorted_and_last_wins() {
    let tokens = vec![
        ("b".to_string(), "2".to_string()),
        ("a".to_string(), "1".to_string()),
        ("b".to_string(), "3".to_string()),
    ];
    let c = Caption::new("english".to_string(), tokens);
    assert_eq!(
        c.tokens,
        vec![
            ("a".to_string(), "1".to_string()),
            ("b".to_string(), "3".to_string())
        ]
    );
}

#[test]
fn caption_set_and_remove_token() {
    let mut c = Caption::new("english".to_string(), test_tokens());
    c.set_token("DIAG_TEXT_00".to_string(), "first".to_string());
    c.set_token("DIAG_TEXT_02".to_string(), "replaced".to_string());
    assert_eq!(c.tokens.len(), 3);
    assert_eq!(c.tokens[0], ("DIAG_TEXT_00".to_string(), "first".to_string()));
    assert_eq!(c.tokens[2], ("DIAG_TEXT_02".to_string(), "replaced".to_string()));
    c.remove_token("DIAG_TEXT_01");
    c.remove_token("missing");
    assert_eq!(c.tokens.len(), 2);
    assert_eq!(c.tokens[1].0, "DIAG_TEXT_02");
}

#[test]
fn caption_compile_empty() {
    let c = Caption::new("english".to_string(), Vec::new());
    let compiled = c.compile().expect("empty caption compiles");
    // Header only, padded to the data offset of 512.
    assert_eq!(compiled.len(), 512);
    assert_eq!(&compiled[0..4], b"VCCD");
    assert_eq!(&compiled[16..20], &0i32.to_le_bytes());
    assert_eq!(&compiled[20..24], &512i32.to_le_bytes());
}

#[test]
fn caption_compile_token_too_long() {
    let long: String = std::iter::repeat('x').take(40000).collect();
    let c = Caption::new("english".to_string(), vec![("T".to_string(), long)]);
    assert!(matches!(c.compile(), Err(CaptionError::TokenTooLong)));
}

#[test]
fn caption_compile_starts_new_block() {
    // Two tokens of 3000 characters (6002 bytes each) do not fit in one
    // block of 8192 bytes.
    let text: String = std::iter::repeat('y').take(3000).collect();
    let c = Caption::new(
        "english".to_string(),
        vec![("A".to_string(), text.clone()), ("B".to_string(), text)],
    );
    let compiled = c.compile().expect("compiles");
    // Number of blocks.
    assert_eq!(&compiled[8..12], &2i32.to_le_bytes());
    // Second entry: block 1, offset 0.
    assert_eq!(&compiled[24 + 12 + 4..24 + 12 + 8], &1u32.to_le_bytes());
    assert_eq!(&compiled[24 + 12 + 8..24 + 12 + 10], &0u16.to_le_bytes());
    assert_eq!(compiled.len(), 512 + 6002 + 6002);
}

#[test]
fn caption_from_vdf_errors() {
    assert!(matches!(Caption::from_vdf("\"lang\" {"), Err(CaptionError::Unparsable)));
    assert!(matches!(
        Caption::from_vdf("\"lang\" { \"Tokens\" { } }"),
        Err(CaptionError::NoLanguage)
    ));
    assert!(matches!(
        Caption::from_vdf("\"lang\" { \"Language\" \"english\" }"),
        Err(CaptionError::NoTokens)
    ));
    assert!(matches!(
        Caption::from_vdf("\"lang\" { \"Language\" \"english\" \"Tokens\" { \"A\" { } } }"),
        Err(CaptionError::BadToken)
    ));
}

#[test]
fn caption_to_vdf_shape() {
    let c = Caption::new("french".to_string(), vec![("K".to_string(), "V".to_string())]);
    let VdfPair { key, value } = c.to_vdf();
    assert_eq!(key, "lang");
    assert_eq!(
        value,
        VdfValue::Obj(vec![
            (
                "Language".to_string(),
                vec![VdfValue::Str("french".to_string())]
            ),
            (
                "Tokens".to_string(),
                vec![VdfValue::Obj(vec![(
                    "K".to_string(),
                    vec![VdfValue::Str("V".to_string())]
                )])]
            ),
        ])
    );
}

fn to_parser_value(v: &VdfValue) -> keyvalues_parser::Value<'static> {
    match v {
        VdfValue::Str(s) => keyvalues_parser::Value::Str(std::borrow::Cow::Owned(s.clone())),
        VdfValue::Obj(entries) => {
            let mut obj = keyvalues_parser::Obj::new();
            for (k, vs) in entries {
                obj.insert(std::borrow::Cow::Owned(k.clone()), vs.iter().map(to_parser_value).collect());
            }
            keyvalues_parser::Value::Obj(obj)
        }
    }
}

#[test]
fn caption_vdf_round_trip() {
    let mut tokens = test_tokens();
    tokens.push(("ZED".to_string(), "last one".to_string()));
    tokens.push(("ALPHA".to_string(), "first one".to_string()));
    let caption = Caption::new("german".to_string(), tokens);
    let doc = caption.to_vdf();
    let text = keyvalues_parser::Vdf::new(std::borrow::Cow::Owned(doc.key.clone()), to_parser_value(&doc.value)).to_string();
    let back = Caption::from_vdf(&text).expect("the written document reads back");
    assert_eq!(back.language, caption.language);
    assert_eq!(back.tokens, caption.tokens);
    assert_eq!(back.tokens[0].0, "ALPHA");
}

#[test]
fn caption_vdf_text_round_trip() {
    let caption = Caption::new("english".to_string(), test_tokens());
    let text = caption.to_vdf_text();
    assert_eq!(text, VDF_CAPTION);
    let back = Caption::from_vdf(&text).expect("reads back");
    assert_eq!(back.language, caption.language);
    assert_eq!(back.tokens, caption.tokens);
}

#[test]
fn caption_vdf_text_round_trip_with_escapes() {
    let caption = Caption::new(
        "français".to_string(),
        vec![
            ("A_TOKEN".to_string(), "line one\nline two\ttabbed".to_string()),
            ("B_TOKEN".to_string(), String::new()),
        ],
    );
    let back = Caption::from_vdf(&caption.to_vdf_text()).expect("reads back");
    assert_eq!(back.language, caption.language);
    assert_eq!(back.tokens, caption.tokens);
}
