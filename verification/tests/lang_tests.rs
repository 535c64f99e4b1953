use starrail_codes::lang_parser::{lookup_language_tag, parse_language_code, supported_languages};

#[test]
fn test_language_parsing() {
    assert_eq!(parse_language_code("en"), "en-us");
    assert_eq!(parse_language_code("CN"), "zh-cn");
    assert_eq!(parse_language_code("jp"), "ja-jp");
    assert_eq!(parse_language_code("ja"), "ja-jp");
    assert_eq!(parse_language_code("kr"), "ko-kr");
    assert_eq!(parse_language_code("ko"), "ko-kr");
    assert_eq!(parse_language_code("vn"), "vi-vn");
    assert_eq!(parse_language_code("vi"), "vi-vn");
    assert_eq!(parse_language_code("invalid"), "en-us");
    assert_eq!(parse_language_code(""), "en-us");
    assert_eq!(parse_language_code(" en "), "en-us"); // tests trim
}

#[test]
fn test_language_parsing_all_tags() {
    assert_eq!(parse_language_code("tw"), "zh-tw");
    assert_eq!(parse_language_code("de"), "de-de");
    assert_eq!(parse_language_code("es"), "es-es");
    assert_eq!(parse_language_code("fr"), "fr-fr");
    assert_eq!(parse_language_code("id"), "id-id");
    assert_eq!(parse_language_code("it"), "it-it");
    assert_eq!(parse_language_code("pt"), "pt-pt");
    assert_eq!(parse_language_code("ru"), "ru-ru");
    assert_eq!(parse_language_code("th"), "th-th");
    assert_eq!(parse_language_code("tr"), "tr-tr");
    assert_eq!(parse_language_code("\tJP\n"), "ja-jp");
    assert_eq!(parse_language_code("en-us"), "en-us");
}

#[test]
fn test_unicode_whitespace_is_trimmed() {
    // U+00A0 (no-break space) is not ASCII whitespace but must be trimmed.
    assert_eq!(parse_language_code("\u{a0}cn"), "zh-cn");
    assert_eq!(parse_language_code(" cn "), "zh-cn");
    assert_eq!(parse_language_code("\u{2002}ja\u{3000}"), "ja-jp");
}

#[test]
fn test_unicode_lowercasing_is_applied() {
    // U+212A (Kelvin sign) lowercases to 'k' only under the Unicode rules.
    assert_eq!(parse_language_code("\u{212a}R"), "ko-kr");
    assert_eq!(parse_language_code("Jp"), "ja-jp");
}

#[test]
fn test_lookup_takes_normalised_hints_only() {
    assert_eq!(lookup_language_tag("jp"), "ja-jp");
    assert_eq!(lookup_language_tag("vn"), "vi-vn");
    // The raw lookup does not normalise by itself.
    assert_eq!(lookup_language_tag("JP"), "en-us");
    assert_eq!(lookup_language_tag(" jp"), "en-us");
}

#[test]
fn test_supported_languages_list() {
    let langs = supported_languages();
    assert_eq!(
        langs,
        vec![
            "en-us", "zh-cn", "zh-tw", "de-de", "es-es", "fr-fr", "id-id", "it-it", "ja-jp",
            "ko-kr", "pt-pt", "ru-ru", "th-th", "tr-tr", "vi-vn"
        ]
    );
}
