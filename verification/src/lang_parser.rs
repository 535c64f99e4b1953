//! Normalising requested language codes.
//!
//! Callers pass short language hints ("en", "JP", " kr ").  The hint is
//! trimmed of Unicode whitespace and lowercased by the standard library —
//! both results depend on the characters alone and are taken on trust
//! under the names [`trimmed_of`] and [`lower_of`] — and the normalised
//! hint is then looked up in the verified two-letter key table; anything
//! unrecognised falls back to "en-us".

use vstd::prelude::*;

verus! {

/// What `str::trim` returns for these characters: the string without its
/// leading and trailing Unicode whitespace.
pub uninterp spec fn trimmed_of(s: Seq<char>) -> Seq<char>;

/// What `str::to_lowercase` returns for these characters: the string
/// lowercased by the Unicode rules.
pub uninterp spec fn lower_of(s: Seq<char>) -> Seq<char>;

/// Relies on str::trim: it removes exactly the leading and trailing
/// Unicode whitespace, and its result depends on the characters alone.
#[verifier::external_body]
fn trim_hint<'a>(s: &'a str) -> (r: &'a str)
    ensures
        r@ == trimmed_of(s@),
{
    s.trim()
}

/// Relies on str::to_lowercase: it lowercases by the Unicode rules, and
/// its result depends on the characters alone.
#[verifier::external_body]
fn lowercase_hint(s: &str) -> (r: String)
    ensures
        r@ == lower_of(s@),
{
    s.to_lowercase()
}

/// The canonical tag for an already-normalised hint: the two-letter keys
/// of the supported languages, everything else falling back to "en-us".
pub open spec fn spec_lookup_tag(t: Seq<char>) -> Seq<char> {
    if t == "en"@ {
        "en-us"@
    } else if t == "cn"@ {
        "zh-cn"@
    } else if t == "tw"@ {
        "zh-tw"@
    } else if t == "de"@ {
        "de-de"@
    } else if t == "es"@ {
        "es-es"@
    } else if t == "fr"@ {
        "fr-fr"@
    } else if t == "id"@ {
        "id-id"@
    } else if t == "it"@ {
        "it-it"@
    } else if t == "ja"@ || t == "jp"@ {
        "ja-jp"@
    } else if t == "ko"@ || t == "kr"@ {
        "ko-kr"@
    } else if t == "pt"@ {
        "pt-pt"@
    } else if t == "ru"@ {
        "ru-ru"@
    } else if t == "th"@ {
        "th-th"@
    } else if t == "tr"@ {
        "tr-tr"@
    } else if t == "vi"@ || t == "vn"@ {
        "vi-vn"@
    } else {
        "en-us"@
    }
}

/// The canonical tag for a raw hint: what the key table gives for the
/// trimmed, lowercased characters.
pub open spec fn spec_parse_language(s: Seq<char>) -> Seq<char> {
    spec_lookup_tag(lower_of(trimmed_of(s)))
}

/// Looks an already-normalised hint up in the key table.  This is the
/// whole decision on the normalised characters: given any value the
/// trusted normalisation hands back, the table picks exactly one tag.
pub fn lookup_language_tag(normalized: &str) -> (r: &'static str)
    ensures
        r@ == spec_lookup_tag(normalized@),
{
    let ghost t = normalized@;
    proof {
        reveal_strlit("en");
        reveal_strlit("cn");
        reveal_strlit("tw");
        reveal_strlit("de");
        reveal_strlit("es");
        reveal_strlit("fr");
        reveal_strlit("id");
        reveal_strlit("it");
        reveal_strlit("ja");
        reveal_strlit("jp");
        reveal_strlit("ko");
        reveal_strlit("kr");
        reveal_strlit("pt");
        reveal_strlit("ru");
        reveal_strlit("th");
        reveal_strlit("tr");
        reveal_strlit("vi");
        reveal_strlit("vn");
    }
    let n = normalized.unicode_len();
    if n == 2 {
        let key0 = normalized.get_char(0);
        let key1 = normalized.get_char(1);
        proof {
            assert(t =~= seq![key0, key1]);
        }
        if key0 == 'e' && key1 == 'n' {
            proof {
                assert(t =~= "en"@);
            }
            "en-us"
        } else if key0 == 'c' && key1 == 'n' {
            proof {
                assert(t =~= "cn"@);
            }
            "zh-cn"
        } else if key0 == 't' && key1 == 'w' {
            proof {
                assert(t =~= "tw"@);
            }
            "zh-tw"
        } else if key0 == 'd' && key1 == 'e' {
            proof {
                assert(t =~= "de"@);
            }
            "de-de"
        } else if key0 == 'e' && key1 == 's' {
            proof {
                assert(t =~= "es"@);
            }
            "es-es"
        } else if key0 == 'f' && key1 == 'r' {
            proof {
                assert(t =~= "fr"@);
            }
            "fr-fr"
        } else if key0 == 'i' && key1 == 'd' {
            proof {
                assert(t =~= "id"@);
            }
            "id-id"
        } else if key0 == 'i' && key1 == 't' {
            proof {
                assert(t =~= "it"@);
            }
            "it-it"
        } else if key0 == 'j' && (key1 == 'a' || key1 == 'p') {
            proof {
                if key1 == 'a' {
                    assert(t =~= "ja"@);
                } else {
                    assert(t =~= "jp"@);
                }
            }
            "ja-jp"
        } else if key0 == 'k' && (key1 == 'o' || key1 == 'r') {
            proof {
                if key1 == 'o' {
                    assert(t =~= "ko"@);
                } else {
                    assert(t =~= "kr"@);
                }
            }
            "ko-kr"
        } else if key0 == 'p' && key1 == 't' {
            proof {
                assert(t =~= "pt"@);
            }
            "pt-pt"
        } else if key0 == 'r' && key1 == 'u' {
            proof {
                assert(t =~= "ru"@);
            }
            "ru-ru"
        } else if key0 == 't' && key1 == 'h' {
            proof {
                assert(t =~= "th"@);
            }
            "th-th"
        } else if key0 == 't' && key1 == 'r' {
            proof {
                assert(t =~= "tr"@);
            }
            "tr-tr"
        } else if key0 == 'v' && (key1 == 'i' || key1 == 'n') {
            proof {
                if key1 == 'i' {
                    assert(t =~= "vi"@);
                } else {
                    assert(t =~= "vn"@);
                }
            }
            "vi-vn"
        } else {
            "en-us"
        }
    } else {
        proof {
            assert(t.len() != 2);
        }
        "en-us"
    }
}

/// Maps a raw language hint to the canonical tag of the supported
/// language it names, falling back to "en-us": the hint is trimmed and
/// lowercased by the standard library, then looked up in the key table.
pub fn parse_language_code(lang_code: &str) -> (r: &'static str)
    ensures
        r@ == spec_parse_language(lang_code@),
{
    let trimmed = trim_hint(lang_code);
    let lowered = lowercase_hint(trimmed);
    lookup_language_tag(lowered.as_str())
}

/// The canonical tags of all supported languages, in their fixed order.
pub fn supported_languages() -> (v: Vec<&'static str>)
    ensures
        v@.len() == 15,
        v@[0]@ == "en-us"@,
        v@[1]@ == "zh-cn"@,
        v@[2]@ == "zh-tw"@,
        v@[3]@ == "de-de"@,
        v@[4]@ == "es-es"@,
        v@[5]@ == "fr-fr"@,
        v@[6]@ == "id-id"@,
        v@[7]@ == "it-it"@,
        v@[8]@ == "ja-jp"@,
        v@[9]@ == "ko-kr"@,
        v@[10]@ == "pt-pt"@,
        v@[11]@ == "ru-ru"@,
        v@[12]@ == "th-th"@,
        v@[13]@ == "tr-tr"@,
        v@[14]@ == "vi-vn"@,
{
    let mut v: Vec<&'static str> = Vec::new();
    v.push("en-us");
    v.push("zh-cn");
    v.push("zh-tw");
    v.push("de-de");
    v.push("es-es");
    v.push("fr-fr");
    v.push("id-id");
    v.push("it-it");
    v.push("ja-jp");
    v.push("ko-kr");
    v.push("pt-pt");
    v.push("ru-ru");
    v.push("th-th");
    v.push("tr-tr");
    v.push("vi-vn");
    v
}

} // verus!
