//! The language of the user, and how inputs are named in it.

use crate::domain::DisplayInput;
use crate::network::{ascii_lower, to_ascii_lower};
use crate::text::{begins_with, chars_of, decimal, decimal_text, join2, strip_prefix, text_of};
use vstd::prelude::*;

verus! {

#[derive(Clone, Copy, Debug, PartialEq, Eq, Structural)]
pub enum UiLocale {
    English,
    TraditionalChinese,
}

/// A text with the letters of ASCII in lower case.
pub open spec fn lowered(text: Seq<char>) -> Seq<char> {
    text.map_values(|c: char| ascii_lower(c))
}

/// The language that a locale tag asks for.
pub open spec fn locale_of(tag: Seq<char>) -> UiLocale {
    let tag = lowered(tag);
    if begins_with(tag, "zh-tw"@) || begins_with(tag, "zh-hant"@) || begins_with(tag, "zh-hk"@)
        || begins_with(tag, "zh-mo"@) {
        UiLocale::TraditionalChinese
    } else {
        UiLocale::English
    }
}

/// The language that a locale tag asks for.
pub fn locale_from_tag(locale: &str) -> (selected: UiLocale)
    ensures
        selected == locale_of(locale@),
{
    let chars = chars_of(locale);
    let mut lower: Vec<char> = Vec::new();
    let mut i: usize = 0;
    while i < chars.len()
        invariant
            i <= chars@.len(),
            lower@ == lowered(chars@.take(i as int)),
        decreases chars@.len() - i,
    {
        let ghost before = lower@;
        lower.push(to_ascii_lower(chars[i]));
        proof {
            assert(chars@.take(i + 1) =~= chars@.take(i as int).push(chars@[i as int]));
            assert(lowered(chars@.take(i + 1)) =~= before.push(ascii_lower(chars@[i as int])));
        }
        i += 1;
    }
    assert(chars@.take(chars@.len() as int) =~= chars@);
    let tag = text_of(&lower);
    if strip_prefix(&tag, "zh-tw").is_some() || strip_prefix(&tag, "zh-hant").is_some()
        || strip_prefix(&tag, "zh-hk").is_some() || strip_prefix(&tag, "zh-mo").is_some() {
        UiLocale::TraditionalChinese
    } else {
        UiLocale::English
    }
}

/// The text of the user's language.
pub open spec fn text_in(locale: UiLocale, zh_tw: Seq<char>, en: Seq<char>) -> Seq<char> {
    match locale {
        UiLocale::TraditionalChinese => zh_tw,
        UiLocale::English => en,
    }
}

/// The text of the user's language.
pub fn ui_text(locale: UiLocale, zh_tw: &'static str, en: &'static str) -> (text: &'static str)
    ensures
        text@ == text_in(locale, zh_tw@, en@),
{
    match locale {
        UiLocale::TraditionalChinese => zh_tw,
        UiLocale::English => en,
    }
}

/// The name of an MCCS input, without its code.
pub open spec fn input_name(locale: UiLocale, input: DisplayInput) -> Seq<char> {
    let code = input.code;
    let chinese = locale == UiLocale::TraditionalChinese;
    if code == 0x01 {
        "VGA"@
    } else if code == 0x03 {
        "DVI"@
    } else if code == 0x0f {
        "DP"@
    } else if code == 0x10 {
        "DP 2"@
    } else if code == 0x1b {
        "Type-C"@
    } else if chinese && code == 0x05 {
        "複合視訊 1"@
    } else if chinese && code == 0x06 {
        "複合視訊 2"@
    } else if chinese && code == 0x09 {
        "電視調諧器 1"@
    } else if chinese && code == 0x0a {
        "電視調諧器 2"@
    } else if chinese && code == 0x0b {
        "電視調諧器 3"@
    } else if chinese && code == 0x0c {
        "色差視訊 1"@
    } else if chinese && code == 0x0d {
        "色差視訊 2"@
    } else if chinese && code == 0x0e {
        "色差視訊 3"@
    } else {
        match DisplayInput::standard_name_of(code) {
            Some(name) => name,
            None => text_in(locale, "其他輸入"@, "Other input"@),
        }
    }
}

/// The name of an MCCS input, without its code.
pub fn localized_input_name(locale: UiLocale, input: DisplayInput) -> (name: String)
    ensures
        name@ == input_name(locale, input),
{
    let standard_name = match (locale, input.value()) {
        (_, 0x01) => Some("VGA"),
        (_, 0x03) => Some("DVI"),
        (_, 0x0f) => Some("DP"),
        (_, 0x10) => Some("DP 2"),
        (_, 0x1b) => Some("Type-C"),
        (UiLocale::TraditionalChinese, 0x05) => Some("複合視訊 1"),
        (UiLocale::TraditionalChinese, 0x06) => Some("複合視訊 2"),
        (UiLocale::TraditionalChinese, 0x09) => Some("電視調諧器 1"),
        (UiLocale::TraditionalChinese, 0x0a) => Some("電視調諧器 2"),
        (UiLocale::TraditionalChinese, 0x0b) => Some("電視調諧器 3"),
        (UiLocale::TraditionalChinese, 0x0c) => Some("色差視訊 1"),
        (UiLocale::TraditionalChinese, 0x0d) => Some("色差視訊 2"),
        (UiLocale::TraditionalChinese, 0x0e) => Some("色差視訊 3"),
        _ => input.standard_name(),
    };
    match standard_name {
        Some(name) => name.to_owned(),
        None => ui_text(locale, "其他輸入", "Other input").to_owned(),
    }
}

/// The name of an input: its number where the display counts its inputs
/// privately, its MCCS name otherwise.
pub open spec fn input_label_of(
    locale: UiLocale,
    vendor_indexed: bool,
    input: DisplayInput,
) -> Seq<char> {
    if vendor_indexed {
        text_in(locale, "輸入 "@, "Input "@) + decimal(input.code as nat)
    } else {
        input_name(locale, input)
    }
}

/// The name of an input.
pub fn input_label(locale: UiLocale, vendor_indexed: bool, input: DisplayInput) -> (label: String)
    ensures
        label@ == input_label_of(locale, vendor_indexed, input),
{
    if !vendor_indexed {
        return localized_input_name(locale, input);
    }
    join2(ui_text(locale, "輸入 ", "Input "), &decimal_text(input.value() as u64))
}

} // verus!
