//! Target languages of the translation command, and the texts it sends and shows.

use vstd::prelude::*;

use crate::text::{join2, join4};

verus! {

/// A language that text can be translated into.
#[derive(Clone, Copy, Debug, PartialEq, Eq, Structural)]
pub enum Language {
    Japanese,
    English,
    ChineseSimplified,
    ChineseTraditional,
    Korean,
    French,
    German,
    Spanish,
    Portuguese,
    Italian,
    Russian,
    Arabic,
}

/// The language's name as shown to users.
pub open spec fn label_of(l: Language) -> Seq<char> {
    match l {
        Language::Japanese => "日本語"@,
        Language::English => "英語"@,
        Language::ChineseSimplified => "中国語（簡体字）"@,
        Language::ChineseTraditional => "中国語（繁体字）"@,
        Language::Korean => "韓国語"@,
        Language::French => "フランス語"@,
        Language::German => "ドイツ語"@,
        Language::Spanish => "スペイン語"@,
        Language::Portuguese => "ポルトガル語"@,
        Language::Italian => "イタリア語"@,
        Language::Russian => "ロシア語"@,
        Language::Arabic => "アラビア語"@,
    }
}

impl Language {
    /// The language's name as shown to users.
    pub fn label(&self) -> (r: &'static str)
        ensures
            r@ == label_of(*self),
    {
        match self {
            Language::Japanese => "日本語",
            Language::English => "英語",
            Language::ChineseSimplified => "中国語（簡体字）",
            Language::ChineseTraditional => "中国語（繁体字）",
            Language::Korean => "韓国語",
            Language::French => "フランス語",
            Language::German => "ドイツ語",
            Language::Spanish => "スペイン語",
            Language::Portuguese => "ポルトガル語",
            Language::Italian => "イタリア語",
            Language::Russian => "ロシア語",
            Language::Arabic => "アラビア語",
        }
    }
}

/// The request that asks the model to translate `text` into `language` and
/// to answer with the translation only.
pub open spec fn translation_prompt_of(language: Language, text: Seq<char>) -> Seq<char> {
    "以下のテキストを"@ + label_of(language) + "に翻訳してください。翻訳文のみ出力してください:\n\n"@
        + text
}

/// The request that asks the model to translate `text` into `language`.
pub fn translation_prompt(language: Language, text: &str) -> (r: String)
    ensures
        r@ == translation_prompt_of(language, text@),
{
    join4("以下のテキストを", language.label(), "に翻訳してください。翻訳文のみ出力してください:\n\n", text)
}

/// The most characters of the original text shown beside a translation.
pub const EXCERPT_CHARS: usize = 1000;

/// The original text as shown beside its translation: cut to `EXCERPT_CHARS`
/// characters and marked with `…` when longer.
pub open spec fn excerpt_of(text: Seq<char>) -> Seq<char> {
    if text.len() > EXCERPT_CHARS {
        text.take(EXCERPT_CHARS as int) + "…"@
    } else {
        text
    }
}

/// The original text as shown beside its translation.
pub fn display_excerpt(text: &str) -> (r: String)
    ensures
        r@ == excerpt_of(text@),
{
    if text.unicode_len() > EXCERPT_CHARS {
        let head = text.substring_char(0, EXCERPT_CHARS);
        join2(head, "…")
    } else {
        String::from_str(text)
    }
}

} // verus!
