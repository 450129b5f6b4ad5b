//! The font of a terminal.

use crate::view;
use vstd::prelude::*;

verus! {

/// The platforms that have a font of their own.
#[derive(Clone, Copy, Debug, PartialEq, Eq, Structural)]
pub enum Platform {
    Ohos,
    MacOs,
    Windows,
    Other,
}

/// A font family, and the families that stand in for the characters that it lacks, in the order in
/// which they are tried.
#[derive(Debug, PartialEq, Eq)]
pub struct FontChoice {
    pub family: String,
    pub fallbacks: Vec<String>,
}

/// The default font family of a platform.
pub open spec fn default_family(platform: Platform) -> Seq<char> {
    match platform {
        Platform::Ohos => "HarmonyOS Sans"@,
        Platform::MacOs => "Menlo"@,
        Platform::Windows => "Consolas"@,
        Platform::Other => "DejaVu Sans Mono"@,
    }
}

/// The families that stand in for missing characters: first monospaced ones, then ones for East
/// Asian text, then ones for emoji.
pub open spec fn fallback_families() -> Seq<Seq<char>> {
    seq![
        "SF Mono"@,
        "Menlo"@,
        "Monaco"@,
        "Consolas"@,
        "Cascadia Mono"@,
        "DejaVu Sans Mono"@,
        "Noto Sans Mono"@,
        "JetBrains Mono"@,
        "Fira Mono"@,
        "Sarasa Mono SC"@,
        "Sarasa Term SC"@,
        "Sarasa Mono J"@,
        "Noto Sans Mono CJK SC"@,
        "Noto Sans Mono CJK JP"@,
        "Source Han Mono SC"@,
        "WenQuanYi Zen Hei Mono"@,
        "HarmonyOS Sans"@,
        "HarmonyOS Sans SC"@,
        "Apple Color Emoji"@,
        "Noto Color Emoji"@,
        "Segoe UI Emoji"@,
    ]
}

/// Font features, each with its name and its value.
pub open spec fn feature_views(features: Seq<(String, u32)>) -> Seq<(Seq<char>, u32)> {
    Seq::new(features.len(), |i: int| (features[i].0@, features[i].1))
}

/// The default font of a platform.
pub fn default_terminal_font(platform: Platform) -> (font: FontChoice)
    ensures
        font.family@ == default_family(platform),
        view::texts(font.fallbacks@) == fallback_families(),
{
    let family = match platform {
        Platform::Ohos => "HarmonyOS Sans",
        Platform::MacOs => "Menlo",
        Platform::Windows => "Consolas",
        Platform::Other => "DejaVu Sans Mono",
    };
    let mut fallbacks: Vec<String> = Vec::new();
    fallbacks.push("SF Mono".to_string());
    fallbacks.push("Menlo".to_string());
    fallbacks.push("Monaco".to_string());
    fallbacks.push("Consolas".to_string());
    fallbacks.push("Cascadia Mono".to_string());
    fallbacks.push("DejaVu Sans Mono".to_string());
    fallbacks.push("Noto Sans Mono".to_string());
    fallbacks.push("JetBrains Mono".to_string());
    fallbacks.push("Fira Mono".to_string());
    fallbacks.push("Sarasa Mono SC".to_string());
    fallbacks.push("Sarasa Term SC".to_string());
    fallbacks.push("Sarasa Mono J".to_string());
    fallbacks.push("Noto Sans Mono CJK SC".to_string());
    fallbacks.push("Noto Sans Mono CJK JP".to_string());
    fallbacks.push("Source Han Mono SC".to_string());
    fallbacks.push("WenQuanYi Zen Hei Mono".to_string());
    fallbacks.push("HarmonyOS Sans".to_string());
    fallbacks.push("HarmonyOS Sans SC".to_string());
    fallbacks.push("Apple Color Emoji".to_string());
    fallbacks.push("Noto Color Emoji".to_string());
    fallbacks.push("Segoe UI Emoji".to_string());
    assert(view::texts(fallbacks@) =~= fallback_families());
    FontChoice { family: family.to_string(), fallbacks }
}

/// The font features of a terminal: all that would draw several characters as one, or move them
/// closer together, is off.
pub fn default_terminal_font_features() -> (features: Vec<(String, u32)>)
    ensures
        feature_views(features@) == seq![("calt"@, 0u32), ("liga"@, 0u32), ("kern"@, 0u32)],
{
    let mut features: Vec<(String, u32)> = Vec::new();
    features.push(("calt".to_string(), 0));
    features.push(("liga".to_string(), 0));
    features.push(("kern".to_string(), 0));
    assert(feature_views(features@) =~= seq![("calt"@, 0u32), ("liga"@, 0u32), ("kern"@, 0u32)]);
    features
}

} // verus!
