use vstd::prelude::*;

verus! {

/// Title and subtitle of a typography section.
pub struct SectionText {
    pub title: &'static str,
    pub subtitle: &'static str,
}

/// The page that previews text rendering.
pub struct TypographyPage;

/// The type-scale section's header.
pub fn scale_section() -> (s: SectionText)
    ensures
        s.title@ == "Type Scale"@,
        s.subtitle@ == "Preview the same renderer at small and large text sizes."@,
{
    SectionText { title: "Type Scale", subtitle: "Preview the same renderer at small and large text sizes." }
}

/// The mixed-content section's header.
pub fn mixed_section() -> (s: SectionText)
    ensures
        s.title@ == "Mixed Content"@,
        s.subtitle@ == "Latin, numerals, punctuation, and CJK fallback in one place."@,
{
    SectionText { title: "Mixed Content", subtitle: "Latin, numerals, punctuation, and CJK fallback in one place." }
}

/// The icon-size section's header.
pub fn icon_section() -> (s: SectionText)
    ensures
        s.title@ == "Icon Sizes"@,
        s.subtitle@ == "Font Awesome glyphs previewed across multiple display sizes."@,
{
    SectionText { title: "Icon Sizes", subtitle: "Font Awesome glyphs previewed across multiple display sizes." }
}

} // verus!
