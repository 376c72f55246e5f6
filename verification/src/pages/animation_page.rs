use vstd::prelude::*;

verus! {

/// Which motion a sample card demonstrates.
#[derive(Debug, Clone, Copy, PartialEq, Eq, Structural)]
pub enum SampleKind {
    Fade,
    Scale,
    Move,
    Rotate,
}

/// Text and kind of one sample card.
#[derive(Debug, Clone, Copy)]
pub struct CardSpec {
    pub title: &'static str,
    pub line1: &'static str,
    pub line2: &'static str,
    pub badge: &'static str,
    pub kind: SampleKind,
}

/// The page that previews motion tracks on sample cards.
pub struct AnimationPage;

/// The four sample cards, in display order: fade, scale, move, rotate.
pub fn cards() -> (r: [CardSpec; 4])
    ensures
        r@[0].kind == SampleKind::Fade,
        r@[1].kind == SampleKind::Scale,
        r@[2].kind == SampleKind::Move,
        r@[3].kind == SampleKind::Rotate,
        r@[0].title@ == "Fade Alpha"@,
        r@[1].title@ == "Uniform Scale"@,
        r@[2].title@ == "Move XY"@,
        r@[3].title@ == "Triangle Rotate"@,
        r@[0].badge@ == ".hoverOpacity()"@,
        r@[1].badge@ == ".hoverScale()"@,
        r@[2].badge@ == ".hoverTranslate*"@,
        r@[3].badge@ == "panel + polygon"@,
        r@[0].line1@ == "Hover sample to fade between"@,
        r@[0].line2@ == "two opacity states."@,
        r@[1].line1@ == "Hover sample to scale"@,
        r@[1].line2@ == "both axes together."@,
        r@[2].line1@ == "Hover sample to shift"@,
        r@[2].line2@ == "x / y with one builder."@,
        r@[3].line1@ == "Hover sample to rotate triangle"@,
        r@[3].line2@ == "and blend plate color."@,
{
    [
        CardSpec {
            title: "Fade Alpha",
            line1: "Hover sample to fade between",
            line2: "two opacity states.",
            badge: ".hoverOpacity()",
            kind: SampleKind::Fade,
        },
        CardSpec {
            title: "Uniform Scale",
            line1: "Hover sample to scale",
            line2: "both axes together.",
            badge: ".hoverScale()",
            kind: SampleKind::Scale,
        },
        CardSpec {
            title: "Move XY",
            line1: "Hover sample to shift",
            line2: "x / y with one builder.",
            badge: ".hoverTranslate*",
            kind: SampleKind::Move,
        },
        CardSpec {
            title: "Triangle Rotate",
            line1: "Hover sample to rotate triangle",
            line2: "and blend plate color.",
            badge: "panel + polygon",
            kind: SampleKind::Rotate,
        },
    ]
}

} // verus!
