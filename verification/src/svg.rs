//! Vector shapes.
use vstd::prelude::*;

verus! {

/// A command of an SVG path.
#[derive(PartialEq, Eq, Clone, Copy, Debug, Structural)]
pub enum PathVerb {
    MoveTo,
    MoveToRelative,
    LineTo,
    LineToRelative,
    QuadTo,
    QuadToRelative,
    SmoothQuadTo,
    SmoothQuadToRelative,
    CubicTo,
    CubicToRelative,
    SmoothCubicTo,
    SmoothCubicToRelative,
    HorizontalLineTo,
    HorizontalLineToRelative,
    VerticalLineTo,
    VerticalLineToRelative,
    EllipticalArcTo,
    EllipticalArcToRelative,
    Close,
}

/// The number that encodes a path command: 1 for `MoveTo` up to 19 for `Close`,
/// absolute commands odd, relative ones the next even number.
pub open spec fn spec_verb_code(v: PathVerb) -> u8 {
    match v {
        PathVerb::MoveTo => 1u8,
        PathVerb::MoveToRelative => 2u8,
        PathVerb::LineTo => 3u8,
        PathVerb::LineToRelative => 4u8,
        PathVerb::QuadTo => 5u8,
        PathVerb::QuadToRelative => 6u8,
        PathVerb::SmoothQuadTo => 7u8,
        PathVerb::SmoothQuadToRelative => 8u8,
        PathVerb::CubicTo => 9u8,
        PathVerb::CubicToRelative => 10u8,
        PathVerb::SmoothCubicTo => 11u8,
        PathVerb::SmoothCubicToRelative => 12u8,
        PathVerb::HorizontalLineTo => 13u8,
        PathVerb::HorizontalLineToRelative => 14u8,
        PathVerb::VerticalLineTo => 15u8,
        PathVerb::VerticalLineToRelative => 16u8,
        PathVerb::EllipticalArcTo => 17u8,
        PathVerb::EllipticalArcToRelative => 18u8,
        PathVerb::Close => 19u8,
    }
}

impl PathVerb {
    /// The number that encodes this command.
    pub fn code(self) -> (r: u8)
        ensures
            r == spec_verb_code(self),
    {
        match self {
            PathVerb::MoveTo => 1,
            PathVerb::MoveToRelative => 2,
            PathVerb::LineTo => 3,
            PathVerb::LineToRelative => 4,
            PathVerb::QuadTo => 5,
            PathVerb::QuadToRelative => 6,
            PathVerb::SmoothQuadTo => 7,
            PathVerb::SmoothQuadToRelative => 8,
            PathVerb::CubicTo => 9,
            PathVerb::CubicToRelative => 10,
            PathVerb::SmoothCubicTo => 11,
            PathVerb::SmoothCubicToRelative => 12,
            PathVerb::HorizontalLineTo => 13,
            PathVerb::HorizontalLineToRelative => 14,
            PathVerb::VerticalLineTo => 15,
            PathVerb::VerticalLineToRelative => 16,
            PathVerb::EllipticalArcTo => 17,
            PathVerb::EllipticalArcToRelative => 18,
            PathVerb::Close => 19,
        }
    }
}

/// Law: different commands have different codes, all in `1..=19`.
pub proof fn lemma_verb_codes_distinct(a: PathVerb, b: PathVerb)
    ensures
        1 <= spec_verb_code(a) <= 19,
        a != b ==> spec_verb_code(a) != spec_verb_code(b),
{
}

/// The codes of a list of path commands, in order.
pub fn encode_verbs(verbs: &Vec<PathVerb>) -> (r: Vec<u8>)
    ensures
        r@.len() == verbs@.len(),
        forall|i: int| 0 <= i < verbs@.len() ==> r@[i] == spec_verb_code(#[trigger] verbs@[i]),
{
    let mut r: Vec<u8> = Vec::with_capacity(verbs.len());
    let mut i: usize = 0;
    while i < verbs.len()
        invariant
            i <= verbs@.len(),
            r@.len() == i,
            forall|k: int| 0 <= k < i ==> r@[k] == spec_verb_code(#[trigger] verbs@[k]),
        decreases verbs@.len() - i,
    {
        r.push(verbs[i].code());
        i += 1;
    }
    r
}

} // verus!
