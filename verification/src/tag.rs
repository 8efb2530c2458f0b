//! Marker components the presentation layer attaches to its score text
//! and food objects, so render updates can be addressed to them.

use vstd::prelude::*;

verus! {

/// What kind of presentation object a tag marks.
#[derive(Clone, Copy, PartialEq, Eq, Structural, Debug)]
pub enum TagType {
    ScoreText,
    Food,
}

impl Default for TagType {
    fn default() -> (r: Self)
        ensures
            r == TagType::Food,
    {
        Self::Food
    }
}

/// A marker wrapping the object kind.
#[derive(Clone, Copy, PartialEq, Eq, Structural, Debug)]
pub struct Tag(pub TagType);

impl Tag {
    pub fn score_text() -> (r: Self)
        ensures
            r == Tag(TagType::ScoreText),
    {
        Self(TagType::ScoreText)
    }

    pub fn food() -> (r: Self)
        ensures
            r == Tag(TagType::Food),
    {
        Self(TagType::Food)
    }
}

} // verus!
