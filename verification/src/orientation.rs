//! Aspect-ratio classification of media frames.

use vstd::prelude::*;

verus! {

/// The shape of a video frame.
#[derive(Debug, Clone, Copy, PartialEq, Eq, Structural)]
pub enum Orientation {
    Horizontal,
    Vertical,
    Square,
}

impl Orientation {
    /// Wider than tall is horizontal, taller than wide is vertical, otherwise square.
    pub open spec fn of_dimensions(width: u32, height: u32) -> Orientation {
        if width > height {
            Orientation::Horizontal
        } else if height > width {
            Orientation::Vertical
        } else {
            Orientation::Square
        }
    }

    /// The orientation of a `width` x `height` frame.
    pub fn from_dimensions(width: u32, height: u32) -> (o: Self)
        ensures
            o == Self::of_dimensions(width, height),
    {
        if width > height {
            Orientation::Horizontal
        } else if height > width {
            Orientation::Vertical
        } else {
            Orientation::Square
        }
    }

    /// The long, user-facing description of the orientation.
    pub open spec fn display_text(self) -> Seq<char> {
        match self {
            Orientation::Horizontal => "Horizontal (Landscape - 16:9 / 4:3)"@,
            Orientation::Vertical => "Vertical (Portrait - 9:16 Shorts/TikTok/Reels)"@,
            Orientation::Square => "Square (1:1)"@,
        }
    }

    /// The long, user-facing description of the orientation.
    pub fn display_name(&self) -> (s: &'static str)
        ensures
            s@ == self.display_text(),
    {
        match self {
            Orientation::Horizontal => "Horizontal (Landscape - 16:9 / 4:3)",
            Orientation::Vertical => "Vertical (Portrait - 9:16 Shorts/TikTok/Reels)",
            Orientation::Square => "Square (1:1)",
        }
    }

    /// The one-word name of the orientation.
    pub fn short_name(&self) -> (s: &'static str)
        ensures
            s@ == match *self {
                Orientation::Horizontal => "Horizontal"@,
                Orientation::Vertical => "Vertical"@,
                Orientation::Square => "Square"@,
            },
    {
        match self {
            Orientation::Horizontal => "Horizontal",
            Orientation::Vertical => "Vertical",
            Orientation::Square => "Square",
        }
    }
}

} // verus!
