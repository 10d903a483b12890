//! Small types shared by the rest of the crate.

use vstd::prelude::*;
use atspi::text::Granularity;
use crate::scalars::{same_scalars, scalars_of};

verus! {

/// The bus name of an application and the path of one of its objects, as the
/// bus hands them over.
pub type Accessible = (String, String);

/// The attributes of an object: names with their values. Where a name stands
/// more than once, its first value counts.
pub type Attributes = Vec<(String, String)>;

/// A selection given by the scalar indices of its two ends.
pub struct IndexesSelection {
    pub start: i32,
    pub end: i32,
}

/// A selection given by a position and the unit of text around it.
pub struct GranularSelection {
    pub index: i32,
    pub granularity: Granularity,
}

pub enum TextSelectionArea {
    Index(IndexesSelection),
    Granular(GranularSelection),
}

/// How pressing an object's text updates are: the value of its `live`
/// attribute.
#[derive(Debug, PartialEq, Eq, Hash)]
pub enum AriaLive {
    Off,
    Assertive,
    Polite,
    Other(String),
}

/// What an [`AriaLive`] stands for.
pub enum AriaLiveView {
    Off,
    Assertive,
    Polite,
    Other(Seq<char>),
}

impl View for AriaLive {
    type V = AriaLiveView;

    open spec fn view(&self) -> AriaLiveView {
        match self {
            AriaLive::Off => AriaLiveView::Off,
            AriaLive::Assertive => AriaLiveView::Assertive,
            AriaLive::Polite => AriaLiveView::Polite,
            AriaLive::Other(s) => AriaLiveView::Other(s@),
        }
    }
}

/// The level that the text of a `live` attribute names.
pub open spec fn live_named(text: Seq<char>) -> AriaLiveView {
    if text == "off"@ {
        AriaLiveView::Off
    } else if text == "assertive"@ {
        AriaLiveView::Assertive
    } else if text == "polite"@ {
        AriaLiveView::Polite
    } else {
        AriaLiveView::Other(text)
    }
}

impl AriaLive {
    /// Reads the value of a `live` attribute. The three levels are written in
    /// lower case; any other text is kept as it is.
    pub fn parse(text: &str) -> (live: AriaLive)
        ensures
            live@ == live_named(text@),
    {
        let chars = scalars_of(text);
        if same_scalars(&chars, &scalars_of("off")) {
            AriaLive::Off
        } else if same_scalars(&chars, &scalars_of("assertive")) {
            AriaLive::Assertive
        } else if same_scalars(&chars, &scalars_of("polite")) {
            AriaLive::Polite
        } else {
            AriaLive::Other(text.to_owned())
        }
    }
}

/// Whether an update is to be read out whole: the value of an object's
/// `atomic` attribute.
#[derive(Clone, Copy, Debug, PartialEq, Eq, Hash, Structural)]
pub struct AriaAtomic(pub bool);

} // verus!
