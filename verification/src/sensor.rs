//! A snapshot of the machine's sensors, and the extraction of the
//! temperature that each feature reports.
//!
//! The types here hold one enumeration pass as plain values. What could not
//! be obtained during the pass (a chip's name, a feature's label, a
//! subfeature's value) is `None`.

use vstd::prelude::*;
use crate::color::Celsius;

verus! {

/// Whether `c` is a visible ASCII character: neither a control character
/// nor a blank.
pub open spec fn is_graphic(c: char) -> bool {
    '!' <= c <= '~'
}

/// Whether `text` can stand for a number on a line of output: it is not
/// empty and all its characters are visible ASCII.
pub open spec fn is_plain(text: Seq<char>) -> bool {
    &&& text.len() > 0
    &&& forall|i: int| 0 <= i < text.len() ==> is_graphic(#[trigger] text[i])
}

/// What a subfeature measures or bounds.
#[derive(Clone, Copy, Debug, PartialEq, Eq, Structural)]
pub enum SubfeatureKind {
    /// The current temperature.
    TemperatureInput,
    /// The temperature from which on the sensor reports "high".
    TemperatureHigh,
    /// The temperature from which on the sensor reports "critical".
    TemperatureCritical,
    /// The speed of a fan.
    FanSpeed,
    /// A voltage.
    Voltage,
    /// Anything else.
    Other,
}

/// A value that was read from a subfeature: the temperature itself, and the
/// decimal text under which it is shown. The text is always plain.
#[derive(Debug)]
pub struct Reading {
    celsius: Celsius,
    text: String,
}

/// A reading, as a mathematical value.
pub struct ReadingView {
    pub celsius: Celsius,
    pub text: Seq<char>,
}

impl View for Reading {
    type V = ReadingView;

    closed spec fn view(&self) -> ReadingView {
        ReadingView { celsius: self.celsius, text: self.text@ }
    }
}

impl Reading {
    #[verifier::type_invariant]
    spec fn plain_text(self) -> bool {
        is_plain(self.text@)
    }

    /// A reading of `celsius` that is shown as `text`, if `text` is plain.
    pub fn new(celsius: Celsius, text: String) -> (reading: Option<Reading>)
        ensures
            reading is Some <==> is_plain(text@),
            reading matches Some(r) ==> r@ == (ReadingView { celsius, text: text@ }),
    {
        let length: usize = text.as_str().unicode_len();
        if length == 0 {
            return None;
        }
        let mut index: usize = 0;
        while index < length
            invariant
                length == text@.len(),
                index <= length,
                forall|i: int| 0 <= i < index ==> is_graphic(#[trigger] text@[i]),
            decreases length - index,
        {
            let c: char = text.as_str().get_char(index);
            if c < '!' || c > '~' {
                return None;
            }
            index = index + 1;
        }
        Some(Reading { celsius, text })
    }

    /// The temperature that was read.
    pub fn celsius(&self) -> (celsius: Celsius)
        ensures
            celsius == self@.celsius,
    {
        self.celsius
    }

    /// The decimal text of the temperature.
    pub fn text(&self) -> (text: &str)
        ensures
            text@ == self@.text,
            is_plain(text@),
    {
        proof {
            use_type_invariant(self);
        }
        self.text.as_str()
    }
}

impl Clone for Reading {
    fn clone(&self) -> (copy: Self)
        ensures
            copy@ == self@,
    {
        proof {
            use_type_invariant(self);
        }
        Reading { celsius: self.celsius, text: self.text.clone() }
    }
}

/// One raw measurement or threshold of a feature.
#[derive(Debug)]
pub struct Subfeature {
    pub kind: SubfeatureKind,
    /// The value, or `None` where it could not be read.
    pub value: Option<Reading>,
}

/// A subfeature, as a mathematical value.
pub struct SubfeatureView {
    pub kind: SubfeatureKind,
    pub value: Option<ReadingView>,
}

impl View for Subfeature {
    type V = SubfeatureView;

    open spec fn view(&self) -> SubfeatureView {
        SubfeatureView {
            kind: self.kind,
            value: match self.value {
                Some(reading) => Some(reading@),
                None => None,
            },
        }
    }
}

/// The views of a run of subfeatures.
pub open spec fn subfeature_views(subfeatures: Seq<Subfeature>) -> Seq<SubfeatureView> {
    subfeatures.map_values(|s: Subfeature| s@)
}

/// One measurable point of a chip, such as the sensor of one core.
#[derive(Debug)]
pub struct Feature {
    /// The human-readable label, or `None` where the feature has none.
    pub label: Option<String>,
    pub subfeatures: Vec<Subfeature>,
}

/// A feature, as a mathematical value.
pub struct FeatureView {
    pub label: Option<Seq<char>>,
    pub subfeatures: Seq<SubfeatureView>,
}

impl View for Feature {
    type V = FeatureView;

    open spec fn view(&self) -> FeatureView {
        FeatureView {
            label: match self.label {
                Some(label) => Some(label@),
                None => None,
            },
            subfeatures: subfeature_views(self.subfeatures@),
        }
    }
}

/// The views of a run of features.
pub open spec fn feature_views(features: Seq<Feature>) -> Seq<FeatureView> {
    features.map_values(|f: Feature| f@)
}

/// One device that bears sensors.
#[derive(Debug)]
pub struct Chip {
    /// The display name, or `None` where it could not be obtained.
    pub name: Option<String>,
    pub features: Vec<Feature>,
}

/// A chip, as a mathematical value.
pub struct ChipView {
    pub name: Option<Seq<char>>,
    pub features: Seq<FeatureView>,
}

impl View for Chip {
    type V = ChipView;

    open spec fn view(&self) -> ChipView {
        ChipView {
            name: match self.name {
                Some(name) => Some(name@),
                None => None,
            },
            features: feature_views(self.features@),
        }
    }
}

/// Whether a subfeature holds a temperature that can be shown: it is a
/// temperature input and its value was read.
pub open spec fn qualifies(subfeature: SubfeatureView) -> bool {
    subfeature.kind == SubfeatureKind::TemperatureInput && subfeature.value is Some
}

/// The value of the first qualifying subfeature, if there is one.
pub open spec fn first_reading(subfeatures: Seq<SubfeatureView>) -> Option<ReadingView>
    decreases subfeatures.len(),
{
    if subfeatures.len() == 0 {
        None
    } else if qualifies(subfeatures[0]) {
        subfeatures[0].value
    } else {
        first_reading(subfeatures.drop_first())
    }
}

/// The label and temperature of a feature: present if the feature has a
/// label and a qualifying subfeature.
pub open spec fn pair_of(feature: FeatureView) -> Option<(Seq<char>, ReadingView)> {
    match (feature.label, first_reading(feature.subfeatures)) {
        (Some(label), Some(reading)) => Some((label, reading)),
        _ => None,
    }
}

/// The view of a pair as `temperature_pair_for_feature` returns it.
pub open spec fn pair_view(pair: Option<(String, Reading)>) -> Option<(Seq<char>, ReadingView)> {
    match pair {
        Some((label, reading)) => Some((label@, reading@)),
        None => None,
    }
}

/// `first_reading` is the value at the least qualifying index: no
/// subfeature before it qualifies. Where it is `None`, none qualifies.
pub proof fn lemma_first_reading(subfeatures: Seq<SubfeatureView>)
    ensures
        match first_reading(subfeatures) {
            Some(reading) => exists|i: int|
                0 <= i < subfeatures.len() && qualifies(#[trigger] subfeatures[i])
                    && subfeatures[i].value == Some(reading) && forall|j: int|
                    0 <= j < i ==> !qualifies(#[trigger] subfeatures[j]),
            None => forall|j: int|
                0 <= j < subfeatures.len() ==> !qualifies(#[trigger] subfeatures[j]),
        },
    decreases subfeatures.len(),
{
    if subfeatures.len() == 0 {
    } else if qualifies(subfeatures[0]) {
        assert(subfeatures[0].value == first_reading(subfeatures));
    } else {
        let rest: Seq<SubfeatureView> = subfeatures.drop_first();
        lemma_first_reading(rest);
        assert(forall|j: int| 0 <= j < rest.len() ==> rest[j] == subfeatures[j + 1]);
        match first_reading(rest) {
            Some(reading) => {
                let i: int = choose|i: int|
                    0 <= i < rest.len() && qualifies(#[trigger] rest[i]) && rest[i].value
                        == Some(reading) && forall|j: int|
                        0 <= j < i ==> !qualifies(#[trigger] rest[j]);
                assert(qualifies(subfeatures[i + 1]));
                assert forall|j: int| 0 <= j < i + 1 implies !qualifies(
                    #[trigger] subfeatures[j],
                ) by {
                    if j > 0 {
                        assert(!qualifies(rest[j - 1]));
                    }
                }
            },
            None => {
                assert forall|j: int| 0 <= j < subfeatures.len() implies !qualifies(
                    #[trigger] subfeatures[j],
                ) by {
                    if j > 0 {
                        assert(!qualifies(rest[j - 1]));
                    }
                }
            },
        }
    }
}

/// Skipping subfeatures that do not qualify leaves the first reading as it
/// was.
proof fn lemma_first_reading_skips(subfeatures: Seq<SubfeatureView>, n: int)
    requires
        0 <= n <= subfeatures.len(),
        forall|j: int| 0 <= j < n ==> !qualifies(#[trigger] subfeatures[j]),
    ensures
        first_reading(subfeatures) == first_reading(subfeatures.skip(n)),
    decreases n,
{
    if n == 0 {
        assert(subfeatures.skip(0) =~= subfeatures);
    } else {
        assert(!qualifies(subfeatures[0]));
        let rest: Seq<SubfeatureView> = subfeatures.drop_first();
        assert forall|j: int| 0 <= j < n - 1 implies !qualifies(#[trigger] rest[j]) by {
            assert(rest[j] == subfeatures[j + 1]);
        }
        lemma_first_reading_skips(rest, n - 1);
        assert(rest.skip(n - 1) =~= subfeatures.skip(n));
    }
}

/// Finds the value of the first subfeature that is a temperature input and
/// whose value was read.
pub fn first_temperature_input(subfeatures: &Vec<Subfeature>) -> (found: Option<&Reading>)
    ensures
        first_reading(subfeature_views(subfeatures@)) == match found {
            Some(reading) => Some(reading@),
            None => None,
        },
{
    let ghost views: Seq<SubfeatureView> = subfeature_views(subfeatures@);
    let mut index: usize = 0;
    while index < subfeatures.len()
        invariant
            index <= subfeatures.len(),
            views == subfeature_views(subfeatures@),
            forall|j: int| 0 <= j < index ==> !qualifies(#[trigger] views[j]),
        decreases subfeatures.len() - index,
    {
        let subfeature: &Subfeature = &subfeatures[index];
        match subfeature.kind {
            SubfeatureKind::TemperatureInput => {
                if let Some(reading) = &subfeature.value {
                    proof {
                        lemma_first_reading_skips(views, index as int);
                        assert(views.skip(index as int)[0] == subfeature@);
                    }
                    return Some(reading);
                }
            },
            _ => {},
        }
        index = index + 1;
    }
    proof {
        lemma_first_reading_skips(views, index as int);
        assert(views.skip(index as int).len() == 0);
    }
    None
}

/// Gets the label and current temperature of a feature.
///
/// A feature without a label yields nothing, whatever it measures. Of
/// several temperature inputs whose value was read, the first one counts.
pub fn temperature_pair_for_feature(feature: &Feature) -> (pair: Option<(String, Reading)>)
    ensures
        pair_view(pair) == pair_of(feature@),
{
    match &feature.label {
        Some(label) => match first_temperature_input(&feature.subfeatures) {
            Some(reading) => Some((label.clone(), reading.clone())),
            None => None,
        },
        None => None,
    }
}

} // verus!
