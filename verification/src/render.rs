//! Rendering a snapshot as lines of text.
//!
//! A chip with at least one temperature is rendered as a header line, its
//! name, followed by one line per temperature, `<label>: <value>°C`, in the
//! order of the chip's features. Only the value is coloured. A chip without
//! a temperature is rendered as nothing at all.
//!
//! Whether a value is in fact wrapped in colour codes is decided by the
//! `colored` crate, from the process environment, each time a value is
//! painted. The functions here therefore promise a text for some sequence
//! of such decisions, one `bool` per temperature.

use vstd::prelude::*;
use colored::Colorize;
use crate::color::{color_for_temperature, color_of, Color};
use crate::sensor::{
    feature_views, is_graphic, pair_of, temperature_pair_for_feature, Chip, ChipView, Feature,
    FeatureView, Reading, ReadingView,
};

verus! {

/// The escape character, which opens every terminal control sequence.
pub const ESCAPE: char = '\u{1b}';

/// Why a chip could not be rendered.
#[derive(Clone, Copy, Debug, PartialEq, Eq, Structural)]
pub enum RenderError {
    /// The chip's name could not be obtained.
    NameUnavailable,
}

/// Why a pass over all chips was given up.
#[derive(Clone, Copy, Debug, PartialEq, Eq, Structural)]
pub struct PassError {
    /// The position of the first chip that could not be rendered.
    pub chip: usize,
    pub cause: RenderError,
}

/// The parameter by which a terminal selects a foreground colour.
pub open spec fn foreground_code(color: Color) -> Seq<char> {
    match color {
        Color::BrightRed => seq!['9', '1'],
        Color::BrightYellow => seq!['9', '3'],
        Color::BrightGreen => seq!['9', '2'],
        Color::BrightBlue => seq!['9', '4'],
        Color::BrightMagenta => seq!['9', '5'],
        Color::White => seq!['3', '7'],
    }
}

/// `text` between the sequence that selects `color` and the sequence that
/// resets all attributes.
pub open spec fn painted(text: Seq<char>, color: Color) -> Seq<char> {
    seq![ESCAPE, '['] + foreground_code(color) + seq!['m'] + text + seq![ESCAPE, '[', '0', 'm']
}

/// Whether `text` holds no escape character.
pub open spec fn escape_free(text: Seq<char>) -> bool {
    forall|i: int| 0 <= i < text.len() ==> #[trigger] text[i] != ESCAPE
}

/// A reading as it is shown before any colouring: its text and the unit.
pub open spec fn value_text(reading: ReadingView) -> Seq<char> {
    reading.text + seq!['°', 'C']
}

/// A reading as it is shown: painted in the colour of its temperature, or
/// left as it is.
pub open spec fn shown_value(reading: ReadingView, paint: bool) -> Seq<char> {
    if paint {
        painted(value_text(reading), color_of(reading.celsius))
    } else {
        value_text(reading)
    }
}

/// The line for one temperature.
pub open spec fn line_text(label: Seq<char>, shown: Seq<char>) -> Seq<char> {
    label + seq![':', ' '] + shown + seq!['\n']
}

/// The temperatures of a chip: the pairs of its features that have one, in
/// the order of the features.
pub open spec fn pairs_of(features: Seq<FeatureView>) -> Seq<(Seq<char>, ReadingView)>
    decreases features.len(),
{
    if features.len() == 0 {
        Seq::empty()
    } else {
        let before = pairs_of(features.drop_last());
        match pair_of(features.last()) {
            Some(pair) => before.push(pair),
            None => before,
        }
    }
}

/// The lines of the first `count` pairs, the `i`-th painted if `paints[i]`.
pub open spec fn lines_text(
    pairs: Seq<(Seq<char>, ReadingView)>,
    paints: Seq<bool>,
    count: nat,
) -> Seq<char>
    decreases count,
{
    if count == 0 {
        Seq::empty()
    } else {
        let last = (count - 1) as nat;
        lines_text(pairs, paints, last) + line_text(
            pairs[last as int].0,
            shown_value(pairs[last as int].1, paints[last as int]),
        )
    }
}

/// What a chip named `name` with the temperatures `pairs` is rendered as.
pub open spec fn block_text(
    name: Seq<char>,
    pairs: Seq<(Seq<char>, ReadingView)>,
    paints: Seq<bool>,
) -> Seq<char> {
    if pairs.len() == 0 {
        Seq::empty()
    } else {
        name + seq!['\n'] + lines_text(pairs, paints, pairs.len())
    }
}

/// What a chip whose name is known is rendered as.
pub open spec fn chip_text(chip: ChipView, paints: Seq<bool>) -> Seq<char>
    recommends
        chip.name is Some,
{
    block_text(chip.name->0, pairs_of(chip.features), paints)
}

/// Whether `paints` holds one decision for each temperature of `chip`.
pub open spec fn fits(chip: ChipView, paints: Seq<bool>) -> bool {
    paints.len() == pairs_of(chip.features).len()
}

/// What the first `count` chips are rendered as, one after the other.
pub open spec fn frame_text(chips: Seq<ChipView>, paints: Seq<Seq<bool>>, count: nat) -> Seq<char>
    decreases count,
{
    if count == 0 {
        Seq::empty()
    } else {
        let last = (count - 1) as nat;
        frame_text(chips, paints, last) + chip_text(chips[last as int], paints[last as int])
    }
}

/// Whether `paints` holds, for each chip, one decision for each of its
/// temperatures.
pub open spec fn all_fit(chips: Seq<ChipView>, paints: Seq<Seq<bool>>) -> bool {
    &&& paints.len() == chips.len()
    &&& forall|i: int| 0 <= i < chips.len() ==> fits(#[trigger] chips[i], paints[i])
}

/// The views of a vector of pairs.
pub open spec fn pairs_view(pairs: Seq<(String, Reading)>) -> Seq<(Seq<char>, ReadingView)> {
    pairs.map_values(|pair: (String, Reading)| (pair.0@, pair.1@))
}

/// The views of a vector of chips.
pub open spec fn chips_view(chips: Seq<Chip>) -> Seq<ChipView> {
    chips.map_values(|chip: Chip| chip@)
}

/// Colours `text` with the `colored` crate: calls `Colorize::color` on it
/// and formats the result as `{}` does.
///
/// Claimed of `colored`: where colouring is switched off, the text comes
/// back as it is; where it is on, the text comes back between the sequence
/// `ESC [ <code> m`, with the foreground code of the colour, and the reset
/// sequence `ESC [ 0 m`. Which of the two happens is decided by
/// `colored::control::SHOULD_COLORIZE`, from the process environment or an
/// override, and may differ from call to call; it is taken not to change
/// while one call runs. A text that itself holds an escape character is
/// left out: `colored` may rewrite such a text.
#[verifier::external_body]
fn paint(text: &str, color: Color) -> (shown: String)
    requires
        escape_free(text@),
    ensures
        shown@ == text@ || shown@ == painted(text@, color),
{
    let outside = match color {
        Color::BrightRed => colored::Color::BrightRed,
        Color::BrightYellow => colored::Color::BrightYellow,
        Color::BrightGreen => colored::Color::BrightGreen,
        Color::BrightBlue => colored::Color::BrightBlue,
        Color::BrightMagenta => colored::Color::BrightMagenta,
        Color::White => colored::Color::White,
    };
    text.color(outside).to_string()
}

/// Appends the line for one temperature to `out`: the label, a colon and a
/// blank, the value as it is to be shown, and a line feed.
pub fn push_line(out: &mut String, label: &str, shown: &str)
    ensures
        final(out)@ == old(out)@ + line_text(label@, shown@),
{
    proof {
        reveal_strlit(": ");
        reveal_strlit("\n");
    }
    out.append(label);
    out.append(": ");
    out.append(shown);
    out.append("\n");
    assert(out@ =~= old(out)@ + line_text(label@, shown@));
}

/// Shows a reading: its text and the unit, painted in the colour of its
/// temperature where colouring is on.
pub fn show_reading(reading: &Reading) -> (shown: String)
    ensures
        shown@ == shown_value(reading@, false) || shown@ == shown_value(reading@, true),
{
    let color: Color = color_for_temperature(reading.celsius());
    let mut value: String = String::new();
    value.append(reading.text());
    value.append("°C");
    proof {
        reveal_strlit("°C");
        assert(value@ =~= value_text(reading@));
        assert(escape_free(value@)) by {
            assert forall|i: int| 0 <= i < value@.len() implies #[trigger] value@[i] != ESCAPE by {
                if i < reading@.text.len() {
                    assert(is_graphic(reading@.text[i]));
                }
            }
        }
    }
    paint(value.as_str(), color)
}

/// Collects the temperatures of a chip, in the order of its features.
pub fn temperature_pairs(features: &Vec<Feature>) -> (pairs: Vec<(String, Reading)>)
    ensures
        pairs_view(pairs@) == pairs_of(feature_views(features@)),
{
    let ghost views: Seq<FeatureView> = feature_views(features@);
    let mut pairs: Vec<(String, Reading)> = Vec::new();
    let mut index: usize = 0;
    assert(views.take(0) =~= Seq::empty());
    assert(pairs_view(pairs@) =~= Seq::empty());
    while index < features.len()
        invariant
            index <= features.len(),
            views == feature_views(features@),
            pairs_view(pairs@) == pairs_of(views.take(index as int)),
        decreases features.len() - index,
    {
        let ghost before: Seq<(String, Reading)> = pairs@;
        let found: Option<(String, Reading)> = temperature_pair_for_feature(&features[index]);
        proof {
            let upto: Seq<FeatureView> = views.take(index + 1);
            assert(upto.drop_last() =~= views.take(index as int));
            assert(upto.last() == features@[index as int]@);
        }
        match found {
            Some(pair) => {
                pairs.push(pair);
                assert(pairs_view(pairs@) =~= pairs_view(before).push((pair.0@, pair.1@)));
            },
            None => {},
        }
        index = index + 1;
    }
    assert(views.take(index as int) =~= views);
    pairs
}

/// Writes the temperatures of the given chip to the output buffer.
///
/// Fails, and writes nothing, if the chip's name is not available. Writes
/// nothing either if the chip has no temperature to show. Otherwise appends
/// the chip's name on a line of its own and one line for each temperature.
pub fn write_chip(chip: &Chip, out: &mut String) -> (result: Result<(), RenderError>)
    ensures
        match result {
            Ok(()) => {
                &&& chip@.name is Some
                &&& exists|paints: Seq<bool>|
                    fits(chip@, paints) && final(out)@ == old(out)@ + #[trigger] chip_text(
                        chip@,
                        paints,
                    )
            },
            Err(error) => {
                &&& chip@.name is None
                &&& error == RenderError::NameUnavailable
                &&& final(out)@ == old(out)@
            },
        },
{
    let chip_name: &String = match &chip.name {
        Some(name) => name,
        None => {
            return Err(RenderError::NameUnavailable);
        },
    };
    assert(chip@.name == Some(chip_name@));
    let feature_pairs: Vec<(String, Reading)> = temperature_pairs(&chip.features);
    let ghost pairs: Seq<(Seq<char>, ReadingView)> = pairs_of(chip@.features);
    let ghost mut paints: Seq<bool> = Seq::empty();

    // Only display the sensors if we have some data to show.
    if feature_pairs.len() > 0 {
        proof {
            reveal_strlit("\n");
        }
        out.append(chip_name.as_str());
        out.append("\n");
        let ghost header: Seq<char> = old(out)@ + chip_name@ + seq!['\n'];
        assert(out@ =~= header + lines_text(pairs, paints, 0));

        let mut index: usize = 0;
        while index < feature_pairs.len()
            invariant
                index <= feature_pairs.len(),
                pairs == pairs_view(feature_pairs@),
                paints.len() == index,
                out@ == header + lines_text(pairs, paints, index as nat),
            decreases feature_pairs.len() - index,
        {
            let pair: &(String, Reading) = &feature_pairs[index];
            let shown: String = show_reading(&pair.1);
            let ghost before: Seq<bool> = paints;
            proof {
                paints = paints.push(shown@ == shown_value(pair.1@, true));
                assert(pairs[index as int] == (pair.0@, pair.1@));
                lemma_lines_text_ignores_later(pairs, before, paints, index as nat);
            }
            push_line(out, pair.0.as_str(), shown.as_str());
            index = index + 1;
            assert(out@ =~= header + lines_text(pairs, paints, index as nat));
        }
        assert(out@ =~= old(out)@ + chip_text(chip@, paints));
    } else {
        assert(out@ =~= old(out)@ + chip_text(chip@, paints));
    }
    assert(fits(chip@, paints));
    Ok(())
}

/// Renders all chips into one buffer, so that a pass reaches the terminal
/// in one piece.
///
/// The pass is given up at the first chip whose name is not available, and
/// then no text is returned at all.
pub fn render_chips(chips: &Vec<Chip>) -> (result: Result<String, PassError>)
    ensures
        match result {
            Ok(text) => {
                &&& forall|i: int| 0 <= i < chips.len() ==> chips[i]@.name is Some
                &&& exists|paints: Seq<Seq<bool>>|
                    all_fit(chips_view(chips@), paints) && text@ == #[trigger] frame_text(
                        chips_view(chips@),
                        paints,
                        chips.len() as nat,
                    )
            },
            Err(error) => {
                &&& error.chip < chips.len()
                &&& chips[error.chip as int]@.name is None
                &&& forall|i: int| 0 <= i < error.chip ==> chips[i]@.name is Some
                &&& error.cause == RenderError::NameUnavailable
            },
        },
{
    let ghost views: Seq<ChipView> = chips_view(chips@);
    let ghost mut paints: Seq<Seq<bool>> = Seq::empty();
    let mut buffer: String = String::new();
    let mut index: usize = 0;
    while index < chips.len()
        invariant
            index <= chips.len(),
            views == chips_view(chips@),
            paints.len() == index,
            forall|i: int| 0 <= i < index ==> chips[i]@.name is Some,
            forall|i: int| 0 <= i < index ==> fits(#[trigger] views[i], paints[i]),
            buffer@ == frame_text(views, paints, index as nat),
        decreases chips.len() - index,
    {
        let ghost before: Seq<char> = buffer@;
        let ghost earlier: Seq<Seq<bool>> = paints;
        match write_chip(&chips[index], &mut buffer) {
            Ok(()) => {
                proof {
                    let chip: ChipView = views[index as int];
                    let chosen: Seq<bool> = choose|chosen: Seq<bool>|
                        fits(chip, chosen) && buffer@ == before + #[trigger] chip_text(
                            chip,
                            chosen,
                        );
                    paints = paints.push(chosen);
                    lemma_frame_text_ignores_later(views, earlier, paints, index as nat);
                }
            },
            Err(cause) => {
                return Err(PassError { chip: index, cause });
            },
        }
        index = index + 1;
    }
    Ok(buffer)
}

/// The lines of the first `count` pairs depend on the first `count`
/// decisions only.
proof fn lemma_lines_text_ignores_later(
    pairs: Seq<(Seq<char>, ReadingView)>,
    first: Seq<bool>,
    second: Seq<bool>,
    count: nat,
)
    requires
        count <= first.len(),
        count <= second.len(),
        forall|i: int| 0 <= i < count ==> first[i] == second[i],
    ensures
        lines_text(pairs, first, count) == lines_text(pairs, second, count),
    decreases count,
{
    if count > 0 {
        lemma_lines_text_ignores_later(pairs, first, second, (count - 1) as nat);
    }
}

/// The rendering of the first `count` chips depends on the decisions for
/// those chips only.
proof fn lemma_frame_text_ignores_later(
    chips: Seq<ChipView>,
    first: Seq<Seq<bool>>,
    second: Seq<Seq<bool>>,
    count: nat,
)
    requires
        count <= first.len(),
        count <= second.len(),
        forall|i: int| 0 <= i < count ==> first[i] == second[i],
    ensures
        frame_text(chips, first, count) == frame_text(chips, second, count),
    decreases count,
{
    if count > 0 {
        lemma_frame_text_ignores_later(chips, first, second, (count - 1) as nat);
    }
}

/// The temperatures of two runs of features, one after the other, are the
/// temperatures of the first run followed by those of the second.
pub proof fn lemma_pairs_of_concat(first: Seq<FeatureView>, second: Seq<FeatureView>)
    ensures
        pairs_of(first + second) == pairs_of(first) + pairs_of(second),
    decreases second.len(),
{
    if second.len() == 0 {
        assert(first + second =~= first);
        assert(pairs_of(first) + pairs_of(second) =~= pairs_of(first));
    } else {
        let whole: Seq<FeatureView> = first + second;
        assert(whole.drop_last() =~= first + second.drop_last());
        assert(whole.last() == second.last());
        lemma_pairs_of_concat(first, second.drop_last());
        match pair_of(second.last()) {
            Some(pair) => {
                assert(pairs_of(whole) =~= pairs_of(first) + pairs_of(second));
            },
            None => {},
        }
    }
}

/// A feature without a temperature to show contributes nothing to the
/// rendering of its chip: with the feature and without it, the chip is
/// rendered alike.
pub proof fn lemma_silent_feature_contributes_nothing(
    name: Option<Seq<char>>,
    before: Seq<FeatureView>,
    feature: FeatureView,
    after: Seq<FeatureView>,
    paints: Seq<bool>,
)
    requires
        pair_of(feature) is None,
    ensures
        pairs_of(before + seq![feature] + after) == pairs_of(before + after),
        chip_text(ChipView { name, features: before + seq![feature] + after }, paints)
            == chip_text(ChipView { name, features: before + after }, paints),
{
    let alone: Seq<FeatureView> = seq![feature];
    assert(alone.drop_last() =~= Seq::empty());
    assert(pairs_of(alone.drop_last()) =~= Seq::empty());
    assert(pairs_of(alone) =~= Seq::empty());
    lemma_pairs_of_concat(before, alone);
    lemma_pairs_of_concat(before + alone, after);
    lemma_pairs_of_concat(before, after);
    assert(pairs_of(before) + pairs_of(alone) =~= pairs_of(before));
}

/// A feature whose label is not available has no temperature to show,
/// whatever its subfeatures hold, and so contributes nothing to the
/// rendering of its chip.
pub proof fn lemma_unlabelled_feature_contributes_nothing(
    name: Option<Seq<char>>,
    before: Seq<FeatureView>,
    feature: FeatureView,
    after: Seq<FeatureView>,
    paints: Seq<bool>,
)
    requires
        feature.label is None,
    ensures
        pair_of(feature) is None,
        chip_text(ChipView { name, features: before + seq![feature] + after }, paints)
            == chip_text(ChipView { name, features: before + after }, paints),
{
    lemma_silent_feature_contributes_nothing(name, before, feature, after, paints);
}

/// A chip none of whose features has a temperature to show is rendered as
/// nothing, not even its name.
pub proof fn lemma_silent_chip_renders_nothing(chip: ChipView, paints: Seq<bool>)
    requires
        forall|i: int| 0 <= i < chip.features.len() ==> pair_of(#[trigger] chip.features[i]) is None,
    ensures
        pairs_of(chip.features).len() == 0,
        chip_text(chip, paints) == Seq::<char>::empty(),
    decreases chip.features.len(),
{
    if chip.features.len() > 0 {
        let fewer: ChipView = ChipView { name: chip.name, features: chip.features.drop_last() };
        lemma_silent_chip_renders_nothing(fewer, paints);
        assert(pair_of(chip.features[chip.features.len() - 1]) is None);
    }
}

/// Rendering is repeatable: two renderings of the same chips in which the
/// same colouring decisions are taken for every temperature are the same
/// text, character for character.
pub proof fn lemma_same_decisions_same_text(
    chips: Seq<ChipView>,
    first: Seq<Seq<bool>>,
    second: Seq<Seq<bool>>,
    count: nat,
)
    requires
        count <= chips.len(),
        count <= first.len(),
        count <= second.len(),
        forall|i: int|
            0 <= i < count ==> fits(#[trigger] chips[i], first[i]) && fits(chips[i], second[i]),
        forall|i: int, j: int|
            0 <= i < count && 0 <= j < first[i].len() ==> first[i][j] == #[trigger] second[i][j],
    ensures
        frame_text(chips, first, count) == frame_text(chips, second, count),
    decreases count,
{
    if count > 0 {
        let last: int = count - 1;
        lemma_same_decisions_same_text(chips, first, second, last as nat);
        assert(fits(chips[last], first[last]) && fits(chips[last], second[last]));
        assert(first[last] =~= second[last]) by {
            assert forall|j: int| 0 <= j < first[last].len() implies first[last][j]
                == second[last][j] by {
                let _ = second[last][j];
            }
        }
    }
}

} // verus!
