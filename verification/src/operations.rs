use vstd::prelude::*;
use crate::formatting::{format_spec, format_theme, FormatOutput, FormatOutputView};
use crate::random::RandomSource;
use crate::select::{active_view, select, select_spec};
use crate::theme::{theme_views, Config, ConfigView, ThemeView};

verus! {

/// What one randomize pass decides.
pub enum RandomizeOutcome {
    /// The catalog is empty: the caller emits a diagnostic and empty
    /// output; this is a soft condition, not a failure.
    NoThemes,
    /// Every draw within the retry budget hit the active theme: the
    /// theme stays as it is and the output is empty.
    NotChanged,
    /// A theme was chosen and rendered.
    Chosen(FormatOutput),
}

/// The mathematical value of a `RandomizeOutcome`.
pub enum RandomizeOutcomeView {
    NoThemes,
    NotChanged,
    Chosen(FormatOutputView),
}

impl View for RandomizeOutcome {
    type V = RandomizeOutcomeView;

    open spec fn view(&self) -> RandomizeOutcomeView {
        match self {
            RandomizeOutcome::NoThemes => RandomizeOutcomeView::NoThemes,
            RandomizeOutcome::NotChanged => RandomizeOutcomeView::NotChanged,
            RandomizeOutcome::Chosen(f) => RandomizeOutcomeView::Chosen(f@),
        }
    }
}

/// The outcome that a configuration, an active term and a list of
/// drawn indices determine: no themes, no change, or the rendering of
/// the selected theme.
pub open spec fn randomize_spec(
    c: ConfigView,
    active: Option<Seq<char>>,
    draws: Seq<int>,
    budget: int,
) -> RandomizeOutcomeView {
    if c.theme.len() == 0 {
        RandomizeOutcomeView::NoThemes
    } else {
        match select_spec(c.theme, active, draws, budget) {
            Option::None => RandomizeOutcomeView::NotChanged,
            Option::Some(t) => RandomizeOutcomeView::Chosen(format_spec(t, c)),
        }
    }
}

/// One randomize pass: select a theme avoiding the active term, then
/// render it. An empty catalog yields `NoThemes` without touching the
/// randomness source; with no active term a non-empty catalog always
/// yields a rendering; and for a scripted source the outcome is exactly
/// `randomize_spec` on the scripted draws.
pub fn randomize(
    config: &Config,
    active_term: &Option<String>,
    source: &mut RandomSource,
    retry_budget: usize,
) -> (r: RandomizeOutcome)
    ensures
        (config.theme@.len() == 0) <==> r is NoThemes,
        config.theme@.len() == 0 ==> *final(source) == *old(source),
        active_term is None && config.theme@.len() > 0 ==> r is Chosen,
        r matches RandomizeOutcome::Chosen(f) ==> exists|t: ThemeView|
            #![auto]
            theme_views(config.theme@).contains(t) && f@ == format_spec(t, config@) && (
            active_term matches Some(a) ==> t.term != a@),
        old(source).pending() matches Some(s) ==> r@ == randomize_spec(
            config@,
            active_view(*active_term),
            s,
            retry_budget as int,
        ),
        old(source).pending() is None ==> final(source).pending() is None,
{
    if config.theme.len() == 0 {
        return RandomizeOutcome::NoThemes;
    }
    let sel = select(&config.theme, active_term, source, retry_budget);
    match sel {
        Option::None => RandomizeOutcome::NotChanged,
        Option::Some(t) => {
            let f = format_theme(&t, config);
            RandomizeOutcome::Chosen(f)
        },
    }
}

} // verus!
