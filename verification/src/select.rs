use vstd::prelude::*;
use crate::random::{drawn_index, RandomSource};
use crate::theme::{theme_views, Theme, ThemeView};

verus! {

/// How many independent draws selection makes before giving up when it
/// keeps hitting the active theme.
pub const RETRY_BUDGET: usize = 10;

/// The view of an optional active term.
pub open spec fn active_view(active: Option<String>) -> Option<Seq<char>> {
    match active {
        Option::Some(a) => Option::Some(a@),
        Option::None => Option::None,
    }
}

/// The view of an optional selected theme.
pub open spec fn theme_opt_view(r: Option<Theme>) -> Option<ThemeView> {
    match r {
        Option::Some(t) => Option::Some(t@),
        Option::None => Option::None,
    }
}

/// A sequence of drawn indices as mathematical integers.
pub open spec fn draw_views(draws: Seq<usize>) -> Seq<int> {
    draws.map_values(|d: usize| d as int)
}

/// The index of the first catalog entry bearing `term`; the catalog
/// length when no entry does. First match in catalog order is
/// authoritative when terms repeat.
pub open spec fn first_index_with_term(catalog: Seq<ThemeView>, term: Seq<char>) -> int
    decreases catalog.len(),
{
    if catalog.len() == 0 {
        0
    } else if catalog[0].term == term {
        0
    } else {
        1 + first_index_with_term(catalog.skip(1), term)
    }
}

/// The theme that a draw landing on entry `idx` actually yields: the
/// first entry sharing that entry's `term`.
pub open spec fn chosen_at(catalog: Seq<ThemeView>, idx: int) -> ThemeView {
    catalog[first_index_with_term(catalog, catalog[idx].term)]
}

/// Selection when an active term is known, starting at draw `i`: the
/// first of the remaining draws (up to `budget` in all) landing on a
/// term other than `active` wins; exhausting the budget yields `None`.
pub open spec fn select_avoiding(
    catalog: Seq<ThemeView>,
    active: Seq<char>,
    draws: Seq<int>,
    budget: int,
    i: int,
) -> Option<ThemeView>
    decreases budget - i,
{
    if i >= budget {
        Option::None
    } else {
        let idx = drawn_index(draws, i, catalog.len() as int);
        if catalog[idx].term != active {
            Option::Some(chosen_at(catalog, idx))
        } else {
            select_avoiding(catalog, active, draws, budget, i + 1)
        }
    }
}

/// What selection returns: nothing on an empty catalog; with no active
/// term, the theme of the very first draw; with an active term, the
/// avoidance search over up to `budget` draws.
pub open spec fn select_spec(
    catalog: Seq<ThemeView>,
    active: Option<Seq<char>>,
    draws: Seq<int>,
    budget: int,
) -> Option<ThemeView> {
    if catalog.len() == 0 {
        Option::None
    } else {
        match active {
            Option::None => Option::Some(
                chosen_at(catalog, drawn_index(draws, 0, catalog.len() as int)),
            ),
            Option::Some(a) => select_avoiding(catalog, a, draws, budget, 0),
        }
    }
}

/// A drawn index always lies inside a non-empty catalog.
proof fn lemma_drawn_index_in_range(draws: Seq<int>, i: int, n: int)
    requires
        n > 0,
    ensures
        0 <= drawn_index(draws, i, n) < n,
{
    if 0 <= i < draws.len() {
        vstd::arithmetic::div_mod::lemma_mod_bound(draws[i], n);
    }
}

/// When some entry bears `term`, the first index bearing it is a real
/// index, bears it, and nothing before it does.
proof fn lemma_first_index_found(catalog: Seq<ThemeView>, term: Seq<char>)
    requires
        exists|j: int| 0 <= j < catalog.len() && catalog[j].term == term,
    ensures
        0 <= first_index_with_term(catalog, term) < catalog.len(),
        catalog[first_index_with_term(catalog, term)].term == term,
        forall|j: int|
            0 <= j < first_index_with_term(catalog, term) ==> catalog[j].term != term,
    decreases catalog.len(),
{
    if catalog[0].term == term {
    } else {
        let j0 = choose|j: int| 0 <= j < catalog.len() && catalog[j].term == term;
        assert(catalog.skip(1)[j0 - 1] == catalog[j0]);
        lemma_first_index_found(catalog.skip(1), term);
        assert forall|j: int|
            0 <= j < first_index_with_term(catalog, term) implies catalog[j].term != term by {
            if j > 0 {
                assert(catalog.skip(1)[j - 1] == catalog[j]);
            }
        }
    }
}

/// Looks up the first catalog entry bearing `term`.
fn first_with_term(catalog: &Vec<Theme>, term: &String) -> (r: usize)
    requires
        exists|j: int|
            0 <= j < catalog@.len() && theme_views(catalog@)[j].term == term@,
    ensures
        r < catalog@.len(),
        r as int == first_index_with_term(theme_views(catalog@), term@),
{
    proof {
        lemma_first_index_found(theme_views(catalog@), term@);
    }
    let ghost cv = theme_views(catalog@);
    let mut i: usize = 0;
    while i < catalog.len()
        invariant
            cv == theme_views(catalog@),
            0 <= i <= catalog@.len(),
            exists|j: int| 0 <= j < cv.len() && cv[j].term == term@,
            forall|j: int| 0 <= j < i ==> cv[j].term != term@,
            i as int <= first_index_with_term(cv, term@),
        decreases catalog@.len() - i,
    {
        proof {
            lemma_first_index_found(cv, term@);
            assert(cv[i as int] == catalog@[i as int]@);
        }
        if catalog[i].term == *term {
            proof {
                assert(i as int == first_index_with_term(cv, term@)) by {
                    lemma_first_index_found(cv, term@);
                };
            }
            return i;
        }
        i = i + 1;
    }
    proof {
        lemma_first_index_found(cv, term@);
        assert(false);
    }
    0
}

/// Selection from an explicit list of drawn indices: the fully
/// deterministic core that the randomized entry point reduces to. Each
/// draw is taken modulo the catalog length; missing draws count as 0.
pub fn select_indexed(
    catalog: &Vec<Theme>,
    active_term: &Option<String>,
    draws: &Vec<usize>,
    retry_budget: usize,
) -> (r: Option<Theme>)
    ensures
        theme_opt_view(r) == select_spec(
            theme_views(catalog@),
            active_view(*active_term),
            draw_views(draws@),
            retry_budget as int,
        ),
{
    let n = catalog.len();
    if n == 0 {
        return Option::None;
    }
    let ghost cv = theme_views(catalog@);
    let ghost dv = draw_views(draws@);
    match active_term {
        Option::None => {
            let idx = if draws.len() > 0 {
                draws[0] % n
            } else {
                0
            };
            proof {
                assert(idx as int == drawn_index(dv, 0, n as int));
                lemma_drawn_index_in_range(dv, 0, n as int);
                assert(cv[idx as int] == catalog@[idx as int]@);
            }
            let j = first_with_term(catalog, &catalog[idx].term);
            let r = catalog[j].duplicate();
            proof {
                assert(cv[j as int] == catalog@[j as int]@);
                assert(r@ == chosen_at(cv, idx as int));
            }
            Option::Some(r)
        },
        Option::Some(a) => {
            let mut k: usize = 0;
            while k < retry_budget
                invariant
                    n == catalog@.len(),
                    n > 0,
                    cv == theme_views(catalog@),
                    dv == draw_views(draws@),
                    *active_term == Option::Some(*a),
                    0 <= k <= retry_budget,
                    select_avoiding(cv, a@, dv, retry_budget as int, 0) == select_avoiding(
                        cv,
                        a@,
                        dv,
                        retry_budget as int,
                        k as int,
                    ),
                decreases retry_budget - k,
            {
                let idx = if k < draws.len() {
                    draws[k] % n
                } else {
                    0
                };
                proof {
                    assert(idx as int == drawn_index(dv, k as int, n as int));
                    lemma_drawn_index_in_range(dv, k as int, n as int);
                    assert(cv[idx as int] == catalog@[idx as int]@);
                }
                if catalog[idx].term == *a {
                    proof {
                        assert(select_avoiding(cv, a@, dv, retry_budget as int, k as int)
                            == select_avoiding(cv, a@, dv, retry_budget as int, k as int + 1));
                    }
                    k = k + 1;
                } else {
                    proof {
                        assert(select_avoiding(cv, a@, dv, retry_budget as int, k as int)
                            == Option::Some(chosen_at(cv, idx as int)));
                    }
                    let j = first_with_term(catalog, &catalog[idx].term);
                    let r = catalog[j].duplicate();
                    proof {
                        assert(cv[j as int] == catalog@[j as int]@);
                        assert(r@ == chosen_at(cv, idx as int));
                        assert(*active_term == Option::Some(*a));
                        assert(active_view(*active_term) == Option::Some(a@));
                        assert(select_spec(cv, active_view(*active_term), dv, retry_budget as int)
                            == select_avoiding(cv, a@, dv, retry_budget as int, 0));
                        assert(theme_opt_view(Option::Some(r)) == Option::Some(chosen_at(cv, idx as int)));
                    }
                    return Option::Some(r);
                }
            }
            Option::None
        },
    }
}

/// The theme a draw yields is a catalog member and bears the drawn term.
proof fn lemma_chosen_at(catalog: Seq<ThemeView>, idx: int)
    requires
        0 <= idx < catalog.len(),
    ensures
        catalog.contains(chosen_at(catalog, idx)),
        chosen_at(catalog, idx).term == catalog[idx].term,
{
    assert(0 <= idx < catalog.len() && catalog[idx].term == catalog[idx].term);
    lemma_first_index_found(catalog, catalog[idx].term);
    assert(catalog[first_index_with_term(catalog, catalog[idx].term)]
        == chosen_at(catalog, idx));
}

proof fn lemma_avoiding_sound(
    catalog: Seq<ThemeView>,
    active: Seq<char>,
    draws: Seq<int>,
    budget: int,
    k: int,
)
    requires
        catalog.len() > 0,
        0 <= k,
    ensures
        select_avoiding(catalog, active, draws, budget, k) matches Some(t)
            ==> catalog.contains(t) && t.term != active,
    decreases budget - k,
{
    if k < budget {
        let idx = drawn_index(draws, k, catalog.len() as int);
        lemma_drawn_index_in_range(draws, k, catalog.len() as int);
        if catalog[idx].term != active {
            lemma_chosen_at(catalog, idx);
        } else {
            lemma_avoiding_sound(catalog, active, draws, budget, k + 1);
        }
    }
}

/// Whatever the draws were: a returned theme is a member of the catalog
/// and differs from the active term, and with no active term a
/// non-empty catalog always yields a theme.
pub proof fn lemma_select_spec_sound(
    catalog: Seq<ThemeView>,
    active: Option<Seq<char>>,
    draws: Seq<int>,
    budget: int,
)
    ensures
        select_spec(catalog, active, draws, budget) matches Some(t)
            ==> catalog.contains(t) && (active matches Some(a) ==> t.term != a),
        catalog.len() > 0 && active is None
            ==> select_spec(catalog, active, draws, budget) is Some,
{
    if catalog.len() > 0 {
        match active {
            Option::None => {
                lemma_drawn_index_in_range(draws, 0, catalog.len() as int);
                lemma_chosen_at(catalog, drawn_index(draws, 0, catalog.len() as int));
            },
            Option::Some(a) => {
                lemma_avoiding_sound(catalog, a, draws, budget, 0);
            },
        }
    }
}

proof fn lemma_avoiding_draws_agree(
    catalog: Seq<ThemeView>,
    active: Seq<char>,
    d: Seq<int>,
    s: Seq<int>,
    budget: int,
    k: int,
)
    requires
        forall|i: int|
            k <= i < budget ==> drawn_index(d, i, catalog.len() as int) == drawn_index(
                s,
                i,
                catalog.len() as int,
            ),
    ensures
        select_avoiding(catalog, active, d, budget, k) == select_avoiding(
            catalog,
            active,
            s,
            budget,
            k,
        ),
    decreases budget - k,
{
    if k < budget {
        lemma_avoiding_draws_agree(catalog, active, d, s, budget, k + 1);
    }
}

/// Two draw lists that agree wherever selection looks select the same theme.
proof fn lemma_select_spec_draws_agree(
    catalog: Seq<ThemeView>,
    active: Option<Seq<char>>,
    d: Seq<int>,
    s: Seq<int>,
    budget: int,
)
    requires
        catalog.len() > 0,
        match active {
            Option::None => drawn_index(d, 0, catalog.len() as int) == drawn_index(
                s,
                0,
                catalog.len() as int,
            ),
            Option::Some(_) => forall|i: int|
                0 <= i < budget ==> drawn_index(d, i, catalog.len() as int) == drawn_index(
                    s,
                    i,
                    catalog.len() as int,
                ),
        },
    ensures
        select_spec(catalog, active, d, budget) == select_spec(catalog, active, s, budget),
{
    match active {
        Option::None => {},
        Option::Some(a) => {
            lemma_avoiding_draws_agree(catalog, a, d, s, budget, 0);
        },
    }
}

/// Selection proper: up to `retry_budget` uniform draws from the
/// catalog (one when no active term is known), avoiding the active
/// term. An empty catalog yields nothing and never touches the
/// randomness source; for a scripted source the result is exactly
/// `select_spec` on the scripted draws.
pub fn select(
    catalog: &Vec<Theme>,
    active_term: &Option<String>,
    source: &mut RandomSource,
    retry_budget: usize,
) -> (r: Option<Theme>)
    ensures
        catalog@.len() == 0 ==> r is None && *final(source) == *old(source),
        r matches Some(t) ==> theme_views(catalog@).contains(t@) && (active_term matches Some(a)
            ==> t@.term != a@),
        active_term is None && catalog@.len() > 0 ==> r is Some,
        old(source).pending() matches Some(s) ==> theme_opt_view(r) == select_spec(
            theme_views(catalog@),
            active_view(*active_term),
            s,
            retry_budget as int,
        ),
        old(source).pending() is None ==> final(source).pending() is None,
{
    let n = catalog.len();
    if n == 0 {
        return Option::None;
    }
    let n_draws: usize = if active_term.is_some() {
        retry_budget
    } else {
        1
    };
    let ghost s0 = source.pending();
    let mut drawn: Vec<usize> = Vec::new();
    let mut k: usize = 0;
    while k < n_draws
        invariant
            n == catalog@.len(),
            n > 0,
            k == drawn@.len(),
            k <= n_draws,
            forall|i: int| 0 <= i < k ==> drawn@[i] < n,
            s0 is None ==> source.pending() is None && s0 == source.pending(),
            s0 matches Some(s) ==> source.pending() == Option::Some(
                if k as int <= s.len() {
                    s.skip(k as int)
                } else {
                    s.skip(s.len() as int)
                },
            ) && forall|i: int|
                0 <= i < k ==> draw_views(drawn@)[i] == drawn_index(s, i, n as int),
        decreases n_draws - k,
    {
        let ghost pend_before = source.pending();
        let v = source.draw(n);
        proof {
            if s0 is Some {
                let s = s0.unwrap();
                let used: int = if k as int <= s.len() {
                    k as int
                } else {
                    s.len() as int
                };
                let cur = s.skip(used);
                assert(pend_before == Option::Some(cur));
                if cur.len() > 0 {
                    assert(cur[0] == s[used]);
                    assert(cur.skip(1) =~= s.skip(used + 1));
                    assert(v as int == drawn_index(s, k as int, n as int));
                } else {
                    assert(v == 0);
                    assert(drawn_index(s, k as int, n as int) == 0);
                }
            }
        }
        drawn.push(v);
        k = k + 1;
    }
    let r = select_indexed(catalog, active_term, &drawn, retry_budget);
    proof {
        let cv = theme_views(catalog@);
        let av = active_view(*active_term);
        let dv = draw_views(drawn@);
        lemma_select_spec_sound(cv, av, dv, retry_budget as int);
        if s0 is Some {
            let s = s0.unwrap();
            assert forall|i: int| 0 <= i < n_draws implies drawn_index(dv, i, n as int)
                == drawn_index(s, i, n as int) by {
                assert(dv[i] == drawn@[i] as int);
                assert(0 <= dv[i] < n);
                vstd::arithmetic::div_mod::lemma_small_mod(drawn@[i] as nat, n as nat);
            }
            if av is Some {
                assert(n_draws == retry_budget);
            } else {
                assert(n_draws == 1);
                assert(drawn_index(dv, 0, n as int) == drawn_index(s, 0, n as int));
            }
            lemma_select_spec_draws_agree(cv, av, dv, s, retry_budget as int);
        }
    }
    r
}

proof fn lemma_avoiding_finds(
    catalog: Seq<ThemeView>,
    active: Seq<char>,
    draws: Seq<int>,
    budget: int,
    k: int,
)
    requires
        catalog.len() > 0,
        0 <= k,
        exists|i: int|
            k <= i < budget && catalog[drawn_index(draws, i, catalog.len() as int)].term
                != active,
    ensures
        select_avoiding(catalog, active, draws, budget, k) is Some,
    decreases budget - k,
{
    let i0 = choose|i: int|
        k <= i < budget && catalog[drawn_index(draws, i, catalog.len() as int)].term != active;
    if catalog[drawn_index(draws, k, catalog.len() as int)].term == active {
        assert(k + 1 <= i0 < budget && catalog[drawn_index(draws, i0, catalog.len() as int)].term
            != active);
        lemma_avoiding_finds(catalog, active, draws, budget, k + 1);
    }
}

/// With an active term present in a catalog of two or more distinct
/// terms, a draw list that lands on a differing term somewhere within
/// the budget makes selection return a catalog member whose term
/// differs from the active one.
pub proof fn lemma_select_finds_differing(
    catalog: Seq<ThemeView>,
    active: Seq<char>,
    draws: Seq<int>,
    budget: int,
)
    requires
        catalog.len() > 0,
        exists|i: int|
            0 <= i < budget && catalog[drawn_index(draws, i, catalog.len() as int)].term
                != active,
    ensures
        select_spec(catalog, Option::Some(active), draws, budget) matches Some(t)
            && catalog.contains(t) && t.term != active,
{
    lemma_avoiding_finds(catalog, active, draws, budget, 0);
    lemma_avoiding_sound(catalog, active, draws, budget, 0);
}

proof fn lemma_avoiding_single(catalog: Seq<ThemeView>, draws: Seq<int>, budget: int, k: int)
    requires
        catalog.len() == 1,
        0 <= k,
    ensures
        select_avoiding(catalog, catalog[0].term, draws, budget, k) is None,
    decreases budget - k,
{
    if k < budget {
        lemma_drawn_index_in_range(draws, k, 1);
        lemma_avoiding_single(catalog, draws, budget, k + 1);
    }
}

/// A one-theme catalog whose single term is the active term defeats
/// every retry budget and every draw list: selection never returns a
/// theme. This is the documented limitation of the bounded retry
/// policy, not an error.
pub proof fn lemma_single_theme_always_none(catalog: Seq<ThemeView>, draws: Seq<int>, budget: int)
    requires
        catalog.len() == 1,
    ensures
        select_spec(catalog, Option::Some(catalog[0].term), draws, budget) is None,
{
    lemma_avoiding_single(catalog, draws, budget, 0);
}

} // verus!
