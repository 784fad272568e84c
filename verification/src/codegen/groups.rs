//! The reductions of a state, grouped by production.
use crate::grammar::{
    law_order_is_irreflexive, law_order_is_total, law_order_is_transitive, Production,
    ProductionView,
};
use crate::lr1::{Reduction, Token};
use crate::sequences::{increasing, lemma_pick};
use vstd::prelude::*;

verus! {

/// A production, with all tokens that trigger its reduction.
pub struct Group {
    pub production: ProductionView,
    pub tokens: Seq<Token>,
}

/// The groups with one more token for `production`. Groups are kept in the order
/// of their productions, and tokens in the order in which they came.
pub open spec fn with_token(
    groups: Seq<Group>,
    production: ProductionView,
    token: Token,
) -> Seq<Group>
    decreases groups.len(),
{
    if groups.len() == 0 {
        seq![Group { production, tokens: seq![token] }]
    } else if groups[0].production == production {
        groups.update(0, Group { production, tokens: groups[0].tokens.push(token) })
    } else if production.precedes(groups[0].production) {
        seq![Group { production, tokens: seq![token] }] + groups
    } else {
        seq![groups[0]] + with_token(groups.drop_first(), production, token)
    }
}

/// The groups with the first `n` of `tokens` for `production`.
pub open spec fn with_tokens(
    groups: Seq<Group>,
    production: ProductionView,
    tokens: Seq<Token>,
    n: nat,
) -> Seq<Group>
    decreases n,
{
    if n == 0 {
        groups
    } else {
        with_token(
            with_tokens(groups, production, tokens, (n - 1) as nat),
            production,
            tokens[n - 1],
        )
    }
}

/// The first `n` of `reductions`, grouped by production.
pub open spec fn grouped<'grammar>(reductions: Seq<Reduction<'grammar>>, n: nat) -> Seq<Group>
    decreases n,
{
    if n == 0 {
        seq![]
    } else {
        let reduction = reductions[n - 1];
        with_tokens(
            grouped(reductions, (n - 1) as nat),
            reduction.production@,
            reduction.tokens@,
            reduction.tokens@.len(),
        )
    }
}

/// The groups are in the order of their productions, and no production has two.
pub open spec fn in_order(groups: Seq<Group>) -> bool {
    forall|i: int, j: int|
        0 <= i < j < groups.len() ==> (#[trigger] groups[i]).production.precedes(
            (#[trigger] groups[j]).production,
        )
}

/// The tokens of the group for `production`; none if there is no such group.
pub open spec fn tokens_for(groups: Seq<Group>, production: ProductionView) -> Seq<Token>
    decreases groups.len(),
{
    if groups.len() == 0 {
        seq![]
    } else if groups[0].production == production {
        groups[0].tokens
    } else {
        tokens_for(groups.drop_first(), production)
    }
}

/// The tokens with which the first `n` of `reductions` trigger `production`.
pub open spec fn triggers<'grammar>(
    reductions: Seq<Reduction<'grammar>>,
    production: ProductionView,
    n: nat,
) -> Seq<Token>
    decreases n,
{
    if n == 0 {
        seq![]
    } else {
        let before = triggers(reductions, production, (n - 1) as nat);
        let reduction = reductions[n - 1];
        if reduction.production@ == production {
            before + reduction.tokens@
        } else {
            before
        }
    }
}

proof fn lemma_drop_first_in_order(groups: Seq<Group>)
    requires
        in_order(groups),
        groups.len() > 0,
    ensures
        in_order(groups.drop_first()),
{
    let rest = groups.drop_first();
    assert forall|i: int, j: int| 0 <= i < j < rest.len() implies (
    #[trigger] rest[i]).production.precedes((#[trigger] rest[j]).production) by {
        assert(rest[i] == groups[i + 1] && rest[j] == groups[j + 1]);
    }
}

/// Where the group for `production` stands after it got one more token.
proof fn lemma_with_token_productions(
    groups: Seq<Group>,
    production: ProductionView,
    token: Token,
    i: int,
)
    requires
        0 <= i < with_token(groups, production, token).len(),
    ensures
        ({
            let group = with_token(groups, production, token)[i];
            ||| group.production == production
            ||| exists|k: int| 0 <= k < groups.len() && #[trigger] groups[k] == group
        }),
    decreases groups.len(),
{
    let added = with_token(groups, production, token);
    if groups.len() == 0 {
    } else if groups[0].production == production {
        if i > 0 {
            assert(groups[i] == added[i]);
        }
    } else if production.precedes(groups[0].production) {
        if i > 0 {
            assert(groups[i - 1] == added[i]);
        }
    } else {
        if i == 0 {
            assert(groups[0] == added[0]);
        } else {
            let rest = groups.drop_first();
            lemma_with_token_productions(rest, production, token, i - 1);
            let group = with_token(rest, production, token)[i - 1];
            assert(group == added[i]);
            if group.production != production {
                let k = choose|k: int| 0 <= k < rest.len() && #[trigger] rest[k] == group;
                assert(groups[k + 1] == group);
            }
        }
    }
}

proof fn lemma_with_token_in_order(groups: Seq<Group>, production: ProductionView, token: Token)
    requires
        in_order(groups),
    ensures
        in_order(with_token(groups, production, token)),
    decreases groups.len(),
{
    let added = with_token(groups, production, token);
    if groups.len() == 0 {
    } else if groups[0].production == production {
        assert forall|i: int, j: int| 0 <= i < j < added.len() implies (
        #[trigger] added[i]).production.precedes((#[trigger] added[j]).production) by {
            assert(groups[i].production.precedes(groups[j].production));
        }
    } else if production.precedes(groups[0].production) {
        assert forall|i: int, j: int| 0 <= i < j < added.len() implies (
        #[trigger] added[i]).production.precedes((#[trigger] added[j]).production) by {
            if i > 0 {
                assert(groups[i - 1].production.precedes(groups[j - 1].production));
            } else if j > 1 {
                law_order_is_transitive(
                    production,
                    groups[0].production,
                    groups[j - 1].production,
                );
            }
        }
    } else {
        let rest = groups.drop_first();
        lemma_drop_first_in_order(groups);
        lemma_with_token_in_order(rest, production, token);
        law_order_is_total(production, groups[0].production);
        let tail = with_token(rest, production, token);
        assert forall|i: int, j: int| 0 <= i < j < added.len() implies (
        #[trigger] added[i]).production.precedes((#[trigger] added[j]).production) by {
            assert(added[j] == tail[j - 1]);
            if i > 0 {
                assert(added[i] == tail[i - 1]);
            } else {
                lemma_with_token_productions(rest, production, token, j - 1);
                if tail[j - 1].production != production {
                    let k = choose|k: int| 0 <= k < rest.len() && #[trigger] rest[k] == tail[j - 1];
                    assert(groups[0].production.precedes(groups[k + 1].production));
                }
            }
        }
    }
}

/// A production before all groups has none.
proof fn lemma_no_tokens_before(groups: Seq<Group>, production: ProductionView)
    requires
        forall|k: int|
            0 <= k < groups.len() ==> production.precedes((#[trigger] groups[k]).production),
    ensures
        tokens_for(groups, production) == Seq::<Token>::empty(),
    decreases groups.len(),
{
    if groups.len() > 0 {
        law_order_is_irreflexive(production);
        assert(production.precedes(groups[0].production));
        let rest = groups.drop_first();
        assert forall|k: int| 0 <= k < rest.len() implies production.precedes(
            (#[trigger] rest[k]).production,
        ) by {
            assert(rest[k] == groups[k + 1]);
        }
        lemma_no_tokens_before(rest, production);
    }
}

proof fn lemma_with_token_tokens(
    groups: Seq<Group>,
    production: ProductionView,
    token: Token,
    other: ProductionView,
)
    requires
        in_order(groups),
    ensures
        tokens_for(with_token(groups, production, token), other) == if other == production {
            tokens_for(groups, production).push(token)
        } else {
            tokens_for(groups, other)
        },
    decreases groups.len(),
{
    let added = with_token(groups, production, token);
    reveal_with_fuel(tokens_for, 2);
    if groups.len() == 0 {
        assert(added.drop_first() =~= seq![]);
        assert(Seq::<Token>::empty().push(token) =~= seq![token]);
    } else if groups[0].production == production {
        assert(added.drop_first() =~= groups.drop_first());
    } else if production.precedes(groups[0].production) {
        assert(added.drop_first() =~= groups);
        assert forall|k: int| 0 <= k < groups.len() implies production.precedes(
            (#[trigger] groups[k]).production,
        ) by {
            if k > 0 {
                law_order_is_transitive(production, groups[0].production, groups[k].production);
            }
        }
        lemma_no_tokens_before(groups, production);
        assert(Seq::<Token>::empty().push(token) =~= seq![token]);
    } else {
        lemma_drop_first_in_order(groups);
        assert(added.drop_first() =~= with_token(groups.drop_first(), production, token));
        lemma_with_token_tokens(groups.drop_first(), production, token, other);
    }
}

proof fn lemma_with_tokens_tokens(
    groups: Seq<Group>,
    production: ProductionView,
    tokens: Seq<Token>,
    n: nat,
    other: ProductionView,
)
    requires
        in_order(groups),
        n <= tokens.len(),
    ensures
        in_order(with_tokens(groups, production, tokens, n)),
        tokens_for(with_tokens(groups, production, tokens, n), other) == if other == production {
            tokens_for(groups, production) + tokens.take(n as int)
        } else {
            tokens_for(groups, other)
        },
    decreases n,
{
    if n == 0 {
        assert(tokens_for(groups, production) + tokens.take(0) =~= tokens_for(groups, production));
    } else {
        let before = with_tokens(groups, production, tokens, (n - 1) as nat);
        lemma_with_tokens_tokens(groups, production, tokens, (n - 1) as nat, other);
        lemma_with_token_in_order(before, production, tokens[n - 1]);
        lemma_with_token_tokens(before, production, tokens[n - 1], other);
        assert(tokens.take(n as int) =~= tokens.take(n - 1).push(tokens[n - 1]));
        assert((tokens_for(groups, production) + tokens.take(n - 1)).push(tokens[n - 1])
            =~= tokens_for(groups, production) + tokens.take(n as int));
    }
}

/// Reductions are grouped in the order of their productions, and each production
/// has one group at most: it holds the tokens that trigger the production, in
/// the order of the reductions.
pub proof fn law_groups<'grammar>(
    reductions: Seq<Reduction<'grammar>>,
    n: nat,
    production: ProductionView,
)
    requires
        n <= reductions.len(),
    ensures
        in_order(grouped(reductions, n)),
        tokens_for(grouped(reductions, n), production) == triggers(reductions, production, n),
    decreases n,
{
    if n > 0 {
        law_groups(reductions, (n - 1) as nat, production);
        let reduction = reductions[n - 1];
        lemma_with_tokens_tokens(
            grouped(reductions, (n - 1) as nat),
            reduction.production@,
            reduction.tokens@,
            reduction.tokens@.len(),
            production,
        );
        assert(reduction.tokens@.take(reduction.tokens@.len() as int) =~= reduction.tokens@);
    }
}

/// In groups that are in order, a group holds the tokens for its production.
pub proof fn lemma_group_tokens(groups: Seq<Group>, i: int)
    requires
        in_order(groups),
        0 <= i < groups.len(),
    ensures
        tokens_for(groups, groups[i].production) == groups[i].tokens,
    decreases i,
{
    if i > 0 {
        assert(groups[0].production.precedes(groups[i].production));
        law_order_is_irreflexive(groups[i].production);
        lemma_drop_first_in_order(groups);
        let rest = groups.drop_first();
        assert(rest[i - 1] == groups[i]);
        lemma_group_tokens(rest, i - 1);
    }
}

/// A production that has tokens has a group.
pub proof fn lemma_group_exists(groups: Seq<Group>, production: ProductionView) -> (i: int)
    requires
        tokens_for(groups, production).len() > 0,
    ensures
        0 <= i < groups.len(),
        groups[i].production == production,
        groups[i].tokens == tokens_for(groups, production),
    decreases groups.len(),
{
    if groups[0].production == production {
        0
    } else {
        let rest = groups.drop_first();
        let i = lemma_group_exists(rest, production);
        assert(rest[i] == groups[i + 1]);
        i + 1
    }
}

proof fn lemma_with_token_triggered(groups: Seq<Group>, production: ProductionView, token: Token)
    requires
        forall|i: int| 0 <= i < groups.len() ==> (#[trigger] groups[i]).tokens.len() > 0,
    ensures
        forall|i: int|
            0 <= i < with_token(groups, production, token).len() ==> (#[trigger] with_token(
                groups,
                production,
                token,
            )[i]).tokens.len() > 0,
    decreases groups.len(),
{
    let added = with_token(groups, production, token);
    if groups.len() > 0 {
        let rest = groups.drop_first();
        assert forall|i: int| 0 <= i < rest.len() implies (#[trigger] rest[i]).tokens.len() > 0 by {
            assert(rest[i] == groups[i + 1]);
        }
        lemma_with_token_triggered(rest, production, token);
        assert forall|i: int| 0 <= i < added.len() implies (#[trigger] added[i]).tokens.len()
            > 0 by {
            if groups[0].production == production {
                if i > 0 {
                    assert(added[i] == groups[i]);
                }
            } else if production.precedes(groups[0].production) {
                if i > 0 {
                    assert(added[i] == groups[i - 1]);
                }
            } else if i > 0 {
                assert(added[i] == with_token(rest, production, token)[i - 1]);
            } else {
                assert(added[0] == groups[0]);
            }
        }
    }
}

proof fn lemma_with_tokens_triggered(
    groups: Seq<Group>,
    production: ProductionView,
    tokens: Seq<Token>,
    n: nat,
)
    requires
        forall|i: int| 0 <= i < groups.len() ==> (#[trigger] groups[i]).tokens.len() > 0,
    ensures
        forall|i: int|
            0 <= i < with_tokens(groups, production, tokens, n).len() ==> (#[trigger] with_tokens(
                groups,
                production,
                tokens,
                n,
            )[i]).tokens.len() > 0,
    decreases n,
{
    if n > 0 {
        lemma_with_tokens_triggered(groups, production, tokens, (n - 1) as nat);
        lemma_with_token_triggered(
            with_tokens(groups, production, tokens, (n - 1) as nat),
            production,
            tokens[n - 1],
        );
    }
}

proof fn lemma_grouped_triggered<'grammar>(reductions: Seq<Reduction<'grammar>>, n: nat)
    ensures
        forall|i: int|
            0 <= i < grouped(reductions, n).len() ==> (#[trigger] grouped(
                reductions,
                n,
            )[i]).tokens.len() > 0,
    decreases n,
{
    if n > 0 {
        lemma_grouped_triggered(reductions, (n - 1) as nat);
        lemma_with_tokens_triggered(
            grouped(reductions, (n - 1) as nat),
            reductions[n - 1].production@,
            reductions[n - 1].tokens@,
            reductions[n - 1].tokens@.len(),
        );
    }
}

proof fn lemma_triggers<'grammar>(
    reductions: Seq<Reduction<'grammar>>,
    production: ProductionView,
    n: nat,
) -> (picked: Seq<int>)
    ensures
        increasing(picked),
        forall|k: int| #[trigger]
            picked.contains(k) <==> 0 <= k < n && reductions[k].production@ == production,
        triggers(reductions, production, n) == Seq::new(
            picked.len(),
            |k: int| reductions[picked[k]].tokens@,
        ).flatten_alt(),
    decreases n,
{
    if n == 0 {
        let picked = Seq::<int>::empty();
        assert(Seq::new(picked.len(), |k: int| reductions[picked[k]].tokens@) =~= seq![]);
        picked
    } else {
        let before = lemma_triggers(reductions, production, (n - 1) as nat);
        let pick = reductions[n - 1].production@ == production;
        let picked = lemma_pick(before, n - 1, pick);
        let parts = Seq::new(picked.len(), |k: int| reductions[picked[k]].tokens@);
        let parts_before = Seq::new(before.len(), |k: int| reductions[before[k]].tokens@);
        if pick {
            assert(parts.drop_last() =~= parts_before);
        } else {
            assert(parts =~= parts_before);
        }
        picked
    }
}

/// A group holds, for its production, the tokens of all reductions of that
/// production, one reduction after the other, and at least one. The groups before
/// it are of productions that come before its own.
pub proof fn law_group<'grammar>(reductions: Seq<Reduction<'grammar>>, i: int) -> (picked: Seq<int>)
    requires
        0 <= i < grouped(reductions, reductions.len()).len(),
    ensures
        ({
            let groups = grouped(reductions, reductions.len());
            &&& increasing(picked)
            &&& forall|k: int| #[trigger]
                picked.contains(k) <==> 0 <= k < reductions.len() && reductions[k].production@
                    == groups[i].production
            &&& groups[i].tokens == Seq::new(
                picked.len(),
                |k: int| reductions[picked[k]].tokens@,
            ).flatten_alt()
            &&& groups[i].tokens.len() > 0
            &&& forall|j: int|
                0 <= j < i ==> (#[trigger] groups[j]).production.precedes(groups[i].production)
        }),
{
    let groups = grouped(reductions, reductions.len());
    let production = groups[i].production;
    law_groups(reductions, reductions.len(), production);
    lemma_group_tokens(groups, i);
    lemma_grouped_triggered(reductions, reductions.len());
    lemma_triggers(reductions, production, reductions.len())
}

/// A reduction that a token triggers has the group of its production.
pub proof fn law_reductions_have_groups<'grammar>(
    reductions: Seq<Reduction<'grammar>>,
    k: int,
) -> (i: int)
    requires
        0 <= k < reductions.len(),
        reductions[k].tokens@.len() > 0,
    ensures
        0 <= i < grouped(reductions, reductions.len()).len(),
        grouped(reductions, reductions.len())[i].production == reductions[k].production@,
{
    let production = reductions[k].production@;
    law_groups(reductions, reductions.len(), production);
    lemma_triggers_nonempty(reductions, reductions.len(), k);
    lemma_group_exists(grouped(reductions, reductions.len()), production)
}

proof fn lemma_triggers_nonempty<'grammar>(
    reductions: Seq<Reduction<'grammar>>,
    n: nat,
    k: int,
)
    requires
        0 <= k < n,
        reductions[k].tokens@.len() > 0,
    ensures
        triggers(reductions, reductions[k].production@, n).len() > 0,
    decreases n,
{
    if k < n - 1 {
        lemma_triggers_nonempty(reductions, (n - 1) as nat, k);
    }
}

/// A production, with all tokens that trigger its reduction.
pub struct ReductionGroup<'grammar> {
    pub production: &'grammar Production,
    pub tokens: Vec<Token>,
}

/// What groups are made of.
pub open spec fn group_views<'grammar>(groups: Seq<ReductionGroup<'grammar>>) -> Seq<Group> {
    Seq::new(
        groups.len(),
        |i: int| Group { production: groups[i].production@, tokens: groups[i].tokens@ },
    )
}

/// Adding a token passes over the groups before its place.
proof fn lemma_with_token_skips(
    groups: Seq<Group>,
    production: ProductionView,
    token: Token,
    i: nat,
)
    requires
        i <= groups.len(),
        forall|j: int|
            0 <= j < i ==> {
                &&& (#[trigger] groups[j]).production != production
                &&& !production.precedes(groups[j].production)
            },
    ensures
        with_token(groups, production, token) == groups.take(i as int) + with_token(
            groups.skip(i as int),
            production,
            token,
        ),
    decreases i,
{
    if i == 0 {
        assert(groups.take(0) + with_token(groups.skip(0), production, token) =~= with_token(
            groups.skip(0),
            production,
            token,
        ));
        assert(groups.skip(0) =~= groups);
    } else {
        assert(groups[0].production != production);
        let rest = groups.drop_first();
        assert forall|j: int| 0 <= j < i - 1 implies {
            &&& (#[trigger] rest[j]).production != production
            &&& !production.precedes(rest[j].production)
        } by {
            assert(rest[j] == groups[j + 1]);
        }
        lemma_with_token_skips(rest, production, token, (i - 1) as nat);
        assert(rest.skip(i - 1) =~= groups.skip(i as int));
        assert(seq![groups[0]] + rest.take(i - 1) =~= groups.take(i as int));
        assert(seq![groups[0]] + (rest.take(i - 1) + with_token(rest.skip(i - 1), production, token))
            =~= groups.take(i as int) + with_token(groups.skip(i as int), production, token));
    }
}

#[verifier::spinoff_prover]
fn add_token<'grammar>(
    groups: &mut Vec<ReductionGroup<'grammar>>,
    production: &'grammar Production,
    token: Token,
)
    ensures
        group_views(final(groups)@) == with_token(group_views(old(groups)@), production@, token),
{
    let ghost before = group_views(groups@);
    let mut i: usize = 0;
    while i < groups.len() && !groups[i].production.is_same(production) && !production.is_before(
        groups[i].production,
    )
        invariant
            groups@ == old(groups)@,
            before == group_views(groups@),
            i <= groups.len(),
            forall|j: int|
                0 <= j < i ==> {
                    &&& (#[trigger] before[j]).production != production@
                    &&& !production@.precedes(before[j].production)
                },
        decreases groups.len() - i,
    {
        i += 1;
    }
    proof {
        lemma_with_token_skips(before, production@, token, i as nat);
    }
    let ghost rest = before.skip(i as int);
    if i < groups.len() && groups[i].production.is_same(production) {
        groups[i].tokens.push(token);
        proof {
            let group = Group { production: production@, tokens: before[i as int].tokens.push(token) };
            assert(rest[0] == before[i as int]);
            assert(group_views(groups@) =~= before.take(i as int) + rest.update(0, group));
        }
    } else {
        let mut tokens: Vec<Token> = Vec::new();
        tokens.push(token);
        groups.insert(i, ReductionGroup { production, tokens });
        proof {
            let group = Group { production: production@, tokens: seq![token] };
            assert(tokens@ =~= seq![token]);
            if i < before.len() {
                assert(rest[0] == before[i as int]);
                assert(group_views(groups@) =~= before.take(i as int) + (seq![group] + rest));
            } else {
                assert(group_views(groups@) =~= before.take(i as int) + seq![group]);
            }
        }
    }
}

/// Groups reductions by production.
pub fn group_reductions<'grammar>(reductions: &Vec<Reduction<'grammar>>) -> (groups: Vec<
    ReductionGroup<'grammar>,
>)
    ensures
        group_views(groups@) == grouped(reductions@, reductions@.len()),
{
    let mut groups: Vec<ReductionGroup<'grammar>> = Vec::new();
    let mut i: usize = 0;
    assert(group_views(groups@) =~= seq![]);
    while i < reductions.len()
        invariant
            i <= reductions.len(),
            group_views(groups@) == grouped(reductions@, i as nat),
        decreases reductions.len() - i,
    {
        let production: &'grammar Production = reductions[i].production;
        let mut k: usize = 0;
        while k < reductions[i].tokens.len()
            invariant
                i < reductions.len(),
                production@ == reductions@[i as int].production@,
                k <= reductions@[i as int].tokens.len(),
                group_views(groups@) == with_tokens(
                    grouped(reductions@, i as nat),
                    production@,
                    reductions@[i as int].tokens@,
                    k as nat,
                ),
            decreases reductions@[i as int].tokens.len() - k,
        {
            add_token(&mut groups, production, reductions[i].tokens[k]);
            k += 1;
        }
        i += 1;
    }
    groups
}

} // verus!
