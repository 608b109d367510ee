//! Properties that hold across the reconciliation's functions.
use vstd::prelude::*;

use crate::sync::{
    count_created, count_unchanged, count_updated, decision, desc_mismatch, due_mismatch,
    complete_mismatch, is_managed, is_tracking, matched, needs_update, plan, MutationView,
    NormalizedView,
};
use crate::trello::{CardView, FieldView, tracking_value};

verus! {

/// The card `c` after the mutation decided for it has been carried out.
pub open spec fn after_decision(c: CardView, n: NormalizedView) -> CardView {
    match decision(c, n) {
        MutationView::Update { due, due_complete, desc, .. } => CardView {
            due: Some(due),
            due_complete,
            desc,
            ..c
        },
        _ => c,
    }
}

/// The card made, under the id `id`, by a plan that opens with a
/// `CreateCard` followed by a `SetTrackingField`.
pub open spec fn created_by(p: Seq<MutationView>, id: Seq<char>) -> CardView {
    let fields = match p[1] {
        MutationView::SetTracking { field_id, value } => seq![
            FieldView { field_id, text: Some(value) },
        ],
        _ => Seq::empty(),
    };
    match p[0] {
        MutationView::Create { desc, due, due_complete, .. } => CardView {
            id,
            desc,
            due: Some(due),
            due_complete,
            fields,
        },
        _ => CardView { id, desc: Seq::empty(), due: None, due_complete: false, fields },
    }
}

/// The board's cards after the plan for the assignment normalised as `n` has
/// been carried out, the created card, if any, getting the id `new_id`.
pub open spec fn board_after(
    cards: Seq<CardView>,
    n: NormalizedView,
    list_id: Seq<char>,
    label_id: Seq<char>,
    field_id: Seq<char>,
    new_id: Seq<char>,
) -> Seq<CardView> {
    let tracking = matched(cards, field_id, n.url);
    let updated = cards.map_values(
        |c: CardView|
            if is_tracking(c, field_id, n.url) {
                after_decision(c, n)
            } else {
                c
            },
    );
    if tracking.len() == 0 {
        updated.push(created_by(plan(tracking, n, list_id, label_id, field_id), new_id))
    } else {
        updated
    }
}

/// A plan made only of `NoOp`s creates and updates nothing, and counts every
/// mutation as up to date.
pub proof fn lemma_all_unchanged_counts(p: Seq<MutationView>)
    requires
        forall|i: int| 0 <= i < p.len() ==> #[trigger] p[i] is Unchanged,
    ensures
        count_created(p) == 0,
        count_updated(p) == 0,
        count_unchanged(p) == p.len(),
    decreases p.len(),
{
    if p.len() > 0 {
        let q = p.drop_last();
        assert forall|i: int| 0 <= i < q.len() implies #[trigger] q[i] is Unchanged by {
            assert(q[i] == p[i]);
        }
        lemma_all_unchanged_counts(q);
        assert(p[p.len() - 1] is Unchanged);
    }
}

/// With no card tracking the assignment, the plan is exactly one card to
/// create, carrying the assignment's values and the label, then the tracking
/// field of that new card set to the canonical URL; it counts one created card.
pub proof fn lemma_untracked_assignment_creates_one_card(
    cards: Seq<CardView>,
    n: NormalizedView,
    list_id: Seq<char>,
    label_id: Seq<char>,
    field_id: Seq<char>,
)
    requires
        matched(cards, field_id, n.url).len() == 0,
    ensures
        ({
            let p = plan(matched(cards, field_id, n.url), n, list_id, label_id, field_id);
            &&& p.len() == 2
            &&& p[0] == (MutationView::Create {
                list_id,
                name: n.name,
                desc: n.desc,
                due: n.due,
                due_complete: n.due_complete,
                label_ids: seq![label_id],
            })
            &&& p[1] == (MutationView::SetTracking { field_id, value: n.url })
            &&& count_created(p) == 1
            &&& count_updated(p) == 0
            &&& count_unchanged(p) == 0
        }),
{
    let p = plan(matched(cards, field_id, n.url), n, list_id, label_id, field_id);
    let q = p.drop_last();
    assert(q.drop_last() =~= Seq::<MutationView>::empty());
    assert(q.last() == p[0]);
    assert(p.last() == p[1]);
    let e = q.drop_last();
    assert(count_created(e) == 0 && count_updated(e) == 0 && count_unchanged(e) == 0);
    assert(count_created(q) == 1);
    assert(count_updated(q) == 0);
    assert(count_unchanged(q) == 0);
}

/// Tracking cards whose due date, completion flag and description already
/// equal the assignment's are each left alone: the plan holds one `NoOp` per
/// card and counts them all as up to date, and nothing else.
pub proof fn lemma_current_cards_left_alone(tracking: Seq<CardView>, n: NormalizedView, list_id: Seq<char>, label_id: Seq<char>, field_id: Seq<char>)
    requires
        tracking.len() > 0,
        forall|i: int|
            0 <= i < tracking.len() ==> {
                &&& (#[trigger] tracking[i]).due == Some(n.due)
                &&& tracking[i].due_complete == n.due_complete
                &&& tracking[i].desc == n.desc
            },
    ensures
        ({
            let p = plan(tracking, n, list_id, label_id, field_id);
            &&& p.len() == tracking.len()
            &&& forall|i: int|
                0 <= i < p.len() ==> #[trigger] p[i] == (MutationView::Unchanged {
                    card_id: tracking[i].id,
                })
            &&& count_created(p) == 0
            &&& count_updated(p) == 0
            &&& count_unchanged(p) == tracking.len()
        }),
{
    let p = plan(tracking, n, list_id, label_id, field_id);
    assert forall|i: int| 0 <= i < p.len() implies #[trigger] p[i] is Unchanged by {
        assert(p[i] == decision(tracking[i], n));
    }
    lemma_all_unchanged_counts(p);
}

/// A card whose due date differs from the assignment's is updated to the
/// assignment's due date, completion flag and description, whatever else it
/// holds.
pub proof fn lemma_due_change_updates(c: CardView, n: NormalizedView)
    requires
        c.due != Some(n.due),
    ensures
        decision(c, n) == (MutationView::Update {
            card_id: c.id,
            due: n.due,
            due_complete: n.due_complete,
            desc: n.desc,
        }),
{
}

/// A card whose description does not start with the header is never updated
/// for its description: it is updated exactly when its due date or
/// completion flag differs.
pub proof fn lemma_unmanaged_description_kept(c: CardView, n: NormalizedView)
    requires
        !is_managed(c.desc),
    ensures
        !desc_mismatch(c, n),
        decision(c, n) is Update <==> (due_mismatch(c, n) || complete_mismatch(c, n)),
{
}

/// After a card's decision is carried out, deciding again leaves it alone.
pub proof fn lemma_after_decision_is_current(c: CardView, n: NormalizedView)
    ensures
        !needs_update(after_decision(c, n), n),
        after_decision(c, n).fields == c.fields,
{
}

/// Carrying the decisions out keeps which cards track the assignment.
pub proof fn lemma_matched_after_decisions(
    cards: Seq<CardView>,
    n: NormalizedView,
    field_id: Seq<char>,
)
    ensures
        matched(
            cards.map_values(
                |c: CardView|
                    if is_tracking(c, field_id, n.url) {
                        after_decision(c, n)
                    } else {
                        c
                    },
            ),
            field_id,
            n.url,
        ) == matched(cards, field_id, n.url).map_values(|c: CardView| after_decision(c, n)),
    decreases cards.len(),
{
    let f = |c: CardView|
        if is_tracking(c, field_id, n.url) {
            after_decision(c, n)
        } else {
            c
        };
    let updated = cards.map_values(f);
    if cards.len() == 0 {
        assert(updated =~= Seq::<CardView>::empty());
        assert(matched(cards, field_id, n.url).map_values(|c: CardView| after_decision(c, n))
            =~= Seq::<CardView>::empty());
    } else {
        let init = cards.drop_last();
        lemma_matched_after_decisions(init, n, field_id);
        assert(updated.drop_last() =~= init.map_values(f));
        let last = cards.last();
        lemma_after_decision_is_current(last, n);
        assert(updated.last() == f(last));
        let m = matched(init, field_id, n.url);
        if is_tracking(last, field_id, n.url) {
            assert(is_tracking(after_decision(last, n), field_id, n.url));
            assert(m.push(last).map_values(|c: CardView| after_decision(c, n)) =~= m.map_values(
                |c: CardView| after_decision(c, n),
            ).push(after_decision(last, n)));
        }
    }
}

/// Running the reconciliation again right after its plan was carried out,
/// with nothing else changed, creates and updates no card.
pub proof fn lemma_second_run_is_quiet(
    cards: Seq<CardView>,
    n: NormalizedView,
    list_id: Seq<char>,
    label_id: Seq<char>,
    field_id: Seq<char>,
    new_id: Seq<char>,
)
    ensures
        ({
            let again = plan(
                matched(board_after(cards, n, list_id, label_id, field_id, new_id), field_id, n.url),
                n,
                list_id,
                label_id,
                field_id,
            );
            count_created(again) == 0 && count_updated(again) == 0
        }),
{
    let f = |c: CardView|
        if is_tracking(c, field_id, n.url) {
            after_decision(c, n)
        } else {
            c
        };
    let updated = cards.map_values(f);
    let tracking = matched(cards, field_id, n.url);
    let after = board_after(cards, n, list_id, label_id, field_id, new_id);
    lemma_matched_after_decisions(cards, n, field_id);
    let second = matched(after, field_id, n.url);
    if tracking.len() == 0 {
        let made = created_by(plan(tracking, n, list_id, label_id, field_id), new_id);
        assert(after.drop_last() =~= updated);
        assert(tracking_value(made.fields, field_id) == Some(n.url));
        assert(second =~= seq![made]);
    } else {
        assert(second == tracking.map_values(|c: CardView| after_decision(c, n)));
        assert forall|i: int| 0 <= i < second.len() implies !needs_update(#[trigger] second[i], n) by {
            lemma_after_decision_is_current(tracking[i], n);
        }
    }
    let again = plan(second, n, list_id, label_id, field_id);
    assert forall|i: int| 0 <= i < again.len() implies #[trigger] again[i] is Unchanged by {
        assert(again[i] == decision(second[i], n));
    }
    lemma_all_unchanged_counts(again);
}

} // verus!
