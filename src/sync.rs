//! Reconciliation: normalising an assignment, finding the cards that track
//! it, deciding what to do with each, and tallying what was done.
use vstd::prelude::*;

use crate::canvas::{Assignment, AssignmentView};
use crate::markup::{html_to_markdown, https_url_of, markdown_of, secure_url};
use crate::timestamp::{Timestamp, rfc3339, rfc3339_of};
use crate::trello::{Board, Card, CardView, CreateCard, tracking_value};

verus! {

/// The first line of every description this library writes; a card whose
/// description starts with it is managed here.
pub const DESC_HEADER: &'static str = "🔄 Canvas Trello Sync";

/// What stands between the header and the assignment's own text.
pub const DESC_SEPARATOR: &'static str = "\n\n---\n\n";

/// The kinds of board entity that are looked up by name.
#[derive(Clone, Copy, Debug, PartialEq, Eq, Structural)]
pub enum Entity {
    CustomField,
    List,
    Label,
}

/// Why a reconciliation step could not be decided.
#[derive(Debug)]
pub enum SyncError {
    /// No entity of this kind on the board carries this name.
    NotFound { kind: Entity, name: String },
    /// This assignment URL cannot be given the `https` scheme.
    InvalidUrl { url: String },
}

/// The values a card tracking an assignment should hold.
#[derive(Debug)]
pub struct Normalized {
    pub canonical_url: String,
    pub name: String,
    pub due: Timestamp,
    pub due_complete: bool,
    pub description: String,
}

pub struct NormalizedView {
    pub url: Seq<char>,
    pub name: Seq<char>,
    pub due: Timestamp,
    pub due_complete: bool,
    pub desc: Seq<char>,
}

impl View for Normalized {
    type V = NormalizedView;

    open spec fn view(&self) -> NormalizedView {
        NormalizedView {
            url: self.canonical_url@,
            name: self.name@,
            due: self.due,
            due_complete: self.due_complete,
            desc: self.description@,
        }
    }
}

/// One change to the board, or the decision to leave a card alone.
#[derive(Debug)]
pub enum Mutation {
    /// Create a card with these fields in the list `list_id`.
    CreateCard { list_id: String, card: CreateCard },
    /// Set the custom field `field_id` of the card created by the
    /// `CreateCard` just before to the text `value`.
    SetTrackingField { field_id: String, value: String },
    /// Overwrite the due date, completion flag and description of a card.
    UpdateCard { card_id: String, due: Timestamp, due_complete: bool, desc: String },
    /// The card is up to date.
    NoOp { card_id: String },
}

pub enum MutationView {
    Create {
        list_id: Seq<char>,
        name: Seq<char>,
        desc: Seq<char>,
        due: Timestamp,
        due_complete: bool,
        label_ids: Seq<Seq<char>>,
    },
    SetTracking { field_id: Seq<char>, value: Seq<char> },
    Update { card_id: Seq<char>, due: Timestamp, due_complete: bool, desc: Seq<char> },
    Unchanged { card_id: Seq<char> },
}

impl View for Mutation {
    type V = MutationView;

    open spec fn view(&self) -> MutationView {
        match self {
            Mutation::CreateCard { list_id, card } => MutationView::Create {
                list_id: list_id@,
                name: card.name@,
                desc: card.desc@,
                due: card.due,
                due_complete: card.due_complete,
                label_ids: card.label_ids@.map_values(|l: String| l@),
            },
            Mutation::SetTrackingField { field_id, value } => MutationView::SetTracking {
                field_id: field_id@,
                value: value@,
            },
            Mutation::UpdateCard { card_id, due, due_complete, desc } => MutationView::Update {
                card_id: card_id@,
                due: *due,
                due_complete: *due_complete,
                desc: desc@,
            },
            Mutation::NoOp { card_id } => MutationView::Unchanged { card_id: card_id@ },
        }
    }
}

/// The description of a managed card: the header alone, or the header, the
/// separator and the assignment's text as Markdown.
pub open spec fn rendered_description(markdown: Option<Seq<char>>) -> Seq<char> {
    match markdown {
        Some(md) => DESC_HEADER@ + DESC_SEPARATOR@ + md,
        None => DESC_HEADER@,
    }
}

/// The Markdown of an assignment's HTML description, if it has one.
pub open spec fn description_markdown(description: Option<Seq<char>>) -> Option<Seq<char>> {
    match description {
        Some(html) => Some(markdown_of(html)),
        None => None,
    }
}

/// What a card tracking `a` should hold, given the canonical URL `url`.
pub open spec fn normalized_with(
    a: AssignmentView,
    url: Seq<char>,
    desc: Seq<char>,
) -> NormalizedView {
    NormalizedView {
        url,
        name: a.name,
        due: a.due_at,
        due_complete: a.submitted,
        desc,
    }
}

/// What a card tracking `a` should hold, or `None` when its URL cannot be
/// made canonical.
pub open spec fn normalized(a: AssignmentView) -> Option<NormalizedView> {
    match https_url_of(a.html_url) {
        Some(url) => Some(
            normalized_with(a, url, rendered_description(description_markdown(a.description))),
        ),
        None => None,
    }
}

/// The description starts with the header, so the card is managed here.
pub open spec fn is_managed(desc: Seq<char>) -> bool {
    DESC_HEADER@.len() <= desc.len() && desc.subrange(0, DESC_HEADER@.len() as int)
        == DESC_HEADER@
}

pub open spec fn due_mismatch(c: CardView, n: NormalizedView) -> bool {
    c.due != Some(n.due)
}

pub open spec fn complete_mismatch(c: CardView, n: NormalizedView) -> bool {
    c.due_complete != n.due_complete
}

/// Only a managed card's description is compared.
pub open spec fn desc_mismatch(c: CardView, n: NormalizedView) -> bool {
    is_managed(c.desc) && c.desc != n.desc
}

pub open spec fn needs_update(c: CardView, n: NormalizedView) -> bool {
    due_mismatch(c, n) || complete_mismatch(c, n) || desc_mismatch(c, n)
}

/// The decision for one card that tracks the assignment.
pub open spec fn decision(c: CardView, n: NormalizedView) -> MutationView {
    if needs_update(c, n) {
        MutationView::Update { card_id: c.id, due: n.due, due_complete: n.due_complete, desc: n.desc }
    } else {
        MutationView::Unchanged { card_id: c.id }
    }
}

/// The card's tracking field holds exactly `url`.
pub open spec fn is_tracking(c: CardView, field_id: Seq<char>, url: Seq<char>) -> bool {
    tracking_value(c.fields, field_id) == Some(url)
}

/// The cards that track `url` through the field `field_id`, in board order.
pub open spec fn matched(cards: Seq<CardView>, field_id: Seq<char>, url: Seq<char>) -> Seq<CardView>
    decreases cards.len(),
{
    if cards.len() == 0 {
        Seq::empty()
    } else {
        let m = matched(cards.drop_last(), field_id, url);
        if is_tracking(cards.last(), field_id, url) {
            m.push(cards.last())
        } else {
            m
        }
    }
}

/// The mutations for one assignment: a card to create and its tracking field
/// when no card tracks it, else one decision for each tracking card.
pub open spec fn plan(
    tracking: Seq<CardView>,
    n: NormalizedView,
    list_id: Seq<char>,
    label_id: Seq<char>,
    field_id: Seq<char>,
) -> Seq<MutationView> {
    if tracking.len() == 0 {
        seq![
            MutationView::Create {
                list_id,
                name: n.name,
                desc: n.desc,
                due: n.due,
                due_complete: n.due_complete,
                label_ids: seq![label_id],
            },
            MutationView::SetTracking { field_id, value: n.url },
        ]
    } else {
        tracking.map_values(|c: CardView| decision(c, n))
    }
}

/// Whether `s` starts with `prefix`.
pub fn starts_with(s: &str, prefix: &str) -> (r: bool)
    ensures
        r == (prefix@.len() <= s@.len() && s@.subrange(0, prefix@.len() as int) == prefix@),
{
    let n = prefix.unicode_len();
    let len = s.unicode_len();
    if len < n {
        return false;
    }
    let mut i: usize = 0;
    while i < n
        invariant
            i <= n,
            n == prefix@.len(),
            n <= len,
            len == s@.len(),
            forall|j: int| 0 <= j < i ==> s@[j] == prefix@[j],
        decreases n - i,
    {
        if s.get_char(i) != prefix.get_char(i) {
            assert(s@.subrange(0, n as int)[i as int] != prefix@[i as int]);
            return false;
        }
        i = i + 1;
    }
    assert(s@.subrange(0, n as int) =~= prefix@);
    true
}

/// The description for an assignment whose text, as Markdown, is `markdown`.
pub fn describe_markdown(markdown: Option<String>) -> (r: String)
    ensures
        r@ == rendered_description(
            match markdown {
                Some(md) => Some(md@),
                None => None,
            },
        ),
{
    let mut desc = String::from_str(DESC_HEADER);
    match markdown {
        Some(md) => {
            desc.append(DESC_SEPARATOR);
            desc.append(md.as_str());
        },
        None => {},
    }
    desc
}

/// The description for an assignment whose HTML text is `description`.
pub fn render_description(description: &Option<String>) -> (r: String)
    ensures
        r@ == rendered_description(
            description_markdown(
                match description {
                    Some(d) => Some(d@),
                    None => None,
                },
            ),
        ),
{
    match description {
        Some(html) => describe_markdown(Some(html_to_markdown(html.as_str()))),
        None => describe_markdown(None),
    }
}

/// What a card tracking `a` should hold, given the canonical form of its URL
/// (`None` when there is none) and its rendered description.
pub fn normalize_with(
    a: &Assignment,
    canonical_url: Option<String>,
    description: String,
) -> (r: Result<Normalized, SyncError>)
    ensures
        match canonical_url {
            Some(url) => r matches Ok(n) && n@ == normalized_with(a@, url@, description@),
            None => match r {
                Err(SyncError::InvalidUrl { url }) => url@ == a.html_url@,
                _ => false,
            },
        },
{
    match canonical_url {
        Some(url) => Ok(
            Normalized {
                canonical_url: url,
                name: a.name.clone(),
                due: a.due_at,
                due_complete: a.submitted(),
                description,
            },
        ),
        None => Err(SyncError::InvalidUrl { url: a.html_url.clone() }),
    }
}

/// What a card tracking `a` should hold; `InvalidUrl` when its URL cannot be
/// given the `https` scheme.
pub fn normalize(a: &Assignment) -> (r: Result<Normalized, SyncError>)
    ensures
        match normalized(a@) {
            Some(nv) => r matches Ok(n) && n@ == nv,
            None => match r {
                Err(SyncError::InvalidUrl { url }) => url@ == a.html_url@,
                _ => false,
            },
        },
{
    let url = secure_url(a.html_url.as_str());
    let desc = render_description(&a.description);
    normalize_with(a, url, desc)
}

/// Whether `a` and `b` are the same text.
pub fn same_text(a: &str, b: &str) -> (r: bool)
    ensures
        r == (a@ == b@),
{
    if a.unicode_len() != b.unicode_len() {
        return false;
    }
    assert(a@.subrange(0, a@.len() as int) =~= a@);
    starts_with(a, b)
}

/// Whether the card's tracking field `field_id` holds exactly `url`.
pub fn tracks(card: &Card, field_id: &String, url: &String) -> (r: bool)
    ensures
        r == is_tracking(card@, field_id@, url@),
{
    match card.tracking_text(field_id) {
        Some(text) => same_text(text, url.as_str()),
        None => false,
    }
}

/// The cards of `cards` that track `url` through the field `field_id`, in
/// board order; none is an empty list.
pub fn match_cards<'a>(cards: &'a Vec<Card>, field_id: &String, url: &String) -> (r: Vec<&'a Card>)
    ensures
        r@.map_values(|c: &Card| c@) == matched(cards@.map_values(|c: Card| c@), field_id@, url@),
{
    let ghost all = cards@.map_values(|c: Card| c@);
    let mut r: Vec<&'a Card> = Vec::new();
    let mut i: usize = 0;
    assert(all.take(0) =~= Seq::<CardView>::empty());
    assert(r@.map_values(|c: &Card| c@) =~= Seq::<CardView>::empty());
    while i < cards.len()
        invariant
            i <= cards@.len(),
            all == cards@.map_values(|c: Card| c@),
            r@.map_values(|c: &Card| c@) == matched(all.take(i as int), field_id@, url@),
        decreases cards@.len() - i,
    {
        let card = &cards[i];
        let ghost before = r@.map_values(|c: &Card| c@);
        assert(all.take(i + 1).drop_last() =~= all.take(i as int));
        assert(all.take(i + 1).last() == card@);
        if tracks(card, field_id, url) {
            r.push(card);
            assert(r@.map_values(|c: &Card| c@) =~= before.push(card@));
        }
        i = i + 1;
    }
    assert(all.take(i as int) =~= all);
    r
}

/// The decision for one card that tracks the assignment normalised as `n`.
pub fn decide_card(card: &Card, n: &Normalized) -> (r: Mutation)
    ensures
        r@ == decision(card@, n@),
{
    let mismatch_due = match card.due {
        Some(d) => d != n.due,
        None => true,
    };
    let mismatch_complete = card.due_complete != n.due_complete;
    let mismatch_desc = starts_with(card.desc.as_str(), DESC_HEADER) && !(card.desc
        == n.description);
    if mismatch_due || mismatch_complete || mismatch_desc {
        Mutation::UpdateCard {
            card_id: card.id.clone(),
            due: n.due,
            due_complete: n.due_complete,
            desc: n.description.clone(),
        }
    } else {
        Mutation::NoOp { card_id: card.id.clone() }
    }
}

/// The mutations for the assignment normalised as `n`, given the cards that
/// track it: with none, a card to create in `list_id` with the label
/// `label_id` and then its tracking field `field_id`; else one decision per
/// card, in order.
pub fn reconcile(
    tracking: &Vec<&Card>,
    n: &Normalized,
    list_id: &String,
    label_id: &String,
    field_id: &String,
) -> (r: Vec<Mutation>)
    ensures
        r@.map_values(|m: Mutation| m@) == plan(
            tracking@.map_values(|c: &Card| c@),
            n@,
            list_id@,
            label_id@,
            field_id@,
        ),
{
    let ghost cards = tracking@.map_values(|c: &Card| c@);
    let mut r: Vec<Mutation> = Vec::new();
    if tracking.len() == 0 {
        let mut label_ids: Vec<String> = Vec::new();
        label_ids.push(label_id.clone());
        let card = CreateCard {
            name: n.name.clone(),
            desc: n.description.clone(),
            due: n.due,
            due_complete: n.due_complete,
            label_ids,
        };
        assert(card.label_ids@.map_values(|l: String| l@) =~= seq![label_id@]);
        r.push(Mutation::CreateCard { list_id: list_id.clone(), card });
        r.push(
            Mutation::SetTrackingField { field_id: field_id.clone(), value: n.canonical_url.clone() },
        );
        assert(r@.map_values(|m: Mutation| m@) =~= plan(cards, n@, list_id@, label_id@, field_id@));
        return r;
    }
    let mut i: usize = 0;
    while i < tracking.len()
        invariant
            i <= tracking@.len(),
            cards == tracking@.map_values(|c: &Card| c@),
            r@.map_values(|m: Mutation| m@) =~= cards.take(i as int).map_values(
                |c: CardView| decision(c, n@),
            ),
        decreases tracking@.len() - i,
    {
        let m = decide_card(tracking[i], n);
        let ghost before = r@.map_values(|m: Mutation| m@);
        r.push(m);
        assert(r@.map_values(|m: Mutation| m@) =~= before.push(decision(cards[i as int], n@)));
        assert(cards.take(i + 1) =~= cards.take(i as int).push(cards[i as int]));
        i = i + 1;
    }
    assert(cards.take(i as int) =~= cards);
    r
}

/// The mutations that keep `board` in step with the assignment `a`, with
/// tracking field `field_id`, new cards going to `list_id` with the label
/// `label_id`; `InvalidUrl` when its URL cannot be given the `https` scheme.
pub fn plan_assignment(
    board: &Board,
    a: &Assignment,
    field_id: &String,
    list_id: &String,
    label_id: &String,
) -> (r: Result<Vec<Mutation>, SyncError>)
    ensures
        match normalized(a@) {
            Some(n) => r matches Ok(p) && p@.map_values(|m: Mutation| m@) == plan(
                matched(board.cards@.map_values(|c: Card| c@), field_id@, n.url),
                n,
                list_id@,
                label_id@,
                field_id@,
            ),
            None => match r {
                Err(SyncError::InvalidUrl { url }) => url@ == a.html_url@,
                _ => false,
            },
        },
{
    let n = normalize(a)?;
    let tracking = match_cards(&board.cards, field_id, &n.canonical_url);
    Ok(reconcile(&tracking, &n, list_id, label_id, field_id))
}

/// How many mutations of `p` create a card.
pub open spec fn count_created(p: Seq<MutationView>) -> nat
    decreases p.len(),
{
    if p.len() == 0 {
        0
    } else {
        count_created(p.drop_last()) + if p.last() is Create {
            1nat
        } else {
            0nat
        }
    }
}

/// How many mutations of `p` update a card.
pub open spec fn count_updated(p: Seq<MutationView>) -> nat
    decreases p.len(),
{
    if p.len() == 0 {
        0
    } else {
        count_updated(p.drop_last()) + if p.last() is Update {
            1nat
        } else {
            0nat
        }
    }
}

/// How many mutations of `p` leave an up-to-date card alone.
pub open spec fn count_unchanged(p: Seq<MutationView>) -> nat
    decreases p.len(),
{
    if p.len() == 0 {
        0
    } else {
        count_unchanged(p.drop_last()) + if p.last() is Unchanged {
            1nat
        } else {
            0nat
        }
    }
}

/// `x + k`, or `u64::MAX` where that does not fit.
pub open spec fn saturated(x: u64, k: nat) -> u64 {
    if x + k > u64::MAX {
        u64::MAX
    } else {
        (x + k) as u64
    }
}

/// The running totals of a sync: assignments seen, cards created, cards
/// updated and cards found up to date.
#[derive(Debug)]
pub struct Counts {
    pub assignments: u64,
    pub created: u64,
    pub updated: u64,
    pub up_to_date: u64,
}

impl Counts {
    /// All totals at zero.
    pub fn new() -> (r: Counts)
        ensures
            r.assignments == 0,
            r.created == 0,
            r.updated == 0,
            r.up_to_date == 0,
    {
        Counts { assignments: 0, created: 0, updated: 0, up_to_date: 0 }
    }

    /// Counts one more assignment, whose mutations `plan` have all been
    /// carried out: a card created for each `CreateCard`, updated for each
    /// `UpdateCard`, up to date for each `NoOp`. Totals stop at `u64::MAX`.
    pub fn record(&mut self, plan: &Vec<Mutation>)
        ensures
            final(self).assignments == saturated(old(self).assignments, 1),
            final(self).created == saturated(
                old(self).created,
                count_created(plan@.map_values(|m: Mutation| m@)),
            ),
            final(self).updated == saturated(
                old(self).updated,
                count_updated(plan@.map_values(|m: Mutation| m@)),
            ),
            final(self).up_to_date == saturated(
                old(self).up_to_date,
                count_unchanged(plan@.map_values(|m: Mutation| m@)),
            ),
    {
        let ghost steps = plan@.map_values(|m: Mutation| m@);
        let ghost start = *self;
        self.assignments = self.assignments.saturating_add(1);
        let mut i: usize = 0;
        assert(steps.take(0) =~= Seq::<MutationView>::empty());
        while i < plan.len()
            invariant
                i <= plan@.len(),
                steps == plan@.map_values(|m: Mutation| m@),
                self.assignments == saturated(start.assignments, 1),
                self.created == saturated(start.created, count_created(steps.take(i as int))),
                self.updated == saturated(start.updated, count_updated(steps.take(i as int))),
                self.up_to_date == saturated(
                    start.up_to_date,
                    count_unchanged(steps.take(i as int)),
                ),
            decreases plan@.len() - i,
        {
            assert(steps.take(i + 1).drop_last() =~= steps.take(i as int));
            assert(steps.take(i + 1).last() == plan@[i as int]@);
            match &plan[i] {
                Mutation::CreateCard { .. } => {
                    self.created = self.created.saturating_add(1);
                },
                Mutation::UpdateCard { .. } => {
                    self.updated = self.updated.saturating_add(1);
                },
                Mutation::NoOp { .. } => {
                    self.up_to_date = self.up_to_date.saturating_add(1);
                },
                Mutation::SetTrackingField { .. } => {},
            }
            i = i + 1;
        }
        assert(steps.take(i as int) =~= steps);
    }
}

/// The text of a flag, as the board service takes it.
pub open spec fn flag_text(b: bool) -> Seq<char> {
    if b {
        "true"@
    } else {
        "false"@
    }
}

/// The fields an update sends, by name: the due date in RFC 3339, the
/// completion flag and the description. `None` when the due date has no
/// RFC 3339 form.
pub fn update_patch(due: Timestamp, due_complete: bool, desc: &String) -> (r: Option<
    Vec<(String, String)>,
>)
    ensures
        match rfc3339_of(due.seconds, due.nanos) {
            Some(due_text) => r matches Some(p) && p@.len() == 3 && p@[0].0@ == "due"@
                && p@[0].1@ == due_text && p@[1].0@ == "dueComplete"@ && p@[1].1@ == flag_text(
                due_complete,
            ) && p@[2].0@ == "desc"@ && p@[2].1@ == desc@,
            None => r is None,
        },
{
    let due_text = rfc3339(due)?;
    let flag = if due_complete {
        String::from_str("true")
    } else {
        String::from_str("false")
    };
    let mut p: Vec<(String, String)> = Vec::new();
    p.push((String::from_str("due"), due_text));
    p.push((String::from_str("dueComplete"), flag));
    p.push((String::from_str("desc"), desc.clone()));
    Some(p)
}

} // verus!
