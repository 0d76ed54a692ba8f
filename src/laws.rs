use vstd::prelude::*;
use crate::document::{tag_views, DocumentPreview, PreviewView, StoredDocument};
use crate::search::{
    admits, distinct_matches, lemma_distinct_matches, plan_of, preview_views, previews, selected,
    shares_tag, PlanView, Query,
};
use crate::text::contains_ci;

verus! {

/// Every row that a plan selects is admitted by it, and every admitted row
/// is selected.
pub proof fn lemma_selected_exactly(rows: Seq<StoredDocument>, plan: PlanView)
    ensures
        forall|i: int|
            0 <= i < selected(rows, plan).len() ==> admits(plan, #[trigger] selected(rows, plan)[i])
                && rows.contains(selected(rows, plan)[i]),
        forall|k: int| 0 <= k < rows.len() && admits(plan, #[trigger] rows[k]) ==> selected(rows, plan).contains(rows[k]),
{
    let pred = |d: StoredDocument| admits(plan, d);
    assert forall|i: int| 0 <= i < selected(rows, plan).len() implies admits(
        plan,
        #[trigger] selected(rows, plan)[i],
    ) && rows.contains(selected(rows, plan)[i]) by {
        rows.lemma_filter_pred(pred, i);
        rows.lemma_filter_contains_rev(pred, selected(rows, plan)[i]);
    }
    assert forall|k: int| 0 <= k < rows.len() && admits(plan, #[trigger] rows[k]) implies selected(
        rows,
        plan,
    ).contains(rows[k]) by {
        rows.lemma_filter_contains(pred, k);
    }
}

/// A tag search hands out only previews that carry one of the requested tags.
pub proof fn lemma_tag_results_share_a_tag(rows: Seq<StoredDocument>, tags: Seq<String>)
    ensures
        forall|i: int|
            0 <= i < previews(selected(rows, PlanView::ByTags(tag_views(tags)))).len() ==> shares_tag(
                (#[trigger] previews(selected(rows, PlanView::ByTags(tag_views(tags))))[i]).tags,
                tag_views(tags),
            ),
{
    lemma_selected_exactly(rows, PlanView::ByTags(tag_views(tags)));
}

/// A text search hands out only documents whose short text or transcription
/// contains the text, case ignored.
pub proof fn lemma_text_results_contain_text(rows: Seq<StoredDocument>, text: Seq<char>)
    ensures
        forall|i: int|
            0 <= i < selected(rows, PlanView::InText(text)).len() ==> contains_ci(
                (#[trigger] selected(rows, PlanView::InText(text))[i]).short@,
                text,
            ) || contains_ci(selected(rows, PlanView::InText(text))[i].transcription@, text),
{
    lemma_selected_exactly(rows, PlanView::InText(text));
}

/// Every result of a combined search is a result of the tag search with the
/// same tags and of the text search with the same text, and its transcription
/// contains the text: a match on the short text alone never suffices.
pub proof fn lemma_combined_within_both(rows: Seq<StoredDocument>, text: Seq<char>, tags: Seq<String>)
    ensures
        forall|i: int|
            0 <= i < selected(rows, PlanView::Combined(text, tag_views(tags))).len() ==> {
                let d = #[trigger] selected(rows, PlanView::Combined(text, tag_views(tags)))[i];
                &&& selected(rows, PlanView::ByTags(tag_views(tags))).contains(d)
                &&& selected(rows, PlanView::InText(text)).contains(d)
                &&& contains_ci(d.transcription@, text)
            },
{
    let c = PlanView::Combined(text, tag_views(tags));
    let t = PlanView::ByTags(tag_views(tags));
    let x = PlanView::InText(text);
    lemma_selected_exactly(rows, c);
    lemma_selected_exactly(rows, t);
    lemma_selected_exactly(rows, x);
    assert forall|i: int| 0 <= i < selected(rows, c).len() implies {
        let d = #[trigger] selected(rows, c)[i];
        &&& selected(rows, t).contains(d)
        &&& selected(rows, x).contains(d)
        &&& contains_ci(d.transcription@, text)
    } by {
        let d = selected(rows, c)[i];
        let k = choose|k: int| 0 <= k < rows.len() && rows[k] == d;
        assert(admits(t, rows[k]));
        assert(admits(x, rows[k]));
    }
}

/// Two runs of one query over the same rows hand out the same previews.
pub proof fn lemma_search_repeatable(
    rows: Seq<StoredDocument>,
    query: Query,
    first: Seq<DocumentPreview>,
    second: Seq<DocumentPreview>,
)
    requires
        preview_views(first) == previews(selected(rows, plan_of(query))),
        preview_views(second) == previews(selected(rows, plan_of(query))),
    ensures
        preview_views(first) == preview_views(second),
{
}

/// Two autocompletions with one hint and limit over the same tags hand out
/// the same tags.
pub proof fn lemma_autocomplete_repeatable(
    tags: Seq<Seq<char>>,
    hint: Seq<char>,
    limit: nat,
    first: Seq<String>,
    second: Seq<String>,
)
    requires
        tag_views(first) == distinct_matches(tags, hint).take(
            vstd::math::min(limit as int, distinct_matches(tags, hint).len() as int),
        ),
        tag_views(second) == distinct_matches(tags, hint).take(
            vstd::math::min(limit as int, distinct_matches(tags, hint).len() as int),
        ),
    ensures
        tag_views(first) == tag_views(second),
{
}

/// A plan that admits none of the rows selects nothing.
pub proof fn lemma_no_match_is_empty(rows: Seq<StoredDocument>, plan: PlanView)
    requires
        forall|k: int| 0 <= k < rows.len() ==> !admits(plan, #[trigger] rows[k]),
    ensures
        previews(selected(rows, plan)) == Seq::<PreviewView>::empty(),
{
    lemma_selected_exactly(rows, plan);
    if selected(rows, plan).len() > 0 {
        let d = selected(rows, plan)[0];
        let k = choose|k: int| 0 <= k < rows.len() && rows[k] == d;
        assert(!admits(plan, rows[k]));
    }
    assert(previews(selected(rows, plan)) =~= Seq::<PreviewView>::empty());
}

/// Autocompletion over tags none of which contains the hint hands out nothing.
pub proof fn lemma_no_tag_match_is_empty(tags: Seq<Seq<char>>, hint: Seq<char>)
    requires
        forall|k: int| 0 <= k < tags.len() ==> !contains_ci(#[trigger] tags[k], hint),
    ensures
        distinct_matches(tags, hint) == Seq::<Seq<char>>::empty(),
{
    lemma_distinct_matches(tags, hint);
    if distinct_matches(tags, hint).len() > 0 {
        assert(contains_ci(distinct_matches(tags, hint)[0], hint));
    }
    assert(distinct_matches(tags, hint) =~= Seq::<Seq<char>>::empty());
}

/// Searches keep the order in which the store hands out rows: when the rows
/// come ordered by title under `le`, so do the results.
pub proof fn lemma_title_order_kept(
    rows: Seq<StoredDocument>,
    plan: PlanView,
    le: spec_fn(Seq<char>, Seq<char>) -> bool,
)
    requires
        forall|i: int, j: int|
            0 <= i < j < rows.len() ==> le(#[trigger] rows[i].title@, #[trigger] rows[j].title@),
    ensures
        forall|i: int, j: int|
            0 <= i < j < selected(rows, plan).len() ==> le(
                #[trigger] selected(rows, plan)[i].title@,
                #[trigger] selected(rows, plan)[j].title@,
            ),
    decreases rows.len(),
{
    if rows.len() > 0 {
        let prefix = rows.drop_last();
        let last = rows.last();
        lemma_title_order_kept(prefix, plan, le);
        lemma_selected_exactly(prefix, plan);
        reveal(Seq::filter);
        let before = selected(prefix, plan);
        let all = selected(rows, plan);
        assert(all == if admits(plan, last) {
            before.push(last)
        } else {
            before
        });
        if admits(plan, last) {
            assert forall|i: int, j: int| 0 <= i < j < all.len() implies le(
                #[trigger] all[i].title@,
                #[trigger] all[j].title@,
            ) by {
                if j == all.len() - 1 {
                    assert(all[i] == before[i]);
                    assert(prefix.contains(before[i]));
                    let k = choose|k: int| 0 <= k < prefix.len() && prefix[k] == before[i];
                    assert(rows[k] == prefix[k]);
                    assert(all[j] == rows[rows.len() - 1]);
                } else {
                    assert(all[i] == before[i]);
                    assert(all[j] == before[j]);
                }
            }
        }
    }
}

} // verus!
