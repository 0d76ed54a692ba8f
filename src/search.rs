use vstd::prelude::*;
use crate::document::{tag_views, DocumentPreview, StoredDocument};
use crate::text::{contains_ci, contains_ignoring_case};
use vstd::string::StringExecFns;
use vstd::math::min;

verus! {

/// Some tag of `have` equals some tag of `wanted`.
pub open spec fn shares_tag(have: Seq<Seq<char>>, wanted: Seq<Seq<char>>) -> bool {
    exists|i: int, j: int|
        0 <= i < have.len() && 0 <= j < wanted.len() && #[trigger] have[i] == #[trigger] wanted[j]
}

/// A search request: optional free text and a possibly empty tag list.
pub struct Query {
    pub text: Option<String>,
    pub tags: Vec<String>,
}

/// The three mutually exclusive query shapes.
pub enum SearchPlan {
    /// Documents carrying any of the tags.
    ByTags { tags: Vec<String> },
    /// Documents whose transcription or short text contains the text, case ignored.
    InText { text: String },
    /// Documents carrying any of the tags whose transcription contains the
    /// text, case ignored. The short text is not consulted.
    Combined { text: String, tags: Vec<String> },
}

/// The mathematical content of a plan.
pub enum PlanView {
    ByTags(Seq<Seq<char>>),
    InText(Seq<char>),
    Combined(Seq<char>, Seq<Seq<char>>),
}

impl View for SearchPlan {
    type V = PlanView;

    open spec fn view(&self) -> PlanView {
        match self {
            SearchPlan::ByTags { tags } => PlanView::ByTags(tag_views(tags@)),
            SearchPlan::InText { text } => PlanView::InText(text@),
            SearchPlan::Combined { text, tags } => PlanView::Combined(text@, tag_views(tags@)),
        }
    }
}

/// The document carries one of the wanted tags.
pub open spec fn tag_match(d: StoredDocument, wanted: Seq<Seq<char>>) -> bool {
    shares_tag(tag_views(d.tags@), wanted)
}

/// The document's transcription or short text contains `text`, case ignored.
pub open spec fn text_match(d: StoredDocument, text: Seq<char>) -> bool {
    contains_ci(d.transcription@, text) || contains_ci(d.short@, text)
}

/// The document carries one of the wanted tags and its transcription
/// contains `text`, case ignored.
pub open spec fn combined_match(d: StoredDocument, text: Seq<char>, wanted: Seq<Seq<char>>) -> bool {
    tag_match(d, wanted) && contains_ci(d.transcription@, text)
}

/// Whether a plan admits a document.
pub open spec fn admits(plan: PlanView, d: StoredDocument) -> bool {
    match plan {
        PlanView::ByTags(wanted) => tag_match(d, wanted),
        PlanView::InText(text) => text_match(d, text),
        PlanView::Combined(text, wanted) => combined_match(d, text, wanted),
    }
}

/// The rows a plan admits, in the order given.
pub open spec fn selected(rows: Seq<StoredDocument>, plan: PlanView) -> Seq<StoredDocument> {
    rows.filter(|d: StoredDocument| admits(plan, d))
}

/// The previews of a sequence of documents.
pub open spec fn previews(docs: Seq<StoredDocument>) -> Seq<crate::document::PreviewView> {
    docs.map_values(|d: StoredDocument| d.preview_view())
}

/// The views of a sequence of previews.
pub open spec fn preview_views(ps: Seq<DocumentPreview>) -> Seq<crate::document::PreviewView> {
    ps.map_values(|p: DocumentPreview| p@)
}

/// The plan that a query selects: both fields populated gives the combined
/// search, text alone the text search, otherwise the tag search.
pub open spec fn plan_of(q: Query) -> PlanView {
    match q.text {
        Some(t) => if q.tags@.len() > 0 {
            PlanView::Combined(t@, tag_views(q.tags@))
        } else {
            PlanView::InText(t@)
        },
        None => PlanView::ByTags(tag_views(q.tags@)),
    }
}

/// Whether some tag in `have` equals some tag in `wanted`.
pub fn has_any_tag(have: &Vec<String>, wanted: &Vec<String>) -> (r: bool)
    ensures
        r == shares_tag(tag_views(have@), tag_views(wanted@)),
{
    let mut i: usize = 0;
    while i < have.len()
        invariant
            i <= have@.len(),
            forall|a: int, b: int|
                0 <= a < i && 0 <= b < wanted@.len() ==> #[trigger] have@[a]@ != #[trigger] wanted@[b]@,
        decreases have@.len() - i,
    {
        let mut j: usize = 0;
        while j < wanted.len()
            invariant
                i < have@.len(),
                j <= wanted@.len(),
                forall|b: int| 0 <= b < j ==> have@[i as int]@ != #[trigger] wanted@[b]@,
            decreases wanted@.len() - j,
        {
            if have[i] == wanted[j] {
                assert(tag_views(have@)[i as int] == tag_views(wanted@)[j as int]);
                return true;
            }
            j = j + 1;
        }
        i = i + 1;
    }
    assert forall|a: int, b: int|
        0 <= a < tag_views(have@).len() && 0 <= b < tag_views(wanted@).len() implies
        #[trigger] tag_views(have@)[a] != #[trigger] tag_views(wanted@)[b] by {
        assert(have@[a]@ != wanted@[b]@);
    }
    false
}

impl SearchPlan {
    /// Whether the plan admits `d`.
    pub fn admits(&self, d: &StoredDocument) -> (r: bool)
        ensures
            r == admits(self@, *d),
    {
        match self {
            SearchPlan::ByTags { tags } => has_any_tag(&d.tags, tags),
            SearchPlan::InText { text } => {
                contains_ignoring_case(d.transcription.as_str(), text.as_str())
                    || contains_ignoring_case(d.short.as_str(), text.as_str())
            },
            SearchPlan::Combined { text, tags } => {
                has_any_tag(&d.tags, tags) && contains_ignoring_case(
                    d.transcription.as_str(),
                    text.as_str(),
                )
            },
        }
    }

    /// Selects the plan for a query.
    pub fn for_query(q: Query) -> (r: SearchPlan)
        ensures
            r@ == plan_of(q),
    {
        match q.text {
            Some(t) => if q.tags.len() > 0 {
                SearchPlan::Combined { text: t, tags: q.tags }
            } else {
                SearchPlan::InText { text: t }
            },
            None => SearchPlan::ByTags { tags: q.tags },
        }
    }

    /// The previews of the rows the plan admits, in the order of `rows`.
    pub fn run(&self, rows: &Vec<StoredDocument>) -> (r: Vec<DocumentPreview>)
        ensures
            preview_views(r@) == previews(selected(rows@, self@)),
    {
        let ghost plan = self@;
        let ghost pred = |d: StoredDocument| admits(plan, d);
        let mut out: Vec<DocumentPreview> = Vec::new();
        let mut i: usize = 0;
        while i < rows.len()
            invariant
                i <= rows@.len(),
                plan == self@,
                pred == (|d: StoredDocument| admits(plan, d)),
                preview_views(out@) == previews(rows@.subrange(0, i as int).filter(pred)),
            decreases rows@.len() - i,
        {
            let ghost prev = out@;
            let ghost before = rows@.subrange(0, i as int);
            let ghost after = rows@.subrange(0, i + 1);
            assert(after.drop_last() =~= before);
            assert(after.last() == rows@[i as int]);
            reveal(Seq::filter);
            assert(after.filter(pred) == if pred(after.last()) {
                before.filter(pred).push(after.last())
            } else {
                before.filter(pred)
            });
            if self.admits(&rows[i]) {
                let p = rows[i].preview();
                out.push(p);
                assert(preview_views(out@) =~= preview_views(prev).push(p@));
                assert(previews(after.filter(pred)) =~= previews(before.filter(pred)).push(
                    rows@[i as int].preview_view(),
                ));
            }
            i = i + 1;
        }
        assert(rows@.subrange(0, rows@.len() as int) =~= rows@);
        out
    }
}

/// The previews of the rows that the query admits, in the order of `rows`.
pub fn search(rows: &Vec<StoredDocument>, query: Query) -> (r: Vec<DocumentPreview>)
    ensures
        preview_views(r@) == previews(selected(rows@, plan_of(query))),
{
    let plan = SearchPlan::for_query(query);
    plan.run(rows)
}

/// The previews of the rows carrying any of `tags`.
pub fn search_by_tags(rows: &Vec<StoredDocument>, tags: &Vec<String>) -> (r: Vec<DocumentPreview>)
    ensures
        preview_views(r@) == previews(selected(rows@, PlanView::ByTags(tag_views(tags@)))),
{
    let plan = SearchPlan::ByTags { tags: crate::document::copy_strings(tags) };
    plan.run(rows)
}

/// The previews of the rows whose transcription or short text contains
/// `text`, case ignored.
pub fn search_in_text(rows: &Vec<StoredDocument>, text: &str) -> (r: Vec<DocumentPreview>)
    ensures
        preview_views(r@) == previews(selected(rows@, PlanView::InText(text@))),
{
    let plan = SearchPlan::InText { text: String::from_str(text) };
    plan.run(rows)
}

/// The previews of the rows carrying any of `tags` whose transcription
/// contains `text`, case ignored.
pub fn search_combined(rows: &Vec<StoredDocument>, text: &str, tags: &Vec<String>) -> (r: Vec<
    DocumentPreview,
>)
    ensures
        preview_views(r@) == previews(
            selected(rows@, PlanView::Combined(text@, tag_views(tags@))),
        ),
{
    let plan = SearchPlan::Combined {
        text: String::from_str(text),
        tags: crate::document::copy_strings(tags),
    };
    plan.run(rows)
}

/// The first occurrence of each tag of `tags` that contains `hint`, case
/// ignored, in order.
pub open spec fn distinct_matches(tags: Seq<Seq<char>>, hint: Seq<char>) -> Seq<Seq<char>>
    decreases tags.len(),
{
    if tags.len() == 0 {
        Seq::empty()
    } else {
        let prev = distinct_matches(tags.drop_last(), hint);
        let t = tags.last();
        if contains_ci(t, hint) && !prev.contains(t) {
            prev.push(t)
        } else {
            prev
        }
    }
}

/// Every tag of every document, document by document, in order.
pub open spec fn all_tags(docs: Seq<StoredDocument>) -> Seq<Seq<char>>
    decreases docs.len(),
{
    if docs.len() == 0 {
        Seq::empty()
    } else {
        all_tags(docs.drop_last()) + tag_views(docs.last().tags@)
    }
}

/// Each entry of `distinct_matches` contains the hint, comes from `tags`,
/// and occurs once.
pub proof fn lemma_distinct_matches(tags: Seq<Seq<char>>, hint: Seq<char>)
    ensures
        forall|i: int|
            0 <= i < distinct_matches(tags, hint).len() ==> contains_ci(
                #[trigger] distinct_matches(tags, hint)[i],
                hint,
            ) && tags.contains(distinct_matches(tags, hint)[i]),
        forall|i: int, j: int|
            0 <= i < j < distinct_matches(tags, hint).len() ==> #[trigger] distinct_matches(
                tags,
                hint,
            )[i] != #[trigger] distinct_matches(tags, hint)[j],
        forall|k: int|
            0 <= k < tags.len() && contains_ci(#[trigger] tags[k], hint) ==> distinct_matches(
                tags,
                hint,
            ).contains(tags[k]),
    decreases tags.len(),
{
    if tags.len() > 0 {
        let prev = distinct_matches(tags.drop_last(), hint);
        lemma_distinct_matches(tags.drop_last(), hint);
        let cur = distinct_matches(tags, hint);
        assert forall|i: int| 0 <= i < cur.len() implies contains_ci(#[trigger] cur[i], hint)
            && tags.contains(cur[i]) by {
            if i < prev.len() {
                assert(cur[i] == prev[i]);
                let w = choose|w: int| 0 <= w < tags.drop_last().len() && tags.drop_last()[w] == prev[i];
                assert(tags[w] == prev[i]);
            } else {
                assert(tags[tags.len() - 1] == cur[i]);
            }
        }
        assert forall|k: int| 0 <= k < tags.len() && contains_ci(#[trigger] tags[k], hint) implies cur.contains(tags[k]) by {
            if k < tags.len() - 1 {
                assert(tags.drop_last()[k] == tags[k]);
                let w = choose|w: int| 0 <= w < prev.len() && prev[w] == tags[k];
                assert(cur[w] == tags[k]);
            } else if !prev.contains(tags[k]) {
                assert(cur[cur.len() - 1] == tags[k]);
            } else {
                let w = choose|w: int| 0 <= w < prev.len() && prev[w] == tags[k];
                assert(cur[w] == tags[k]);
            }
        }
    }
}

/// Tag autocomplete over candidate tags: the first `limit` distinct tags that
/// contain `hint`, case ignored.
pub fn select_tags(candidates: &Vec<String>, hint: &str, limit: usize) -> (r: Vec<String>)
    ensures
        tag_views(r@) == distinct_matches(tag_views(candidates@), hint@).take(
            min(limit as int, distinct_matches(tag_views(candidates@), hint@).len() as int),
        ),
        r@.len() <= limit,
        forall|i: int|
            0 <= i < r@.len() ==> contains_ci(#[trigger] r@[i]@, hint@) && tag_views(
                candidates@,
            ).contains(r@[i]@),
        forall|i: int, j: int| 0 <= i < j < r@.len() ==> #[trigger] r@[i]@ != #[trigger] r@[j]@,
{
    let ghost all = tag_views(candidates@);
    let mut out: Vec<String> = Vec::new();
    let mut i: usize = 0;
    while i < candidates.len()
        invariant
            i <= candidates@.len(),
            all == tag_views(candidates@),
            tag_views(out@) == distinct_matches(all.subrange(0, i as int), hint@).take(
                min(limit as int, distinct_matches(all.subrange(0, i as int), hint@).len() as int),
            ),
        decreases candidates@.len() - i,
    {
        let ghost before = all.subrange(0, i as int);
        let ghost after = all.subrange(0, i + 1);
        assert(after.drop_last() =~= before);
        assert(after.last() == candidates@[i as int]@);
        let ghost prev = distinct_matches(before, hint@);
        let ghost old_out = out@;
        if out.len() < limit && contains_ignoring_case(candidates[i].as_str(), hint) {
            assert(prev.take(prev.len() as int) =~= prev);
            let mut seen = false;
            let mut j: usize = 0;
            while j < out.len()
                invariant
                    i < candidates@.len(),
                    j <= out@.len(),
                    tag_views(out@) == prev,
                    seen == prev.subrange(0, j as int).contains(candidates@[i as int]@),
                decreases out@.len() - j,
            {
                assert(prev[j as int] == out@[j as int]@);
                if out[j] == candidates[i] {
                    seen = true;
                }
                let ghost x = candidates@[i as int]@;
                assert(prev.subrange(0, j + 1) =~= prev.subrange(0, j as int).push(prev[j as int]));
                assert(prev.subrange(0, j + 1).contains(x) == (prev.subrange(0, j as int).contains(x)
                    || prev[j as int] == x)) by {
                    if prev.subrange(0, j as int).contains(x) {
                        let w = choose|w: int| 0 <= w < j && prev.subrange(0, j as int)[w] == x;
                        assert(prev.subrange(0, j + 1)[w] == x);
                    }
                    if prev[j as int] == x {
                        assert(prev.subrange(0, j + 1)[j as int] == x);
                    }
                    let s1 = prev.subrange(0, j + 1);
                    if s1.contains(x) {
                        let w = choose|w: int| 0 <= w < s1.len() && s1[w] == x;
                        if w < j {
                            assert(prev.subrange(0, j as int)[w] == x);
                        }
                    }
                }
                j = j + 1;
            }
            assert(prev.subrange(0, out@.len() as int) =~= prev);
            if !seen {
                out.push(candidates[i].clone());
                assert(tag_views(out@) =~= prev.push(candidates@[i as int]@));
            }
        }
        i = i + 1;
    }
    assert(all.subrange(0, candidates@.len() as int) =~= all);
    proof {
        let m = distinct_matches(all, hint@);
        lemma_distinct_matches(all, hint@);
        assert forall|x: int| 0 <= x < out@.len() implies contains_ci(#[trigger] out@[x]@, hint@)
            && all.contains(out@[x]@) by {
            assert(tag_views(out@)[x] == m[x]);
        }
        assert forall|x: int, y: int| 0 <= x < y < out@.len() implies #[trigger] out@[x]@
            != #[trigger] out@[y]@ by {
            assert(tag_views(out@)[x] == m[x]);
            assert(tag_views(out@)[y] == m[y]);
        }
    }
    out
}

/// Every tag of every document, in order.
pub fn collect_tags(docs: &Vec<StoredDocument>) -> (r: Vec<String>)
    ensures
        tag_views(r@) == all_tags(docs@),
{
    let mut out: Vec<String> = Vec::new();
    let mut i: usize = 0;
    while i < docs.len()
        invariant
            i <= docs@.len(),
            tag_views(out@) == all_tags(docs@.subrange(0, i as int)),
        decreases docs@.len() - i,
    {
        let ghost before = docs@.subrange(0, i as int);
        let ghost after = docs@.subrange(0, i + 1);
        assert(after.drop_last() =~= before);
        let ghost start = out@;
        let tags = &docs[i].tags;
        let mut j: usize = 0;
        while j < tags.len()
            invariant
                j <= tags@.len(),
                tag_views(out@) == tag_views(start) + tag_views(tags@.subrange(0, j as int)),
            decreases tags@.len() - j,
        {
            let ghost o = out@;
            out.push(tags[j].clone());
            assert(tag_views(out@) =~= tag_views(o).push(tags@[j as int]@));
            assert(tag_views(tags@.subrange(0, j + 1)) =~= tag_views(tags@.subrange(0, j as int)).push(tags@[j as int]@));
            assert(tag_views(out@) =~= tag_views(start) + tag_views(tags@.subrange(0, j + 1)));
            j = j + 1;
        }
        assert(tags@.subrange(0, tags@.len() as int) =~= tags@);
        i = i + 1;
    }
    assert(docs@.subrange(0, docs@.len() as int) =~= docs@);
    out
}

/// Tag autocomplete over documents: the first `limit` distinct tags of the
/// documents, flattened in order, that contain `hint`, case ignored.
pub fn find_matching_tags(docs: &Vec<StoredDocument>, hint: &str, limit: usize) -> (r: Vec<String>)
    ensures
        tag_views(r@) == distinct_matches(all_tags(docs@), hint@).take(
            min(limit as int, distinct_matches(all_tags(docs@), hint@).len() as int),
        ),
        r@.len() <= limit,
        forall|i: int|
            0 <= i < r@.len() ==> contains_ci(#[trigger] r@[i]@, hint@) && all_tags(
                docs@,
            ).contains(r@[i]@),
        forall|i: int, j: int| 0 <= i < j < r@.len() ==> #[trigger] r@[i]@ != #[trigger] r@[j]@,
{
    let tags = collect_tags(docs);
    select_tags(&tags, hint, limit)
}

} // verus!
