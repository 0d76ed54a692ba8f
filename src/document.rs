use vstd::prelude::*;

verus! {

/// The tags of a document as character sequences.
pub open spec fn tag_views(tags: Seq<String>) -> Seq<Seq<char>> {
    tags.map_values(|t: String| t@)
}

/// A document as the store holds it. `transcription` is searched but never
/// handed out.
pub struct StoredDocument {
    pub uuid: String,
    pub title: String,
    pub tags: Vec<String>,
    pub short: String,
    pub transcription: String,
}

/// The display-safe projection of a stored document.
pub struct DocumentPreview {
    pub uuid: String,
    pub title: String,
    pub tags: Vec<String>,
    pub short: String,
}

/// The mathematical content of a preview.
pub struct PreviewView {
    pub uuid: Seq<char>,
    pub title: Seq<char>,
    pub tags: Seq<Seq<char>>,
    pub short: Seq<char>,
}

impl View for DocumentPreview {
    type V = PreviewView;

    open spec fn view(&self) -> PreviewView {
        PreviewView {
            uuid: self.uuid@,
            title: self.title@,
            tags: tag_views(self.tags@),
            short: self.short@,
        }
    }
}

impl StoredDocument {
    /// The preview that a search hands out for this document.
    pub open spec fn preview_view(&self) -> PreviewView {
        PreviewView {
            uuid: self.uuid@,
            title: self.title@,
            tags: tag_views(self.tags@),
            short: self.short@,
        }
    }

    /// Projects the document onto `uuid`, `title`, `tags` and `short`.
    pub fn preview(&self) -> (r: DocumentPreview)
        ensures
            r@ == self.preview_view(),
    {
        DocumentPreview {
            uuid: self.uuid.clone(),
            title: self.title.clone(),
            tags: copy_strings(&self.tags),
            short: self.short.clone(),
        }
    }
}

/// A copy of a vector of strings.
pub fn copy_strings(v: &Vec<String>) -> (r: Vec<String>)
    ensures
        r@ == v@,
{
    let mut r: Vec<String> = Vec::new();
    let mut i: usize = 0;
    while i < v.len()
        invariant
            i <= v@.len(),
            r@ == v@.subrange(0, i as int),
        decreases v@.len() - i,
    {
        r.push(v[i].clone());
        i = i + 1;
    }
    assert(r@ =~= v@);
    r
}

} // verus!
