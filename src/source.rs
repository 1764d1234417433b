//! The identity record of a discoverable input.
use vstd::prelude::*;

verus! {

/// An input discovered on the network, or added by hand.
///
/// Its identity is `url`; `name` is accepted by lookups as a second key.
#[derive(Debug, Clone, PartialEq)]
pub struct NdiSource {
    pub name: String,
    pub url: String,
    pub groups: Vec<String>,
}

/// The mathematical value of a source.
pub struct SourceView {
    pub name: Seq<char>,
    pub url: Seq<char>,
    pub groups: Seq<Seq<char>>,
}

impl View for NdiSource {
    type V = SourceView;

    open spec fn view(&self) -> SourceView {
        SourceView {
            name: self.name@,
            url: self.url@,
            groups: self.groups@.map_values(|g: String| g@),
        }
    }
}

/// Whether `id` names the source with the value `s`, by url or by name.
pub open spec fn source_matches(s: SourceView, id: Seq<char>) -> bool {
    s.url == id || s.name == id
}

/// Whether some source in `srcs` has the url `url`.
pub open spec fn has_url(srcs: Seq<SourceView>, url: Seq<char>) -> bool {
    exists|k: int| 0 <= k < srcs.len() && (#[trigger] srcs[k]).url == url
}

/// Whether some source in `srcs` is named by `id`, by url or by name.
pub open spec fn has_match(srcs: Seq<SourceView>, id: Seq<char>) -> bool {
    exists|k: int| 0 <= k < srcs.len() && source_matches(#[trigger] srcs[k], id)
}

/// No two sources in `srcs` share a url.
pub open spec fn urls_distinct(srcs: Seq<SourceView>) -> bool {
    forall|j: int, k: int|
        0 <= j < srcs.len() && 0 <= k < srcs.len() && j != k ==> (#[trigger] srcs[j]).url
            != (#[trigger] srcs[k]).url
}

/// `srcs` after adding `s`: appended unless a source with its url is present.
pub open spec fn with_source(srcs: Seq<SourceView>, s: SourceView) -> Seq<SourceView> {
    if has_url(srcs, s.url) {
        srcs
    } else {
        srcs.push(s)
    }
}

/// `srcs` after adding each of `news` in order.
pub open spec fn with_sources(srcs: Seq<SourceView>, news: Seq<SourceView>) -> Seq<SourceView>
    decreases news.len(),
{
    if news.len() == 0 {
        srcs
    } else {
        with_source(with_sources(srcs, news.drop_last()), news.last())
    }
}

/// Adding a source keeps urls distinct.
pub proof fn lemma_with_source_distinct(srcs: Seq<SourceView>, s: SourceView)
    requires
        urls_distinct(srcs),
    ensures
        urls_distinct(with_source(srcs, s)),
{
    if !has_url(srcs, s.url) {
        let r = srcs.push(s);
        assert forall|j: int, k: int|
            0 <= j < r.len() && 0 <= k < r.len() && j != k implies (#[trigger] r[j]).url
                != (#[trigger] r[k]).url by {
            if j == srcs.len() {
                assert(r[k] == srcs[k]);
            } else if k == srcs.len() {
                assert(r[j] == srcs[j]);
            } else {
                assert(r[j] == srcs[j] && r[k] == srcs[k]);
            }
        }
    }
}

/// Each source in `with_sources(srcs, news)` comes from `srcs` or from `news`.
pub proof fn lemma_with_sources_members(srcs: Seq<SourceView>, news: Seq<SourceView>)
    ensures
        forall|k: int|
            0 <= k < with_sources(srcs, news).len() ==> srcs.contains(
                #[trigger] with_sources(srcs, news)[k],
            ) || news.contains(with_sources(srcs, news)[k]),
    decreases news.len(),
{
    if news.len() > 0 {
        let init = news.drop_last();
        lemma_with_sources_members(srcs, init);
        let w0 = with_sources(srcs, init);
        let w = with_sources(srcs, news);
        assert forall|k: int| 0 <= k < w.len() implies srcs.contains(#[trigger] w[k]) || news.contains(
            w[k],
        ) by {
            if k < w0.len() {
                assert(w[k] == w0[k]);
                if init.contains(w0[k]) {
                    let j = choose|j: int| 0 <= j < init.len() && init[j] == w0[k];
                    assert(news[j] == init[j]);
                }
            } else {
                assert(w[k] == news.last());
                assert(news[news.len() - 1] == news.last());
            }
        }
    }
}

/// Copies a list of strings, keeping each one.
pub fn copy_strings(v: &Vec<String>) -> (r: Vec<String>)
    ensures
        r@.map_values(|g: String| g@) == v@.map_values(|g: String| g@),
{
    let mut r: Vec<String> = Vec::new();
    let mut i: usize = 0;
    while i < v.len()
        invariant
            i <= v@.len(),
            r@.len() == i,
            forall|j: int| 0 <= j < i ==> #[trigger] r@[j]@ == v@[j]@,
        decreases v@.len() - i,
    {
        r.push(v[i].clone());
        i += 1;
    }
    assert(r@.map_values(|g: String| g@) =~= v@.map_values(|g: String| g@));
    r
}

impl NdiSource {
    /// A source with the given name and url and no groups.
    pub fn new(name: String, url: String) -> (r: NdiSource)
        ensures
            r@ == (SourceView { name: name@, url: url@, groups: Seq::empty() }),
    {
        let r = NdiSource { name, url, groups: Vec::new() };
        assert(r@.groups =~= Seq::<Seq<char>>::empty());
        r
    }

    /// The same source, tagged with `groups` in place of its former groups.
    pub fn with_groups(self, groups: Vec<String>) -> (r: NdiSource)
        ensures
            r@ == (SourceView { groups: groups@.map_values(|g: String| g@), ..self@ }),
    {
        let mut s = self;
        s.groups = groups;
        s
    }

    /// A copy of this source, equal to it in every field.
    pub fn duplicate(&self) -> (r: NdiSource)
        ensures
            r@ == self@,
    {
        NdiSource {
            name: self.name.clone(),
            url: self.url.clone(),
            groups: copy_strings(&self.groups),
        }
    }

    /// The source as one line of text: `NDI Source: <name> (<url>)`.
    pub fn to_string(&self) -> (r: String)
        ensures
            r@ == "NDI Source: "@ + self.name@ + " ("@ + self.url@ + ")"@,
    {
        let mut r = String::from_str("NDI Source: ");
        r.append(self.name.as_str());
        r.append(" (");
        r.append(self.url.as_str());
        r.append(")");
        r
    }

    /// Whether `id` is this source's url or its name.
    pub fn matches(&self, id: &String) -> (r: bool)
        ensures
            r == source_matches(self@, id@),
    {
        self.url == *id || self.name == *id
    }
}

} // verus!
