//! The structured search request a frontend builds and hands to the engine:
//! fuzzy text, structured filters, a browse view, an ordering and a limit.

use vstd::prelude::*;
use vstd::view::View as ViewTrait;
use crate::model::{label_of, Language};
use crate::text::{
    append, append_lit, ascii_lower_seq, ascii_lowercase, chars_of, chars_of_string, eq_lit,
    opt_view, string_of, trim, trim_str,
};

pub mod parse;
pub mod ranking;
pub mod engine;

pub use parse::{parse_query, pop_last_filter_token};

verus! {

/// A script's risk classification, encoded as a `risk:<level>` tag.
#[derive(Debug, Clone, Copy, PartialEq, Eq, Structural)]
pub enum RiskLevel {
    Low,
    Medium,
    High,
}

/// The canonical lowercase label of a risk level.
pub open spec fn risk_label_of(r: RiskLevel) -> Seq<char> {
    match r {
        RiskLevel::Low => "low"@,
        RiskLevel::Medium => "medium"@,
        RiskLevel::High => "high"@,
    }
}

/// The risk levels a label names, after trimming and ASCII lowercasing: low;
/// medium or med; high. Anything else names none.
pub proof fn lemma_risk_labels(s: Seq<char>)
    ensures
        ascii_lower_seq(trim(s)) == "low"@ ==> risk_from_label(s) == Some(RiskLevel::Low),
        (ascii_lower_seq(trim(s)) == "medium"@ || ascii_lower_seq(trim(s)) == "med"@) ==> risk_from_label(s) == Some(RiskLevel::Medium),
        ascii_lower_seq(trim(s)) == "high"@ ==> risk_from_label(s) == Some(RiskLevel::High),
        !(ascii_lower_seq(trim(s)) == "low"@ || ascii_lower_seq(trim(s)) == "medium"@ || ascii_lower_seq(trim(s)) == "med"@ || ascii_lower_seq(trim(s)) == "high"@) ==> risk_from_label(s) is None,
{
    reveal_strlit("low");
    reveal_strlit("medium");
    reveal_strlit("med");
    reveal_strlit("high");
    assert("low"@[0] == 'l' && "medium"@[0] == 'm' && "med"@[0] == 'm' && "high"@[0] == 'h');
    let k = ascii_lower_seq(trim(s));
    if k.len() > 0 {
        assert(k[0] == k[0]);
    }
}

/// `RiskLevel::from_label`: trim, ASCII-lowercase, look up.
pub open spec fn risk_from_label(s: Seq<char>) -> Option<RiskLevel> {
    let k = ascii_lower_seq(trim(s));
    if k == "low"@ {
        Some(RiskLevel::Low)
    } else if k == "medium"@ || k == "med"@ {
        Some(RiskLevel::Medium)
    } else if k == "high"@ {
        Some(RiskLevel::High)
    } else {
        None
    }
}

impl RiskLevel {
    /// The canonical lowercase label used in the `risk:<level>` tag.
    pub fn label(&self) -> (r: &'static str)
        ensures
            r@ == risk_label_of(*self),
    {
        match self {
            RiskLevel::Low => "low",
            RiskLevel::Medium => "medium",
            RiskLevel::High => "high",
        }
    }

    /// Parse a risk level from a free-text label (trimmed, ASCII
    /// case-insensitive); `None` for anything unrecognized.
    pub fn from_label(label: &str) -> (r: Option<RiskLevel>)
        ensures
            r == risk_from_label(label@),
    {
        let t = trim_str(label);
        let k = ascii_lowercase(&t);
        if eq_lit(&k, "low") {
            Some(RiskLevel::Low)
        } else if eq_lit(&k, "medium") || eq_lit(&k, "med") {
            Some(RiskLevel::Medium)
        } else if eq_lit(&k, "high") {
            Some(RiskLevel::High)
        } else {
            None
        }
    }
}

/// A single structured constraint; several are ANDed.
#[derive(Debug, Clone, PartialEq, Eq)]
pub enum Filter {
    /// Keep entries carrying a tag that contains this text.
    Tag(String),
    /// Keep entries whose category contains this text.
    Category(String),
    /// Keep only entries of this resolved language.
    Lang(Language),
    /// Keep only favorited entries.
    Favorite,
    /// Keep entries at this risk level.
    Risk(RiskLevel),
    /// Exclude entries carrying a tag that contains this text.
    NotTag(String),
    /// Members of the named playlist.
    Playlist(String),
}

/// The mathematical view of a [`Filter`].
pub enum FilterView {
    Tag(Seq<char>),
    Category(Seq<char>),
    Lang(Language),
    Favorite,
    Risk(RiskLevel),
    NotTag(Seq<char>),
    Playlist(Seq<char>),
}

impl ViewTrait for Filter {
    type V = FilterView;

    open spec fn view(&self) -> FilterView {
        match self {
            Filter::Tag(t) => FilterView::Tag(t@),
            Filter::Category(c) => FilterView::Category(c@),
            Filter::Lang(l) => FilterView::Lang(*l),
            Filter::Favorite => FilterView::Favorite,
            Filter::Risk(r) => FilterView::Risk(*r),
            Filter::NotTag(t) => FilterView::NotTag(t@),
            Filter::Playlist(p) => FilterView::Playlist(p@),
        }
    }
}

/// The views of a sequence of filters.
pub open spec fn filters_view(v: Seq<Filter>) -> Seq<FilterView> {
    v.map_values(|f: Filter| f@)
}

/// The chip text of a filter, as a user would type it; none for a playlist.
pub open spec fn chip_of(f: FilterView) -> Option<Seq<char>> {
    match f {
        FilterView::Tag(t) => Some("t:"@ + t),
        FilterView::Category(c) => Some("c:"@ + c),
        FilterView::Lang(l) => Some("lang:"@ + label_of(l)),
        FilterView::Favorite => Some("fav:"@),
        FilterView::Risk(r) => Some("risk:"@ + risk_label_of(r)),
        FilterView::NotTag(t) => Some("-t:"@ + t),
        FilterView::Playlist(_) => None,
    }
}

fn lit_plus(lit: &str, s: &Vec<char>) -> (out: String)
    ensures
        out@ == lit@ + s@,
{
    let mut v = chars_of(lit);
    append(&mut v, s);
    string_of(&v)
}

impl Filter {
    /// Short operator label as a user would type it (`t:ci`, `lang:bash`, …);
    /// `None` for a playlist filter.
    pub fn chip_label(&self) -> (r: Option<String>)
        ensures
            opt_view(r) == chip_of(self@),
    {
        match self {
            Filter::Tag(t) => Some(lit_plus("t:", &chars_of_string(t))),
            Filter::Category(c) => Some(lit_plus("c:", &chars_of_string(c))),
            Filter::Lang(l) => Some(lit_plus("lang:", &chars_of(l.label()))),
            Filter::Favorite => Some(string_of(&chars_of("fav:"))),
            Filter::Risk(r) => Some(lit_plus("risk:", &chars_of(r.label()))),
            Filter::NotTag(t) => Some(lit_plus("-t:", &chars_of_string(t))),
            Filter::Playlist(_) => None,
        }
    }

    /// Whether two filters are the same constraint.
    pub fn same_as(&self, other: &Filter) -> (r: bool)
        ensures
            r == (self@ == other@),
    {
        match (self, other) {
            (Filter::Tag(a), Filter::Tag(b)) => crate::text::str_eq(a.as_str(), b.as_str()),
            (Filter::Category(a), Filter::Category(b)) => crate::text::str_eq(a.as_str(), b.as_str()),
            (Filter::Lang(a), Filter::Lang(b)) => *a == *b,
            (Filter::Favorite, Filter::Favorite) => true,
            (Filter::Risk(a), Filter::Risk(b)) => *a == *b,
            (Filter::NotTag(a), Filter::NotTag(b)) => crate::text::str_eq(a.as_str(), b.as_str()),
            (Filter::Playlist(a), Filter::Playlist(b)) => crate::text::str_eq(a.as_str(), b.as_str()),
            _ => false,
        }
    }

    /// A copy of this filter.
    pub fn duplicate(&self) -> (r: Filter)
        ensures
            r@ == self@,
    {
        match self {
            Filter::Tag(t) => Filter::Tag(t.clone()),
            Filter::Category(c) => Filter::Category(c.clone()),
            Filter::Lang(l) => Filter::Lang(*l),
            Filter::Favorite => Filter::Favorite,
            Filter::Risk(r) => Filter::Risk(*r),
            Filter::NotTag(t) => Filter::NotTag(t.clone()),
            Filter::Playlist(p) => Filter::Playlist(p.clone()),
        }
    }
}

/// The browse view: a coarse pre-filter before structured filters.
#[derive(Debug, Clone, PartialEq, Eq)]
pub enum View {
    All,
    Favorites,
    Recents,
    Playlist(String),
}

/// The mathematical view of a [`View`].
pub enum ViewSpec {
    All,
    Favorites,
    Recents,
    Playlist(Seq<char>),
}

impl ViewTrait for View {
    type V = ViewSpec;

    open spec fn view(&self) -> ViewSpec {
        match self {
            View::All => ViewSpec::All,
            View::Favorites => ViewSpec::Favorites,
            View::Recents => ViewSpec::Recents,
            View::Playlist(p) => ViewSpec::Playlist(p@),
        }
    }
}

impl Default for View {
    fn default() -> (v: Self)
        ensures
            v@ == ViewSpec::All,
    {
        View::All
    }
}

/// Result ordering.
#[derive(Debug, Clone, Copy, PartialEq, Eq, Structural)]
pub enum Sort {
    /// Fuzzy match quality, then frecency, then name/mtime.
    Auto,
    /// Alphabetical by display name.
    Name,
    /// Most recently run first.
    RecentlyRun,
    /// Most recently modified on disk first.
    Modified,
}

impl Default for Sort {
    fn default() -> (s: Self)
        ensures
            s == Sort::Auto,
    {
        Sort::Auto
    }
}

/// A complete, structured search request.
#[derive(Debug, Clone, PartialEq, Eq)]
pub struct Query {
    /// The fuzzy text left after operators are stripped.
    pub text: String,
    /// Structured constraints, ANDed.
    pub filters: Vec<Filter>,
    /// Which slice of the index to consider.
    pub view: View,
    /// How to order the results.
    pub sort: Sort,
    /// Cap on the number of results; `None` = no limit.
    pub limit: Option<usize>,
}

/// The mathematical view of a [`Query`].
pub struct QueryView {
    pub text: Seq<char>,
    pub filters: Seq<FilterView>,
    pub view: ViewSpec,
    pub sort: Sort,
    pub limit: Option<usize>,
}

impl ViewTrait for Query {
    type V = QueryView;

    open spec fn view(&self) -> QueryView {
        QueryView {
            text: self.text@,
            filters: filters_view(self.filters@),
            view: self.view@,
            sort: self.sort,
            limit: self.limit,
        }
    }
}

impl Default for Query {
    fn default() -> (q: Self)
        ensures
            q@ == (QueryView {
                text: seq![],
                filters: seq![],
                view: ViewSpec::All,
                sort: Sort::Auto,
                limit: None,
            }),
    {
        let q = Query {
            text: String::new(),
            filters: Vec::new(),
            view: View::All,
            sort: Sort::Auto,
            limit: None,
        };
        proof {
            assert(q@.filters =~= Seq::<FilterView>::empty());
        }
        q
    }
}

impl Query {
    /// Just fuzzy text, defaults otherwise.
    pub fn text(text: &str) -> (q: Self)
        ensures
            q@ == (QueryView {
                text: text@,
                filters: seq![],
                view: ViewSpec::All,
                sort: Sort::Auto,
                limit: None,
            }),
    {
        let q = Query {
            text: text.to_string(),
            filters: Vec::new(),
            view: View::All,
            sort: Sort::Auto,
            limit: None,
        };
        proof {
            assert(q@.filters =~= Seq::<FilterView>::empty());
        }
        q
    }
}

} // verus!
