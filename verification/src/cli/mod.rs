//! The command-line surface: argument types, how `search` arguments become a
//! structured query, and the renderers of results (table, CSV, feed).

use vstd::prelude::*;
use vstd::view::View as ViewTrait;
use crate::model::{label_of, language_from_label, Language, MatchField};
use crate::query::parse::{parse_query, parsed_query};
use crate::query::{filters_view, Filter, FilterView, Query, QueryView, Sort};
use crate::text::{strs_view, to_lowercase, unicode_lower};

pub mod output;
pub mod export;
pub mod feed;

verus! {

/// How `search` prints its results.
#[derive(Debug, Clone, Copy, PartialEq, Eq, Structural)]
pub enum OutputFormat {
    /// Human-readable aligned table (the default).
    Table,
    /// One JSON array of {name, lang, path, tags, desc}.
    Json,
    /// CSV with a header row; tags joined by `;`.
    Csv,
}

impl Default for OutputFormat {
    fn default() -> (f: Self)
        ensures
            f == OutputFormat::Table,
    {
        OutputFormat::Table
    }
}

/// Result ordering for `--sort`.
#[derive(Debug, Clone, Copy, PartialEq, Eq, Structural)]
pub enum SortArg {
    /// The hybrid (default).
    Auto,
    /// Alphabetical by display name.
    Name,
    /// Most recently run first.
    Recent,
    /// Most recently modified first.
    Modified,
}

impl Default for SortArg {
    fn default() -> (s: Self)
        ensures
            s == SortArg::Auto,
    {
        SortArg::Auto
    }
}

/// The engine ordering a `--sort` value selects.
pub open spec fn sort_of(s: SortArg) -> Sort {
    match s {
        SortArg::Auto => Sort::Auto,
        SortArg::Name => Sort::Name,
        SortArg::Recent => Sort::RecentlyRun,
        SortArg::Modified => Sort::Modified,
    }
}

impl SortArg {
    /// The engine ordering this value selects.
    pub fn to_sort(self) -> (s: Sort)
        ensures
            s == sort_of(self),
    {
        match self {
            SortArg::Auto => Sort::Auto,
            SortArg::Name => Sort::Name,
            SortArg::Recent => Sort::RecentlyRun,
            SortArg::Modified => Sort::Modified,
        }
    }
}

/// Arguments of `scriptvault search`.
#[derive(Debug, Clone, PartialEq, Eq)]
pub struct SearchArgs {
    /// The fuzzy query; empty lists everything.
    pub query: String,
    /// Scan only these directories instead of the configured roots.
    pub roots: Vec<String>,
    /// Print only file paths, one per line.
    pub paths_only: bool,
    /// Output format.
    pub format: OutputFormat,
    /// Limit the number of results shown (0 = no limit).
    pub limit: usize,
    /// Keep only scripts carrying each of these tags.
    pub tags: Vec<String>,
    /// Keep only scripts of this language.
    pub lang: Option<String>,
    /// Keep only favorited scripts.
    pub fav: bool,
    /// Result ordering.
    pub sort: SortArg,
    /// Run the top match instead of printing results.
    pub run: bool,
    /// Show diagnostics for unreadable candidates.
    pub verbose: bool,
}

/// What `gen` prints: a shell's completions or the man page.
#[derive(Debug, Clone, Copy, PartialEq, Eq, Structural)]
pub enum GenTarget {
    Bash,
    Zsh,
    Fish,
    Powershell,
    Elvish,
    Man,
}

/// Arguments of `scriptvault gen`.
#[derive(Debug, Clone, Copy, PartialEq, Eq)]
pub struct GenArgs {
    pub target: GenTarget,
}

/// Arguments of `scriptvault workstate-feed`.
#[derive(Debug, Clone, PartialEq, Eq)]
pub struct WorkstateFeedArgs {
    /// Write the feed here instead of stdout.
    pub output: Option<String>,
    /// Scan only these directories instead of the configured roots.
    pub roots: Vec<String>,
    /// Override the `generated_at` stamp (RFC 3339).
    pub generated_at: Option<String>,
}

/// The filters the explicit flags add, in order: a tag filter per `--tag`
/// (lowercased), a language filter when `--lang` names a known language, and
/// the favorite filter with `--fav`.
pub open spec fn flag_filters(tags: Seq<Seq<char>>, lang: Option<Seq<char>>, fav: bool) -> Seq<FilterView> {
    tags.map_values(|t: Seq<char>| FilterView::Tag(unicode_lower(t))) + match lang {
        Some(l) => match language_from_label(l) {
            Some(x) => seq![FilterView::Lang(x)],
            None => seq![],
        },
        None => seq![],
    } + if fav {
        seq![FilterView::Favorite]
    } else {
        seq![]
    }
}

/// The query `search` runs: the query string parsed (so inline operators
/// work), the flags' filters appended, the chosen ordering, and the limit
/// (`0` = none).
pub open spec fn search_query(
    query: Seq<char>,
    tags: Seq<Seq<char>>,
    lang: Option<Seq<char>>,
    fav: bool,
    sort: SortArg,
    limit: usize,
) -> QueryView {
    let p = parsed_query(query);
    QueryView {
        text: p.text,
        filters: p.filters + flag_filters(tags, lang, fav),
        view: p.view,
        sort: sort_of(sort),
        limit: if limit > 0 {
            Some(limit)
        } else {
            None
        },
    }
}

/// Build the structured query for `search` (see [`search_query`]).
pub fn build_query(args: &SearchArgs) -> (q: Query)
    ensures
        q@ == search_query(
            args.query@,
            strs_view(args.tags@),
            match args.lang {
                Some(l) => Some(l@),
                None => None,
            },
            args.fav,
            args.sort,
            args.limit,
        ),
{
    let mut q = parse_query(args.query.as_str());
    let ghost base = q@.filters;
    let ghost tv = strs_view(args.tags@);
    let mut i: usize = 0;
    while i < args.tags.len()
        invariant
            i <= args.tags.len(),
            tv == strs_view(args.tags@),
            filters_view(q.filters@) == base + tv.map_values(|t: Seq<char>| FilterView::Tag(unicode_lower(t))).take(i as int),
            q@.text == parsed_query(args.query@).text,
            q@.view == parsed_query(args.query@).view,
            base == parsed_query(args.query@).filters,
        decreases args.tags.len() - i,
    {
        let lower = to_lowercase(args.tags[i].as_str());
        let ghost before = q.filters@;
        let f = Filter::Tag(lower);
        q.filters.push(f);
        proof {
            assert(q.filters@ =~= before.push(f));
            assert(tv.map_values(|t: Seq<char>| FilterView::Tag(unicode_lower(t))).take(i + 1) =~= tv.map_values(
                |t: Seq<char>| FilterView::Tag(unicode_lower(t)),
            ).take(i as int).push(FilterView::Tag(unicode_lower(tv[i as int]))));
            assert(filters_view(q.filters@) =~= filters_view(before).push(f@));
        }
        i += 1;
    }
    proof {
        assert(tv.map_values(|t: Seq<char>| FilterView::Tag(unicode_lower(t))).take(args.tags.len() as int)
            =~= tv.map_values(|t: Seq<char>| FilterView::Tag(unicode_lower(t))));
    }
    let ghost with_tags = filters_view(q.filters@);
    match &args.lang {
        Some(l) => match Language::from_label(l.as_str()) {
            Some(x) => {
                let ghost before = q.filters@;
                q.filters.push(Filter::Lang(x));
                proof {
                    assert(filters_view(q.filters@) =~= filters_view(before).push(FilterView::Lang(x)));
                }
            },
            None => {},
        },
        None => {},
    }
    let ghost with_lang = filters_view(q.filters@);
    if args.fav {
        let ghost before = q.filters@;
        q.filters.push(Filter::Favorite);
        proof {
            assert(filters_view(q.filters@) =~= filters_view(before).push(FilterView::Favorite));
        }
    }
    q.sort = args.sort.to_sort();
    q.limit = if args.limit > 0 {
        Some(args.limit)
    } else {
        None
    };
    proof {
        assert(filters_view(q.filters@) =~= parsed_query(args.query@).filters + flag_filters(
            strs_view(args.tags@),
            match args.lang {
                Some(l) => Some(l@),
                None => None,
            },
            args.fav,
        ));
    }
    q
}

/// The short label of a match field, as the table's MATCH column shows it.
pub open spec fn match_label_of(f: MatchField) -> Seq<char> {
    match f {
        MatchField::Name => "name"@,
        MatchField::Tags => "tags"@,
        MatchField::Desc => "desc"@,
        MatchField::Filename => "file"@,
    }
}

/// The short label of a match field.
pub fn match_label(field: MatchField) -> (r: &'static str)
    ensures
        r@ == match_label_of(field),
{
    match field {
        MatchField::Name => "name",
        MatchField::Tags => "tags",
        MatchField::Desc => "desc",
        MatchField::Filename => "file",
    }
}

} // verus!
