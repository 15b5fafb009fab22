use crate::show::{status_label, status_label_text};
use crate::text::{contains_text, lowercase_of, text_contains, to_lowercase};
use crate::types::{feature_views, texts, Feature, FeatureView};
use vstd::prelude::*;
use vstd::string::StringExecFns;

verus! {

/// A search: a keyword to look for and filters to pass, each optional. A
/// feature matches when it passes every part that is given.
#[derive(Debug, Clone, PartialEq, Eq)]
pub struct SearchQuery {
    /// Looked for in id, name, domain, description, context and tags.
    pub keyword: Option<String>,
    /// The domain a feature must have.
    pub domain: Option<String>,
    /// A tag a feature must carry.
    pub tag: Option<String>,
    /// The label of the status a feature must have.
    pub status: Option<String>,
}

/// The mathematical content of a [`SearchQuery`].
pub struct SearchQueryView {
    pub keyword: Option<Seq<char>>,
    pub domain: Option<Seq<char>>,
    pub tag: Option<Seq<char>>,
    pub status: Option<Seq<char>>,
}

impl View for SearchQuery {
    type V = SearchQueryView;

    open spec fn view(&self) -> SearchQueryView {
        SearchQueryView {
            keyword: crate::types::optional_text(self.keyword),
            domain: crate::types::optional_text(self.domain),
            tag: crate::types::optional_text(self.tag),
            status: crate::types::optional_text(self.status),
        }
    }
}

/// A flag of the search command that takes a value.
#[derive(Debug, Clone, Copy, PartialEq, Eq, Structural)]
pub enum SearchFlag {
    Domain,
    Tag,
    Status,
}

/// What is wrong with the arguments of a search.
#[derive(Debug, Clone, Copy, PartialEq, Eq, Structural)]
pub enum SearchError {
    /// No argument was given at all.
    NoArguments,
    /// The flag stands last, with no value behind it.
    MissingValue(SearchFlag),
}

impl SearchFlag {
    /// The flag as it is written on the command line.
    pub open spec fn name_text(self) -> Seq<char> {
        match self {
            SearchFlag::Domain => "--domain"@,
            SearchFlag::Tag => "--tag"@,
            SearchFlag::Status => "--status"@,
        }
    }

    /// The flag as it is written on the command line.
    pub fn name(&self) -> (name: &'static str)
        ensures
            name@ == self.name_text(),
    {
        match self {
            SearchFlag::Domain => "--domain",
            SearchFlag::Tag => "--tag",
            SearchFlag::Status => "--status",
        }
    }
}

impl SearchError {
    /// The sentence that reports the error.
    pub open spec fn message_text(self) -> Seq<char> {
        match self {
            SearchError::NoArguments => "Usage: legend search <query> [--domain <d>] [--tag <t>] [--status <s>]"@,
            SearchError::MissingValue(flag) => flag.name_text() + " requires a value"@,
        }
    }

    /// The sentence that reports the error.
    pub fn message(&self) -> (message: String)
        ensures
            message@ == self.message_text(),
    {
        match self {
            SearchError::NoArguments => String::from_str(
                "Usage: legend search <query> [--domain <d>] [--tag <t>] [--status <s>]",
            ),
            SearchError::MissingValue(flag) => {
                let mut message = String::from_str(flag.name());
                message.append(" requires a value");
                message
            },
        }
    }
}

/// The flag that `word` is, if it is one.
pub open spec fn flag_of(word: Seq<char>) -> Option<SearchFlag> {
    if word == "--domain"@ {
        Some(SearchFlag::Domain)
    } else if word == "--tag"@ {
        Some(SearchFlag::Tag)
    } else if word == "--status"@ {
        Some(SearchFlag::Status)
    } else {
        None
    }
}

/// `query` with `value` set for `flag`, in place of what was set before.
pub open spec fn with_filter(query: SearchQueryView, flag: SearchFlag, value: Seq<char>) -> SearchQueryView {
    match flag {
        SearchFlag::Domain => SearchQueryView { domain: Some(value), ..query },
        SearchFlag::Tag => SearchQueryView { tag: Some(value), ..query },
        SearchFlag::Status => SearchQueryView { status: Some(value), ..query },
    }
}

/// `query` with `word` added to its keyword: the keyword itself where there
/// was none, else joined to it by one space.
pub open spec fn with_word(query: SearchQueryView, word: Seq<char>) -> SearchQueryView {
    SearchQueryView {
        keyword: Some(
            match query.keyword {
                Some(keyword) => keyword + " "@ + word,
                None => word,
            },
        ),
        ..query
    }
}

/// What the arguments from `at` on make of `query`. A flag takes the word
/// behind it as its value, whatever that word is, and fails where there is
/// none; every other word joins the keyword.
pub open spec fn parsed_from(args: Seq<Seq<char>>, at: int, query: SearchQueryView) -> Result<
    SearchQueryView,
    SearchError,
>
    decreases args.len() - at,
{
    if at < 0 || at >= args.len() {
        Ok(query)
    } else {
        match flag_of(args[at]) {
            Some(flag) => if at + 1 < args.len() {
                parsed_from(args, at + 2, with_filter(query, flag, args[at + 1]))
            } else {
                Err(SearchError::MissingValue(flag))
            },
            None => parsed_from(args, at + 1, with_word(query, args[at])),
        }
    }
}

/// The query without keyword or filter, which every feature matches.
pub open spec fn empty_query() -> SearchQueryView {
    SearchQueryView { keyword: None, domain: None, tag: None, status: None }
}

/// What the arguments of a search parse to.
pub open spec fn parsed(args: Seq<Seq<char>>) -> Result<SearchQueryView, SearchError> {
    parsed_from(args, 0, empty_query())
}

/// The content of what parsing returns.
pub open spec fn parse_view(result: Result<SearchQuery, SearchError>) -> Result<
    SearchQueryView,
    SearchError,
> {
    match result {
        Ok(query) => Ok(query@),
        Err(error) => Err(error),
    }
}

/// Parses the arguments of a search into a query.
///
/// `--domain`, `--tag` and `--status` each take the next argument as their
/// value, and a later value replaces an earlier one. Every other argument
/// is a word of the keyword; the words are joined by single spaces.
pub fn parse_args(args: &[String]) -> (result: Result<SearchQuery, SearchError>)
    ensures
        parse_view(result) == parsed(texts(args@)),
{
    let flag_domain = String::from_str("--domain");
    let flag_tag = String::from_str("--tag");
    let flag_status = String::from_str("--status");
    let mut query = SearchQuery { keyword: None, domain: None, tag: None, status: None };
    let ghost words = texts(args@);
    let mut i: usize = 0;
    while i < args.len()
        invariant
            i <= args.len(),
            words == texts(args@),
            flag_domain@ == "--domain"@,
            flag_tag@ == "--tag"@,
            flag_status@ == "--status"@,
            parsed_from(words, i as int, query@) == parsed(words),
        decreases args.len() - i,
    {
        assert(words[i as int] == args@[i as int]@);
        let flag = if args[i] == flag_domain {
            Some(SearchFlag::Domain)
        } else if args[i] == flag_tag {
            Some(SearchFlag::Tag)
        } else if args[i] == flag_status {
            Some(SearchFlag::Status)
        } else {
            None
        };
        assert(flag == flag_of(words[i as int]));
        match flag {
            Some(flag) => {
                if i + 1 < args.len() {
                    assert(words[i + 1] == args@[i + 1]@);
                    let value = args[i + 1].clone();
                    match flag {
                        SearchFlag::Domain => {
                            query.domain = Some(value);
                        },
                        SearchFlag::Tag => {
                            query.tag = Some(value);
                        },
                        SearchFlag::Status => {
                            query.status = Some(value);
                        },
                    }
                    i += 2;
                } else {
                    return Err(SearchError::MissingValue(flag));
                }
            },
            None => {
                let keyword = match query.keyword.take() {
                    Some(keyword) => {
                        let mut joined = keyword;
                        joined.append(" ");
                        joined.append(args[i].as_str());
                        joined
                    },
                    None => args[i].clone(),
                };
                query.keyword = Some(keyword);
                i += 1;
            },
        }
    }
    Ok(query)
}

/// Whether two texts are the same but for case.
pub open spec fn same_ignoring_case(left: Seq<char>, right: Seq<char>) -> bool {
    lowercase_of(left) == lowercase_of(right)
}

/// Whether `text` holds the lowercase text `keyword`, case aside.
pub open spec fn holds_keyword(text: Seq<char>, keyword: Seq<char>) -> bool {
    text_contains(lowercase_of(text), keyword)
}

/// Whether one of `list` holds the lowercase text `keyword`, case aside.
pub open spec fn one_holds_keyword(list: Seq<Seq<char>>, keyword: Seq<char>) -> bool {
    exists|i: int| 0 <= i < list.len() && holds_keyword(#[trigger] list[i], keyword)
}

/// Whether the lowercase form of one of `list` is `wanted`.
pub open spec fn one_lowers_to(list: Seq<Seq<char>>, wanted: Seq<char>) -> bool {
    exists|i: int| 0 <= i < list.len() && lowercase_of(#[trigger] list[i]) == wanted
}

/// Whether `feature` holds `keyword`, case aside, in its id, name, domain,
/// description, context or one of its tags.
pub open spec fn keyword_matches(feature: FeatureView, keyword: Seq<char>) -> bool {
    let lower = lowercase_of(keyword);
    ||| holds_keyword(feature.id, lower)
    ||| holds_keyword(feature.name, lower)
    ||| holds_keyword(feature.domain, lower)
    ||| holds_keyword(feature.description, lower)
    ||| (feature.context matches Some(context) && holds_keyword(context, lower))
    ||| one_holds_keyword(feature.tags, lower)
}

/// Whether `feature` matches `query`: it holds the keyword, has the
/// domain, carries the tag and has the status, as far as each is given,
/// all case aside. A keyword may stand anywhere inside a text; domain, tag
/// and status must be the whole of it.
pub open spec fn query_matches(feature: FeatureView, query: SearchQueryView) -> bool {
    &&& (query.keyword matches Some(keyword) ==> keyword_matches(feature, keyword))
    &&& (query.domain matches Some(domain) ==> same_ignoring_case(feature.domain, domain))
    &&& (query.tag matches Some(tag) ==> one_lowers_to(feature.tags, lowercase_of(tag)))
    &&& (query.status matches Some(status) ==> same_ignoring_case(
        status_label_text(feature.status),
        status,
    ))
}

/// Whether one of `list` holds the lowercase text `keyword`, case aside.
fn any_holds_keyword(list: &Vec<String>, keyword: &str) -> (found: bool)
    ensures
        found == one_holds_keyword(texts(list@), keyword@),
{
    let mut i: usize = 0;
    while i < list.len()
        invariant
            i <= list.len(),
            forall|j: int| 0 <= j < i ==> !holds_keyword(#[trigger] texts(list@)[j], keyword@),
        decreases list.len() - i,
    {
        assert(texts(list@)[i as int] == list@[i as int]@);
        let lower = to_lowercase(list[i].as_str());
        if contains_text(lower.as_str(), keyword) {
            return true;
        }
        i += 1;
    }
    false
}

/// Whether the lowercase form of one of `list` is `wanted`.
fn any_lowers_to(list: &Vec<String>, wanted: &String) -> (found: bool)
    ensures
        found == one_lowers_to(texts(list@), wanted@),
{
    let mut i: usize = 0;
    while i < list.len()
        invariant
            i <= list.len(),
            forall|j: int| 0 <= j < i ==> lowercase_of(#[trigger] texts(list@)[j]) != wanted@,
        decreases list.len() - i,
    {
        assert(texts(list@)[i as int] == list@[i as int]@);
        let lower = to_lowercase(list[i].as_str());
        if lower == *wanted {
            return true;
        }
        i += 1;
    }
    false
}

/// Whether `text` holds the lowercase text `keyword`, case aside.
fn text_holds_keyword(text: &str, keyword: &str) -> (found: bool)
    ensures
        found == holds_keyword(text@, keyword@),
{
    let lower = to_lowercase(text);
    contains_text(lower.as_str(), keyword)
}

/// Whether `feature` matches `query`. Every part of the query that is
/// given must be met; case never matters.
pub fn matches_query(feature: &Feature, query: &SearchQuery) -> (matches: bool)
    ensures
        matches == query_matches(feature@, query@),
{
    match &query.keyword {
        Some(keyword) => {
            let lower = to_lowercase(keyword.as_str());
            let in_context = match &feature.context {
                Some(context) => text_holds_keyword(context.as_str(), lower.as_str()),
                None => false,
            };
            let found = text_holds_keyword(feature.id.as_str(), lower.as_str())
                || text_holds_keyword(feature.name.as_str(), lower.as_str())
                || text_holds_keyword(feature.domain.as_str(), lower.as_str())
                || text_holds_keyword(feature.description.as_str(), lower.as_str()) || in_context
                || any_holds_keyword(&feature.tags, lower.as_str());
            if !found {
                return false;
            }
        },
        None => {},
    }
    match &query.domain {
        Some(domain) => {
            if to_lowercase(feature.domain.as_str()) != to_lowercase(domain.as_str()) {
                return false;
            }
        },
        None => {},
    }
    match &query.tag {
        Some(tag) => {
            let lower = to_lowercase(tag.as_str());
            if !any_lowers_to(&feature.tags, &lower) {
                return false;
            }
        },
        None => {},
    }
    match &query.status {
        Some(status) => {
            if to_lowercase(status_label(feature.status)) != to_lowercase(status.as_str()) {
                return false;
            }
        },
        None => {},
    }
    true
}

/// The features among `features` that match `query`, in their order.
pub open spec fn matching(features: Seq<FeatureView>, query: SearchQueryView) -> Seq<FeatureView> {
    features.filter(|f: FeatureView| query_matches(f, query))
}

/// The content of a list of borrowed features, in order.
pub open spec fn borrowed_views(list: Seq<&Feature>) -> Seq<FeatureView> {
    list.map_values(|f: &Feature| f@)
}

/// The features of `features` that match `query`, in their order.
pub fn find_matches<'a>(features: &'a Vec<Feature>, query: &SearchQuery) -> (found: Vec<&'a Feature>)
    ensures
        borrowed_views(found@) == matching(feature_views(features@), query@),
{
    let ghost all = feature_views(features@);
    let mut found: Vec<&'a Feature> = Vec::new();
    let mut i: usize = 0;
    proof {
        assert(all.take(0) =~= Seq::empty());
        reveal(Seq::filter);
        assert(borrowed_views(found@) =~= matching(all.take(0), query@));
    }
    while i < features.len()
        invariant
            i <= features.len(),
            all == feature_views(features@),
            borrowed_views(found@) == matching(all.take(i as int), query@),
        decreases features.len() - i,
    {
        proof {
            let done = all.take(i as int);
            assert(all.take(i + 1) =~= done.push(all[i as int]));
            done.lemma_filter_push(all[i as int], |f: FeatureView| query_matches(f, query@));
        }
        let ghost held = found@;
        if matches_query(&features[i], query) {
            found.push(&features[i]);
            assert(borrowed_views(found@) =~= borrowed_views(held).push(all[i as int]));
        }
        i += 1;
    }
    proof {
        assert(all.take(features.len() as int) =~= all);
    }
    found
}

/// What the arguments of the search command come to: an error where there
/// is none at all, else what they parse to.
pub open spec fn search_arguments(args: Seq<Seq<char>>) -> Result<SearchQueryView, SearchError> {
    if args.len() == 0 {
        Err(SearchError::NoArguments)
    } else {
        parsed(args)
    }
}

/// Reads the arguments of the search command: at least one is wanted, and
/// they are parsed as [`parse_args`] does.
pub fn parse_search(args: &[String]) -> (result: Result<SearchQuery, SearchError>)
    ensures
        parse_view(result) == search_arguments(texts(args@)),
{
    if args.len() == 0 {
        return Err(SearchError::NoArguments);
    }
    parse_args(args)
}

} // verus!
