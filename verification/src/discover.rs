use crate::rank::{lemma_ranking_is_ranked, positions, rank, ranking};
use crate::text::{
    contains_text, decimal, decimal_text, joined, lowercase_of, same_text, text_contains,
    to_lowercase, to_uppercase, uppercase_of,
};
use vstd::prelude::*;
use vstd::string::{StrSliceExecFns, StringExecFns};

verus! {

/// The domain that a lowercase directory name suggests: the first of
/// security, api, storage, ui and testing one of whose keywords the name
/// holds, else the name itself.
pub open spec fn domain_for(name: Seq<char>) -> Seq<char> {
    if text_contains(name, "auth"@) || text_contains(name, "login"@) || text_contains(
        name,
        "session"@,
    ) {
        "security"@
    } else if text_contains(name, "api"@) || text_contains(name, "routes"@) || text_contains(
        name,
        "endpoints"@,
    ) {
        "api"@
    } else if text_contains(name, "db"@) || text_contains(name, "storage"@) || text_contains(
        name,
        "models"@,
    ) || text_contains(name, "schema"@) {
        "storage"@
    } else if text_contains(name, "ui"@) || text_contains(name, "components"@) || text_contains(
        name,
        "views"@,
    ) || text_contains(name, "pages"@) {
        "ui"@
    } else if text_contains(name, "test"@) || text_contains(name, "spec"@) {
        "testing"@
    } else {
        name
    }
}

/// Infers a domain from a directory name by the keywords it holds, case
/// aside; a name that holds none is its own domain, in lowercase.
pub fn infer_domain(dir_name: &str) -> (domain: String)
    ensures
        domain@ == domain_for(lowercase_of(dir_name@)),
{
    let name = to_lowercase(dir_name);
    let text = name.as_str();
    if contains_text(text, "auth") || contains_text(text, "login") || contains_text(text, "session") {
        String::from_str("security")
    } else if contains_text(text, "api") || contains_text(text, "routes") || contains_text(
        text,
        "endpoints",
    ) {
        String::from_str("api")
    } else if contains_text(text, "db") || contains_text(text, "storage") || contains_text(
        text,
        "models",
    ) || contains_text(text, "schema") {
        String::from_str("storage")
    } else if contains_text(text, "ui") || contains_text(text, "components") || contains_text(
        text,
        "views",
    ) || contains_text(text, "pages") {
        String::from_str("ui")
    } else if contains_text(text, "test") || contains_text(text, "spec") {
        String::from_str("testing")
    } else {
        name
    }
}

/// Whether `c` parts the words of a name: an underscore or a hyphen.
pub open spec fn is_separator(c: char) -> bool {
    c == '_' || c == '-'
}

/// Whether `text` holds a word: a character that is no separator.
pub open spec fn has_word(text: Seq<char>) -> bool {
    exists|i: int| 0 <= i < text.len() && !is_separator(#[trigger] text[i])
}

/// The title form of a name. The runs of characters between separators
/// are its words; empty runs are none. Each word has its first character
/// put in upper case and the rest left as it is, and the words are joined
/// by single spaces.
pub open spec fn title_cased(text: Seq<char>) -> Seq<char>
    decreases text.len(),
{
    if text.len() == 0 {
        Seq::empty()
    } else {
        let front = text.drop_last();
        let c = text.last();
        if is_separator(c) {
            title_cased(front)
        } else if front.len() > 0 && !is_separator(front.last()) {
            title_cased(front).push(c)
        } else if has_word(front) {
            title_cased(front) + " "@ + uppercase_of(seq![c])
        } else {
            uppercase_of(seq![c])
        }
    }
}

/// Puts a name written with underscores or hyphens into title form.
pub fn title_case(s: &str) -> (title: String)
    ensures
        title@ == title_cased(s@),
{
    let count = s.unicode_len();
    let mut title = String::new();
    let mut in_word = false;
    let mut any_word = false;
    let mut i: usize = 0;
    proof {
        assert(s@.take(0) =~= Seq::empty());
    }
    while i < count
        invariant
            i <= count,
            count == s@.len(),
            title@ == title_cased(s@.take(i as int)),
            in_word == (i > 0 && !is_separator(s@[i - 1])),
            any_word == has_word(s@.take(i as int)),
            !any_word ==> title@ =~= Seq::empty(),
        decreases count - i,
    {
        let c = s.get_char(i);
        let piece = s.substring_char(i, i + 1);
        let ghost so_far = title@;
        proof {
            let front = s@.take(i as int);
            let now = s@.take(i + 1);
            assert(now.drop_last() =~= front);
            assert(now.last() == c);
            assert(piece@ =~= seq![c]);
            if i > 0 {
                assert(front.last() == s@[i - 1]);
            }
            if has_word(front) {
                let w = choose|w: int| 0 <= w < front.len() && !is_separator(#[trigger] front[w]);
                assert(now[w] == front[w]);
            }
            if has_word(now) && is_separator(c) {
                let w = choose|w: int| 0 <= w < now.len() && !is_separator(#[trigger] now[w]);
                assert(front[w] == now[w]);
            }
            if !is_separator(c) {
                assert(!is_separator(now[i as int]));
            }
        }
        if c == '_' || c == '-' {
            in_word = false;
        } else {
            if in_word {
                title.append(piece);
            } else {
                if any_word {
                    title.append(" ");
                }
                let capital = to_uppercase(piece);
                title.append(capital.as_str());
            }
            in_word = true;
            any_word = true;
        }
        proof {
            assert(so_far + seq![c] =~= so_far.push(c));
            assert(Seq::<char>::empty() + uppercase_of(seq![c]) =~= uppercase_of(seq![c]));
        }
        i += 1;
    }
    proof {
        assert(s@.take(count as int) =~= s@);
    }
    title
}

/// Whether a directory of this name is passed over when a project tree is
/// walked: the directories of version control, of this tool, of editors
/// and of build output.
pub open spec fn is_skipped(name: Seq<char>) -> bool {
    ||| name == ".git"@
    ||| name == ".legend"@
    ||| name == "target"@
    ||| name == "node_modules"@
    ||| name == ".vscode"@
    ||| name == ".idea"@
    ||| name == "build"@
    ||| name == "bin"@
}

/// Whether a name is hidden: whether it starts with a dot.
pub open spec fn is_hidden(name: Seq<char>) -> bool {
    name.len() > 0 && name[0] == '.'
}

/// The place of a source root in the order in which the roots are gone
/// through: `src`, `lib`, `app`, `pkg`. A directory of another name is no
/// source root.
pub open spec fn source_root_place(name: Seq<char>) -> Option<int> {
    if name == "src"@ {
        Some(0)
    } else if name == "lib"@ {
        Some(1)
    } else if name == "app"@ {
        Some(2)
    } else if name == "pkg"@ {
        Some(3)
    } else {
        None
    }
}

/// Whether a directory below the root of this name is a source root, in
/// whose subdirectories features are looked for.
pub open spec fn is_source_root(name: Seq<char>) -> bool {
    source_root_place(name) is Some
}

/// Whether the walk of a project tree passes over a directory of this
/// name.
pub fn skips_dir(name: &str) -> (skipped: bool)
    ensures
        skipped == is_skipped(name@),
{
    same_text(name, ".git") || same_text(name, ".legend") || same_text(name, "target") || same_text(
        name,
        "node_modules",
    ) || same_text(name, ".vscode") || same_text(name, ".idea") || same_text(name, "build")
        || same_text(name, "bin")
}

/// Whether a name starts with a dot.
pub fn hidden_name(name: &str) -> (hidden: bool)
    ensures
        hidden == is_hidden(name@),
{
    name.unicode_len() > 0 && name.get_char(0) == '.'
}

/// Whether a directory at the top of a project is listed in the report:
/// neither hidden nor passed over.
pub fn lists_dir(name: &str) -> (listed: bool)
    ensures
        listed == (!is_hidden(name@) && !is_skipped(name@)),
{
    !hidden_name(name) && !skips_dir(name)
}

/// The place of a top directory among the source roots, in the order in
/// which they are gone through, if it is one.
pub fn source_root_rank(name: &str) -> (rank: Option<usize>)
    ensures
        match rank {
            Some(place) => source_root_place(name@) == Some(place as int),
            None => source_root_place(name@) is None,
        },
{
    if same_text(name, "src") {
        Some(0)
    } else if same_text(name, "lib") {
        Some(1)
    } else if same_text(name, "app") {
        Some(2)
    } else if same_text(name, "pkg") {
        Some(3)
    } else {
        None
    }
}

/// Whether features are looked for below a top directory of this name.
pub fn source_root(name: &str) -> (root: bool)
    ensures
        root == is_source_root(name@),
{
    source_root_rank(name).is_some()
}

/// A feature suggested by a directory of a project.
#[derive(Debug, Clone, PartialEq, Eq)]
pub struct SuggestedFeature {
    pub suggested_id: String,
    pub suggested_name: String,
    pub suggested_domain: String,
    pub files: Vec<String>,
}

/// The mathematical content of a [`SuggestedFeature`].
pub struct SuggestedFeatureView {
    pub suggested_id: Seq<char>,
    pub suggested_name: Seq<char>,
    pub suggested_domain: Seq<char>,
    pub files: Seq<Seq<char>>,
}

impl View for SuggestedFeature {
    type V = SuggestedFeatureView;

    open spec fn view(&self) -> SuggestedFeatureView {
        SuggestedFeatureView {
            suggested_id: self.suggested_id@,
            suggested_name: self.suggested_name@,
            suggested_domain: self.suggested_domain@,
            files: crate::types::texts(self.files@),
        }
    }
}

/// What a directory below a source root suggests: nothing where it is
/// hidden or holds fewer than two files; else a feature with the
/// directory's name as id, its title form as name, the domain inferred from
/// it, and the files.
pub open spec fn suggestion(dir_name: Seq<char>, files: Seq<Seq<char>>) -> Option<SuggestedFeatureView> {
    if is_hidden(dir_name) || files.len() < 2 {
        None
    } else {
        Some(
            SuggestedFeatureView {
                suggested_id: dir_name,
                suggested_name: title_cased(dir_name),
                suggested_domain: domain_for(lowercase_of(dir_name)),
                files,
            },
        )
    }
}

/// Suggests a feature for a directory below a source root and the files
/// found under it, if the directory is worth one.
pub fn suggest_feature(dir_name: &str, files: Vec<String>) -> (suggested: Option<SuggestedFeature>)
    ensures
        match suggested {
            Some(feature) => suggestion(dir_name@, crate::types::texts(files@)) == Some(feature@),
            None => suggestion(dir_name@, crate::types::texts(files@)) is None,
        },
{
    if hidden_name(dir_name) || files.len() < 2 {
        return None;
    }
    Some(
        SuggestedFeature {
            suggested_id: dir_name.to_owned(),
            suggested_name: title_case(dir_name),
            suggested_domain: infer_domain(dir_name),
            files,
        },
    )
}

/// How many languages a summary names at most.
pub const SUMMARY_LENGTH: usize = 5;

/// The contents of a list of extensions with their file counts, in order.
pub open spec fn language_views(list: Seq<(String, usize)>) -> Seq<(Seq<char>, usize)> {
    list.map_values(|entry: (String, usize)| (entry.0@, entry.1))
}

/// The file counts of a list of extensions, in order.
pub open spec fn counts_of(languages: Seq<(Seq<char>, usize)>) -> Seq<u64> {
    languages.map_values(|entry: (Seq<char>, usize)| entry.1 as u64)
}

/// One extension as the summary writes it: the extension, and in
/// brackets the number of its files.
pub open spec fn language_text(entry: (Seq<char>, usize)) -> Seq<char> {
    entry.0 + " ("@ + decimal_text(entry.1 as nat) + ")"@
}

/// How many languages the summary of `languages` names.
pub open spec fn summary_length(languages: Seq<(Seq<char>, usize)>) -> nat {
    if languages.len() < SUMMARY_LENGTH {
        languages.len()
    } else {
        SUMMARY_LENGTH as nat
    }
}

/// The summary of the languages found: the five extensions with the most
/// files, from the most down, those of equal count in the order given,
/// joined by commas; or a note that there are none.
pub open spec fn language_summary(languages: Seq<(Seq<char>, usize)>) -> Seq<char> {
    if languages.len() == 0 {
        "none detected"@
    } else {
        joined(
            ranking(counts_of(languages), summary_length(languages)).map_values(
                |at: int| language_text(languages[at]),
            ),
            ", "@,
        )
    }
}

/// Writes the summary of the languages found, from the extensions and
/// their file counts in the order in which they were collected.
pub fn format_language_summary(languages: &Vec<(String, usize)>) -> (summary: String)
    ensures
        summary@ == language_summary(language_views(languages@)),
{
    if languages.len() == 0 {
        return String::from_str("none detected");
    }
    let ghost all = language_views(languages@);
    let mut counts: Vec<u64> = Vec::new();
    let mut i: usize = 0;
    while i < languages.len()
        invariant
            i <= languages.len(),
            all == language_views(languages@),
            counts@ =~= counts_of(all).take(i as int),
        decreases languages.len() - i,
    {
        counts.push(languages[i].1 as u64);
        i += 1;
    }
    proof {
        assert(counts_of(all).take(languages@.len() as int) =~= counts_of(all));
        lemma_ranking_is_ranked(counts_of(all), summary_length(all));
    }
    let order = rank(&counts, SUMMARY_LENGTH);
    let ghost ranked = ranking(counts_of(all), summary_length(all));
    let ghost texts = ranked.map_values(|at: int| language_text(all[at]));
    let mut summary = String::new();
    let mut k: usize = 0;
    proof {
        assert(texts.take(0) =~= Seq::empty());
    }
    while k < order.len()
        invariant
            k <= order@.len(),
            all == language_views(languages@),
            positions(order@) == ranked,
            texts == ranked.map_values(|at: int| language_text(all[at])),
            forall|j: int| 0 <= j < ranked.len() ==> 0 <= #[trigger] ranked[j] < languages@.len(),
            summary@ == joined(texts.take(k as int), ", "@),
        decreases order@.len() - k,
    {
        let at = order[k];
        proof {
            assert(positions(order@)[k as int] == at as int);
            assert(ranked[k as int] == at);
            let done = texts.take(k as int);
            let more = texts.take(k + 1);
            assert(more.drop_last() =~= done);
            assert(more.last() == language_text(all[at as int]));
            assert(all[at as int] == (languages@[at as int].0@, languages@[at as int].1));
        }
        let ghost before = summary@;
        if k > 0 {
            summary.append(", ");
        }
        let ghost started = summary@;
        summary.append(languages[at].0.as_str());
        summary.append(" (");
        summary.append(decimal(languages[at].1).as_str());
        summary.append(")");
        proof {
            let entry = all[at as int];
            assert(summary@ =~= started + language_text(entry));
            if k == 0 {
                assert(before =~= Seq::empty());
                assert(summary@ =~= language_text(entry));
            } else {
                assert(summary@ =~= before + ", "@ + language_text(entry));
            }
        }
        k += 1;
    }
    proof {
        assert(texts.take(order@.len() as int) =~= texts);
    }
    summary
}

} // verus!
