//! Repositories: what the sections other than `options` resolve to, with the
//! mirror lists that they include.
//!
//! Reading files is the caller's part. It hands over what came of reading
//! each mirror list, and every list that was not handed over counts as one
//! that could not be opened.

use crate::error::{ConfigError, ConfigErrorView};
use crate::model::{default_sig_level, Repository, RepositoryView, Usage};
use crate::options::text_or;
use crate::sections::{
    first_of, is_blank_or_comment, lemma_first_occurrence_wins, step, values_of, EntryView,
    Registry, Section, SectionView,
};
use crate::text::{
    chars_of, find, lemma_find, lemma_find_unique, line_ranges, split_lines, string_of, trim,
};
use crate::values::{parse_usage, usage_message, usage_of};
use vstd::prelude::*;

verus! {

/// What came of reading a mirror list.
#[derive(Debug, PartialEq, Eq)]
pub enum Loaded {
    /// The whole text of the file.
    Text(String),
    /// The file could not be opened, for the reason given.
    NotOpened(String),
    /// The file was opened and could not be read to its end, for the reason
    /// given.
    NotRead(String),
}

/// What a `Loaded` holds.
pub enum LoadedView {
    Text(Seq<char>),
    NotOpened(Seq<char>),
    NotRead(Seq<char>),
}

impl View for Loaded {
    type V = LoadedView;

    open spec fn view(&self) -> LoadedView {
        match self {
            Loaded::Text(t) => LoadedView::Text(t@),
            Loaded::NotOpened(r) => LoadedView::NotOpened(r@),
            Loaded::NotRead(r) => LoadedView::NotRead(r@),
        }
    }
}

/// A mirror list: its path as a section names it, and what came of reading
/// it.
#[derive(Debug, PartialEq, Eq)]
pub struct MirrorList {
    pub path: String,
    pub loaded: Loaded,
}

/// What a `MirrorList` holds.
pub struct MirrorListView {
    pub path: Seq<char>,
    pub loaded: LoadedView,
}

impl View for MirrorList {
    type V = MirrorListView;

    open spec fn view(&self) -> MirrorListView {
        MirrorListView { path: self.path@, loaded: self.loaded@ }
    }
}

/// What a list of mirror lists holds.
pub open spec fn lists_view(lists: Seq<MirrorList>) -> Seq<MirrorListView> {
    lists.map_values(|l: MirrorList| l@)
}

/// The reason given for a mirror list that was not handed over.
pub open spec fn not_loaded() -> Seq<char> {
    "the file was not loaded"@
}

/// The lines that count among `lines`, trimmed: all but the blank ones and
/// the comments.
pub open spec fn kept_lines(lines: Seq<Seq<char>>) -> Seq<Seq<char>>
    decreases lines.len(),
{
    if lines.len() == 0 {
        Seq::empty()
    } else if is_blank_or_comment(trim(lines.last())) {
        kept_lines(lines.drop_last())
    } else {
        kept_lines(lines.drop_last()).push(trim(lines.last()))
    }
}

/// The servers that the text of a mirror list names, one for each line that
/// counts.
pub open spec fn mirrors_of(text: Seq<char>) -> Seq<Seq<char>> {
    kept_lines(split_lines(text))
}

/// What came of reading the mirror list at `path`: that of the first list
/// with this path.
pub open spec fn lookup(lists: Seq<MirrorListView>, path: Seq<char>) -> Option<LoadedView> {
    let at = find(lists.map_values(|l: MirrorListView| l.path), path);
    if at < lists.len() {
        Some(lists[at].loaded)
    } else {
        None
    }
}

/// The servers of the mirror list at `path`, or the error that it stands for.
pub open spec fn included(lists: Seq<MirrorListView>, path: Seq<char>) -> Result<
    Seq<Seq<char>>,
    ConfigErrorView,
> {
    match lookup(lists, path) {
        Some(LoadedView::Text(t)) => Ok(mirrors_of(t)),
        Some(LoadedView::NotOpened(reason)) => Err(
            ConfigErrorView::IncludeNotFound { path, reason },
        ),
        Some(LoadedView::NotRead(reason)) => Err(ConfigErrorView::Io { path, reason }),
        None => Err(ConfigErrorView::IncludeNotFound { path, reason: not_loaded() }),
    }
}

/// The servers of the mirror lists at `paths`, list after list, or the error
/// of the first list that gives none.
pub open spec fn included_all(lists: Seq<MirrorListView>, paths: Seq<Seq<char>>) -> Result<
    Seq<Seq<char>>,
    ConfigErrorView,
>
    decreases paths.len(),
{
    if paths.len() == 0 {
        Ok(Seq::empty())
    } else {
        match included_all(lists, paths.drop_last()) {
            Err(e) => Err(e),
            Ok(servers) => match included(lists, paths.last()) {
                Err(e) => Err(e),
                Ok(more) => Ok(servers + more),
            },
        }
    }
}

/// The usage of a section: what the first text of `Usage` spells, and
/// `Sync` where the key is not given.
pub open spec fn usage_or_sync(e: Seq<EntryView>) -> Usage {
    match first_of(e, "Usage"@) {
        Some(v) => match usage_of(v) {
            Some(u) => u,
            None => Usage::Sync,
        },
        None => Usage::Sync,
    }
}

/// The error of `Usage`, where its text spells none.
pub open spec fn usage_fault(e: Seq<EntryView>) -> Option<ConfigErrorView> {
    match first_of(e, "Usage"@) {
        Some(v) => if usage_of(v) is None {
            Some(
                ConfigErrorView::InvalidValue { field: "Usage"@, value: v, reason: usage_message(v) },
            )
        } else {
            None
        },
        None => None,
    }
}

/// The repository that a section resolves to. Its servers are those of its
/// mirror lists, in the order of the `Include` lines, and behind them those
/// of its `Server` lines. A mirror list that gives no servers is the error;
/// where all do, a `Usage` that spells none is.
pub open spec fn repository_of(s: SectionView, lists: Seq<MirrorListView>) -> Result<
    RepositoryView,
    ConfigErrorView,
> {
    match included_all(lists, values_of(s.entries, "Include"@)) {
        Err(e) => Err(e),
        Ok(servers) => match usage_fault(s.entries) {
            Some(e) => Err(e),
            None => Ok(
                RepositoryView {
                    name: s.name,
                    servers: servers + values_of(s.entries, "Server"@),
                    sig_level: text_or(s.entries, "SigLevel"@, default_sig_level()),
                    usage: usage_or_sync(s.entries),
                    cache_server: first_of(s.entries, "CacheServer"@),
                },
            ),
        },
    }
}

/// Puts the texts of `more` behind those of `list`.
pub fn extend_texts(list: &mut Vec<String>, more: Vec<String>)
    ensures
        final(list).deep_view() == old(list).deep_view() + more.deep_view(),
{
    let ghost before = list@;
    let ghost added = more@;
    let mut more = more;
    list.append(&mut more);
    proof {
        assert(list@ == before + added);
        assert(list.deep_view() =~= old(list).deep_view() + added.map_values(|s: String| s@));
    }
}

/// The servers that the text of a mirror list names: its trimmed lines,
/// without the blank ones and the comments.
pub fn mirrors(text: &str) -> (r: Vec<String>)
    ensures
        r.deep_view() == mirrors_of(text@),
{
    let chars = chars_of(text);
    let ranges = line_ranges(&chars);
    let ghost lines = split_lines(text@);
    let mut r: Vec<String> = Vec::new();
    let mut i: usize = 0;
    proof {
        assert(lines.take(0) == Seq::<Seq<char>>::empty());
        assert(r.deep_view() == Seq::<Seq<char>>::empty());
    }
    while i < ranges.len()
        invariant
            i <= ranges.len(),
            chars@ == text@,
            lines == split_lines(text@),
            ranges.len() == lines.len(),
            forall|k: int|
                0 <= k < ranges.len() ==> {
                    &&& (#[trigger] ranges[k]).0 <= ranges[k].1 <= chars.len()
                    &&& chars@.subrange(ranges[k].0 as int, ranges[k].1 as int) == trim(lines[k])
                },
            r.deep_view() == kept_lines(lines.take(i as int)),
        decreases ranges.len() - i,
    {
        let range = ranges[i];
        proof {
            assert(lines.take(i + 1).drop_last() == lines.take(i as int));
            assert(lines.take(i + 1).last() == lines[i as int]);
        }
        if range.0 < range.1 && chars[range.0] != '#' {
            let ghost before = r.deep_view();
            let server = string_of(&chars, range.0, range.1);
            r.push(server);
            assert(r.deep_view() == before.push(server@));
        }
        i += 1;
    }
    proof {
        assert(lines.take(i as int) == lines);
    }
    r
}

/// What came of reading the mirror list at `path`: that of the first list
/// with this path.
pub fn find_list<'a>(lists: &'a Vec<MirrorList>, path: &String) -> (r: Option<&'a Loaded>)
    ensures
        match lookup(lists_view(lists@), path@) {
            Some(l) => r is Some && r->Some_0@ == l,
            None => r is None,
        },
{
    let mut i: usize = 0;
    while i < lists.len() && lists[i].path != *path
        invariant
            i <= lists.len(),
            forall|j: int| 0 <= j < i ==> lists@[j].path@ != path@,
        decreases lists.len() - i,
    {
        i += 1;
    }
    proof {
        let paths = lists_view(lists@).map_values(|l: MirrorListView| l.path);
        lemma_find_unique(paths, path@, i as int);
    }
    if i < lists.len() {
        Some(&lists[i].loaded)
    } else {
        None
    }
}

/// The servers of the mirror list at `path`, or the error that it stands for.
pub fn include_list(lists: &Vec<MirrorList>, path: &String) -> (r: Result<Vec<String>, ConfigError>)
    ensures
        match included(lists_view(lists@), path@) {
            Ok(servers) => r is Ok && r->Ok_0.deep_view() == servers,
            Err(e) => r is Err && r->Err_0@ == e,
        },
{
    match find_list(lists, path) {
        Some(Loaded::Text(t)) => Ok(mirrors(t.as_str())),
        Some(Loaded::NotOpened(reason)) => Err(
            ConfigError::IncludeNotFound { path: path.clone(), reason: reason.clone() },
        ),
        Some(Loaded::NotRead(reason)) => Err(
            ConfigError::Io { path: path.clone(), reason: reason.clone() },
        ),
        None => Err(
            ConfigError::IncludeNotFound {
                path: path.clone(),
                reason: "the file was not loaded".to_owned(),
            },
        ),
    }
}

/// Resolves one section to a repository.
pub fn resolve_repository(section: &Section, lists: &Vec<MirrorList>) -> (r: Result<
    Repository,
    ConfigError,
>)
    ensures
        match repository_of(section@, lists_view(lists@)) {
            Ok(repo) => r is Ok && r->Ok_0@ == repo,
            Err(e) => r is Err && r->Err_0@ == e,
        },
{
    let paths = section.values("Include");
    let ghost all = paths.deep_view();
    let mut servers: Vec<String> = Vec::new();
    let mut i: usize = 0;
    proof {
        assert(all.take(0) == Seq::<Seq<char>>::empty());
        assert(servers.deep_view() == Seq::<Seq<char>>::empty());
    }
    while i < paths.len()
        invariant
            i <= paths.len(),
            all == paths.deep_view(),
            all == values_of(section@.entries, "Include"@),
            included_all(lists_view(lists@), all.take(i as int)) == Ok::<
                Seq<Seq<char>>,
                ConfigErrorView,
            >(servers.deep_view()),
        decreases paths.len() - i,
    {
        proof {
            assert(all.take(i + 1).drop_last() == all.take(i as int));
            assert(all.take(i + 1).last() == paths[i as int]@);
            lemma_include_error_stays(lists_view(lists@), all, i + 1);
        }
        match include_list(lists, &paths[i]) {
            Ok(more) => {
                extend_texts(&mut servers, more);
            },
            Err(e) => {
                return Err(e);
            },
        }
        i += 1;
    }
    proof {
        assert(all.take(i as int) == all);
    }
    extend_texts(&mut servers, section.values("Server"));
    let sig_level = match section.first("SigLevel") {
        Some(v) => v.clone(),
        None => "Required DatabaseOptional".to_owned(),
    };
    let usage = match section.first("Usage") {
        Some(v) => match parse_usage(v.as_str()) {
            Ok(u) => u,
            Err(reason) => {
                return Err(
                    ConfigError::InvalidValue {
                        field: "Usage".to_owned(),
                        value: v.clone(),
                        reason,
                    },
                );
            },
        },
        None => Usage::Sync,
    };
    let cache_server = match section.first("CacheServer") {
        Some(v) => Some(v.clone()),
        None => None,
    };
    Ok(Repository { name: section.name.clone(), servers, sig_level, usage, cache_server })
}

/// An error among the first `k` mirror lists is the error of them all.
pub proof fn lemma_include_error_stays(lists: Seq<MirrorListView>, paths: Seq<Seq<char>>, k: int)
    requires
        0 <= k <= paths.len(),
    ensures
        included_all(lists, paths.take(k)) is Err ==> included_all(lists, paths) == included_all(
            lists,
            paths.take(k),
        ),
    decreases paths.len() - k,
{
    if k == paths.len() {
        assert(paths.take(k) == paths);
    } else {
        assert(paths.take(k + 1).drop_last() == paths.take(k));
        lemma_include_error_stays(lists, paths, k + 1);
    }
}

/// The servers of a repository are those of its mirror lists, in the order
/// of its `Include` lines, and behind them those of its `Server` lines, in
/// the order of these lines, however the two kinds of lines are mixed.
pub proof fn lemma_servers_in_order(s: SectionView, lists: Seq<MirrorListView>)
    requires
        repository_of(s, lists) is Ok,
    ensures
        included_all(lists, values_of(s.entries, "Include"@)) is Ok,
        repository_of(s, lists)->Ok_0.servers == included_all(
            lists,
            values_of(s.entries, "Include"@),
        )->Ok_0 + values_of(s.entries, "Server"@),
{
}

/// The first occurrence wins: a repository has the signature level of the
/// earliest `SigLevel` line of its section.
pub proof fn lemma_sig_level_first_wins(s: SectionView, lists: Seq<MirrorListView>, i: int)
    requires
        0 <= i < s.entries.len(),
        s.entries[i].key == "SigLevel"@,
        forall|j: int| 0 <= j < i ==> s.entries[j].key != "SigLevel"@,
        repository_of(s, lists) is Ok,
    ensures
        repository_of(s, lists)->Ok_0.sig_level == s.entries[i].value,
{
    lemma_first_occurrence_wins(s.entries, "SigLevel"@, i);
}

/// The error of the first mirror list that gives no servers is the error of
/// all of `paths`.
pub proof fn lemma_first_failing_list(lists: Seq<MirrorListView>, paths: Seq<Seq<char>>, i: int)
    requires
        0 <= i < paths.len(),
        forall|j: int| 0 <= j < i ==> included(lists, paths[j]) is Ok,
        included(lists, paths[i]) is Err,
    ensures
        included_all(lists, paths) == Err::<Seq<Seq<char>>, ConfigErrorView>(
            included(lists, paths[i])->Err_0,
        ),
    decreases paths.len(),
{
    let front = paths.drop_last();
    if i == paths.len() - 1 {
        lemma_lists_that_load(lists, front);
    } else {
        lemma_first_failing_list(lists, front, i);
    }
}

/// Mirror lists that all give servers give servers together.
pub proof fn lemma_lists_that_load(lists: Seq<MirrorListView>, paths: Seq<Seq<char>>)
    requires
        forall|j: int| 0 <= j < paths.len() ==> included(lists, paths[j]) is Ok,
    ensures
        included_all(lists, paths) is Ok,
    decreases paths.len(),
{
    if paths.len() > 0 {
        lemma_lists_that_load(lists, paths.drop_last());
    }
}

/// A mirror list that cannot be had is fatal: a section that includes one
/// resolves to no repository, whatever `Server` lines it has besides. The
/// error is that of the first such list; it is `IncludeNotFound` where that
/// list could not be opened.
pub proof fn lemma_missing_list_is_fatal(s: SectionView, lists: Seq<MirrorListView>, i: int)
    requires
        0 <= i < values_of(s.entries, "Include"@).len(),
        included(lists, values_of(s.entries, "Include"@)[i]) is Err,
    ensures
        repository_of(s, lists) is Err,
        (forall|j: int| 0 <= j < i ==> included(lists, values_of(s.entries, "Include"@)[j]) is Ok)
            ==> repository_of(s, lists) == Err::<RepositoryView, ConfigErrorView>(
            included(lists, values_of(s.entries, "Include"@)[i])->Err_0,
        ),
        lookup(lists, values_of(s.entries, "Include"@)[i]) is None || lookup(
            lists,
            values_of(s.entries, "Include"@)[i],
        )->Some_0 is NotOpened ==> included(
            lists,
            values_of(s.entries, "Include"@)[i],
        )->Err_0 is IncludeNotFound,
{
    let paths = values_of(s.entries, "Include"@);
    let fails = paths.map_values(|p: Seq<char>| included(lists, p) is Err);
    let first = find(fails, true);
    lemma_find(fails, true);
    assert(fails[i]);
    assert(first <= i);
    assert forall|j: int| 0 <= j < first implies included(lists, paths[j]) is Ok by {
        assert(!fails[j]);
    }
    assert(fails[first]);
    lemma_first_failing_list(lists, paths, first);
    if forall|j: int| 0 <= j < i ==> included(lists, paths[j]) is Ok {
        lemma_first_failing_list(lists, paths, i);
    }
}

/// Blank lines and comments count for nothing, in a mirror list as in a
/// configuration file: such a line adds no server to the one and changes no
/// section of the other.
pub proof fn lemma_blank_lines_and_comments_count_nowhere(
    r: Registry,
    lines: Seq<Seq<char>>,
    line: Seq<char>,
)
    requires
        is_blank_or_comment(trim(line)),
    ensures
        kept_lines(lines.push(line)) == kept_lines(lines),
        step(r, line) == r,
{
    assert(lines.push(line).drop_last() == lines);
}

/// Every other line of a mirror list names one server: the line without the
/// whitespace around it.
pub proof fn lemma_line_names_server(lines: Seq<Seq<char>>, line: Seq<char>)
    requires
        !is_blank_or_comment(trim(line)),
    ensures
        kept_lines(lines.push(line)) == kept_lines(lines).push(trim(line)),
{
    assert(lines.push(line).drop_last() == lines);
}

} // verus!
