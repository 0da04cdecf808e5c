//! The whole configuration: the global options and the repositories of a
//! configuration text.

use crate::error::{ConfigError, ConfigErrorView};
use crate::model::{default_options_view, Config, ConfigView, Repository, RepositoryView};
use crate::options::{
    lemma_defaults, lemma_fault_names_setting, options_fault, options_of, resolve_options,
};
use crate::repository::{
    extend_texts, included, lemma_lists_that_load, lemma_missing_list_is_fatal, lists_view,
    repository_of, resolve_repository, MirrorList, MirrorListView,
};
use crate::sections::{
    parse_sections, position, position_of, scan, sections_of, sections_view, values_of,
    EntryView, Section, SectionView,
};
use crate::text::{find, lemma_find, lemma_find_unique, same_text, split_lines, trim};
use vstd::prelude::*;

verus! {

/// The name of the section that holds the global options.
pub open spec fn options_name() -> Seq<char> {
    "options"@
}

/// The settings of the `options` section; none where the file has no such
/// section.
pub open spec fn options_entries(sections: Seq<SectionView>) -> Seq<EntryView> {
    let at = position(sections, options_name());
    if at < sections.len() {
        sections[at].entries
    } else {
        Seq::empty()
    }
}

/// The repositories of `sections`: one for each section other than
/// `options`, in the order of the sections, or the error of the first
/// section that resolves to none.
pub open spec fn repositories_of(sections: Seq<SectionView>, lists: Seq<MirrorListView>) -> Result<
    Seq<RepositoryView>,
    ConfigErrorView,
>
    decreases sections.len(),
{
    if sections.len() == 0 {
        Ok(Seq::empty())
    } else {
        match repositories_of(sections.drop_last(), lists) {
            Err(e) => Err(e),
            Ok(repos) => if sections.last().name == options_name() {
                Ok(repos)
            } else {
                match repository_of(sections.last(), lists) {
                    Err(e) => Err(e),
                    Ok(repo) => Ok(repos.push(repo)),
                }
            },
        }
    }
}

/// The configuration that `sections` resolve to: the error of the global
/// options where they have one, else that of the first repository that has
/// one, else the options and all the repositories.
pub open spec fn config_of(sections: Seq<SectionView>, lists: Seq<MirrorListView>) -> Result<
    ConfigView,
    ConfigErrorView,
> {
    match options_fault(options_entries(sections)) {
        Some(e) => Err(e),
        None => match repositories_of(sections, lists) {
            Err(e) => Err(e),
            Ok(repositories) => Ok(
                ConfigView { options: options_of(options_entries(sections)), repositories },
            ),
        },
    }
}

/// The paths of the mirror lists that the repositories of `sections`
/// include, in the order in which they are read.
pub open spec fn include_paths_of(sections: Seq<SectionView>) -> Seq<Seq<char>>
    decreases sections.len(),
{
    if sections.len() == 0 {
        Seq::empty()
    } else if sections.last().name == options_name() {
        include_paths_of(sections.drop_last())
    } else {
        include_paths_of(sections.drop_last()) + values_of(sections.last().entries, "Include"@)
    }
}

/// An error among the first `k` sections is the error of them all.
pub proof fn lemma_repository_error_stays(
    sections: Seq<SectionView>,
    lists: Seq<MirrorListView>,
    k: int,
)
    requires
        0 <= k <= sections.len(),
    ensures
        repositories_of(sections.take(k), lists) is Err ==> repositories_of(sections, lists)
            == repositories_of(sections.take(k), lists),
    decreases sections.len() - k,
{
    if k == sections.len() {
        assert(sections.take(k) == sections);
    } else {
        assert(sections.take(k + 1).drop_last() == sections.take(k));
        lemma_repository_error_stays(sections, lists, k + 1);
    }
}

/// Resolves the repositories of `sections`.
pub fn resolve_repositories(sections: &Vec<Section>, lists: &Vec<MirrorList>) -> (r: Result<
    Vec<Repository>,
    ConfigError,
>)
    ensures
        match repositories_of(sections_view(sections@), lists_view(lists@)) {
            Ok(repos) => r is Ok && r->Ok_0@.map_values(|x: Repository| x@) == repos,
            Err(e) => r is Err && r->Err_0@ == e,
        },
{
    let ghost all = sections_view(sections@);
    let mut repos: Vec<Repository> = Vec::new();
    let mut i: usize = 0;
    proof {
        assert(all.take(0) == Seq::<SectionView>::empty());
        assert(repos@.map_values(|x: Repository| x@) == Seq::<RepositoryView>::empty());
    }
    while i < sections.len()
        invariant
            i <= sections.len(),
            all == sections_view(sections@),
            repositories_of(all.take(i as int), lists_view(lists@)) == Ok::<
                Seq<RepositoryView>,
                ConfigErrorView,
            >(repos@.map_values(|x: Repository| x@)),
        decreases sections.len() - i,
    {
        proof {
            assert(all.take(i + 1).drop_last() == all.take(i as int));
            assert(all.take(i + 1).last() == sections[i as int]@);
            lemma_repository_error_stays(all, lists_view(lists@), i + 1);
        }
        if !same_text(sections[i].name.as_str(), "options") {
            match resolve_repository(&sections[i], lists) {
                Ok(repo) => {
                    let ghost before = repos@.map_values(|x: Repository| x@);
                    repos.push(repo);
                    assert(repos@.map_values(|x: Repository| x@) == before.push(repo@));
                },
                Err(e) => {
                    return Err(e);
                },
            }
        }
        i += 1;
    }
    proof {
        assert(all.take(i as int) == all);
    }
    Ok(repos)
}

/// Resolves sections to a configuration.
pub fn resolve_config(sections: &Vec<Section>, lists: &Vec<MirrorList>) -> (r: Result<
    Config,
    ConfigError,
>)
    ensures
        match config_of(sections_view(sections@), lists_view(lists@)) {
            Ok(c) => r is Ok && r->Ok_0@ == c,
            Err(e) => r is Err && r->Err_0@ == e,
        },
{
    let name = "options".to_owned();
    let at = position_of(sections, &name);
    let options = if at < sections.len() {
        resolve_options(&sections[at])
    } else {
        let none = Section { name, entries: Vec::new() };
        assert(none@.entries == Seq::<EntryView>::empty());
        resolve_options(&none)
    };
    match options {
        Err(e) => Err(e),
        Ok(options) => match resolve_repositories(sections, lists) {
            Err(e) => Err(e),
            Ok(repositories) => Ok(Config { options, repositories }),
        },
    }
}

/// Reads a configuration text, with the mirror lists that its repositories
/// include.
pub fn parse(text: &str, lists: &Vec<MirrorList>) -> (r: Result<Config, ConfigError>)
    ensures
        match config_of(sections_of(text@), lists_view(lists@)) {
            Ok(c) => r is Ok && r->Ok_0@ == c,
            Err(e) => r is Err && r->Err_0@ == e,
        },
{
    let sections = parse_sections(text);
    resolve_config(&sections, lists)
}

/// The paths of the mirror lists that the repositories of a configuration
/// text include, in the order in which they are read.
pub fn include_paths(text: &str) -> (r: Vec<String>)
    ensures
        r.deep_view() == include_paths_of(sections_of(text@)),
{
    let sections = parse_sections(text);
    let ghost all = sections_view(sections@);
    let mut r: Vec<String> = Vec::new();
    let mut i: usize = 0;
    proof {
        assert(all.take(0) == Seq::<SectionView>::empty());
        assert(r.deep_view() == Seq::<Seq<char>>::empty());
    }
    while i < sections.len()
        invariant
            i <= sections.len(),
            all == sections_view(sections@),
            all == sections_of(text@),
            r.deep_view() == include_paths_of(all.take(i as int)),
        decreases sections.len() - i,
    {
        proof {
            assert(all.take(i + 1).drop_last() == all.take(i as int));
            assert(all.take(i + 1).last() == sections[i as int]@);
        }
        if !same_text(sections[i].name.as_str(), "options") {
            extend_texts(&mut r, sections[i].values("Include"));
        }
        i += 1;
    }
    proof {
        assert(all.take(i as int) == all);
    }
    r
}

/// Sections that all resolve give repositories together.
pub proof fn lemma_sections_that_resolve(sections: Seq<SectionView>, lists: Seq<MirrorListView>)
    requires
        forall|j: int|
            0 <= j < sections.len() ==> sections[j].name == options_name() || repository_of(
                sections[j],
                lists,
            ) is Ok,
    ensures
        repositories_of(sections, lists) is Ok,
    decreases sections.len(),
{
    if sections.len() > 0 {
        lemma_sections_that_resolve(sections.drop_last(), lists);
    }
}

/// There is no partial success: the error of the first section that
/// resolves to no repository is the error of all the repositories, and,
/// where the global options have no error of their own, of the whole
/// configuration.
pub proof fn lemma_first_failing_section(
    sections: Seq<SectionView>,
    lists: Seq<MirrorListView>,
    k: int,
)
    requires
        0 <= k < sections.len(),
        sections[k].name != options_name(),
        repository_of(sections[k], lists) is Err,
        forall|j: int|
            0 <= j < k ==> sections[j].name == options_name() || repository_of(
                sections[j],
                lists,
            ) is Ok,
    ensures
        repositories_of(sections, lists) == Err::<Seq<RepositoryView>, ConfigErrorView>(
            repository_of(sections[k], lists)->Err_0,
        ),
        options_fault(options_entries(sections)) is None ==> config_of(sections, lists) == Err::<
            ConfigView,
            ConfigErrorView,
        >(repository_of(sections[k], lists)->Err_0),
    decreases sections.len(),
{
    let front = sections.drop_last();
    if k == sections.len() - 1 {
        lemma_sections_that_resolve(front, lists);
    } else {
        lemma_first_failing_section(front, lists, k);
    }
}

/// A section that resolves to no repository is fatal: then there is no
/// configuration, whatever the other sections hold.
pub proof fn lemma_failing_section_is_fatal(
    sections: Seq<SectionView>,
    lists: Seq<MirrorListView>,
    k: int,
)
    requires
        0 <= k < sections.len(),
        sections[k].name != options_name(),
        repository_of(sections[k], lists) is Err,
    ensures
        repositories_of(sections, lists) is Err,
        config_of(sections, lists) is Err,
{
    let fails = sections.map_values(
        |s: SectionView| s.name != options_name() && repository_of(s, lists) is Err,
    );
    let first = find(fails, true);
    lemma_find(fails, true);
    assert(fails[k]);
    assert forall|j: int| 0 <= j < first implies sections[j].name == options_name()
        || repository_of(sections[j], lists) is Ok by {
        assert(!fails[j]);
    }
    assert(fails[first]);
    lemma_first_failing_section(sections, lists, first);
}

/// The section `options` is no repository: no repository has its name, and
/// every repository has the name of a section.
pub proof fn lemma_options_is_no_repository(sections: Seq<SectionView>, lists: Seq<MirrorListView>)
    requires
        repositories_of(sections, lists) is Ok,
    ensures
        forall|i: int|
            0 <= i < repositories_of(sections, lists)->Ok_0.len() ==> {
                &&& (#[trigger] repositories_of(sections, lists)->Ok_0[i]).name != options_name()
                &&& exists|k: int|
                    0 <= k < sections.len() && sections[k].name == repositories_of(
                        sections,
                        lists,
                    )->Ok_0[i].name
            },
    decreases sections.len(),
{
    if sections.len() > 0 {
        let front = sections.drop_last();
        lemma_options_is_no_repository(front, lists);
        let repos = repositories_of(sections, lists)->Ok_0;
        let before = repositories_of(front, lists)->Ok_0;
        assert forall|i: int| 0 <= i < repos.len() implies {
            &&& (#[trigger] repos[i]).name != options_name()
            &&& exists|k: int| 0 <= k < sections.len() && sections[k].name == repos[i].name
        } by {
            if i < before.len() {
                assert(repos[i] == before[i]);
                let k = choose|k: int| 0 <= k < front.len() && front[k].name == before[i].name;
                assert(sections[k].name == repos[i].name);
            } else {
                assert(sections[sections.len() - 1].name == repos[i].name);
            }
        }
    }
}

/// A file of nothing but the header `[options]` resolves to the default
/// options and no repository.
pub proof fn lemma_bare_options_section(lists: Seq<MirrorListView>)
    ensures
        sections_of("[options]"@) == seq![
            SectionView { name: options_name(), entries: Seq::empty() },
        ],
        config_of(sections_of("[options]"@), lists) == Ok::<ConfigView, ConfigErrorView>(
            ConfigView { options: default_options_view(), repositories: Seq::empty() },
        ),
{
    reveal_strlit("[options]");
    reveal_strlit("options");
    let t = "[options]"@;
    lemma_find_unique(t, '\n', 9);
    assert(split_lines(t) == seq![t]);
    assert(trim(t) == t);
    assert(t.subrange(1, t.len() - 1) =~= options_name());
    let lines = seq![t];
    assert(lines.drop_last() == Seq::<Seq<char>>::empty());
    let start = scan(lines.drop_last());
    assert(start.sections == Seq::<SectionView>::empty());
    assert(position(start.sections, options_name()) == 0);
    let only = SectionView { name: options_name(), entries: Seq::empty() };
    let sections = seq![only];
    assert(scan(lines).sections == sections);
    lemma_find_unique(sections.map_values(|s: SectionView| s.name), options_name(), 0);
    assert(options_entries(sections) == Seq::<EntryView>::empty());
    lemma_defaults(Seq::<EntryView>::empty());
    assert(sections.drop_last() == Seq::<SectionView>::empty());
    assert(repositories_of(Seq::<SectionView>::empty(), lists) == Ok::<
        Seq<RepositoryView>,
        ConfigErrorView,
    >(Seq::empty()));
    assert(sections.last() == only);
    assert(repositories_of(sections, lists) == Ok::<Seq<RepositoryView>, ConfigErrorView>(
        Seq::empty(),
    ));
}

/// Whether `lists` holds the text of every mirror list at `paths`.
pub open spec fn all_loaded(lists: Seq<MirrorListView>, paths: Seq<Seq<char>>) -> bool {
    forall|i: int| 0 <= i < paths.len() ==> included(lists, #[trigger] paths[i]) is Ok
}

/// The mirror lists named by `include_paths_of` are all that a
/// configuration needs: with the text of each of them at hand, the only
/// error left is that of an invalid value.
pub proof fn lemma_loaded_lists_suffice(sections: Seq<SectionView>, lists: Seq<MirrorListView>)
    requires
        all_loaded(lists, include_paths_of(sections)),
    ensures
        repositories_of(sections, lists) is Err ==> repositories_of(
            sections,
            lists,
        )->Err_0 is InvalidValue,
        config_of(sections, lists) is Err ==> config_of(sections, lists)->Err_0 is InvalidValue,
    decreases sections.len(),
{
    if sections.len() > 0 {
        let front = sections.drop_last();
        let last = sections.last();
        let before = include_paths_of(front);
        let paths = include_paths_of(sections);
        assert forall|i: int| 0 <= i < before.len() implies included(
            lists,
            #[trigger] before[i],
        ) is Ok by {
            assert(before[i] == paths[i]);
        }
        lemma_loaded_lists_suffice(front, lists);
        if last.name != options_name() {
            let own = values_of(last.entries, "Include"@);
            assert forall|j: int| 0 <= j < own.len() implies included(lists, own[j]) is Ok by {
                assert(own[j] == paths[before.len() + j]);
            }
            lemma_lists_that_load(lists, own);
        }
    }
    if options_fault(options_entries(sections)) is Some {
        lemma_fault_names_setting(options_entries(sections));
    }
}

/// A mirror list that cannot be had fails the whole configuration: where a
/// section other than `options` includes one, there is no configuration,
/// whatever else the sections hold. Where nothing before it is in error, the
/// error is that of this list.
pub proof fn lemma_missing_list_fails_configuration(
    sections: Seq<SectionView>,
    lists: Seq<MirrorListView>,
    k: int,
    i: int,
)
    requires
        0 <= k < sections.len(),
        sections[k].name != options_name(),
        0 <= i < values_of(sections[k].entries, "Include"@).len(),
        included(lists, values_of(sections[k].entries, "Include"@)[i]) is Err,
    ensures
        config_of(sections, lists) is Err,
        ({
            &&& options_fault(options_entries(sections)) is None
            &&& forall|j: int|
                0 <= j < k ==> sections[j].name == options_name() || repository_of(
                    sections[j],
                    lists,
                ) is Ok
            &&& forall|j: int|
                0 <= j < i ==> included(lists, values_of(sections[k].entries, "Include"@)[j]) is Ok
        }) ==> config_of(sections, lists) == Err::<ConfigView, ConfigErrorView>(
            included(lists, values_of(sections[k].entries, "Include"@)[i])->Err_0,
        ),
{
    lemma_missing_list_is_fatal(sections[k], lists, i);
    lemma_failing_section_is_fatal(sections, lists, k);
    if forall|j: int|
        0 <= j < k ==> sections[j].name == options_name() || repository_of(
            sections[j],
            lists,
        ) is Ok {
        lemma_first_failing_section(sections, lists, k);
    }
}

} // verus!
