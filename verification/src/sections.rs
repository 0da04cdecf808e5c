//! Sections: the lines of a configuration file, grouped under their headers.
//!
//! A file is a run of lines. A line in square brackets opens a section, or
//! opens one again that an earlier header of the same name began; a line with
//! an equals sign adds a setting to the open section. Sections keep the order
//! of their first headers, and settings the order of their lines.

use crate::text::{
    chars_of, find, find_in, lemma_find, lemma_find_unique, line_ranges, split_lines, string_of,
    trim, trim_in,
};
use vstd::prelude::*;

verus! {

/// One setting: a key and the text given for it.
#[derive(Debug, PartialEq, Eq)]
pub struct Entry {
    pub key: String,
    pub value: String,
}

/// What an `Entry` holds.
pub struct EntryView {
    pub key: Seq<char>,
    pub value: Seq<char>,
}

impl View for Entry {
    type V = EntryView;

    open spec fn view(&self) -> EntryView {
        EntryView { key: self.key@, value: self.value@ }
    }
}

/// A named section with its settings, in the order of their lines.
#[derive(Debug, PartialEq, Eq)]
pub struct Section {
    pub name: String,
    pub entries: Vec<Entry>,
}

/// What a `Section` holds.
pub struct SectionView {
    pub name: Seq<char>,
    pub entries: Seq<EntryView>,
}

impl View for Section {
    type V = SectionView;

    open spec fn view(&self) -> SectionView {
        SectionView { name: self.name@, entries: self.entries@.map_values(|e: Entry| e@) }
    }
}

/// What a list of sections holds.
pub open spec fn sections_view(sections: Seq<Section>) -> Seq<SectionView> {
    sections.map_values(|s: Section| s@)
}

/// What one line of a configuration file says.
#[derive(Debug, PartialEq, Eq)]
pub enum Line {
    /// Nothing: a blank line, a comment, or a line that neither is a header
    /// nor holds an equals sign.
    Ignored,
    /// A section header, with the text between its brackets.
    Header { name: String },
    /// A setting, with the trimmed texts on both sides of the first equals
    /// sign.
    Setting { key: String, value: String },
}

/// What a `Line` holds.
pub enum LineView {
    Ignored,
    Header { name: Seq<char> },
    Setting { key: Seq<char>, value: Seq<char> },
}

impl View for Line {
    type V = LineView;

    open spec fn view(&self) -> LineView {
        match self {
            Line::Ignored => LineView::Ignored,
            Line::Header { name } => LineView::Header { name: name@ },
            Line::Setting { key, value } => LineView::Setting { key: key@, value: value@ },
        }
    }
}

/// Whether a trimmed line is blank or a comment. Such a line counts for
/// nothing, in a configuration file and in a mirror list alike.
pub open spec fn is_blank_or_comment(t: Seq<char>) -> bool {
    t.len() == 0 || t[0] == '#'
}

/// What the trimmed line `t` says.
pub open spec fn classify(t: Seq<char>) -> LineView {
    if is_blank_or_comment(t) {
        LineView::Ignored
    } else if t[0] == '[' && t.last() == ']' {
        LineView::Header { name: t.subrange(1, t.len() - 1) }
    } else if find(t, '=') < t.len() {
        LineView::Setting { key: trim(t.take(find(t, '='))), value: trim(t.skip(find(t, '=') + 1)) }
    } else {
        LineView::Ignored
    }
}

/// The sections read so far, and the index of the one that is open.
pub struct Registry {
    pub sections: Seq<SectionView>,
    pub current: Option<int>,
}

/// Index of the first section called `name`; `sections.len()` where there is
/// none.
pub open spec fn position(sections: Seq<SectionView>, name: Seq<char>) -> int {
    find(sections.map_values(|s: SectionView| s.name), name)
}

/// `sections` with one more setting at the end of section `at`.
pub open spec fn with_setting(
    sections: Seq<SectionView>,
    at: int,
    key: Seq<char>,
    value: Seq<char>,
) -> Seq<SectionView> {
    sections.update(
        at,
        SectionView {
            name: sections[at].name,
            entries: sections[at].entries.push(EntryView { key, value }),
        },
    )
}

/// The registry after one more line. A header opens the section of its name,
/// a new and empty one at the end where no section has that name yet. A
/// setting goes to the end of the open section, and nowhere while none is
/// open.
pub open spec fn step(r: Registry, line: Seq<char>) -> Registry {
    match classify(trim(line)) {
        LineView::Ignored => r,
        LineView::Header { name } => {
            let at = position(r.sections, name);
            if at < r.sections.len() {
                Registry { sections: r.sections, current: Some(at) }
            } else {
                Registry {
                    sections: r.sections.push(SectionView { name, entries: Seq::empty() }),
                    current: Some(r.sections.len() as int),
                }
            }
        },
        LineView::Setting { key, value } => match r.current {
            Some(at) => Registry {
                sections: with_setting(r.sections, at, key, value),
                current: r.current,
            },
            None => r,
        },
    }
}

/// The registry after all of `lines`, read in order.
pub open spec fn scan(lines: Seq<Seq<char>>) -> Registry
    decreases lines.len(),
{
    if lines.len() == 0 {
        Registry { sections: Seq::empty(), current: None }
    } else {
        step(scan(lines.drop_last()), lines.last())
    }
}

/// The sections of a configuration text.
pub open spec fn sections_of(text: Seq<char>) -> Seq<SectionView> {
    scan(split_lines(text)).sections
}

/// The texts given for `key` in `entries`, in the order of the entries.
pub open spec fn values_of(entries: Seq<EntryView>, key: Seq<char>) -> Seq<Seq<char>>
    decreases entries.len(),
{
    if entries.len() == 0 {
        Seq::empty()
    } else if entries.last().key == key {
        values_of(entries.drop_last(), key).push(entries.last().value)
    } else {
        values_of(entries.drop_last(), key)
    }
}

/// The first text given for `key` in `entries`.
pub open spec fn first_of(entries: Seq<EntryView>, key: Seq<char>) -> Option<Seq<char>> {
    if values_of(entries, key).len() > 0 {
        Some(values_of(entries, key)[0])
    } else {
        None
    }
}

/// Says what the trimmed line `chars[lo..hi]` is.
pub fn classify_in(chars: &Vec<char>, lo: usize, hi: usize) -> (line: Line)
    requires
        lo <= hi <= chars.len(),
    ensures
        line@ == classify(chars@.subrange(lo as int, hi as int)),
{
    let ghost t = chars@.subrange(lo as int, hi as int);
    if lo == hi || chars[lo] == '#' {
        return Line::Ignored;
    }
    if chars[lo] == '[' && chars[hi - 1] == ']' {
        assert(t.subrange(1, t.len() - 1) == chars@.subrange(lo + 1, hi - 1));
        return Line::Header { name: string_of(chars, lo + 1, hi - 1) };
    }
    let eq = find_in(chars, lo, hi, '=');
    if eq < hi {
        let k = trim_in(chars, lo, eq);
        let v = trim_in(chars, eq + 1, hi);
        assert(t.take(eq - lo) == chars@.subrange(lo as int, eq as int));
        assert(t.skip(eq - lo + 1) == chars@.subrange(eq + 1, hi as int));
        Line::Setting { key: string_of(chars, k.0, k.1), value: string_of(chars, v.0, v.1) }
    } else {
        Line::Ignored
    }
}

/// Index of the first section called `name`; `sections.len()` where there is
/// none.
pub fn position_of(sections: &Vec<Section>, name: &String) -> (at: usize)
    ensures
        at == position(sections_view(sections@), name@),
        at <= sections.len(),
{
    let mut i: usize = 0;
    while i < sections.len() && sections[i].name != *name
        invariant
            i <= sections.len(),
            forall|j: int| 0 <= j < i ==> sections@[j].name@ != name@,
        decreases sections.len() - i,
    {
        i += 1;
    }
    proof {
        let names = sections_view(sections@).map_values(|s: SectionView| s.name);
        lemma_find_unique(names, name@, i as int);
    }
    i
}

/// Puts one more setting at the end of section `at`.
pub fn add_setting(sections: &mut Vec<Section>, at: usize, key: String, value: String)
    requires
        at < old(sections).len(),
    ensures
        final(sections).len() == old(sections).len(),
        sections_view(final(sections)@) == with_setting(
            sections_view(old(sections)@),
            at as int,
            key@,
            value@,
        ),
{
    let ghost before = sections@;
    sections[at].entries.push(Entry { key, value });
    proof {
        let after = sections@;
        let want = with_setting(sections_view(before), at as int, key@, value@);
        assert(after.len() == before.len());
        assert(after[at as int]@.entries == before[at as int]@.entries.push(
            EntryView { key: key@, value: value@ },
        ));
        assert forall|j: int| 0 <= j < after.len() implies sections_view(after)[j] == want[j] by {
            if j != at {
                assert(after[j] == before[j]);
            }
        }
        assert(sections_view(after) == want);
    }
}

/// Groups the lines of a configuration text into sections.
pub fn parse_sections(text: &str) -> (sections: Vec<Section>)
    ensures
        sections_view(sections@) == sections_of(text@),
        names_differ(sections_view(sections@)),
{
    proof {
        lemma_scan_merges_names(split_lines(text@));
    }
    let chars = chars_of(text);
    let ranges = line_ranges(&chars);
    let ghost lines = split_lines(text@);
    let mut sections: Vec<Section> = Vec::new();
    let mut current: Option<usize> = None;
    let mut i: usize = 0;
    proof {
        assert(sections_view(sections@) == Seq::<SectionView>::empty());
        assert(lines.take(0) == Seq::<Seq<char>>::empty());
    }
    while i < ranges.len()
        invariant
            i <= ranges.len(),
            chars@ == text@,
            lines == split_lines(text@),
            ranges.len() == lines.len(),
            forall|k: int|
                0 <= k < ranges.len() ==> {
                    &&& (#[trigger] ranges[k]).0 <= ranges[k].1 <= chars.len()
                    &&& chars@.subrange(ranges[k].0 as int, ranges[k].1 as int) == trim(lines[k])
                },
            sections_view(sections@) == scan(lines.take(i as int)).sections,
            match current {
                Some(at) => at < sections.len() && scan(lines.take(i as int)).current == Some(
                    at as int,
                ),
                None => scan(lines.take(i as int)).current == None::<int>,
            },
        decreases ranges.len() - i,
    {
        let range = ranges[i];
        let line = classify_in(&chars, range.0, range.1);
        proof {
            assert(lines.take(i + 1).drop_last() == lines.take(i as int));
            assert(lines.take(i + 1).last() == lines[i as int]);
        }
        match line {
            Line::Ignored => {},
            Line::Header { name } => {
                let at = position_of(&sections, &name);
                if at == sections.len() {
                    let ghost before = sections@;
                    sections.push(Section { name, entries: Vec::new() });
                    proof {
                        let made = sections@[at as int];
                        assert(made@.entries == Seq::<EntryView>::empty());
                        assert(sections_view(sections@) == sections_view(before).push(made@));
                    }
                }
                current = Some(at);
            },
            Line::Setting { key, value } => {
                if let Some(at) = current {
                    add_setting(&mut sections, at, key, value);
                }
            },
        }
        i += 1;
    }
    proof {
        assert(lines.take(i as int) == lines);
    }
    sections
}

/// A key that no entry has is given no text.
pub proof fn lemma_absent_key(entries: Seq<EntryView>, key: Seq<char>)
    requires
        forall|j: int| 0 <= j < entries.len() ==> entries[j].key != key,
    ensures
        values_of(entries, key) == Seq::<Seq<char>>::empty(),
        first_of(entries, key) == None::<Seq<char>>,
    decreases entries.len(),
{
    if entries.len() > 0 {
        lemma_absent_key(entries.drop_last(), key);
    }
}

/// The first occurrence wins: where several entries have one key, the first
/// text given for the key is the text of the earliest of them.
pub proof fn lemma_first_occurrence_wins(entries: Seq<EntryView>, key: Seq<char>, i: int)
    requires
        0 <= i < entries.len(),
        entries[i].key == key,
        forall|j: int| 0 <= j < i ==> entries[j].key != key,
    ensures
        first_of(entries, key) == Some(entries[i].value),
    decreases entries.len(),
{
    let front = entries.drop_last();
    if i == entries.len() - 1 {
        lemma_absent_key(front, key);
    } else {
        lemma_first_occurrence_wins(front, key, i);
    }
}

/// Every occurrence counts: one more entry for a key puts its text behind
/// the texts already given for that key, and leaves every other key as it
/// was.
pub proof fn lemma_values_accumulate(entries: Seq<EntryView>, e: EntryView, key: Seq<char>)
    ensures
        e.key == key ==> values_of(entries.push(e), key) == values_of(entries, key).push(e.value),
        e.key != key ==> values_of(entries.push(e), key) == values_of(entries, key),
{
    assert(entries.push(e).drop_last() == entries);
}

impl Section {
    /// Every text given for `key`, in the order of the lines.
    pub fn values(&self, key: &str) -> (r: Vec<String>)
        ensures
            r.deep_view() == values_of(self@.entries, key@),
    {
        let wanted = key.to_owned();
        let ghost entries = self@.entries;
        let mut r: Vec<String> = Vec::new();
        let mut i: usize = 0;
        proof {
            assert(entries.take(0) == Seq::<EntryView>::empty());
            assert(r.deep_view() == Seq::<Seq<char>>::empty());
        }
        while i < self.entries.len()
            invariant
                i <= self.entries.len(),
                wanted@ == key@,
                entries == self@.entries,
                r.deep_view() == values_of(entries.take(i as int), key@),
            decreases self.entries.len() - i,
        {
            proof {
                assert(entries.take(i + 1).drop_last() == entries.take(i as int));
                assert(entries.take(i + 1).last() == self.entries[i as int]@);
            }
            if self.entries[i].key == wanted {
                let ghost before = r.deep_view();
                let v = self.entries[i].value.clone();
                r.push(v);
                assert(r.deep_view() == before.push(v@));
            }
            i += 1;
        }
        proof {
            assert(entries.take(i as int) == entries);
        }
        r
    }

    /// The first text given for `key`.
    pub fn first(&self, key: &str) -> (r: Option<&String>)
        ensures
            match first_of(self@.entries, key@) {
                Some(v) => r is Some && r->Some_0@ == v,
                None => r is None,
            },
    {
        let wanted = key.to_owned();
        let ghost entries = self@.entries;
        let mut i: usize = 0;
        while i < self.entries.len()
            invariant
                i <= self.entries.len(),
                wanted@ == key@,
                entries == self@.entries,
                forall|j: int| 0 <= j < i ==> entries[j].key != key@,
            decreases self.entries.len() - i,
        {
            if self.entries[i].key == wanted {
                proof {
                    lemma_first_occurrence_wins(entries, key@, i as int);
                }
                return Some(&self.entries[i].value);
            }
            i += 1;
        }
        proof {
            lemma_absent_key(entries, key@);
        }
        None
    }
}

/// Whether no two of `sections` have one name.
pub open spec fn names_differ(sections: Seq<SectionView>) -> bool {
    forall|i: int, j: int|
        0 <= i < j < sections.len() ==> (#[trigger] sections[i]).name != (
        #[trigger] sections[j]).name
}

/// Sections of one name are one section: after any lines, no two sections
/// of the registry have one name, and the open section is one of them.
pub proof fn lemma_scan_merges_names(lines: Seq<Seq<char>>)
    ensures
        names_differ(scan(lines).sections),
        scan(lines).current is Some ==> 0 <= scan(lines).current->Some_0 < scan(
            lines,
        ).sections.len(),
    decreases lines.len(),
{
    if lines.len() > 0 {
        lemma_scan_merges_names(lines.drop_last());
        let r = scan(lines.drop_last());
        match classify(trim(lines.last())) {
            LineView::Ignored => {},
            LineView::Header { name } => {
                let names = r.sections.map_values(|s: SectionView| s.name);
                lemma_find(names, name);
                if position(r.sections, name) >= r.sections.len() {
                    let after = scan(lines).sections;
                    assert forall|i: int, j: int| 0 <= i < j < after.len() implies (
                    #[trigger] after[i]).name != (#[trigger] after[j]).name by {
                        if j == r.sections.len() {
                            assert(names[i] != name);
                        } else {
                            assert(after[i] == r.sections[i] && after[j] == r.sections[j]);
                        }
                    }
                }
            },
            LineView::Setting { key, value } => {
                if let Some(at) = r.current {
                    let after = scan(lines).sections;
                    assert forall|i: int, j: int| 0 <= i < j < after.len() implies (
                    #[trigger] after[i]).name != (#[trigger] after[j]).name by {
                        assert(after[i].name == r.sections[i].name);
                        assert(after[j].name == r.sections[j].name);
                    }
                }
            },
        }
    }
}

} // verus!
