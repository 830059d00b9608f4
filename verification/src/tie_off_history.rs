//! Reading tie-off files back.
//!
//! A tie-off file is a run of sections. Each starts with three lines: a
//! heading `## {knot} triggered by {event} {strand}`, a line
//! `Timestamp: {when}`, and a line `---`. The lines up to the next section are
//! its body. A line `---` between two sections separates them, and belongs to
//! neither.

use crate::text;
use crate::text::join_texts;
use vstd::prelude::*;
use vstd::string::*;

verus! {

/// One section of a tie-off file.
#[derive(Debug, PartialEq, Eq)]
pub struct TieOffSection {
    /// The knot that wrote it.
    pub knot_name: String,
    /// The kind of strand event.
    pub event_type: String,
    /// The strand.
    pub strand_path: String,
    /// When it was written.
    pub timestamp: String,
    /// What the knot wrote.
    pub body: String,
}

/// Model of a [`TieOffSection`].
pub struct TieOffSectionView {
    pub knot_name: Seq<char>,
    pub event_type: Seq<char>,
    pub strand_path: Seq<char>,
    pub timestamp: Seq<char>,
    pub body: Seq<char>,
}

impl View for TieOffSection {
    type V = TieOffSectionView;

    open spec fn view(&self) -> TieOffSectionView {
        TieOffSectionView {
            knot_name: self.knot_name@,
            event_type: self.event_type@,
            strand_path: self.strand_path@,
            timestamp: self.timestamp@,
            body: self.body@,
        }
    }
}

// ── Lines ──────────────────────────────────────────────────────────────

/// The lines of a text: what stands between its line breaks. An empty text is
/// one empty line.
pub open spec fn lines(content: Seq<char>) -> Seq<Seq<char>>
    decreases content.len(),
{
    if content.len() == 0 {
        seq![Seq::empty()]
    } else if content.last() == '\n' {
        lines(content.drop_last()).push(Seq::empty())
    } else {
        let before = lines(content.drop_last());
        before.drop_last().push(before.last().push(content.last()))
    }
}

/// Split a text into its lines.
fn split_lines(content: &str) -> (parts: Vec<String>)
    ensures
        text::texts(parts@) == lines(content@),
{
    broadcast use text::texts_push;

    let n = content.unicode_len();
    let mut parts: Vec<String> = Vec::new();
    let mut start: usize = 0;
    let mut i: usize = 0;
    assert(content@.take(0) =~= Seq::empty());
    assert(content@.subrange(0, 0) =~= Seq::empty());
    assert(text::texts(parts@).push(Seq::empty()) =~= seq![Seq::<char>::empty()]);
    while i < n
        invariant
            n == content@.len(),
            start <= i <= n,
            lines(content@.take(i as int)) == text::texts(parts@).push(
                content@.subrange(start as int, i as int),
            ),
        decreases n - i,
    {
        let ghost before = lines(content@.take(i as int));
        assert(content@.take(i + 1).drop_last() =~= content@.take(i as int));
        assert(before.drop_last() =~= text::texts(parts@));
        if content.get_char(i) == '\n' {
            let line = content.substring_char(start, i).to_string();
            parts.push(line);
            start = i + 1;
            assert(content@.subrange(start as int, i + 1) =~= Seq::empty());
            assert(text::texts(parts@) =~= before);
        } else {
            assert(content@.subrange(start as int, i + 1) =~= content@.subrange(
                start as int,
                i as int,
            ).push(content@[i as int]));
        }
        i = i + 1;
    }
    assert(content@.take(n as int) =~= content@);
    parts.push(content.substring_char(start, n).to_string());
    parts
}

// ── Headings ───────────────────────────────────────────────────────────

/// Whether the text stands at a place in another.
pub open spec fn stands_at(line: Seq<char>, part: Seq<char>, i: int) -> bool {
    0 <= i && i + part.len() <= line.len() && line.subrange(i, i + part.len()) == part
}

/// The first place from `from` on where the text stands.
pub open spec fn find_from(line: Seq<char>, part: Seq<char>, from: nat) -> Option<int>
    decreases line.len() + 1 - from,
{
    if from > line.len() {
        None
    } else if stands_at(line, part, from as int) {
        Some(from as int)
    } else {
        find_from(line, part, from + 1)
    }
}

/// Whether the text stands at a place in another.
fn is_at(line: &str, part: &str, i: usize) -> (yes: bool)
    requires
        i <= line@.len(),
    ensures
        yes == stands_at(line@, part@, i as int),
{
    let n = line.unicode_len();
    let m = part.unicode_len();
    if m > n - i {
        return false;
    }
    let piece = line.substring_char(i, i + m).to_string();
    piece == part.to_string()
}

/// The first place from `from` on where the text stands.
fn find(line: &str, part: &str, from: usize) -> (place: Option<usize>)
    requires
        from <= line@.len(),
    ensures
        find_from(line@, part@, from as nat) == (match place {
            Some(i) => Some(i as int),
            None => None,
        }),
        place matches Some(i) ==> from <= i && i + part@.len() <= line@.len(),
{
    let n = line.unicode_len();
    let mut i: usize = from;
    while i < n
        invariant
            n == line@.len(),
            from <= i <= n,
            find_from(line@, part@, from as nat) == find_from(line@, part@, i as nat),
        decreases n - i,
    {
        if is_at(line, part, i) {
            return Some(i);
        }
        i = i + 1;
    }
    if is_at(line, part, n) {
        return Some(n);
    }
    proof {
        reveal_with_fuel(find_from, 2);
    }
    None
}

/// What a heading names: knot, event and strand.
pub struct Heading {
    pub knot_name: Seq<char>,
    pub event_type: Seq<char>,
    pub strand_path: Seq<char>,
}

/// Read a heading: the knot is what stands before the first ` triggered by `,
/// the event is the word behind it, and the strand is the rest of the line.
pub open spec fn heading(line: Seq<char>) -> Option<Heading> {
    if !stands_at(line, "## "@, 0) {
        None
    } else {
        match find_from(line, " triggered by "@, 3) {
            None => None,
            Some(by) => match find_from(line, " "@, (by + 14) as nat) {
                None => None,
                Some(space) => Some(
                    Heading {
                        knot_name: line.subrange(3, by),
                        event_type: line.subrange(by + 14, space),
                        strand_path: line.skip(space + 1),
                    },
                ),
            },
        }
    }
}

/// The heading's words, and how long they are.
fn read_heading(line: &str) -> (found: Option<(String, String, String)>)
    ensures
        heading(line@) == (match found {
            Some(h) => Some(
                Heading { knot_name: h.0@, event_type: h.1@, strand_path: h.2@ },
            ),
            None => None,
        }),
{
    proof {
        reveal_strlit("## ");
        reveal_strlit(" triggered by ");
        reveal_strlit(" ");
    }
    if !is_at(line, "## ", 0) {
        return None;
    }
    let n = line.unicode_len();
    match find(line, " triggered by ", 3) {
        None => None,
        Some(by) => match find(line, " ", by + 14) {
            None => None,
            Some(space) => {
                let strand = line.substring_char(space + 1, n);
                assert(strand@ =~= line@.skip(space + 1));
                Some(
                    (
                        line.substring_char(3, by).to_string(),
                        line.substring_char(by + 14, space).to_string(),
                        strand.to_string(),
                    ),
                )
            },
        },
    }
}

/// Whether a section starts at a line.
pub open spec fn starts_at(all: Seq<Seq<char>>, i: int) -> bool {
    &&& 0 <= i && i + 2 < all.len()
    &&& heading(all[i]) is Some
    &&& stands_at(all[i + 1], "Timestamp: "@, 0)
    &&& all[i + 2] == "---"@
}

/// The first line from `i` on where a section starts, or the end.
pub open spec fn next_start(all: Seq<Seq<char>>, i: nat) -> nat
    decreases all.len() - i,
{
    if i >= all.len() {
        all.len()
    } else if starts_at(all, i as int) {
        i
    } else {
        next_start(all, i + 1)
    }
}

/// The next section starts behind, and at the end at the latest.
pub proof fn next_start_in_range(all: Seq<Seq<char>>, i: nat)
    requires
        i <= all.len(),
    ensures
        i <= next_start(all, i) <= all.len(),
    decreases all.len() - i,
{
    if i < all.len() && !starts_at(all, i as int) {
        next_start_in_range(all, i + 1);
    }
}

/// Where the body of a section ends, given where the next section starts: a
/// separator before the next section is not part of it.
pub open spec fn body_end(all: Seq<Seq<char>>, from: int, next: int) -> int {
    if next < all.len() && next > from && all[next - 1] == "---"@ {
        next - 1
    } else {
        next
    }
}

/// The section that starts at a line, given where the next one starts.
pub open spec fn section_at(all: Seq<Seq<char>>, i: int, next: int) -> TieOffSectionView {
    let h = heading(all[i])->0;
    TieOffSectionView {
        knot_name: h.knot_name,
        event_type: h.event_type,
        strand_path: h.strand_path,
        timestamp: all[i + 1].skip(11),
        body: text::joined(all.subrange(i + 3, body_end(all, i + 3, next)), "\n"@),
    }
}

/// The sections that start at a line or behind it.
pub open spec fn sections_from(all: Seq<Seq<char>>, i: nat) -> Seq<TieOffSectionView>
    decreases all.len() - i,
{
    if i >= all.len() {
        Seq::empty()
    } else if starts_at(all, i as int) {
        proof {
            next_start_in_range(all, i + 3);
        }
        let next = next_start(all, i + 3);
        seq![section_at(all, i as int, next as int)] + sections_from(all, next)
    } else {
        sections_from(all, i + 1)
    }
}

/// The sections of a tie-off file.
pub open spec fn sections(content: Seq<char>) -> Seq<TieOffSectionView> {
    sections_from(lines(content), 0)
}

/// The sections about a strand.
pub open spec fn about(all: Seq<TieOffSectionView>, strand_path: Seq<char>) -> Seq<
    TieOffSectionView,
>
    decreases all.len(),
{
    if all.len() == 0 {
        Seq::empty()
    } else if all.last().strand_path == strand_path {
        about(all.drop_last(), strand_path).push(all.last())
    } else {
        about(all.drop_last(), strand_path)
    }
}

/// The last so many of a sequence.
pub open spec fn last_of<T>(all: Seq<T>, n: nat) -> Seq<T> {
    if all.len() <= n {
        all
    } else {
        all.skip(all.len() - n)
    }
}

fn starts(all: &Vec<String>, i: usize) -> (yes: bool)
    requires
        i <= all@.len(),
    ensures
        yes == starts_at(text::texts(all@), i as int),
{
    let n = all.len();
    if n - i <= 2 {
        return false;
    }
    match read_heading(all[i].as_str()) {
        None => false,
        Some(_) => is_at(all[i + 1].as_str(), "Timestamp: ", 0) && all[i + 2]
            == "---".to_string(),
    }
}

fn find_start(all: &Vec<String>, i: usize) -> (next: usize)
    requires
        i <= all@.len(),
    ensures
        next == next_start(text::texts(all@), i as nat),
        i <= next <= all@.len(),
{
    let mut j: usize = i;
    while j < all.len()
        invariant
            i <= j <= all@.len(),
            next_start(text::texts(all@), i as nat) == next_start(text::texts(all@), j as nat),
        decreases all@.len() - j,
    {
        if starts(all, j) {
            return j;
        }
        j = j + 1;
    }
    j
}

/// Read the section that starts at a line.
fn read_section(all: &Vec<String>, i: usize, next: usize) -> (section: TieOffSection)
    requires
        starts_at(text::texts(all@), i as int),
        i + 3 <= next <= all@.len(),
    ensures
        section@ == section_at(text::texts(all@), i as int, next as int),
{
    broadcast use text::texts_push;

    let ghost views = text::texts(all@);
    proof {
        reveal_strlit("Timestamp: ");
    }
    let (knot_name, event_type, strand_path) = match read_heading(all[i].as_str()) {
        Some(words) => words,
        None => (String::new(), String::new(), String::new()),
    };
    let stamp = all[i + 1].as_str();
    let timestamp = stamp.substring_char(11, stamp.unicode_len());
    assert(timestamp@ =~= stamp@.skip(11));
    let end = if next < all.len() && next > i + 3 && all[next - 1] == "---".to_string() {
        next - 1
    } else {
        next
    };
    let mut body: Vec<String> = Vec::new();
    assert(text::texts(body@) =~= views.subrange(i + 3, i + 3));
    for j in i + 3..end
        invariant
            i + 3 <= j <= end <= all@.len(),
            views == text::texts(all@),
            text::texts(body@) == views.subrange(i + 3, j as int),
    {
        body.push(all[j].clone());
        assert(views.subrange(i + 3, j + 1) =~= views.subrange(i + 3, j as int).push(
            views[j as int],
        ));
    }
    TieOffSection {
        knot_name,
        event_type,
        strand_path,
        timestamp: timestamp.to_string(),
        body: join_texts(&body, "\n"),
    }
}

/// Read a tie-off file's sections.
fn read_sections(content: &str) -> (found: Vec<TieOffSection>)
    ensures
        text::views(found@) == sections(content@),
{
    broadcast use text::views_push;

    let all = split_lines(content);
    let ghost views = text::texts(all@);
    let mut found: Vec<TieOffSection> = Vec::new();
    let mut i: usize = 0;
    assert(text::views(found@) + sections_from(views, 0) =~= sections_from(views, 0));
    while i < all.len()
        invariant
            i <= all@.len(),
            views == text::texts(all@),
            text::views(found@) + sections_from(views, i as nat) == sections_from(views, 0),
        decreases all@.len() - i,
    {
        if starts(&all, i) {
            let next = find_start(&all, i + 3);
            let section = read_section(&all, i, next);
            let ghost rest = sections_from(views, next as nat);
            assert(text::views(found@).push(section@) + rest =~= text::views(found@) + (seq![
                section@,
            ] + rest));
            found.push(section);
            i = next;
        } else {
            i = i + 1;
        }
    }
    assert(text::views(found@) + Seq::<TieOffSectionView>::empty() =~= text::views(found@));
    found
}

/// The last sections about a strand in a tie-off file, at most `n`, in the
/// order of the file.
pub fn extract_last_n(content: &str, strand_path: &str, n: usize) -> (found: Vec<TieOffSection>)
    ensures
        text::views(found@) == last_of(about(sections(content@), strand_path@), n as nat),
{
    broadcast use text::views_push;

    let all = read_sections(content);
    let ghost views = text::views(all@);
    let path = strand_path.to_string();
    let mut scoped: Vec<TieOffSection> = Vec::new();
    assert(views.take(0) =~= Seq::empty());
    assert(text::views(scoped@) =~= Seq::empty());
    for i in 0..all.len()
        invariant
            views == text::views(all@),
            path@ == strand_path@,
            text::views(scoped@) == about(views.take(i as int), strand_path@),
    {
        assert(views.take(i + 1).drop_last() =~= views.take(i as int));
        assert(views.take(i + 1).last() == all@[i as int]@);
        if all[i].strand_path == path {
            scoped.push(copy_section(&all[i]));
        }
    }
    assert(views.take(all@.len() as int) =~= views);
    if scoped.len() <= n {
        return scoped;
    }
    let ghost ours = text::views(scoped@);
    let start = scoped.len() - n;
    let mut found: Vec<TieOffSection> = Vec::new();
    assert(text::views(found@) =~= ours.subrange(start as int, start as int));
    for i in start..scoped.len()
        invariant
            start <= i <= scoped@.len(),
            ours == text::views(scoped@),
            text::views(found@) == ours.subrange(start as int, i as int),
    {
        found.push(copy_section(&scoped[i]));
        assert(ours.subrange(start as int, i + 1) =~= ours.subrange(start as int, i as int).push(
            ours[i as int],
        ));
    }
    assert(ours.subrange(start as int, scoped@.len() as int) =~= ours.skip(start as int));
    found
}

fn copy_section(section: &TieOffSection) -> (copy: TieOffSection)
    ensures
        copy@ == section@,
{
    TieOffSection {
        knot_name: section.knot_name.clone(),
        event_type: section.event_type.clone(),
        strand_path: section.strand_path.clone(),
        timestamp: section.timestamp.clone(),
        body: section.body.clone(),
    }
}

/// Only sections about the strand are given, and never more than asked for.
pub proof fn history_is_scoped(all: Seq<TieOffSectionView>, strand_path: Seq<char>, n: nat)
    ensures
        last_of(about(all, strand_path), n).len() <= n,
        forall|i: int|
            0 <= i < last_of(about(all, strand_path), n).len() ==> (#[trigger] last_of(
                about(all, strand_path),
                n,
            )[i]).strand_path == strand_path,
{
    about_is_scoped(all, strand_path);
}

proof fn about_is_scoped(all: Seq<TieOffSectionView>, strand_path: Seq<char>)
    ensures
        forall|i: int|
            0 <= i < about(all, strand_path).len() ==> (#[trigger] about(
                all,
                strand_path,
            )[i]).strand_path == strand_path,
    decreases all.len(),
{
    if all.len() > 0 {
        about_is_scoped(all.drop_last(), strand_path);
        let before = about(all.drop_last(), strand_path);
        let after = about(all, strand_path);
        assert forall|i: int| 0 <= i < after.len() implies (#[trigger] after[i]).strand_path
            == strand_path by {
            if i < before.len() {
                assert(after[i] == before[i]);
            }
        }
    }
}

proof fn a_text_has_a_line(content: Seq<char>)
    ensures
        lines(content).len() > 0,
    decreases content.len(),
{
    if content.len() > 0 {
        a_text_has_a_line(content.drop_last());
    }
}

/// The lines of a text make up the text again, with a line break between
/// neighbours, and hold no line break themselves.
pub proof fn lines_make_up_the_text(content: Seq<char>)
    ensures
        text::joined(lines(content), "\n"@) == content,
        forall|i: int, j: int|
            0 <= i < lines(content).len() && 0 <= j < lines(content)[i].len() ==> #[trigger] lines(
                content,
            )[i][j] != '\n',
    decreases content.len(),
{
    reveal_strlit("\n");
    if content.len() > 0 {
        let rest = content.drop_last();
        let before = lines(rest);
        let all = lines(content);
        a_text_has_a_line(rest);
        lines_make_up_the_text(rest);
        if content.last() == '\n' {
            assert(all.drop_last() =~= before);
            assert(text::joined(all, "\n"@) =~= content);
        } else {
            assert(all.drop_last() =~= before.drop_last());
            assert(all.last() == before.last().push(content.last()));
            assert(text::joined(before, "\n"@) == rest);
            assert(text::joined(all, "\n"@) =~= text::joined(before, "\n"@).push(
                content.last(),
            ));
            assert(rest.push(content.last()) =~= content);
        }
        assert forall|i: int, j: int| 0 <= i < all.len() && 0 <= j < all[i].len() implies
            #[trigger] all[i][j] != '\n' by {
            if i < before.len() && j < before[i].len() {
                assert(before[i][j] != '\n');
            }
        }
    }
}

proof fn the_first_place_is_found(line: Seq<char>, part: Seq<char>, from: nat)
    ensures
        match find_from(line, part, from) {
            Some(i) => from <= i && stands_at(line, part, i) && forall|j: int|
                from <= j < i ==> !#[trigger] stands_at(line, part, j),
            None => forall|j: int| from <= j ==> !#[trigger] stands_at(line, part, j),
        },
    decreases line.len() + 1 - from,
{
    if from <= line.len() && !stands_at(line, part, from as int) {
        the_first_place_is_found(line, part, from + 1);
    }
}

/// A heading that is read makes up its line again: knot, event and strand, in
/// this order. The event is a single word.
pub proof fn headings_make_up_the_line(line: Seq<char>)
    ensures
        heading(line) matches Some(h) ==> line == "## "@ + h.knot_name + " triggered by "@
            + h.event_type + " "@ + h.strand_path && !h.event_type.contains(' '),
{
    reveal_strlit("## ");
    reveal_strlit(" triggered by ");
    reveal_strlit(" ");
    if heading(line) is Some {
        let h = heading(line)->0;
        the_first_place_is_found(line, " triggered by "@, 3);
        let by = find_from(line, " triggered by "@, 3)->0;
        the_first_place_is_found(line, " "@, (by + 14) as nat);
        let space = find_from(line, " "@, (by + 14) as nat)->0;
        assert(line.subrange(0, 3) =~= "## "@);
        assert(line.subrange(by, by + 14) =~= " triggered by "@);
        assert(line.subrange(space, space + 1) =~= " "@);
        assert(line =~= line.subrange(0, 3) + line.subrange(3, by) + line.subrange(by, by + 14)
            + line.subrange(by + 14, space) + line.subrange(space, space + 1) + line.skip(
            space + 1,
        ));
        if h.event_type.contains(' ') {
            let k = choose|k: int| 0 <= k < h.event_type.len() && h.event_type[k] == ' ';
            assert(line.subrange(by + 14 + k, by + 14 + k + 1) =~= " "@);
            assert(stands_at(line, " "@, by + 14 + k));
        }
    }
}

/// A heading is read back as it was written, whatever the strand is called, as
/// long as the event is a single word and the knot's name does not hold the
/// words behind it.
pub proof fn headings_are_read_back(
    knot_name: Seq<char>,
    event_type: Seq<char>,
    strand_path: Seq<char>,
)
    requires
        !event_type.contains(' '),
        forall|i: int|
            3 <= i < 3 + knot_name.len() ==> !#[trigger] stands_at(
                "## "@ + knot_name + " triggered by "@ + event_type + " "@ + strand_path,
                " triggered by "@,
                i,
            ),
    ensures
        heading("## "@ + knot_name + " triggered by "@ + event_type + " "@ + strand_path) == Some(
            Heading { knot_name, event_type, strand_path },
        ),
{
    reveal_strlit("## ");
    reveal_strlit(" triggered by ");
    reveal_strlit(" ");
    let line = "## "@ + knot_name + " triggered by "@ + event_type + " "@ + strand_path;
    let by = 3 + knot_name.len() as int;
    let space = by + 14 + event_type.len();
    assert(line.subrange(0, 3) =~= "## "@);
    assert(line.subrange(by, by + 14) =~= " triggered by "@);
    assert(stands_at(line, " triggered by "@, by));
    the_first_place_is_found(line, " triggered by "@, 3);
    assert(find_from(line, " triggered by "@, 3) == Some(by));
    assert(line.subrange(space, space + 1) =~= " "@);
    assert(stands_at(line, " "@, space));
    the_first_place_is_found(line, " "@, (by + 14) as nat);
    let found = find_from(line, " "@, (by + 14) as nat)->0;
    if found < space {
        assert(line.subrange(found, found + 1)[0] == line[found]);
        assert(line[found] == event_type[found - by - 14]);
        assert(" "@[0] == ' ');
        assert(event_type.contains(' '));
    }
    assert(line.subrange(3, by) =~= knot_name);
    assert(line.subrange(by + 14, space) =~= event_type);
    assert(line.skip(space + 1) =~= strand_path);
}

proof fn the_next_start_is_first(all: Seq<Seq<char>>, i: nat, n: nat)
    requires
        i <= n <= all.len(),
        forall|j: int| i <= j < n ==> !#[trigger] starts_at(all, j),
        n < all.len() ==> starts_at(all, n as int),
    ensures
        next_start(all, i) == n,
    decreases n - i,
{
    if i < n {
        assert(!starts_at(all, i as int));
        the_next_start_is_first(all, i + 1, n);
    }
}

/// A section is read back as it was written: what its heading says, the
/// timestamp, and as the body every line up to where the next section starts,
/// without a separator line right before that. The sections behind it are read
/// as if it were not there.
pub proof fn sections_are_read_back(
    head: Seq<char>,
    timestamp: Seq<char>,
    body: Seq<Seq<char>>,
    rest: Seq<Seq<char>>,
)
    requires
        heading(head) is Some,
        ({
            let all = seq![head, "Timestamp: "@ + timestamp, "---"@] + body + rest;
            &&& forall|j: int| 3 <= j < 3 + body.len() ==> !#[trigger] starts_at(all, j)
            &&& rest.len() > 0 ==> starts_at(rest, 0)
        }),
    ensures
        ({
            let all = seq![head, "Timestamp: "@ + timestamp, "---"@] + body + rest;
            let h = heading(head)->0;
            let kept = if rest.len() > 0 && body.len() > 0 && body.last() == "---"@ {
                body.drop_last()
            } else {
                body
            };
            sections_from(all, 0) == seq![
                TieOffSectionView {
                    knot_name: h.knot_name,
                    event_type: h.event_type,
                    strand_path: h.strand_path,
                    timestamp,
                    body: text::joined(kept, "\n"@),
                },
            ] + sections_from(rest, 0)
        }),
{
    reveal_strlit("Timestamp: ");
    let all = seq![head, "Timestamp: "@ + timestamp, "---"@] + body + rest;
    let n = 3 + body.len();
    assert(all[0] == head);
    assert(all[1] == "Timestamp: "@ + timestamp);
    assert(all[2] == "---"@);
    assert(all[1].subrange(0, 11) =~= "Timestamp: "@);
    assert(all[1].skip(11) =~= timestamp);
    assert(starts_at(all, 0));
    if rest.len() > 0 {
        the_same_sections_start(all, rest, n as int, 0);
    }
    the_next_start_is_first(all, 3, n);
    if body.len() > 0 {
        assert(all[n - 1] == body.last());
    }
    let end = body_end(all, 3, n as int);
    if rest.len() > 0 && body.len() > 0 && body.last() == "---"@ {
        assert(all.subrange(3, end) =~= body.drop_last());
    } else {
        assert(all.subrange(3, end) =~= body);
    }
    sections_behind(all, rest, n as int, 0);
}

proof fn the_same_sections_start(all: Seq<Seq<char>>, rest: Seq<Seq<char>>, n: int, i: int)
    requires
        0 <= n,
        all.len() == n + rest.len(),
        forall|j: int| 0 <= j < rest.len() ==> #[trigger] rest[j] == all[n + j],
        0 <= i,
    ensures
        starts_at(all, n + i) == starts_at(rest, i),
{
    if i + 2 < rest.len() {
        assert(rest[i] == all[n + i]);
        assert(rest[i + 1] == all[n + i + 1]);
        assert(rest[i + 2] == all[n + i + 2]);
    }
}

proof fn the_same_section_is_next(all: Seq<Seq<char>>, rest: Seq<Seq<char>>, n: int, i: nat)
    requires
        0 <= n,
        all.len() == n + rest.len(),
        forall|j: int| 0 <= j < rest.len() ==> #[trigger] rest[j] == all[n + j],
        i <= rest.len(),
    ensures
        next_start(all, (n + i) as nat) == n + next_start(rest, i),
    decreases rest.len() - i,
{
    the_same_sections_start(all, rest, n, i as int);
    if i < rest.len() && !starts_at(rest, i as int) {
        the_same_section_is_next(all, rest, n, i + 1);
    }
}

proof fn sections_behind(all: Seq<Seq<char>>, rest: Seq<Seq<char>>, n: int, i: nat)
    requires
        0 <= n,
        all.len() == n + rest.len(),
        forall|j: int| 0 <= j < rest.len() ==> #[trigger] rest[j] == all[n + j],
        i <= rest.len(),
    ensures
        sections_from(all, (n + i) as nat) == sections_from(rest, i),
    decreases rest.len() - i,
{
    the_same_sections_start(all, rest, n, i as int);
    if i < rest.len() {
        if starts_at(rest, i as int) {
            the_same_section_is_next(all, rest, n, i + 3);
            next_start_in_range(rest, i + 3);
            let next = next_start(rest, i + 3);
            sections_behind(all, rest, n, next);
            assert(rest[i as int] == all[n + i]);
            assert(rest[i as int + 1] == all[n + i + 1]);
            if next > i + 3 {
                assert(rest[next - 1] == all[n + next - 1]);
            }
            let end = body_end(rest, i as int + 3, next as int);
            assert(body_end(all, n + i + 3, n + next) == n + end);
            assert(rest.subrange(i as int + 3, end) =~= all.subrange(n + i + 3, n + end));
        } else {
            sections_behind(all, rest, n, i + 1);
        }
    }
}

/// The sections about a strand are those of all that name it, in order.
pub proof fn scoped_sections_are_filtered(all: Seq<TieOffSectionView>, strand_path: Seq<char>)
    ensures
        about(all, strand_path) == all.filter(
            |s: TieOffSectionView| s.strand_path == strand_path,
        ),
    decreases all.len(),
{
    reveal(Seq::filter);
    if all.len() > 0 {
        scoped_sections_are_filtered(all.drop_last(), strand_path);
    }
}

/// The last so many of a sequence are as many as there are up to that number,
/// and end where it ends.
pub proof fn the_last_ones_come_last<T>(all: Seq<T>, n: nat, i: int)
    ensures
        last_of(all, n).is_suffix_of(all),
        all.len() >= n ==> last_of(all, n).len() == n,
        all.len() < n ==> last_of(all, n) == all,
        0 <= i < last_of(all, n).len() ==> last_of(all, n)[last_of(all, n).len() - 1 - i]
            == all[all.len() - 1 - i],
{
    assert(last_of(all, n) =~= all.skip(all.len() - last_of(all, n).len()));
}

} // verus!
