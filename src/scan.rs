use vstd::prelude::*;

use crate::classify::{
    has_compliance_keyword, has_marker_keyword, skip_lowered_name, skip_name, tag_in_lowered, tag_of,
    unmatched_line_has_no_tag, Tag,
};
use crate::text::{
    chars_of, lines_of, lower_of, lowercase, split_lines, string_of, trim, trim_chars, views,
};

verus! {

/// Deepest directory level below the root that a scan enters.
pub const MAX_DEPTH: usize = 3;

/// One entry met while walking the tree, with the text of the file when it could be read.
pub struct SourceFile {
    pub path: String,
    pub name: String,
    /// Levels below the root (the root itself is level 0).
    pub depth: usize,
    pub is_file: bool,
    /// `None` when the file could not be read as text.
    pub content: Option<String>,
}

/// (path, name, depth, is_file, content)
pub type SourceModel = (Seq<char>, Seq<char>, nat, bool, Option<Seq<char>>);

impl View for SourceFile {
    type V = SourceModel;

    open spec fn view(&self) -> SourceModel {
        (
            self.path@,
            self.name@,
            self.depth as nat,
            self.is_file,
            match self.content {
                Some(c) => Some(c@),
                None => None,
            },
        )
    }
}

/// One classified line.
pub struct Finding {
    /// Position in the scan, counted from 1.
    pub id: usize,
    pub file_path: String,
    /// Line number in the file, counted from 1.
    pub line_number: usize,
    pub tag: Tag,
    /// The line with white space trimmed from both ends.
    pub text: String,
}

/// (path, line number, tag, trimmed text)
pub type Hit = (Seq<char>, nat, Tag, Seq<char>);

impl Finding {
    /// The finding without its id.
    pub open spec fn hit(&self) -> Hit {
        (self.file_path@, self.line_number as nat, self.tag, self.text@)
    }
}

struct Match {
    file_path: String,
    line_number: usize,
    tag: Tag,
    text: String,
}

impl Match {
    spec fn hit(&self) -> Hit {
        (self.file_path@, self.line_number as nat, self.tag, self.text@)
    }
}

spec fn match_hits(v: Seq<Match>) -> Seq<Hit> {
    v.map_values(|m: Match| m.hit())
}

/// The hits of the lines of one file, in line order.
pub open spec fn line_hits(path: Seq<char>, lines: Seq<Seq<char>>) -> Seq<Hit>
    decreases lines.len(),
{
    if lines.len() == 0 {
        seq![]
    } else {
        let prev = line_hits(path, lines.drop_last());
        let t = trim(lines.last());
        match tag_of(lower_of(t)) {
            Some(g) => prev.push((path, lines.len(), g, t)),
            None => prev,
        }
    }
}

/// Whether the lines of an entry are classified at all.
pub open spec fn is_scanned(f: SourceModel, max_depth: nat) -> bool {
    f.3 && f.2 <= max_depth && !skip_name(lower_of(f.1)) && f.4 is Some
}

/// The hits that one entry contributes.
pub open spec fn file_hits(f: SourceModel, max_depth: nat) -> Seq<Hit> {
    if is_scanned(f, max_depth) {
        line_hits(f.0, lines_of(f.4->0))
    } else {
        seq![]
    }
}

/// The hits of a whole walk: each entry's hits, in the order the entries came.
pub open spec fn scan_hits(files: Seq<SourceModel>, max_depth: nat) -> Seq<Hit>
    decreases files.len(),
{
    if files.len() == 0 {
        seq![]
    } else {
        scan_hits(files.drop_last(), max_depth) + file_hits(files.last(), max_depth)
    }
}

pub open spec fn source_models(files: Seq<SourceFile>) -> Seq<SourceModel> {
    files.map_values(|f: SourceFile| f@)
}

/// `r` holds the hits in order, numbered from 1.
pub open spec fn numbered(r: Seq<Finding>, hits: Seq<Hit>) -> bool {
    r.len() == hits.len() && forall|k: int|
        0 <= k < r.len() ==> (#[trigger] r[k]).id == k + 1 && r[k].hit() == hits[k]
}

fn tag_of_trimmed(t: &Vec<char>) -> (r: Option<Tag>)
    ensures
        r == tag_of(lower_of(t@)),
{
    let s = string_of(t);
    let lower = lowercase(s.as_str());
    tag_in_lowered(&chars_of(lower.as_str()))
}

fn scan_lines(path: &String, lines: &Vec<Vec<char>>, out: &mut Vec<Match>)
    ensures
        match_hits(final(out)@) == match_hits(old(out)@) + line_hits(path@, views(lines@)),
{
    let ghost start = match_hits(out@);
    let mut i: usize = 0;
    while i < lines.len()
        invariant
            i <= lines@.len(),
            match_hits(out@) == start + line_hits(path@, views(lines@).take(i as int)),
        decreases lines@.len() - i,
    {
        let ghost before = out@;
        let t = trim_chars(&lines[i]);
        assert(views(lines@).take(i + 1).drop_last() =~= views(lines@).take(i as int));
        assert(views(lines@).take(i + 1).last() == lines@[i as int]@);
        match tag_of_trimmed(&t) {
            Some(g) => {
                out.push(Match { file_path: path.clone(), line_number: i + 1, tag: g, text: string_of(&t) });
                assert(match_hits(out@) =~= match_hits(before).push(out@.last().hit()));
            },
            None => {},
        }
        i = i + 1;
    }
    assert(views(lines@).take(i as int) =~= views(lines@));
}

fn scan_entry(f: &SourceFile, max_depth: usize, out: &mut Vec<Match>)
    ensures
        match_hits(final(out)@) == match_hits(old(out)@) + file_hits(f@, max_depth as nat),
{
    if !f.is_file || f.depth > max_depth {
        assert(match_hits(out@) =~= match_hits(out@) + file_hits(f@, max_depth as nat));
        return;
    }
    let lower = lowercase(f.name.as_str());
    if skip_lowered_name(&chars_of(lower.as_str())) {
        assert(match_hits(out@) =~= match_hits(out@) + file_hits(f@, max_depth as nat));
        return;
    }
    match &f.content {
        Some(c) => {
            let lines = split_lines(&chars_of(c.as_str()));
            scan_lines(&f.path, &lines, out);
        },
        None => {
            assert(match_hits(out@) =~= match_hits(out@) + file_hits(f@, max_depth as nat));
        },
    }
}

/// Classifies every line of the scanned entries and numbers the findings from 1
/// in the order they were met.
pub fn scan_files(files: &Vec<SourceFile>, max_depth: usize) -> (r: Vec<Finding>)
    ensures
        numbered(r@, scan_hits(source_models(files@), max_depth as nat)),
{
    let mut found: Vec<Match> = Vec::new();
    let mut i: usize = 0;
    while i < files.len()
        invariant
            i <= files@.len(),
            match_hits(found@) == scan_hits(source_models(files@).take(i as int), max_depth as nat),
        decreases files@.len() - i,
    {
        assert(source_models(files@).take(i + 1).drop_last() =~= source_models(files@).take(
            i as int,
        ));
        assert(source_models(files@).take(i + 1).last() == files@[i as int]@);
        scan_entry(&files[i], max_depth, &mut found);
        i = i + 1;
    }
    assert(source_models(files@).take(i as int) =~= source_models(files@));
    let ghost all = match_hits(found@);
    let mut r: Vec<Finding> = Vec::new();
    let mut k: usize = 0;
    while k < found.len()
        invariant
            k <= found@.len(),
            all == match_hits(found@),
            all == scan_hits(source_models(files@), max_depth as nat),
            r@.len() == k,
            forall|j: int| 0 <= j < k ==> (#[trigger] r@[j]).id == j + 1 && r@[j].hit() == all[j],
        decreases found@.len() - k,
    {
        let m = &found[k];
        assert(all[k as int] == m.hit());
        r.push(
            Finding {
                id: k + 1,
                file_path: m.file_path.clone(),
                line_number: m.line_number,
                tag: m.tag,
                text: m.text.clone(),
            },
        );
        assert(r@[k as int].hit() == all[k as int]);
        k = k + 1;
    }
    r
}

proof fn lemma_line_hits_classified(path: Seq<char>, lines: Seq<Seq<char>>)
    ensures
        forall|k: int|
            0 <= k < line_hits(path, lines).len() ==> tag_of(lower_of(#[trigger] line_hits(path, lines)[k].3))
                == Some(line_hits(path, lines)[k].2),
    decreases lines.len(),
{
    if lines.len() > 0 {
        lemma_line_hits_classified(path, lines.drop_last());
    }
}

proof fn lemma_scan_hits_classified(files: Seq<SourceModel>, max_depth: nat)
    ensures
        forall|k: int|
            0 <= k < scan_hits(files, max_depth).len() ==> tag_of(
                lower_of(#[trigger] scan_hits(files, max_depth)[k].3),
            ) == Some(scan_hits(files, max_depth)[k].2),
    decreases files.len(),
{
    if files.len() > 0 {
        let prev = scan_hits(files.drop_last(), max_depth);
        let last = file_hits(files.last(), max_depth);
        lemma_scan_hits_classified(files.drop_last(), max_depth);
        if is_scanned(files.last(), max_depth) {
            lemma_line_hits_classified(files.last().0, lines_of(files.last().4->0));
        }
        assert forall|k: int| 0 <= k < scan_hits(files, max_depth).len() implies tag_of(
            lower_of(#[trigger] scan_hits(files, max_depth)[k].3),
        ) == Some(scan_hits(files, max_depth)[k].2) by {
            if k < prev.len() {
                assert(scan_hits(files, max_depth)[k] == prev[k]);
            } else {
                assert(scan_hits(files, max_depth)[k] == last[k - prev.len()]);
            }
        }
    }
}

/// Every finding of a scan is a line whose lower-cased, trimmed text holds a
/// keyword of one of the two tables, and its tag is the one the classifier
/// gives that text: a line that matches nothing yields no finding.
pub proof fn unmatched_lines_give_no_findings(files: Seq<SourceModel>, max_depth: nat)
    ensures
        forall|k: int|
            0 <= k < scan_hits(files, max_depth).len() ==> {
                let h = #[trigger] scan_hits(files, max_depth)[k];
                &&& tag_of(lower_of(h.3)) == Some(h.2)
                &&& has_compliance_keyword(lower_of(h.3)) || has_marker_keyword(lower_of(h.3))
            },
{
    lemma_scan_hits_classified(files, max_depth);
    assert forall|k: int| 0 <= k < scan_hits(files, max_depth).len() implies has_compliance_keyword(
        lower_of(#[trigger] scan_hits(files, max_depth)[k].3),
    ) || has_marker_keyword(lower_of(scan_hits(files, max_depth)[k].3)) by {
        let l = lower_of(scan_hits(files, max_depth)[k].3);
        if !has_compliance_keyword(l) && !has_marker_keyword(l) {
            unmatched_line_has_no_tag(l);
        }
    }
}

/// A file whose lower-cased name ends in an excluded extension or holds an
/// excluded word contributes no finding, whatever it holds.
pub proof fn skipped_names_give_no_findings(f: SourceModel, max_depth: nat)
    requires
        skip_name(lower_of(f.1)),
    ensures
        file_hits(f, max_depth) == Seq::<Hit>::empty(),
{
}

/// An entry deeper than the depth bound contributes no finding.
pub proof fn deep_entries_give_no_findings(f: SourceModel, max_depth: nat)
    requires
        f.2 > max_depth,
    ensures
        file_hits(f, max_depth) == Seq::<Hit>::empty(),
{
}

/// Two scans of the same entries give the same findings: equal ids, paths,
/// line numbers, tags and trimmed texts.
pub proof fn rescan_gives_same_findings(
    first: Seq<Finding>,
    second: Seq<Finding>,
    files: Seq<SourceModel>,
    max_depth: nat,
)
    requires
        numbered(first, scan_hits(files, max_depth)),
        numbered(second, scan_hits(files, max_depth)),
    ensures
        first.len() == second.len(),
        forall|k: int|
            0 <= k < first.len() ==> (#[trigger] first[k]).id == second[k].id && first[k].hit()
                == second[k].hit(),
{
    assert forall|k: int| 0 <= k < first.len() implies first[k].id == second[k].id
        && (#[trigger] first[k]).hit() == second[k].hit() by {
        assert(first[k].id == k + 1);
        assert(second[k].id == k + 1);
    }
}

} // verus!
