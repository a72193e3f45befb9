use vstd::prelude::*;

use crate::text::{chars_of, contains_chars, ends_with_chars, has_sub, has_suffix, lower_of, lowercase};

verus! {

/// The category of a matched line.
#[derive(Clone, Copy, Debug, PartialEq, Eq, Structural)]
pub enum Tag {
    Ssn,
    PatientId,
    Phi,
    Dob,
    Fixme,
    Todo,
    Xxx,
    Hack,
}

/// How urgently a tag asks for attention.
#[derive(Clone, Copy, Debug, PartialEq, Eq, Structural)]
pub enum Severity {
    Critical,
    Warning,
    Marker,
}

impl Tag {
    pub open spec fn spec_is_compliance(self) -> bool {
        self is Ssn || self is PatientId || self is Phi || self is Dob
    }

    pub open spec fn spec_severity(self) -> Severity {
        match self {
            Tag::Ssn | Tag::PatientId => Severity::Critical,
            Tag::Phi | Tag::Dob => Severity::Warning,
            _ => Severity::Marker,
        }
    }

    /// Whether the tag marks regulated personal or health data.
    pub fn is_compliance(&self) -> (r: bool)
        ensures
            r == self.spec_is_compliance(),
    {
        match self {
            Tag::Ssn | Tag::PatientId | Tag::Phi | Tag::Dob => true,
            _ => false,
        }
    }

    /// Critical for SSN and patient ids, warning for PHI and dates of birth.
    pub fn severity(&self) -> (r: Severity)
        ensures
            r == self.spec_severity(),
    {
        match self {
            Tag::Ssn | Tag::PatientId => Severity::Critical,
            Tag::Phi | Tag::Dob => Severity::Warning,
            _ => Severity::Marker,
        }
    }
}

/// The compliance tag of a lower-cased line; the first rule that matches wins.
pub open spec fn risk_of(l: Seq<char>) -> Option<Tag> {
    if has_sub(l, seq!['s', 's', 'n']) || has_sub(l, seq!['s', 'o', 'c', 'i', 'a', 'l', ' ', 's', 'e', 'c', 'u', 'r', 'i', 't', 'y']) {
        Some(Tag::Ssn)
    } else if has_sub(l, seq!['p', 'a', 't', 'i', 'e', 'n', 't', '_', 'i', 'd']) || has_sub(l, seq!['p', 'a', 't', 'i', 'e', 'n', 't', ' ', 'i', 'd']) || has_sub(l, seq!['m', 'r', 'n']) {
        Some(Tag::PatientId)
    } else if has_sub(l, seq!['p', 'h', 'i']) || has_sub(l, seq!['p', 'r', 'o', 't', 'e', 'c', 't', 'e', 'd', ' ', 'h', 'e', 'a', 'l', 't', 'h']) {
        Some(Tag::Phi)
    } else if has_sub(l, seq!['d', 'o', 'b']) || has_sub(l, seq!['d', 'a', 't', 'e', ' ', 'o', 'f', ' ', 'b', 'i', 'r', 't', 'h']) {
        Some(Tag::Dob)
    } else {
        None
    }
}

/// The review-marker tag of a lower-cased line; the first rule that matches wins.
pub open spec fn marker_of(l: Seq<char>) -> Option<Tag> {
    if has_sub(l, seq!['f', 'i', 'x', 'm', 'e']) {
        Some(Tag::Fixme)
    } else if has_sub(l, seq!['t', 'o', 'd', 'o']) {
        Some(Tag::Todo)
    } else if has_sub(l, seq!['x', 'x', 'x']) {
        Some(Tag::Xxx)
    } else if has_sub(l, seq!['h', 'a', 'c', 'k']) {
        Some(Tag::Hack)
    } else {
        None
    }
}

/// The tag of a lower-cased line: compliance rules first, markers only when none matches.
pub open spec fn tag_of(l: Seq<char>) -> Option<Tag> {
    match risk_of(l) {
        Some(t) => Some(t),
        None => marker_of(l),
    }
}

/// Whether a lower-cased file name marks a file that is not scanned.
pub open spec fn skip_name(l: Seq<char>) -> bool {
    has_suffix(l, seq!['.', 'p', 'n', 'g']) || has_suffix(l, seq!['.', 'j', 'p', 'g']) || has_suffix(l, seq!['.', 'p', 'd', 'f']) || has_suffix(l, seq!['.', 'z', 'i', 'p']) || has_sub(l, seq!['t', 'a', 'r', 'g', 'e', 't']) || has_sub(l, seq!['n', 'o', 'd', 'e', '_', 'm', 'o', 'd', 'u', 'l', 'e', 's'])
}

fn has(lower: &Vec<char>, keyword: Vec<char>) -> (r: bool)
    ensures
        r == has_sub(lower@, keyword@),
{
    contains_chars(lower, &keyword)
}

/// The compliance tag of an already lower-cased line.
pub fn risk_in_lowered(lower: &Vec<char>) -> (r: Option<Tag>)
    ensures
        r == risk_of(lower@),
{
    if has(lower, vec!['s', 's', 'n']) || has(lower, vec!['s', 'o', 'c', 'i', 'a', 'l', ' ', 's', 'e', 'c', 'u', 'r', 'i', 't', 'y']) {
        Some(Tag::Ssn)
    } else if has(lower, vec!['p', 'a', 't', 'i', 'e', 'n', 't', '_', 'i', 'd']) || has(lower, vec!['p', 'a', 't', 'i', 'e', 'n', 't', ' ', 'i', 'd']) || has(lower, vec!['m', 'r', 'n']) {
        Some(Tag::PatientId)
    } else if has(lower, vec!['p', 'h', 'i']) || has(lower, vec!['p', 'r', 'o', 't', 'e', 'c', 't', 'e', 'd', ' ', 'h', 'e', 'a', 'l', 't', 'h']) {
        Some(Tag::Phi)
    } else if has(lower, vec!['d', 'o', 'b']) || has(lower, vec!['d', 'a', 't', 'e', ' ', 'o', 'f', ' ', 'b', 'i', 'r', 't', 'h']) {
        Some(Tag::Dob)
    } else {
        None
    }
}

/// The review-marker tag of an already lower-cased line.
pub fn marker_in_lowered(lower: &Vec<char>) -> (r: Option<Tag>)
    ensures
        r == marker_of(lower@),
{
    if has(lower, vec!['f', 'i', 'x', 'm', 'e']) {
        Some(Tag::Fixme)
    } else if has(lower, vec!['t', 'o', 'd', 'o']) {
        Some(Tag::Todo)
    } else if has(lower, vec!['x', 'x', 'x']) {
        Some(Tag::Xxx)
    } else if has(lower, vec!['h', 'a', 'c', 'k']) {
        Some(Tag::Hack)
    } else {
        None
    }
}

/// The tag of an already lower-cased line.
pub fn tag_in_lowered(lower: &Vec<char>) -> (r: Option<Tag>)
    ensures
        r == tag_of(lower@),
{
    match risk_in_lowered(lower) {
        Some(t) => Some(t),
        None => marker_in_lowered(lower),
    }
}

/// Whether an already lower-cased file name is excluded from scanning.
pub fn skip_lowered_name(lower: &Vec<char>) -> (r: bool)
    ensures
        r == skip_name(lower@),
{
    ends_with_chars(lower, &vec!['.', 'p', 'n', 'g']) || ends_with_chars(lower, &vec!['.', 'j', 'p', 'g']) || ends_with_chars(lower, &vec!['.', 'p', 'd', 'f']) || ends_with_chars(lower, &vec!['.', 'z', 'i', 'p']) || has(lower, vec!['t', 'a', 'r', 'g', 'e', 't']) || has(lower, vec!['n', 'o', 'd', 'e', '_', 'm', 'o', 'd', 'u', 'l', 'e', 's'])
}

fn lowered_chars(s: &str) -> (r: Vec<char>)
    ensures
        r@ == lower_of(s@),
{
    let lower = lowercase(s);
    chars_of(lower.as_str())
}

/// The compliance tag of a line, matched without regard to case.
pub fn detect_healthcare_risk(line: &str) -> (r: Option<Tag>)
    ensures
        r == risk_of(lower_of(line@)),
{
    risk_in_lowered(&lowered_chars(line))
}

/// The review-marker tag of a line, matched without regard to case.
pub fn detect_todo(line: &str) -> (r: Option<Tag>)
    ensures
        r == marker_of(lower_of(line@)),
{
    marker_in_lowered(&lowered_chars(line))
}

/// The tag of a line, matched without regard to case.
pub fn classify(line: &str) -> (r: Option<Tag>)
    ensures
        r == tag_of(lower_of(line@)),
{
    tag_in_lowered(&lowered_chars(line))
}

/// Whether a file of this name is left out of a scan (binary formats and build output).
pub fn should_skip_file(filename: &str) -> (r: bool)
    ensures
        r == skip_name(lower_of(filename@)),
{
    skip_lowered_name(&lowered_chars(filename))
}

/// Whether a lower-cased line holds any keyword of the compliance table.
pub open spec fn has_compliance_keyword(l: Seq<char>) -> bool {
    has_sub(l, seq!['s', 's', 'n']) || has_sub(l, seq!['s', 'o', 'c', 'i', 'a', 'l', ' ', 's', 'e', 'c', 'u', 'r', 'i', 't', 'y']) || has_sub(l, seq!['p', 'a', 't', 'i', 'e', 'n', 't', '_', 'i', 'd']) || has_sub(l, seq!['p', 'a', 't', 'i', 'e', 'n', 't', ' ', 'i', 'd']) || has_sub(l, seq!['m', 'r', 'n']) || has_sub(l, seq!['p', 'h', 'i']) || has_sub(l, seq!['p', 'r', 'o', 't', 'e', 'c', 't', 'e', 'd', ' ', 'h', 'e', 'a', 'l', 't', 'h']) || has_sub(l, seq!['d', 'o', 'b']) || has_sub(l, seq!['d', 'a', 't', 'e', ' ', 'o', 'f', ' ', 'b', 'i', 'r', 't', 'h'])
}

/// Whether a lower-cased line holds any keyword of the review-marker table.
pub open spec fn has_marker_keyword(l: Seq<char>) -> bool {
    has_sub(l, seq!['f', 'i', 'x', 'm', 'e']) || has_sub(l, seq!['t', 'o', 'd', 'o']) || has_sub(l, seq!['x', 'x', 'x']) || has_sub(l, seq!['h', 'a', 'c', 'k'])
}

/// A line that holds a compliance keyword and a review marker at once is
/// given a compliance tag, never a marker tag.
pub proof fn compliance_outranks_markers(l: Seq<char>)
    requires
        has_compliance_keyword(l),
        has_marker_keyword(l),
    ensures
        tag_of(l) is Some,
        tag_of(l)->0.spec_is_compliance(),
        tag_of(l) == risk_of(l),
{
}

/// A line that holds no keyword of either table gets no tag.
pub proof fn unmatched_line_has_no_tag(l: Seq<char>)
    requires
        !has_compliance_keyword(l),
        !has_marker_keyword(l),
    ensures
        tag_of(l) is None,
{
}

} // verus!
