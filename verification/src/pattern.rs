//! Regular expressions: what is asked of the `regex` crate, and the text that a match hands back.

use crate::error::{Fault, RegexpExtractError};
use regex::{CaptureLocations, Regex};
use vstd::prelude::*;
use vstd::string::*;
use vstd::utf8::*;

verus! {

// ---------------------------------------------------------------------------------------------
// The `regex` crate
// ---------------------------------------------------------------------------------------------
/// Declares `regex::Regex`.
#[verifier::external_type_specification]
#[verifier::external_body]
pub struct ExRegex(Regex);

/// Declares `regex::CaptureLocations`.
#[verifier::external_type_specification]
#[verifier::external_body]
pub struct ExCaptureLocations(CaptureLocations);

/// Declares `regex::Error`.
#[verifier::external_type_specification]
#[verifier::external_body]
pub struct ExRegexError(regex::Error);

/// What `Regex::new` makes of a pattern on a machine with `word_bits` bits in a `usize`.
///
/// The width counts because the limit on the size of a compiled pattern is measured in bytes of
/// memory.
pub uninterp spec fn regex_new(pattern: Seq<char>, word_bits: u32) -> Result<Regex, regex::Error>;

/// The byte range of the first match of a regular expression in a subject, if it matches.
pub uninterp spec fn regex_find(regex: Regex, subject: Seq<char>) -> Option<(usize, usize)>;

/// The byte range of each group in the first match of a regular expression in a subject, where
/// there is a match; a group that takes no part in it has none.
pub uninterp spec fn regex_spans(regex: Regex, subject: Seq<char>) -> Seq<Option<(usize, usize)>>;

/// The number of groups of a regular expression, the complete match among them.
pub uninterp spec fn regex_captures_len(regex: Regex) -> usize;

/// What a `regex::Error` displays itself as.
pub uninterp spec fn regex_error_text(error: regex::Error) -> Seq<char>;

/// The byte range that capture locations hold for each group.
pub uninterp spec fn locations_spans(locations: CaptureLocations) -> Seq<Option<(usize, usize)>>;

/// The regular expression that capture locations were made for.
pub uninterp spec fn locations_regex(locations: CaptureLocations) -> Regex;

/// Whether `span` delimits whole characters of `subject`.
pub open spec fn span_fits(subject: Seq<char>, span: (usize, usize)) -> bool {
    let bytes = encode_utf8(subject);
    &&& span.0 <= span.1 <= bytes.len()
    &&& is_char_boundary(bytes, span.0 as int)
    &&& is_char_boundary(bytes, span.1 as int)
}

/// The characters of `subject` in the byte range `span`.
pub open spec fn span_text(subject: Seq<char>, span: (usize, usize)) -> Seq<char> {
    decode_utf8(encode_utf8(subject).subrange(span.0 as int, span.1 as int))
}

/// `Regex::new`.
///
/// Trusted: the outcome is a function of the pattern and of the machine's word size.
pub assume_specification[ Regex::new ](pattern: &str) -> (r: Result<Regex, regex::Error>)
    ensures
        r == regex_new(pattern@, usize::BITS),
;

/// `Regex::captures_len`.
///
/// Trusted: the number is a property of the regular expression and counts the complete match, so
/// that it is never zero.
pub assume_specification[ Regex::captures_len ](regex: &Regex) -> (n: usize)
    ensures
        n == regex_captures_len(*regex),
        n >= 1,
;

/// `Regex::capture_locations`.
///
/// Trusted: the locations belong to this regular expression, and hold nothing yet.
pub assume_specification[ Regex::capture_locations ](regex: &Regex) -> (locations: CaptureLocations)
    ensures
        locations_regex(locations) == *regex,
        locations_spans(locations) == Seq::new(
            regex_captures_len(*regex) as nat,
            |i: int| None::<(usize, usize)>,
        ),
;

/// `CaptureLocations::get`.
///
/// Trusted: the byte range held for group `i`, and `None` past the last group.
pub assume_specification[ CaptureLocations::get ](
    locations: &CaptureLocations,
    i: usize,
) -> (r: Option<(usize, usize)>)
    ensures
        r == if i < locations_spans(*locations).len() {
            locations_spans(*locations)[i as int]
        } else {
            None
        },
;

/// Calls `Regex::find`, and `Match::as_str` on what it returns.
///
/// Trusted: the first match is a function of the regular expression and the subject, and covers
/// whole characters of the subject.
#[verifier::external_body]
pub(crate) fn find<'h>(regex: &Regex, subject: &'h str) -> (r: Option<&'h str>)
    ensures
        r is Some <==> regex_find(*regex, subject@) is Some,
        r matches Some(text) ==> {
            let span = regex_find(*regex, subject@)->0;
            &&& span_fits(subject@, span)
            &&& text@ == span_text(subject@, span)
        },
{
    regex.find(subject).map(|found| found.as_str())
}

/// Calls `Regex::captures_read`, and `Match::as_str` on what it returns.
///
/// The locations must have been made for this regular expression: with others the call may panic.
///
/// Trusted: there is a match exactly when `Regex::find` finds one, and it is the same. The locations
/// then hold the byte range of each group, group zero being the complete match, and each range
/// covers whole characters of the subject. Without a match they hold no range.
#[verifier::external_body]
pub(crate) fn captures_read<'h>(
    regex: &Regex,
    locations: &mut CaptureLocations,
    subject: &'h str,
) -> (r: Option<&'h str>)
    requires
        locations_regex(*old(locations)) == *regex,
    ensures
        locations_regex(*final(locations)) == *regex,
        r is Some <==> regex_find(*regex, subject@) is Some,
        r matches Some(text) ==> {
            let span = regex_find(*regex, subject@)->0;
            let spans = regex_spans(*regex, subject@);
            &&& text@ == span_text(subject@, span)
            &&& spans.len() == regex_captures_len(*regex) >= 1
            &&& spans[0] == Some(span)
            &&& forall|i: int|
                0 <= i < spans.len() ==> (#[trigger] spans[i] matches Some(s) ==> span_fits(
                    subject@,
                    s,
                ))
            &&& locations_spans(*final(locations)) == spans
        },
        r is None ==> locations_spans(*final(locations)) == Seq::new(
            regex_captures_len(*regex) as nat,
            |i: int| None::<(usize, usize)>,
        ),
{
    regex.captures_read(locations, subject).map(|found| found.as_str())
}

/// Calls `<regex::Error as ToString>::to_string`.
///
/// Trusted: the displayed text is a function of the error.
#[verifier::external_body]
fn error_text(error: &regex::Error) -> (r: String)
    ensures
        r@ == regex_error_text(*error),
{
    error.to_string()
}

// ---------------------------------------------------------------------------------------------
// The text of a group
// ---------------------------------------------------------------------------------------------
/// A character boundary of a text is one of each of its prefixes that reaches it.
pub(crate) proof fn lemma_boundary_of_prefix(bytes: Seq<u8>, start: int, end: int)
    requires
        valid_utf8(bytes),
        0 <= start <= end <= bytes.len(),
        is_char_boundary(bytes, start),
        is_char_boundary(bytes, end),
    ensures
        valid_utf8(bytes.subrange(0, end)),
        is_char_boundary(bytes.subrange(0, end), start),
{
    let prefix = bytes.subrange(0, end);
    valid_utf8_split(bytes, end);
    if start == end {
        is_char_boundary_start_end_of_seq(prefix);
    } else {
        is_char_boundary_iff_not_is_continuation_byte(bytes, start);
        is_char_boundary_iff_not_is_continuation_byte(prefix, start);
        assert(prefix[start] == bytes[start]);
    }
}

/// The text of a byte range has as many bytes as the range.
pub proof fn lemma_span_text_bytes(subject: Seq<char>, span: (usize, usize))
    requires
        span_fits(subject, span),
    ensures
        encode_utf8(span_text(subject, span)) == encode_utf8(subject).subrange(
            span.0 as int,
            span.1 as int,
        ),
        crate::text::byte_len(span_text(subject, span)) == span.1 - span.0,
{
    let bytes = encode_utf8(subject);
    let prefix = bytes.subrange(0, span.1 as int);
    encode_utf8_valid_utf8(subject);
    lemma_boundary_of_prefix(bytes, span.0 as int, span.1 as int);
    valid_utf8_split(prefix, span.0 as int);
    assert(prefix.subrange(span.0 as int, prefix.len() as int) =~= bytes.subrange(
        span.0 as int,
        span.1 as int,
    ));
    decode_utf8_encode_utf8(bytes.subrange(span.0 as int, span.1 as int));
}

/// The text of a group: nothing where the group takes no part in the match.
pub open spec fn optional_text(subject: Seq<char>, span: Option<(usize, usize)>) -> Seq<char> {
    match span {
        Some(span) => span_text(subject, span),
        None => Seq::empty(),
    }
}

/// Whether `text` is a contiguous piece of `subject`, possibly empty.
pub open spec fn piece_of(text: Seq<char>, subject: Seq<char>) -> bool {
    text == Seq::<char>::empty() || exists|span: (usize, usize)| #[trigger]
        span_fits(subject, span) && text == span_text(subject, span)
}

/// A piece of a text has no more bytes than the text.
pub proof fn lemma_piece_bytes(text: Seq<char>, subject: Seq<char>)
    requires
        piece_of(text, subject),
    ensures
        crate::text::byte_len(text) <= crate::text::byte_len(subject),
{
    if text != Seq::<char>::empty() {
        let span = choose|span: (usize, usize)| #[trigger]
            span_fits(subject, span) && text == span_text(subject, span);
        lemma_span_text_bytes(subject, span);
    }
}

/// The part of `subject` in the byte range `span`, and the empty string without one.
pub fn group_text<'h>(subject: &'h str, span: Option<(usize, usize)>) -> (r: &'h str)
    requires
        span matches Some(s) ==> span_fits(subject@, s),
    ensures
        r@ == optional_text(subject@, span),
        piece_of(r@, subject@),
{
    match span {
        Some((start, end)) => {
            proof {
                encode_utf8_valid_utf8(subject@);
                lemma_boundary_of_prefix(encode_utf8(subject@), start as int, end as int);
            }
            let head = subject.split_at(end).0;
            let r = head.split_at(start).1;
            proof {
                assert(r.spec_bytes() =~= encode_utf8(subject@).subrange(start as int, end as int));
                encode_utf8_decode_utf8(r@);
            }
            r
        },
        None => {
            proof {
                reveal_strlit("");
                assert(""@ =~= Seq::<char>::empty());
            }
            ""
        },
    }
}

/// The complete match, and the empty string without one.
pub fn whole_match_text<'h>(found: Option<&'h str>) -> (r: &'h str)
    ensures
        r@ == match found {
            Some(text) => text@,
            None => Seq::empty(),
        },
{
    match found {
        Some(text) => text,
        None => {
            proof {
                reveal_strlit("");
                assert(""@ =~= Seq::<char>::empty());
            }
            ""
        },
    }
}

/// Whether a pattern with `group_count` groups has the group `index`, zero being the complete match.
pub open spec fn group_exists(index: i32, group_count: nat) -> bool {
    0 <= index <= group_count
}

/// Turns a group index into a position among the groups of a match.
pub fn validate_group_index(group_index: i32, group_count: usize) -> (r: Result<
    usize,
    RegexpExtractError,
>)
    ensures
        match r {
            Ok(position) => group_exists(group_index, group_count as nat) && position
                == group_index,
            Err(e) => !group_exists(group_index, group_count as nat) && e@
                == (Fault::InvalidGroupIndex {
                index: group_index,
                group_count: group_count as nat,
            }),
        },
{
    if group_index < 0 || group_index as usize > group_count {
        return Err(RegexpExtractError::InvalidGroupIndex { index: group_index, group_count });
    }
    Ok(group_index as usize)
}

/// The group to read after a search: none without a match, whatever the index, and else the group
/// `idx` of a pattern with `captures_len` groups, the complete match among them.
pub fn select_group(matched: bool, idx: i32, captures_len: usize) -> (r: Result<
    Option<usize>,
    RegexpExtractError,
>)
    requires
        captures_len >= 1,
    ensures
        match r {
            Ok(None) => !matched,
            Ok(Some(position)) => matched && group_exists(idx, (captures_len - 1) as nat)
                && position == idx,
            Err(e) => matched && !group_exists(idx, (captures_len - 1) as nat) && e@
                == (Fault::InvalidGroupIndex {
                index: idx,
                group_count: (captures_len - 1) as nat,
            }),
        },
{
    if !matched {
        return Ok(None);
    }
    match validate_group_index(idx, captures_len - 1) {
        Ok(position) => Ok(Some(position)),
        Err(e) => Err(e),
    }
}

/// Takes what compiling `pattern` gave, and describes a refusal.
pub fn accept_pattern(pattern: &str, compiled: Result<Regex, regex::Error>) -> (r: Result<
    Regex,
    RegexpExtractError,
>)
    ensures
        match (compiled, r) {
            (Ok(regex), Ok(accepted)) => accepted == regex,
            (Err(error), Err(e)) => e@ == (Fault::InvalidPattern {
                pattern: pattern@,
                error: regex_error_text(error),
            }),
            _ => false,
        },
{
    match compiled {
        Ok(regex) => Ok(regex),
        Err(error) => Err(
            RegexpExtractError::InvalidPattern {
                pattern: pattern.to_owned(),
                error: error_text(&error),
            },
        ),
    }
}

// ---------------------------------------------------------------------------------------------
// Extraction from one subject
// ---------------------------------------------------------------------------------------------
/// What group `idx` gives, for a pattern with `captures_len` groups whose first match in `subject`
/// is `found`, with the byte ranges `spans`.
///
/// Group zero is the complete match. Without a match the text is empty whatever the index; with one
/// the group has to exist, and is empty where it takes no part in the match.
pub open spec fn matched_text(
    subject: Seq<char>,
    idx: i32,
    captures_len: usize,
    found: Option<(usize, usize)>,
    spans: Seq<Option<(usize, usize)>>,
) -> Result<Seq<char>, Fault> {
    if idx == 0 {
        Ok(optional_text(subject, found))
    } else if found is None {
        Ok(Seq::empty())
    } else if group_exists(idx, (captures_len - 1) as nat) {
        Ok(optional_text(subject, spans[idx as int]))
    } else {
        Err(Fault::InvalidGroupIndex { index: idx, group_count: (captures_len - 1) as nat })
    }
}

/// What a pattern compiles to on this machine.
pub open spec fn compiled(pattern: Seq<char>) -> Result<Regex, regex::Error> {
    regex_new(pattern, usize::BITS)
}

/// What group `idx` of the first match of `pattern` in `subject` gives.
pub open spec fn extraction(subject: Seq<char>, pattern: Seq<char>, idx: i32) -> Result<
    Seq<char>,
    Fault,
> {
    match compiled(pattern) {
        Err(error) => Err(Fault::InvalidPattern { pattern, error: regex_error_text(error) }),
        Ok(regex) => matched_text(
            subject,
            idx,
            regex_captures_len(regex),
            regex_find(regex, subject),
            regex_spans(regex, subject),
        ),
    }
}

/// A pattern, its compiled form, and room for the groups of a match.
pub(crate) struct CompiledPattern<'a> {
    pattern: &'a str,
    regex: Regex,
    locations: CaptureLocations,
}

impl<'a> CompiledPattern<'a> {
    pub(crate) closed spec fn wf(&self) -> bool {
        &&& compiled(self.pattern@) == Ok::<Regex, regex::Error>(self.regex)
        &&& locations_regex(self.locations) == self.regex
    }

    /// Extracts group `idx` of the first match in `subject`.
    fn extract<'h>(&mut self, subject: &'h str, idx: i32) -> (r: Result<&'h str, RegexpExtractError>)
        requires
            old(self).wf(),
        ensures
            final(self).wf(),
            final(self).pattern == old(self).pattern,
            final(self).regex == old(self).regex,
            match r {
                Ok(text) => extraction(subject@, old(self).pattern@, idx) == Ok::<Seq<char>, Fault>(
                    text@,
                ) && piece_of(text@, subject@),
                Err(e) => extraction(subject@, old(self).pattern@, idx) == Err::<Seq<char>, Fault>(
                    e@,
                ),
            },
    {
        if idx == 0 {
            let found = find(&self.regex, subject);
            return Ok(whole_match_text(found));
        }
        let matched = captures_read(&self.regex, &mut self.locations, subject).is_some();
        match select_group(matched, idx, self.regex.captures_len()) {
            Ok(Some(position)) => Ok(group_text(subject, self.locations.get(position))),
            Ok(None) => Ok(whole_match_text(None)),
            Err(e) => Err(e),
        }
    }
}

/// The pattern compiled last, which serves for as long as the pattern stays the same.
pub(crate) struct PatternCache<'a> {
    last: Option<CompiledPattern<'a>>,
}

impl<'a> PatternCache<'a> {
    pub(crate) closed spec fn wf(&self) -> bool {
        self.last matches Some(compiled) ==> compiled.wf()
    }

    /// A cache that holds no pattern.
    pub(crate) fn new() -> (r: Self)
        ensures
            r.wf(),
            r.held() is None,
    {
        PatternCache { last: None }
    }

    /// The pattern compiled last, with its compiled form.
    pub(crate) closed spec fn held(&self) -> Option<(Seq<char>, Regex)> {
        match self.last {
            Some(compiled) => Some((compiled.pattern@, compiled.regex)),
            None => None,
        }
    }

    /// Whether the pattern compiled last is `pattern`.
    pub(crate) open(crate) spec fn holds(&self, pattern: Seq<char>) -> bool {
        self.held() matches Some((held, _)) && held == pattern
    }

    /// Compiles `pattern`, unless it is the one compiled last.
    fn prepare(&mut self, pattern: &'a str) -> (r: Result<(), RegexpExtractError>)
        requires
            old(self).wf(),
        ensures
            final(self).wf(),
            old(self).holds(pattern@) ==> r is Ok && *final(self) == *old(self),
            match r {
                Ok(()) => final(self).holds(pattern@),
                Err(e) => *final(self) == *old(self) && compiled(pattern@) is Err && e@
                    == (Fault::InvalidPattern {
                    pattern: pattern@,
                    error: regex_error_text(compiled(pattern@)->Err_0),
                }),
            },
    {
        if let Some(compiled) = &self.last {
            if *compiled.pattern == *pattern {
                return Ok(());
            }
        }
        match accept_pattern(pattern, Regex::new(pattern)) {
            Ok(regex) => {
                let locations = regex.capture_locations();
                self.last = Some(CompiledPattern { pattern, regex, locations });
                Ok(())
            },
            Err(e) => Err(e),
        }
    }

    /// Extracts group `idx` of the first match of `pattern` in `subject`.
    ///
    /// What comes out does not depend on what the cache held. A pattern that the cache holds stays as
    /// it was compiled; another one that compiles takes its place, and one that does not leaves it.
    pub(crate) fn extract<'h>(&mut self, subject: &'h str, pattern: &'a str, idx: i32) -> (r: Result<
        &'h str,
        RegexpExtractError,
    >)
        requires
            old(self).wf(),
        ensures
            final(self).wf(),
            old(self).holds(pattern@) ==> final(self).held() == old(self).held(),
            compiled(pattern@) is Ok ==> final(self).holds(pattern@),
            compiled(pattern@) is Err ==> final(self).held() == old(self).held(),
            r is Ok ==> final(self).holds(pattern@),
            match r {
                Ok(text) => extraction(subject@, pattern@, idx) == Ok::<Seq<char>, Fault>(text@)
                    && piece_of(text@, subject@),
                Err(e) => extraction(subject@, pattern@, idx) == Err::<Seq<char>, Fault>(e@),
            },
    {
        match self.prepare(pattern) {
            Ok(()) => {},
            Err(e) => return Err(e),
        }
        match &mut self.last {
            Some(compiled) => compiled.extract(subject, idx),
            None => vstd::pervasive::unreached(),
        }
    }
}

} // verus!
