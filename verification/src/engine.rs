//! Locating image tags with a regular expression, and checking what the
//! expression engine reports.
//!
//! The search is the `regex` crate's. Nothing is assumed of what it finds:
//! each reported match is tested against what an image tag is, and only
//! matches that pass are used.

use crate::annotation::{resume_at, well_formed};
use crate::image_tag::{is_image_tag, lemma_image_tag_bounds, locates_image_tag, RewriteMatch};
use vstd::prelude::*;

verus! {

/// The expression that locates an escaped image tag with an `alt`
/// attribute: as little as possible before the attribute, inside its value
/// and after it.
pub const IMAGE_PATTERN: &'static str = "(&lt;img.*? alt=\"(?<alt>.*?)\".*?&gt;)";

/// The name of the group that holds the alt text in `IMAGE_PATTERN`.
pub const ALT_GROUP: &'static str = "alt";

/// What the expression engine reports of one match: the byte offsets of
/// the whole match and of the group that holds the alt text, each as far
/// as it took part in the match.
pub type Capture = (Option<(usize, usize)>, Option<(usize, usize)>);

/// What the regular expression engine finds: for the expression
/// `pattern`, the captures of its successive matches in `haystack`, in
/// their order, each with the offsets of the whole match and of the group
/// called `group`; nothing where `pattern` is no expression.
pub uninterp spec fn captures_of(pattern: Seq<char>, group: Seq<char>, haystack: Seq<char>)
    -> Option<Seq<Capture>>;

/// What was found, as a sequence.
pub open spec fn reported(found: Option<Vec<Capture>>) -> Option<Seq<Capture>> {
    match found {
        Some(captures) => Some(captures@),
        None => None,
    }
}

/// `regex::Regex::new` on `pattern`, and `Regex::captures_iter` on
/// `haystack`: of each match, the start and end of `Captures::get(0)` and
/// of `Captures::name(group)`. Nothing is claimed of what is found but
/// that the same arguments always give the same result.
#[verifier::external_body]
fn find_captures(pattern: &str, group: &str, haystack: &str) -> (found: Option<Vec<Capture>>)
    ensures
        reported(found) == captures_of(pattern@, group@, haystack@),
{
    let expression = regex::Regex::new(pattern).ok()?;
    let spans = expression.captures_iter(haystack).map(
        |c| (c.get(0).map(|m| (m.start(), m.end())), c.name(group).map(|m| (m.start(), m.end()))),
    );
    Some(spans.collect())
}

/// Searches a text for image tags: what the expression engine finds for
/// `IMAGE_PATTERN` in it.
pub fn find_image_tags(text: &str) -> (found: Option<Vec<Capture>>)
    ensures
        reported(found) == captures_of(IMAGE_PATTERN@, ALT_GROUP@, text@),
{
    find_captures(IMAGE_PATTERN, ALT_GROUP, text)
}

/// The match that a capture stands for, where both of its parts are there.
pub open spec fn match_of(capture: Capture) -> Option<RewriteMatch> {
    match capture {
        (Some(tag), Some(alt)) => Some(
            RewriteMatch { tag_start: tag.0, tag_end: tag.1, alt_start: alt.0, alt_end: alt.1 },
        ),
        _ => None,
    }
}

/// The matches that the given captures stand for.
pub open spec fn matches_of(captures: Seq<Capture>) -> Seq<RewriteMatch> {
    Seq::new(captures.len(), |i: int| match_of(captures[i]).unwrap())
}

/// The captures are complete, each locates an image tag of `text`, and the
/// tags follow one another without overlap.
pub open spec fn accepted(text: Seq<u8>, captures: Seq<Capture>) -> bool {
    &&& forall|i: int| 0 <= i < captures.len() ==> match_of(#[trigger] captures[i]) is Some
    &&& well_formed(text, matches_of(captures))
}

/// What holds of each capture among accepted ones.
pub proof fn lemma_accepted_at(text: Seq<u8>, captures: Seq<Capture>, i: int)
    requires
        accepted(text, captures),
        0 <= i < captures.len(),
    ensures
        match_of(captures[i]) is Some,
        is_image_tag(text, match_of(captures[i]).unwrap()),
        resume_at(matches_of(captures.take(i))) <= match_of(captures[i]).unwrap().tag_start,
{
    let all = matches_of(captures);
    assert(all[i] == match_of(captures[i]).unwrap());
    if i > 0 {
        assert(matches_of(captures.take(i)).last() == all[i - 1]);
    }
}

/// Accepted captures stay accepted with one more that passes the same tests.
pub proof fn lemma_accepted_push(text: Seq<u8>, captures: Seq<Capture>, next: Capture)
    requires
        accepted(text, captures),
        match_of(next) is Some,
        is_image_tag(text, match_of(next).unwrap()),
        resume_at(matches_of(captures)) <= match_of(next).unwrap().tag_start,
    ensures
        accepted(text, captures.push(next)),
        matches_of(captures.push(next)) == matches_of(captures).push(match_of(next).unwrap()),
{
    let before = matches_of(captures);
    let m = match_of(next).unwrap();
    let all = matches_of(captures.push(next));
    assert(all =~= before.push(m));
    assert forall|i: int| 0 <= i < all.len() implies is_image_tag(text, #[trigger] all[i]) by {
        if i < before.len() {
            assert(all[i] == before[i]);
        }
    }
    assert forall|i: int, j: int| 0 <= i < j < all.len() implies (#[trigger] all[i]).tag_end <= (
    #[trigger] all[j]).tag_start by {
        assert(all[i] == before[i]);
        if j < before.len() {
            assert(all[j] == before[j]);
        } else {
            let last = before.last();
            lemma_image_tag_bounds(text, last);
            if i < before.len() - 1 {
                assert(before[i].tag_end <= before[before.len() - 1].tag_start);
            }
        }
    }
}

/// Checks what the expression engine reported: gives the matches where the
/// captures are accepted, and nothing where they are not.
pub fn validate(text: &[u8], captures: &[Capture]) -> (checked: Option<Vec<RewriteMatch>>)
    ensures
        checked is Some <==> accepted(text@, captures@),
        checked matches Some(matches) ==> matches@ == matches_of(captures@),
{
    let mut matches: Vec<RewriteMatch> = Vec::new();
    let mut resume: usize = 0;
    let mut i: usize = 0;
    while i < captures.len()
        invariant
            i <= captures@.len(),
            accepted(text@, captures@.take(i as int)),
            matches@ == matches_of(captures@.take(i as int)),
            resume == resume_at(matches@),
        decreases captures@.len() - i,
    {
        proof {
            if accepted(text@, captures@) {
                lemma_accepted_at(text@, captures@, i as int);
            }
            assert(captures@.take(i + 1) == captures@.take(i as int).push(captures@[i as int]));
        }
        let m = match captures[i] {
            (Some(tag), Some(alt)) => RewriteMatch {
                tag_start: tag.0,
                tag_end: tag.1,
                alt_start: alt.0,
                alt_end: alt.1,
            },
            _ => {
                return None;
            },
        };
        if resume > m.tag_start || !locates_image_tag(text, m) {
            return None;
        }
        proof {
            lemma_accepted_push(text@, captures@.take(i as int), captures@[i as int]);
        }
        matches.push(m);
        resume = m.tag_end;
        i = i + 1;
    }
    assert(captures@.take(i as int) == captures@);
    Some(matches)
}

} // verus!
