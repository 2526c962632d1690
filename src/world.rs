//! World files: explicit map placements and regex patterns that place maps
//! from the numbers in their filenames.

use crate::error::Error;
use crate::text::{parse_i32, parsed_i32};
use regex::Regex;
use vstd::prelude::*;

verus! {

/// A compiled regular expression of the regex crate.
#[verifier::external_type_specification]
#[verifier::external_body]
pub struct ExRegex(Regex);

/// Relies on the regex crate's `Clone` for `Regex`, which the derived `Clone`
/// of [`WorldPattern`] calls.
pub assume_specification[ <Regex as Clone>::clone ](re: &Regex) -> Regex;

/// Relies on std's `Clone` for `PathBuf`, which the derived `Clone` of [`World`]
/// calls.
pub assume_specification[ <std::path::PathBuf as Clone>::clone ](
    p: &std::path::PathBuf,
) -> std::path::PathBuf;

/// Whether a text is a regular expression that the regex crate compiles.
pub uninterp spec fn regex_compiles(pattern: Seq<char>) -> bool;

/// What the regex compiled from `pattern` captures from `text`: `None` where
/// it does not match, else the texts of groups 1 and 2, each `None` where the
/// group took no part in the match.
pub uninterp spec fn regex_captured(pattern: Seq<char>, text: Seq<char>) -> Option<
    (Option<Seq<char>>, Option<Seq<char>>),
>;

/// Relies on the regex crate's `Regex::new`: compiles a pattern, or reports why
/// it is not a valid regular expression; which of the two depends on the
/// pattern alone.
#[verifier::external_body]
fn compile_regex(pattern: &str) -> (r: Result<Regex, regex::Error>)
    ensures
        r is Ok <==> regex_compiles(pattern@),
{
    Regex::new(pattern)
}

/// Relies on the regex crate's `Regex::captures` and `Captures::get`, on the
/// regex of `p`, which [`PatternRegex::new`] compiled from `p`'s text and
/// which never changes: the captures of groups 1 and 2 in `text`.
#[verifier::external_body]
fn pattern_captures(p: &PatternRegex, text: &str) -> (r: Option<(Option<String>, Option<String>)>)
    ensures
        capture_view(r) == regex_captured(p.text(), text@),
{
    p.regex.captures(text).map(
        |c| (c.get(1).map(|m| m.as_str().to_string()), c.get(2).map(|m| m.as_str().to_string())),
    )
}

/// A WorldMap provides the information for a map in the world and its layout.
#[derive(PartialEq, Clone, Debug)]
pub struct WorldMap {
    /// The filename of the tmx map.
    pub filename: String,
    /// The x position of the map.
    pub x: i32,
    /// The y position of the map.
    pub y: i32,
    /// The optional width of the map.
    pub width: Option<i32>,
    /// The optional height of the map.
    pub height: Option<i32>,
}

/// A compiled regex together with the text it was compiled from; the two are
/// set together and never change.
#[derive(Clone, Debug)]
pub struct PatternRegex {
    regex: Regex,
    source: String,
}

impl PatternRegex {
    /// The text that the regex was compiled from.
    pub closed spec fn text(&self) -> Seq<char> {
        self.source@
    }

    /// Compiles `pattern`; fails exactly where it is not a valid regex.
    pub fn new(pattern: &str) -> (r: Result<PatternRegex, regex::Error>)
        ensures
            r is Ok <==> regex_compiles(pattern@),
            r matches Ok(p) ==> p.text() == pattern@,
    {
        let regex = compile_regex(pattern)?;
        Ok(PatternRegex { regex, source: String::from_str(pattern) })
    }

    /// The text that the regex was compiled from.
    pub fn as_str(&self) -> (r: &str)
        ensures
            r@ == self.text(),
    {
        self.source.as_str()
    }

    /// Whether two regexes were compiled from the same text.
    pub fn same_text(&self, other: &PatternRegex) -> (r: bool)
        ensures
            r == (self.text() == other.text()),
    {
        self.source == other.source
    }

    /// The compiled regex.
    pub fn regex(&self) -> &Regex {
        &self.regex
    }
}

/// A WorldPattern defines a regex pattern to automatically determine which
/// maps to load and how to lay them out.
#[derive(Clone, Debug)]
pub struct WorldPattern {
    /// The regex pattern to match against filenames.
    /// The first two capture groups should be the x integer and y integer positions.
    pub regexp: PatternRegex,
    /// The multiplier for the x position.
    pub multiplier_x: i32,
    /// The multiplier for the y position.
    pub multiplier_y: i32,
    /// The offset for the x position.
    pub offset_x: i32,
    /// The offset for the y position.
    pub offset_y: i32,
}

impl WorldPattern {
    /// Compiles `regexp` into a pattern with the given multipliers and
    /// offsets; fails exactly where `regexp` is not a valid regex.
    pub fn new(
        regexp: &str,
        multiplier_x: i32,
        multiplier_y: i32,
        offset_x: i32,
        offset_y: i32,
    ) -> (r: Result<WorldPattern, regex::Error>)
        ensures
            r is Ok <==> regex_compiles(regexp@),
            r matches Ok(p) ==> p.regexp.text() == regexp@ && p.multiplier_x == multiplier_x
                && p.multiplier_y == multiplier_y && p.offset_x == offset_x && p.offset_y
                == offset_y,
    {
        let regexp = PatternRegex::new(regexp)?;
        Ok(WorldPattern { regexp, multiplier_x, multiplier_y, offset_x, offset_y })
    }
}

impl PartialEq for WorldPattern {
    /// Two patterns are equal when their numbers and their regex texts are.
    fn eq(&self, other: &Self) -> (r: bool) {
        self.multiplier_x == other.multiplier_x && self.multiplier_y == other.multiplier_y
            && self.offset_x == other.offset_x && self.offset_y == other.offset_y
            && self.regexp.same_text(&other.regexp)
    }
}

impl vstd::std_specs::cmp::PartialEqSpecImpl for WorldPattern {
    open spec fn obeys_eq_spec() -> bool {
        true
    }

    open spec fn eq_spec(&self, other: &WorldPattern) -> bool {
        self.multiplier_x == other.multiplier_x && self.multiplier_y == other.multiplier_y
            && self.offset_x == other.offset_x && self.offset_y == other.offset_y
            && self.regexp.text() == other.regexp.text()
    }
}

/// A World is a list of maps files or regex patterns that define a layout of
/// TMX maps.
#[derive(PartialEq, Clone, Debug)]
pub struct World {
    /// The path first used to load this world.
    pub source: std::path::PathBuf,
    /// The [`WorldMap`]s defined by the world file.
    pub maps: Option<Vec<WorldMap>>,
    /// Optional regex pattern to load maps.
    pub patterns: Option<Vec<WorldPattern>>,
}

/// The capture texts of one regex against one filename: `None` where the
/// regex did not match, else groups 1 and 2 where they took part.
pub open spec fn capture_view(c: Option<(Option<String>, Option<String>)>) -> Option<
    (Option<Seq<char>>, Option<Seq<char>>),
> {
    match c {
        Some((x, y)) => Some(
            (
                match x {
                    Some(s) => Some(s@),
                    None => None,
                },
                match y {
                    Some(s) => Some(s@),
                    None => None,
                },
            ),
        ),
        None => None,
    }
}

/// Whether a capture group took part in the match but is not a base-10 `i32`.
pub open spec fn unparsable(g: Option<Seq<char>>) -> bool {
    g matches Some(t) && parsed_i32(t) is None
}

/// A pattern applies to a filename when its regex matches and either both
/// capture groups 1 and 2 take part in the match, or one that takes part is
/// not an integer. A pattern whose regex matches with a group absent and every
/// present group an integer is passed over.
pub open spec fn applies(c: Option<(Option<Seq<char>>, Option<Seq<char>>)>) -> bool {
    match c {
        Some((gx, gy)) => unparsable(gx) || unparsable(gy) || (gx is Some && gy is Some),
        None => false,
    }
}

/// Whether `r` is what an applying pattern `p` gives for the captures `c`:
/// with both groups present, the placement from their texts; else a capture
/// parse error, for the present group that is not an integer.
pub open spec fn pattern_outcome(
    p: WorldPattern,
    c: Option<(Option<Seq<char>>, Option<Seq<char>>)>,
    filename: Seq<char>,
    r: Result<WorldMap, Error>,
) -> bool {
    if c matches Some((Some(_), Some(_))) {
        placement_outcome(p, group_text(c, 1), group_text(c, 2), filename, r)
    } else {
        r is Err && r->Err_0 is CaptureParseError
    }
}

/// The text of capture group 1 or 2 in captures where the pattern applies.
pub open spec fn group_text(c: Option<(Option<Seq<char>>, Option<Seq<char>>)>, group: int) -> Seq<
    char,
> {
    match c {
        Some((Some(x), Some(y))) => if group == 1 {
            x
        } else {
            y
        },
        _ => Seq::empty(),
    }
}

pub open spec fn fits_i32(v: int) -> bool {
    i32::MIN <= v <= i32::MAX
}

/// Whether `r` is what placing `filename` by `p` gives, where its capture
/// groups 1 and 2 read `cx` and `cy`: both captures must be base-10 `i32`s,
/// then `x = cx * multiplier_x + offset_x` and `y = cy * multiplier_y +
/// offset_y` must not overflow, the first overflowing operation naming the
/// range error; the placed map has no size.
pub open spec fn placement_outcome(
    p: WorldPattern,
    cx: Seq<char>,
    cy: Seq<char>,
    filename: Seq<char>,
    r: Result<WorldMap, Error>,
) -> bool {
    match (parsed_i32(cx), parsed_i32(cy)) {
        (Some(x), Some(y)) => {
            let xm = x * p.multiplier_x;
            let xs = xm + p.offset_x;
            let ym = y * p.multiplier_y;
            let ys = ym + p.offset_y;
            if !fits_i32(xm) {
                r matches Err(Error::RangeError(s)) && s@ == "Capture x * multiplierX causes overflow"@
            } else if !fits_i32(xs) {
                r matches Err(Error::RangeError(s)) && s@
                    == "Capture x * multiplierX + offsetX causes overflow"@
            } else if !fits_i32(ym) {
                r matches Err(Error::RangeError(s)) && s@ == "Capture y * multiplierY causes overflow"@
            } else if !fits_i32(ys) {
                r matches Err(Error::RangeError(s)) && s@
                    == "Capture y * multiplierY + offsetY causes overflow"@
            } else {
                r matches Ok(m) && m.filename@ == filename && m.x == xs && m.y == ys
                    && m.width is None && m.height is None
            }
        },
        _ => r is Err && r->Err_0 is CaptureParseError,
    }
}

/// Whether `r` is what matching `filename` against `ps[i..]` gives, where
/// `caps[k]` is what the regex of `ps[k]` captured: the first pattern that
/// applies decides; where none does, the filename matched no pattern.
pub open spec fn outcome_from(
    ps: Seq<WorldPattern>,
    caps: Seq<Option<(Option<Seq<char>>, Option<Seq<char>>)>>,
    filename: Seq<char>,
    i: int,
    r: Result<WorldMap, Error>,
) -> bool
    decreases ps.len() - i,
{
    if i < 0 || i >= ps.len() || i >= caps.len() {
        r matches Err(Error::NoMatchFound { filename: f }) && f@ == filename
    } else if applies(caps[i]) {
        pattern_outcome(ps[i], caps[i], filename, r)
    } else {
        outcome_from(ps, caps, filename, i + 1, r)
    }
}

/// Whether `r` is what matching `filename` against the patterns `ps` gives,
/// in declaration order, for the captures `caps` of their regexes.
pub open spec fn world_outcome(
    ps: Seq<WorldPattern>,
    caps: Seq<Option<(Option<Seq<char>>, Option<Seq<char>>)>>,
    filename: Seq<char>,
    r: Result<WorldMap, Error>,
) -> bool {
    outcome_from(ps, caps, filename, 0, r)
}

pub open spec fn pattern_list(patterns: Option<Vec<WorldPattern>>) -> Seq<WorldPattern> {
    match patterns {
        Some(v) => v@,
        None => Seq::empty(),
    }
}

/// What the regex of each pattern captures from `filename`.
pub open spec fn captures_of(ps: Seq<WorldPattern>, filename: Seq<char>) -> Seq<
    Option<(Option<Seq<char>>, Option<Seq<char>>)>,
> {
    Seq::new(ps.len(), |k: int| regex_captured(ps[k].regexp.text(), filename))
}

/// Whether `r` is what matching `filename` against the patterns of `w` gives.
pub open spec fn match_outcome(w: World, filename: Seq<char>, r: Result<WorldMap, Error>) -> bool {
    world_outcome(
        pattern_list(w.patterns),
        captures_of(pattern_list(w.patterns), filename),
        filename,
        r,
    )
}

proof fn lemma_skip_to(
    ps: Seq<WorldPattern>,
    caps: Seq<Option<(Option<Seq<char>>, Option<Seq<char>>)>>,
    filename: Seq<char>,
    r: Result<WorldMap, Error>,
    j: int,
    i: int,
)
    requires
        0 <= j <= i <= ps.len(),
        caps.len() == ps.len(),
        forall|k: int| j <= k < i ==> !applies(#[trigger] caps[k]),
    ensures
        outcome_from(ps, caps, filename, j, r) == outcome_from(ps, caps, filename, i, r),
    decreases i - j,
{
    if j < i {
        lemma_skip_to(ps, caps, filename, r, j + 1, i);
    }
}

/// Where several patterns apply to a filename, matching against all of them
/// gives what matching against the first of them alone gives.
pub proof fn lemma_first_pattern_wins(
    ps: Seq<WorldPattern>,
    filename: Seq<char>,
    r: Result<WorldMap, Error>,
    i: int,
)
    requires
        0 <= i < ps.len(),
        applies(captures_of(ps, filename)[i]),
        forall|k: int| 0 <= k < i ==> !applies(#[trigger] captures_of(ps, filename)[k]),
    ensures
        world_outcome(ps, captures_of(ps, filename), filename, r) <==> world_outcome(
            seq![ps[i]],
            captures_of(seq![ps[i]], filename),
            filename,
            r,
        ),
{
    let caps = captures_of(ps, filename);
    lemma_skip_to(ps, caps, filename, r, 0, i);
    assert(captures_of(seq![ps[i]], filename)[0] == caps[i]);
}

/// Places `filename` by `pattern`, from the texts that the pattern's capture
/// groups 1 and 2 took from it.
pub fn place_by_captures(pattern: &WorldPattern, filename: &str, x_capture: &str, y_capture: &str) -> (r: Result<
    WorldMap,
    Error,
>)
    ensures
        placement_outcome(*pattern, x_capture@, y_capture@, filename@, r),
{
    let x = match parse_i32(x_capture) {
        Ok(v) => v,
        Err(e) => return Err(Error::CaptureParseError(e)),
    };
    let y = match parse_i32(y_capture) {
        Ok(v) => v,
        Err(e) => return Err(Error::CaptureParseError(e)),
    };
    let x = match x.checked_mul(pattern.multiplier_x) {
        Some(v) => v,
        None => return Err(
            Error::RangeError(String::from_str("Capture x * multiplierX causes overflow")),
        ),
    };
    let x = match x.checked_add(pattern.offset_x) {
        Some(v) => v,
        None => return Err(
            Error::RangeError(String::from_str("Capture x * multiplierX + offsetX causes overflow")),
        ),
    };
    let y = match y.checked_mul(pattern.multiplier_y) {
        Some(v) => v,
        None => return Err(
            Error::RangeError(String::from_str("Capture y * multiplierY causes overflow")),
        ),
    };
    let y = match y.checked_add(pattern.offset_y) {
        Some(v) => v,
        None => return Err(
            Error::RangeError(String::from_str("Capture y * multiplierY + offsetY causes overflow")),
        ),
    };
    Ok(WorldMap { filename: String::from_str(filename), x, y, width: None, height: None })
}

impl World {
    /// Tests a single filename against the patterns in declaration order. The
    /// first pattern whose regex matches with both capture groups decides the
    /// result; a filename that no pattern matches is a `NoMatchFound` error.
    pub fn match_filename(&self, filename: &str) -> (r: Result<WorldMap, Error>)
        ensures
            match_outcome(*self, filename@, r),
    {
        let ghost ps = pattern_list(self.patterns);
        let ghost caps = captures_of(ps, filename@);
        if let Some(patterns) = &self.patterns {
            let n = patterns.len();
            let mut i: usize = 0;
            while i < n
                invariant
                    ps == patterns@,
                    ps == pattern_list(self.patterns),
                    caps == captures_of(ps, filename@),
                    n == ps.len(),
                    i <= n,
                    forall|k: int| 0 <= k < i ==> !applies(#[trigger] caps[k]),
                decreases n - i,
            {
                let pattern = &patterns[i];
                let found = pattern_captures(&pattern.regexp, filename);
                let ghost cv = capture_view(found);
                assert(cv == caps[i as int]);
                if let Some((gx, gy)) = found {
                    if let Some(cx) = &gx {
                        if let Err(e) = parse_i32(cx.as_str()) {
                            let r = Err(Error::CaptureParseError(e));
                            proof {
                                lemma_skip_to(ps, caps, filename@, r, 0, i as int);
                            }
                            return r;
                        }
                    }
                    if let Some(cy) = &gy {
                        if let Err(e) = parse_i32(cy.as_str()) {
                            let r = Err(Error::CaptureParseError(e));
                            proof {
                                lemma_skip_to(ps, caps, filename@, r, 0, i as int);
                            }
                            return r;
                        }
                    }
                    if let (Some(cx), Some(cy)) = (&gx, &gy) {
                        let r = place_by_captures(pattern, filename, cx.as_str(), cy.as_str());
                        proof {
                            lemma_skip_to(ps, caps, filename@, r, 0, i as int);
                        }
                        return r;
                    }
                }
                i += 1;
            }
        }
        let r = Err(Error::NoMatchFound { filename: String::from_str(filename) });
        proof {
            lemma_skip_to(ps, caps, filename@, r, 0, ps.len() as int);
        }
        r
    }

    /// Tests each filename against the patterns; one result per filename, in
    /// input order, a failure on one not affecting the others.
    pub fn match_filenames(&self, filenames: &Vec<&str>) -> (r: Vec<Result<WorldMap, Error>>)
        ensures
            r@.len() == filenames@.len(),
            forall|i: int|
                0 <= i < r@.len() ==> match_outcome(*self, filenames@[i]@, #[trigger] r@[i]),
    {
        let mut out: Vec<Result<WorldMap, Error>> = Vec::new();
        let mut i: usize = 0;
        while i < filenames.len()
            invariant
                i <= filenames@.len(),
                out@.len() == i,
                forall|j: int|
                    0 <= j < i ==> match_outcome(*self, filenames@[j]@, #[trigger] out@[j]),
            decreases filenames@.len() - i,
        {
            out.push(self.match_filename(filenames[i]));
            i += 1;
        }
        out
    }
}

} // verus!
