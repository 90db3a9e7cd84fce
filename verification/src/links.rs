//! Reading team and stage identifiers out of pasted bracket-site URLs.
//!
//! The URL shapes are recognised with `regex`, as fixed patterns behind
//! trusted wrappers; taking the identifier out of the matched span (the text
//! after its last slash) is verified here.

use vstd::prelude::*;

verus! {

/// The pattern for a team page URL matches at position `i` of `s`: the
/// literal prefix (whose one wildcard position, the dot of the host name,
/// matches any character but a newline) followed by 24 characters, none a
/// newline.
pub open spec fn team_pattern_at(s: Seq<char>, i: int) -> bool {
    &&& 0 <= i
    &&& i + 51 <= s.len()
    &&& forall|k: int|
        0 <= k < 27 && k != 16 ==> #[trigger] s[i + k] == "https://battlefy.com/teams/"@[k]
    &&& s[i + 16] != '\n'
    &&& forall|k: int| 27 <= k < 51 ==> #[trigger] s[i + k] != '\n'
}

/// Relies on `regex::Regex::find` with the fixed pattern
/// `https://battlefy.com/teams/.{24}`: the match at the earliest position
/// where the pattern matches, spanning the 27 pattern positions and the 24
/// following characters; `.` matches any character but a newline.
#[verifier::external_body]
fn regex_team_match(url: &str) -> (r: Option<String>)
    ensures
        match r {
            Some(m) => exists|i: int|
                #![trigger team_pattern_at(url@, i)]
                team_pattern_at(url@, i) && (forall|j: int|
                    0 <= j < i ==> !team_pattern_at(url@, j)) && m@ == url@.subrange(i, i + 51),
            None => forall|i: int| !team_pattern_at(url@, i),
        },
{
    let re = regex::Regex::new("https://battlefy.com/teams/.{24}").unwrap();
    re.find(url).map(|m| m.as_str().to_string())
}

/// What `regex::Regex::find` yields on `url` for the stage-bracket pattern
/// `https://battlefy.com/.+/.+/.{24}/stage/.{24}`: the matched span, a
/// function of the URL text alone.
pub uninterp spec fn stage_match_of(url: Seq<char>) -> Option<Seq<char>>;

/// Relies on `regex::Regex::find` with the fixed pattern
/// `https://battlefy.com/.+/.+/.{24}/stage/.{24}`, whose greedy repetitions
/// make the matched span depend on the URL text alone.
#[verifier::external_body]
fn regex_stage_match(url: &str) -> (r: Option<String>)
    ensures
        match r {
            Some(m) => stage_match_of(url@) == Some(m@),
            None => stage_match_of(url@) is None,
        },
{
    let re = regex::Regex::new("https://battlefy.com/.+/.+/.{24}/stage/.{24}").unwrap();
    re.find(url).map(|m| m.as_str().to_string())
}

/// The text after the last `'/'` of `t`, absent when `t` holds no slash.
pub open spec fn trailing_segment_spec(t: Seq<char>) -> Option<Seq<char>>
    decreases t.len(),
{
    if t.len() == 0 {
        None
    } else if t.last() == '/' {
        Some(Seq::empty())
    } else {
        match trailing_segment_spec(t.drop_last()) {
            Some(r) => Some(r.push(t.last())),
            None => None,
        }
    }
}

proof fn lemma_trailing_none(t: Seq<char>)
    requires
        forall|k: int| 0 <= k < t.len() ==> t[k] != '/',
    ensures
        trailing_segment_spec(t) is None,
    decreases t.len(),
{
    if t.len() > 0 {
        lemma_trailing_none(t.drop_last());
    }
}

proof fn lemma_trailing_at(t: Seq<char>, p: int)
    requires
        0 < p <= t.len(),
        t[p - 1] == '/',
        forall|k: int| p <= k < t.len() ==> t[k] != '/',
    ensures
        trailing_segment_spec(t) == Some(t.subrange(p, t.len() as int)),
    decreases t.len() - p,
{
    if p == t.len() {
        assert(t.last() == '/');
        assert(t.subrange(p, t.len() as int) =~= Seq::<char>::empty());
    } else {
        assert(t.last() != '/');
        lemma_trailing_at(t.drop_last(), p);
        assert(t.drop_last().subrange(p, t.len() - 1).push(t.last()) =~= t.subrange(
            p,
            t.len() as int,
        ));
    }
}

/// The text after the last `'/'` of `t`, per [`trailing_segment_spec`]:
/// absent when `t` holds no slash.
pub fn trailing_segment(t: &str) -> (r: Option<&str>)
    ensures
        match r {
            Some(v) => trailing_segment_spec(t@) == Some(v@),
            None => trailing_segment_spec(t@) is None && (forall|k: int|
                0 <= k < t@.len() ==> t@[k] != '/'),
        },
{
    let len = t.unicode_len();
    let mut p: usize = len;
    while p > 0 && t.get_char(p - 1) != '/'
        invariant
            0 <= p <= len,
            len == t@.len(),
            forall|k: int| p <= k < len ==> t@[k] != '/',
        decreases p,
    {
        p = p - 1;
    }
    if p == 0 {
        proof {
            lemma_trailing_none(t@);
        }
        None
    } else {
        proof {
            lemma_trailing_at(t@, p as int);
        }
        Some(t.substring_char(p, len))
    }
}

/// The team identifier in a pasted team-page URL: the 24 characters the
/// URL's team path ends with, taken after the last slash of the earliest
/// span matching the team pattern; absent when no span matches.
pub fn find_team_id(url: &str) -> (r: Option<String>)
    ensures
        r is Some <==> exists|i: int| #[trigger] team_pattern_at(url@, i),
        r is Some ==> exists|i: int|
            #![trigger team_pattern_at(url@, i)]
            team_pattern_at(url@, i) && (forall|j: int| 0 <= j < i ==> !team_pattern_at(url@, j))
                && Some(r.unwrap()@) == trailing_segment_spec(url@.subrange(i, i + 51)),
{
    match regex_team_match(url) {
        Some(m) => {
            proof {
                reveal_strlit("https://battlefy.com/teams/");
                let i = choose|i: int|
                    team_pattern_at(url@, i) && (forall|j: int|
                        0 <= j < i ==> !team_pattern_at(url@, j)) && m@ == url@.subrange(
                        i,
                        i + 51,
                    );
                assert(m@[26] == url@[i + 26]);
                assert(m@[26] == '/');
            }
            match trailing_segment(m.as_str()) {
                Some(t) => Some(String::from_str(t)),
                None => None,
            }
        },
        None => None,
    }
}

/// The tournament identifier in a stored bracket-page URL: the 24-character
/// path piece standing right before `/stage/` in the span matching the
/// stage pattern. A structured read of the path, deliberately not a fixed
/// character offset into the URL, which would silently go wrong the moment
/// the link's prefix changed length.
pub fn find_tournament_id(url: &str) -> (r: Option<String>)
    ensures
        match stage_match_of(url@) {
            Some(m) => {
                &&& m.len() >= 55 ==> r is Some && r.unwrap()@ == m.subrange(
                    m.len() - 55,
                    m.len() - 31,
                )
                &&& m.len() < 55 ==> r is None
            },
            None => r is None,
        },
{
    match regex_stage_match(url) {
        Some(m) => {
            let mlen = m.as_str().unicode_len();
            if mlen >= 55 {
                let piece = m.as_str().substring_char(mlen - 55, mlen - 31);
                Some(String::from_str(piece))
            } else {
                None
            }
        },
        None => None,
    }
}

/// The stage identifier in a pasted bracket-page URL: the text after the
/// last slash of the span matching the stage pattern; absent when no span
/// matches (the matched span always holds a slash, so a match always yields
/// an identifier).
pub fn find_stage_id(url: &str) -> (r: Option<String>)
    ensures
        match stage_match_of(url@) {
            Some(m) => match trailing_segment_spec(m) {
                Some(t) => r is Some && r.unwrap()@ == t,
                None => r is None,
            },
            None => r is None,
        },
{
    match regex_stage_match(url) {
        Some(m) => match trailing_segment(m.as_str()) {
            Some(t) => Some(String::from_str(t)),
            None => None,
        },
        None => None,
    }
}

} // verus!
