//! The heuristic intent extractor: free text to a structured payload.
//!
//! Keyword tests pick the intent and source preference; slot values are
//! cut out of the original text at positions found in its lower-cased
//! shadow. Lower-casing is per character, so positions in the shadow are
//! positions in the original.

use vstd::prelude::*;
use crate::dates::{self, Date};
use crate::model::{
    Constraints, Entities, IntentPayload, IntentType, SourcePreference, WeatherQueryType,
};
use crate::text::{self, contains_seq, find_from, is_space, lower, match_at, trim_spec};

verus! {

/// First index at or after `i` that holds a non-space, else the length.
pub open spec fn skip_spaces(s: Seq<char>, i: int) -> int
    decreases s.len() - i,
{
    if i < 0 || i >= s.len() {
        s.len() as int
    } else if is_space(s[i]) {
        skip_spaces(s, i + 1)
    } else {
        i
    }
}

/// First index at or after `i` that holds a space, else the length.
pub open spec fn word_end(s: Seq<char>, i: int) -> int
    decreases s.len() - i,
{
    if i < 0 || i >= s.len() {
        s.len() as int
    } else if is_space(s[i]) {
        i
    } else {
        word_end(s, i + 1)
    }
}

pub proof fn lemma_skip_spaces_bounds(s: Seq<char>, i: int)
    requires
        0 <= i <= s.len(),
    ensures
        i <= skip_spaces(s, i) <= s.len(),
    decreases s.len() - i,
{
    if i < s.len() && is_space(s[i]) {
        lemma_skip_spaces_bounds(s, i + 1);
    }
}

pub proof fn lemma_word_end_bounds(s: Seq<char>, i: int)
    requires
        0 <= i <= s.len(),
    ensures
        i <= word_end(s, i) <= s.len(),
    decreases s.len() - i,
{
    if i < s.len() && !is_space(s[i]) {
        lemma_word_end_bounds(s, i + 1);
    }
}

fn skip_spaces_vec(v: &Vec<char>, i: usize) -> (r: usize)
    requires
        i <= v@.len(),
    ensures
        r == skip_spaces(v@, i as int),
        i <= r <= v@.len(),
{
    let mut j: usize = i;
    while j < v.len()
        invariant
            i <= j <= v@.len(),
            skip_spaces(v@, i as int) == skip_spaces(v@, j as int),
        decreases v@.len() - j,
    {
        if !text::is_space_char(v[j]) {
            return j;
        }
        j += 1;
    }
    j
}

fn word_end_vec(v: &Vec<char>, i: usize) -> (r: usize)
    requires
        i <= v@.len(),
    ensures
        r == word_end(v@, i as int),
        i <= r <= v@.len(),
{
    let mut j: usize = i;
    while j < v.len()
        invariant
            i <= j <= v@.len(),
            word_end(v@, i as int) == word_end(v@, j as int),
        decreases v@.len() - j,
    {
        if text::is_space_char(v[j]) {
            return j;
        }
        j += 1;
    }
    j
}

/// The first whitespace-separated word of `s`, if there is one.
pub open spec fn first_word(s: Seq<char>) -> Option<Seq<char>> {
    let a = skip_spaces(s, 0);
    if a >= s.len() {
        None
    } else {
        Some(s.subrange(a, word_end(s, a)))
    }
}

fn first_word_vec(v: &Vec<char>) -> (r: Option<Vec<char>>)
    ensures
        match r {
            Some(w) => first_word(v@) == Some(w@),
            None => first_word(v@) is None,
        },
{
    let a = skip_spaces_vec(v, 0);
    if a >= v.len() {
        None
    } else {
        let b = word_end_vec(v, a);
        Some(text::subvec(v, a, b))
    }
}

/// A word character: an ASCII letter or digit, or any character beyond
/// ASCII. Characters beyond ASCII all count as word characters here, so
/// an accented name keeps its accent; trailing non-ASCII punctuation is
/// kept too, a coarser reading than a full letter-class test.
pub open spec fn is_alnum(c: char) -> bool {
    ('a' <= c && c <= 'z') || ('A' <= c && c <= 'Z') || ('0' <= c && c <= '9')
        || (c as u32) >= 0x80
}

/// The word with trailing non-word characters removed.
pub open spec fn strip_nonalnum_end(s: Seq<char>) -> Seq<char>
    decreases s.len(),
{
    if s.len() > 0 && !is_alnum(s.last()) {
        strip_nonalnum_end(s.drop_last())
    } else {
        s
    }
}

fn strip_nonalnum_end_vec(v: &Vec<char>) -> (r: Vec<char>)
    ensures
        r@ == strip_nonalnum_end(v@),
{
    let mut j: usize = v.len();
    proof {
        assert(v@.take(v@.len() as int) =~= v@);
    }
    while j > 0
        invariant
            j <= v@.len(),
            strip_nonalnum_end(v@) == strip_nonalnum_end(v@.take(j as int)),
        decreases j,
    {
        let c = v[j - 1];
        let alnum = ('a' <= c && c <= 'z') || ('A' <= c && c <= 'Z') || ('0' <= c && c <= '9')
            || (c as u32) >= 0x80;
        proof {
            assert(v@.take(j as int).last() == v@[j - 1]);
            assert(v@.take(j as int).drop_last() =~= v@.take(j - 1 as int));
        }
        if alnum {
            proof {
                assert(strip_nonalnum_end(v@.take(j as int)) == v@.take(j as int));
            }
            return text::subvec(v, 0, j);
        }
        j -= 1;
    }
    proof {
        assert(v@.take(0) =~= Seq::<char>::empty());
    }
    Vec::new()
}

/// The recipient cut from `s` after position `i`: the first word,
/// stripped of trailing punctuation.
pub open spec fn recipient_at(s: Seq<char>, i: int) -> Option<Seq<char>> {
    match first_word(s.skip(i)) {
        Some(w) => Some(strip_nonalnum_end(w)),
        None => None,
    }
}

/// The count in a `next N days` phrase inside `t`, at the first `next `.
pub open spec fn next_n_days_in(t: Seq<char>) -> Option<int> {
    match find_from(t, "next "@, 0) {
        None => None,
        Some(idx) => {
            let after = t.skip(idx + 5);
            let a0 = skip_spaces(after, 0);
            if a0 >= after.len() {
                None
            } else {
                let w0 = after.subrange(a0, word_end(after, a0));
                let a1 = skip_spaces(after, word_end(after, a0));
                if a1 >= after.len() {
                    None
                } else {
                    let w1 = after.subrange(a1, word_end(after, a1));
                    if w1.len() >= 3 && w1.subrange(0, 3) == "day"@ && text::is_numeral(w0)
                        && text::dec_val(text::numeral_body(w0)) <= u64::MAX {
                        Some(text::dec_val(text::numeral_body(w0)))
                    } else {
                        None
                    }
                }
            }
        }
    }
}

fn next_n_days_in_vec(t: &Vec<char>) -> (r: Option<u64>)
    ensures
        match r {
            Some(n) => next_n_days_in(t@) == Some(n as int),
            None => next_n_days_in(t@) is None,
        },
{
    proof {
        reveal_strlit("next ");
        reveal_strlit("day");
    }
    let pat = text::str_to_chars("next ");
    let idx = match text::find_vec(t, &pat, 0) {
        Some(i) => i,
        None => {
            return None;
        }
    };
    let tl = t.len();
    proof {
        text::lemma_find_from_bounds(t@, pat@, 0);
        assert(idx + 5 <= tl);
    }
    let after = text::subvec(t, idx + 5, tl);
    proof {
        assert(t@.skip(idx + 5) =~= t@.subrange(idx + 5, t@.len() as int));
    }
    let a0 = skip_spaces_vec(&after, 0);
    if a0 >= after.len() {
        return None;
    }
    let b0 = word_end_vec(&after, a0);
    let w0 = text::subvec(&after, a0, b0);
    let a1 = skip_spaces_vec(&after, b0);
    if a1 >= after.len() {
        return None;
    }
    let b1 = word_end_vec(&after, a1);
    let w1 = text::subvec(&after, a1, b1);
    let day = text::str_to_chars("day");
    if !(w1.len() >= 3 && text::eq_at(&w1, 0, &day)) {
        proof {
            if w1@.len() >= 3 {
                assert(w1@.subrange(0, 3) =~= after@.subrange(a1 as int, word_end(after@, a1 as int))
                    .subrange(0, 3));
            }
        }
        return None;
    }
    proof {
        assert(w1@.subrange(0, 3) == "day"@);
    }
    text::parse_u64(&w0)
}

/// Where the location text cut from a weather request ends: the first of
/// the end markers to occur, else the end of the text.
pub open spec fn location_end(after_lower: Seq<char>) -> int {
    min_opt(
        min_opt(
            min_opt(
                min_opt(
                    min_opt(
                        min_opt(
                            min_opt(after_lower.len() as int, find_from(after_lower, " today"@, 0)),
                            find_from(after_lower, " tomorrow"@, 0),
                        ),
                        find_from(after_lower, " next"@, 0),
                    ),
                    find_from(after_lower, " this"@, 0),
                ),
                find_from(after_lower, "?"@, 0),
            ),
            find_from(after_lower, "!"@, 0),
        ),
        find_from(after_lower, "."@, 0),
    )
}

pub open spec fn min_opt(cur: int, cand: Option<int>) -> int {
    match cand {
        Some(k) => if k < cur {
            k
        } else {
            cur
        },
        None => cur,
    }
}

fn min_found(v: &Vec<char>, cur: usize, pat: &Vec<char>) -> (r: usize)
    requires
        cur <= v@.len(),
    ensures
        r == min_opt(cur as int, find_from(v@, pat@, 0)),
        r <= cur,
{
    proof {
        text::lemma_find_from_bounds(v@, pat@, 0);
    }
    match text::find_vec(v, pat, 0) {
        Some(k) => if k < cur {
            k
        } else {
            cur
        },
        None => cur,
    }
}

/// The location cut out of a weather request at one preposition: the text
/// after it, up to the first date marker or sentence break, trimmed.
pub open spec fn location_after(s: Seq<char>, t: Seq<char>, start: int) -> Seq<char> {
    let after = s.skip(start);
    let after_lower = t.skip(start);
    trim_spec(after.subrange(0, location_end(after_lower)))
}

/// The location of a weather request: the first nonempty cut at ` in `,
/// else at ` for `.
pub open spec fn weather_location(s: Seq<char>, t: Seq<char>) -> Option<Seq<char>> {
    let by_in = match find_from(t, " in "@, 0) {
        Some(idx) => location_after(s, t, idx + 4),
        None => Seq::empty(),
    };
    if by_in.len() > 0 {
        Some(by_in)
    } else {
        let by_for = match find_from(t, " for "@, 0) {
            Some(idx) => location_after(s, t, idx + 5),
            None => Seq::empty(),
        };
        if by_for.len() > 0 {
            Some(by_for)
        } else {
            None
        }
    }
}

fn location_after_vec(s: &Vec<char>, t: &Vec<char>, start: usize) -> (r: Vec<char>)
    requires
        start <= s@.len(),
        t@.len() == s@.len(),
    ensures
        r@ == location_after(s@, t@, start as int),
{
    let after = text::subvec(s, start, s.len());
    let after_lower = text::subvec(t, start, t.len());
    proof {
        assert(s@.skip(start as int) =~= s@.subrange(start as int, s@.len() as int));
        assert(t@.skip(start as int) =~= t@.subrange(start as int, t@.len() as int));
    }
    let mut end: usize = after_lower.len();
    end = min_found(&after_lower, end, &text::str_to_chars(" today"));
    end = min_found(&after_lower, end, &text::str_to_chars(" tomorrow"));
    end = min_found(&after_lower, end, &text::str_to_chars(" next"));
    end = min_found(&after_lower, end, &text::str_to_chars(" this"));
    end = min_found(&after_lower, end, &text::str_to_chars("?"));
    end = min_found(&after_lower, end, &text::str_to_chars("!"));
    end = min_found(&after_lower, end, &text::str_to_chars("."));
    let cut = text::subvec(&after, 0, end);
    text::trim_vec(&cut)
}

fn weather_location_vec(s: &Vec<char>, t: &Vec<char>) -> (r: Option<Vec<char>>)
    requires
        t@.len() == s@.len(),
    ensures
        match r {
            Some(w) => weather_location(s@, t@) == Some(w@),
            None => weather_location(s@, t@) is None,
        },
{
    proof {
        reveal_strlit(" in ");
        reveal_strlit(" for ");
    }
    let in_pat = text::str_to_chars(" in ");
    match text::find_vec(t, &in_pat, 0) {
        Some(idx) => {
            let tl = t.len();
            proof {
                text::lemma_find_from_bounds(t@, in_pat@, 0);
                assert(idx + 4 <= tl);
            }
            let city = location_after_vec(s, t, idx + 4);
            if city.len() > 0 {
                return Some(city);
            }
        }
        None => {}
    }
    let for_pat = text::str_to_chars(" for ");
    match text::find_vec(t, &for_pat, 0) {
        Some(idx) => {
            let tl = t.len();
            proof {
                text::lemma_find_from_bounds(t@, for_pat@, 0);
                assert(idx + 5 <= tl);
            }
            let city = location_after_vec(s, t, idx + 5);
            if city.len() > 0 {
                return Some(city);
            }
        }
        None => {}
    }
    None
}

/// Which intent the keywords of the lower-cased text pick.
pub open spec fn intent_of(t: Seq<char>) -> IntentType {
    if contains_seq(t, "summarize"@) {
        IntentType::Summarize
    } else if match_at(t, "find"@, 0) || match_at(t, "search"@, 0) || contains_seq(
        t,
        "look for"@,
    ) {
        IntentType::Find
    } else if contains_seq(t, "weather"@) || contains_seq(t, "forecast"@) || contains_seq(
        t,
        "will it rain"@,
    ) || contains_seq(t, "will it snow"@) || contains_seq(t, "bad weather"@) {
        IntentType::Weather
    } else if contains_seq(t, "email"@) || match_at(t, "draft"@, 0) {
        IntentType::Draft
    } else if contains_seq(t, "remind"@) || contains_seq(t, "todo"@) {
        IntentType::Remind
    } else {
        IntentType::Unknown
    }
}

/// Which source the keywords pick: notes beats files beats either.
pub open spec fn source_of(t: Seq<char>) -> SourcePreference {
    if contains_seq(t, "notes"@) {
        SourcePreference::Notes
    } else if contains_seq(t, "files"@) {
        SourcePreference::Files
    } else {
        SourcePreference::Either
    }
}

/// The topic: everything after `about`, else everything after the first
/// space for a summarize or find request.
pub open spec fn topic_of(s: Seq<char>, t: Seq<char>, intent: IntentType) -> Option<Seq<char>> {
    match find_from(t, "about"@, 0) {
        Some(idx) => Some(trim_spec(s.skip(idx + 5))),
        None => {
            if (intent == IntentType::Summarize || intent == IntentType::Find) && find_from(
                s,
                " "@,
                0,
            ) is Some {
                Some(trim_spec(s.skip(find_from(s, " "@, 0)->Some_0 + 1)))
            } else {
                None
            }
        }
    }
}

/// The kind of weather question the keywords suggest.
pub open spec fn weather_query_of(t: Seq<char>) -> WeatherQueryType {
    if contains_seq(t, "bad weather"@) || contains_seq(t, "expecting"@) || contains_seq(
        t,
        "will it rain"@,
    ) || contains_seq(t, "will it snow"@) || contains_seq(t, "expect rain"@) || contains_seq(
        t,
        "expect snow"@,
    ) {
        WeatherQueryType::Assessment
    } else if contains_seq(t, "forecast"@) || contains_seq(t, "next week"@) || (contains_seq(
        t,
        "next "@,
    ) && contains_seq(t, " days"@)) {
        WeatherQueryType::Forecast
    } else {
        WeatherQueryType::Current
    }
}

/// The literal text of the day-count word in a `next N days` phrase.
pub open spec fn next_n_days_word(t: Seq<char>) -> Seq<char> {
    match find_from(t, "next "@, 0) {
        None => Seq::empty(),
        Some(idx) => {
            let after = t.skip(idx + 5);
            let a0 = skip_spaces(after, 0);
            after.subrange(a0, word_end(after, a0))
        }
    }
}

/// The date and range a weather request resolves to, against the date
/// `t0`.
pub open spec fn weather_dates(t: Seq<char>, t0: Date) -> (Option<Seq<char>>, Option<Seq<char>>) {
    if contains_seq(t, "next week"@) {
        (Some(dates::date_str(t0)), Some(dates::date_str(dates::add_days_s(t0, 6))))
    } else if contains_seq(t, "this weekend"@) {
        (
            Some(dates::date_str(dates::add_days_s(t0, dates::days_to_saturday(t0) as nat))),
            Some(
                dates::date_str(
                    dates::next_day_s(
                        dates::add_days_s(t0, dates::days_to_saturday(t0) as nat),
                    ),
                ),
            ),
        )
    } else if next_n_days_in(t) is Some {
        if dates::can_add(t0, dates::day_count_offset(next_n_days_in(t)->Some_0)) {
            (
                Some(dates::date_str(t0)),
                Some(dates::date_str(dates::add_days_s(
                    t0,
                    dates::day_count_offset(next_n_days_in(t)->Some_0),
                ))),
            )
        } else {
            (Some("next "@ + next_n_days_word(t) + " days"@), None)
        }
    } else if contains_seq(t, "forecast"@) && !contains_seq(t, "tomorrow"@) && !contains_seq(
        t,
        "today"@,
    ) {
        (Some(dates::date_str(t0)), Some(dates::date_str(dates::add_days_s(t0, 6))))
    } else if contains_seq(t, "tomorrow"@) {
        (Some(dates::date_str(dates::next_day_s(t0))), None)
    } else if contains_seq(t, "today"@) {
        (Some(dates::date_str(t0)), None)
    } else {
        (None, None)
    }
}

/// The recipient of a draft request: the word after the first
/// `email to `, `mail to `, or ` to ` following `email`.
pub open spec fn recipient_of(s: Seq<char>, t: Seq<char>) -> Option<Seq<char>> {
    match find_from(t, "email to "@, 0) {
        Some(idx) => recipient_at(s, idx + 9),
        None => match find_from(t, "mail to "@, 0) {
            Some(idx) => recipient_at(s, idx + 8),
            None => match find_from(t, "email"@, 0) {
                Some(eidx) => match find_from(t, " to "@, eidx) {
                    Some(g) => recipient_at(s, g + 4),
                    None => None,
                },
                None => None,
            },
        },
    }
}

/// The non-weather date slot: the literal relative token, left for later
/// resolution.
pub open spec fn plain_date_of(t: Seq<char>) -> Option<Seq<char>> {
    if contains_seq(t, "tomorrow"@) {
        Some("tomorrow"@)
    } else if contains_seq(t, "today"@) {
        Some("today"@)
    } else {
        None
    }
}

/// What the heuristic extractor yields for `s`, against the date `t0`.
pub open spec fn extract_spec(s: Seq<char>, t0: Date) -> crate::model::IntentPayloadView {
    let t = lower(s);
    let intent = intent_of(t);
    let weather = intent == IntentType::Weather;
    let wd = weather_dates(t, t0);
    crate::model::IntentPayloadView {
        intent,
        entities: crate::model::EntitiesView {
            topic: topic_of(s, t, intent),
            query: None,
            location: if weather {
                weather_location(s, t)
            } else {
                None
            },
            date: if weather {
                wd.0
            } else {
                plain_date_of(t)
            },
            date_end: if weather {
                wd.1
            } else {
                None
            },
            recipient: if intent == IntentType::Draft {
                recipient_of(s, t)
            } else {
                None
            },
            priority: None,
            weather_query: if weather {
                Some(weather_query_of(t))
            } else {
                None
            },
        },
        constraints: crate::model::ConstraintsView {
            source_preference: source_of(t),
            safety: "normal"@,
        },
    }
}

fn opt_chars_to_string(o: Option<Vec<char>>) -> (r: Option<String>)
    ensures
        crate::model::opt_view(r) == match o {
            Some(v) => Some(v@),
            None => None::<Seq<char>>,
        },
{
    match o {
        Some(v) => Some(text::chars_to_string(&v)),
        None => None,
    }
}

/// The heuristic extractor, against an explicit current date.
#[verifier::rlimit(100)]
pub fn extract_intent_on(user_text: &str, t0: &Date) -> (r: IntentPayload)
    requires
        dates::valid_date(*t0),
        t0.year <= 9998,
    ensures
        r@ == extract_spec(user_text@, *t0),
{
    let s = text::str_to_chars(user_text);
    let t = text::to_lower_vec(&s);
    let intent: IntentType = {
        if text::contains_vec(&t, &text::str_to_chars("summarize")) {
            IntentType::Summarize
        } else if text::starts_with_vec(&t, &text::str_to_chars("find")) || text::starts_with_vec(
            &t,
            &text::str_to_chars("search"),
        ) || text::contains_vec(&t, &text::str_to_chars("look for")) {
            IntentType::Find
        } else if text::contains_vec(&t, &text::str_to_chars("weather")) || text::contains_vec(
            &t,
            &text::str_to_chars("forecast"),
        ) || text::contains_vec(&t, &text::str_to_chars("will it rain")) || text::contains_vec(
            &t,
            &text::str_to_chars("will it snow"),
        ) || text::contains_vec(&t, &text::str_to_chars("bad weather")) {
            IntentType::Weather
        } else if text::contains_vec(&t, &text::str_to_chars("email")) || text::starts_with_vec(
            &t,
            &text::str_to_chars("draft"),
        ) {
            IntentType::Draft
        } else if text::contains_vec(&t, &text::str_to_chars("remind")) || text::contains_vec(
            &t,
            &text::str_to_chars("todo"),
        ) {
            IntentType::Remind
        } else {
            IntentType::Unknown
        }
    };
    let source_preference: SourcePreference = {
        if text::contains_vec(&t, &text::str_to_chars("notes")) {
            SourcePreference::Notes
        } else if text::contains_vec(&t, &text::str_to_chars("files")) {
            SourcePreference::Files
        } else {
            SourcePreference::Either
        }
    };
    let topic: Option<Vec<char>> = {
        let about = text::str_to_chars("about");
        proof {
            reveal_strlit("about");
            reveal_strlit(" ");
        }
        match text::find_vec(&t, &about, 0) {
            Some(idx) => {
                let tl = t.len();
                proof {
                    text::lemma_find_from_bounds(t@, about@, 0);
                    assert(idx + 5 <= tl);
                    assert(s@.len() == t@.len());
                }
                let cut = text::subvec(&s, idx + 5, s.len());
                proof {
                    assert(s@.skip(idx + 5) =~= s@.subrange(idx + 5, s@.len() as int));
                }
                Some(text::trim_vec(&cut))
            }
            None => {
                let space = text::str_to_chars(" ");
                let is_search = match intent {
                    IntentType::Summarize | IntentType::Find => true,
                    _ => false,
                };
                if is_search {
                    match text::find_vec(&s, &space, 0) {
                        Some(k) => {
                            let sl = s.len();
                            proof {
                                text::lemma_find_from_bounds(s@, space@, 0);
                                assert(k + 1 <= sl);
                            }
                            let cut = text::subvec(&s, k + 1, s.len());
                            proof {
                                assert(s@.skip(k + 1 as int)
                                    =~= s@.subrange(k + 1 as int, s@.len() as int));
                            }
                            Some(text::trim_vec(&cut))
                        }
                        None => None,
                    }
                } else {
                    None
                }
            }
        }
    };
    let weather = match intent {
        IntentType::Weather => true,
        _ => false,
    };
    let location: Option<Vec<char>> = if weather {
        weather_location_vec(&s, &t)
    } else {
        None
    };
    let weather_query: Option<WeatherQueryType> = if weather {
        Some(
            if text::contains_vec(&t, &text::str_to_chars("bad weather")) || text::contains_vec(
                &t,
                &text::str_to_chars("expecting"),
            ) || text::contains_vec(&t, &text::str_to_chars("will it rain")) || text::contains_vec(
                &t,
                &text::str_to_chars("will it snow"),
            ) || text::contains_vec(&t, &text::str_to_chars("expect rain")) || text::contains_vec(
                &t,
                &text::str_to_chars("expect snow"),
            ) {
                WeatherQueryType::Assessment
            } else if text::contains_vec(&t, &text::str_to_chars("forecast")) || text::contains_vec(
                &t,
                &text::str_to_chars("next week"),
            ) || (text::contains_vec(&t, &text::str_to_chars("next ")) && text::contains_vec(
                &t,
                &text::str_to_chars(" days"),
            )) {
                WeatherQueryType::Forecast
            } else {
                WeatherQueryType::Current
            },
        )
    } else {
        None
    };
    let (date, date_end): (Option<Vec<char>>, Option<Vec<char>>) = if weather {
        weather_dates_vec(&t, t0)
    } else {
        (
            if text::contains_vec(&t, &text::str_to_chars("tomorrow")) {
                Some(text::str_to_chars("tomorrow"))
            } else if text::contains_vec(&t, &text::str_to_chars("today")) {
                Some(text::str_to_chars("today"))
            } else {
                None
            },
            None,
        )
    };
    let recipient: Option<Vec<char>> = {
        let is_draft = match intent {
            IntentType::Draft => true,
            _ => false,
        };
        if is_draft {
            recipient_of_vec(&s, &t)
        } else {
            None
        }
    };
    let entities = Entities {
        topic: opt_chars_to_string(topic),
        query: None,
        location: opt_chars_to_string(location),
        date: opt_chars_to_string(date),
        date_end: opt_chars_to_string(date_end),
        recipient: opt_chars_to_string(recipient),
        priority: None,
        weather_query,
    };
    let constraints = Constraints { source_preference, safety: "normal".to_owned() };
    IntentPayload { intent, entities, constraints }
}

fn weather_dates_vec(t: &Vec<char>, t0: &Date) -> (r: (Option<Vec<char>>, Option<Vec<char>>))
    requires
        dates::valid_date(*t0),
        t0.year <= 9998,
    ensures
        (match r.0 {
            Some(v) => Some(v@),
            None => None::<Seq<char>>,
        }) == weather_dates(t@, *t0).0,
        (match r.1 {
            Some(v) => Some(v@),
            None => None::<Seq<char>>,
        }) == weather_dates(t@, *t0).1,
{
    if text::contains_vec(t, &text::str_to_chars("next week")) {
        proof {
            dates::lemma_can_add_small(*t0, 6);
        }
        match dates::add_days(t0, 6) {
            Some(e) => {
                let a = text::str_to_chars(dates::format_date(t0).as_str());
                let b = text::str_to_chars(dates::format_date(&e).as_str());
                return (Some(a), Some(b));
            }
            None => {
                proof {
                    assert(false);
                }
                return (None, None);
            }
        }
    }
    if text::contains_vec(t, &text::str_to_chars("this weekend")) {
        let wd = dates::weekday_number(t0);
        let k: u64 = if wd <= 5 { 5 - wd } else { 6 };
        proof {
            dates::lemma_can_add_small(*t0, k as nat);
        }
        match dates::add_days(t0, k) {
            Some(sat) => {
                proof {
                    dates::lemma_small_add_shape(*t0, k as nat);
                }
                match dates::next_day(&sat) {
                    Some(sun) => {
                        let a = text::str_to_chars(dates::format_date(&sat).as_str());
                        let b = text::str_to_chars(dates::format_date(&sun).as_str());
                        return (Some(a), Some(b));
                    }
                    None => {
                        proof {
                            assert(false);
                        }
                        return (None, None);
                    }
                }
            }
            None => {
                proof {
                    assert(false);
                }
                return (None, None);
            }
        }
    }
    match next_n_days_in_vec(t) {
        Some(n) => {
            let off: u64 = if n == 0 { 0 } else { n - 1 };
            match dates::add_days(t0, off) {
                Some(e) => {
                    let a = text::str_to_chars(dates::format_date(t0).as_str());
                    let b = text::str_to_chars(dates::format_date(&e).as_str());
                    return (Some(a), Some(b));
                }
                None => {
                    let mut lit = text::str_to_chars("next ");
                    let w = next_n_days_word_vec(t);
                    text::push_all(&mut lit, &w);
                    let tail = text::str_to_chars(" days");
                    text::push_all(&mut lit, &tail);
                    proof {
                        assert(lit@ =~= "next "@ + next_n_days_word(t@) + " days"@);
                    }
                    return (Some(lit), None);
                }
            }
        }
        None => {}
    }
    if text::contains_vec(t, &text::str_to_chars("forecast")) && !text::contains_vec(
        t,
        &text::str_to_chars("tomorrow"),
    ) && !text::contains_vec(t, &text::str_to_chars("today")) {
        proof {
            dates::lemma_can_add_small(*t0, 6);
        }
        match dates::add_days(t0, 6) {
            Some(e) => {
                let a = text::str_to_chars(dates::format_date(t0).as_str());
                let b = text::str_to_chars(dates::format_date(&e).as_str());
                return (Some(a), Some(b));
            }
            None => {
                proof {
                    assert(false);
                }
                return (None, None);
            }
        }
    }
    if text::contains_vec(t, &text::str_to_chars("tomorrow")) {
        match dates::next_day(t0) {
            Some(e) => {
                return (Some(text::str_to_chars(dates::format_date(&e).as_str())), None);
            }
            None => {
                proof {
                    assert(false);
                }
                return (None, None);
            }
        }
    }
    if text::contains_vec(t, &text::str_to_chars("today")) {
        return (Some(text::str_to_chars(dates::format_date(t0).as_str())), None);
    }
    (None, None)
}

fn next_n_days_word_vec(t: &Vec<char>) -> (r: Vec<char>)
    ensures
        r@ == next_n_days_word(t@),
{
    proof {
        reveal_strlit("next ");
    }
    let pat = text::str_to_chars("next ");
    match text::find_vec(t, &pat, 0) {
        None => Vec::new(),
        Some(idx) => {
            let tl = t.len();
            proof {
                text::lemma_find_from_bounds(t@, pat@, 0);
                assert(idx + 5 <= tl);
            }
            let after = text::subvec(t, idx + 5, tl);
            proof {
                assert(t@.skip(idx + 5) =~= t@.subrange(idx + 5, t@.len() as int));
            }
            let a0 = skip_spaces_vec(&after, 0);
            let b0 = word_end_vec(&after, a0);
            text::subvec(&after, a0, b0)
        }
    }
}

fn recipient_of_vec(s: &Vec<char>, t: &Vec<char>) -> (r: Option<Vec<char>>)
    requires
        t@.len() == s@.len(),
    ensures
        (match r {
            Some(v) => Some(v@),
            None => None::<Seq<char>>,
        }) == recipient_of(s@, t@),
{
    proof {
        reveal_strlit("email to ");
        reveal_strlit("mail to ");
        reveal_strlit("email");
        reveal_strlit(" to ");
    }
    let p1 = text::str_to_chars("email to ");
    match text::find_vec(t, &p1, 0) {
        Some(idx) => {
            let tl = t.len();
            proof {
                text::lemma_find_from_bounds(t@, p1@, 0);
                assert(idx + 9 <= tl);
            }
            return recipient_at_vec(s, idx + 9);
        }
        None => {}
    }
    let p2 = text::str_to_chars("mail to ");
    match text::find_vec(t, &p2, 0) {
        Some(idx) => {
            let tl = t.len();
            proof {
                text::lemma_find_from_bounds(t@, p2@, 0);
                assert(idx + 8 <= tl);
            }
            return recipient_at_vec(s, idx + 8);
        }
        None => {}
    }
    let p3 = text::str_to_chars("email");
    match text::find_vec(t, &p3, 0) {
        Some(eidx) => {
            let p4 = text::str_to_chars(" to ");
            match text::find_vec(t, &p4, eidx) {
                Some(g) => {
                    let tl = t.len();
                    proof {
                        text::lemma_find_from_bounds(t@, p4@, eidx as int);
                        assert(g + 4 <= tl);
                    }
                    recipient_at_vec(s, g + 4)
                }
                None => None,
            }
        }
        None => None,
    }
}

fn recipient_at_vec(s: &Vec<char>, i: usize) -> (r: Option<Vec<char>>)
    requires
        i <= s@.len(),
    ensures
        (match r {
            Some(v) => Some(v@),
            None => None::<Seq<char>>,
        }) == recipient_at(s@, i as int),
{
    let rest = text::subvec(s, i, s.len());
    proof {
        assert(s@.skip(i as int) =~= s@.subrange(i as int, s@.len() as int));
    }
    match first_word_vec(&rest) {
        Some(w) => Some(strip_nonalnum_end_vec(&w)),
        None => None,
    }
}

/// The heuristic extractor, against the clock's current date.
pub fn extract_intent_stub(user_text: &str) -> (r: IntentPayload)
    ensures
        exists|t0: Date|
            dates::valid_date(t0) && t0.year <= 9998 && r@ == extract_spec(user_text@, t0),
{
    let t0 = dates::today();
    extract_intent_on(user_text, &t0)
}

} // verus!
