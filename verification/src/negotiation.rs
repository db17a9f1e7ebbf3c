//! Content negotiation: which of the media types that the server can write does an
//! `Accept` header ask for.

use crate::http::{bad, internal, lookup, Failure, HttpError, Request, Status, utf8_text};
use crate::score::{
    above, lemma_above_carries, lemma_above_strict, lemma_above_transitive, one, parse_q_value,
    score_value, Score, ScoreView,
};
use crate::text::{
    append_chars, append_str, chars_eq, chars_of, chars_start_with, copy_range, find, find_char,
    find_in, lowercase, split, split_chars, starts_with, string_of, trim, trim_chars, views,
};
use vstd::prelude::*;
use vstd::string::*;
use vstd::utf8::*;

verus! {

/// One entry of an `Accept` header: a type, a subtype, either of which may be `*`, and a
/// score.
pub struct MediaRange {
    pub main: Seq<char>,
    pub sub: Seq<char>,
    pub score: ScoreView,
}

/// The failure for a media range or a supported media type without a `/`.
pub open spec fn invalid_media_type(range: Seq<char>) -> Seq<char> {
    "Invalid media type: '"@ + range + "'"@
}

/// The score that a list of parameters gives, `current` where none of them is a `q`:
/// the last `q` counts, and each one must be a score.
pub open spec fn score_of(params: Seq<Seq<char>>, current: ScoreView) -> Result<
    ScoreView,
    Failure,
>
    decreases params.len(),
{
    if params.len() == 0 {
        Ok(current)
    } else {
        let p = trim(params[0]);
        if starts_with(p, "q="@) {
            match score_value(trim(p.skip(2))) {
                None => Err(bad("Invalid Accept media type score: "@ + p.skip(2))),
                Some(v) => score_of(params.drop_first(), v),
            }
        } else {
            score_of(params.drop_first(), current)
        }
    }
}

/// The part of an entry before its parameters.
pub open spec fn range_text(entry: Seq<char>) -> Seq<char> {
    entry.take(find(entry, ';'))
}

/// The parameters of an entry: what stands behind its first `;`.
pub open spec fn parameter_text(entry: Seq<char>) -> Seq<char> {
    if find(entry, ';') < entry.len() {
        entry.skip(find(entry, ';') + 1)
    } else {
        Seq::empty()
    }
}

/// Reads one entry of an `Accept` header. The score is 1 where no parameter gives one.
pub open spec fn parse_entry(entry: Seq<char>) -> Result<MediaRange, Failure> {
    let range = range_text(entry);
    let slash = find(range, '/');
    if slash >= range.len() {
        Err(bad(invalid_media_type(range)))
    } else {
        match score_of(split(parameter_text(entry), ';'), one()) {
            Err(e) => Err(e),
            Ok(score) => Ok(
                MediaRange {
                    main: trim(range.take(slash)),
                    sub: trim(range.skip(slash + 1)),
                    score,
                },
            ),
        }
    }
}

/// Type and subtype of a media type that the server can write; its parameters are left
/// out.
pub open spec fn candidate_parts(candidate: Seq<char>) -> Option<(Seq<char>, Seq<char>)> {
    let base = range_text(candidate);
    let slash = find(base, '/');
    if slash >= base.len() {
        None
    } else {
        Some((base.take(slash), base.skip(slash + 1)))
    }
}

/// A media range accepts a media type where type and subtype are each equal or `*`.
pub open spec fn accepts(range: MediaRange, parts: (Seq<char>, Seq<char>)) -> bool {
    (range.main == parts.0 || range.main == "*"@) && (range.sub == parts.1 || range.sub == "*"@)
}

/// The first media type from place `from` on that `range` accepts. A media type without
/// a `/` that is met on the way is an internal error.
pub open spec fn first_match(
    range: MediaRange,
    range_text: Seq<char>,
    supported: Seq<Seq<char>>,
    from: int,
) -> Result<Option<int>, Failure>
    decreases supported.len() - from,
{
    if from < 0 || from >= supported.len() {
        Ok(None)
    } else {
        match candidate_parts(supported[from]) {
            None => Err(internal(invalid_media_type(range_text))),
            Some(parts) => if accepts(range, parts) {
                Ok(Some(from))
            } else {
                first_match(range, range_text, supported, from + 1)
            },
        }
    }
}

/// The best choice so far, and its score.
pub struct Best {
    pub choice: Option<int>,
    pub score: ScoreView,
}

/// Goes through the entries in order. An entry replaces the choice only where its score
/// is above the best so far and a media type matches it; on equal scores the earlier
/// choice stays.
pub open spec fn negotiate_entries(
    entries: Seq<Seq<char>>,
    supported: Seq<Seq<char>>,
    best: Best,
) -> Result<Best, Failure>
    decreases entries.len(),
{
    if entries.len() == 0 {
        Ok(best)
    } else {
        match parse_entry(entries[0]) {
            Err(e) => Err(e),
            Ok(range) => if !above(range.score, best.score) {
                negotiate_entries(entries.drop_first(), supported, best)
            } else {
                match first_match(range, range_text(entries[0]), supported, 0) {
                    Err(e) => Err(e),
                    Ok(None) => negotiate_entries(entries.drop_first(), supported, best),
                    Ok(Some(i)) => negotiate_entries(
                        entries.drop_first(),
                        supported,
                        Best { choice: Some(i), score: range.score },
                    ),
                }
            },
        }
    }
}

/// `parts` with `separator` between them.
pub open spec fn join(parts: Seq<Seq<char>>, separator: Seq<char>) -> Seq<char>
    decreases parts.len(),
{
    if parts.len() == 0 {
        Seq::empty()
    } else if parts.len() == 1 {
        parts[0]
    } else {
        join(parts.drop_last(), separator) + separator + parts.last()
    }
}

/// The failure where no media type is acceptable: it lists those that the server writes.
pub open spec fn not_acceptable(supported: Seq<Seq<char>>) -> Failure {
    Failure {
        status: Status::NotAcceptable,
        message: "The available Content-Types are "@ + join(supported, ", "@),
    }
}

/// The place in `supported` of the media type that the text of an `Accept` header
/// selects. Scores start from 0, so an entry with score 0 selects nothing.
pub open spec fn negotiate(accept: Seq<char>, supported: Seq<Seq<char>>) -> Result<int, Failure> {
    if accept.len() == 0 {
        Ok(0)
    } else {
        match negotiate_entries(split(accept, ','), supported, Best { choice: None, score: ScoreView::Zero }) {
            Err(e) => Err(e),
            Ok(best) => match best.choice {
                Some(i) => Ok(i),
                None => Err(not_acceptable(supported)),
            },
        }
    }
}

/// The same for the header as it came: a header that is missing counts as empty, and one
/// that is no text is refused.
pub open spec fn negotiate_header(accept: Option<Seq<u8>>, supported: Seq<Seq<char>>) -> Result<
    int,
    Failure,
> {
    match accept {
        None => Ok(0),
        Some(bytes) => if !valid_utf8(bytes) {
            Err(bad("The Accept header should be a valid ASCII string"@))
        } else {
            negotiate(decode_utf8(bytes), supported)
        },
    }
}

/// The views of a list of strings.
pub open spec fn texts(list: Seq<&str>) -> Seq<Seq<char>> {
    Seq::new(list.len(), |i: int| list[i]@)
}

/// A choice, where there is one, is a place in the list.
pub proof fn lemma_first_match_in_range(
    range: MediaRange,
    range_text: Seq<char>,
    supported: Seq<Seq<char>>,
    from: int,
)
    requires
        0 <= from,
    ensures
        first_match(range, range_text, supported, from) matches Ok(Some(i)) ==> from <= i
            < supported.len() && candidate_parts(supported[i]) is Some && accepts(
            range,
            candidate_parts(supported[i])->0,
        ),
    decreases supported.len() - from,
{
    if from < supported.len() {
        match candidate_parts(supported[from]) {
            None => {},
            Some(parts) => {
                if !accepts(range, parts) {
                    lemma_first_match_in_range(range, range_text, supported, from + 1);
                }
            },
        }
    }
}

/// Going through the entries keeps the choice a place in the list of supported media types.
pub proof fn lemma_negotiate_entries_in_range(
    entries: Seq<Seq<char>>,
    supported: Seq<Seq<char>>,
    best: Best,
)
    requires
        best.choice matches Some(i) ==> 0 <= i < supported.len(),
    ensures
        negotiate_entries(entries, supported, best) matches Ok(b) ==> (b.choice matches Some(i)
            ==> 0 <= i < supported.len()),
    decreases entries.len(),
{
    if entries.len() > 0 {
        match parse_entry(entries[0]) {
            Err(e) => {},
            Ok(range) => {
                if !above(range.score, best.score) {
                    lemma_negotiate_entries_in_range(entries.drop_first(), supported, best);
                } else {
                    lemma_first_match_in_range(range, range_text(entries[0]), supported, 0);
                    match first_match(range, range_text(entries[0]), supported, 0) {
                        Err(e) => {},
                        Ok(None) => {
                            lemma_negotiate_entries_in_range(
                                entries.drop_first(),
                                supported,
                                best,
                            );
                        },
                        Ok(Some(i)) => {
                            lemma_negotiate_entries_in_range(
                                entries.drop_first(),
                                supported,
                                Best { choice: Some(i), score: range.score },
                            );
                        },
                    }
                }
            },
        }
    }
}

/// One entry of an `Accept` header, as read.
pub struct AcceptEntry {
    pub main: Vec<char>,
    pub sub: Vec<char>,
    pub score: Score,
}

impl View for AcceptEntry {
    type V = MediaRange;

    open spec fn view(&self) -> MediaRange {
        MediaRange { main: self.main@, sub: self.sub@, score: self.score@ }
    }
}

fn read_score(params: &[char]) -> (r: Result<Score, HttpError>)
    ensures
        match r {
            Ok(v) => score_of(split(params@, ';'), one()) == Ok::<ScoreView, Failure>(v@),
            Err(e) => score_of(split(params@, ';'), one()) == Err::<ScoreView, Failure>(e@),
        },
{
    let pieces = split_chars(params, ';');
    let prefix = chars_of("q=");
    proof {
        reveal_strlit("q=");
        assert(views(pieces@).skip(0) == views(pieces@));
    }
    let mut score: Score = Score::one();
    let mut k: usize = 0;
    while k < pieces.len()
        invariant
            k <= pieces@.len(),
            views(pieces@) == split(params@, ';'),
            prefix@ == "q="@,
            prefix@.len() == 2,
            score_of(split(params@, ';'), one()) == score_of(
                views(pieces@).skip(k as int),
                score@,
            ),
        decreases pieces@.len() - k,
    {
        let p = trim_chars(pieces[k].as_slice());
        proof {
            let rest = views(pieces@).skip(k as int);
            assert(rest[0] == pieces@[k as int]@);
            assert(rest.drop_first() == views(pieces@).skip(k + 1));
        }
        if chars_start_with(p.as_slice(), prefix.as_slice()) {
            let raw = copy_range(p.as_slice(), 2, p.len());
            assert(raw@ == p@.skip(2));
            let text = trim_chars(raw.as_slice());
            match parse_q_value(text.as_slice()) {
                None => {
                    let mut message = chars_of("Invalid Accept media type score: ");
                    append_chars(&mut message, raw.as_slice());
                    return Err(crate::http::bad_request(string_of(message.as_slice())));
                },
                Some(v) => {
                    score = v;
                },
            }
        }
        k = k + 1;
    }
    Ok(score)
}

fn invalid_media_type_message(range: &[char]) -> (message: String)
    ensures
        message@ == invalid_media_type(range@),
{
    let mut message = chars_of("Invalid media type: '");
    append_chars(&mut message, range);
    append_str(&mut message, "'");
    string_of(message.as_slice())
}

fn read_entry(entry: &[char]) -> (r: Result<AcceptEntry, HttpError>)
    ensures
        match r {
            Ok(a) => parse_entry(entry@) == Ok::<MediaRange, Failure>(a@),
            Err(e) => parse_entry(entry@) == Err::<MediaRange, Failure>(e@),
        },
{
    let semi = find_in(entry, ';');
    let range = copy_range(entry, 0, semi);
    assert(range@ == range_text(entry@));
    let slash = find_in(range.as_slice(), '/');
    if slash >= range.len() {
        return Err(crate::http::bad_request(invalid_media_type_message(range.as_slice())));
    }
    let params = if semi < entry.len() {
        copy_range(entry, semi + 1, entry.len())
    } else {
        Vec::new()
    };
    assert(params@ == parameter_text(entry@));
    match read_score(params.as_slice()) {
        Err(e) => Err(e),
        Ok(score) => {
            let main_text = copy_range(range.as_slice(), 0, slash);
            let sub_text = copy_range(range.as_slice(), slash + 1, range.len());
            assert(main_text@ == range@.take(slash as int));
            assert(sub_text@ == range@.skip(slash + 1));
            Ok(
                AcceptEntry {
                    main: trim_chars(main_text.as_slice()),
                    sub: trim_chars(sub_text.as_slice()),
                    score,
                },
            )
        },
    }
}

fn read_candidate(candidate: &[char]) -> (parts: Option<(Vec<char>, Vec<char>)>)
    ensures
        match parts {
            Some(p) => candidate_parts(candidate@) == Some((p.0@, p.1@)),
            None => candidate_parts(candidate@) is None,
        },
{
    let semi = find_in(candidate, ';');
    let base = copy_range(candidate, 0, semi);
    assert(base@ == range_text(candidate@));
    let slash = find_in(base.as_slice(), '/');
    if slash >= base.len() {
        None
    } else {
        let main_text = copy_range(base.as_slice(), 0, slash);
        let sub_text = copy_range(base.as_slice(), slash + 1, base.len());
        assert(main_text@ == base@.take(slash as int));
        assert(sub_text@ == base@.skip(slash + 1));
        Some((main_text, sub_text))
    }
}

fn find_match(range: &AcceptEntry, range_text: &[char], supported: &[&str]) -> (r: Result<
    Option<usize>,
    HttpError,
>)
    ensures
        match r {
            Ok(Some(i)) => first_match(range@, range_text@, texts(supported@), 0) == Ok::<
                Option<int>,
                Failure,
            >(Some(i as int)) && i < supported@.len(),
            Ok(None) => first_match(range@, range_text@, texts(supported@), 0) == Ok::<
                Option<int>,
                Failure,
            >(None),
            Err(e) => first_match(range@, range_text@, texts(supported@), 0) == Err::<
                Option<int>,
                Failure,
            >(e@),
        },
{
    let star = chars_of("*");
    let mut j: usize = 0;
    while j < supported.len()
        invariant
            j <= supported@.len(),
            star@ == "*"@,
            first_match(range@, range_text@, texts(supported@), 0) == first_match(
                range@,
                range_text@,
                texts(supported@),
                j as int,
            ),
        decreases supported@.len() - j,
    {
        let candidate = chars_of(supported[j]);
        assert(texts(supported@)[j as int] == candidate@);
        match read_candidate(candidate.as_slice()) {
            None => {
                return Err(
                    crate::http::internal_server_error(invalid_media_type_message(range_text)),
                );
            },
            Some(parts) => {
                let main_fits = chars_eq(range.main.as_slice(), parts.0.as_slice()) || chars_eq(
                    range.main.as_slice(),
                    star.as_slice(),
                );
                let sub_fits = chars_eq(range.sub.as_slice(), parts.1.as_slice()) || chars_eq(
                    range.sub.as_slice(),
                    star.as_slice(),
                );
                if main_fits && sub_fits {
                    return Ok(Some(j));
                }
            },
        }
        j = j + 1;
    }
    Ok(None)
}

/// The choice so far, as the specification counts it.
pub open spec fn choice_of(best: Option<usize>) -> Option<int> {
    match best {
        Some(i) => Some(i as int),
        None => None,
    }
}

fn join_texts(parts: &[&str], separator: &str) -> (joined: Vec<char>)
    ensures
        joined@ == join(texts(parts@), separator@),
{
    let mut joined: Vec<char> = Vec::new();
    let mut k: usize = 0;
    assert(texts(parts@).take(0) == Seq::<Seq<char>>::empty());
    while k < parts.len()
        invariant
            k <= parts@.len(),
            joined@ == join(texts(parts@).take(k as int), separator@),
        decreases parts@.len() - k,
    {
        proof {
            let next = texts(parts@).take(k + 1);
            assert(next.drop_last() == texts(parts@).take(k as int));
            assert(next.last() == parts@[k as int]@);
            assert(Seq::<char>::empty() + parts@[k as int]@ == parts@[k as int]@);
        }
        if k > 0 {
            append_str(&mut joined, separator);
        }
        append_str(&mut joined, parts[k]);
        k = k + 1;
    }
    assert(texts(parts@).take(parts@.len() as int) == texts(parts@));
    joined
}

/// The `Accept` header of a request.
pub open spec fn accept_of(request: &Request) -> Option<Seq<u8>> {
    lookup(request.headers@, lowercase("accept"@))
}

/// Selects the media type for a response: the place in `supported`, which lists the
/// media types that the server can write, best first, of the one that the request's
/// `Accept` header asks for.
pub fn content_negotiation(request: &Request, supported: &[&str]) -> (r: Result<usize, HttpError>)
    requires
        supported@.len() > 0,
    ensures
        match r {
            Ok(i) => negotiate_header(accept_of(request), texts(supported@)) == Ok::<int, Failure>(
                i as int,
            ) && i < supported@.len(),
            Err(e) => negotiate_header(accept_of(request), texts(supported@)) == Err::<
                int,
                Failure,
            >(e@),
        },
{
    let bytes = match request.header("accept") {
        None => {
            return Ok(0);
        },
        Some(bytes) => bytes,
    };
    let text = match utf8_text(bytes.as_slice()) {
        None => {
            return Err(
                crate::http::bad_request(
                    String::from_str("The Accept header should be a valid ASCII string"),
                ),
            );
        },
        Some(text) => text,
    };
    let header = chars_of(text);
    if header.len() == 0 {
        return Ok(0);
    }
    let entries = split_chars(header.as_slice(), ',');
    let mut best: Option<usize> = None;
    let mut best_score: Score = Score::Zero;
    let mut k: usize = 0;
    assert(views(entries@).skip(0) == views(entries@));
    while k < entries.len()
        invariant
            k <= entries@.len(),
            header@.len() > 0,
            negotiate_header(accept_of(request), texts(supported@)) == negotiate(
                header@,
                texts(supported@),
            ),
            views(entries@) == split(header@, ','),
            best matches Some(i) ==> i < supported@.len(),
            negotiate_entries(
                split(header@, ','),
                texts(supported@),
                Best { choice: None, score: ScoreView::Zero },
            ) == negotiate_entries(
                views(entries@).skip(k as int),
                texts(supported@),
                Best { choice: choice_of(best), score: best_score@ },
            ),
        decreases entries@.len() - k,
    {
        proof {
            let rest = views(entries@).skip(k as int);
            assert(rest[0] == entries@[k as int]@);
            assert(rest.drop_first() == views(entries@).skip(k + 1));
        }
        let entry = match read_entry(entries[k].as_slice()) {
            Err(e) => {
                return Err(e);
            },
            Ok(entry) => entry,
        };
        if entry.score.above(&best_score) {
            let semi = find_in(entries[k].as_slice(), ';');
            let range = copy_range(entries[k].as_slice(), 0, semi);
            assert(range@ == range_text(entries@[k as int]@));
            match find_match(&entry, range.as_slice(), supported) {
                Err(e) => {
                    return Err(e);
                },
                Ok(None) => {},
                Ok(Some(i)) => {
                    best = Some(i);
                    best_score = entry.score;
                },
            }
        }
        k = k + 1;
    }
    match best {
        Some(i) => Ok(i),
        None => {
            let mut message = chars_of("The available Content-Types are ");
            let list = join_texts(supported, ", ");
            append_chars(&mut message, list.as_slice());
            Err(
                HttpError { status: Status::NotAcceptable, message: string_of(message.as_slice()) },
            )
        },
    }
}

/// Whatever the header, a selected place lies in the list of supported media types.
pub proof fn lemma_negotiate_in_range(accept: Option<Seq<u8>>, supported: Seq<Seq<char>>)
    requires
        supported.len() > 0,
    ensures
        negotiate_header(accept, supported) matches Ok(i) ==> 0 <= i < supported.len(),
{
    if let Some(bytes) = accept {
        if valid_utf8(bytes) && decode_utf8(bytes).len() > 0 {
            lemma_negotiate_entries_in_range(
                split(decode_utf8(bytes), ','),
                supported,
                Best { choice: None, score: ScoreView::Zero },
            );
        }
    }
}

/// A header that is missing or empty selects the first supported media type, whatever
/// that is.
pub proof fn lemma_no_preference_selects_first(supported: Seq<Seq<char>>)
    ensures
        negotiate_header(None, supported) == Ok::<int, Failure>(0),
        negotiate_header(Some(Seq::<u8>::empty()), supported) == Ok::<int, Failure>(0),
        negotiate(Seq::<char>::empty(), supported) == Ok::<int, Failure>(0),
{
    reveal_with_fuel(valid_utf8, 2);
    reveal_with_fuel(decode_utf8, 2);
}

/// What an entry offers: its score and the media type that it selects, where it is well
/// formed and accepts one.
pub open spec fn offer(entry: Seq<char>, supported: Seq<Seq<char>>) -> Option<(ScoreView, int)> {
    match parse_entry(entry) {
        Ok(range) => match first_match(range, range_text(entry), supported, 0) {
            Ok(Some(i)) => Some((range.score, i)),
            _ => None,
        },
        Err(_) => None,
    }
}

/// Every entry is well formed, and every media type that an entry is held against has
/// its `/`.
pub open spec fn all_well_formed(entries: Seq<Seq<char>>, supported: Seq<Seq<char>>) -> bool {
    forall|k: int|
        0 <= k < entries.len() ==> (#[trigger] parse_entry(entries[k])) is Ok && first_match(
            parse_entry(entries[k])->Ok_0,
            range_text(entries[k]),
            supported,
            0,
        ) is Ok
}

/// No entry offers a score above `score`, and every entry before place `k` that offers
/// anything offers less.
pub open spec fn tops(
    entries: Seq<Seq<char>>,
    supported: Seq<Seq<char>>,
    k: int,
    score: ScoreView,
) -> bool {
    forall|j: int|
        0 <= j < entries.len() ==> ((#[trigger] offer(entries[j], supported)) matches Some(o)
            ==> !above(o.0, score) && (j < k ==> above(score, o.0)))
}

/// The entry at place `k` stands behind the choice `best`: it offers that choice at that
/// score, the score is above `floor`, no entry offers more, and no earlier entry as much.
pub open spec fn wins(
    entries: Seq<Seq<char>>,
    supported: Seq<Seq<char>>,
    k: int,
    best: Best,
    floor: ScoreView,
) -> bool {
    &&& 0 <= k < entries.len()
    &&& best.choice is Some
    &&& offer(entries[k], supported) == Some((best.score, best.choice->0))
    &&& above(best.score, floor)
    &&& tops(entries, supported, k, best.score)
}

/// Going through well-formed entries either leaves the choice as it was, and then no
/// entry offers more than the score so far; or ends with the offer of the first entry
/// among those of the highest score.
pub proof fn lemma_negotiate_entries_picks_the_top(
    entries: Seq<Seq<char>>,
    supported: Seq<Seq<char>>,
    best: Best,
)
    requires
        all_well_formed(entries, supported),
    ensures
        negotiate_entries(entries, supported, best) matches Ok(b) && ((b == best && tops(
            entries,
            supported,
            0,
            best.score,
        )) || exists|k: int| wins(entries, supported, k, b, best.score)),
    decreases entries.len(),
{
    if entries.len() > 0 {
        let rest = entries.drop_first();
        assert(parse_entry(entries[0]) is Ok);
        let range = parse_entry(entries[0])->Ok_0;
        let found = first_match(range, range_text(entries[0]), supported, 0);
        assert(found is Ok);
        assert forall|k: int| 0 <= k < rest.len() implies (#[trigger] parse_entry(rest[k])) is Ok
            && first_match(parse_entry(rest[k])->Ok_0, range_text(rest[k]), supported, 0)
            is Ok by {
            assert(rest[k] == entries[k + 1]);
            assert(parse_entry(entries[k + 1]) is Ok);
        }
        let taken = above(range.score, best.score) && found matches Ok(Some(_));
        let next = if taken {
            Best { choice: Some(found->Ok_0->0), score: range.score }
        } else {
            best
        };
        assert(negotiate_entries(entries, supported, best) == negotiate_entries(
            rest,
            supported,
            next,
        ));
        lemma_negotiate_entries_picks_the_top(rest, supported, next);
        let b = negotiate_entries(rest, supported, next)->Ok_0;
        lemma_above_strict(range.score, range.score);
        if b == next && tops(rest, supported, 0, next.score) {
            assert(tops(entries, supported, 0, b.score)) by {
                assert forall|j: int| 0 <= j < entries.len() implies ((#[trigger] offer(
                    entries[j],
                    supported,
                )) matches Some(o) ==> !above(o.0, b.score) && (j < 0 ==> above(b.score, o.0))) by {
                    if j >= 1 {
                        assert(entries[j] == rest[j - 1]);
                        let _ = offer(rest[j - 1], supported);
                    }
                }
            }
            if taken {
                assert(wins(entries, supported, 0, b, best.score));
            }
        } else {
            let k = choose|k: int| wins(rest, supported, k, b, next.score);
            assert(entries[k + 1] == rest[k]);
            lemma_above_strict(b.score, range.score);
            if taken {
                lemma_above_transitive(b.score, range.score, best.score);
            } else if offer(entries[0], supported) is Some {
                lemma_above_carries(b.score, best.score, range.score);
            }
            assert(tops(entries, supported, k + 1, b.score)) by {
                assert forall|j: int| 0 <= j < entries.len() implies ((#[trigger] offer(
                    entries[j],
                    supported,
                )) matches Some(o) ==> !above(o.0, b.score) && (j < k + 1 ==> above(
                    b.score,
                    o.0,
                ))) by {
                    if j >= 1 {
                        assert(entries[j] == rest[j - 1]);
                        let _ = offer(rest[j - 1], supported);
                    }
                }
            }
            assert(wins(entries, supported, k + 1, b, best.score));
        }
    }
}

/// Among well-formed entries the one with the highest score decides, and of several
/// with that score the first: the media type that is selected is the one that this entry
/// offers. Where nothing is acceptable, no entry offers anything at a score above zero.
pub proof fn lemma_highest_score_wins(accept: Seq<char>, supported: Seq<Seq<char>>)
    requires
        accept.len() > 0,
        all_well_formed(split(accept, ','), supported),
    ensures
        match negotiate(accept, supported) {
            Ok(i) => exists|k: int|
                wins(split(accept, ','), supported, k, Best { choice: Some(i), score: (offer(
                    split(accept, ',')[k],
                    supported,
                )->0).0 }, ScoreView::Zero),
            Err(e) => e == not_acceptable(supported) && tops(
                split(accept, ','),
                supported,
                0,
                ScoreView::Zero,
            ),
        },
{
    let entries = split(accept, ',');
    let start = Best { choice: None, score: ScoreView::Zero };
    lemma_negotiate_entries_picks_the_top(entries, supported, start);
    let b = negotiate_entries(entries, supported, start)->Ok_0;
    if !(b == start && tops(entries, supported, 0, ScoreView::Zero)) {
        let k = choose|k: int| wins(entries, supported, k, b, ScoreView::Zero);
        assert(wins(entries, supported, k, Best { choice: Some(b.choice->0), score: (offer(
            entries[k],
            supported,
        )->0).0 }, ScoreView::Zero));
    }
}

} // verus!
