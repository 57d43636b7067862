//! The transcript resolver's pure steps: discovering caption tracks in a
//! player response, selecting one by language, sniffing the document
//! format, and parsing each of the two delivery formats to plain text.

use vstd::prelude::*;
use vstd::string::*;
use crate::errors::TranscriptFailure;
use crate::json::{self, Json};
use crate::text;

verus! {

/// One selectable caption stream offered for a video.
#[derive(Debug, Clone, PartialEq)]
pub struct CaptionTrack {
    pub language_code: String,
    /// The delivery address of the caption document.
    pub base_url: String,
    /// Auto-generated ("asr") versus authored; not distinguished further.
    pub kind: String,
}

/// The two caption delivery formats.
#[derive(Debug, Clone, Copy, PartialEq, Eq, Structural)]
pub enum CaptionFormat {
    EventSegments,
    TimedTextXml,
}

/// The caption track list inside a player response, when present.
pub open spec fn spec_caption_items(player: Json) -> Option<Seq<Json>> {
    json::opt_arr(
        json::opt_get(
            json::opt_get(player.spec_get("captions"@), "playerCaptionsTracklistRenderer"@),
            "captionTracks"@,
        ),
    )
}

/// A track item's text field, empty when absent.
pub open spec fn spec_track_field(item: Json, key: Seq<char>) -> Seq<char> {
    match item.spec_get_str(key) {
        Some(s) => s,
        None => Seq::empty(),
    }
}

fn get_str_or_empty(j: &Json, key: &str) -> (r: String)
    ensures
        r@ == spec_track_field(*j, key@),
{
    match j.get_str(key) {
        Some(s) => s.clone(),
        None => String::new(),
    }
}

/// Reads the caption track list out of a player response; `None` exactly
/// when the response carries no track list.
pub fn caption_tracks(player: &Json) -> (r: Option<Vec<CaptionTrack>>)
    ensures
        (match spec_caption_items(*player) {
            Some(items) => (match r {
                Some(ts) => ts@.len() == items.len() && (forall|i: int|
                    #![auto]
                    0 <= i < items.len() ==> ts@[i].language_code@ == spec_track_field(
                        items[i],
                        "languageCode"@,
                    ) && ts@[i].base_url@ == spec_track_field(items[i], "baseUrl"@)
                        && ts@[i].kind@ == spec_track_field(items[i], "kind"@)),
                None => false,
            }),
            None => r is None,
        }),
{
    let c1 = player.get("captions");
    let c2 = json::opt_get_ref(c1, "playerCaptionsTracklistRenderer");
    let c3 = json::opt_get_ref(c2, "captionTracks");
    let items = match c3 {
        Some(j) => match j.as_arr() {
            Some(a) => a,
            None => {
                return None;
            },
        },
        None => {
            return None;
        },
    };
    let n = items.len();
    let mut ts: Vec<CaptionTrack> = Vec::new();
    let mut i: usize = 0;
    while i < n
        invariant
            n == items@.len(),
            i <= n,
            spec_caption_items(*player) == Some(items@),
            ts@.len() == i,
            forall|k: int|
                #![auto]
                0 <= k < i ==> ts@[k].language_code@ == spec_track_field(
                    items@[k],
                    "languageCode"@,
                ) && ts@[k].base_url@ == spec_track_field(items@[k], "baseUrl"@)
                    && ts@[k].kind@ == spec_track_field(items@[k], "kind"@),
        decreases n - i,
    {
        let it = &items[i];
        let track = CaptionTrack {
            language_code: get_str_or_empty(it, "languageCode"),
            base_url: get_str_or_empty(it, "baseUrl"),
            kind: get_str_or_empty(it, "kind"),
        };
        ts.push(track);
        i += 1;
    }
    Some(ts)
}

/// The first index whose language code is exactly `en`.
pub open spec fn first_exact_en(langs: Seq<Seq<char>>, i: int) -> Option<int>
    decreases langs.len() - i,
{
    if i < 0 || i >= langs.len() {
        None
    } else if langs[i] == "en"@ {
        Some(i)
    } else {
        first_exact_en(langs, i + 1)
    }
}

/// The first index whose language code starts with `en`.
pub open spec fn first_prefix_en(langs: Seq<Seq<char>>, i: int) -> Option<int>
    decreases langs.len() - i,
{
    if i < 0 || i >= langs.len() {
        None
    } else if text::occurs_at(langs[i], "en"@, 0) {
        Some(i)
    } else {
        first_prefix_en(langs, i + 1)
    }
}

/// Deterministic track choice: exact `en`, else a code with prefix `en`,
/// else the first track.
pub open spec fn spec_select_index(langs: Seq<Seq<char>>) -> int {
    match first_exact_en(langs, 0) {
        Some(i) => i,
        None => match first_prefix_en(langs, 0) {
            Some(i) => i,
            None => 0,
        },
    }
}

/// Selects the caption track to fetch; total on any non-empty list.
pub fn select_track(tracks: &Vec<CaptionTrack>) -> (r: usize)
    requires
        tracks@.len() > 0,
    ensures
        r < tracks@.len(),
        r as int == spec_select_index(tracks@.map_values(|t: CaptionTrack| t.language_code@)),
{
    let ghost langs = tracks@.map_values(|t: CaptionTrack| t.language_code@);
    let n = tracks.len();
    let mut i: usize = 0;
    while i < n
        invariant
            langs == tracks@.map_values(|t: CaptionTrack| t.language_code@),
            n == tracks@.len(),
            i <= n,
            first_exact_en(langs, 0) == first_exact_en(langs, i as int),
        decreases n - i,
    {
        if text::str_eq(tracks[i].language_code.as_str(), "en") {
            return i;
        }
        i += 1;
    }
    let mut i: usize = 0;
    while i < n
        invariant
            langs == tracks@.map_values(|t: CaptionTrack| t.language_code@),
            n == tracks@.len(),
            i <= n,
            first_exact_en(langs, 0) is None,
            first_prefix_en(langs, 0) == first_prefix_en(langs, i as int),
        decreases n - i,
    {
        if text::starts_with_str(tracks[i].language_code.as_str(), "en") {
            return i;
        }
        i += 1;
    }
    0
}

/// Format sniffing: a document whose first non-whitespace character is
/// `{` is event/segment JSON; anything else is timed-text markup.
pub open spec fn spec_detect_format(s: Seq<char>) -> CaptionFormat {
    if text::leading_ws(s) < s.len() && s[text::leading_ws(s)] == '{' {
        CaptionFormat::EventSegments
    } else {
        CaptionFormat::TimedTextXml
    }
}

pub fn detect_format(doc: &str) -> (r: CaptionFormat)
    ensures
        r == spec_detect_format(doc@),
{
    let n = doc.unicode_len();
    let mut i: usize = 0;
    while i < n && text::is_ws_char(doc.get_char(i))
        invariant
            n == doc@.len(),
            i <= n,
            forall|k: int| 0 <= k < i ==> text::is_ws(doc@[k]),
        decreases n - i,
    {
        i += 1;
    }
    proof {
        text::lemma_leading_ws_at(doc@, i as int);
    }
    if i < n && doc.get_char(i) == '{' {
        CaptionFormat::EventSegments
    } else {
        CaptionFormat::TimedTextXml
    }
}

/// One segment's text field, empty when absent.
pub open spec fn spec_seg_text(seg: Json) -> Seq<char> {
    match seg.spec_get_str("utf8"@) {
        Some(s) => s,
        None => Seq::empty(),
    }
}

/// The segment texts of one event, concatenated in order.
pub open spec fn spec_concat_segs(segs: Seq<Json>) -> Seq<char>
    decreases segs.len(),
{
    if segs.len() == 0 {
        Seq::empty()
    } else {
        spec_concat_segs(segs.drop_last()) + spec_seg_text(segs.last())
    }
}

/// The contributed strings of an event list: one normalized string per
/// event that has a `segs` array, kept when it has visible content;
/// events without `segs` are skipped.
pub open spec fn spec_event_contribs(events: Seq<Json>) -> Seq<Seq<char>>
    decreases events.len(),
{
    if events.len() == 0 {
        Seq::empty()
    } else {
        let rest = spec_event_contribs(events.drop_last());
        match json::opt_arr(events.last().spec_get("segs"@)) {
            Some(segs) => {
                let t = text::nbsp_normalize(spec_concat_segs(segs));
                if text::trim_seq(t).len() > 0 {
                    rest.push(t)
                } else {
                    rest
                }
            },
            None => rest,
        }
    }
}

/// The transcript of an event/segment document: the contributed strings
/// joined with a single space; `None` when nothing contributes.
pub open spec fn spec_events_transcript(doc: Json) -> Option<Seq<char>> {
    match json::opt_arr(doc.spec_get("events"@)) {
        Some(events) => {
            let cs = spec_event_contribs(events);
            if cs.len() > 0 {
                Some(text::join_with(cs, " "@))
            } else {
                None
            }
        },
        None => None,
    }
}

/// Extracts the transcript from a parsed event/segment document.
pub fn transcript_from_events(doc: &Json) -> (r: Result<String, TranscriptFailure>)
    ensures
        (match spec_events_transcript(*doc) {
            Some(t) => r matches Ok(s) && s@ == t,
            None => r matches Err(e) && e == TranscriptFailure::EmptyTranscript,
        }),
{
    let events = match doc.get("events") {
        Some(j) => match j.as_arr() {
            Some(a) => a,
            None => {
                return Err(TranscriptFailure::EmptyTranscript);
            },
        },
        None => {
            return Err(TranscriptFailure::EmptyTranscript);
        },
    };
    let n = events.len();
    let mut contribs: Vec<String> = Vec::new();
    let mut i: usize = 0;
    while i < n
        invariant
            n == events@.len(),
            i <= n,
            json::opt_arr((*doc).spec_get("events"@)) == Some(events@),
            contribs@.map_values(|s: String| s@) == spec_event_contribs(events@.take(i as int)),
        decreases n - i,
    {
        proof {
            assert(events@.take(i + 1).drop_last() =~= events@.take(i as int));
            assert(events@.take(i + 1).last() == events@[i as int]);
        }
        let ev = &events[i];
        match ev.get("segs") {
            Some(sj) => match sj.as_arr() {
                Some(segs) => {
                    let m = segs.len();
                    let mut line = String::new();
                    let mut k: usize = 0;
                    while k < m
                        invariant
                            m == segs@.len(),
                            k <= m,
                            line@ == text::nbsp_normalize(spec_concat_segs(segs@.take(k as int))),
                        decreases m - k,
                    {
                        proof {
                            assert(segs@.take(k + 1).drop_last() =~= segs@.take(k as int));
                            assert(segs@.take(k + 1).last() == segs@[k as int]);
                        }
                        let piece = get_str_or_empty(&segs[k], "utf8");
                        text::append_normalized(&mut line, piece.as_str());
                        proof {
                            assert(text::nbsp_normalize(spec_concat_segs(segs@.take(k + 1)))
                                =~= text::nbsp_normalize(spec_concat_segs(segs@.take(k as int)))
                                + text::nbsp_normalize(spec_seg_text(segs@[k as int])));
                        }
                        k += 1;
                    }
                    proof {
                        assert(segs@.take(m as int) =~= segs@);
                    }
                    if trim_len_positive(line.as_str()) {
                        let ghost before = contribs@.map_values(|s: String| s@);
                        contribs.push(line);
                        proof {
                            assert(contribs@.map_values(|s: String| s@) =~= before.push(
                                text::nbsp_normalize(spec_concat_segs(segs@)),
                            ));
                        }
                    }
                },
                None => {},
            },
            None => {},
        }
        i += 1;
    }
    proof {
        assert(events@.take(n as int) =~= events@);
    }
    if contribs.len() > 0 {
        Ok(text::join_all(&contribs, " "))
    } else {
        Err(TranscriptFailure::EmptyTranscript)
    }
}

/// The named character entity at the start of `s`: the replacement
/// character and the number of characters it spans.
pub open spec fn spec_named_entity(s: Seq<char>) -> Option<(char, int)> {
    if text::occurs_at(s, "&amp;"@, 0) {
        Some(('&', "&amp;"@.len() as int))
    } else if text::occurs_at(s, "&lt;"@, 0) {
        Some(('<', "&lt;"@.len() as int))
    } else if text::occurs_at(s, "&gt;"@, 0) {
        Some(('>', "&gt;"@.len() as int))
    } else if text::occurs_at(s, "&quot;"@, 0) {
        Some(('"', "&quot;"@.len() as int))
    } else if text::occurs_at(s, "&apos;"@, 0) {
        Some(('\'', "&apos;"@.len() as int))
    } else {
        None
    }
}

/// The character entity at the start of `s`: a named one, or a decimal
/// reference to a printable seven-bit character. Anything else is left
/// as literal text.
pub open spec fn spec_entity_at(s: Seq<char>) -> Option<(char, int)> {
    match spec_named_entity(s) {
        Some(e) => Some(e),
        None => if text::occurs_at(s, "&#"@, 0) {
            let m = "&#"@.len() as int;
            let e = text::first_non_digit_from(s, m);
            if m < e && e < s.len() && s[e] == ';' && 32 <= text::digits_val(s.subrange(m, e))
                <= 126 {
                Some(((text::digits_val(s.subrange(m, e)) as u8) as char, e + 1))
            } else {
                None
            }
        } else {
            None
        },
    }
}

/// `s` with its recognized character entities replaced.
pub open spec fn spec_unescape(s: Seq<char>) -> Seq<char>
    decreases s.len(),
    via spec_unescape_dec
{
    if s.len() == 0 {
        Seq::empty()
    } else if s[0] == '&' {
        match spec_entity_at(s) {
            Some(e) => seq![e.0] + spec_unescape(s.subrange(e.1, s.len() as int)),
            None => seq!['&'] + spec_unescape(s.subrange(1, s.len() as int)),
        }
    } else {
        seq![s[0]] + spec_unescape(s.subrange(1, s.len() as int))
    }
}

#[via_fn]
proof fn spec_unescape_dec(s: Seq<char>) {
    reveal_strlit("&amp;");
    reveal_strlit("&lt;");
    reveal_strlit("&gt;");
    reveal_strlit("&quot;");
    reveal_strlit("&apos;");
    reveal_strlit("&#");
    if text::occurs_at(s, "&#"@, 0) {
        text::lemma_first_non_digit_bounds(s, "&#"@.len() as int);
    }
}

fn named_entity(rem: &str) -> (r: Option<(char, usize)>)
    ensures
        (match r {
            Some(e) => spec_named_entity(rem@) == Some((e.0, e.1 as int)),
            None => spec_named_entity(rem@) is None,
        }),
{
    if text::starts_with_str(rem, "&amp;") {
        Some(('&', "&amp;".unicode_len()))
    } else if text::starts_with_str(rem, "&lt;") {
        Some(('<', "&lt;".unicode_len()))
    } else if text::starts_with_str(rem, "&gt;") {
        Some(('>', "&gt;".unicode_len()))
    } else if text::starts_with_str(rem, "&quot;") {
        Some(('"', "&quot;".unicode_len()))
    } else if text::starts_with_str(rem, "&apos;") {
        Some(('\'', "&apos;".unicode_len()))
    } else {
        None
    }
}

/// The character entity at the start of `rem`, as `spec_entity_at`.
fn entity_at(rem: &str) -> (r: Option<(char, usize)>)
    ensures
        (match r {
            Some(e) => spec_entity_at(rem@) == Some((e.0, e.1 as int)) && 1 <= e.1 <= rem@.len(),
            None => spec_entity_at(rem@) is None,
        }),
{
    let rl = rem.unicode_len();
    match named_entity(rem) {
        Some(e) => {
            proof {
                reveal_strlit("&amp;");
                reveal_strlit("&lt;");
                reveal_strlit("&gt;");
                reveal_strlit("&quot;");
                reveal_strlit("&apos;");
            }
            Some(e)
        },
        None => {
            if text::starts_with_str(rem, "&#") {
                let m = "&#".unicode_len();
                let mut j: usize = m;
                while j < rl && text::is_digit_char(rem.get_char(j))
                    invariant
                        rl == rem@.len(),
                        m <= j <= rl,
                        text::first_non_digit_from(rem@, m as int) == text::first_non_digit_from(
                            rem@,
                            j as int,
                        ),
                    decreases rl - j,
                {
                    j += 1;
                }
                proof {
                    assert(text::first_non_digit_from(rem@, j as int) == j as int || j == rl);
                    text::lemma_first_non_digit_run(rem@, m as int);
                }
                if j > m && j < rl && rem.get_char(j) == ';' {
                    let digits = rem.substring_char(m, j);
                    proof {
                        assert(text::all_digits(digits@));
                    }
                    match text::parse_u64_digits(digits) {
                        Some(v) => {
                            if 32 <= v && v <= 126 {
                                Some(((v as u8) as char, j + 1))
                            } else {
                                None
                            }
                        },
                        None => None,
                    }
                } else {
                    None
                }
            } else {
                None
            }
        },
    }
}

/// Appends `frag` with its character entities replaced.
fn append_unescaped(acc: &mut String, frag: &str)
    ensures
        final(acc)@ == old(acc)@ + spec_unescape(frag@),
{
    let n = frag.unicode_len();
    proof {
        assert(frag@.subrange(0, n as int) =~= frag@);
    }
    let mut i: usize = 0;
    while i < n
        invariant
            n == frag@.len(),
            i <= n,
            old(acc)@ + spec_unescape(frag@) == acc@ + spec_unescape(
                frag@.subrange(i as int, n as int),
            ),
        decreases n - i,
    {
        let ghost rem = frag@.subrange(i as int, n as int);
        let c = frag.get_char(i);
        if c == '&' {
            let rem_str = frag.substring_char(i, n);
            match entity_at(rem_str) {
                Some(e) => {
                    text::push_char(acc, e.0);
                    proof {
                        assert(rem.subrange(e.1 as int, rem.len() as int) =~= frag@.subrange(
                            i + e.1,
                            n as int,
                        ));
                        assert(spec_unescape(rem) == seq![e.0] + spec_unescape(
                            frag@.subrange(i + e.1, n as int),
                        ));
                        assert(acc@ + (seq![e.0] + spec_unescape(frag@.subrange(i + e.1, n as int)))
                            =~= (acc@ + seq![e.0]) + spec_unescape(
                            frag@.subrange(i + e.1, n as int),
                        ));
                    }
                    i += e.1;
                },
                None => {
                    text::push_char(acc, '&');
                    proof {
                        assert(rem.subrange(1, rem.len() as int) =~= frag@.subrange(
                            i + 1,
                            n as int,
                        ));
                        assert(spec_unescape(rem) == seq!['&'] + spec_unescape(
                            frag@.subrange(i + 1, n as int),
                        ));
                        assert(acc@ + (seq!['&'] + spec_unescape(frag@.subrange(i + 1, n as int)))
                            =~= (acc@ + seq!['&']) + spec_unescape(
                            frag@.subrange(i + 1, n as int),
                        ));
                    }
                    i += 1;
                },
            }
        } else {
            text::push_char(acc, c);
            proof {
                assert(rem.subrange(1, rem.len() as int) =~= frag@.subrange(i + 1, n as int));
                assert(spec_unescape(rem) == seq![frag@[i as int]] + spec_unescape(
                    frag@.subrange(i + 1, n as int),
                ));
                assert(acc@ + (seq![frag@[i as int]] + spec_unescape(
                    frag@.subrange(i + 1, n as int),
                )) =~= (acc@ + seq![frag@[i as int]]) + spec_unescape(
                    frag@.subrange(i + 1, n as int),
                ));
            }
            i += 1;
        }
    }
    proof {
        assert(frag@.subrange(n as int, n as int) =~= Seq::<char>::empty());
    }
}

/// Whether the string has visible (non-whitespace) content.
fn trim_len_positive(s: &str) -> (r: bool)
    ensures
        r == (text::trim_seq(s@).len() > 0),
{
    let t = text::trim_str(s);
    t.unicode_len() > 0
}

pub open spec fn spec_tag_is_decl(inner: Seq<char>) -> bool {
    inner.len() > 0 && (inner[0] == '?' || inner[0] == '!')
}

pub open spec fn spec_tag_is_close(inner: Seq<char>) -> bool {
    inner.len() > 0 && inner[0] == '/'
}

pub open spec fn spec_tag_is_self_close(inner: Seq<char>) -> bool {
    inner.len() > 0 && inner.last() == '/'
}

/// The element name inside a tag: everything before attributes or the
/// self-closing slash.
pub open spec fn spec_tag_name(t: Seq<char>) -> Seq<char> {
    crate::ids::cut_at_stops(t, seq![' ', '/'])
}

/// The elements whose content forms transcript lines.
pub open spec fn spec_is_line_elem(nm: Seq<char>) -> bool {
    nm == "p"@ || nm == "text"@
}

/// One pass over a timed-text document from position `i`: collects one
/// line per `p`/`text` element, each the element's trimmed, unescaped
/// text parts joined with a single space. `in_elem` and `parts` carry
/// the state of the element being read; an unterminated tag ends the
/// document.
pub open spec fn spec_scan(
    doc: Seq<char>,
    i: int,
    in_elem: bool,
    parts: Seq<Seq<char>>,
    lines: Seq<Seq<char>>,
) -> Seq<Seq<char>>
    decreases doc.len() - i,
    via spec_scan_dec
{
    if i < 0 || i >= doc.len() {
        lines
    } else if doc[i] == '<' {
        match text::find_at(doc, ">"@, i + 1) {
            Some(j) => {
                let inner = doc.subrange(i + 1, j);
                if spec_tag_is_decl(inner) {
                    spec_scan(doc, j + 1, in_elem, parts, lines)
                } else if spec_tag_is_close(inner) {
                    if spec_is_line_elem(spec_tag_name(inner.drop_first())) {
                        if in_elem && parts.len() > 0 {
                            spec_scan(
                                doc,
                                j + 1,
                                false,
                                Seq::empty(),
                                lines.push(text::join_with(parts, " "@)),
                            )
                        } else {
                            spec_scan(doc, j + 1, false, Seq::empty(), lines)
                        }
                    } else {
                        spec_scan(doc, j + 1, in_elem, parts, lines)
                    }
                } else if spec_tag_is_self_close(inner) {
                    spec_scan(doc, j + 1, in_elem, parts, lines)
                } else if spec_is_line_elem(spec_tag_name(inner)) {
                    spec_scan(doc, j + 1, true, Seq::empty(), lines)
                } else {
                    spec_scan(doc, j + 1, in_elem, parts, lines)
                }
            },
            None => lines,
        }
    } else {
        let j = (match text::find_at(doc, "<"@, i) {
            Some(k) => k,
            None => doc.len() as int,
        });
        let frag = text::trim_seq(spec_unescape(doc.subrange(i, j)));
        if in_elem && frag.len() > 0 {
            spec_scan(doc, j, in_elem, parts.push(frag), lines)
        } else {
            spec_scan(doc, j, in_elem, parts, lines)
        }
    }
}

#[via_fn]
proof fn spec_scan_dec(
    doc: Seq<char>,
    i: int,
    in_elem: bool,
    parts: Seq<Seq<char>>,
    lines: Seq<Seq<char>>,
) {
    scan_step_bounds(doc, i);
}

/// The bounds that make each scan step advance: a closing `>` lies
/// beyond `i`, and the next `<` after a non-`<` position lies beyond it.
proof fn scan_step_bounds(doc: Seq<char>, i: int)
    ensures
        0 <= i < doc.len() ==> (match text::find_at(doc, ">"@, i + 1) {
            Some(j) => i + 1 <= j && j + 1 <= doc.len(),
            None => true,
        }),
        0 <= i < doc.len() && doc[i] != '<' ==> (match text::find_at(doc, "<"@, i) {
            Some(k) => i < k && k < doc.len(),
            None => true,
        }),
{
    reveal_strlit("<");
    reveal_strlit(">");
    if 0 <= i < doc.len() {
        text::lemma_find_at_props(doc, ">"@, i + 1);
        text::lemma_find_at_props(doc, "<"@, i);
        if doc[i] != '<' {
            match text::find_at(doc, "<"@, i) {
                Some(k) => {
                    assert(doc.subrange(k, k + 1) =~= seq![doc[k]]);
                    assert(doc.subrange(k, k + 1) == "<"@);
                    assert(doc[k] == "<"@[0]);
                    assert("<"@ =~= seq!['<']);
                    assert(doc[k] == '<');
                },
                None => {},
            }
        }
    }
}

/// The best-effort salvage pass: every bracket-delimited text fragment
/// with visible content, in order; markup (declarations included) is
/// skipped.
pub open spec fn spec_salvage(doc: Seq<char>, i: int, frags: Seq<Seq<char>>) -> Seq<Seq<char>>
    decreases doc.len() - i,
    via spec_salvage_dec
{
    if i < 0 || i >= doc.len() {
        frags
    } else if doc[i] == '<' {
        match text::find_at(doc, ">"@, i + 1) {
            Some(j) => spec_salvage(doc, j + 1, frags),
            None => frags,
        }
    } else {
        let j = (match text::find_at(doc, "<"@, i) {
            Some(k) => k,
            None => doc.len() as int,
        });
        let frag = text::trim_seq(spec_unescape(doc.subrange(i, j)));
        if frag.len() > 0 {
            spec_salvage(doc, j, frags.push(frag))
        } else {
            spec_salvage(doc, j, frags)
        }
    }
}

#[via_fn]
proof fn spec_salvage_dec(doc: Seq<char>, i: int, frags: Seq<Seq<char>>) {
    scan_step_bounds(doc, i);
}

/// The transcript of a timed-text document: the element lines joined
/// with newlines, falling back to the salvaged fragments when no line
/// was produced; `None` when both come up empty.
pub open spec fn spec_xml_transcript(doc: Seq<char>) -> Option<Seq<char>> {
    let lines = spec_scan(doc, 0, false, Seq::empty(), Seq::empty());
    if lines.len() > 0 {
        Some(text::join_with(lines, "\n"@))
    } else {
        let frags = spec_salvage(doc, 0, Seq::empty());
        if frags.len() > 0 {
            Some(text::join_with(frags, "\n"@))
        } else {
            None
        }
    }
}

fn scan_lines(doc: &str) -> (r: Vec<String>)
    ensures
        r@.map_values(|s: String| s@) == spec_scan(doc@, 0, false, Seq::empty(), Seq::empty()),
{
    let n = doc.unicode_len();
    let stops = vec![' ', '/'];
    proof {
        assert(stops@ =~= seq![' ', '/']);
        assert(Seq::<String>::empty().map_values(|s: String| s@) =~= Seq::<Seq<char>>::empty());
    }
    let mut lines: Vec<String> = Vec::new();
    let mut parts: Vec<String> = Vec::new();
    let mut in_elem = false;
    let mut i: usize = 0;
    while i < n
        invariant
            n == doc@.len(),
            i <= n,
            stops@ == seq![' ', '/'],
            spec_scan(doc@, 0, false, Seq::empty(), Seq::empty()) == spec_scan(
                doc@,
                i as int,
                in_elem,
                parts@.map_values(|s: String| s@),
                lines@.map_values(|s: String| s@),
            ),
        decreases n - i,
    {
        let ghost pv = parts@.map_values(|s: String| s@);
        let ghost lv = lines@.map_values(|s: String| s@);
        proof {
            scan_step_bounds(doc@, i as int);
        }
        let c = doc.get_char(i);
        if c == '<' {
            match text::find_from(doc, ">", i + 1) {
                Some(j) => {
                    let inner = doc.substring_char(i + 1, j);
                    let il = inner.unicode_len();
                    let is_decl = il > 0 && (inner.get_char(0) == '?' || inner.get_char(0)
                        == '!');
                    let is_close = il > 0 && inner.get_char(0) == '/';
                    let is_self = il > 0 && inner.get_char(il - 1) == '/';
                    if is_decl {
                    } else if is_close {
                        let tail = inner.substring_char(1, il);
                        proof {
                            assert(tail@ =~= inner@.drop_first());
                        }
                        let nm = crate::ids::cut_prefix(tail, &stops);
                        if text::str_eq(nm, "p") || text::str_eq(nm, "text") {
                            if in_elem && parts.len() > 0 {
                                let line = text::join_all(&parts, " ");
                                lines.push(line);
                                proof {
                                    assert(lines@.map_values(|s: String| s@) =~= lv.push(
                                        text::join_with(pv, " "@),
                                    ));
                                }
                            }
                            in_elem = false;
                            parts = Vec::new();
                            proof {
                                assert(parts@.map_values(|s: String| s@) =~= Seq::<
                                    Seq<char>,
                                >::empty());
                            }
                        }
                    } else if is_self {
                    } else {
                        let nm = crate::ids::cut_prefix(inner, &stops);
                        if text::str_eq(nm, "p") || text::str_eq(nm, "text") {
                            in_elem = true;
                            parts = Vec::new();
                            proof {
                                assert(parts@.map_values(|s: String| s@) =~= Seq::<
                                    Seq<char>,
                                >::empty());
                            }
                        }
                    }
                    i = j + 1;
                },
                None => {
                    return lines;
                },
            }
        } else {
            let j = match text::find_from(doc, "<", i) {
                Some(k) => k,
                None => n,
            };
            let fragsrc = doc.substring_char(i, j);
            let mut frag = String::new();
            append_unescaped(&mut frag, fragsrc);
            let t = text::trim_str(frag.as_str());
            if in_elem && t.unicode_len() > 0 {
                parts.push(t.to_owned());
                proof {
                    assert(parts@.map_values(|s: String| s@) =~= pv.push(
                        text::trim_seq(spec_unescape(doc@.subrange(i as int, j as int))),
                    ));
                }
            }
            i = j;
        }
    }
    lines
}

fn salvage_frags(doc: &str) -> (r: Vec<String>)
    ensures
        r@.map_values(|s: String| s@) == spec_salvage(doc@, 0, Seq::empty()),
{
    let n = doc.unicode_len();
    proof {
        assert(Seq::<String>::empty().map_values(|s: String| s@) =~= Seq::<Seq<char>>::empty());
    }
    let mut frags: Vec<String> = Vec::new();
    let mut i: usize = 0;
    while i < n
        invariant
            n == doc@.len(),
            i <= n,
            spec_salvage(doc@, 0, Seq::empty()) == spec_salvage(
                doc@,
                i as int,
                frags@.map_values(|s: String| s@),
            ),
        decreases n - i,
    {
        let ghost fv = frags@.map_values(|s: String| s@);
        proof {
            scan_step_bounds(doc@, i as int);
        }
        let c = doc.get_char(i);
        if c == '<' {
            match text::find_from(doc, ">", i + 1) {
                Some(j) => {
                    i = j + 1;
                },
                None => {
                    return frags;
                },
            }
        } else {
            let j = match text::find_from(doc, "<", i) {
                Some(k) => k,
                None => n,
            };
            let fragsrc = doc.substring_char(i, j);
            let mut frag = String::new();
            append_unescaped(&mut frag, fragsrc);
            let t = text::trim_str(frag.as_str());
            if t.unicode_len() > 0 {
                frags.push(t.to_owned());
                proof {
                    assert(frags@.map_values(|s: String| s@) =~= fv.push(
                        text::trim_seq(spec_unescape(doc@.subrange(i as int, j as int))),
                    ));
                }
            }
            i = j;
        }
    }
    frags
}

/// Extracts the transcript from a timed-text document.
pub fn transcript_from_xml(doc: &str) -> (r: Result<String, TranscriptFailure>)
    ensures
        (match spec_xml_transcript(doc@) {
            Some(t) => r matches Ok(s) && s@ == t,
            None => r matches Err(e) && e == TranscriptFailure::EmptyTranscript,
        }),
{
    let lines = scan_lines(doc);
    if lines.len() > 0 {
        Ok(text::join_all(&lines, "\n"))
    } else {
        let frags = salvage_frags(doc);
        if frags.len() > 0 {
            Ok(text::join_all(&frags, "\n"))
        } else {
            Err(TranscriptFailure::EmptyTranscript)
        }
    }
}

/// Parsing a caption document is a pure function of its text and the
/// sniffed format.
pub open spec fn spec_parse_document(doc: Seq<char>) -> Option<Seq<char>> {
    if spec_detect_format(doc) == CaptionFormat::EventSegments {
        match json::json_of(doc) {
            Some(j) => spec_events_transcript(j),
            None => None,
        }
    } else {
        spec_xml_transcript(doc)
    }
}

/// Detects the caption document's format and parses it to plain text;
/// a document with no usable content is an empty-transcript failure.
pub fn parse_transcript_document(doc: &str) -> (r: Result<String, TranscriptFailure>)
    ensures
        (match spec_parse_document(doc@) {
            Some(t) => r matches Ok(s) && s@ == t,
            None => r matches Err(e) && e == TranscriptFailure::EmptyTranscript,
        }),
{
    match detect_format(doc) {
        CaptionFormat::EventSegments => match json::parse_json(doc) {
            Some(j) => transcript_from_events(&j),
            None => Err(TranscriptFailure::EmptyTranscript),
        },
        CaptionFormat::TimedTextXml => transcript_from_xml(doc),
    }
}

} // verus!
