//! Tracks and the decoding of one resolver record into a track.
use vstd::prelude::*;

verus! {

/// One playable item: its title, its length in seconds, where its audio
/// stream is, and the channel that hears about it.
pub struct SongInfo {
    pub title: String,
    pub duration_secs: u64,
    pub stream_url: String,
    pub channel: u64,
}

/// What a track is, as values.
pub struct SongView {
    pub title: Seq<char>,
    pub duration_secs: u64,
    pub stream_url: Seq<char>,
    pub channel: u64,
}

impl View for SongInfo {
    type V = SongView;

    open spec fn view(&self) -> SongView {
        SongView {
            title: self.title@,
            duration_secs: self.duration_secs,
            stream_url: self.stream_url@,
            channel: self.channel,
        }
    }
}

impl SongInfo {
    /// A field-by-field copy; used where a track is both kept and handed on.
    pub fn copy(&self) -> (r: SongInfo)
        ensures
            r == *self,
    {
        SongInfo {
            title: self.title.clone(),
            duration_secs: self.duration_secs,
            stream_url: self.stream_url.clone(),
            channel: self.channel,
        }
    }
}

/// Why a resolver record did not become a track.
#[derive(Clone, Copy, Debug, PartialEq, Eq, Structural)]
pub enum ResolutionError {
    /// The line is not a JSON object.
    Malformed,
    /// The object lacks a string `title`, an integer `duration` or a string `url`.
    MissingField,
}

/// Whether a text is one JSON object, as serde_json reads it.
pub uninterp spec fn is_json_object(s: Seq<char>) -> bool;

/// The string that serde_json finds under `key` when it reads `line` as a
/// JSON object; `None` when the line is no object or holds no string there.
pub uninterp spec fn json_text_of(line: Seq<char>, key: Seq<char>) -> Option<Seq<char>>;

/// The unsigned integer that serde_json finds under `key` when it reads
/// `line` as a JSON object; `None` when the line is no object or holds no
/// such integer there.
pub uninterp spec fn json_count_of(line: Seq<char>, key: Seq<char>) -> Option<u64>;

/// Relies on serde_json::from_str, read into a map: it succeeds exactly when
/// the text is one JSON object.
#[verifier::external_body]
fn parses_as_object(line: &str) -> (r: bool)
    ensures
        r == is_json_object(line@),
{
    serde_json::from_str::<serde_json::Map<String, serde_json::Value>>(line).is_ok()
}

/// Relies on serde_json::from_str into a map, then Map::get and Value::as_str:
/// the string under `key` of the object that `line` holds.
#[verifier::external_body]
fn text_of(line: &str, key: &str) -> (r: Option<String>)
    ensures
        match r {
            Some(s) => json_text_of(line@, key@) == Some(s@),
            None => json_text_of(line@, key@) is None,
        },
        r is Some ==> is_json_object(line@),
{
    let m = serde_json::from_str::<serde_json::Map<String, serde_json::Value>>(line).ok()?;
    let s = m.get(key)?.as_str()?;
    Some(s.to_string())
}

/// Relies on serde_json::from_str into a map, then Map::get and Value::as_u64:
/// the unsigned integer under `key` of the object that `line` holds.
#[verifier::external_body]
fn count_of(line: &str, key: &str) -> (r: Option<u64>)
    ensures
        r == json_count_of(line@, key@),
        r is Some ==> is_json_object(line@),
{
    let m = serde_json::from_str::<serde_json::Map<String, serde_json::Value>>(line).ok()?;
    m.get(key)?.as_u64()
}

/// A line is a usable record: a JSON object with a string `title`, an
/// unsigned integer `duration` and a string `url`.
pub open spec fn record_ok(line: Seq<char>) -> bool {
    &&& is_json_object(line)
    &&& json_text_of(line, "title"@) is Some
    &&& json_count_of(line, "duration"@) is Some
    &&& json_text_of(line, "url"@) is Some
}

/// The track that a usable record describes, for replies to `channel`.
pub open spec fn track_of(line: Seq<char>, channel: u64) -> SongView {
    SongView {
        title: json_text_of(line, "title"@)->Some_0,
        duration_secs: json_count_of(line, "duration"@)->Some_0,
        stream_url: json_text_of(line, "url"@)->Some_0,
        channel,
    }
}

/// The tracks that the usable records among `lines` describe, in order.
pub open spec fn tracks_of(lines: Seq<Seq<char>>, channel: u64) -> Seq<SongView>
    decreases lines.len(),
{
    if lines.len() == 0 {
        Seq::empty()
    } else if record_ok(lines.last()) {
        tracks_of(lines.drop_last(), channel).push(track_of(lines.last(), channel))
    } else {
        tracks_of(lines.drop_last(), channel)
    }
}

/// The views of a run of tracks.
pub open spec fn views(q: Seq<SongInfo>) -> Seq<SongView> {
    q.map_values(|t: SongInfo| t@)
}

/// Appending a track appends its view.
pub proof fn lemma_views_push(q: Seq<SongInfo>, t: SongInfo)
    ensures
        views(q.push(t)) == views(q).push(t@),
{
    assert(views(q.push(t)) =~= views(q).push(t@));
}

/// Decoding a run of lines split in two decodes each part on its own.
pub proof fn lemma_tracks_of_append(a: Seq<Seq<char>>, b: Seq<Seq<char>>, channel: u64)
    ensures
        tracks_of(a + b, channel) == tracks_of(a, channel) + tracks_of(b, channel),
    decreases b.len(),
{
    if b.len() == 0 {
        assert(a + b == a);
        assert(tracks_of(a, channel) + tracks_of(b, channel) == tracks_of(a, channel));
    } else {
        assert((a + b).drop_last() == a + b.drop_last());
        assert((a + b).last() == b.last());
        lemma_tracks_of_append(a, b.drop_last(), channel);
        if record_ok(b.last()) {
            assert(tracks_of(a, channel) + tracks_of(b.drop_last(), channel).push(
                track_of(b.last(), channel),
            ) == (tracks_of(a, channel) + tracks_of(b.drop_last(), channel)).push(
                track_of(b.last(), channel),
            ));
        }
    }
}

/// A line that is not a usable record adds no track and does not keep the
/// lines after it from adding theirs: the tracks of `before`, the bad line
/// and `after` are those of `before` followed by those of `after`.
pub proof fn law_bad_line_skipped(
    before: Seq<Seq<char>>,
    bad: Seq<char>,
    after: Seq<Seq<char>>,
    channel: u64,
)
    requires
        !record_ok(bad),
    ensures
        tracks_of(before.push(bad) + after, channel) == tracks_of(before, channel) + tracks_of(
            after,
            channel,
        ),
{
    lemma_tracks_of_append(before.push(bad), after, channel);
    assert(before.push(bad).drop_last() == before);
}

/// When every line is a usable record, each adds its track, in order.
pub proof fn law_all_lines_queued(lines: Seq<Seq<char>>, channel: u64)
    requires
        forall|i: int| 0 <= i < lines.len() ==> record_ok(#[trigger] lines[i]),
    ensures
        tracks_of(lines, channel).len() == lines.len(),
        forall|i: int|
            0 <= i < lines.len() ==> #[trigger] tracks_of(lines, channel)[i] == track_of(
                lines[i],
                channel,
            ),
    decreases lines.len(),
{
    if lines.len() > 0 {
        let init = lines.drop_last();
        assert forall|i: int| 0 <= i < init.len() implies record_ok(#[trigger] init[i]) by {
            assert(init[i] == lines[i]);
        }
        law_all_lines_queued(init, channel);
        assert(record_ok(lines[lines.len() - 1]));
    }
}

/// Builds a track from the three fields a record must carry.
pub fn track_from_fields(
    title: Option<String>,
    duration: Option<u64>,
    url: Option<String>,
    channel: u64,
) -> (r: Result<SongInfo, ResolutionError>)
    ensures
        (title is Some && duration is Some && url is Some) <==> r is Ok,
        r is Err ==> r == Err::<SongInfo, ResolutionError>(ResolutionError::MissingField),
        r is Ok ==> r->Ok_0 == (SongInfo {
            title: title->Some_0,
            duration_secs: duration->Some_0,
            stream_url: url->Some_0,
            channel,
        }),
{
    match (title, duration, url) {
        (Some(title), Some(duration_secs), Some(stream_url)) => Ok(
            SongInfo { title, duration_secs, stream_url, channel },
        ),
        _ => Err(ResolutionError::MissingField),
    }
}

/// Decodes one line of resolver output into a track for `channel`.
pub fn process_output(line: &str, channel: u64) -> (r: Result<SongInfo, ResolutionError>)
    ensures
        r is Ok <==> record_ok(line@),
        r is Ok ==> r->Ok_0@ == track_of(line@, channel),
        r == Err::<SongInfo, ResolutionError>(ResolutionError::Malformed) <==> !is_json_object(
            line@,
        ),
        r is Err ==> r == Err::<SongInfo, ResolutionError>(ResolutionError::Malformed) || r == Err::<
            SongInfo,
            ResolutionError,
        >(ResolutionError::MissingField),
{
    if !parses_as_object(line) {
        return Err(ResolutionError::Malformed);
    }
    let title = text_of(line, "title");
    let duration = count_of(line, "duration");
    let url = text_of(line, "url");
    track_from_fields(title, duration, url, channel)
}

} // verus!
