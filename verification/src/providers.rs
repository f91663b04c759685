//! From a player and a track to lyrics: which source is asked, what is kept of the result it
//! matched, how a local read and a network fetch that run at once are settled, and how parsed
//! lines become the lyrics handed back.

pub mod race;

use vstd::prelude::*;
use crate::error::fetcher::{AuthError, FetcherError};
use crate::error::general::GeneralError;
use crate::error::searcher::SearcherError;
use crate::error::{LyrixError, LyrixResult};
use crate::models::line_info::LineInfo;
use crate::models::lyrics_data::LyricsData;
use crate::models::music_player::{player_name, MusicPlayer};
use crate::models::session::Session;
use crate::models::track_metadata::{opt_text, TrackMetadata};
use crate::searchers::ISearchResult;
use crate::text::{concat_str, join_sep, join_strings};
use crate::fetchers::qqmusic::LyricResult1;
use vstd::utf8::{decode_utf8, valid_utf8};

verus! {

/// Lyrics as a source gave them, before parsing.
#[derive(Debug, Clone)]
pub struct RawLyrics {
    pub content: String,
    pub track_metadata: Option<TrackMetadata>,
}

/// Where the lyrics of a player are fetched from.
#[derive(Debug, Clone, PartialEq, Eq)]
pub enum FetchRoute {
    Netease,
    /// The QQ Music search, raced against the QQ Music files on this machine.
    QQMusic,
    Kugou,
    SodaMusic,
    Spotify { cookie: String },
    AppleMusic { token: String },
    /// The lyrics MoeKoe Music sends over its local websocket (`ws://127.0.0.1:6520`); they
    /// come without track metadata.
    MoeKoe,
}

/// The route of `player`, given the credentials in `session`.
pub open spec fn fetch_route(player: MusicPlayer, session: Session) -> Option<FetchRoute> {
    match player {
        MusicPlayer::Netease => Some(FetchRoute::Netease),
        MusicPlayer::QQMusic => Some(FetchRoute::QQMusic),
        MusicPlayer::Kugou => Some(FetchRoute::Kugou),
        MusicPlayer::SodaMusic => Some(FetchRoute::SodaMusic),
        MusicPlayer::Spotify => match session.spotify_cookie {
            Some(c) => Some(FetchRoute::Spotify { cookie: c }),
            None => None,
        },
        MusicPlayer::AppleMusic => match session.applemusic_token {
            Some(t) => Some(FetchRoute::AppleMusic { token: t }),
            None => None,
        },
        MusicPlayer::MoeKoe => Some(FetchRoute::MoeKoe),
        _ => None,
    }
}

/// Where to fetch the lyrics of `player` from. Spotify needs a cookie and Apple Music a token
/// in `session`; without it the request is refused for a missing credential. Players without
/// a lyrics source are refused by their display name.
pub fn plan_fetch(player: &MusicPlayer, session: &Session) -> (r: LyrixResult<FetchRoute>)
    ensures
        match fetch_route(*player, *session) {
            Some(route) => r == Ok::<FetchRoute, LyrixError>(route),
            None => match player {
                MusicPlayer::Spotify => r matches Err(
                    LyrixError::Fetcher(
                        FetcherError::Auth(AuthError::MissingCredential { provider, field }),
                    ),
                ) && provider@ == "Spotify"@ && field@ == "spotify_cookie"@,
                MusicPlayer::AppleMusic => r matches Err(
                    LyrixError::Fetcher(
                        FetcherError::Auth(AuthError::MissingCredential { provider, field }),
                    ),
                ) && provider@ == "AppleMusic"@ && field@ == "applemusic_token"@,
                _ => r matches Err(LyrixError::General(GeneralError::UnsupportedPlayer { name }))
                    && name@ == player_name(*player),
            },
        },
{
    match player {
        MusicPlayer::Netease => Ok(FetchRoute::Netease),
        MusicPlayer::QQMusic => Ok(FetchRoute::QQMusic),
        MusicPlayer::Kugou => Ok(FetchRoute::Kugou),
        MusicPlayer::SodaMusic => Ok(FetchRoute::SodaMusic),
        MusicPlayer::MoeKoe => Ok(FetchRoute::MoeKoe),
        MusicPlayer::Spotify => match &session.spotify_cookie {
            Some(c) => Ok(FetchRoute::Spotify { cookie: c.clone() }),
            None => Err(
                LyrixError::Fetcher(
                    FetcherError::Auth(
                        AuthError::MissingCredential {
                            provider: "Spotify".to_string(),
                            field: "spotify_cookie".to_string(),
                        },
                    ),
                ),
            ),
        },
        MusicPlayer::AppleMusic => match &session.applemusic_token {
            Some(t) => Ok(FetchRoute::AppleMusic { token: t.clone() }),
            None => Err(
                LyrixError::Fetcher(
                    FetcherError::Auth(
                        AuthError::MissingCredential {
                            provider: "AppleMusic".to_string(),
                            field: "applemusic_token".to_string(),
                        },
                    ),
                ),
            ),
        },
        _ => Err(
            LyrixError::General(
                GeneralError::UnsupportedPlayer { name: player.display_name().to_string() },
            ),
        ),
    }
}

/// A search that found nothing good enough is refused as no match, naming the source and the
/// title searched for.
pub fn require_match<T>(found: Option<T>, label: &str, track: &TrackMetadata) -> (r: LyrixResult<
    T,
>)
    ensures
        match found {
            Some(x) => r == Ok::<T, LyrixError>(x),
            None => r matches Err(LyrixError::Searcher(SearcherError::NoMatch { label: l, title }))
                && l@ == label@ && title@ == opt_text(track.title),
        },
{
    match found {
        Some(x) => Ok(x),
        None => {
            let title = match &track.title {
                Some(t) => t.clone(),
                None => String::new(),
            };
            Err(LyrixError::Searcher(SearcherError::NoMatch { label: label.to_string(), title }))
        },
    }
}

/// The raw lyrics fetched for the result `best`, with the metadata of that result.
pub fn network_raw_lyrics<R: ISearchResult>(content: String, best: &R) -> (r: RawLyrics)
    ensures
        r.content == content,
        r.track_metadata matches Some(m) && {
            let v = best.result_view();
            &&& m.title matches Some(t) && t@ == v.title
            &&& m.artist matches Some(a) && a@ == join_sep(v.artists, ", "@)
            &&& m.album matches Some(a) && a@ == v.album
            &&& m.album_artist is None
            &&& m.duration_ms == v.duration_ms
            &&& m.score == v.match_score
            &&& m.is_trial == v.is_trial
            &&& match m.trial {
                Some(t) => v.trial == Some((t[0], t[1])),
                None => v.trial is None,
            }
        },
{
    let title = best.title().to_string();
    let artist = join_strings(best.artists(), ", ");
    let album = best.album().to_string();
    RawLyrics {
        content,
        track_metadata: Some(
            TrackMetadata {
                title: Some(title),
                artist: Some(artist),
                album: Some(album),
                album_artist: None,
                duration_ms: best.duration_ms(),
                score: best.match_score(),
                is_trial: best.is_trial(),
                trial: best.trial(),
            },
        ),
    }
}

/// Parsed lines as the lyrics of `player`: no line at all is refused as missing content,
/// naming the player.
pub fn lyrics_from_lines(
    player: &MusicPlayer,
    lines: Vec<LineInfo>,
    track_metadata: Option<TrackMetadata>,
) -> (r: LyrixResult<LyricsData>)
    ensures
        lines@.len() == 0 ==> (r matches Err(
            LyrixError::General(GeneralError::MissingField { field }),
        ) && field@ == player_name(*player) + ": no lyrics content"@),
        lines@.len() > 0 ==> (r matches Ok(d) && d.lines == lines && d.track_metadata
            == track_metadata),
{
    if lines.len() == 0 {
        Err(
            LyrixError::General(
                GeneralError::MissingField {
                    field: concat_str(player.display_name(), ": no lyrics content"),
                },
            ),
        )
    } else {
        Ok(LyricsData { lines, track_metadata })
    }
}

/// The QRC lyrics of a QQ Music song, when the download gave some that are not empty.
pub fn qq_qrc_choice(qrc: Option<String>) -> (r: Option<String>)
    ensures
        r == match qrc {
            Some(q) => if q@.len() > 0 {
                Some(q)
            } else {
                None::<String>
            },
            None => None::<String>,
        },
{
    match qrc {
        Some(q) => if !q.as_str().is_empty() {
            Some(q)
        } else {
            None
        },
        None => None,
    }
}

/// The plain lyrics in a QQ Music lyrics reply, when the QRC lyrics could not be had: a missing
/// reply, and a reply without lyrics (or with empty ones), are refused as missing fields.
pub fn qq_lyric_choice(reply: Option<LyricResult1>) -> (r: LyrixResult<String>)
    ensures
        match reply {
            None => r matches Err(LyrixError::General(GeneralError::MissingField { field }))
                && field@ == "QQ音乐: 获取歌词失败"@,
            Some(res) => match res.lyric {
                Some(l) if l@.len() > 0 => r matches Ok(x) && x == l,
                _ => r matches Err(LyrixError::General(GeneralError::MissingField { field }))
                    && field@ == "QQ音乐: 未获取到歌词内容"@,
            },
        },
{
    let res = match reply {
        Some(res) => res,
        None => {
            return Err(
                LyrixError::General(
                    GeneralError::MissingField { field: "QQ音乐: 获取歌词失败".to_string() },
                ),
            );
        },
    };
    if let Some(l) = res.lyric {
        if !l.as_str().is_empty() {
            return Ok(l);
        }
    }
    Err(
        LyrixError::General(
            GeneralError::MissingField { field: "QQ音乐: 未获取到歌词内容".to_string() },
        ),
    )
}

/// A message of the MoeKoe websocket.
#[derive(Debug)]
pub enum WsMessage {
    Text(String),
    Binary(Vec<u8>),
    Ping,
    Pong,
    Close,
    /// Any other frame.
    Frame,
}

/// The text that a MoeKoe message carries: a text message, or a binary one that is UTF-8;
/// nothing for other messages. A close is refused: the socket closed before the lyrics came.
pub fn message_text(m: WsMessage) -> (r: LyrixResult<Option<String>>)
    ensures
        match m {
            WsMessage::Text(t) => r matches Ok(Some(x)) && x == t,
            WsMessage::Binary(b) => if valid_utf8(b@) {
                r matches Ok(Some(x)) && x@ == decode_utf8(b@)
            } else {
                r matches Ok(None)
            },
            WsMessage::Close => r matches Err(LyrixError::General(GeneralError::Internal { detail }))
                && detail@ == "MoeKoe websocket closed before lyrics arrived"@,
            _ => r matches Ok(None),
        },
{
    match m {
        WsMessage::Text(t) => Ok(Some(t)),
        WsMessage::Binary(b) => Ok(crate::codec::string_from_utf8(b)),
        WsMessage::Close => Err(
            LyrixError::General(
                GeneralError::Internal {
                    detail: "MoeKoe websocket closed before lyrics arrived".to_string(),
                },
            ),
        ),
        _ => Ok(None),
    }
}

/// The lyrics that a MoeKoe message of type `kind` carries, given its payload's `lyricsData`
/// (or the text of the error that parsing the payload gave): nothing unless the type is
/// `lyrics`; then a payload that does not parse, and missing or empty lyrics, are refused.
pub fn moekoe_lyrics(kind: &str, payload: Result<Option<String>, String>) -> (r: LyrixResult<
    Option<String>,
>)
    ensures
        kind@ != "lyrics"@ ==> r matches Ok(None),
        kind@ == "lyrics"@ ==> match payload {
            Err(e) => r matches Err(LyrixError::General(GeneralError::Internal { detail }))
                && detail@ == "MoeKoe lyrics payload parse failed: "@ + e@,
            Ok(Some(c)) if c@.len() > 0 => r matches Ok(Some(x)) && x == c,
            _ => r matches Err(LyrixError::General(GeneralError::MissingField { field }))
                && field@ == "MoeKoe lyricsData"@,
        },
{
    if !crate::text::str_eq(kind, "lyrics") {
        return Ok(None);
    }
    match payload {
        Err(e) => Err(
            LyrixError::General(
                GeneralError::Internal {
                    detail: concat_str("MoeKoe lyrics payload parse failed: ", e.as_str()),
                },
            ),
        ),
        Ok(Some(c)) => if !c.as_str().is_empty() {
            Ok(Some(c))
        } else {
            Err(
                LyrixError::General(
                    GeneralError::MissingField { field: "MoeKoe lyricsData".to_string() },
                ),
            )
        },
        Ok(None) => Err(
            LyrixError::General(GeneralError::MissingField { field: "MoeKoe lyricsData".to_string() }),
        ),
    }
}

/// The track a lyrics request is for: these fields, with the duration known and the rest at
/// their defaults.
pub fn request_track(
    title: &str,
    artist: Option<&str>,
    album: Option<&str>,
    album_artist: Option<&str>,
    duration_ms: u32,
) -> (r: TrackMetadata)
    ensures
        r.title matches Some(t) && t@ == title@,
        match artist {
            Some(a) => r.artist matches Some(x) && x@ == a@,
            None => r.artist is None,
        },
        match album {
            Some(a) => r.album matches Some(x) && x@ == a@,
            None => r.album is None,
        },
        match album_artist {
            Some(a) => r.album_artist matches Some(x) && x@ == a@,
            None => r.album_artist is None,
        },
        r.duration_ms == Some(duration_ms),
        r.score == 0,
        !r.is_trial,
        r.trial is None,
{
    TrackMetadata {
        title: Some(title.to_string()),
        artist: match artist {
            Some(a) => Some(a.to_string()),
            None => None,
        },
        album: match album {
            Some(a) => Some(a.to_string()),
            None => None,
        },
        album_artist: match album_artist {
            Some(a) => Some(a.to_string()),
            None => None,
        },
        duration_ms: Some(duration_ms),
        score: 0,
        is_trial: false,
        trial: None,
    }
}

/// The format that the lyrics of a player come in, and so the parser they need.
#[derive(Debug, Clone, Copy, PartialEq, Eq)]
pub enum ParseRoute {
    /// Netease word-synced lyrics, else Netease LRC.
    Netease,
    /// QQ Music QRC, else QQ Music LRC.
    QQMusic,
    /// Kugou KRC, decrypted first.
    Kugou,
    /// Kugou lyrics that come already decrypted (from MoeKoe Music).
    KugouPlain,
    /// Soda Music word-synced lyrics.
    SodaMusic,
    /// Spotify color lyrics (JSON).
    Spotify,
    /// Apple Music TTML.
    AppleMusic,
}

/// The parser for the lyrics of `player`. Players without a lyrics source are refused by their
/// display name.
pub fn parse_route(player: &MusicPlayer) -> (r: LyrixResult<ParseRoute>)
    ensures
        match player {
            MusicPlayer::Netease => r == Ok::<ParseRoute, LyrixError>(ParseRoute::Netease),
            MusicPlayer::QQMusic => r == Ok::<ParseRoute, LyrixError>(ParseRoute::QQMusic),
            MusicPlayer::Kugou => r == Ok::<ParseRoute, LyrixError>(ParseRoute::Kugou),
            MusicPlayer::SodaMusic => r == Ok::<ParseRoute, LyrixError>(ParseRoute::SodaMusic),
            MusicPlayer::Spotify => r == Ok::<ParseRoute, LyrixError>(ParseRoute::Spotify),
            MusicPlayer::AppleMusic => r == Ok::<ParseRoute, LyrixError>(ParseRoute::AppleMusic),
            MusicPlayer::MoeKoe => r == Ok::<ParseRoute, LyrixError>(ParseRoute::KugouPlain),
            _ => r matches Err(LyrixError::General(GeneralError::UnsupportedPlayer { name }))
                && name@ == player_name(*player),
        },
{
    match player {
        MusicPlayer::Netease => Ok(ParseRoute::Netease),
        MusicPlayer::QQMusic => Ok(ParseRoute::QQMusic),
        MusicPlayer::Kugou => Ok(ParseRoute::Kugou),
        MusicPlayer::SodaMusic => Ok(ParseRoute::SodaMusic),
        MusicPlayer::Spotify => Ok(ParseRoute::Spotify),
        MusicPlayer::AppleMusic => Ok(ParseRoute::AppleMusic),
        MusicPlayer::MoeKoe => Ok(ParseRoute::KugouPlain),
        _ => Err(
            LyrixError::General(
                GeneralError::UnsupportedPlayer { name: player.display_name().to_string() },
            ),
        ),
    }
}

} // verus!
