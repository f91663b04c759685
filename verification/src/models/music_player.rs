//! The desktop players whose lyrics the library can fetch.

use vstd::prelude::*;
use crate::error::general::GeneralError;
use crate::error::{LyrixError, LyrixResult};
use crate::text::{concat_str, str_eq};

verus! {

/// A desktop music player.
#[derive(Debug, Clone, Copy, PartialEq, Eq, PartialOrd, Ord)]
pub enum MusicPlayer {
    Kugou,
    Netease,
    QQMusic,
    SodaMusic,
    Spotify,
    AppleMusic,
    MoeKoe,
    LXMusic,
    AnyListen,
}

/// The name a player is shown by.
pub open spec fn player_name(p: MusicPlayer) -> Seq<char> {
    match p {
        MusicPlayer::Kugou => "酷狗音乐"@,
        MusicPlayer::Netease => "网易云音乐"@,
        MusicPlayer::QQMusic => "QQ音乐"@,
        MusicPlayer::SodaMusic => "汽水音乐"@,
        MusicPlayer::Spotify => "Spotify"@,
        MusicPlayer::AppleMusic => "AppleMusic"@,
        MusicPlayer::MoeKoe => "MoeKoe Music"@,
        MusicPlayer::LXMusic => "落雪音乐"@,
        MusicPlayer::AnyListen => "Any Listen"@,
    }
}

/// The player that a media session's application id names.
pub open spec fn player_of_app_id(id: Seq<char>) -> Option<MusicPlayer> {
    if id == "cloudmusic.exe"@ {
        Some(MusicPlayer::Netease)
    } else if id == "qqmusic.exe"@ {
        Some(MusicPlayer::QQMusic)
    } else if id == "kugou"@ {
        Some(MusicPlayer::Kugou)
    } else if id == "\u{6c7d}\u{6c34}\u{97f3}\u{4e50}"@ {
        Some(MusicPlayer::SodaMusic)
    } else if id == "AppleInc.AppleMusicWin_nzyj5cx40ttqa!App"@ {
        Some(MusicPlayer::AppleMusic)
    } else if id == "Spotify.exe"@ {
        Some(MusicPlayer::Spotify)
    } else if id == "cn.MoeKoe.Music"@ {
        Some(MusicPlayer::MoeKoe)
    } else if id == "cn.toside.music.desktop"@ {
        Some(MusicPlayer::LXMusic)
    } else if id == "cn.toside.anylisten.desktop"@ {
        Some(MusicPlayer::AnyListen)
    } else {
        None
    }
}

impl MusicPlayer {
    /// The name the player is shown by.
    pub fn display_name(&self) -> (r: &str)
        ensures
            r@ == player_name(*self),
    {
        match self {
            MusicPlayer::Kugou => "酷狗音乐",
            MusicPlayer::Netease => "网易云音乐",
            MusicPlayer::QQMusic => "QQ音乐",
            MusicPlayer::SodaMusic => "汽水音乐",
            MusicPlayer::Spotify => "Spotify",
            MusicPlayer::AppleMusic => "AppleMusic",
            MusicPlayer::MoeKoe => "MoeKoe Music",
            MusicPlayer::LXMusic => "落雪音乐",
            MusicPlayer::AnyListen => "Any Listen",
        }
    }
}

/// The player that `app_id` names; any other id is refused as an unsupported player, with
/// the id in the error.
pub fn id2player(app_id: &str) -> (r: LyrixResult<MusicPlayer>)
    ensures
        match player_of_app_id(app_id@) {
            Some(p) => r == Ok::<MusicPlayer, LyrixError>(p),
            None => r matches Err(LyrixError::General(GeneralError::UnsupportedPlayer { name }))
                && name@ == "Unsupported appid: "@ + app_id@,
        },
{
    if str_eq(app_id, "cloudmusic.exe") {
        Ok(MusicPlayer::Netease)
    } else if str_eq(app_id, "qqmusic.exe") {
        Ok(MusicPlayer::QQMusic)
    } else if str_eq(app_id, "kugou") {
        Ok(MusicPlayer::Kugou)
    } else if str_eq(app_id, "\u{6c7d}\u{6c34}\u{97f3}\u{4e50}") {
        Ok(MusicPlayer::SodaMusic)
    } else if str_eq(app_id, "AppleInc.AppleMusicWin_nzyj5cx40ttqa!App") {
        Ok(MusicPlayer::AppleMusic)
    } else if str_eq(app_id, "Spotify.exe") {
        Ok(MusicPlayer::Spotify)
    } else if str_eq(app_id, "cn.MoeKoe.Music") {
        Ok(MusicPlayer::MoeKoe)
    } else if str_eq(app_id, "cn.toside.music.desktop") {
        Ok(MusicPlayer::LXMusic)
    } else if str_eq(app_id, "cn.toside.anylisten.desktop") {
        Ok(MusicPlayer::AnyListen)
    } else {
        Err(LyrixError::General(GeneralError::UnsupportedPlayer {
            name: concat_str("Unsupported appid: ", app_id),
        }))
    }
}

} // verus!
