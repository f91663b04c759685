//! The QQ Music reader: which of the lyrics files QQ Music keeps belongs to a track.

use vstd::prelude::*;
use crate::error::general::GeneralError;
use crate::error::{LyrixError, LyrixResult};
use crate::files::qqmusic::{extension_of, qrc_filename, track_fields};
use crate::text::eq_ignore_ascii_case;
use crate::models::track_metadata::TrackMetadata;
use crate::text::{chars_of, split_at_char, split_chars, string_of_chars, trim};

verus! {

/// What the name of a QQ Music lyrics file tells of its track, with the artists apart.
#[derive(Debug, Clone, PartialEq, Eq)]
pub struct QQMusicQrcFilenameInfo {
    /// The artists, as the name separates them by `_`.
    pub artist: Vec<String>,
    pub title: String,
    pub index: String,
    pub album: String,
}

/// The track a QQ Music lyrics file name tells of (see [`qrc_filename`]), with the artist part
/// split at every `_`.
pub fn parse_qqmusic_qrc_filename(file_name: &str) -> (r: Option<QQMusicQrcFilenameInfo>)
    ensures
        match qrc_filename(file_name@) {
            Some((artist, title, index, album)) => r matches Some(info) && info.artist.deep_view()
                == split_at_char(artist, '_') && info.title@ == title && info.index@ == index
                && info.album@ == album,
            None => r is None,
        },
{
    match crate::files::qqmusic::parse_qqmusic_qrc_filename(file_name) {
        Some(info) => {
            let cs = chars_of(info.artist.as_str());
            let parts = split_chars(cs.as_slice(), '_');
            let mut artist: Vec<String> = Vec::new();
            let mut k: usize = 0;
            while k < parts.len()
                invariant
                    k <= parts@.len(),
                    artist.deep_view() == parts.deep_view().take(k as int),
                decreases parts@.len() - k,
            {
                let s = string_of_chars(parts[k].as_slice());
                let ghost before = artist.deep_view();
                assert(parts.deep_view()[k as int] == parts[k as int]@);
                assert(parts.deep_view().take(k + 1) =~= parts.deep_view().take(k as int).push(
                    parts[k as int]@,
                ));
                artist.push(s);
                assert(artist.deep_view() =~= before.push(parts[k as int]@));
                k = k + 1;
                assert(artist.deep_view() =~= parts.deep_view().take(k as int));
            }
            assert(parts.deep_view().take(k as int) =~= parts.deep_view());
            Some(
                QQMusicQrcFilenameInfo {
                    artist,
                    title: info.title,
                    index: info.index,
                    album: info.album,
                },
            )
        },
        None => None,
    }
}

/// Whether `file_name` is the name of a QQ Music lyrics file.
pub fn is_qqmusic_qrc_filename(file_name: &str) -> (r: bool)
    ensures
        r == qrc_filename(file_name@) is Some,
{
    parse_qqmusic_qrc_filename(file_name).is_some()
}

/// The directory entry named `name` is the lyrics file of a track with this title and album
/// (the artist is not compared).
pub open spec fn qrc_entry_for(name: Option<String>, title: Seq<char>, album: Seq<char>) -> bool {
    match name {
        Some(n) => (extension_of(n@) matches Some(e) && eq_ignore_ascii_case(e, "qrc"@)) && (
        qrc_filename(n@) matches Some((_a, t, _i, al)) && t == title && al == album),
        None => false,
    }
}

/// Among the directory entries `names`, the first that is the lyrics file of `track`: the same
/// title and album, trimmed. The track's title, artist and album are all required; see
/// [`track_fields`].
pub fn find_qqmusic_qrc_path_by_metadata_in_dir(
    names: &Vec<Option<String>>,
    track: &TrackMetadata,
) -> (r: LyrixResult<Option<usize>>)
    ensures
        match (track.title, track.album, r) {
            (Some(t), Some(al), Ok(Some(i))) => match names@[i as int] {
                Some(n) => match qrc_filename(n@) {
                    Some(p) => p.1 == trim(t@) && p.3 == trim(al@),
                    None => false,
                },
                None => false,
            },
            _ => true,
        },
        match (track.title, track.artist, track.album) {
            (None, _, _) => r matches Err(
                LyrixError::General(GeneralError::MissingField { field }),
            ) && field@ == "track_metadata.title"@,
            (Some(_), None, _) => r matches Err(
                LyrixError::General(GeneralError::MissingField { field }),
            ) && field@ == "track_metadata.artist"@,
            (Some(_), Some(_), None) => r matches Err(
                LyrixError::General(GeneralError::MissingField { field }),
            ) && field@ == "track_metadata.album"@,
            (Some(t), Some(_), Some(al)) => r matches Ok(found) && match found {
                Some(i) => i < names@.len() && qrc_entry_for(names@[i as int], trim(t@), trim(al@))
                    && forall|j: int|
                    0 <= j < i ==> !qrc_entry_for(#[trigger] names@[j], trim(t@), trim(al@)),
                None => forall|j: int|
                    0 <= j < names@.len() ==> !qrc_entry_for(
                        #[trigger] names@[j],
                        trim(t@),
                        trim(al@),
                    ),
            },
        },
{
    let (title, _artist, album) = match track_fields(track) {
        Ok(f) => f,
        Err(e) => return Err(e),
    };
    let mut i: usize = 0;
    while i < names.len()
        invariant
            i <= names@.len(),
            track.title matches Some(t) && title@ == trim(t@),
            track.album matches Some(al) && album@ == trim(al@),
            track.artist is Some,
            forall|j: int| 0 <= j < i ==> !qrc_entry_for(#[trigger] names@[j], title@, album@),
        decreases names@.len() - i,
    {
        if let Some(name) = &names[i] {
            if crate::files::qqmusic::is_qrc_file(name.as_str()) {
                if let Some(info) = crate::files::qqmusic::parse_qqmusic_qrc_filename(
                    name.as_str(),
                ) {
                    if info.title == title && info.album == album {
                        return Ok(Some(i));
                    }
                }
            }
        }
        i = i + 1;
    }
    Ok(None)
}

/// The reader of the lyrics files QQ Music keeps.
pub struct QQMusicReaders;

impl QQMusicReaders {
    /// The name this reader is shown by.
    pub fn label() -> (r: &'static str)
        ensures
            r@ == "QQMusic"@,
    {
        "QQMusic"
    }
}

} // verus!
