use vstd::prelude::*;
use vstd::string::StringExecFns;

verus! {

/// The highest quality that the account may stream.
#[derive(Debug, Clone, Copy, PartialEq, Eq, Structural)]
pub enum AudioQuality {
    Mp3,
    CD,
    HIFI96,
    HIFI192,
}

/// The code of a quality in the remote service's protocol.
pub fn convert_audio_quality(max_audio_quality: AudioQuality) -> (r: i32)
    ensures
        r == match max_audio_quality {
            AudioQuality::Mp3 => 1i32,
            AudioQuality::CD => 2i32,
            AudioQuality::HIFI96 => 3i32,
            AudioQuality::HIFI192 => 4i32,
        },
{
    match max_audio_quality {
        AudioQuality::Mp3 => 1,
        AudioQuality::CD => 2,
        AudioQuality::HIFI96 => 3,
        AudioQuality::HIFI192 => 4,
    }
}

/// A track offers hi-res audio to this account: the track has it and the
/// account may stream above CD quality.
pub fn hifi_available(track_has_hires_available: bool, max_audio_quality: AudioQuality) -> (r: bool)
    ensures
        r == (track_has_hires_available && (max_audio_quality == AudioQuality::HIFI96
            || max_audio_quality == AudioQuality::HIFI192)),
{
    if !track_has_hires_available {
        return false;
    }
    match max_audio_quality {
        AudioQuality::Mp3 => false,
        AudioQuality::CD => false,
        AudioQuality::HIFI96 => true,
        AudioQuality::HIFI192 => true,
    }
}

/// An image of an artist as the service names it.
#[derive(Debug, Clone, PartialEq)]
pub struct Image {
    pub hash: String,
    pub format: String,
}

pub open spec fn cover_base() -> Seq<char> {
    "https://static.qobuz.com/images/artists/covers/large/"@
}

/// The address of an artist's large cover.
pub fn image_to_string(value: Image) -> (r: String)
    ensures
        r@ == cover_base() + value.hash@ + seq!['.'] + value.format@,
{
    let mut r = String::new();
    r.append("https://static.qobuz.com/images/artists/covers/large/");
    r.append(value.hash.as_str());
    r.append(".");
    r.append(value.format.as_str());
    proof {
        reveal_strlit(".");
        assert(r@ =~= cover_base() + value.hash@ + seq!['.'] + value.format@);
    }
    r
}

/// The stored login of the account.
#[derive(Debug, Clone, PartialEq, Default)]
pub struct ApiConfig {
    pub username: Option<String>,
    pub password: Option<String>,
}

#[derive(Debug, Clone, PartialEq)]
pub struct Genre {
    pub id: u32,
    pub name: String,
    pub slug: String,
    pub color: String,
}

#[derive(Debug, Clone, PartialEq)]
pub struct GenreResponseInner {
    pub items: Vec<Genre>,
}

#[derive(Debug, Clone, PartialEq)]
pub struct GenreResponse {
    pub genres: GenreResponseInner,
}

/// The owner of a playlist.
#[derive(Debug, Clone, PartialEq, Default)]
pub struct Owner {
    pub id: i64,
    pub name: String,
}

/// An artist credited on a release besides its main artist.
#[derive(Debug, Clone, PartialEq, Default)]
pub struct OtherArtists {
    pub id: i64,
    pub name: String,
    pub roles: Vec<String>,
}

} // verus!
