//! What the library keeps of an audio file: its metadata, its rating and how the rating is
//! stored in the two tag formats, and which file extensions are audio files.
use std::time::Duration;

use vstd::prelude::*;
use vstd::string::StrSliceExecFns;

use crate::ansi::parse_u8;

verus! {

/// A rating of a track, from one star to five.
#[derive(Debug, Clone, Copy, PartialEq, Eq, Structural)]
pub enum AudioRating {
    Awful,
    Bad,
    Okay,
    Good,
    Amazing,
}

/// The number of stars of a rating.
pub open spec fn stars(r: AudioRating) -> int {
    match r {
        AudioRating::Awful => 1,
        AudioRating::Bad => 2,
        AudioRating::Okay => 3,
        AudioRating::Good => 4,
        AudioRating::Amazing => 5,
    }
}

/// The rating with `n` stars.
pub open spec fn rating_of_stars(n: int) -> Option<AudioRating> {
    if n == 1 {
        Some(AudioRating::Awful)
    } else if n == 2 {
        Some(AudioRating::Bad)
    } else if n == 3 {
        Some(AudioRating::Okay)
    } else if n == 4 {
        Some(AudioRating::Good)
    } else if n == 5 {
        Some(AudioRating::Amazing)
    } else {
        None
    }
}

/// The rating for a Vorbis comment value in percent: each star covers a fifth of the range,
/// and anything above 80 is five stars.
pub open spec fn rating_of_percent(n: int) -> AudioRating {
    if n <= 20 {
        AudioRating::Awful
    } else if n <= 40 {
        AudioRating::Bad
    } else if n <= 60 {
        AudioRating::Okay
    } else if n <= 80 {
        AudioRating::Good
    } else {
        AudioRating::Amazing
    }
}

/// The rating for an ID3v2 popularimeter byte: 0 is unknown, and each star covers a fifth
/// of 1 to 255.
pub open spec fn rating_of_popm(n: int) -> Option<AudioRating> {
    if n == 0 {
        None
    } else if n <= 51 {
        Some(AudioRating::Awful)
    } else if n <= 102 {
        Some(AudioRating::Bad)
    } else if n <= 153 {
        Some(AudioRating::Okay)
    } else if n <= 204 {
        Some(AudioRating::Good)
    } else {
        Some(AudioRating::Amazing)
    }
}

/// The Vorbis comment value written for a rating: twenty percent per star.
pub open spec fn percent_text(r: AudioRating) -> Seq<char> {
    match r {
        AudioRating::Awful => "20"@,
        AudioRating::Bad => "40"@,
        AudioRating::Okay => "60"@,
        AudioRating::Good => "80"@,
        AudioRating::Amazing => "100"@,
    }
}

impl AudioRating {
    /// The number of stars, from 1 to 5.
    pub fn as_u8(self) -> (n: u8)
        ensures
            n == stars(self),
    {
        match self {
            AudioRating::Awful => 1,
            AudioRating::Bad => 2,
            AudioRating::Okay => 3,
            AudioRating::Good => 4,
            AudioRating::Amazing => 5,
        }
    }

    /// The rating for the digit keys `1` to `5`.
    pub fn from_char(c: char) -> (r: Option<Self>)
        ensures
            r == (if '1' <= c <= '5' {
                rating_of_stars(c as int - '0' as int)
            } else {
                None
            }),
    {
        match c {
            '1' => Some(AudioRating::Awful),
            '2' => Some(AudioRating::Bad),
            '3' => Some(AudioRating::Okay),
            '4' => Some(AudioRating::Good),
            '5' => Some(AudioRating::Amazing),
            _ => None,
        }
    }

    /// The rating stored in a Vorbis comment: a number from 0 to 255, in percent.
    pub fn from_vorbis_comments(value: &str) -> (r: Option<Self>)
        ensures
            r == match parse_u8(value@) {
                Some(n) => Some(rating_of_percent(n as int)),
                None => None,
            },
    {
        let chars = crate::text::chars_of(value);
        proof {
            assert(chars@.subrange(0, chars@.len() as int) =~= value@);
        }
        match crate::ansi::parse_u8_range(&chars, 0, chars.len()) {
            Some(n) => Some(
                if n <= 20 {
                    AudioRating::Awful
                } else if n <= 40 {
                    AudioRating::Bad
                } else if n <= 60 {
                    AudioRating::Okay
                } else if n <= 80 {
                    AudioRating::Good
                } else {
                    AudioRating::Amazing
                },
            ),
            None => None,
        }
    }

    /// The Vorbis comment value for the rating.
    pub fn into_vorbis_comments(&self) -> (s: &'static str)
        ensures
            s@ == percent_text(*self),
    {
        match self {
            AudioRating::Awful => "20",
            AudioRating::Bad => "40",
            AudioRating::Okay => "60",
            AudioRating::Good => "80",
            AudioRating::Amazing => "100",
        }
    }

    /// The rating stored in an ID3v2 popularimeter frame.
    pub fn from_id3v2(rating: u8) -> (r: Option<Self>)
        ensures
            r == rating_of_popm(rating as int),
    {
        if rating == 0 {
            None
        } else if rating <= 51 {
            Some(AudioRating::Awful)
        } else if rating <= 102 {
            Some(AudioRating::Bad)
        } else if rating <= 153 {
            Some(AudioRating::Okay)
        } else if rating <= 204 {
            Some(AudioRating::Good)
        } else {
            Some(AudioRating::Amazing)
        }
    }

    /// The popularimeter byte for the rating: fifty per star.
    pub fn into_id3v2(&self) -> (n: u8)
        ensures
            n == 50 * stars(*self),
    {
        match self {
            AudioRating::Awful => 50,
            AudioRating::Bad => 100,
            AudioRating::Okay => 150,
            AudioRating::Good => 200,
            AudioRating::Amazing => 250,
        }
    }
}

/// A Vorbis rating percentage reads as the rating with `s` stars exactly when it lies in
/// the fifth of 0 to 100 that ends at `20 * s`: up to 20 is one star, above 80 is five.
pub proof fn law_percent_reads_as_stars(n: int)
    requires
        0 <= n <= 100,
    ensures
        stars(rating_of_percent(n)) == 1 ==> n <= 20,
        stars(rating_of_percent(n)) > 1 ==> 20 * (stars(rating_of_percent(n)) - 1) < n,
        n <= 20 * stars(rating_of_percent(n)),
        n <= 20 ==> rating_of_percent(n) == AudioRating::Awful,
        n > 80 ==> rating_of_percent(n) == AudioRating::Amazing,
{
}

/// Every non-zero popularimeter byte reads as a rating and only zero reads as none; the
/// bytes are split into five runs of fifty-one, one per star, so a byte `n` reads as the
/// rating with `s` stars exactly when `51 * (s - 1) < n <= 51 * s`. In particular 1 to 51
/// read as one star and 205 to 255 as five.
pub proof fn law_popm_bytes_read_as_stars(n: int)
    requires
        0 <= n <= 255,
    ensures
        rating_of_popm(n) is None <==> n == 0,
        n != 0 ==> 51 * (stars(rating_of_popm(n).unwrap()) - 1) < n <= 51 * stars(rating_of_popm(n).unwrap()),
        1 <= n <= 51 ==> rating_of_popm(n) == Some(AudioRating::Awful),
        205 <= n ==> rating_of_popm(n) == Some(AudioRating::Amazing),
{
}

/// Writing a rating to an ID3v2 frame and reading it back gives the same rating.
pub proof fn law_id3v2_roundtrip(r: AudioRating)
    ensures
        rating_of_popm(50 * stars(r)) == Some(r),
{
}

/// Writing a rating to a Vorbis comment and reading it back gives the same rating.
pub proof fn law_vorbis_roundtrip(r: AudioRating)
    ensures
        parse_u8(percent_text(r)) is Some,
        rating_of_percent(parse_u8(percent_text(r)).unwrap() as int) == r,
{
    match r {
        AudioRating::Awful => {
            reveal_strlit("20");
            assert(percent_text(r) =~= seq!['2', '0']);
            lemma_two_digits('2', '0');
        },
        AudioRating::Bad => {
            reveal_strlit("40");
            assert(percent_text(r) =~= seq!['4', '0']);
            lemma_two_digits('4', '0');
        },
        AudioRating::Okay => {
            reveal_strlit("60");
            assert(percent_text(r) =~= seq!['6', '0']);
            lemma_two_digits('6', '0');
        },
        AudioRating::Good => {
            reveal_strlit("80");
            assert(percent_text(r) =~= seq!['8', '0']);
            lemma_two_digits('8', '0');
        },
        AudioRating::Amazing => {
            reveal_strlit("100");
            assert(percent_text(r) =~= seq!['1', '0', '0']);
            lemma_two_digits('1', '0');
            assert(seq!['1', '0', '0'].drop_last() =~= seq!['1', '0']);
        },
    }
}

proof fn lemma_two_digits(a: char, b: char)
    ensures
        crate::ansi::digits_value(seq![a, b]) == 10 * crate::ansi::digit_value(a)
            + crate::ansi::digit_value(b),
{
    assert(seq![a, b].drop_last() =~= seq![a]);
    assert(seq![a].drop_last() =~= Seq::<char>::empty());
    assert(crate::ansi::digits_value(Seq::<char>::empty()) == 0);
    assert(crate::ansi::digits_value(seq![a]) == crate::ansi::digit_value(a));
}

/// The digit key for a rating's number of stars gives back the rating.
pub proof fn law_char_roundtrip(r: AudioRating)
    ensures
        rating_of_stars(stars(r)) == Some(r),
        1 <= stars(r) <= 5,
{
}

/// The metadata of a track that the library uses.
#[derive(Debug)]
pub struct AudioMetadata {
    title: String,
    artist: String,
    album: String,
    rating: Option<AudioRating>,
}

impl AudioMetadata {
    /// The title.
    pub closed spec fn title_spec(&self) -> Seq<char> {
        self.title@
    }

    /// The artist.
    pub closed spec fn artist_spec(&self) -> Seq<char> {
        self.artist@
    }

    /// The album.
    pub closed spec fn album_spec(&self) -> Seq<char> {
        self.album@
    }

    /// The rating.
    pub closed spec fn rating_spec(&self) -> Option<AudioRating> {
        self.rating
    }

    /// Metadata with the given fields.
    pub fn new(title: String, artist: String, album: String, rating: Option<AudioRating>) -> (m:
        Self)
        ensures
            m.title_spec() == title@,
            m.artist_spec() == artist@,
            m.album_spec() == album@,
            m.rating_spec() == rating,
    {
        AudioMetadata { title, artist, album, rating }
    }

    /// The title.
    pub fn title(&self) -> (s: &str)
        ensures
            s@ == self.title_spec(),
    {
        self.title.as_str()
    }

    /// The artist.
    pub fn artist(&self) -> (s: &str)
        ensures
            s@ == self.artist_spec(),
    {
        self.artist.as_str()
    }

    /// The album.
    pub fn album(&self) -> (s: &str)
        ensures
            s@ == self.album_spec(),
    {
        self.album.as_str()
    }

    /// The rating.
    pub fn rating(&self) -> (r: Option<AudioRating>)
        ensures
            r == self.rating_spec(),
    {
        self.rating
    }

    /// Changes the rating and nothing else.
    pub fn set_rating(&mut self, rating: Option<AudioRating>)
        ensures
            final(self).rating_spec() == rating,
            final(self).title_spec() == old(self).title_spec(),
            final(self).artist_spec() == old(self).artist_spec(),
            final(self).album_spec() == old(self).album_spec(),
    {
        self.rating = rating;
    }

    /// Metadata read from Vorbis comments: the title, artist and album values (empty when
    /// missing) and the rating read from the rating value.
    pub fn from_vorbis_comments(
        title: Option<&str>,
        artist: Option<&str>,
        album: Option<&str>,
        rating: Option<&str>,
    ) -> (m: Self)
        ensures
            m.title_spec() == (match title {
                Some(t) => t@,
                None => Seq::<char>::empty(),
            }),
            m.artist_spec() == (match artist {
                Some(t) => t@,
                None => Seq::<char>::empty(),
            }),
            m.album_spec() == (match album {
                Some(t) => t@,
                None => Seq::<char>::empty(),
            }),
            m.rating_spec() == (match rating {
                Some(v) => match parse_u8(v@) {
                    Some(n) => Some(rating_of_percent(n as int)),
                    None => None,
                },
                None => None,
            }),
    {
        AudioMetadata {
            title: owned_or_empty(title),
            artist: owned_or_empty(artist),
            album: owned_or_empty(album),
            rating: match rating {
                Some(v) => AudioRating::from_vorbis_comments(v),
                None => None,
            },
        }
    }

    /// Metadata read from an ID3v2 tag: the title, artist and album (empty when missing) and
    /// the rating read from the popularimeter byte, if there is one.
    pub fn from_id3v2(
        title: Option<&str>,
        artist: Option<&str>,
        album: Option<&str>,
        popularimeter: Option<u8>,
    ) -> (m: Self)
        ensures
            m.title_spec() == (match title {
                Some(t) => t@,
                None => Seq::<char>::empty(),
            }),
            m.artist_spec() == (match artist {
                Some(t) => t@,
                None => Seq::<char>::empty(),
            }),
            m.album_spec() == (match album {
                Some(t) => t@,
                None => Seq::<char>::empty(),
            }),
            m.rating_spec() == (match popularimeter {
                Some(p) => rating_of_popm(p as int),
                None => None,
            }),
    {
        AudioMetadata {
            title: owned_or_empty(title),
            artist: owned_or_empty(artist),
            album: owned_or_empty(album),
            rating: match popularimeter {
                Some(p) => AudioRating::from_id3v2(p),
                None => None,
            },
        }
    }
}

/// An owned copy of the text, or an empty string.
fn owned_or_empty(s: Option<&str>) -> (r: String)
    ensures
        r@ == (match s {
            Some(t) => t@,
            None => Seq::<char>::empty(),
        }),
{
    match s {
        Some(t) => crate::text::to_string(t),
        None => String::new(),
    }
}

/// The audio properties of a track that the library uses.
#[derive(Debug)]
pub struct AudioProperties {
    duration: Duration,
    bit_rate_kbps: u32,
    bit_depth: Option<u8>,
    sample_rate_khz: Option<u32>,
}

impl AudioProperties {
    /// Properties with the given duration, a bit rate of 0 and no bit depth or sample rate.
    pub fn new(duration: Duration) -> (p: Self)
        ensures
            p.duration_spec() == duration,
            p.bit_rate_spec() == 0,
            p.bit_depth_spec() == None::<u8>,
            p.sample_rate_spec() == None::<u32>,
    {
        AudioProperties { duration, bit_rate_kbps: 0, bit_depth: None, sample_rate_khz: None }
    }

    /// The same properties with a bit rate in kbps, a bit depth, and a sample rate given in
    /// Hz and kept in whole kHz.
    pub fn with_quality(self, bit_rate_kbps: u32, bit_depth: Option<u8>, sample_rate_hz: Option<
        u32,
    >) -> (p: Self)
        ensures
            p.duration_spec() == self.duration_spec(),
            p.bit_rate_spec() == bit_rate_kbps,
            p.bit_depth_spec() == bit_depth,
            p.sample_rate_spec() == match sample_rate_hz {
                Some(hz) => Some((hz / 1000) as u32),
                None => None,
            },
    {
        let sample_rate_khz = match sample_rate_hz {
            Some(hz) => Some(hz / 1000),
            None => None,
        };
        AudioProperties { duration: self.duration, bit_rate_kbps, bit_depth, sample_rate_khz }
    }

    /// The duration.
    pub closed spec fn duration_spec(&self) -> Duration {
        self.duration
    }

    /// The bit rate in kbps.
    pub closed spec fn bit_rate_spec(&self) -> u32 {
        self.bit_rate_kbps
    }

    /// The bits per sample, if known.
    pub closed spec fn bit_depth_spec(&self) -> Option<u8> {
        self.bit_depth
    }

    /// The sample rate in kHz, if known.
    pub closed spec fn sample_rate_spec(&self) -> Option<u32> {
        self.sample_rate_khz
    }

    /// The duration.
    pub fn duration(&self) -> (d: Duration)
        ensures
            d == self.duration_spec(),
    {
        self.duration
    }

    /// The bit rate in kbps.
    pub fn bit_rate_kbps(&self) -> (r: u32)
        ensures
            r == self.bit_rate_spec(),
    {
        self.bit_rate_kbps
    }

    /// The bits per sample, usually 16 or 24, if known.
    pub fn bit_depth(&self) -> (r: Option<u8>)
        ensures
            r == self.bit_depth_spec(),
    {
        self.bit_depth
    }

    /// The sample rate in kHz, if known.
    pub fn sample_rate_khz(&self) -> (r: Option<u32>)
        ensures
            r == self.sample_rate_spec(),
    {
        self.sample_rate_khz
    }
}

/// The kinds of audio file that are read.
#[derive(Debug, Clone, Copy, PartialEq, Eq, Structural)]
pub enum AudioFileExtension {
    Flac,
    Opus,
    Ogg,
    Mp3,
}

/// The lower-case extension of each kind.
pub open spec fn extension_text(e: AudioFileExtension) -> Seq<char> {
    match e {
        AudioFileExtension::Flac => "flac"@,
        AudioFileExtension::Opus => "opus"@,
        AudioFileExtension::Ogg => "ogg"@,
        AudioFileExtension::Mp3 => "mp3"@,
    }
}

/// A character with ASCII upper-case letters made lower case.
pub open spec fn ascii_lower(c: char) -> char {
    if 'A' <= c <= 'Z' {
        ((c as u32) + 32) as char
    } else {
        c
    }
}

/// Equality of two texts ignoring ASCII case.
pub open spec fn eq_ignore_ascii_case(a: Seq<char>, b: Seq<char>) -> bool {
    a.len() == b.len() && forall|i: int| 0 <= i < a.len() ==> ascii_lower(#[trigger] a[i])
        == ascii_lower(b[i])
}

/// The extension of a path's file name, as the standard library finds it.
pub uninterp spec fn path_extension(path: Seq<char>) -> Option<Seq<char>>;

/// The extension of the file name of `path`.
///
/// Calls `std::path::Path::extension` on the path; the standard library documents it as the
/// part of the file name after its last `.`, or nothing when there is no file name or no
/// such dot (a name starting with its only dot has none). That result is named
/// `path_extension`; it depends on the path alone.
#[verifier::external_body]
fn extension_of(path: &str) -> (r: Option<&str>)
    ensures
        match r {
            Some(e) => path_extension(path@) == Some(e@),
            None => path_extension(path@) is None,
        },
{
    std::path::Path::new(path).extension().and_then(|e| e.to_str())
}

/// The ASCII lower-case form of a character.
fn lower(c: char) -> (r: char)
    ensures
        r == ascii_lower(c),
{
    if 'A' <= c && c <= 'Z' {
        ((c as u32) + 32) as u8 as char
    } else {
        c
    }
}

/// Equality ignoring ASCII case.
fn ascii_eq_ignore_case(a: &str, b: &str) -> (r: bool)
    ensures
        r == eq_ignore_ascii_case(a@, b@),
{
    let n = a.unicode_len();
    if n != b.unicode_len() {
        return false;
    }
    let mut i: usize = 0;
    while i < n
        invariant
            n == a@.len(),
            n == b@.len(),
            i <= n,
            forall|k: int| 0 <= k < i ==> ascii_lower(#[trigger] a@[k]) == ascii_lower(b@[k]),
        decreases n - i,
    {
        if lower(a.get_char(i)) != lower(b.get_char(i)) {
            return false;
        }
        i = i + 1;
    }
    true
}

impl AudioFileExtension {
    /// The kind of audio file, from the path's extension in any letter case.
    pub fn from_path(path: &str) -> (r: Option<Self>)
        ensures
            match path_extension(path@) {
                Some(ext) => r == (if eq_ignore_ascii_case(ext, "flac"@) {
                    Some(AudioFileExtension::Flac)
                } else if eq_ignore_ascii_case(ext, "opus"@) {
                    Some(AudioFileExtension::Opus)
                } else if eq_ignore_ascii_case(ext, "ogg"@) {
                    Some(AudioFileExtension::Ogg)
                } else if eq_ignore_ascii_case(ext, "mp3"@) {
                    Some(AudioFileExtension::Mp3)
                } else {
                    None
                }),
                None => r is None,
            },
    {
        match extension_of(path) {
            Some(ext) => Self::from_extension(ext),
            None => None,
        }
    }

    /// The kind of audio file for an extension in any letter case.
    pub fn from_extension(ext: &str) -> (r: Option<Self>)
        ensures
            r == (if eq_ignore_ascii_case(ext@, "flac"@) {
                Some(AudioFileExtension::Flac)
            } else if eq_ignore_ascii_case(ext@, "opus"@) {
                Some(AudioFileExtension::Opus)
            } else if eq_ignore_ascii_case(ext@, "ogg"@) {
                Some(AudioFileExtension::Ogg)
            } else if eq_ignore_ascii_case(ext@, "mp3"@) {
                Some(AudioFileExtension::Mp3)
            } else {
                None
            }),
    {
        if ascii_eq_ignore_case(ext, "flac") {
            Some(AudioFileExtension::Flac)
        } else if ascii_eq_ignore_case(ext, "opus") {
            Some(AudioFileExtension::Opus)
        } else if ascii_eq_ignore_case(ext, "ogg") {
            Some(AudioFileExtension::Ogg)
        } else if ascii_eq_ignore_case(ext, "mp3") {
            Some(AudioFileExtension::Mp3)
        } else {
            None
        }
    }

    /// The lower-case extension.
    pub fn as_str(self) -> (s: &'static str)
        ensures
            s@ == extension_text(self),
    {
        match self {
            AudioFileExtension::Flac => "flac",
            AudioFileExtension::Opus => "opus",
            AudioFileExtension::Ogg => "ogg",
            AudioFileExtension::Mp3 => "mp3",
        }
    }
}

/// Every kind is recognized from its own extension.
pub proof fn law_extension_roundtrip(e: AudioFileExtension)
    ensures
        eq_ignore_ascii_case(extension_text(e), extension_text(e)),
        e == AudioFileExtension::Flac <==> eq_ignore_ascii_case(extension_text(e), "flac"@),
{
    reveal_strlit("flac");
    reveal_strlit("opus");
    reveal_strlit("ogg");
    reveal_strlit("mp3");
    if e != AudioFileExtension::Flac {
        let t = extension_text(e);
        if t.len() == 4 {
            assert(ascii_lower(t[0]) != ascii_lower("flac"@[0]));
        }
    }
}

/// A message about an audio file that could not be read or written.
#[derive(Debug)]
pub struct AudioFileReport(String);

impl AudioFileReport {
    /// A report with the given message.
    pub fn new(s: String) -> (r: Self)
        ensures
            r.message_spec() == s@,
    {
        AudioFileReport(s)
    }

    /// The message.
    pub closed spec fn message_spec(&self) -> Seq<char> {
        self.0@
    }

    /// The message.
    pub fn message(&self) -> (s: &str)
        ensures
            s@ == self.message_spec(),
    {
        self.0.as_str()
    }

    /// The message, taking the report apart.
    pub fn into_string(self) -> (s: String)
        ensures
            s@ == self.message_spec(),
    {
        self.0
    }
}

/// The kind of tag an audio file keeps its metadata in.
#[derive(Debug, Clone, Copy, PartialEq, Eq, Structural)]
pub enum TagFormat {
    VorbisComments,
    Id3v2,
}

/// How a rating is written into a file's tag: a `RATING` Vorbis comment with a value in
/// percent, or an ID3v2 popularimeter frame with a byte; no rating removes the field.
#[derive(Debug, Clone, Copy, PartialEq, Eq)]
pub enum RatingTagEdit {
    SetVorbisRating(&'static str),
    RemoveVorbisRating,
    SetPopularimeter(u8),
    RemovePopularimeter,
}

/// The tag format of each kind of file: FLAC, Opus and Ogg files keep Vorbis comments, MP3
/// files an ID3v2 tag.
pub open spec fn tag_format_of(e: AudioFileExtension) -> TagFormat {
    match e {
        AudioFileExtension::Mp3 => TagFormat::Id3v2,
        _ => TagFormat::VorbisComments,
    }
}

impl AudioFileExtension {
    /// The kind of tag the file keeps its metadata in.
    pub fn tag_format(self) -> (f: TagFormat)
        ensures
            f == tag_format_of(self),
    {
        match self {
            AudioFileExtension::Mp3 => TagFormat::Id3v2,
            _ => TagFormat::VorbisComments,
        }
    }
}

impl TagFormat {
    /// The edit that writes a rating into a tag of this format.
    pub fn rating_edit(self, rating: Option<AudioRating>) -> (e: RatingTagEdit)
        ensures
            match (self, rating) {
                (TagFormat::VorbisComments, Some(r)) => e matches RatingTagEdit::SetVorbisRating(v)
                    && v@ == percent_text(r),
                (TagFormat::VorbisComments, None) => e == RatingTagEdit::RemoveVorbisRating,
                (TagFormat::Id3v2, Some(r)) => e == RatingTagEdit::SetPopularimeter(
                    (50 * stars(r)) as u8,
                ),
                (TagFormat::Id3v2, None) => e == RatingTagEdit::RemovePopularimeter,
            },
    {
        match (self, rating) {
            (TagFormat::VorbisComments, Some(r)) => RatingTagEdit::SetVorbisRating(r.into_vorbis_comments()),
            (TagFormat::VorbisComments, None) => RatingTagEdit::RemoveVorbisRating,
            (TagFormat::Id3v2, Some(r)) => RatingTagEdit::SetPopularimeter(r.into_id3v2()),
            (TagFormat::Id3v2, None) => RatingTagEdit::RemovePopularimeter,
        }
    }
}

/// What a file's tag gives back after a rating edit is written into it: the rating read
/// from the value the edit wrote, or none after a removal.
pub open spec fn rating_read_back(e: RatingTagEdit) -> Option<AudioRating> {
    match e {
        RatingTagEdit::SetVorbisRating(v) => match parse_u8(v@) {
            Some(n) => Some(rating_of_percent(n as int)),
            None => None,
        },
        RatingTagEdit::RemoveVorbisRating => None,
        RatingTagEdit::SetPopularimeter(p) => rating_of_popm(p as int),
        RatingTagEdit::RemovePopularimeter => None,
    }
}

/// A rating written into the tag of any kind of file reads back as the same rating, and
/// no rating reads back as none.
pub proof fn law_rating_edit_roundtrip(ext: AudioFileExtension, rating: Option<AudioRating>, e: RatingTagEdit)
    requires
        match (tag_format_of(ext), rating) {
            (TagFormat::VorbisComments, Some(r)) => e matches RatingTagEdit::SetVorbisRating(v)
                && v@ == percent_text(r),
            (TagFormat::VorbisComments, None) => e == RatingTagEdit::RemoveVorbisRating,
            (TagFormat::Id3v2, Some(r)) => e == RatingTagEdit::SetPopularimeter((50 * stars(r)) as u8),
            (TagFormat::Id3v2, None) => e == RatingTagEdit::RemovePopularimeter,
        },
    ensures
        rating_read_back(e) == rating,
{
    match rating {
        Some(r) => {
            law_vorbis_roundtrip(r);
            law_id3v2_roundtrip(r);
        },
        None => {},
    }
}

} // verus!
