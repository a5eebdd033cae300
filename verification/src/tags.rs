//! Folding raw file tags into catalog fields: defaulting missing values,
//! last-wins accumulation over a tag list, parsing track numbers, and the
//! duration a stream's time base gives.
//!
//! Reading the tags out of files is the shell's work; it hands the tag
//! key/value pairs in as plain values.

use vstd::prelude::*;

verus! {

/// A decimal digit.
pub open spec fn is_digit(c: char) -> bool {
    ('0' as u32) <= (c as u32) && (c as u32) <= ('9' as u32)
}

/// Value of one digit.
pub open spec fn digit_val(c: char) -> int {
    (c as u32) - ('0' as u32)
}

/// Value of a digit string, most significant first.
pub open spec fn digits_val(s: Seq<char>) -> int
    decreases s.len(),
{
    if s.len() == 0 {
        0
    } else {
        digits_val(s.drop_last()) * 10 + digit_val(s.last())
    }
}

pub open spec fn all_digits(s: Seq<char>) -> bool {
    forall|i: int| 0 <= i < s.len() ==> is_digit(#[trigger] s[i])
}

/// What `u32` decimal parsing yields: an optional leading plus sign, then
/// one or more digits whose value fits; anything else is nothing.
pub open spec fn spec_parse_u32(s: Seq<char>) -> Option<u32> {
    let body = if s.len() > 0 && s[0] == '+' {
        s.drop_first()
    } else {
        s
    };
    if body.len() == 0 || !all_digits(body) {
        None
    } else if digits_val(body) > u32::MAX {
        None
    } else {
        Some(digits_val(body) as u32)
    }
}

proof fn lemma_digits_nonneg(s: Seq<char>)
    requires
        all_digits(s),
    ensures
        digits_val(s) >= 0,
    decreases s.len(),
{
    if s.len() > 0 {
        assert forall|i: int| 0 <= i < s.drop_last().len() implies is_digit(
            #[trigger] s.drop_last()[i],
        ) by {
            assert(s.drop_last()[i] == s[i]);
        };
        lemma_digits_nonneg(s.drop_last());
    }
}

/// A digit string's value only grows as digits are appended.
proof fn lemma_digits_prefix(s: Seq<char>, i: int)
    requires
        all_digits(s),
        0 <= i <= s.len(),
    ensures
        digits_val(s.take(i)) <= digits_val(s),
    decreases s.len(),
{
    if i == s.len() {
        assert(s.take(i) =~= s);
    } else {
        let head = s.drop_last();
        assert forall|k: int| 0 <= k < head.len() implies is_digit(#[trigger] head[k]) by {
            assert(head[k] == s[k]);
        };
        assert(s.take(i) =~= head.take(i));
        lemma_digits_prefix(head, i);
        lemma_digits_nonneg(head);
    }
}

/// Parse a decimal `u32` exactly as the standard parser does: an optional
/// leading plus, then digits; empty, stray characters or overflow give
/// nothing.
#[verifier::loop_isolation(false)]
pub fn parse_u32(s: &str) -> (r: Option<u32>)
    ensures
        r == spec_parse_u32(s@),
{
    let n = s.unicode_len();
    let start: usize = if n > 0 && s.get_char(0) == '+' {
        1
    } else {
        0
    };
    let ghost body = if start == 1 {
        s@.drop_first()
    } else {
        s@
    };
    proof {
        assert(body =~= s@.skip(start as int));
    }
    if n == start {
        return None;
    }
    let mut i: usize = start;
    let mut acc: u64 = 0;
    while i < n
        invariant
            start <= i <= n,
            n == s@.len(),
            body == s@.skip(start as int),
            body.len() == n - start,
            acc <= u32::MAX,
            all_digits(body.take(i - start)),
            acc == digits_val(body.take(i - start)),
        decreases n - i,
    {
        let c = s.get_char(i);
        let cu = c as u32;
        if cu < '0' as u32 || cu > '9' as u32 {
            proof {
                assert(body[i - start] == s@[i as int]);
                assert(!is_digit(body[i - start]));
            }
            return None;
        }
        let d = cu - '0' as u32;
        let newacc = acc * 10 + d as u64;
        proof {
            assert(body.take(i - start + 1).drop_last() =~= body.take(i - start));
            assert(body.take(i - start + 1).last() == body[i - start]);
            assert(body[i - start] == s@[i as int]);
        }
        if newacc > u32::MAX as u64 {
            proof {
                if all_digits(body) {
                    lemma_digits_prefix(body, i - start + 1);
                }
            }
            return None;
        }
        acc = newacc;
        i += 1;
    }
    proof {
        assert(body.take(n - start) =~= body);
    }
    Some(acc as u32)
}

/// The duration in seconds that a stream's frame count and time base
/// give: frames times the base's numerator over its denominator; nothing
/// when the base is degenerate or the result does not fit.
pub fn duration_from_time_base(n_frames: u64, numer: u32, denom: u32) -> (r: Option<u64>)
    ensures
        denom == 0 ==> r is None,
        denom > 0 ==> ({
            let q = (n_frames * numer) / (denom as int);
            if q > u64::MAX {
                r is None
            } else {
                r == Some(q as u64)
            }
        }),
{
    if denom == 0 {
        return None;
    }
    proof {
        assert((n_frames as u128) * (numer as u128) <= (u64::MAX as u128) * (u32::MAX as u128))
            by (nonlinear_arith)
            requires
                n_frames <= u64::MAX && numer <= u32::MAX,
        ;
    }
    let q = (n_frames as u128) * (numer as u128) / (denom as u128);
    if q > u64::MAX as u128 {
        None
    } else {
        Some(q as u64)
    }
}

/// The standard tag keys the catalog reads; everything else is noise.
#[derive(Debug, Clone, Copy, PartialEq, Eq, Structural)]
pub enum TagKey {
    Title,
    Artist,
    AlbumArtist,
    Album,
    TrackNumber,
    Other,
}

/// The catalog fields a tag list folds into.
pub ghost struct TagFields {
    pub title: Seq<char>,
    pub artist: Seq<char>,
    pub album: Seq<char>,
    pub album_artist: Seq<char>,
    pub track_number: Option<u32>,
}

/// The fields before any tag is read: the unknown placeholders.
pub open spec fn initial_tag_fields() -> TagFields {
    TagFields {
        title: "Unknown Title"@,
        artist: "Unknown Artist"@,
        album: "Unknown Album"@,
        album_artist: "Unknown Album Artist"@,
        track_number: None,
    }
}

/// One tag applied to the fields; a later tag overrides an earlier one.
pub open spec fn apply_tag(acc: TagFields, key: TagKey, value: Seq<char>) -> TagFields {
    match key {
        TagKey::Title => TagFields { title: value, ..acc },
        TagKey::Artist => TagFields { artist: value, ..acc },
        TagKey::AlbumArtist => TagFields { album_artist: value, ..acc },
        TagKey::Album => TagFields { album: value, ..acc },
        TagKey::TrackNumber => TagFields { track_number: spec_parse_u32(value), ..acc },
        TagKey::Other => acc,
    }
}

/// A whole tag list folded, first to last.
pub open spec fn fold_tags(tags: Seq<(TagKey, Seq<char>)>) -> TagFields
    decreases tags.len(),
{
    if tags.len() == 0 {
        initial_tag_fields()
    } else {
        apply_tag(fold_tags(tags.drop_last()), tags.last().0, tags.last().1)
    }
}

/// The exec-side result of folding a tag list.
pub struct TagSummary {
    pub title: String,
    pub artist: String,
    pub album: String,
    pub album_artist: String,
    pub track_number: Option<u32>,
}

/// Fold a file's tag list into catalog fields: each recognised key
/// overrides the previous value (last wins), a track number is parsed
/// from its text, and fields no tag names keep their unknown
/// placeholders.
#[verifier::loop_isolation(false)]
pub fn fold_std_tags(tags: &Vec<(TagKey, String)>) -> (r: TagSummary)
    ensures
        ({
            let f = fold_tags(tags@.map_values(|p: (TagKey, String)| (p.0, p.1@)));
            &&& r.title@ == f.title
            &&& r.artist@ == f.artist
            &&& r.album@ == f.album
            &&& r.album_artist@ == f.album_artist
            &&& r.track_number == f.track_number
        }),
{
    let ghost m = tags@.map_values(|p: (TagKey, String)| (p.0, p.1@));
    let mut title = "Unknown Title".to_owned();
    let mut artist = "Unknown Artist".to_owned();
    let mut album = "Unknown Album".to_owned();
    let mut album_artist = "Unknown Album Artist".to_owned();
    let mut track_number: Option<u32> = None;
    let mut i: usize = 0;
    proof {
        assert(m.take(0) =~= Seq::<(TagKey, Seq<char>)>::empty());
    }
    while i < tags.len()
        invariant
            i <= tags@.len(),
            ({
                let f = fold_tags(m.take(i as int));
                &&& title@ == f.title
                &&& artist@ == f.artist
                &&& album@ == f.album
                &&& album_artist@ == f.album_artist
                &&& track_number == f.track_number
            }),
        decreases tags@.len() - i,
    {
        proof {
            assert(m.take(i + 1).drop_last() =~= m.take(i as int));
            assert(m.take(i + 1).last() == m[i as int]);
            assert(m[i as int] == (tags@[i as int].0, tags@[i as int].1@));
        }
        let (key, value) = &tags[i];
        match key {
            TagKey::Title => {
                title = value.clone();
            },
            TagKey::Artist => {
                artist = value.clone();
            },
            TagKey::AlbumArtist => {
                album_artist = value.clone();
            },
            TagKey::Album => {
                album = value.clone();
            },
            TagKey::TrackNumber => {
                track_number = parse_u32(value.as_str());
            },
            TagKey::Other => {},
        }
        i += 1;
    }
    proof {
        assert(m.take(tags@.len() as int) =~= m);
    }
    TagSummary { title, artist, album, album_artist, track_number }
}

/// What tag-reading strategy a file's (lower-cased) extension selects.
#[derive(Debug, Clone, Copy, PartialEq, Eq, Structural)]
pub enum TagStrategy {
    Id3,
    Symphonia,
    Skip,
}

/// Pick the tag-reading strategy for an extension: mp3 files carry id3
/// tags, flac files are probed, everything else is skipped.
pub fn tag_strategy(ext: &Option<String>) -> (s: TagStrategy)
    ensures
        (match ext {
            Some(e) => if e@ == "mp3"@ {
                s is Id3
            } else if e@ == "flac"@ {
                s is Symphonia
            } else {
                s is Skip
            },
            None => s is Skip,
        }),
{
    match ext {
        Some(e) => {
            let mp3 = "mp3".to_owned();
            let flac = "flac".to_owned();
            if *e == mp3 {
                TagStrategy::Id3
            } else if *e == flac {
                TagStrategy::Symphonia
            } else {
                TagStrategy::Skip
            }
        },
        None => TagStrategy::Skip,
    }
}

} // verus!
