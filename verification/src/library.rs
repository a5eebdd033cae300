//! The artist → album → track catalog: tree bookkeeping, the flattened
//! row list the left pane shows, selection movement, and the lookups the
//! playback loop needs (`next_track_path`, `track_by_path`).
//!
//! Scanning directories and reading tags is the shell's work; it hands
//! finished `LibraryTrack` values in.  Rendering is the shell's work too;
//! the catalog exposes plain rows and indices.

use vstd::prelude::*;

use crate::order::{lemma_str_le_total, lemma_str_le_trans, str_le, str_le_exec};

verus! {

/// One row of the flattened left-pane list.
#[derive(Debug, Clone, Copy, PartialEq, Eq, Structural)]
pub enum VisibleRow {
    Artist { artist_index: usize },
    Album { artist_index: usize, album_index: usize },
}

/// What the left pane has selected.
#[derive(Debug, Clone, Copy, PartialEq, Eq, Structural)]
pub enum LibrarySelection {
    Artist { artist_index: usize },
    Album { artist_index: usize, album_index: usize },
}

/// Which pane has keyboard focus.
#[derive(PartialEq, Eq, Structural)]
pub enum LibraryFocus {
    Left,
    Right,
}

/// One catalog track, all fields plain values.
#[derive(Debug)]
pub struct LibraryTrack {
    pub path: String,
    pub title: String,
    pub artist: String,
    pub album: String,
    pub track_number: Option<u32>,
    pub album_artist: String,
    pub duration: Option<u64>,
}

impl Clone for LibraryTrack {
    fn clone(&self) -> (r: Self)
        ensures
            r == *self,
    {
        LibraryTrack {
            path: self.path.clone(),
            title: self.title.clone(),
            artist: self.artist.clone(),
            album: self.album.clone(),
            track_number: self.track_number,
            album_artist: self.album_artist.clone(),
            duration: self.duration,
        }
    }
}

/// One album under an artist.
#[derive(Debug)]
pub struct AlbumNode {
    pub name: String,
    pub tracks: Vec<LibraryTrack>,
}

/// One artist with their albums; `expanded` controls whether the albums
/// show as rows of their own.
#[derive(Debug)]
pub struct ArtistNode {
    pub name: String,
    pub albums: Vec<AlbumNode>,
    pub expanded: bool,
}

/// The selection a row stands for.
pub open spec fn spec_row_to_selection(row: VisibleRow) -> LibrarySelection {
    match row {
        VisibleRow::Artist { artist_index } => LibrarySelection::Artist { artist_index },
        VisibleRow::Album { artist_index, album_index } => LibrarySelection::Album {
            artist_index,
            album_index,
        },
    }
}

/// The rows one artist contributes: their own row, then one row per album
/// when expanded.
pub open spec fn artist_rows(a: ArtistNode, i: int) -> Seq<VisibleRow> {
    seq![(VisibleRow::Artist { artist_index: i as usize })] + if a.expanded {
        Seq::new(
            a.albums@.len(),
            |j: int| (VisibleRow::Album { artist_index: i as usize, album_index: j as usize }),
        )
    } else {
        Seq::empty()
    }
}

/// The flattened row list of the whole catalog.
pub open spec fn rows_of(artists: Seq<ArtistNode>) -> Seq<VisibleRow>
    decreases artists.len(),
{
    if artists.len() == 0 {
        Seq::empty()
    } else {
        rows_of(artists.drop_last()) + artist_rows(artists.last(), artists.len() - 1)
    }
}

/// Whether a row stands for the given selection.
pub open spec fn row_matches(row: VisibleRow, sel: Option<LibrarySelection>) -> bool {
    match sel {
        Some(s) => spec_row_to_selection(row) == s,
        None => false,
    }
}

/// Index of the first row standing for the selection, if any.
pub open spec fn first_match(rows: Seq<VisibleRow>, sel: Option<LibrarySelection>) -> Option<int>
    decreases rows.len(),
{
    if rows.len() == 0 {
        None
    } else if row_matches(rows[0], sel) {
        Some(0int)
    } else {
        match first_match(rows.drop_first(), sel) {
            Some(i) => Some(i + 1),
            None => None,
        }
    }
}

proof fn lemma_first_match_found(rows: Seq<VisibleRow>, sel: Option<LibrarySelection>, i: int)
    requires
        0 <= i < rows.len(),
        row_matches(rows[i], sel),
        forall|k: int| 0 <= k < i ==> !row_matches(rows[k], sel),
    ensures
        first_match(rows, sel) == Some(i),
    decreases i,
{
    if i == 0 {
    } else {
        assert(!row_matches(rows[0], sel));
        let rest = rows.drop_first();
        assert(rest[i - 1] == rows[i]);
        assert forall|k: int| 0 <= k < i - 1 implies !row_matches(rest[k], sel) by {
            assert(rest[k] == rows[k + 1]);
        };
        lemma_first_match_found(rest, sel, i - 1);
    }
}

proof fn lemma_first_match_none(rows: Seq<VisibleRow>, sel: Option<LibrarySelection>)
    requires
        forall|k: int| 0 <= k < rows.len() ==> !row_matches(rows[k], sel),
    ensures
        first_match(rows, sel) is None,
    decreases rows.len(),
{
    if rows.len() == 0 {
    } else {
        let rest = rows.drop_first();
        assert forall|k: int| 0 <= k < rest.len() implies !row_matches(rest[k], sel) by {
            assert(rest[k] == rows[k + 1]);
        };
        lemma_first_match_none(rest, sel);
    }
}

/// The row index the list should show for a selection: the first matching
/// row, or the top when nothing matches.
pub open spec fn shown_index(rows: Seq<VisibleRow>, sel: Option<LibrarySelection>) -> int {
    match first_match(rows, sel) {
        Some(i) => i,
        None => 0,
    }
}

/// All tracks of a run of albums, album by album, in album order.
pub open spec fn albums_tracks(albums: Seq<AlbumNode>) -> Seq<LibraryTrack>
    decreases albums.len(),
{
    if albums.len() == 0 {
        Seq::empty()
    } else {
        albums_tracks(albums.drop_last()) + albums.last().tracks@
    }
}

/// The tracks the right pane shows for the current selection: an artist
/// row shows every track of every album, an album row its own tracks, an
/// out-of-range or missing selection nothing.
pub open spec fn spec_visible_tracks(lib: LibraryState) -> Seq<LibraryTrack> {
    match lib.selection {
        Some(LibrarySelection::Artist { artist_index }) => if artist_index < lib.artists@.len() {
            albums_tracks(lib.artists@[artist_index as int].albums@)
        } else {
            Seq::empty()
        },
        Some(LibrarySelection::Album { artist_index, album_index }) => if artist_index
            < lib.artists@.len() && album_index
            < lib.artists@[artist_index as int].albums@.len() {
            lib.artists@[artist_index as int].albums@[album_index as int].tracks@
        } else {
            Seq::empty()
        },
        None => Seq::empty(),
    }
}

/// One row of the right (track) pane: an album heading, or a track line
/// with its number and title.
#[derive(Debug)]
pub enum TrackRow {
    AlbumHeader { album: String },
    Track { number: Option<u32>, title: String },
}

/// Whether a track belongs to the album a heading was last emitted for.
pub open spec fn same_album(last: Option<Seq<char>>, t: LibraryTrack) -> bool {
    match last {
        Some(a) => a == t.album@,
        None => false,
    }
}

/// The right-pane rows for a run of tracks: a heading whenever the album
/// changes, then the track line itself.
pub open spec fn pane_rows(tracks: Seq<LibraryTrack>, last: Option<Seq<char>>) -> Seq<TrackRow>
    decreases tracks.len(),
{
    if tracks.len() == 0 {
        Seq::empty()
    } else {
        let t = tracks[0];
        let hdr: Seq<TrackRow> = if same_album(last, t) {
            Seq::empty()
        } else {
            seq![(TrackRow::AlbumHeader { album: t.album })]
        };
        hdr + seq![(TrackRow::Track { number: t.track_number, title: t.title })] + pane_rows(
            tracks.drop_first(),
            Some(t.album@),
        )
    }
}

/// The row index of each track line within the pane rows, track by track.
pub open spec fn pane_playable(tracks: Seq<LibraryTrack>, last: Option<Seq<char>>, off: int) -> Seq<
    int,
>
    decreases tracks.len(),
{
    if tracks.len() == 0 {
        Seq::empty()
    } else {
        let t = tracks[0];
        let hdr_n: int = if same_album(last, t) {
            0
        } else {
            1
        };
        seq![off + hdr_n] + pane_playable(tracks.drop_first(), Some(t.album@), off + hdr_n + 1)
    }
}

/// Sort key of a track within an album: its number, with unnumbered
/// tracks sorting after every numbered one.
pub open spec fn track_key(t: LibraryTrack) -> u32 {
    match t.track_number {
        Some(n) => n,
        None => 999u32,
    }
}

/// An album's tracks are ordered by track number.
pub open spec fn tracks_sorted(tracks: Seq<LibraryTrack>) -> bool {
    forall|i: int, j: int|
        0 <= i < j < tracks.len() ==> track_key(#[trigger] tracks[i]) <= track_key(
            #[trigger] tracks[j],
        )
}

/// No two tracks of an album share a path.
pub open spec fn paths_unique(tracks: Seq<LibraryTrack>) -> bool {
    forall|i: int, j: int|
        0 <= i < j < tracks.len() ==> (#[trigger] tracks[i]).path@ != (#[trigger] tracks[j]).path@
}

/// A well-formed album: tracks ordered, paths unique.
pub open spec fn album_wf(a: AlbumNode) -> bool {
    tracks_sorted(a.tracks@) && paths_unique(a.tracks@)
}

/// A well-formed album list: names unique, each album well formed.
pub open spec fn albums_wf(albums: Seq<AlbumNode>) -> bool {
    &&& forall|i: int, j: int|
        0 <= i < j < albums.len() ==> (#[trigger] albums[i]).name@ != (#[trigger] albums[j]).name@
    &&& forall|i: int| 0 <= i < albums.len() ==> album_wf(#[trigger] albums[i])
}

/// A well-formed catalog: artists ordered by name without duplicates,
/// each artist's albums well formed.
pub open spec fn catalog_wf(artists: Seq<ArtistNode>) -> bool {
    &&& forall|i: int, j: int|
        0 <= i < j < artists.len() ==> str_le(
            (#[trigger] artists[i]).name@,
            (#[trigger] artists[j]).name@,
        )
    &&& forall|i: int, j: int|
        0 <= i < j < artists.len() ==> (#[trigger] artists[i]).name@ != (
        #[trigger] artists[j]).name@
    &&& forall|i: int| 0 <= i < artists.len() ==> albums_wf((#[trigger] artists[i]).albums@)
}

/// Whether an album list files a track with this path under this album
/// name.
pub open spec fn albums_have(albums: Seq<AlbumNode>, album: Seq<char>, path: Seq<char>) -> bool {
    exists|j: int, k: int|
        #![auto]
        0 <= j < albums.len() && albums[j].name@ == album && 0 <= k < albums[j].tracks@.len()
            && albums[j].tracks@[k].path@ == path
}

/// Whether the catalog files this track under its album artist and album.
pub open spec fn catalog_has(artists: Seq<ArtistNode>, t: LibraryTrack) -> bool {
    exists|i: int|
        #![auto]
        0 <= i < artists.len() && artists[i].name@ == t.album_artist@ && albums_have(
            artists[i].albums@,
            t.album@,
            t.path@,
        )
}

/// Where the selection lands after one step down: from the first row
/// standing for it (or the top), one row further, capped at the last row;
/// nothing when the catalog shows no rows.
pub open spec fn spec_move_down_sel(
    artists: Seq<ArtistNode>,
    sel: Option<LibrarySelection>,
) -> Option<LibrarySelection> {
    let rows = rows_of(artists);
    let cur = shown_index(rows, sel);
    if rows.len() == 0 {
        None
    } else {
        let cap = rows.len() - 1;
        let next = if cur < cap {
            cur + 1
        } else {
            cap
        };
        Some(spec_row_to_selection(rows[next]))
    }
}

/// Where the selection lands after one step up.
pub open spec fn spec_move_up_sel(
    artists: Seq<ArtistNode>,
    sel: Option<LibrarySelection>,
) -> Option<LibrarySelection> {
    let rows = rows_of(artists);
    let cur = shown_index(rows, sel);
    if rows.len() == 0 {
        None
    } else {
        let next = if cur > 0 {
            cur - 1
        } else {
            0int
        };
        Some(spec_row_to_selection(rows[next]))
    }
}

/// Exec form of [`track_key`].
fn track_key_exec(t: &LibraryTrack) -> (k: u32)
    ensures
        k == track_key(*t),
{
    match t.track_number {
        Some(n) => n,
        None => 999,
    }
}

/// Whether a track list already files this path.
#[verifier::loop_isolation(false)]
fn tracks_has_path(tracks: &Vec<LibraryTrack>, path: &String) -> (r: bool)
    ensures
        r == (exists|k: int| #![auto] 0 <= k < tracks@.len() && tracks@[k].path@ == path@),
{
    let mut k: usize = 0;
    while k < tracks.len()
        invariant
            k <= tracks@.len(),
            forall|k0: int| 0 <= k0 < k ==> (#[trigger] tracks@[k0]).path@ != path@,
        decreases tracks@.len() - k,
    {
        if tracks[k].path.eq(path) {
            return true;
        }
        k += 1;
    }
    false
}

/// Whether an album list already files this path under this album name.
#[verifier::loop_isolation(false)]
fn artist_has_exec(albums: &Vec<AlbumNode>, album: &String, path: &String) -> (r: bool)
    requires
        forall|i: int, j: int|
            0 <= i < j < albums@.len() ==> (#[trigger] albums@[i]).name@ != (
            #[trigger] albums@[j]).name@,
    ensures
        r == albums_have(albums@, album@, path@),
{
    let mut j: usize = 0;
    while j < albums.len()
        invariant
            j <= albums@.len(),
            forall|j0: int| 0 <= j0 < j ==> (#[trigger] albums@[j0]).name@ != album@,
        decreases albums@.len() - j,
    {
        if albums[j].name.eq(album) {
            let found = tracks_has_path(&albums[j].tracks, path);
            proof {
                if found {
                    assert(albums_have(albums@, album@, path@));
                } else if albums_have(albums@, album@, path@) {
                    let (j0, k0) = choose|j0: int, k0: int|
                        #![auto]
                        0 <= j0 < albums@.len() && albums@[j0].name@ == album@ && 0 <= k0
                            < albums@[j0].tracks@.len() && albums@[j0].tracks@[k0].path@ == path@;
                    if j0 < j as int {
                        assert(albums@[j0].name@ != albums@[j as int].name@);
                    } else if j0 > j as int {
                        assert(albums@[j as int].name@ != albums@[j0].name@);
                    }
                    assert(false);
                }
            }
            return found;
        }
        j += 1;
    }
    proof {
        if albums_have(albums@, album@, path@) {
            let (j0, k0) = choose|j0: int, k0: int|
                #![auto]
                0 <= j0 < albums@.len() && albums@[j0].name@ == album@ && 0 <= k0
                    < albums@[j0].tracks@.len() && albums@[j0].tracks@[k0].path@ == path@;
            assert(false);
        }
    }
    false
}

/// Insert a track into an album's ordered track list, after every track
/// with the same or a smaller number; a track whose path is already filed
/// is dropped.  Every track already filed stays filed.
#[verifier::loop_isolation(false)]
fn insert_track_sorted(tracks: &mut Vec<LibraryTrack>, t: LibraryTrack)
    requires
        tracks_sorted(old(tracks)@),
        paths_unique(old(tracks)@),
    ensures
        tracks_sorted(final(tracks)@),
        paths_unique(final(tracks)@),
        exists|k: int| #![auto] 0 <= k < final(tracks)@.len() && final(tracks)@[k].path@ == t.path@,
        forall|k: int|
            0 <= k < old(tracks)@.len() ==> exists|k2: int|
                #![auto]
                0 <= k2 < final(tracks)@.len() && final(tracks)@[k2] == #[trigger] old(
                    tracks,
                )@[k],
        (exists|k: int| #![auto] 0 <= k < old(tracks)@.len() && old(tracks)@[k].path@ == t.path@)
            ==> *final(tracks) == *old(tracks),
{
    let mut k: usize = 0;
    while k < tracks.len()
        invariant
            tracks@ == old(tracks)@,
            k <= tracks@.len(),
            forall|k0: int| 0 <= k0 < k ==> (#[trigger] tracks@[k0]).path@ != t.path@,
        decreases tracks@.len() - k,
    {
        if tracks[k].path.eq(&t.path) {
            proof {
                assert(tracks@ =~= old(tracks)@);
            }
            return ;
        }
        k += 1;
    }
    proof {
        assert(forall|k0: int|
            0 <= k0 < old(tracks)@.len() ==> (#[trigger] old(tracks)@[k0]).path@ != t.path@);
    }
    let tkey = track_key_exec(&t);
    let mut pos: usize = 0;
    while pos < tracks.len() && track_key_exec(&tracks[pos]) <= tkey
        invariant
            tracks@ == old(tracks)@,
            pos <= tracks@.len(),
            forall|k0: int| 0 <= k0 < pos ==> track_key(#[trigger] tracks@[k0]) <= track_key(t),
            tkey == track_key(t),
        decreases tracks@.len() - pos,
    {
        pos += 1;
    }
    let ghost oldseq = tracks@;
    let ghost gpos = pos as int;
    tracks.insert(pos, t);
    proof {
        oldseq.insert_ensures(gpos, t);
        assert(tracks@[gpos].path@ == t.path@);
        assert forall|i: int, j: int|
            0 <= i < j < tracks@.len() implies track_key(#[trigger] tracks@[i]) <= track_key(
            #[trigger] tracks@[j],
        ) by {
            if i < gpos {
                assert(tracks@[i] == oldseq[i]);
            } else if i > gpos {
                assert(tracks@[i] == oldseq[i - 1]);
            }
            if j < gpos {
                assert(tracks@[j] == oldseq[j]);
            } else if j > gpos {
                assert(tracks@[j] == oldseq[j - 1]);
            }
            if j == gpos {
                assert(track_key(oldseq[i]) <= track_key(t));
            }
            if i == gpos && j > gpos {
                assert(gpos < oldseq.len());
                assert(track_key(oldseq[gpos]) > track_key(t));
                if j - 1 > gpos {
                    assert(track_key(oldseq[gpos]) <= track_key(oldseq[j - 1]));
                }
            }
        };
        assert forall|i: int, j: int|
            0 <= i < j < tracks@.len() implies (#[trigger] tracks@[i]).path@ != (
        #[trigger] tracks@[j]).path@ by {
            if i < gpos {
                assert(tracks@[i] == oldseq[i]);
            } else if i > gpos {
                assert(tracks@[i] == oldseq[i - 1]);
            }
            if j < gpos {
                assert(tracks@[j] == oldseq[j]);
            } else if j > gpos {
                assert(tracks@[j] == oldseq[j - 1]);
            }
        };
        assert forall|k0: int| 0 <= k0 < oldseq.len() implies exists|k2: int|
            #![auto]
            0 <= k2 < tracks@.len() && tracks@[k2] == #[trigger] oldseq[k0] by {
            if k0 < gpos {
                assert(tracks@[k0] == oldseq[k0]);
            } else {
                assert(tracks@[k0 + 1] == oldseq[k0]);
            }
        };
    }
}

/// File a track under its album in an artist's album list, creating the
/// album if it is new.  Album names stay unique, each album stays well
/// formed, and everything already filed stays filed.
#[verifier::loop_isolation(false)]
fn add_to_artist(albums: &mut Vec<AlbumNode>, t: LibraryTrack)
    requires
        albums_wf(old(albums)@),
    ensures
        albums_wf(final(albums)@),
        albums_have(final(albums)@, t.album@, t.path@),
        forall|album: Seq<char>, path: Seq<char>|
            #[trigger] albums_have(old(albums)@, album, path) ==> albums_have(
                final(albums)@,
                album,
                path,
            ),
        albums_have(old(albums)@, t.album@, t.path@) ==> *final(albums) == *old(albums),
{
    let ghost galbum = t.album@;
    let ghost gpath = t.path@;
    let mut j: usize = 0;
    while j < albums.len()
        invariant
            *albums == *old(albums),
            j <= albums@.len(),
            forall|j0: int| 0 <= j0 < j ==> (#[trigger] albums@[j0]).name@ != t.album@,
        decreases albums@.len() - j,
    {
        if albums[j].name.eq(&t.album) {
            let ghost oldalbums = albums@;
            let ghost gj = j as int;
            if tracks_has_path(&albums[j].tracks, &t.path) {
                proof {
                    assert(albums_have(albums@, galbum, gpath));
                }
                return ;
            }
            proof {
                if albums_have(oldalbums, galbum, gpath) {
                    let (j0, k0) = choose|j0: int, k0: int|
                        #![auto]
                        0 <= j0 < oldalbums.len() && oldalbums[j0].name@ == galbum && 0 <= k0
                            < oldalbums[j0].tracks@.len() && oldalbums[j0].tracks@[k0].path@
                            == gpath;
                    if j0 < gj {
                        assert(oldalbums[j0].name@ != oldalbums[gj].name@);
                    } else if j0 > gj {
                        assert(oldalbums[gj].name@ != oldalbums[j0].name@);
                    }
                    assert(false);
                }
            }
            let mut al = albums.remove(j);
            proof {
                assert(al == oldalbums[gj]);
                assert(album_wf(oldalbums[gj]));
            }
            let ghost oldtracks = al.tracks@;
            insert_track_sorted(&mut al.tracks, t);
            let ghost newal = al;
            albums.insert(j, al);
            proof {
                oldalbums.remove_ensures(gj);
                oldalbums.remove(gj).insert_ensures(gj, newal);
                assert forall|idx: int| 0 <= idx < albums@.len() implies #[trigger] albums@[idx]
                    == (if idx == gj {
                    newal
                } else {
                    oldalbums[idx]
                }) by {
                    if idx < gj {
                        assert(albums@[idx] == oldalbums.remove(gj)[idx]);
                    } else if idx > gj {
                        assert(albums@[idx] == oldalbums.remove(gj)[idx - 1]);
                    }
                };
                assert(newal.name@ == oldalbums[gj].name@);
                assert(albums@.len() == oldalbums.len());
                assert forall|i0: int, i1: int|
                    0 <= i0 < i1 < albums@.len() implies (#[trigger] albums@[i0]).name@ != (
                #[trigger] albums@[i1]).name@ by {
                    assert(oldalbums[i0].name@ != oldalbums[i1].name@);
                };
                assert forall|i0: int| 0 <= i0 < albums@.len() implies album_wf(
                    #[trigger] albums@[i0],
                ) by {
                    if i0 == gj {
                        assert(albums@[i0] == newal);
                    } else {
                        assert(albums@[i0] == oldalbums[i0]);
                        assert(album_wf(oldalbums[i0]));
                    }
                };
                assert(albums_wf(albums@));
                assert(albums_have(albums@, galbum, gpath)) by {
                    assert(exists|k: int|
                        #![auto]
                        0 <= k < newal.tracks@.len() && newal.tracks@[k].path@ == gpath);
                }
                assert forall|album: Seq<char>, path: Seq<char>|
                    #[trigger] albums_have(oldalbums, album, path) implies albums_have(
                    albums@,
                    album,
                    path,
                ) by {
                    let (j0, k0) = choose|j0: int, k0: int|
                        #![auto]
                        0 <= j0 < oldalbums.len() && oldalbums[j0].name@ == album && 0 <= k0
                            < oldalbums[j0].tracks@.len() && oldalbums[j0].tracks@[k0].path@
                            == path;
                    if j0 != gj {
                        assert(albums@[j0] == oldalbums[j0]);
                    } else {
                        assert(exists|k2: int|
                            #![auto]
                            0 <= k2 < newal.tracks@.len() && newal.tracks@[k2] == oldtracks[k0]);
                    }
                };
            }
            return ;
        }
        j += 1;
    }
    proof {
        if albums_have(old(albums)@, galbum, gpath) {
            let (j0, k0) = choose|j0: int, k0: int|
                #![auto]
                0 <= j0 < old(albums)@.len() && old(albums)@[j0].name@ == galbum && 0 <= k0 < old(
                    albums,
                )@[j0].tracks@.len() && old(albums)@[j0].tracks@[k0].path@ == gpath;
            assert(false);
        }
    }
    let name = t.album.clone();
    let mut ts: Vec<LibraryTrack> = Vec::new();
    ts.push(t);
    let node = AlbumNode { name, tracks: ts };
    let ghost gnode = node;
    albums.push(node);
    proof {
        assert(albums@ == old(albums)@.push(gnode));
        assert(gnode.name@ == galbum);
        assert(gnode.tracks@.len() == 1);
        assert(gnode.tracks@[0].path@ == gpath);
        assert forall|i: int, j0: int|
            0 <= i < j0 < albums@.len() implies (#[trigger] albums@[i]).name@ != (
        #[trigger] albums@[j0]).name@ by {
            if j0 == albums@.len() - 1 {
                assert(albums@[i] == old(albums)@[i]);
                assert(albums@[j0] == gnode);
            } else {
                assert(albums@[i] == old(albums)@[i]);
                assert(albums@[j0] == old(albums)@[j0]);
            }
        };
        assert forall|i: int| 0 <= i < albums@.len() implies album_wf(#[trigger] albums@[i]) by {
            if i == albums@.len() - 1 {
                assert(albums@[i] == gnode);
            } else {
                assert(albums@[i] == old(albums)@[i]);
            }
        };
        assert(albums_have(albums@, galbum, gpath)) by {
            assert(albums@[albums@.len() - 1] == gnode);
        }
        assert forall|album: Seq<char>, path: Seq<char>|
            #[trigger] albums_have(old(albums)@, album, path) implies albums_have(
            albums@,
            album,
            path,
        ) by {
            let (j0, k0) = choose|j0: int, k0: int|
                #![auto]
                0 <= j0 < old(albums)@.len() && old(albums)@[j0].name@ == album && 0 <= k0 < old(
                    albums,
                )@[j0].tracks@.len() && old(albums)@[j0].tracks@[k0].path@ == path;
            assert(albums@[j0] == old(albums)@[j0]);
        };
    }
}

/// Insert a new artist into the name-ordered artist list, after every
/// artist whose name comes no later.
#[verifier::loop_isolation(false)]
fn insert_artist_sorted(artists: &mut Vec<ArtistNode>, node: ArtistNode)
    requires
        catalog_wf(old(artists)@),
        forall|i: int| 0 <= i < old(artists)@.len() ==> (#[trigger] old(artists)@[i]).name@ != node.name@,
        albums_wf(node.albums@),
    ensures
        catalog_wf(final(artists)@),
        exists|p: int|
            #![auto]
            0 <= p <= old(artists)@.len() && final(artists)@ == old(artists)@.insert(p, node),
{
    let mut pos: usize = 0;
    while pos < artists.len() && str_le_exec(artists[pos].name.as_str(), node.name.as_str())
        invariant
            *artists == *old(artists),
            pos <= artists@.len(),
            forall|k0: int| 0 <= k0 < pos ==> str_le((#[trigger] artists@[k0]).name@, node.name@),
        decreases artists@.len() - pos,
    {
        pos += 1;
    }
    let ghost oldseq = artists@;
    let ghost gpos = pos as int;
    artists.insert(pos, node);
    proof {
        oldseq.insert_ensures(gpos, node);
        if gpos < oldseq.len() {
            lemma_str_le_total(oldseq[gpos].name@, node.name@);
        }
        assert forall|i: int, j: int|
            0 <= i < j < artists@.len() implies str_le(
            (#[trigger] artists@[i]).name@,
            (#[trigger] artists@[j]).name@,
        ) by {
            if i < gpos {
                assert(artists@[i] == oldseq[i]);
            } else if i > gpos {
                assert(artists@[i] == oldseq[i - 1]);
            }
            if j < gpos {
                assert(artists@[j] == oldseq[j]);
            } else if j > gpos {
                assert(artists@[j] == oldseq[j - 1]);
            }
            if i == gpos && j > gpos {
                assert(str_le(node.name@, oldseq[gpos].name@));
                if j - 1 > gpos {
                    assert(str_le(oldseq[gpos].name@, oldseq[j - 1].name@));
                    lemma_str_le_trans(node.name@, oldseq[gpos].name@, oldseq[j - 1].name@);
                }
            }
        };
        assert forall|i: int, j: int|
            0 <= i < j < artists@.len() implies (#[trigger] artists@[i]).name@ != (
        #[trigger] artists@[j]).name@ by {
            if i < gpos {
                assert(artists@[i] == oldseq[i]);
            } else if i > gpos {
                assert(artists@[i] == oldseq[i - 1]);
            }
            if j < gpos {
                assert(artists@[j] == oldseq[j]);
            } else if j > gpos {
                assert(artists@[j] == oldseq[j - 1]);
            }
        };
        assert forall|i: int| 0 <= i < artists@.len() implies albums_wf(
            (#[trigger] artists@[i]).albums@,
        ) by {
            if i < gpos {
                assert(artists@[i] == oldseq[i]);
            } else if i > gpos {
                assert(artists@[i] == oldseq[i - 1]);
            }
        };
    }
}

/// File one track in the catalog: under its album artist if already
/// present (keeping the artist order untouched), else as a new artist in
/// name order.  Everything already filed stays filed.
#[verifier::loop_isolation(false)]
fn file_track(artists: &mut Vec<ArtistNode>, t: LibraryTrack)
    requires
        catalog_wf(old(artists)@),
    ensures
        catalog_wf(final(artists)@),
        catalog_has(final(artists)@, t),
        forall|u: LibraryTrack|
            #[trigger] catalog_has(old(artists)@, u) ==> catalog_has(final(artists)@, u),
        catalog_has(old(artists)@, t) ==> *final(artists) == *old(artists),
{
    let ghost gaa = t.album_artist@;
    let ghost galbum = t.album@;
    let ghost gpath = t.path@;
    let mut i: usize = 0;
    while i < artists.len()
        invariant
            *artists == *old(artists),
            i <= artists@.len(),
            forall|k0: int| 0 <= k0 < i ==> (#[trigger] artists@[k0]).name@ != t.album_artist@,
        decreases artists@.len() - i,
    {
        if artists[i].name.eq(&t.album_artist) {
            let ghost oldseq = artists@;
            let ghost gi = i as int;
            proof {
                assert(albums_wf(oldseq[gi].albums@));
            }
            if artist_has_exec(&artists[i].albums, &t.album, &t.path) {
                proof {
                    assert(catalog_has(artists@, t));
                }
                return ;
            }
            proof {
                if catalog_has(oldseq, t) {
                    let iu = choose|iu: int|
                        #![auto]
                        0 <= iu < oldseq.len() && oldseq[iu].name@ == gaa && albums_have(
                            oldseq[iu].albums@,
                            galbum,
                            gpath,
                        );
                    if iu < gi {
                        assert(oldseq[iu].name@ != oldseq[gi].name@);
                    } else if iu > gi {
                        assert(oldseq[gi].name@ != oldseq[iu].name@);
                    }
                    assert(false);
                }
            }
            let mut artist = artists.remove(i);
            proof {
                assert(artist == oldseq[gi]);
                assert(albums_wf(oldseq[gi].albums@));
            }
            let ghost oldalbums = artist.albums@;
            add_to_artist(&mut artist.albums, t);
            let ghost newartist = artist;
            artists.insert(i, artist);
            proof {
                oldseq.remove_ensures(gi);
                oldseq.remove(gi).insert_ensures(gi, newartist);
                assert forall|idx: int| 0 <= idx < artists@.len() implies #[trigger] artists@[idx]
                    == (if idx == gi {
                    newartist
                } else {
                    oldseq[idx]
                }) by {
                    if idx < gi {
                        assert(artists@[idx] == oldseq.remove(gi)[idx]);
                    } else if idx > gi {
                        assert(artists@[idx] == oldseq.remove(gi)[idx - 1]);
                    }
                };
                assert(newartist.name@ == oldseq[gi].name@);
                assert(artists@.len() == oldseq.len());
                assert forall|i0: int, i1: int|
                    0 <= i0 < i1 < artists@.len() implies str_le(
                    (#[trigger] artists@[i0]).name@,
                    (#[trigger] artists@[i1]).name@,
                ) && (#[trigger] artists@[i0]).name@ != (#[trigger] artists@[i1]).name@ by {
                    assert(str_le(oldseq[i0].name@, oldseq[i1].name@));
                    assert(oldseq[i0].name@ != oldseq[i1].name@);
                };
                assert forall|i0: int| 0 <= i0 < artists@.len() implies albums_wf(
                    (#[trigger] artists@[i0]).albums@,
                ) by {
                    if i0 == gi {
                        assert(artists@[i0] == newartist);
                    } else {
                        assert(artists@[i0] == oldseq[i0]);
                        assert(albums_wf(oldseq[i0].albums@));
                    }
                };
                assert(catalog_wf(artists@));
                assert(catalog_has(artists@, t)) by {
                    assert(artists@[gi].name@ == gaa);
                    assert(albums_have(artists@[gi].albums@, galbum, gpath));
                }
                assert forall|u: LibraryTrack| #[trigger] catalog_has(oldseq, u) implies catalog_has(
                    artists@,
                    u,
                ) by {
                    let iu = choose|iu: int|
                        #![auto]
                        0 <= iu < oldseq.len() && oldseq[iu].name@ == u.album_artist@
                            && albums_have(oldseq[iu].albums@, u.album@, u.path@);
                    if iu != gi {
                        assert(artists@[iu] == oldseq[iu]);
                    } else {
                        assert(albums_have(newartist.albums@, u.album@, u.path@));
                    }
                };
            }
            return ;
        }
        i += 1;
    }
    proof {
        if catalog_has(old(artists)@, t) {
            let iu = choose|iu: int|
                #![auto]
                0 <= iu < old(artists)@.len() && old(artists)@[iu].name@ == gaa && albums_have(
                    old(artists)@[iu].albums@,
                    galbum,
                    gpath,
                );
            assert(false);
        }
    }
    let name = t.album_artist.clone();
    let albname = t.album.clone();
    let mut ts: Vec<LibraryTrack> = Vec::new();
    ts.push(t);
    let mut albs: Vec<AlbumNode> = Vec::new();
    albs.push(AlbumNode { name: albname, tracks: ts });
    let node = ArtistNode { name, albums: albs, expanded: false };
    let ghost gnode = node;
    let ghost oldseq = artists@;
    proof {
        assert(gnode.albums@.len() == 1);
        assert(gnode.albums@[0].name@ == galbum);
        assert(gnode.albums@[0].tracks@.len() == 1);
        assert(gnode.albums@[0].tracks@[0].path@ == gpath);
        assert(albums_wf(gnode.albums@));
    }
    insert_artist_sorted(artists, node);
    proof {
        let p = choose|p: int|
            #![auto]
            0 <= p <= oldseq.len() && artists@ == oldseq.insert(p, gnode);
        oldseq.insert_ensures(p, gnode);
        assert(catalog_has(artists@, t)) by {
            assert(artists@[p] == gnode);
            assert(albums_have(gnode.albums@, galbum, gpath));
        }
        assert forall|u: LibraryTrack| #[trigger] catalog_has(oldseq, u) implies catalog_has(
            artists@,
            u,
        ) by {
            let iu = choose|iu: int|
                #![auto]
                0 <= iu < oldseq.len() && oldseq[iu].name@ == u.album_artist@ && albums_have(
                    oldseq[iu].albums@,
                    u.album@,
                    u.path@,
                );
            if iu < p {
                assert(artists@[iu] == oldseq[iu]);
            } else {
                assert(artists@[iu + 1] == oldseq[iu]);
            }
        };
    }
}

/// The whole catalog pane.
pub struct LibraryState {
    pub artists: Vec<ArtistNode>,
    pub selection: Option<LibrarySelection>,
    /// Row index the left list highlights.
    pub selected_row: Option<usize>,
    pub album_index: Option<usize>,
    pub focus: LibraryFocus,
    pub track_index: usize,
    pub visible_rows: Vec<VisibleRow>,
    pub tracks: Vec<LibraryTrack>,
}

impl LibraryState {
    /// An empty catalog with the top artist row nominally selected.
    pub fn new() -> (lib: LibraryState)
        ensures
            catalog_wf(lib.artists@),
            lib.artists@.len() == 0,
            lib.selection == Some(LibrarySelection::Artist { artist_index: 0 }),
            lib.selected_row == Some(0usize),
            lib.album_index == Some(0usize),
            lib.focus is Left,
            lib.track_index == 0,
            lib.visible_rows@.len() == 0,
            lib.tracks@.len() == 0,
    {
        LibraryState {
            artists: Vec::new(),
            selection: Some(LibrarySelection::Artist { artist_index: 0 }),
            selected_row: Some(0),
            album_index: Some(0),
            focus: LibraryFocus::Left,
            track_index: 0,
            visible_rows: Vec::new(),
            tracks: Vec::new(),
        }
    }

    /// The selection a row stands for.
    pub fn row_to_selection(row: &VisibleRow) -> (r: LibrarySelection)
        ensures
            r == spec_row_to_selection(*row),
    {
        match row {
            VisibleRow::Artist { artist_index } => LibrarySelection::Artist {
                artist_index: *artist_index,
            },
            VisibleRow::Album { artist_index, album_index } => LibrarySelection::Album {
                artist_index: *artist_index,
                album_index: *album_index,
            },
        }
    }

    /// Build the flattened row list for the current tree.
    fn build_rows(artists: &Vec<ArtistNode>) -> (rows: Vec<VisibleRow>)
        ensures
            rows@ == rows_of(artists@),
    {
        let mut rows: Vec<VisibleRow> = Vec::new();
        let mut i: usize = 0;
        while i < artists.len()
            invariant
                i <= artists@.len(),
                rows@ == rows_of(artists@.take(i as int)),
            decreases artists@.len() - i,
        {
            rows.push(VisibleRow::Artist { artist_index: i });
            if artists[i].expanded {
                let albums_len = artists[i].albums.len();
                let mut j: usize = 0;
                while j < albums_len
                    invariant
                        i < artists@.len(),
                        j <= albums_len,
                        albums_len == artists@[i as int].albums@.len(),
                        artists@[i as int].expanded,
                        rows@ == rows_of(artists@.take(i as int)) + seq![
                            (VisibleRow::Artist { artist_index: i }),
                        ] + Seq::new(
                            j as nat,
                            |k: int|
                                (VisibleRow::Album { artist_index: i, album_index: k as usize }),
                        ),
                    decreases albums_len - j,
                {
                    rows.push(VisibleRow::Album { artist_index: i, album_index: j });
                    proof {
                        assert(Seq::new(
                            (j + 1) as nat,
                            |k: int|
                                (VisibleRow::Album { artist_index: i, album_index: k as usize }),
                        ) =~= Seq::new(
                            j as nat,
                            |k: int|
                                (VisibleRow::Album { artist_index: i, album_index: k as usize }),
                        ).push(VisibleRow::Album { artist_index: i, album_index: j }));
                    }
                    j += 1;
                }
            }
            proof {
                assert(artists@.take(i + 1).drop_last() =~= artists@.take(i as int));
                assert(artists@.take(i + 1).last() == artists@[i as int]);
                assert(rows_of(artists@.take(i + 1)) == rows_of(artists@.take(i as int))
                    + artist_rows(artists@[i as int], i as int));
                if artists@[i as int].expanded {
                    assert(rows@ =~= rows_of(artists@.take(i + 1)));
                } else {
                    assert(rows@ =~= rows_of(artists@.take(i + 1)));
                }
            }
            i += 1;
        }
        proof {
            assert(artists@.take(artists@.len() as int) =~= artists@);
        }
        rows
    }

    /// Index of the first row standing for the selection.
    fn find_row(rows: &Vec<VisibleRow>, sel: &Option<LibrarySelection>) -> (r: Option<usize>)
        ensures
            r matches Some(i) ==> i < rows@.len() && first_match(rows@, *sel) == Some(i as int),
            r is None ==> first_match(rows@, *sel) is None,
    {
        let mut i: usize = 0;
        while i < rows.len()
            invariant
                i <= rows@.len(),
                forall|k: int| 0 <= k < i ==> !row_matches(rows@[k], *sel),
            decreases rows@.len() - i,
        {
            let hit = match sel {
                Some(s) => Self::row_to_selection(&rows[i]) == *s,
                None => false,
            };
            if hit {
                proof {
                    lemma_first_match_found(rows@, *sel, i as int);
                }
                return Some(i);
            }
            i += 1;
        }
        proof {
            lemma_first_match_none(rows@, *sel);
        }
        None
    }

    /// Rebuild the flattened rows after the tree changed, keeping the
    /// selection when it is still shown and falling back to the top row
    /// (or to nothing when the catalog is empty).
    pub fn rebuild_visible_rows(&mut self)
        ensures
            final(self).artists == old(self).artists,
            final(self).album_index == old(self).album_index,
            final(self).focus == old(self).focus,
            final(self).track_index == old(self).track_index,
            final(self).tracks == old(self).tracks,
            final(self).visible_rows@ == rows_of(old(self).artists@),
            rows_of(old(self).artists@).len() == 0 ==> final(self).selection is None
                && final(self).selected_row is None,
            rows_of(old(self).artists@).len() > 0 ==> ({
                let rows = rows_of(old(self).artists@);
                let idx = shown_index(rows, old(self).selection);
                &&& final(self).selection == Some(spec_row_to_selection(rows[idx]))
                &&& final(self).selected_row == Some(idx as usize)
            }),
    {
        self.visible_rows = Self::build_rows(&self.artists);
        if self.visible_rows.len() == 0 {
            self.selection = None;
            self.selected_row = None;
        } else {
            let idx = match Self::find_row(&self.visible_rows, &self.selection) {
                Some(i) => i,
                None => 0,
            };
            self.selection = Some(Self::row_to_selection(&self.visible_rows[idx]));
            self.selected_row = Some(idx);
        }
    }

    /// Move the left-pane selection one row down, staying on the last
    /// row at the bottom.
    pub fn move_down(&mut self)
        ensures
            final(self).selection == spec_move_down_sel(old(self).artists@, old(self).selection),
            final(self).artists == old(self).artists,
            final(self).selected_row == old(self).selected_row,
            final(self).album_index == old(self).album_index,
            final(self).focus == old(self).focus,
            final(self).track_index == old(self).track_index,
            final(self).visible_rows == old(self).visible_rows,
            final(self).tracks == old(self).tracks,
    {
        let rows = Self::build_rows(&self.artists);
        let cur = match Self::find_row(&rows, &self.selection) {
            Some(i) => i,
            None => 0,
        };
        if rows.len() == 0 {
            self.selection = None;
        } else {
            let cap = rows.len() - 1;
            let next = if cur < cap {
                cur + 1
            } else {
                cap
            };
            self.selection = Some(Self::row_to_selection(&rows[next]));
        }
    }

    /// Move the left-pane selection one row up, staying on the top row.
    pub fn move_up(&mut self)
        ensures
            final(self).selection == spec_move_up_sel(old(self).artists@, old(self).selection),
            final(self).artists == old(self).artists,
            final(self).selected_row == old(self).selected_row,
            final(self).album_index == old(self).album_index,
            final(self).focus == old(self).focus,
            final(self).track_index == old(self).track_index,
            final(self).visible_rows == old(self).visible_rows,
            final(self).tracks == old(self).tracks,
    {
        let rows = Self::build_rows(&self.artists);
        let cur = match Self::find_row(&rows, &self.selection) {
            Some(i) => i,
            None => 0,
        };
        if rows.len() == 0 {
            self.selection = None;
        } else {
            let next = if cur > 0 {
                cur - 1
            } else {
                0
            };
            proof {
                if cur > 0 {
                    assert(first_match(rows@, old(self).selection) == Some(cur as int));
                }
            }
            self.selection = Some(Self::row_to_selection(&rows[next]));
        }
    }

    /// Fold or unfold the selected artist's albums; a no-op when the
    /// selection is not an artist row.
    pub fn toggle_expanded(&mut self)
        ensures
            (match old(self).selection {
                Some(LibrarySelection::Artist { artist_index }) => ({
                    let i = artist_index as int;
                    i < old(self).artists@.len() ==> ({
                        let arts = old(self).artists@.update(
                            i,
                            ArtistNode {
                                expanded: !old(self).artists@[i].expanded,
                                ..old(self).artists@[i]
                            },
                        );
                        &&& final(self).artists@ == arts
                        &&& final(self).visible_rows@ == rows_of(arts)
                        &&& (rows_of(arts).len() == 0 ==> final(self).selection is None
                            && final(self).selected_row is None)
                        &&& (rows_of(arts).len() > 0 ==> ({
                            let idx = shown_index(rows_of(arts), old(self).selection);
                            &&& final(self).selection == Some(
                                spec_row_to_selection(rows_of(arts)[idx]),
                            )
                            &&& final(self).selected_row == Some(idx as usize)
                        }))
                    })
                }),
                _ => true,
            }),
            !(match old(self).selection {
                Some(LibrarySelection::Artist { artist_index }) => artist_index
                    < old(self).artists@.len(),
                _ => false,
            }) ==> *final(self) == *old(self),
            final(self).album_index == old(self).album_index,
            final(self).focus == old(self).focus,
            final(self).track_index == old(self).track_index,
            final(self).tracks == old(self).tracks,
    {
        let idx_opt = match self.selection {
            Some(LibrarySelection::Artist { artist_index }) => Some(artist_index),
            _ => None,
        };
        if let Some(i) = idx_opt {
            if i < self.artists.len() {
                let mut node = self.artists.remove(i);
                node.expanded = !node.expanded;
                self.artists.insert(i, node);
                proof {
                    assert(self.artists@ =~= old(self).artists@.update(
                        i as int,
                        ArtistNode {
                            expanded: !old(self).artists@[i as int].expanded,
                            ..old(self).artists@[i as int]
                        },
                    ));
                }
                self.rebuild_visible_rows();
            }
        }
    }

    /// The artist the selection points at (an album row points at its
    /// artist); `None` for an out-of-range index or no selection.
    pub fn selected_artist(&self) -> (r: Option<&ArtistNode>)
        ensures
            (match self.selection {
                Some(LibrarySelection::Artist { artist_index }) => if artist_index
                    < self.artists@.len() {
                    r matches Some(a) && *a == self.artists@[artist_index as int]
                } else {
                    r is None
                },
                Some(LibrarySelection::Album { artist_index, .. }) => if artist_index
                    < self.artists@.len() {
                    r matches Some(a) && *a == self.artists@[artist_index as int]
                } else {
                    r is None
                },
                None => r is None,
            }),
    {
        let idx_opt = match self.selection {
            Some(LibrarySelection::Artist { artist_index }) => Some(artist_index),
            Some(LibrarySelection::Album { artist_index, .. }) => Some(artist_index),
            None => None,
        };
        match idx_opt {
            Some(i) => if i < self.artists.len() {
                Some(&self.artists[i])
            } else {
                None
            },
            None => None,
        }
    }

    /// The album the selection points at; `None` unless an album row with
    /// valid indices is selected.
    pub fn selected_album(&self) -> (r: Option<&AlbumNode>)
        ensures
            (match self.selection {
                Some(LibrarySelection::Album { artist_index, album_index }) => if artist_index
                    < self.artists@.len() && album_index
                    < self.artists@[artist_index as int].albums@.len() {
                    r matches Some(a) && *a
                        == self.artists@[artist_index as int].albums@[album_index as int]
                } else {
                    r is None
                },
                _ => r is None,
            }),
    {
        match self.selection {
            Some(LibrarySelection::Album { artist_index, album_index }) => {
                if artist_index < self.artists.len() && album_index
                    < self.artists[artist_index].albums.len() {
                    Some(&self.artists[artist_index].albums[album_index])
                } else {
                    None
                }
            },
            _ => None,
        }
    }

    /// File a batch of scanned tracks in the catalog: each under its
    /// album artist and album, created on first sight; artists stay in
    /// name order, album tracks in number order, and a path already
    /// filed in its album is not filed twice.  The flattened rows are
    /// rebuilt afterwards.
    pub fn add_tracks(&mut self, tracks: Vec<LibraryTrack>)
        requires
            catalog_wf(old(self).artists@),
        ensures
            catalog_wf(final(self).artists@),
            forall|k: int|
                0 <= k < tracks@.len() ==> catalog_has(
                    final(self).artists@,
                    #[trigger] tracks@[k],
                ),
            forall|u: LibraryTrack|
                #[trigger] catalog_has(old(self).artists@, u) ==> catalog_has(
                    final(self).artists@,
                    u,
                ),
            (forall|k: int|
                0 <= k < tracks@.len() ==> catalog_has(
                    old(self).artists@,
                    #[trigger] tracks@[k],
                )) ==> final(self).artists == old(self).artists,
            final(self).tracks == old(self).tracks,
            final(self).focus == old(self).focus,
            final(self).track_index == old(self).track_index,
            final(self).album_index == old(self).album_index,
            final(self).visible_rows@ == rows_of(final(self).artists@),
            rows_of(final(self).artists@).len() == 0 ==> final(self).selection is None
                && final(self).selected_row is None,
            rows_of(final(self).artists@).len() > 0 ==> ({
                let rows = rows_of(final(self).artists@);
                let idx = shown_index(rows, old(self).selection);
                &&& final(self).selection == Some(spec_row_to_selection(rows[idx]))
                &&& final(self).selected_row == Some(idx as usize)
            }),
    {
        let mut idx: usize = 0;
        while idx < tracks.len()
            invariant
                idx <= tracks@.len(),
                catalog_wf(self.artists@),
                forall|k: int| 0 <= k < idx ==> catalog_has(self.artists@, #[trigger] tracks@[k]),
                forall|u: LibraryTrack|
                    #[trigger] catalog_has(old(self).artists@, u) ==> catalog_has(self.artists@, u),
                (forall|k: int|
                    0 <= k < tracks@.len() ==> catalog_has(
                        old(self).artists@,
                        #[trigger] tracks@[k],
                    )) ==> self.artists == old(self).artists,
                self.selection == old(self).selection,
                self.selected_row == old(self).selected_row,
                self.tracks == old(self).tracks,
                self.focus == old(self).focus,
                self.track_index == old(self).track_index,
                self.album_index == old(self).album_index,
                self.visible_rows == old(self).visible_rows,
            decreases tracks@.len() - idx,
        {
            let t = tracks[idx].clone();
            proof {
                if forall|k: int|
                    0 <= k < tracks@.len() ==> catalog_has(
                        old(self).artists@,
                        #[trigger] tracks@[k],
                    ) {
                    assert(catalog_has(self.artists@, t));
                }
            }
            file_track(&mut self.artists, t);
            idx += 1;
        }
        self.rebuild_visible_rows();
    }

    /// The tracks the right pane shows for the current selection.
    pub fn visible_tracks(&self) -> (r: Vec<LibraryTrack>)
        ensures
            r@ == spec_visible_tracks(*self),
    {
        let mut out: Vec<LibraryTrack> = Vec::new();
        match self.selection {
            Some(LibrarySelection::Artist { artist_index }) => {
                if artist_index < self.artists.len() {
                    let albums = &self.artists[artist_index].albums;
                    let mut j: usize = 0;
                    while j < albums.len()
                        invariant
                            j <= albums@.len(),
                            out@ == albums_tracks(albums@.take(j as int)),
                        decreases albums@.len() - j,
                    {
                        let mut k: usize = 0;
                        let n = albums[j].tracks.len();
                        while k < n
                            invariant
                                j < albums@.len(),
                                k <= n,
                                n == albums@[j as int].tracks@.len(),
                                out@ == albums_tracks(albums@.take(j as int))
                                    + albums@[j as int].tracks@.take(k as int),
                            decreases n - k,
                        {
                            out.push(albums[j].tracks[k].clone());
                            proof {
                                assert(albums@[j as int].tracks@.take(k + 1)
                                    =~= albums@[j as int].tracks@.take(k as int).push(
                                    albums@[j as int].tracks@[k as int],
                                ));
                            }
                            k += 1;
                        }
                        proof {
                            assert(albums@.take(j + 1).drop_last() =~= albums@.take(j as int));
                            assert(albums@.take(j + 1).last() == albums@[j as int]);
                            assert(albums@[j as int].tracks@.take(n as int)
                                =~= albums@[j as int].tracks@);
                            assert(out@ =~= albums_tracks(albums@.take(j + 1)));
                        }
                        j += 1;
                    }
                    proof {
                        assert(albums@.take(albums@.len() as int) =~= albums@);
                    }
                }
            },
            Some(LibrarySelection::Album { artist_index, album_index }) => {
                if artist_index < self.artists.len() && album_index
                    < self.artists[artist_index].albums.len() {
                    let tracks = &self.artists[artist_index].albums[album_index].tracks;
                    let mut k: usize = 0;
                    while k < tracks.len()
                        invariant
                            k <= tracks@.len(),
                            out@ == tracks@.take(k as int),
                        decreases tracks@.len() - k,
                    {
                        out.push(tracks[k].clone());
                        proof {
                            assert(tracks@.take(k + 1) =~= tracks@.take(k as int).push(
                                tracks@[k as int],
                            ));
                        }
                        k += 1;
                    }
                    proof {
                        assert(tracks@.take(tracks@.len() as int) =~= tracks@);
                    }
                }
            },
            None => {},
        }
        out
    }

    /// The path of the track that follows the one at `current` in the
    /// right pane, if a track with that path is shown and is not last.
    pub fn next_track_path(&self, current: &String) -> (r: Option<String>)
        ensures
            r matches Some(p) ==> ({
                let vt = spec_visible_tracks(*self);
                exists|i: int|
                    #![auto]
                    0 <= i && i + 1 < vt.len() && vt[i].path@ == current@ && (forall|k: int|
                        0 <= k < i ==> !(vt[k].path@ == current@ && k + 1 < vt.len())) && p == vt[i
                        + 1].path
            }),
            r is None ==> ({
                let vt = spec_visible_tracks(*self);
                forall|i: int| 0 <= i && i + 1 < vt.len() ==> vt[i].path@ != current@
            }),
    {
        let tracks = self.visible_tracks();
        let mut i: usize = 0;
        while i < tracks.len()
            invariant
                i <= tracks@.len(),
                tracks@ == spec_visible_tracks(*self),
                forall|k: int|
                    0 <= k < i ==> !(tracks@[k].path@ == current@ && k + 1 < tracks@.len()),
            decreases tracks@.len() - i,
        {
            if i + 1 < tracks.len() && tracks[i].path.eq(current) {
                return Some(tracks[i + 1].path.clone());
            }
            i += 1;
        }
        None
    }

    /// Point the right-pane cursor at the shown track with this path, if
    /// there is one; otherwise change nothing.
    pub fn select_track_by_path(&mut self, path: &String)
        ensures
            final(self).artists == old(self).artists,
            final(self).selection == old(self).selection,
            final(self).album_index == old(self).album_index,
            final(self).focus == old(self).focus,
            final(self).visible_rows == old(self).visible_rows,
            final(self).tracks == old(self).tracks,
            ({
                let vt = spec_visible_tracks(*old(self));
                (exists|i: int| #![auto] 0 <= i < vt.len() && vt[i].path@ == path@) ==> (exists|
                    i: int,
                |
                    #![auto]
                    0 <= i < vt.len() && vt[i].path@ == path@ && (forall|k: int|
                        0 <= k < i ==> vt[k].path@ != path@) && final(self).track_index == i
                        && final(self).selected_row == Some(i as usize))
            }),
            ({
                let vt = spec_visible_tracks(*old(self));
                (forall|i: int| 0 <= i < vt.len() ==> vt[i].path@ != path@)
                    ==> final(self).track_index == old(self).track_index
                    && final(self).selected_row == old(self).selected_row
            }),
    {
        let tracks = self.visible_tracks();
        let mut i: usize = 0;
        while i < tracks.len()
            invariant
                i <= tracks@.len(),
                tracks@ == spec_visible_tracks(*self),
                *self == *old(self),
                forall|k: int| 0 <= k < i ==> tracks@[k].path@ != path@,
            decreases tracks@.len() - i,
        {
            if tracks[i].path.eq(path) {
                self.track_index = i;
                self.selected_row = Some(i);
                return ;
            }
            i += 1;
        }
    }

    /// The catalog entry (from the flat scan list) with this path, if
    /// any: the first one in scan order.
    pub fn track_by_path(&self, path: &String) -> (r: Option<&LibraryTrack>)
        ensures
            r matches Some(t) ==> (exists|i: int|
                #![auto]
                0 <= i < self.tracks@.len() && self.tracks@[i].path@ == path@ && (forall|k: int|
                    0 <= k < i ==> self.tracks@[k].path@ != path@) && *t == self.tracks@[i]),
            r is None ==> (forall|i: int|
                0 <= i < self.tracks@.len() ==> self.tracks@[i].path@ != path@),
    {
        let mut i: usize = 0;
        while i < self.tracks.len()
            invariant
                i <= self.tracks@.len(),
                forall|k: int| 0 <= k < i ==> self.tracks@[k].path@ != path@,
            decreases self.tracks@.len() - i,
        {
            if self.tracks[i].path.eq(path) {
                return Some(&self.tracks[i]);
            }
            i += 1;
        }
        None
    }

    /// The right-pane rows for the current selection — an album heading
    /// wherever the album changes, then one row per track — together
    /// with the row index of each track line.
    pub fn right_pane_items(&self) -> (r: (Vec<TrackRow>, Vec<usize>))
        ensures
            r.0@ == pane_rows(spec_visible_tracks(*self), None),
            r.1@.map_values(|x: usize| x as int) == pane_playable(
                spec_visible_tracks(*self),
                None,
                0,
            ),
    {
        let tracks = self.visible_tracks();
        let mut items: Vec<TrackRow> = Vec::new();
        let mut playable: Vec<usize> = Vec::new();
        let mut last_album: Option<String> = None;
        let mut i: usize = 0;
        proof {
            assert(tracks@.skip(0) =~= tracks@);
            assert(playable@.map_values(|x: usize| x as int) =~= Seq::<int>::empty());
            assert(items@ + pane_rows(tracks@, None) =~= pane_rows(tracks@, None));
            assert(Seq::<int>::empty() + pane_playable(tracks@, None, 0) =~= pane_playable(
                tracks@,
                None,
                0,
            ));
        }
        while i < tracks.len()
            invariant
                i <= tracks@.len(),
                tracks@ == spec_visible_tracks(*self),
                items@ + pane_rows(
                    tracks@.skip(i as int),
                    match last_album {
                        Some(s) => Some(s@),
                        None => None,
                    },
                ) == pane_rows(tracks@, None),
                playable@.map_values(|x: usize| x as int) + pane_playable(
                    tracks@.skip(i as int),
                    match last_album {
                        Some(s) => Some(s@),
                        None => None,
                    },
                    items@.len() as int,
                ) == pane_playable(tracks@, None, 0),
            decreases tracks@.len() - i,
        {
            let ghost pre_items = items@;
            let ghost pre_play = playable@.map_values(|x: usize| x as int);
            let ghost pre_last: Option<Seq<char>> = match &last_album {
                Some(s) => Some(s@),
                None => None,
            };
            proof {
                assert(tracks@.skip(i as int).drop_first() =~= tracks@.skip(i + 1));
                assert(tracks@.skip(i as int)[0] == tracks@[i as int]);
            }
            let is_same = match &last_album {
                Some(s) => s.eq(&tracks[i].album),
                None => false,
            };
            if !is_same {
                items.push(TrackRow::AlbumHeader { album: tracks[i].album.clone() });
                last_album = Some(tracks[i].album.clone());
            }
            playable.push(items.len());
            items.push(
                TrackRow::Track { number: tracks[i].track_number, title: tracks[i].title.clone() },
            );
            proof {
                let t = tracks@[i as int];
                let hdr: Seq<TrackRow> = if same_album(pre_last, t) {
                    Seq::empty()
                } else {
                    seq![(TrackRow::AlbumHeader { album: t.album })]
                };
                let hdr_n: int = if same_album(pre_last, t) {
                    0
                } else {
                    1
                };
                assert(items@ =~= pre_items + hdr + seq![
                    (TrackRow::Track { number: t.track_number, title: t.title }),
                ]);
                assert(playable@.map_values(|x: usize| x as int) =~= pre_play + seq![
                    pre_items.len() + hdr_n,
                ]);
                assert(match last_album {
                    Some(s) => Some(s@),
                    None => None,
                } == Some(t.album@));
            }
            i += 1;
        }
        proof {
            assert(tracks@.skip(tracks@.len() as int) =~= Seq::<LibraryTrack>::empty());
            assert(items@ =~= pane_rows(tracks@, None));
            assert(playable@.map_values(|x: usize| x as int) =~= pane_playable(tracks@, None, 0));
        }
        (items, playable)
    }

    /// Swap keyboard focus between the two panes.
    pub fn tab_focus(&mut self)
        ensures
            final(self).focus == (match old(self).focus {
                LibraryFocus::Left => LibraryFocus::Right,
                LibraryFocus::Right => LibraryFocus::Left,
            }),
            final(self).artists == old(self).artists,
            final(self).selection == old(self).selection,
            final(self).selected_row == old(self).selected_row,
            final(self).album_index == old(self).album_index,
            final(self).track_index == old(self).track_index,
            final(self).visible_rows == old(self).visible_rows,
            final(self).tracks == old(self).tracks,
    {
        self.focus = match self.focus {
            LibraryFocus::Left => LibraryFocus::Right,
            LibraryFocus::Right => LibraryFocus::Left,
        };
    }

    /// Move the right-pane track cursor up one row.
    pub fn move_track_up(&mut self)
        ensures
            final(self).track_index == if old(self).track_index > 0 {
                old(self).track_index - 1
            } else {
                0int
            },
            final(self).artists == old(self).artists,
            final(self).selection == old(self).selection,
            final(self).selected_row == old(self).selected_row,
            final(self).album_index == old(self).album_index,
            final(self).focus == old(self).focus,
            final(self).visible_rows == old(self).visible_rows,
            final(self).tracks == old(self).tracks,
    {
        if self.track_index > 0 {
            self.track_index = self.track_index - 1;
        }
    }

    /// Move the right-pane track cursor down one row, capped at the track
    /// count.
    pub fn move_track_down(&mut self, track_count: usize)
        ensures
            final(self).track_index == if old(self).track_index + 1 < track_count {
                old(self).track_index + 1
            } else {
                old(self).track_index as int
            },
            final(self).artists == old(self).artists,
            final(self).selection == old(self).selection,
            final(self).selected_row == old(self).selected_row,
            final(self).album_index == old(self).album_index,
            final(self).focus == old(self).focus,
            final(self).visible_rows == old(self).visible_rows,
            final(self).tracks == old(self).tracks,
    {
        if self.track_index < usize::MAX && self.track_index + 1 < track_count {
            self.track_index = self.track_index + 1;
        }
    }
}

} // verus!
