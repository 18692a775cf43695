//! The library-scan pipeline: single-level directory listing for a file
//! picker, audio-file classification for the walk phase, and the
//! duration-filtering of extracted track metadata.
//!
//! The caller performs the walking, the tag reading and the parallel
//! fan-out; every decision — which entries to show, which files are audio,
//! which extracted tracks to keep — is made here.

use vstd::prelude::*;

use crate::text::ext_of;
use crate::text::lex_le;
use crate::text::lemma_lex_le_refl;
use crate::text::lemma_lex_le_total;
use crate::text::lemma_lex_le_trans;
use crate::text::lower_ascii_seq;
use crate::text::lower_of;
use crate::text::lowercase;
use crate::text::path_ext_lower;
use crate::text::str_eq_check;
use crate::text::str_lex_le;

verus! {

/// One entry of a single-level directory listing.
#[derive(Debug)]
pub struct DirectoryEntry {
    pub name: String,
    pub path: String,
    pub is_dir: bool,
}

impl Clone for DirectoryEntry {
    /// An exact copy.
    fn clone(&self) -> (r: Self)
        ensures
            r == *self,
    {
        DirectoryEntry { name: self.name.clone(), path: self.path.clone(), is_dir: self.is_dir }
    }
}

/// One track record, created per successfully parsed audio file and never
/// mutated afterwards. The duration is carried in milliseconds.
pub struct ScannedSong {
    pub path: String,
    pub duration_ms: u64,
    pub title: Option<String>,
    pub artist: Option<String>,
    pub album: Option<String>,
}

/// What a scan is asked to do: the ordered root directories, whether to
/// skip short tracks, and the minimum duration (milliseconds) used only
/// when the flag is set.
pub struct ScanOptions {
    pub directories: Vec<String>,
    pub skip_short_audio: Option<bool>,
    pub min_duration_ms: Option<u64>,
}

/// One entry the recursive walk yielded, as the caller observed it.
pub struct WalkedFile {
    pub path: String,
    pub is_file: bool,
}

/// Whether a directory entry is shown by the file picker: only
/// directories, and not hidden ones (name starting with a dot).
pub open spec fn keep_entry(e: DirectoryEntry) -> bool {
    e.is_dir && (e.name@.len() == 0 || e.name@[0] != '.')
}

/// The entries the picker keeps, in listing order.
pub open spec fn kept_entries(s: Seq<DirectoryEntry>) -> Seq<DirectoryEntry>
    decreases s.len(),
{
    if s.len() == 0 {
        Seq::empty()
    } else {
        let rest = kept_entries(s.drop_last());
        if keep_entry(s.last()) {
            rest.push(s.last())
        } else {
            rest
        }
    }
}

/// A listing keeps exactly the non-hidden subdirectories: every entry
/// that is a directory and not hidden is kept, and everything kept is
/// such an entry of the input.
pub proof fn lemma_kept_entries_exact(s: Seq<DirectoryEntry>)
    ensures
        forall|k: int|
            #![trigger s[k]]
            0 <= k < s.len() && keep_entry(s[k]) ==> kept_entries(s).contains(s[k]),
        forall|e: DirectoryEntry| #[trigger]
            kept_entries(s).contains(e) ==> keep_entry(e) && s.contains(e),
    decreases s.len(),
{
    if s.len() == 0 {
    } else {
        let prefix = s.drop_last();
        lemma_kept_entries_exact(prefix);
        let rest = kept_entries(prefix);
        assert(forall|k: int| 0 <= k < prefix.len() ==> prefix[k] == s[k]);
        assert forall|e: DirectoryEntry| prefix.contains(e) implies s.contains(e) by {
            let i = choose|i: int| 0 <= i < prefix.len() && prefix[i] == e;
            assert(s[i] == e);
        }
        if keep_entry(s.last()) {
            let whole = rest.push(s.last());
            assert(whole[rest.len() as int] == s.last());
            assert(forall|i: int| 0 <= i < rest.len() ==> whole[i] == rest[i]);
            assert forall|e: DirectoryEntry| #[trigger] whole.contains(e) implies keep_entry(e)
                && s.contains(e) by {
                let i = choose|i: int| 0 <= i < whole.len() && whole[i] == e;
                if i < rest.len() {
                    assert(rest.contains(e));
                } else {
                    assert(s[s.len() - 1] == e);
                }
            }
            assert forall|k: int| 0 <= k < s.len() && keep_entry(#[trigger] s[k]) implies
                whole.contains(s[k]) by {
                if k < s.len() - 1 {
                    assert(rest.contains(s[k]));
                    let i = choose|i: int| 0 <= i < rest.len() && rest[i] == s[k];
                    assert(whole[i] == s[k]);
                } else {
                    assert(whole[rest.len() as int] == s[k]);
                }
            }
        } else {
            assert forall|k: int| 0 <= k < s.len() && keep_entry(#[trigger] s[k]) implies
                rest.contains(s[k]) by {
                assert(k < s.len() - 1);
            }
        }
    }
}

/// The picker's order: case-insensitively by name, lexicographically by
/// code point on the folded names.
pub open spec fn entry_le(a: DirectoryEntry, b: DirectoryEntry) -> bool {
    lex_le(lower_of(a.name@), lower_of(b.name@))
}

/// Whether a listing is sorted in the picker's order.
pub open spec fn entries_sorted(s: Seq<DirectoryEntry>) -> bool {
    forall|i: int, j: int| 0 <= i < j < s.len() ==> entry_le(s[i], s[j])
}

/// Decides `entry_le`.
fn entry_le_exec(a: &DirectoryEntry, b: &DirectoryEntry) -> (r: bool)
    ensures
        r == entry_le(*a, *b),
{
    let la: String = lowercase(a.name.as_str());
    let lb: String = lowercase(b.name.as_str());
    str_lex_le(la.as_str(), lb.as_str())
}

/// Sorts a listing in the picker's order, keeping exactly the same
/// entries.
fn sort_entries(v: &mut Vec<DirectoryEntry>)
    ensures
        entries_sorted(final(v)@),
        final(v)@.to_multiset() == old(v)@.to_multiset(),
{
    broadcast use vstd::seq_lib::group_to_multiset_ensures;
    broadcast use vstd::multiset::group_multiset_axioms;
    broadcast use vstd::multiset::group_multiset_properties;

    let ghost orig: Seq<DirectoryEntry> = v@;
    let mut out: Vec<DirectoryEntry> = Vec::new();
    while v.len() > 0
        invariant
            out@.to_multiset().add(v@.to_multiset()) == orig.to_multiset(),
            entries_sorted(out@),
            forall|j: int, l: int|
                0 <= j < out@.len() && 0 <= l < v@.len() ==> entry_le(out@[j], v@[l]),
        decreases v@.len(),
    {
        let n: usize = v.len();
        let mut m: usize = 0;
        let mut t: usize = 1;
        proof {
            lemma_lex_le_refl(lower_of(v@[0].name@));
        }
        while t < n
            invariant
                m < t <= n,
                n == v@.len(),
                forall|l: int| 0 <= l < t ==> entry_le(v@[m as int], v@[l]),
            decreases n - t,
        {
            if entry_le_exec(&v[t], &v[m]) {
                proof {
                    assert forall|l: int| 0 <= l < t + 1 implies entry_le(
                        v@[t as int],
                        v@[l],
                    ) by {
                        if l < t {
                            lemma_lex_le_trans(
                                lower_of(v@[t as int].name@),
                                lower_of(v@[m as int].name@),
                                lower_of(v@[l].name@),
                            );
                        } else {
                            lemma_lex_le_refl(lower_of(v@[t as int].name@));
                        }
                    }
                }
                m = t;
            } else {
                proof {
                    lemma_lex_le_total(lower_of(v@[t as int].name@), lower_of(v@[m as int].name@));
                }
            }
            t = t + 1;
        }
        let ghost before: Seq<DirectoryEntry> = v@;
        let ghost out_before: Seq<DirectoryEntry> = out@;
        let e: DirectoryEntry = v.remove(m);
        out.push(e);
        proof {
            assert(before.contains(e)) by {
                assert(before[m as int] == e);
            }
            assert(v@ == before.remove(m as int));
            vstd::seq_lib::to_multiset_remove(before, m as int);
            vstd::seq_lib::to_multiset_build(out_before, e);
            assert(v@.to_multiset() == before.to_multiset().remove(e));
            assert(out@.to_multiset() == out_before.to_multiset().insert(e));
            before.to_multiset_ensures();
            assert(before.to_multiset().count(e) > 0);
            assert(out@.to_multiset().add(v@.to_multiset()) =~= orig.to_multiset());
            assert forall|j: int, l: int|
                0 <= j < out@.len() && 0 <= l < v@.len() implies entry_le(out@[j], v@[l]) by {
                if l < m {
                    assert(v@[l] == before[l]);
                } else {
                    assert(v@[l] == before[l + 1]);
                }
            }
        }
    }
    *v = out;
}

/// Lists a directory for the file picker: keeps only non-hidden
/// subdirectories and sorts them case-insensitively by name. A path that
/// does not exist, or is not a directory, is a descriptive error. The
/// caller reads the directory (an entry that errors is simply left out of
/// what it hands in) and reports whether the path exists and is a
/// directory.
pub fn list_directories(
    path: &str,
    path_exists: bool,
    path_is_dir: bool,
    entries: &Vec<DirectoryEntry>,
) -> (r: Result<Vec<DirectoryEntry>, String>)
    ensures
        !path_exists ==> r is Err && r->Err_0@ == "Path does not exist: "@ + path@,
        path_exists && !path_is_dir ==> r is Err && r->Err_0@ == "Path is not a directory: "@
            + path@,
        path_exists && path_is_dir ==> r is Ok && entries_sorted(r->Ok_0@)
            && r->Ok_0@.to_multiset() == kept_entries(entries@).to_multiset(),
{
    if !path_exists {
        let mut msg: String = String::from_str("Path does not exist: ");
        msg.append(path);
        return Err(msg);
    }
    if !path_is_dir {
        let mut msg: String = String::from_str("Path is not a directory: ");
        msg.append(path);
        return Err(msg);
    }
    let n: usize = entries.len();
    let mut kept: Vec<DirectoryEntry> = Vec::new();
    let mut i: usize = 0;
    while i < n
        invariant
            i <= n,
            n == entries@.len(),
            kept@ == kept_entries(entries@.take(i as int)),
        decreases n - i,
    {
        proof {
            assert(entries@.take(i as int + 1).drop_last() =~= entries@.take(i as int));
            assert(entries@.take(i as int + 1).last() == entries@[i as int]);
        }
        let name: &str = entries[i].name.as_str();
        let hidden: bool = name.unicode_len() > 0 && name.get_char(0) == '.';
        if entries[i].is_dir && !hidden {
            kept.push(entries[i].clone());
        }
        i = i + 1;
    }
    proof {
        assert(entries@.take(n as int) =~= entries@);
    }
    sort_entries(&mut kept);
    Ok(kept)
}

/// Whether an extension (already case-folded) is on the fixed audio-type
/// allow-list.
pub open spec fn is_audio_ext(e: Seq<char>) -> bool {
    ||| e == "mp3"@
    ||| e == "flac"@
    ||| e == "wav"@
    ||| e == "ogg"@
    ||| e == "m4a"@
    ||| e == "aac"@
    ||| e == "opus"@
    ||| e == "wma"@
    ||| e == "aiff"@
    ||| e == "ape"@
}

/// Whether a path names an audio file: its base name's extension,
/// case-folded, is on the allow-list.
pub open spec fn is_audio_path(p: Seq<char>) -> bool {
    match ext_of(p) {
        Some(e) => is_audio_ext(lower_ascii_seq(e)),
        None => false,
    }
}

/// Classifies one path against the fixed audio-type allow-list.
pub fn is_audio_file(path: &str) -> (r: bool)
    ensures
        r == is_audio_path(path@),
{
    match path_ext_lower(path) {
        Some(e) => {
            let s: &str = e.as_str();
            str_eq_check(s, "mp3") || str_eq_check(s, "flac") || str_eq_check(s, "wav")
                || str_eq_check(s, "ogg") || str_eq_check(s, "m4a") || str_eq_check(s, "aac")
                || str_eq_check(s, "opus") || str_eq_check(s, "wma") || str_eq_check(s, "aiff")
                || str_eq_check(s, "ape")
        },
        None => false,
    }
}

/// The audio candidates of a walk: the paths of the regular files that
/// classify as audio, in walk order.
pub open spec fn audio_path_list(ws: Seq<WalkedFile>) -> Seq<Seq<char>>
    decreases ws.len(),
{
    if ws.len() == 0 {
        Seq::empty()
    } else {
        let rest = audio_path_list(ws.drop_last());
        if ws.last().is_file && is_audio_path(ws.last().path@) {
            rest.push(ws.last().path@)
        } else {
            rest
        }
    }
}

/// The walk phase's filter: of everything the recursive walk yielded,
/// keeps exactly the regular files on the audio allow-list, in order.
pub fn collect_audio_paths(walked: &Vec<WalkedFile>) -> (r: Vec<String>)
    ensures
        r@.map_values(|s: String| s@) == audio_path_list(walked@),
{
    let n: usize = walked.len();
    let mut out: Vec<String> = Vec::new();
    let mut i: usize = 0;
    while i < n
        invariant
            i <= n,
            n == walked@.len(),
            out@.map_values(|s: String| s@) == audio_path_list(walked@.take(i as int)),
        decreases n - i,
    {
        proof {
            assert(walked@.take(i as int + 1).drop_last() =~= walked@.take(i as int));
            assert(walked@.take(i as int + 1).last() == walked@[i as int]);
        }
        if walked[i].is_file && is_audio_file(walked[i].path.as_str()) {
            out.push(walked[i].path.clone());
            proof {
                assert(out@.map_values(|s: String| s@) =~= audio_path_list(
                    walked@.take(i as int + 1),
                ));
            }
        }
        i = i + 1;
    }
    proof {
        assert(walked@.take(n as int) =~= walked@);
    }
    out
}

/// The roots a scan actually walks: the configured directories that
/// exist, in order; a missing directory is silently skipped and is no
/// error.
pub open spec fn existing_list(dirs: Seq<String>, found: Seq<bool>) -> Seq<Seq<char>>
    decreases dirs.len(),
{
    if dirs.len() == 0 {
        Seq::empty()
    } else {
        let rest = existing_list(dirs.drop_last(), found.drop_last());
        if found[dirs.len() - 1] {
            rest.push(dirs.last()@)
        } else {
            rest
        }
    }
}

/// Selects the scan roots that exist, in configuration order. The caller
/// probes each configured directory and hands the outcomes in.
pub fn existing_roots(directories: &Vec<String>, found: &Vec<bool>) -> (r: Vec<String>)
    requires
        directories@.len() == found@.len(),
    ensures
        r@.map_values(|s: String| s@) == existing_list(directories@, found@),
{
    let n: usize = directories.len();
    let mut out: Vec<String> = Vec::new();
    let mut i: usize = 0;
    while i < n
        invariant
            i <= n,
            n == directories@.len(),
            n == found@.len(),
            out@.map_values(|s: String| s@) == existing_list(
                directories@.take(i as int),
                found@.take(i as int),
            ),
        decreases n - i,
    {
        proof {
            assert(directories@.take(i as int + 1).drop_last() =~= directories@.take(i as int));
            assert(found@.take(i as int + 1).drop_last() =~= found@.take(i as int));
            assert(directories@.take(i as int + 1).last() == directories@[i as int]);
        }
        if found[i] {
            out.push(directories[i].clone());
            proof {
                assert(out@.map_values(|s: String| s@) =~= existing_list(
                    directories@.take(i as int + 1),
                    found@.take(i as int + 1),
                ));
            }
        }
        i = i + 1;
    }
    proof {
        assert(directories@.take(n as int) =~= directories@);
        assert(found@.take(n as int) =~= found@);
    }
    out
}

/// The effective skip-short flag of a scan: off unless set.
pub fn effective_skip_short(options: &ScanOptions) -> (r: bool)
    ensures
        r == match options.skip_short_audio {
            Some(b) => b,
            None => false,
        },
{
    match options.skip_short_audio {
        Some(b) => b,
        None => false,
    }
}

/// The effective minimum duration of a scan, in milliseconds: 30 seconds
/// unless set.
pub fn effective_min_duration_ms(options: &ScanOptions) -> (r: u64)
    ensures
        r == match options.min_duration_ms {
            Some(ms) => ms,
            None => 30000u64,
        },
{
    match options.min_duration_ms {
        Some(ms) => ms,
        None => 30000,
    }
}

/// Whether an extracted track passes the duration filter: always when the
/// skip-short flag is off; otherwise exactly when the duration reaches the
/// threshold — the boundary is inclusive, a track of exactly the minimum
/// duration is kept.
pub open spec fn song_kept(duration_ms: u64, skip_short: bool, min_ms: u64) -> bool {
    !skip_short || duration_ms >= min_ms
}

/// One worker's decision on one extraction outcome: an extraction failure
/// or a duration-filter miss discards the file, anything else emits its
/// record unchanged.
pub fn accept_song(song: Option<ScannedSong>, skip_short: bool, min_ms: u64) -> (r: Option<
    ScannedSong,
>)
    ensures
        song is None ==> r is None,
        song is Some && song_kept(song->0.duration_ms, skip_short, min_ms) ==> r == song,
        song is Some && !song_kept(song->0.duration_ms, skip_short, min_ms) ==> r is None,
{
    match song {
        None => None,
        Some(s) => {
            if skip_short && s.duration_ms < min_ms {
                None
            } else {
                Some(s)
            }
        },
    }
}

/// The records a scan emits for a list of extraction outcomes, in input
/// order: exactly the successfully extracted tracks that pass the
/// duration filter.
pub open spec fn kept_songs(rs: Seq<Option<ScannedSong>>, skip_short: bool, min_ms: u64) -> Seq<
    ScannedSong,
>
    decreases rs.len(),
{
    if rs.len() == 0 {
        Seq::empty()
    } else {
        let rest = kept_songs(rs.drop_first(), skip_short, min_ms);
        match rs.first() {
            Some(s) => if song_kept(s.duration_ms, skip_short, min_ms) {
                seq![s] + rest
            } else {
                rest
            },
            None => rest,
        }
    }
}

/// The extraction phase's merge: applies the per-file decision to every
/// outcome the workers produced. Output order follows input order, but
/// callers must rely on set membership only — the workers themselves
/// finish in no fixed order.
pub fn filter_scanned_songs(results: Vec<Option<ScannedSong>>, skip_short: bool, min_ms: u64) -> (r:
    Vec<ScannedSong>)
    ensures
        r@ == kept_songs(results@, skip_short, min_ms),
{
    let ghost orig: Seq<Option<ScannedSong>> = results@;
    let mut rest: Vec<Option<ScannedSong>> = results;
    let mut out: Vec<ScannedSong> = Vec::new();
    while rest.len() > 0
        invariant
            kept_songs(orig, skip_short, min_ms) == out@ + kept_songs(
                rest@,
                skip_short,
                min_ms,
            ),
        decreases rest@.len(),
    {
        let ghost before: Seq<Option<ScannedSong>> = rest@;
        let x: Option<ScannedSong> = rest.remove(0);
        proof {
            assert(x == before.first());
            assert(rest@ =~= before.drop_first());
        }
        match accept_song(x, skip_short, min_ms) {
            Some(s) => {
                out.push(s);
                proof {
                    assert(out@ + kept_songs(rest@, skip_short, min_ms) =~= kept_songs(
                        orig,
                        skip_short,
                        min_ms,
                    ));
                }
            },
            None => {
                proof {
                    assert(out@ + kept_songs(rest@, skip_short, min_ms) =~= kept_songs(
                        orig,
                        skip_short,
                        min_ms,
                    ));
                }
            },
        }
    }
    proof {
        assert(out@ + kept_songs(rest@, skip_short, min_ms) =~= out@);
    }
    out
}

/// The single-file metadata query: yields the tag reader's record exactly
/// when the path exists, is a regular file and classifies as audio;
/// anything else — including an extraction failure, which arrives as an
/// absent record — degrades to "not found" rather than an error. The
/// caller probes the path and runs the tag reader.
pub fn get_music_metadata(
    file_path: &str,
    path_exists: bool,
    path_is_file: bool,
    parsed: Option<ScannedSong>,
) -> (r: Option<ScannedSong>)
    ensures
        path_exists && path_is_file && is_audio_path(file_path@) ==> r == parsed,
        !(path_exists && path_is_file && is_audio_path(file_path@)) ==> r is None,
{
    if !path_exists || !path_is_file {
        return None;
    }
    if !is_audio_file(file_path) {
        return None;
    }
    parsed
}

/// The single-file lyric query: yields the reader's text exactly when the
/// path exists and is a regular file; a missing path is "not found", not
/// an error.
pub fn get_lyrics(path_exists: bool, path_is_file: bool, lyrics: Option<String>) -> (r: Option<
    String,
>)
    ensures
        path_exists && path_is_file ==> r == lyrics,
        !(path_exists && path_is_file) ==> r is None,
{
    if !path_exists || !path_is_file {
        return None;
    }
    lyrics
}

} // verus!
