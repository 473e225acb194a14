//! The loop library: tracks with their markers and saved loops.
use vstd::prelude::*;

use crate::arrangement::{contains_text, generate_short_id, next_short_id, texts};
use crate::text::{decimal, decimal_string, str_eq};
use crate::waveform::Marker;

verus! {

// ───────────────────────────────────────────────
// Data model
// ───────────────────────────────────────────────

/// The whole library: tracks with loops, markers and notes.
#[derive(Debug, Clone)]
pub struct Library {
    pub tracks: Vec<TrackData>,
}

/// What the library keeps for one audio file.
#[derive(Debug, Clone)]
pub struct TrackData {
    pub track_path: String,
    pub label: String,
    pub markers: Vec<Marker>,
    pub loops: Vec<SavedLoop>,
}

/// A saved loop of a track.
///
/// `loop_a_secs`, `loop_b_secs`, `pitch_semitones` and `tempo` hold the IEEE-754
/// bit patterns (`f32::to_bits`) of the loop start and end in seconds, the pitch
/// shift in semitones and the tempo factor; nothing in this crate computes with them.
#[derive(Debug, Clone)]
pub struct SavedLoop {
    pub label: String,
    /// Short identifier for the arranger ("a", "b", "aa", ...).
    pub short_id: Option<String>,
    pub loop_a_secs: u32,
    pub loop_b_secs: u32,
    pub pitch_semitones: u32,
    pub tempo: u32,
    /// Notes for this loop (chords, notes, ...).
    pub notes: String,
}

// ───────────────────────────────────────────────
// Model
// ───────────────────────────────────────────────

/// The index of the first track at or after `i` whose path is `path`; `tracks.len()` if none.
pub open spec fn track_index_from(tracks: Seq<TrackData>, path: Seq<char>, i: int) -> int
    decreases tracks.len() - i,
{
    if i < 0 || i >= tracks.len() {
        tracks.len() as int
    } else if tracks[i].track_path@ == path {
        i
    } else {
        track_index_from(tracks, path, i + 1)
    }
}

/// The index of the first track whose path is `path`; `tracks.len()` if none.
pub open spec fn track_index(tracks: Seq<TrackData>, path: Seq<char>) -> int {
    track_index_from(tracks, path, 0)
}

/// The loops of the first `n` tracks whose path is `path`, in order.
pub open spec fn loops_upto(tracks: Seq<TrackData>, path: Seq<char>, n: int) -> Seq<SavedLoop>
    decreases n,
{
    if n <= 0 || n > tracks.len() {
        seq![]
    } else {
        loops_upto(tracks, path, n - 1) + (if tracks[n - 1].track_path@ == path {
            tracks[n - 1].loops@
        } else {
            seq![]
        })
    }
}

/// The loops of all tracks whose path is `path`, in order.
pub open spec fn loops_for_path(tracks: Seq<TrackData>, path: Seq<char>) -> Seq<SavedLoop> {
    loops_upto(tracks, path, tracks.len() as int)
}

/// The short identifiers that the loops hold, in order, skipping loops without one.
pub open spec fn present_ids(loops: Seq<SavedLoop>) -> Seq<Seq<char>>
    decreases loops.len(),
{
    if loops.len() == 0 {
        seq![]
    } else {
        present_ids(loops.drop_last()) + match loops.last().short_id {
            Some(id) => seq![id@],
            None => seq![],
        }
    }
}

/// A label that a track gets from its path when it is created: the file stem,
/// which is non-empty and holds no '/', or "Onbekend" when the path has none.
pub open spec fn is_stem_label(label: Seq<char>) -> bool {
    label == "Onbekend"@ || (label.len() > 0 && !label.contains('/'))
}

/// `new` is `old` carrying the short identifier `id`.
pub open spec fn loop_with_id(new: SavedLoop, old: SavedLoop, id: Seq<char>) -> bool {
    &&& new.label == old.label
    &&& new.short_id matches Some(s) && s@ == id
    &&& new.loop_a_secs == old.loop_a_secs
    &&& new.loop_b_secs == old.loop_b_secs
    &&& new.pitch_semitones == old.pitch_semitones
    &&& new.tempo == old.tempo
    &&& new.notes == old.notes
}

proof fn lemma_track_index_from(tracks: Seq<TrackData>, path: Seq<char>, i: int)
    requires
        0 <= i <= tracks.len(),
    ensures
        i <= track_index_from(tracks, path, i) <= tracks.len(),
        track_index_from(tracks, path, i) < tracks.len() ==> tracks[track_index_from(
            tracks,
            path,
            i,
        )].track_path@ == path,
        forall|j: int| i <= j < track_index_from(tracks, path, i) ==> #[trigger] tracks[j].track_path@ != path,
    decreases tracks.len() - i,
{
    if i < tracks.len() && tracks[i].track_path@ != path {
        lemma_track_index_from(tracks, path, i + 1);
    }
}

proof fn lemma_loops_upto_len(tracks: Seq<TrackData>, path: Seq<char>, m: int, n: int)
    requires
        0 <= m <= n <= tracks.len(),
    ensures
        loops_upto(tracks, path, m).len() <= loops_upto(tracks, path, n).len(),
    decreases n - m,
{
    if m < n {
        lemma_loops_upto_len(tracks, path, m, n - 1);
    }
}

proof fn lemma_present_ids_append(a: Seq<SavedLoop>, b: Seq<SavedLoop>)
    ensures
        present_ids(a + b) == present_ids(a) + present_ids(b),
    decreases b.len(),
{
    if b.len() == 0 {
        assert(a + b =~= a);
        assert(present_ids(a) + present_ids(b) =~= present_ids(a));
    } else {
        lemma_present_ids_append(a, b.drop_last());
        assert((a + b).drop_last() =~= a + b.drop_last());
        assert((a + b).last() == b.last());
        let tail: Seq<Seq<char>> = match b.last().short_id {
            Some(id) => seq![id@],
            None => seq![],
        };
        assert(present_ids(a) + present_ids(b.drop_last()) + tail =~= present_ids(a) + (present_ids(
            b.drop_last(),
        ) + tail));
    }
}

// ───────────────────────────────────────────────
// Library operations
// ───────────────────────────────────────────────

/// `path` has no '\\', does not begin with "//" and has no ':' as its second
/// character: on every platform its parts are separated by '/' alone and it has no
/// prefix (a drive such as `C:`, or a Windows form that begins with two
/// separators such as `\\server\share`).
pub open spec fn portable_path(path: Seq<char>) -> bool {
    &&& !path.contains('\\')
    &&& !(path.len() >= 2 && path[1] == ':')
    &&& !(path.len() >= 2 && path[0] == '/' && path[1] == '/')
}

/// `c` separates the parts of a path on some platform: '/' everywhere, '\\' on Windows.
pub open spec fn is_separator(c: char) -> bool {
    c == '/' || c == '\\'
}

/// The characters after the last '/' or '\\' of `path` (all of it when it has none).
pub open spec fn last_part(path: Seq<char>) -> Seq<char>
    decreases path.len(),
{
    if path.len() == 0 || is_separator(path.last()) {
        seq![]
    } else {
        last_part(path.drop_last()).push(path.last())
    }
}

/// `path` has a file name whichever separators and prefixes the platform knows: it
/// does not end in a separator, its last part is neither "." nor "..", it does not
/// begin with two separators, and when its second character is ':' its last part
/// comes after a separator past that (so no drive prefix swallows it).
pub open spec fn named_everywhere(path: Seq<char>) -> bool {
    &&& path.len() > 0
    &&& !is_separator(path.last())
    &&& last_part(path) != "."@
    &&& last_part(path) != ".."@
    &&& !(path.len() >= 2 && is_separator(path[0]) && is_separator(path[1]))
    &&& (path.len() >= 2 && path[1] == ':') ==> last_part(path).len() + 3 <= path.len()
}

/// `part` occurs in `text` as a run of consecutive characters.
pub open spec fn occurs_in(part: Seq<char>, text: Seq<char>) -> bool {
    exists|i: int| 0 <= i && i + part.len() <= text.len() && #[trigger] text.subrange(i, i + part.len()) == part
}

/// The characters after the last '/' of `path` (all of it when it has none).
pub open spec fn last_segment(path: Seq<char>) -> Seq<char>
    decreases path.len(),
{
    if path.len() == 0 || path.last() == '/' {
        seq![]
    } else {
        last_segment(path.drop_last()).push(path.last())
    }
}

/// A last segment is no longer than its path, and is non-empty when the path does
/// not end in '/'.
pub proof fn lemma_last_segment_len(path: Seq<char>)
    ensures
        last_segment(path).len() <= path.len(),
        path.len() > 0 && path.last() != '/' ==> last_segment(path).len() > 0,
    decreases path.len(),
{
    if path.len() > 0 && path.last() != '/' {
        lemma_last_segment_len(path.drop_last());
    }
}

/// The file name of a portable path: its last component, where trailing '/'s and
/// "." components are passed over; none when that component is "..", or when
/// only the root, "." or nothing is left.
pub open spec fn file_name_of(path: Seq<char>) -> Option<Seq<char>>
    decreases path.len(),
{
    if path.len() == 0 {
        None
    } else if path.last() == '/' {
        file_name_of(path.drop_last())
    } else {
        let seg = last_segment(path);
        proof {
            lemma_last_segment_len(path);
        }
        let rest = path.take(path.len() - seg.len());
        if seg == "."@ {
            if rest.len() == 0 {
                None
            } else {
                file_name_of(rest)
            }
        } else if seg == ".."@ {
            None
        } else {
            Some(seg)
        }
    }
}

/// The index of the last '.' in `name`, or -1 when it has none.
pub open spec fn last_dot(name: Seq<char>) -> int
    decreases name.len(),
{
    if name.len() == 0 {
        -1
    } else if name.last() == '.' {
        name.len() - 1
    } else {
        last_dot(name.drop_last())
    }
}

/// The stem of a file name: the part before its last '.', or the whole name when
/// it has no '.' or only one at its start.
pub open spec fn stem_of_name(name: Seq<char>) -> Seq<char> {
    let k = last_dot(name);
    if k <= 0 {
        name
    } else {
        name.take(k)
    }
}

/// The file stem of a portable path.
pub open spec fn path_file_stem(path: Seq<char>) -> Option<Seq<char>> {
    match file_name_of(path) {
        Some(name) => Some(stem_of_name(name)),
        None => None,
    }
}

/// The label of a new track at a portable path: its file stem, or "Onbekend".
pub open spec fn stem_label_of(path: Seq<char>) -> Seq<char> {
    match path_file_stem(path) {
        Some(stem) => stem,
        None => "Onbekend"@,
    }
}

/// `label` is what a track at `path` is labelled when it is created: the file stem
/// (exactly `stem_label_of` for a portable path), and, for a path that has a file
/// name on every platform, a non-empty part of the path itself.
pub open spec fn is_path_label(path: Seq<char>, label: Seq<char>) -> bool {
    &&& is_stem_label(label)
    &&& portable_path(path) ==> label == stem_label_of(path)
    &&& named_everywhere(path) ==> label.len() > 0 && occurs_in(label, path)
}

proof fn lemma_last_segment_after_dir(dir: Seq<char>, x: Seq<char>)
    requires
        dir.len() == 0 || dir.last() == '/',
        !x.contains('/'),
    ensures
        last_segment(dir + x) == x,
    decreases x.len(),
{
    if x.len() > 0 {
        assert((dir + x).drop_last() =~= dir + x.drop_last());
        assert((dir + x).last() == x.last());
        assert(!x.drop_last().contains('/')) by {
            if x.drop_last().contains('/') {
                let i = choose|i: int| 0 <= i < x.drop_last().len() && x.drop_last()[i] == '/';
                assert(x[i] == '/');
            }
        }
        assert(x.last() != '/') by {
            assert(x[x.len() - 1] == x.last());
        }
        lemma_last_segment_after_dir(dir, x.drop_last());
        assert(x.drop_last().push(x.last()) =~= x);
    } else {
        assert(dir + x =~= dir);
    }
}

proof fn lemma_last_dot_before_ext(base: Seq<char>, ext: Seq<char>)
    requires
        !ext.contains('.'),
    ensures
        last_dot(base + seq!['.'] + ext) == base.len(),
    decreases ext.len(),
{
    let n = base + seq!['.'] + ext;
    if ext.len() > 0 {
        assert(n.drop_last() =~= base + seq!['.'] + ext.drop_last());
        assert(n.last() == ext[ext.len() - 1]);
        assert(!ext.drop_last().contains('.')) by {
            if ext.drop_last().contains('.') {
                let i = choose|i: int| 0 <= i < ext.drop_last().len() && ext.drop_last()[i] == '.';
                assert(ext[i] == '.');
            }
        }
        lemma_last_dot_before_ext(base, ext.drop_last());
    } else {
        assert(n =~= base.push('.'));
    }
}

proof fn lemma_last_dot_none(name: Seq<char>)
    requires
        !name.contains('.'),
    ensures
        last_dot(name) == -1,
    decreases name.len(),
{
    if name.len() > 0 {
        assert(name.last() == name[name.len() - 1]);
        assert(!name.drop_last().contains('.')) by {
            if name.drop_last().contains('.') {
                let i = choose|i: int| 0 <= i < name.drop_last().len() && name.drop_last()[i] == '.';
                assert(name[i] == '.');
            }
        }
        lemma_last_dot_none(name.drop_last());
    }
}

/// Law: a new track at `dir` + `base` + "." + `ext` (a portable path, in a
/// directory `dir` that is empty or ends in '/', with a non-empty extension `ext`
/// holding no '.') is labelled `base`: its name without the extension. This holds
/// for names with ':' or spaces too, such as "/home/ann/Live: take 2.wav".
pub proof fn law_label_is_name_before_extension(dir: Seq<char>, base: Seq<char>, ext: Seq<char>)
    requires
        dir.len() == 0 || dir.last() == '/',
        base.len() > 0,
        !base.contains('/'),
        ext.len() > 0,
        !ext.contains('.'),
        !ext.contains('/'),
        portable_path(dir + base + "."@ + ext),
    ensures
        forall|label: Seq<char>| #[trigger] is_path_label(dir + base + "."@ + ext, label) ==> label == base,
{
    reveal_strlit(".");
    reveal_strlit("..");
    let name = base + seq!['.'] + ext;
    let p = dir + base + "."@ + ext;
    assert("."@ =~= seq!['.']);
    assert(p =~= dir + name);
    assert(!name.contains('/')) by {
        if name.contains('/') {
            let i = choose|i: int| 0 <= i < name.len() && name[i] == '/';
            if i < base.len() {
                assert(base[i] == '/');
            } else if i > base.len() {
                assert(ext[i - base.len() - 1] == '/');
            }
        }
    }
    lemma_last_segment_after_dir(dir, name);
    lemma_last_segment_len(p);
    assert(p.last() == ext[ext.len() - 1]);
    assert(p.take(p.len() - name.len()) =~= dir);
    assert(name.len() >= 3);
    assert(file_name_of(p) == Some(name));
    lemma_last_dot_before_ext(base, ext);
    assert(name.take(base.len() as int) =~= base);
}

/// Law: a new track at `dir` + `name` (a portable path, `dir` empty or ending in
/// '/', `name` non-empty without '/' or '.') is labelled `name` itself.
pub proof fn law_label_of_name_without_extension(dir: Seq<char>, name: Seq<char>)
    requires
        dir.len() == 0 || dir.last() == '/',
        name.len() > 0,
        !name.contains('/'),
        !name.contains('.'),
        portable_path(dir + name),
    ensures
        forall|label: Seq<char>| #[trigger] is_path_label(dir + name, label) ==> label == name,
{
    reveal_strlit(".");
    reveal_strlit("..");
    let p = dir + name;
    lemma_last_segment_after_dir(dir, name);
    lemma_last_segment_len(p);
    assert(p.last() == name[name.len() - 1]);
    assert(p.take(p.len() - name.len()) =~= dir);
    assert(name != "."@ && name != ".."@) by {
        if name == "."@ {
            assert(name[0] == '.');
        }
        if name == ".."@ {
            assert(name[0] == '.');
        }
    }
    assert(file_name_of(p) == Some(name));
    lemma_last_dot_none(name);
}

/// Law: a path that has a file name on every platform (with '\\' separators, a
/// drive such as `C:\`, or ':' anywhere else) gives a new track a label taken from
/// the path itself, never "Onbekend" unless that word is written in the path.
pub proof fn law_named_path_is_not_unknown(path: Seq<char>, label: Seq<char>)
    requires
        named_everywhere(path),
        is_path_label(path, label),
        !occurs_in("Onbekend"@, path),
    ensures
        label != "Onbekend"@,
        label.len() > 0,
        occurs_in(label, path),
{
}

/// `Path::file_stem` of `path`, as text (`to_string_lossy`, which leaves the text of
/// a `&str` as it is). A stem is a non-empty part of a file name, so it holds no
/// '/', and, like every component, it is a run of the path's own characters. A path
/// that has a file name on every platform (`named_everywhere`) has a stem. For a
/// portable path the documentation of `Path::components`, `file_name` and
/// `file_stem` fixes the stem as `path_file_stem`; for other paths which part is the
/// file name depends on the platform's path syntax (drive prefixes, '\\' as
/// separator on Windows only), and only the other clauses are stated.
#[verifier::external_body]
fn file_stem_of(path: &str) -> (res: Option<String>)
    ensures
        res matches Some(stem) ==> stem@.len() > 0 && !stem@.contains('/') && occurs_in(stem@, path@),
        named_everywhere(path@) ==> res is Some,
        portable_path(path@) ==> match res {
            Some(stem) => path_file_stem(path@) == Some(stem@),
            None => path_file_stem(path@) is None,
        },
{
    std::path::Path::new(path).file_stem().map(|s| s.to_string_lossy().into_owned())
}

/// The label for a track at `path`: its file stem, or "Onbekend" when it has none.
pub fn stem_label(path: &str) -> (res: String)
    ensures
        is_path_label(path@, res@),
{
    match file_stem_of(path) {
        Some(stem) => stem,
        None => "Onbekend".to_owned(),
    }
}

impl Library {
    /// A library without tracks.
    pub fn empty() -> (res: Library)
        ensures
            res.tracks@.len() == 0,
    {
        Library { tracks: Vec::new() }
    }

    /// The index of the first track with path `track_path`, if any.
    fn find_track(&self, track_path: &str) -> (res: Option<usize>)
        ensures
            match res {
                Some(i) => i == track_index(self.tracks@, track_path@) && i < self.tracks.len(),
                None => track_index(self.tracks@, track_path@) == self.tracks.len(),
            },
    {
        let mut i: usize = 0;
        while i < self.tracks.len()
            invariant
                i <= self.tracks.len(),
                track_index(self.tracks@, track_path@) == track_index_from(
                    self.tracks@,
                    track_path@,
                    i as int,
                ),
            decreases self.tracks.len() - i,
        {
            if str_eq(self.tracks[i].track_path.as_str(), track_path) {
                return Some(i);
            }
            i += 1;
        }
        None
    }

    /// The track with path `track_path`; a new one labelled `label`, without markers
    /// or loops, is appended when there is none.
    pub fn track_for_path_labelled(&mut self, track_path: &str, label: String) -> (r: &mut TrackData)
        ensures
            ({
                let j = track_index(old(self).tracks@, track_path@);
                if j < old(self).tracks.len() {
                    &&& *r == old(self).tracks@[j]
                    &&& final(self).tracks@ == old(self).tracks@.update(j, *final(r))
                } else {
                    &&& r.track_path@ == track_path@
                    &&& r.label == label
                    &&& r.markers@.len() == 0
                    &&& r.loops@.len() == 0
                    &&& final(self).tracks@ == old(self).tracks@.push(*final(r))
                }
            }),
    {
        match self.find_track(track_path) {
            Some(i) => &mut self.tracks[i],
            None => {
                self.tracks.push(
                    TrackData {
                        track_path: track_path.to_owned(),
                        label,
                        markers: Vec::new(),
                        loops: Vec::new(),
                    },
                );
                let n = self.tracks.len();
                &mut self.tracks[n - 1]
            },
        }
    }

    /// The track with path `track_path`; a new one, labelled with the file stem of
    /// the path (or "Onbekend"), without markers or loops, is appended when there is none.
    pub fn track_for_path(&mut self, track_path: &str) -> (r: &mut TrackData)
        ensures
            ({
                let j = track_index(old(self).tracks@, track_path@);
                if j < old(self).tracks.len() {
                    &&& *r == old(self).tracks@[j]
                    &&& final(self).tracks@ == old(self).tracks@.update(j, *final(r))
                } else {
                    &&& r.track_path@ == track_path@
                    &&& is_path_label(track_path@, r.label@)
                    &&& r.markers@.len() == 0
                    &&& r.loops@.len() == 0
                    &&& final(self).tracks@ == old(self).tracks@.push(*final(r))
                }
            }),
    {
        let label = stem_label(track_path);
        self.track_for_path_labelled(track_path, label)
    }

    /// The number of loops of the tracks with path `track_path`.
    fn loop_count(&self, track_path: &str) -> (res: usize)
        requires
            loops_for_path(self.tracks@, track_path@).len() <= usize::MAX,
        ensures
            res == loops_for_path(self.tracks@, track_path@).len(),
    {
        let mut count: usize = 0;
        let mut i: usize = 0;
        while i < self.tracks.len()
            invariant
                i <= self.tracks.len(),
                count == loops_upto(self.tracks@, track_path@, i as int).len(),
                loops_for_path(self.tracks@, track_path@).len() <= usize::MAX,
            decreases self.tracks.len() - i,
        {
            proof {
                lemma_loops_upto_len(self.tracks@, track_path@, i + 1, self.tracks.len() as int);
            }
            if str_eq(self.tracks[i].track_path.as_str(), track_path) {
                count += self.tracks[i].loops.len();
            }
            i += 1;
        }
        count
    }

    /// The label for a new loop of track `track_path` whose file stem is `file_stem`:
    /// `"{file_stem} - Loop {n}"`, where `n` is one more than the loops the track has.
    pub fn label_for_new_loop(&self, track_path: &str, file_stem: &str) -> (res: String)
        requires
            loops_for_path(self.tracks@, track_path@).len() < usize::MAX,
        ensures
            res@ == file_stem@ + " - Loop "@ + decimal(
                (loops_for_path(self.tracks@, track_path@).len() + 1) as nat,
            ),
    {
        let count = self.loop_count(track_path);
        let mut label = file_stem.to_owned();
        label.append(" - Loop ");
        let n = decimal_string(count + 1);
        label.append(n.as_str());
        label
    }

    /// A label for a new loop in a track: `"{stem} - Loop {n}"`, where `stem` is the
    /// file stem of the path (or "Onbekend") and `n` is one more than the loops the
    /// track has.
    pub fn generate_label(&self, track_path: &str) -> (res: String)
        requires
            loops_for_path(self.tracks@, track_path@).len() < usize::MAX,
        ensures
            exists|stem: Seq<char>|
                is_path_label(track_path@, stem) && res@ == stem + " - Loop "@ + decimal(
                    (loops_for_path(self.tracks@, track_path@).len() + 1) as nat,
                ),
    {
        let stem = stem_label(track_path);
        let res = self.label_for_new_loop(track_path, stem.as_str());
        assert(is_path_label(track_path@, stem@));
        res
    }

    /// The short identifiers held by the loops of the tracks with path `track_path`.
    fn ids_for_path(&self, track_path: &str) -> (res: Vec<String>)
        ensures
            texts(res@) == present_ids(loops_for_path(self.tracks@, track_path@)),
    {
        let mut ids: Vec<String> = Vec::new();
        let mut i: usize = 0;
        while i < self.tracks.len()
            invariant
                i <= self.tracks.len(),
                texts(ids@) == present_ids(loops_upto(self.tracks@, track_path@, i as int)),
            decreases self.tracks.len() - i,
        {
            if str_eq(self.tracks[i].track_path.as_str(), track_path) {
                let ghost base = ids@;
                let ghost prefix = loops_upto(self.tracks@, track_path@, i as int);
                let mut k: usize = 0;
                while k < self.tracks[i].loops.len()
                    invariant
                        i < self.tracks.len(),
                        k <= self.tracks@[i as int].loops.len(),
                        texts(ids@) == present_ids(prefix) + present_ids(
                            self.tracks@[i as int].loops@.take(k as int),
                        ),
                    decreases self.tracks@[i as int].loops.len() - k,
                {
                    let ghost loops = self.tracks@[i as int].loops@;
                    proof {
                        assert(loops.take(k + 1).drop_last() =~= loops.take(k as int));
                        assert(loops.take(k + 1).last() == loops[k as int]);
                    }
                    match &self.tracks[i].loops[k].short_id {
                        Some(id) => {
                            let ghost before = ids@;
                            ids.push(id.clone());
                            proof {
                                assert(texts(ids@) =~= texts(before) + seq![id@]);
                                assert(present_ids(prefix) + present_ids(loops.take(k + 1)) =~= present_ids(
                                    prefix,
                                ) + present_ids(loops.take(k as int)) + seq![id@]);
                            }
                        },
                        None => {
                            assert(present_ids(loops.take(k + 1)) =~= present_ids(loops.take(k as int)));
                        },
                    }
                    k += 1;
                }
                proof {
                    let loops = self.tracks@[i as int].loops@;
                    assert(loops.take(loops.len() as int) =~= loops);
                    lemma_present_ids_append(prefix, loops);
                }
            }
            i += 1;
        }
        ids
    }

    /// Adds `saved` to the track with path `track_path` (created as `track_for_path`
    /// does when missing) under the next free short identifier of that track's loops;
    /// returns how many loops the track then has.
    pub fn add_loop(&mut self, track_path: &str, saved: SavedLoop) -> (res: usize)
        requires
            track_index(old(self).tracks@, track_path@) < old(self).tracks.len() ==> old(
                self,
            ).tracks@[track_index(old(self).tracks@, track_path@)].loops.len() < usize::MAX,
        ensures
            ({
                let j = track_index(old(self).tracks@, track_path@);
                let id = next_short_id(present_ids(loops_for_path(old(self).tracks@, track_path@)));
                if j < old(self).tracks.len() {
                    let o = old(self).tracks@[j];
                    let n = final(self).tracks@[j];
                    &&& final(self).tracks.len() == old(self).tracks.len()
                    &&& forall|i: int|
                        0 <= i < old(self).tracks.len() && i != j ==> #[trigger] final(self).tracks@[i]
                            == old(self).tracks@[i]
                    &&& n.track_path == o.track_path
                    &&& n.label == o.label
                    &&& n.markers == o.markers
                    &&& n.loops@.len() == o.loops@.len() + 1
                    &&& n.loops@.drop_last() == o.loops@
                    &&& loop_with_id(n.loops@.last(), saved, id)
                    &&& res == n.loops.len()
                } else {
                    let n = final(self).tracks@.last();
                    &&& final(self).tracks.len() == old(self).tracks.len() + 1
                    &&& final(self).tracks@.drop_last() == old(self).tracks@
                    &&& n.track_path@ == track_path@
                    &&& is_path_label(track_path@, n.label@)
                    &&& n.markers@.len() == 0
                    &&& n.loops@.len() == 1
                    &&& loop_with_id(n.loops@[0], saved, id)
                    &&& res == 1
                }
            }),
            loops_for_path(final(self).tracks@, track_path@).len() == loops_for_path(
                old(self).tracks@,
                track_path@,
            ).len() + 1,
    {
        let existing = self.ids_for_path(track_path);
        let mut saved = saved;
        let new_id = generate_short_id(existing.as_slice());
        saved.short_id = Some(new_id);
        proof {
            lemma_track_index_from(self.tracks@, track_path@, 0);
        }
        let ghost before = self.tracks@;
        let track = self.track_for_path(track_path);
        track.loops.push(saved);
        let res = track.loops.len();
        proof {
            let j = track_index(before, track_path@);
            let after = self.tracks@;
            if j < before.len() {
                lemma_loops_upto_grown(before, after, j, track_path@, before.len() as int);
            } else {
                lemma_loops_upto_prefix(before, after, track_path@, before.len() as int);
                assert(after[before.len() as int].loops@ =~= seq![after[before.len() as int].loops@[0]]);
            }
        }
        res
    }
}

proof fn lemma_loops_upto_grown(
    before: Seq<TrackData>,
    after: Seq<TrackData>,
    j: int,
    path: Seq<char>,
    n: int,
)
    requires
        0 <= j < before.len(),
        after.len() == before.len(),
        0 <= n <= before.len(),
        before[j].track_path@ == path,
        after[j].track_path == before[j].track_path,
        after[j].loops.len() == before[j].loops.len() + 1,
        forall|i: int| 0 <= i < before.len() && i != j ==> #[trigger] after[i] == before[i],
    ensures
        loops_upto(after, path, n).len() == loops_upto(before, path, n).len() + (if j < n {
            1int
        } else {
            0int
        }),
    decreases n,
{
    if n > 0 {
        lemma_loops_upto_grown(before, after, j, path, n - 1);
        if n - 1 != j {
            assert(after[n - 1] == before[n - 1]);
        }
    }
}

proof fn lemma_loops_upto_prefix(before: Seq<TrackData>, after: Seq<TrackData>, path: Seq<char>, n: int)
    requires
        0 <= n <= before.len(),
        n <= after.len(),
        forall|i: int| 0 <= i < n ==> #[trigger] after[i] == before[i],
    ensures
        loops_upto(after, path, n) == loops_upto(before, path, n),
    decreases n,
{
    if n > 0 {
        lemma_loops_upto_prefix(before, after, path, n - 1);
    }
}

/// Law: once `track_for_path` has handed out the track for a path (and the caller
/// kept that track's path), a later call finds that same track and adds none.
pub proof fn law_track_for_path_finds_its_track(tracks: Seq<TrackData>, path: Seq<char>, t: TrackData)
    requires
        t.track_path@ == path,
    ensures
        ({
            let j = track_index(tracks, path);
            let after = if j < tracks.len() {
                tracks.update(j, t)
            } else {
                tracks.push(t)
            };
            track_index(after, path) == (if j < tracks.len() {
                j
            } else {
                tracks.len() as int
            })
        }),
{
    lemma_track_index_from(tracks, path, 0);
    let j = track_index(tracks, path);
    if j < tracks.len() {
        let after = tracks.update(j, t);
        lemma_track_index_from(after, path, 0);
        let k = track_index(after, path);
        if k < j {
            assert(after[k] == tracks[k]);
        }
        if k > j {
            assert(after[j].track_path@ == path);
        }
    } else {
        let after = tracks.push(t);
        lemma_track_index_from(after, path, 0);
        let k = track_index(after, path);
        if k < tracks.len() {
            assert(after[k] == tracks[k]);
        }
        assert(after[tracks.len() as int].track_path@ == path);
    }
}

/// `l` carries the short identifier `id`.
pub open spec fn has_short_id(l: SavedLoop, id: Seq<char>) -> bool {
    l.short_id matches Some(s) && s@ == id
}

impl TrackData {
    /// The index of the first loop of this track whose short identifier is `id`,
    /// if any (how an arrangement step finds its loop).
    pub fn loop_with_short_id(&self, id: &str) -> (res: Option<usize>)
        ensures
            match res {
                Some(k) => {
                    &&& k < self.loops.len()
                    &&& has_short_id(self.loops@[k as int], id@)
                    &&& forall|j: int| 0 <= j < k ==> !has_short_id(#[trigger] self.loops@[j], id@)
                },
                None => forall|j: int| 0 <= j < self.loops.len() ==> !has_short_id(#[trigger] self.loops@[j], id@),
            },
    {
        let mut k: usize = 0;
        while k < self.loops.len()
            invariant
                k <= self.loops.len(),
                forall|j: int| 0 <= j < k ==> !has_short_id(#[trigger] self.loops@[j], id@),
            decreases self.loops.len() - k,
        {
            match &self.loops[k].short_id {
                Some(s) => {
                    if str_eq(s.as_str(), id) {
                        return Some(k);
                    }
                },
                None => {},
            }
            k += 1;
        }
        None
    }
}

// ───────────────────────────────────────────────
// Short identifier repair
// ───────────────────────────────────────────────

/// The short identifiers of a track's loops, as texts.
pub open spec fn loop_ids(loops: Seq<SavedLoop>) -> Seq<Option<Seq<char>>> {
    loops.map_values(
        |l: SavedLoop|
            match l.short_id {
                Some(s) => Some(s@),
                None => None,
            },
    )
}

/// `id` is present and not among the identifiers `kept`.
pub open spec fn keeps_id(id: Option<Seq<char>>, kept: Seq<Seq<char>>) -> bool {
    id is Some && !kept.contains(id->0)
}

/// The identifiers among the first `n` entries of `ids` that no earlier entry holds,
/// in order: the identifiers that repair keeps.
pub open spec fn first_ids(ids: Seq<Option<Seq<char>>>, n: int) -> Seq<Seq<char>>
    decreases n,
{
    if n <= 0 || n > ids.len() {
        seq![]
    } else {
        let prev = first_ids(ids, n - 1);
        if keeps_id(ids[n - 1], prev) {
            prev.push(ids[n - 1]->0)
        } else {
            prev
        }
    }
}

/// Every identifier that repair of `ids` keeps, wherever it stands in the track.
pub open spec fn kept_ids(ids: Seq<Option<Seq<char>>>) -> Seq<Seq<char>> {
    first_ids(ids, ids.len() as int)
}

/// Repairing the first `n` identifiers: (the identifiers they end up with, the new
/// identifiers handed out, whether any was replaced). A loop keeps its identifier
/// when it has one that no earlier loop holds; otherwise it gets `next_short_id` of
/// every identifier that is kept in the track together with those handed out before it.
pub open spec fn assign_state(ids: Seq<Option<Seq<char>>>, n: int) -> (
    Seq<Seq<char>>,
    Seq<Seq<char>>,
    bool,
)
    decreases n,
{
    if n <= 0 || n > ids.len() {
        (seq![], seq![], false)
    } else {
        let prev = assign_state(ids, n - 1);
        if keeps_id(ids[n - 1], first_ids(ids, n - 1)) {
            (prev.0.push(ids[n - 1]->0), prev.1, prev.2)
        } else {
            let g = next_short_id(kept_ids(ids) + prev.1);
            (prev.0.push(g), prev.1.push(g), true)
        }
    }
}

/// The identifiers that loops with identifiers `ids` hold after repair.
pub open spec fn assigned_ids(ids: Seq<Option<Seq<char>>>) -> Seq<Seq<char>> {
    assign_state(ids, ids.len() as int).0
}

/// Whether repairing `ids` replaces or fills in any identifier.
pub open spec fn ids_changed(ids: Seq<Option<Seq<char>>>) -> bool {
    assign_state(ids, ids.len() as int).2
}

/// `new` is track `old` after its loops' identifiers were repaired.
pub open spec fn track_ids_assigned(old: TrackData, new: TrackData) -> bool {
    let ids = assigned_ids(loop_ids(old.loops@));
    &&& new.track_path == old.track_path
    &&& new.label == old.label
    &&& new.markers == old.markers
    &&& new.loops.len() == old.loops.len()
    &&& forall|k: int| 0 <= k < old.loops.len() ==> loop_with_id(#[trigger] new.loops@[k], old.loops@[k], ids[k])
}

proof fn lemma_assign_state_len(ids: Seq<Option<Seq<char>>>, n: int)
    requires
        0 <= n <= ids.len(),
    ensures
        assign_state(ids, n).0.len() == n,
        assign_state(ids, n).1.len() + first_ids(ids, n).len() == n,
    decreases n,
{
    if n > 0 {
        lemma_assign_state_len(ids, n - 1);
    }
}

/// The kept identifiers only grow, by at most one per entry.
proof fn lemma_first_ids_grow(ids: Seq<Option<Seq<char>>>, n: int, m: int)
    requires
        0 <= n <= m <= ids.len(),
    ensures
        first_ids(ids, m).len() <= first_ids(ids, n).len() + (m - n),
        forall|x: Seq<char>| #[trigger] first_ids(ids, n).contains(x) ==> first_ids(ids, m).contains(x),
    decreases m - n,
{
    if n < m {
        lemma_first_ids_grow(ids, n, m - 1);
        let prev = first_ids(ids, m - 1);
        assert forall|x: Seq<char>| #[trigger] prev.contains(x) implies first_ids(ids, m).contains(x) by {
            if keeps_id(ids[m - 1], prev) {
                let i = choose|i: int| 0 <= i < prev.len() && prev[i] == x;
                assert(first_ids(ids, m)[i] == x);
            }
        }
    }
}

/// Gives every loop without a short identifier, or with one an earlier loop of the
/// same track already holds, a new identifier: `generate_short_id` of the identifiers
/// kept anywhere in that track and those handed out before it. Returns whether any
/// identifier changed; the caller persists the library when it did.
pub fn assign_short_ids(lib: &mut Library) -> (changed: bool)
    ensures
        final(lib).tracks.len() == old(lib).tracks.len(),
        forall|t: int|
            0 <= t < old(lib).tracks.len() ==> track_ids_assigned(
                #[trigger] old(lib).tracks@[t],
                final(lib).tracks@[t],
            ),
        forall|t: int|
            0 <= t < old(lib).tracks.len() && old(lib).tracks@[t].loops.len()
                <= crate::arrangement::short_id_count() ==> assigned_ids(
                loop_ids(#[trigger] old(lib).tracks@[t].loops@),
            ).no_duplicates(),
        changed == exists|t: int|
            0 <= t < old(lib).tracks.len() && ids_changed(
                loop_ids(#[trigger] old(lib).tracks@[t].loops@),
            ),
{
    let ghost orig = lib.tracks@;
    let mut changed = false;
    let mut t: usize = 0;
    while t < lib.tracks.len()
        invariant
            t <= lib.tracks.len(),
            lib.tracks.len() == orig.len(),
            forall|b: int| 0 <= b < t ==> track_ids_assigned(#[trigger] orig[b], lib.tracks@[b]),
            forall|b: int| t <= b < orig.len() ==> #[trigger] lib.tracks@[b] == orig[b],
            changed == exists|b: int| 0 <= b < t && ids_changed(loop_ids(#[trigger] orig[b].loops@)),
        decreases lib.tracks.len() - t,
    {
        let ghost before = lib.tracks@;
        let ghost ids = loop_ids(orig[t as int].loops@);
        let ghost changed_before = changed;
        let n = lib.tracks[t].loops.len();
        // First pass: the identifiers that stay, from anywhere in the track.
        let mut existing: Vec<String> = Vec::new();
        let mut j: usize = 0;
        while j < n
            invariant
                t < lib.tracks.len(),
                lib.tracks@ == before,
                before[t as int] == orig[t as int],
                n == orig[t as int].loops.len(),
                ids == loop_ids(orig[t as int].loops@),
                j <= n,
                texts(existing@) == first_ids(ids, j as int),
            decreases n - j,
        {
            match &lib.tracks[t].loops[j].short_id {
                Some(id) => {
                    if !contains_text(existing.as_slice(), id) {
                        let ghost e0 = existing@;
                        existing.push(id.clone());
                        assert(texts(existing@) =~= texts(e0).push(id@));
                    }
                },
                None => {},
            }
            j += 1;
        }
        // Second pass: keep first occurrences, hand out new identifiers elsewhere.
        let mut seen: Vec<String> = Vec::new();
        let mut i: usize = 0;
        while i < n
            invariant
                t < lib.tracks.len(),
                lib.tracks.len() == orig.len(),
                before.len() == orig.len(),
                n == orig[t as int].loops.len(),
                ids == loop_ids(orig[t as int].loops@),
                i <= n,
                forall|b: int| 0 <= b < orig.len() && b != t ==> #[trigger] lib.tracks@[b] == before[b],
                lib.tracks@[t as int].track_path == orig[t as int].track_path,
                lib.tracks@[t as int].label == orig[t as int].label,
                lib.tracks@[t as int].markers == orig[t as int].markers,
                lib.tracks@[t as int].loops.len() == n,
                texts(seen@) == first_ids(ids, i as int),
                texts(existing@) == kept_ids(ids) + assign_state(ids, i as int).1,
                changed == (changed_before || assign_state(ids, i as int).2),
                forall|k: int|
                    0 <= k < i ==> loop_with_id(
                        #[trigger] lib.tracks@[t as int].loops@[k],
                        orig[t as int].loops@[k],
                        assign_state(ids, i as int).0[k],
                    ),
                forall|k: int| i <= k < n ==> #[trigger] lib.tracks@[t as int].loops@[k] == orig[t as int].loops@[k],
            decreases n - i,
        {
            proof {
                lemma_assign_state_len(ids, i as int);
            }
            let ghost prev = assign_state(ids, i as int);
            let needs_new = match &lib.tracks[t].loops[i].short_id {
                Some(id) => {
                    if contains_text(seen.as_slice(), id) {
                        true
                    } else {
                        let ghost s0 = seen@;
                        seen.push(id.clone());
                        assert(texts(seen@) =~= texts(s0).push(id@));
                        false
                    }
                },
                None => true,
            };
            if needs_new {
                let new_id = generate_short_id(existing.as_slice());
                let ghost e0 = existing@;
                lib.tracks[t].loops[i].short_id = Some(new_id.clone());
                existing.push(new_id);
                assert(texts(existing@) =~= texts(e0).push(next_short_id(kept_ids(ids) + prev.1)));
                assert(kept_ids(ids) + prev.1.push(next_short_id(kept_ids(ids) + prev.1)) =~= (kept_ids(ids)
                    + prev.1).push(next_short_id(kept_ids(ids) + prev.1)));
                changed = true;
            }
            i += 1;
        }
        proof {
            lemma_assign_state_len(ids, n as int);
            assert(track_ids_assigned(orig[t as int], lib.tracks@[t as int]));
            if ids_changed(ids) {
                assert(exists|b: int| 0 <= b < t + 1 && ids_changed(loop_ids(#[trigger] orig[b].loops@)));
            }
            if changed_before {
                let b0 = choose|b: int| 0 <= b < t && ids_changed(loop_ids(#[trigger] orig[b].loops@));
                assert(0 <= b0 < t + 1 && ids_changed(loop_ids(orig[b0].loops@)));
            }
        }
        t += 1;
    }
    proof {
        assert forall|b: int|
            0 <= b < orig.len() && orig[b].loops.len() <= crate::arrangement::short_id_count() implies assigned_ids(
            loop_ids(#[trigger] orig[b].loops@),
        ).no_duplicates() by {
            law_assign_gives_distinct_ids(loop_ids(orig[b].loops@));
        }
    }
    changed
}

proof fn lemma_assign_distinct(ids: Seq<Option<Seq<char>>>, n: int)
    requires
        0 <= n <= ids.len(),
        ids.len() <= crate::arrangement::short_id_count(),
    ensures
        assign_state(ids, n).0.no_duplicates(),
        assign_state(ids, n).1.no_duplicates(),
        forall|x: Seq<char>|
            #[trigger] assign_state(ids, n).0.contains(x) ==> first_ids(ids, n).contains(x) || assign_state(
                ids,
                n,
            ).1.contains(x),
        forall|x: Seq<char>| #[trigger] assign_state(ids, n).1.contains(x) ==> !kept_ids(ids).contains(x),
    decreases n,
{
    if n > 0 {
        lemma_assign_distinct(ids, n - 1);
        lemma_assign_state_len(ids, n - 1);
        let prev = assign_state(ids, n - 1);
        let cur = assign_state(ids, n);
        let j = n - 1;
        let kn = first_ids(ids, j);
        lemma_first_ids_grow(ids, j, ids.len() as int);
        if keeps_id(ids[j], kn) {
            let y = ids[j]->0;
            lemma_first_ids_grow(ids, n, ids.len() as int);
            assert(first_ids(ids, n) == kn.push(y));
            assert(first_ids(ids, n).contains(y)) by {
                assert(first_ids(ids, n)[kn.len() as int] == y);
            }
            assert(kept_ids(ids).contains(y));
            assert(!prev.1.contains(y));
            assert(!prev.0.contains(y));
            assert(cur.0 == prev.0.push(y));
            assert(cur.1 == prev.1);
            assert forall|a: int, b: int| 0 <= a < cur.0.len() && 0 <= b < cur.0.len() && a != b implies cur.0[a]
                != cur.0[b] by {
                if a < j && b < j {
                } else if a == j {
                    assert(prev.0[b] == cur.0[b]);
                } else {
                    assert(prev.0[a] == cur.0[a]);
                }
            }
            assert forall|x: Seq<char>| #[trigger] cur.0.contains(x) implies first_ids(ids, n).contains(x)
                || cur.1.contains(x) by {
                if x != y {
                    let i = choose|i: int| 0 <= i < cur.0.len() && cur.0[i] == x;
                    assert(prev.0[i] == x);
                    assert(prev.0.contains(x));
                    if kn.contains(x) {
                        let p = choose|p: int| 0 <= p < kn.len() && kn[p] == x;
                        assert(first_ids(ids, n)[p] == x);
                    }
                }
            }
        } else {
            // Fewer than 702 identifiers are taken when a new one is needed.
            assert(first_ids(ids, n) == kn);
            lemma_first_ids_grow(ids, n, ids.len() as int);
            let taken = kept_ids(ids) + prev.1;
            assert(taken.len() < crate::arrangement::short_id_count());
            crate::arrangement::law_next_short_id_is_fresh(taken);
            let g = next_short_id(taken);
            assert(!kept_ids(ids).contains(g)) by {
                if kept_ids(ids).contains(g) {
                    let p = choose|p: int| 0 <= p < kept_ids(ids).len() && kept_ids(ids)[p] == g;
                    assert(taken[p] == g);
                }
            }
            assert(!prev.1.contains(g)) by {
                if prev.1.contains(g) {
                    let p = choose|p: int| 0 <= p < prev.1.len() && prev.1[p] == g;
                    assert(taken[kept_ids(ids).len() + p] == g);
                }
            }
            assert(!prev.0.contains(g));
            assert(cur.0 == prev.0.push(g));
            assert(cur.1 == prev.1.push(g));
            assert forall|a: int, b: int| 0 <= a < cur.0.len() && 0 <= b < cur.0.len() && a != b implies cur.0[a]
                != cur.0[b] by {
                if a < j && b < j {
                } else if a == j {
                    assert(prev.0[b] == cur.0[b]);
                    assert(prev.0.contains(cur.0[b]));
                } else {
                    assert(prev.0[a] == cur.0[a]);
                    assert(prev.0.contains(cur.0[a]));
                }
            }
            assert forall|a: int, b: int| 0 <= a < cur.1.len() && 0 <= b < cur.1.len() && a != b implies cur.1[a]
                != cur.1[b] by {
                if a < prev.1.len() && b < prev.1.len() {
                } else if a == prev.1.len() {
                    assert(prev.1.contains(cur.1[b]));
                } else {
                    assert(prev.1.contains(cur.1[a]));
                }
            }
            assert forall|x: Seq<char>| #[trigger] cur.0.contains(x) implies first_ids(ids, n).contains(x)
                || cur.1.contains(x) by {
                if x == g {
                    assert(cur.1[prev.1.len() as int] == g);
                } else {
                    let i = choose|i: int| 0 <= i < cur.0.len() && cur.0[i] == x;
                    assert(prev.0[i] == x);
                    assert(prev.0.contains(x));
                    if prev.1.contains(x) {
                        let p = choose|p: int| 0 <= p < prev.1.len() && prev.1[p] == x;
                        assert(cur.1[p] == x);
                    }
                }
            }
            assert forall|x: Seq<char>| #[trigger] cur.1.contains(x) implies !kept_ids(ids).contains(x) by {
                if x != g {
                    let p = choose|p: int| 0 <= p < cur.1.len() && cur.1[p] == x;
                    assert(prev.1[p] == x);
                    assert(prev.1.contains(x));
                }
            }
        }
    }
}

/// Law: repair leaves a track of at most 702 loops with pairwise distinct
/// identifiers, wherever its missing or repeated identifiers stand.
pub proof fn law_assign_gives_distinct_ids(ids: Seq<Option<Seq<char>>>)
    requires
        ids.len() <= crate::arrangement::short_id_count(),
    ensures
        assigned_ids(ids).len() == ids.len(),
        assigned_ids(ids).no_duplicates(),
{
    lemma_assign_state_len(ids, ids.len() as int);
    lemma_assign_distinct(ids, ids.len() as int);
}

/// The identifiers of `ids`, all of which are present.
pub open spec fn present_values(ids: Seq<Option<Seq<char>>>) -> Seq<Seq<char>> {
    ids.map_values(|o: Option<Seq<char>>| o->0)
}

proof fn lemma_assign_keeps(ids: Seq<Option<Seq<char>>>, n: int)
    requires
        0 <= n <= ids.len(),
        forall|k: int| 0 <= k < ids.len() ==> (#[trigger] ids[k]) is Some,
        forall|a: int, b: int| 0 <= a < ids.len() && 0 <= b < ids.len() && a != b ==> ids[a] != ids[b],
    ensures
        assign_state(ids, n).0 == present_values(ids).take(n),
        first_ids(ids, n) == present_values(ids).take(n),
        !assign_state(ids, n).2,
    decreases n,
{
    if n == 0 {
        assert(present_values(ids).take(0) =~= seq![]);
    } else {
        lemma_assign_keeps(ids, n - 1);
        let prev = first_ids(ids, n - 1);
        let y = ids[n - 1]->0;
        assert(!prev.contains(y)) by {
            if prev.contains(y) {
                let k = choose|k: int| 0 <= k < prev.len() && prev[k] == y;
                assert(present_values(ids)[k] == ids[k]->0);
                assert(ids[k] == ids[n - 1]);
            }
        }
        assert(present_values(ids).take(n) =~= present_values(ids).take(n - 1).push(y));
    }
}

/// Law: a track whose loops all have pairwise distinct identifiers is left as it is.
pub proof fn law_assign_keeps_distinct_ids(ids: Seq<Option<Seq<char>>>)
    requires
        forall|k: int| 0 <= k < ids.len() ==> (#[trigger] ids[k]) is Some,
        forall|a: int, b: int| 0 <= a < ids.len() && 0 <= b < ids.len() && a != b ==> ids[a] != ids[b],
    ensures
        assigned_ids(ids) == present_values(ids),
        !ids_changed(ids),
{
    lemma_assign_keeps(ids, ids.len() as int);
    assert(present_values(ids).take(ids.len() as int) =~= present_values(ids));
}

// ───────────────────────────────────────────────
// Migration of the older flat loop list
// ───────────────────────────────────────────────

/// A loop as the older flat loop list stored it, with its track's path.
///
/// `loop_a_secs`, `loop_b_secs`, `pitch_semitones` and `tempo` hold IEEE-754 bit
/// patterns, as in `SavedLoop`.
#[derive(Debug, Clone)]
pub struct OldSavedLoop {
    pub track_path: String,
    pub label: String,
    pub loop_a_secs: u32,
    pub loop_b_secs: u32,
    pub pitch_semitones: u32,
    pub tempo: u32,
}

/// The old loops among the first `n` whose track path is `path`, in order.
pub open spec fn olds_upto(olds: Seq<OldSavedLoop>, path: Seq<char>, n: int) -> Seq<OldSavedLoop>
    decreases n,
{
    if n <= 0 || n > olds.len() {
        seq![]
    } else {
        olds_upto(olds, path, n - 1) + (if olds[n - 1].track_path@ == path {
            seq![olds[n - 1]]
        } else {
            seq![]
        })
    }
}

/// `new` carries the data of the old loop `o`, without notes or short identifier.
pub open spec fn migrated_loop(new: SavedLoop, o: OldSavedLoop) -> bool {
    &&& new.label == o.label
    &&& new.short_id is None
    &&& new.loop_a_secs == o.loop_a_secs
    &&& new.loop_b_secs == o.loop_b_secs
    &&& new.pitch_semitones == o.pitch_semitones
    &&& new.tempo == o.tempo
    &&& new.notes@.len() == 0
}

/// `new` carries the data of the old loop `o`, without notes, under short identifier `id`.
pub open spec fn migrated_loop_with_id(new: SavedLoop, o: OldSavedLoop, id: Seq<char>) -> bool {
    &&& new.label == o.label
    &&& new.short_id matches Some(s) && s@ == id
    &&& new.loop_a_secs == o.loop_a_secs
    &&& new.loop_b_secs == o.loop_b_secs
    &&& new.pitch_semitones == o.pitch_semitones
    &&& new.tempo == o.tempo
    &&& new.notes@.len() == 0
}

/// No two tracks share a path.
pub open spec fn paths_distinct(tracks: Seq<TrackData>) -> bool {
    forall|a: int, b: int|
        0 <= a < tracks.len() && 0 <= b < tracks.len() && a != b ==> tracks[a].track_path@ != tracks[b].track_path@
}

/// The state of migration after the first `n` old loops: one track per path met so
/// far, holding that path's old loops in order, without markers or identifiers.
pub open spec fn migrated_upto(tracks: Seq<TrackData>, olds: Seq<OldSavedLoop>, n: int) -> bool {
    &&& paths_distinct(tracks)
    &&& forall|j: int| 0 <= j < n ==> track_index(tracks, (#[trigger] olds[j]).track_path@) < tracks.len()
    &&& forall|t: int|
        0 <= t < tracks.len() ==> {
            let tr = #[trigger] tracks[t];
            let mine = olds_upto(olds, tr.track_path@, n);
            &&& mine.len() > 0
            &&& tr.markers@.len() == 0
            &&& tr.loops.len() == mine.len()
            &&& forall|i: int| 0 <= i < mine.len() ==> migrated_loop(#[trigger] tr.loops@[i], mine[i])
        }
}

/// `None` for each of `n` loops.
pub open spec fn no_ids(n: nat) -> Seq<Option<Seq<char>>> {
    Seq::new(n, |i: int| None)
}

proof fn lemma_track_index_of_distinct(tracks: Seq<TrackData>, t: int)
    requires
        paths_distinct(tracks),
        0 <= t < tracks.len(),
    ensures
        track_index(tracks, tracks[t].track_path@) == t,
{
    lemma_track_index_from(tracks, tracks[t].track_path@, 0);
    let j = track_index(tracks, tracks[t].track_path@);
    if j < t {
    } else if j > t {
        assert(tracks[t].track_path@ != tracks[t].track_path@);
    }
}

/// The index of the first old loop at or after `j` whose track path is `path`;
/// `olds.len()` if none.
pub open spec fn first_old_from(olds: Seq<OldSavedLoop>, path: Seq<char>, j: int) -> int
    decreases olds.len() - j,
{
    if j < 0 || j >= olds.len() {
        olds.len() as int
    } else if olds[j].track_path@ == path {
        j
    } else {
        first_old_from(olds, path, j + 1)
    }
}

/// The index of the first old loop whose track path is `path`; `olds.len()` if none.
pub open spec fn first_old(olds: Seq<OldSavedLoop>, path: Seq<char>) -> int {
    first_old_from(olds, path, 0)
}

/// The tracks are in the order in which their paths first occur among the old loops.
pub open spec fn tracks_in_first_order(tracks: Seq<TrackData>, olds: Seq<OldSavedLoop>) -> bool {
    forall|a: int, b: int|
        0 <= a < b < tracks.len() ==> first_old(olds, (#[trigger] tracks[a]).track_path@) < first_old(
            olds,
            (#[trigger] tracks[b]).track_path@,
        )
}

proof fn lemma_first_old_from(olds: Seq<OldSavedLoop>, path: Seq<char>, j: int)
    requires
        0 <= j <= olds.len(),
    ensures
        j <= first_old_from(olds, path, j) <= olds.len(),
        first_old_from(olds, path, j) < olds.len() ==> olds[first_old_from(olds, path, j)].track_path@
            == path,
        forall|m: int| j <= m < first_old_from(olds, path, j) ==> (#[trigger] olds[m]).track_path@ != path,
    decreases olds.len() - j,
{
    if j < olds.len() && olds[j].track_path@ != path {
        lemma_first_old_from(olds, path, j + 1);
    }
}

proof fn lemma_olds_upto_nonempty(olds: Seq<OldSavedLoop>, path: Seq<char>, n: int)
    requires
        0 <= n <= olds.len(),
        olds_upto(olds, path, n).len() > 0,
    ensures
        first_old(olds, path) < n,
    decreases n,
{
    lemma_first_old_from(olds, path, 0);
    if olds_upto(olds, path, n - 1).len() > 0 {
        lemma_olds_upto_nonempty(olds, path, n - 1);
    } else {
        assert(olds[n - 1].track_path@ == path);
    }
}

proof fn lemma_first_old_absent(olds: Seq<OldSavedLoop>, path: Seq<char>, n: int)
    requires
        0 <= n < olds.len(),
        olds[n].track_path@ == path,
        olds_upto(olds, path, n).len() == 0,
    ensures
        first_old(olds, path) == n,
    decreases n,
{
    lemma_first_old_from(olds, path, 0);
    assert forall|m: int| 0 <= m < n implies (#[trigger] olds[m]).track_path@ != path by {
        if olds[m].track_path@ == path {
            lemma_olds_upto_member(olds, path, n, m);
        }
    }
}

proof fn lemma_olds_upto_member(olds: Seq<OldSavedLoop>, path: Seq<char>, n: int, m: int)
    requires
        0 <= m < n <= olds.len(),
        olds[m].track_path@ == path,
    ensures
        olds_upto(olds, path, n).len() > 0,
    decreases n,
{
    if m < n - 1 {
        lemma_olds_upto_member(olds, path, n - 1, m);
    }
}

/// Builds a library out of the older flat loop list: one track per path, in order
/// of first appearance and labelled as `track_for_path` labels new tracks, holding
/// that path's loops in order without notes; then `assign_short_ids` gives the
/// loops of each track their identifiers. Persisting the result is the caller's.
pub fn migrate_old_loops(old_loops: Vec<OldSavedLoop>) -> (res: Library)
    ensures
        paths_distinct(res.tracks@),
        tracks_in_first_order(res.tracks@, old_loops@),
        forall|j: int|
            0 <= j < old_loops.len() ==> track_index(res.tracks@, (#[trigger] old_loops@[j]).track_path@)
                < res.tracks.len(),
        forall|t: int|
            0 <= t < res.tracks.len() ==> {
                let tr = #[trigger] res.tracks@[t];
                let mine = olds_upto(old_loops@, tr.track_path@, old_loops.len() as int);
                let ids = assigned_ids(no_ids(mine.len()));
                &&& mine.len() > 0
                &&& is_path_label(tr.track_path@, tr.label@)
                &&& tr.markers@.len() == 0
                &&& tr.loops.len() == mine.len()
                &&& forall|i: int|
                    0 <= i < mine.len() ==> migrated_loop_with_id(#[trigger] tr.loops@[i], mine[i], ids[i])
            },
{
    let mut lib = Library::empty();
    let mut k: usize = 0;
    while k < old_loops.len()
        invariant
            k <= old_loops.len(),
            migrated_upto(lib.tracks@, old_loops@, k as int),
            tracks_in_first_order(lib.tracks@, old_loops@),
            forall|t: int| 0 <= t < lib.tracks.len() ==> is_path_label(lib.tracks@[t].track_path@, (#[trigger] lib.tracks@[t]).label@),
        decreases old_loops.len() - k,
    {
        let old = &old_loops[k];
        let ghost before = lib.tracks@;
        let ghost path = old.track_path@;
        proof {
            lemma_track_index_from(before, path, 0);
        }
        let new_loop = SavedLoop {
            label: old.label.clone(),
            short_id: None,
            loop_a_secs: old.loop_a_secs,
            loop_b_secs: old.loop_b_secs,
            pitch_semitones: old.pitch_semitones,
            tempo: old.tempo,
            notes: String::new(),
        };
        let track = lib.track_for_path(old.track_path.as_str());
        track.loops.push(new_loop);
        proof {
            let after = lib.tracks@;
            let j = track_index(before, path);
            let n = k as int;
            assert forall|p: Seq<char>| p != path implies olds_upto(old_loops@, p, n + 1) == olds_upto(
                old_loops@,
                p,
                n,
            ) by {
                assert(olds_upto(old_loops@, p, n) + seq![] =~= olds_upto(old_loops@, p, n));
            }
            assert(olds_upto(old_loops@, path, n + 1) == olds_upto(old_loops@, path, n).push(old_loops@[n]))
                by {
                assert(olds_upto(old_loops@, path, n) + seq![old_loops@[n]] =~= olds_upto(
                    old_loops@,
                    path,
                    n,
                ).push(old_loops@[n]));
            }
            if j < before.len() {
                // the loop joined an existing track
                assert(after.len() == before.len());
                assert(paths_distinct(after)) by {
                    assert forall|a: int, b: int|
                        0 <= a < after.len() && 0 <= b < after.len() && a != b implies after[a].track_path@
                        != after[b].track_path@ by {
                        assert(after[a].track_path == before[a].track_path);
                        assert(after[b].track_path == before[b].track_path);
                    }
                }
                assert(tracks_in_first_order(after, old_loops@)) by {
                    assert forall|a: int, b: int| 0 <= a < b < after.len() implies first_old(
                        old_loops@,
                        (#[trigger] after[a]).track_path@,
                    ) < first_old(old_loops@, (#[trigger] after[b]).track_path@) by {
                        assert(after[a].track_path == before[a].track_path);
                        assert(after[b].track_path == before[b].track_path);
                        assert(first_old(old_loops@, before[a].track_path@) < first_old(old_loops@, before[b].track_path@));
                    }
                }
                assert forall|jj: int| 0 <= jj < n + 1 implies track_index(after, (#[trigger] old_loops@[jj]).track_path@)
                    < after.len() by {
                    let q = old_loops@[jj].track_path@;
                    lemma_track_index_from(before, q, 0);
                    let ti = track_index(before, q);
                    if jj < n {
                        assert(ti < before.len());
                    } else {
                        assert(ti == j);
                    }
                    assert(after[ti].track_path == before[ti].track_path);
                    lemma_track_index_of_distinct(after, ti);
                }
                assert forall|t: int| 0 <= t < after.len() implies {
                    let tr = #[trigger] after[t];
                    let mine = olds_upto(old_loops@, tr.track_path@, n + 1);
                    &&& mine.len() > 0
                    &&& tr.markers@.len() == 0
                    &&& tr.loops.len() == mine.len()
                    &&& forall|i: int| 0 <= i < mine.len() ==> migrated_loop(#[trigger] tr.loops@[i], mine[i])
                } by {
                    let tb = before[t];
                    if t == j {
                        let mine0 = olds_upto(old_loops@, path, n);
                        assert(after[t].loops@ == tb.loops@.push(after[t].loops@.last()));
                        assert forall|i: int|
                            0 <= i < mine0.len() + 1 implies migrated_loop(
                            #[trigger] after[t].loops@[i],
                            mine0.push(old_loops@[n])[i],
                        ) by {
                            if i < mine0.len() {
                                assert(after[t].loops@[i] == tb.loops@[i]);
                            }
                        }
                    } else {
                        assert(after[t] == tb);
                        assert(tb.track_path@ != path) by {
                            lemma_track_index_of_distinct(before, t);
                        }
                    }
                }
            } else {
                // a new track was appended
                assert(after.len() == before.len() + 1);
                assert(after.drop_last() == before);
                assert(paths_distinct(after)) by {
                    assert forall|a: int, b: int|
                        0 <= a < after.len() && 0 <= b < after.len() && a != b implies after[a].track_path@
                        != after[b].track_path@ by {
                        if a < before.len() && b < before.len() {
                            assert(after[a] == before[a]);
                            assert(after[b] == before[b]);
                        } else if a == before.len() {
                            assert(after[b] == before[b]);
                            assert(before[b].track_path@ != path);
                        } else {
                            assert(after[a] == before[a]);
                            assert(before[a].track_path@ != path);
                        }
                    }
                }
                assert forall|jj: int| 0 <= jj < n + 1 implies track_index(after, (#[trigger] old_loops@[jj]).track_path@)
                    < after.len() by {
                    let q = old_loops@[jj].track_path@;
                    if jj < n {
                        lemma_track_index_from(before, q, 0);
                        let ti = track_index(before, q);
                        assert(after[ti] == before[ti]);
                        lemma_track_index_of_distinct(after, ti);
                    } else {
                        lemma_track_index_of_distinct(after, before.len() as int);
                    }
                }
                assert forall|t: int| 0 <= t < after.len() implies {
                    let tr = #[trigger] after[t];
                    let mine = olds_upto(old_loops@, tr.track_path@, n + 1);
                    &&& mine.len() > 0
                    &&& tr.markers@.len() == 0
                    &&& tr.loops.len() == mine.len()
                    &&& forall|i: int| 0 <= i < mine.len() ==> migrated_loop(#[trigger] tr.loops@[i], mine[i])
                } by {
                    if t == before.len() {
                        // no earlier old loop had this path
                        assert(olds_upto(old_loops@, path, n).len() == 0) by {
                            lemma_olds_upto_absent(old_loops@, path, n, before);
                        }
                        assert(olds_upto(old_loops@, path, n) =~= seq![]);
                        assert(after[t].loops@.len() == 1);
                    } else {
                        assert(after[t] == before[t]);
                        assert(before[t].track_path@ != path);
                    }
                }
                assert(is_path_label(after[before.len() as int].track_path@, after[before.len() as int].label@));
                assert(tracks_in_first_order(after, old_loops@)) by {
                    assert(olds_upto(old_loops@, path, n).len() == 0) by {
                        lemma_olds_upto_absent(old_loops@, path, n, before);
                    }
                    lemma_first_old_absent(old_loops@, path, n);
                    assert forall|a: int, b: int| 0 <= a < b < after.len() implies first_old(
                        old_loops@,
                        (#[trigger] after[a]).track_path@,
                    ) < first_old(old_loops@, (#[trigger] after[b]).track_path@) by {
                        assert(after[a] == before[a]);
                        if b < before.len() {
                            assert(after[b] == before[b]);
                            assert(first_old(old_loops@, before[a].track_path@) < first_old(old_loops@, before[b].track_path@));
                        } else {
                            lemma_olds_upto_nonempty(old_loops@, before[a].track_path@, n);
                        }
                    }
                }
                assert forall|t: int| 0 <= t < after.len() implies is_path_label(after[t].track_path@, (#[trigger] after[t]).label@) by {
                    if t < before.len() {
                        assert(after[t] == before[t]);
                    }
                }
            }
            if j < before.len() {
                assert forall|t: int| 0 <= t < after.len() implies is_path_label(after[t].track_path@, (#[trigger] after[t]).label@) by {
                    assert(after[t].label == before[t].label);
                }
            }
        }
        k += 1;
    }
    let ghost pre = lib.tracks@;
    assign_short_ids(&mut lib);
    proof {
        assert forall|t: int| 0 <= t < lib.tracks.len() implies {
            let tr = #[trigger] lib.tracks@[t];
            let mine = olds_upto(old_loops@, tr.track_path@, old_loops.len() as int);
            let ids = assigned_ids(no_ids(mine.len()));
            &&& mine.len() > 0
            &&& is_path_label(tr.track_path@, tr.label@)
            &&& tr.markers@.len() == 0
            &&& tr.loops.len() == mine.len()
            &&& forall|i: int|
                0 <= i < mine.len() ==> migrated_loop_with_id(#[trigger] tr.loops@[i], mine[i], ids[i])
        } by {
            let p = pre[t];
            assert(track_ids_assigned(p, lib.tracks@[t]));
            let mine = olds_upto(old_loops@, p.track_path@, old_loops.len() as int);
            assert(loop_ids(p.loops@) =~= no_ids(mine.len()));
            assert forall|i: int| 0 <= i < mine.len() implies migrated_loop_with_id(
                #[trigger] lib.tracks@[t].loops@[i],
                mine[i],
                assigned_ids(no_ids(mine.len()))[i],
            ) by {
                assert(migrated_loop(p.loops@[i], mine[i]));
                assert(loop_with_id(lib.tracks@[t].loops@[i], p.loops@[i], assigned_ids(loop_ids(p.loops@))[i]));
            }
        }
        assert(paths_distinct(lib.tracks@)) by {
            assert forall|a: int, b: int|
                0 <= a < lib.tracks.len() && 0 <= b < lib.tracks.len() && a != b implies lib.tracks@[a].track_path@
                != lib.tracks@[b].track_path@ by {
                assert(track_ids_assigned(pre[a], lib.tracks@[a]));
                assert(track_ids_assigned(pre[b], lib.tracks@[b]));
            }
        }
        assert(tracks_in_first_order(lib.tracks@, old_loops@)) by {
            assert forall|a: int, b: int| 0 <= a < b < lib.tracks.len() implies first_old(
                old_loops@,
                (#[trigger] lib.tracks@[a]).track_path@,
            ) < first_old(old_loops@, (#[trigger] lib.tracks@[b]).track_path@) by {
                assert(track_ids_assigned(pre[a], lib.tracks@[a]));
                assert(track_ids_assigned(pre[b], lib.tracks@[b]));
                assert(first_old(old_loops@, pre[a].track_path@) < first_old(old_loops@, pre[b].track_path@));
            }
        }
        assert forall|j: int| 0 <= j < old_loops.len() implies track_index(lib.tracks@, (#[trigger] old_loops@[j]).track_path@)
            < lib.tracks.len() by {
            let q = old_loops@[j].track_path@;
            lemma_track_index_from(pre, q, 0);
            let ti = track_index(pre, q);
            assert(track_ids_assigned(pre[ti], lib.tracks@[ti]));
            lemma_track_index_of_distinct(lib.tracks@, ti);
        }
    }
    lib
}

proof fn lemma_olds_upto_absent(olds: Seq<OldSavedLoop>, path: Seq<char>, n: int, tracks: Seq<TrackData>)
    requires
        0 <= n <= olds.len(),
        forall|j: int| 0 <= j < n ==> track_index(tracks, (#[trigger] olds[j]).track_path@) < tracks.len(),
        track_index(tracks, path) == tracks.len(),
    ensures
        olds_upto(olds, path, n).len() == 0,
    decreases n,
{
    if n > 0 {
        lemma_olds_upto_absent(olds, path, n - 1, tracks);
        assert(olds[n - 1].track_path@ != path);
    }
}

proof fn lemma_no_ids_first(n: int, m: int)
    requires
        0 <= m <= n,
    ensures
        first_ids(no_ids(n as nat), m) == Seq::<Seq<char>>::empty(),
    decreases m,
{
    if m > 0 {
        lemma_no_ids_first(n, m - 1);
    }
}

proof fn lemma_no_ids_state(n: int, m: int)
    requires
        0 <= m <= n <= crate::arrangement::short_id_count(),
    ensures
        assign_state(no_ids(n as nat), m).0 == crate::arrangement::first_short_ids(m),
        assign_state(no_ids(n as nat), m).1 == crate::arrangement::first_short_ids(m),
    decreases m,
{
    if m > 0 {
        lemma_no_ids_state(n, m - 1);
        let ids = no_ids(n as nat);
        lemma_no_ids_first(n, m - 1);
        lemma_no_ids_first(n, n);
        assert(!keeps_id(ids[m - 1], first_ids(ids, m - 1)));
        assert(kept_ids(ids) + assign_state(ids, m - 1).1 =~= crate::arrangement::first_short_ids(m - 1));
        crate::arrangement::law_short_ids_in_order(m - 1);
        assert(crate::arrangement::first_short_ids(m - 1).push(crate::arrangement::short_id_at(m - 1))
            =~= crate::arrangement::first_short_ids(m));
    } else {
        assert(crate::arrangement::first_short_ids(0) =~= seq![]);
    }
}

/// Law: loops that have no identifier yet, such as migrated ones, receive the
/// identifiers a, b, c, ... in order (for up to 702 loops).
pub proof fn law_fresh_loops_get_ids_in_order(n: nat)
    requires
        n <= crate::arrangement::short_id_count(),
    ensures
        assigned_ids(no_ids(n)) == crate::arrangement::first_short_ids(n as int),
{
    lemma_no_ids_state(n as int, n as int);
}

} // verus!
