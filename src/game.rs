//! The library of tracks and the rounds drawn from it.
use crate::media::{extracted, opt_tag_view, TagData, TagView, Track, TrackView};
use vstd::prelude::*;

verus! {

/// How long a round lasts, in milliseconds.
pub const ROUND_MILLIS: u64 = 10000;

/// Why no round could be started.
#[derive(Debug, PartialEq, Eq)]
pub enum Error {
    /// The library holds no track to ask about.
    EmptyLibrary,
}

/// The extension of a path, if it has one.
pub uninterp spec fn extension_of(path: Seq<char>) -> Option<Seq<char>>;

/// Relies on `std::path::Path::extension`, whose result depends on the path
/// alone.
#[verifier::external_body]
fn extension(path: &str) -> (r: Option<String>)
    ensures
        match r {
            Some(e) => extension_of(path@) == Some(e@),
            None => extension_of(path@) is None,
        },
{
    std::path::Path::new(path).extension().map(|e| e.to_string_lossy().into_owned())
}

/// Relies on rand's `Rng::gen_range` on the thread-local generator, which
/// returns a value in `[0, n)` and panics when `n` is zero.
#[verifier::external_body]
fn random_below(n: usize) -> (r: usize)
    requires
        n > 0,
    ensures
        r < n,
{
    rand::Rng::gen_range(&mut rand::thread_rng(), 0, n)
}

/// Whether a path names an audio file the library takes: its extension is
/// exactly `mp3`.
pub open spec fn is_audio_path(path: Seq<char>) -> bool {
    extension_of(path) == Some("mp3"@)
}

/// The track that the file at `path`, whose tag holds `tag` (none where it
/// held no readable tag), adds to the library, if any.
pub open spec fn file_track(path: Seq<char>, tag: Option<TagView>) -> Option<TrackView> {
    if is_audio_path(path) {
        extracted(path, tag)
    } else {
        None
    }
}

/// The tracks that the files found by a scan add.
pub open spec fn scanned(files: Seq<(String, Option<TagData>)>) -> Set<TrackView>
    decreases files.len(),
{
    if files.len() == 0 {
        Set::empty()
    } else {
        let rest = scanned(files.drop_last());
        match file_track(files.last().0@, opt_tag_view(files.last().1)) {
            Some(t) => rest.insert(t),
            None => rest,
        }
    }
}

/// Once a scan has added the tracks of `files`, a file that is not an audio
/// file adds nothing more.
pub proof fn lemma_scan_skips_other_files(
    files: Seq<(String, Option<TagData>)>,
    file: (String, Option<TagData>),
)
    requires
        !is_audio_path(file.0@),
    ensures
        scanned(files.push(file)) == scanned(files),
{
    assert(files.push(file).drop_last() =~= files);
}

/// The indices kept by reservoir sampling of `k` out of `k + draws.len()`
/// items: the buffer starts as the first `k` indices, and item `k + j` takes
/// slot `draws[j]` when that slot exists.
pub open spec fn reservoir(k: nat, draws: Seq<usize>) -> Seq<usize>
    decreases draws.len(),
{
    if draws.len() == 0 {
        Seq::new(k, |j: int| j as usize)
    } else {
        let kept = reservoir(k, draws.drop_last());
        if draws.last() < k {
            kept.update(draws.last() as int, (k + draws.len() - 1) as usize)
        } else {
            kept
        }
    }
}

/// Draws for a sample of `k` out of `n`: one for each item past the first
/// `k`, at most its own index.
pub open spec fn valid_draws(n: nat, k: nat, draws: Seq<usize>) -> bool {
    &&& k <= n
    &&& draws.len() == n - k
    &&& forall|j: int| 0 <= j < draws.len() ==> draws[j] <= k + j
}

/// Picks `k` distinct indices out of `0..n` by reservoir sampling, where
/// `draws[j]` is the uniform draw in `[0, k + j]` made for item `k + j`.
pub fn reservoir_sample(n: usize, k: usize, draws: &Vec<usize>) -> (r: Vec<usize>)
    requires
        valid_draws(n as nat, k as nat, draws@),
    ensures
        r@ == reservoir(k as nat, draws@),
        r@.len() == k,
        r@.no_duplicates(),
        forall|j: int| 0 <= j < r@.len() ==> r@[j] < n,
{
    let mut kept: Vec<usize> = Vec::new();
    let mut j: usize = 0;
    while j < k
        invariant
            0 <= j <= k,
            kept@ == Seq::new(j as nat, |x: int| x as usize),
        decreases k - j,
    {
        kept.push(j);
        assert(kept@ =~= Seq::new((j + 1) as nat, |x: int| x as usize));
        j = j + 1;
    }
    assert(draws@.take(0) =~= Seq::<usize>::empty());
    let mut i: usize = k;
    while i < n
        invariant
            valid_draws(n as nat, k as nat, draws@),
            k <= i <= n,
            kept@ == reservoir(k as nat, draws@.take(i - k)),
            kept@.len() == k,
            kept@.no_duplicates(),
            forall|x: int| 0 <= x < kept@.len() ==> kept@[x] < i,
        decreases n - i,
    {
        let d = draws[i - k];
        assert(draws@.take(i - k + 1).drop_last() =~= draws@.take(i - k));
        assert(draws@.take(i - k + 1).last() == d);
        if d < k {
            kept.set(d, i);
        }
        i = i + 1;
    }
    assert(draws@.take(n - k) =~= draws@);
    kept
}

/// Scanning the same files a second time changes nothing: the library, and
/// so its size, stay as after the first scan.
pub proof fn lemma_scan_twice(library: Set<TrackView>, files: Seq<(String, Option<TagData>)>)
    ensures
        (library + scanned(files)) + scanned(files) == library + scanned(files),
        ((library + scanned(files)) + scanned(files)).len() == (library + scanned(files)).len(),
{
    assert((library + scanned(files)) + scanned(files) =~= library + scanned(files));
}

/// Only audio files add tracks: each track a scan adds has the path of a
/// found file whose extension is exactly `mp3`, so files with any other
/// extension add nothing.
pub proof fn lemma_scan_only_audio(files: Seq<(String, Option<TagData>)>, t: TrackView)
    requires
        scanned(files).contains(t),
    ensures
        exists|i: int|
            0 <= i < files.len() && is_audio_path(#[trigger] files[i].0@) && files[i].0@ == t.path,
    decreases files.len(),
{
    let rest = files.drop_last();
    if rest.len() < files.len() && scanned(rest).contains(t) {
        lemma_scan_only_audio(rest, t);
        let i = choose|i: int|
            0 <= i < rest.len() && is_audio_path(#[trigger] rest[i].0@) && rest[i].0@ == t.path;
        assert(files[i] == rest[i]);
    } else {
        let last = files.len() - 1;
        assert(files[last] == files.last());
    }
}

/// A deduplicated collection of tracks, grown by scans.
pub struct Game {
    tracks: Vec<Track>,
}

impl View for Game {
    type V = Set<TrackView>;

    closed spec fn view(&self) -> Set<TrackView> {
        self.tracks@.map_values(|t: Track| t@).to_set()
    }
}

impl Game {
    /// No two tracks of the library are equal.
    pub closed spec fn wf(&self) -> bool {
        self.tracks@.map_values(|t: Track| t@).no_duplicates()
    }

    /// An empty library.
    pub fn new() -> (r: Game)
        ensures
            r.wf(),
            r@ == Set::<TrackView>::empty(),
    {
        let r = Game { tracks: Vec::new() };
        assert(r.tracks@.map_values(|t: Track| t@) =~= Seq::<TrackView>::empty());
        r
    }

    /// The tracks of the library, each once.
    pub fn tracks(&self) -> (r: &[Track])
        requires
            self.wf(),
        ensures
            r@.map_values(|t: Track| t@).to_set() == self@,
            r@.map_values(|t: Track| t@).no_duplicates(),
            r@.len() == self@.len(),
    {
        proof {
            self.tracks@.map_values(|t: Track| t@).unique_seq_to_set();
        }
        self.tracks.as_slice()
    }

    /// Adds a track unless an equal one is already there.
    fn insert(&mut self, track: Track)
        requires
            old(self).wf(),
        ensures
            final(self).wf(),
            final(self)@ == old(self)@.insert(track@),
    {
        let ghost views = self.tracks@.map_values(|t: Track| t@);
        let mut i: usize = 0;
        while i < self.tracks.len()
            invariant
                0 <= i <= self.tracks@.len(),
                views == self.tracks@.map_values(|t: Track| t@),
                forall|j: int| 0 <= j < i ==> views[j] != track@,
                *self == *old(self),
                old(self).wf(),
            decreases self.tracks@.len() - i,
        {
            let same = self.tracks[i].eq(&track);
            assert(views[i as int] == self.tracks@[i as int]@);
            if same {
                assert(views.contains(track@));
                assert(views.to_set().insert(track@) =~= views.to_set());
                return;
            }
            i = i + 1;
        }
        self.tracks.push(track);
        proof {
            let nv = self.tracks@.map_values(|t: Track| t@);
            assert(nv =~= views.push(track@));
            assert(nv.to_set() =~= views.to_set().insert(track@)) by {
                assert forall|x: TrackView| nv.to_set().contains(x) implies views.to_set().insert(
                    track@,
                ).contains(x) by {
                    let k = choose|k: int| 0 <= k < nv.len() && nv[k] == x;
                    if k < views.len() {
                        assert(views[k] == x);
                    }
                }
                assert forall|x: TrackView| views.to_set().insert(track@).contains(x) implies nv.to_set().contains(x) by {
                    if x != track@ {
                        let k = choose|k: int| 0 <= k < views.len() && views[k] == x;
                        assert(nv[k] == x);
                    } else {
                        assert(nv[views.len() as int] == x);
                    }
                }
            }
        }
    }

    /// Whether the library takes the file at `path`: its extension is exactly
    /// `mp3`, compared letter for letter (`MP3` is not taken).
    pub fn is_audio_file(path: &str) -> (r: bool)
        ensures
            r == is_audio_path(path@),
    {
        match extension(path) {
            Some(e) => e == String::from_str("mp3"),
            None => false,
        }
    }

    /// Adds the track of one file found by a scan: the file at `path`, whose
    /// tag holds `tag` (none where it held no readable tag). A file that is
    /// not an audio file or gives no track is passed over, and a track
    /// already there is not added twice.
    pub fn add_file(&mut self, path: &str, tag: Option<TagData>)
        requires
            old(self).wf(),
        ensures
            final(self).wf(),
            final(self)@ == match file_track(path@, opt_tag_view(tag)) {
                Some(t) => old(self)@.insert(t),
                None => old(self)@,
            },
    {
        if Game::is_audio_file(path) {
            match Track::from_file(path, tag) {
                Ok(t) => {
                    self.insert(t);
                },
                Err(_) => {},
            }
        }
    }

    /// Adds the tracks of the files that a scan of a directory found, in
    /// order, each a path with what its tag holds.
    pub fn search_dir(&mut self, files: Vec<(String, Option<TagData>)>)
        requires
            old(self).wf(),
        ensures
            final(self).wf(),
            final(self)@ == old(self)@ + scanned(files@),
    {
        let ghost all = files@;
        let mut rest = files;
        let ghost mut i: int = 0;
        while rest.len() > 0
            invariant
                0 <= i <= all.len(),
                rest@ == all.skip(i),
                self.wf(),
                self@ == old(self)@ + scanned(all.take(i)),
            decreases rest@.len(),
        {
            assert(all.take(i + 1).drop_last() =~= all.take(i));
            assert(all.take(i + 1).last() == all[i]);
            assert(rest@[0] == all[i]);
            let (path, tag) = rest.remove(0);
            self.add_file(path.as_str(), tag);
            assert(self@ =~= old(self)@ + scanned(all.take(i + 1)));
            assert(rest@ =~= all.skip(i + 1));
            proof {
                i = i + 1;
            }
        }
        assert(all.take(i) =~= all);
    }

    /// Starts a round at time `now` (milliseconds on the caller's clock):
    /// `min(options, n)` distinct tracks drawn at random from the `n` of the
    /// library, one of them chosen at random as the answer, ending
    /// `ROUND_MILLIS` after `now`. Fails exactly when the library is empty.
    pub fn start_round(&self, options: usize, now: u64) -> (r: Result<Round, Error>)
        requires
            self.wf(),
            options >= 1,
            now <= u64::MAX - ROUND_MILLIS,
        ensures
            r is Err <==> self@.len() == 0,
            r is Err ==> r == Err::<Round, Error>(Error::EmptyLibrary),
            r is Ok ==> ({
                let round = r->Ok_0@;
                &&& round.candidates.len() == if options <= self@.len() {
                    options as int
                } else {
                    self@.len() as int
                }
                &&& round.candidates.no_duplicates()
                &&& forall|j: int|
                    0 <= j < round.candidates.len() ==> self@.contains(#[trigger] round.candidates[j])
                &&& options >= self@.len() ==> round.candidates.to_set() == self@
                &&& 0 <= round.correct < round.candidates.len()
                &&& round.deadline == now + ROUND_MILLIS
            }),
    {
        let n = self.tracks.len();
        proof {
            self.tracks@.map_values(|t: Track| t@).unique_seq_to_set();
        }
        if n == 0 {
            return Err(Error::EmptyLibrary);
        }
        let k = if options <= n {
            options
        } else {
            n
        };
        let mut draws: Vec<usize> = Vec::new();
        let mut i: usize = k;
        while i < n
            invariant
                k <= i <= n,
                draws@.len() == i - k,
                forall|j: int| 0 <= j < draws@.len() ==> draws@[j] <= k + j,
            decreases n - i,
        {
            let d = random_below(i + 1);
            draws.push(d);
            i = i + 1;
        }
        let picked = reservoir_sample(n, k, &draws);
        let ghost views = self.tracks@.map_values(|t: Track| t@);
        let mut candidates: Vec<Track> = Vec::new();
        let mut j: usize = 0;
        while j < k
            invariant
                0 <= j <= k,
                k == picked@.len(),
                picked@.no_duplicates(),
                forall|x: int| 0 <= x < picked@.len() ==> picked@[x] < n,
                n == self.tracks@.len(),
                views == self.tracks@.map_values(|t: Track| t@),
                views.no_duplicates(),
                candidates@.len() == j,
                forall|x: int| 0 <= x < j ==> #[trigger] candidates@[x]@ == views[picked@[x] as int],
            decreases k - j,
        {
            let t = self.tracks[picked[j]].clone();
            candidates.push(t);
            j = j + 1;
        }
        let correct_idx = random_below(k);
        let round = Round { correct_idx, tracks: candidates, ends: now + ROUND_MILLIS };
        proof {
            let cv = round.tracks@.map_values(|t: Track| t@);
            assert forall|a: int, b: int| 0 <= a < cv.len() && 0 <= b < cv.len() && a != b implies cv[a] != cv[b] by {
                assert(candidates@[a]@ == views[picked@[a] as int]);
                assert(candidates@[b]@ == views[picked@[b] as int]);
            }
            assert forall|x: int| 0 <= x < cv.len() implies self@.contains(#[trigger] cv[x]) by {
                assert(candidates@[x]@ == views[picked@[x] as int]);
            }
            if options >= n {
                cv.unique_seq_to_set();
                views.unique_seq_to_set();
                assert(cv.to_set().subset_of(self@));
                vstd::set_lib::lemma_subset_equality(cv.to_set(), self@);
            }
        }
        Ok(round)
    }
}


pub ghost struct RoundView {
    pub candidates: Seq<TrackView>,
    pub correct: int,
    pub deadline: int,
}

/// One timed question: candidate tracks in the order shown, the index of the
/// one playing, and when the round ends.
#[derive(Debug)]
pub struct Round {
    correct_idx: usize,
    tracks: Vec<Track>,
    ends: u64,
}

impl View for Round {
    type V = RoundView;

    closed spec fn view(&self) -> RoundView {
        RoundView {
            candidates: self.tracks@.map_values(|t: Track| t@),
            correct: self.correct_idx as int,
            deadline: self.ends as int,
        }
    }
}

impl Round {
    /// At least one candidate, the answer among them, and no candidate twice.
    #[verifier::type_invariant]
    spec fn inv(&self) -> bool {
        &&& self.correct_idx < self.tracks@.len()
        &&& self.tracks@.map_values(|t: Track| t@).no_duplicates()
    }

    /// When the round ends, in milliseconds on the clock it was started by.
    pub fn ends(&self) -> (r: u64)
        ensures
            r == self@.deadline,
    {
        self.ends
    }

    /// The track that is playing.
    pub fn correct(&self) -> (r: &Track)
        ensures
            0 <= self@.correct < self@.candidates.len(),
            r@ == self@.candidates[self@.correct],
    {
        proof {
            use_type_invariant(self);
        }
        &self.tracks[self.correct_idx]
    }

    /// The candidates, in the order they are shown.
    pub fn tracks(&self) -> (r: &[Track])
        ensures
            r@.map_values(|t: Track| t@) == self@.candidates,
            self@.candidates.len() >= 1,
            self@.candidates.no_duplicates(),
            0 <= self@.correct < self@.candidates.len(),
    {
        proof {
            use_type_invariant(self);
        }
        self.tracks.as_slice()
    }
}

} // verus!
