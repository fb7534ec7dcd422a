//! Tracks and what is read about them from an audio file's tag.
use vstd::prelude::*;

verus! {

/// Why no track could be made from a file.
#[derive(Debug, PartialEq, Eq)]
pub enum Error {
    /// Neither the tag nor the file name gave a title.
    NoMetadata,
}

/// An image embedded in a file's tag: its MIME type and its bytes.
#[derive(Debug, Eq, Hash)]
pub struct Image {
    mime_type: String,
    data: Vec<u8>,
}

pub ghost struct ImageView {
    pub mime_type: Seq<char>,
    pub data: Seq<u8>,
}

impl View for Image {
    type V = ImageView;

    closed spec fn view(&self) -> ImageView {
        ImageView { mime_type: self.mime_type@, data: self.data@ }
    }
}

impl Image {
    pub fn mime_type(&self) -> (r: &str)
        ensures
            r@ == self@.mime_type,
    {
        self.mime_type.as_str()
    }

    pub fn data(&self) -> (r: &[u8])
        ensures
            r@ == self@.data,
    {
        self.data.as_slice()
    }
}


/// Whether two byte sequences hold the same bytes.
fn same_bytes(a: &[u8], b: &[u8]) -> (r: bool)
    ensures
        r == (a@ == b@),
{
    if a.len() != b.len() {
        return false;
    }
    let mut i: usize = 0;
    while i < a.len()
        invariant
            a@.len() == b@.len(),
            0 <= i <= a@.len(),
            forall|j: int| 0 <= j < i ==> a@[j] == b@[j],
        decreases a@.len() - i,
    {
        if a[i] != b[i] {
            return false;
        }
        i = i + 1;
    }
    assert(a@ =~= b@);
    true
}

impl PartialEq for Image {
    fn eq(&self, other: &Image) -> (r: bool) {
        self.mime_type == other.mime_type && same_bytes(self.data.as_slice(), other.data.as_slice())
    }
}

impl vstd::std_specs::cmp::PartialEqSpecImpl for Image {
    open spec fn obeys_eq_spec() -> bool {
        true
    }

    open spec fn eq_spec(&self, other: &Image) -> bool {
        self@ == other@
    }
}

impl Clone for Image {
    fn clone(&self) -> (r: Image)
        ensures
            r@ == self@,
    {
        let data = self.data.clone();
        assert(data@ =~= self.data@);
        Image { mime_type: self.mime_type.clone(), data }
    }
}


/// The view of an optional string.
pub open spec fn opt_view(o: Option<String>) -> Option<Seq<char>> {
    match o {
        Some(s) => Some(s@),
        None => None,
    }
}

/// Whether two optional strings hold the same text.
fn same_opt(a: &Option<String>, b: &Option<String>) -> (r: bool)
    ensures
        r == (opt_view(*a) == opt_view(*b)),
{
    match (a, b) {
        (Some(x), Some(y)) => x.eq(y),
        (None, None) => true,
        _ => false,
    }
}

/// An optional string borrowed as an optional `&str`.
fn opt_str(o: &Option<String>) -> (r: Option<&str>)
    ensures
        match r {
            Some(s) => opt_view(*o) == Some(s@),
            None => o.is_none(),
        },
{
    match o {
        Some(s) => Some(s.as_str()),
        None => None,
    }
}

/// One playable audio file: where it is and what it shows the player.
#[derive(Debug, Eq, Hash)]
pub struct Track {
    path: String,
    artist: Option<String>,
    album: Option<String>,
    title: String,
    cover: Option<Image>,
}

pub ghost struct TrackView {
    pub path: Seq<char>,
    pub artist: Option<Seq<char>>,
    pub album: Option<Seq<char>>,
    pub title: Seq<char>,
    pub cover: Option<ImageView>,
}

/// The view of an optional image.
pub open spec fn opt_image_view(o: Option<Image>) -> Option<ImageView> {
    match o {
        Some(i) => Some(i@),
        None => None,
    }
}

impl View for Track {
    type V = TrackView;

    closed spec fn view(&self) -> TrackView {
        TrackView {
            path: self.path@,
            artist: opt_view(self.artist),
            album: opt_view(self.album),
            title: self.title@,
            cover: opt_image_view(self.cover),
        }
    }
}

impl PartialEq for Track {
    fn eq(&self, other: &Track) -> (r: bool) {
        let same_cover = match (&self.cover, &other.cover) {
            (Some(x), Some(y)) => x.eq(y),
            (None, None) => true,
            _ => false,
        };
        self.path == other.path && same_opt(&self.artist, &other.artist) && same_opt(
            &self.album,
            &other.album,
        ) && self.title == other.title && same_cover
    }
}

impl vstd::std_specs::cmp::PartialEqSpecImpl for Track {
    open spec fn obeys_eq_spec() -> bool {
        true
    }

    open spec fn eq_spec(&self, other: &Track) -> bool {
        self@ == other@
    }
}

impl Clone for Track {
    fn clone(&self) -> (r: Track)
        ensures
            r@ == self@,
    {
        let cover = match &self.cover {
            Some(i) => Some(i.clone()),
            None => None,
        };
        Track {
            path: self.path.clone(),
            artist: self.artist.clone(),
            album: self.album.clone(),
            title: self.title.clone(),
            cover,
        }
    }
}

impl Track {
    pub fn path(&self) -> (r: &str)
        ensures
            r@ == self@.path,
    {
        self.path.as_str()
    }

    pub fn artist(&self) -> (r: Option<&str>)
        ensures
            match r {
                Some(s) => self@.artist == Some(s@),
                None => self@.artist is None,
            },
    {
        opt_str(&self.artist)
    }

    pub fn album(&self) -> (r: Option<&str>)
        ensures
            match r {
                Some(s) => self@.album == Some(s@),
                None => self@.album is None,
            },
    {
        opt_str(&self.album)
    }

    pub fn title(&self) -> (r: &str)
        ensures
            r@ == self@.title,
    {
        self.title.as_str()
    }

    pub fn cover(&self) -> (r: Option<&Image>)
        ensures
            match r {
                Some(i) => self@.cover == Some(i@),
                None => self@.cover is None,
            },
    {
        match &self.cover {
            Some(i) => Some(i),
            None => None,
        }
    }
}


/// A picture as a tag holds it: its MIME type, its bytes, and whether the
/// tag marks it as the front cover.
#[derive(Debug)]
pub struct Picture {
    pub mime_type: String,
    pub data: Vec<u8>,
    pub front_cover: bool,
}

pub ghost struct PictureView {
    pub mime_type: Seq<char>,
    pub data: Seq<u8>,
    pub front_cover: bool,
}

impl View for Picture {
    type V = PictureView;

    open spec fn view(&self) -> PictureView {
        PictureView { mime_type: self.mime_type@, data: self.data@, front_cover: self.front_cover }
    }
}

/// What a file's tag says of the track: its title, artist, album and
/// pictures, in the order the tag holds them.
#[derive(Debug)]
pub struct TagData {
    pub title: Option<String>,
    pub artist: Option<String>,
    pub album: Option<String>,
    pub pictures: Vec<Picture>,
}

pub ghost struct TagView {
    pub title: Option<Seq<char>>,
    pub artist: Option<Seq<char>>,
    pub album: Option<Seq<char>>,
    pub pictures: Seq<PictureView>,
}

impl View for TagData {
    type V = TagView;

    open spec fn view(&self) -> TagView {
        TagView {
            title: opt_view(self.title),
            artist: opt_view(self.artist),
            album: opt_view(self.album),
            pictures: self.pictures@.map_values(|p: Picture| p@),
        }
    }
}

/// The picture chosen as cover among `pics`, walked in order: each picture
/// replaces the one held so far, until a front cover is held.
pub open spec fn cover_pick(pics: Seq<PictureView>) -> Option<PictureView>
    decreases pics.len(),
{
    if pics.len() == 0 {
        None
    } else {
        let earlier = cover_pick(pics.drop_last());
        if earlier is Some && earlier->Some_0.front_cover {
            earlier
        } else {
            Some(pics.last())
        }
    }
}

/// The cover image taken from `pics`, if any.
pub open spec fn cover_of(pics: Seq<PictureView>) -> Option<ImageView> {
    match cover_pick(pics) {
        Some(p) => Some(ImageView { mime_type: p.mime_type, data: p.data }),
        None => None,
    }
}

/// Once a front cover is held, the pictures after it change nothing.
proof fn lemma_front_cover_kept(pics: Seq<PictureView>, j: int)
    requires
        0 <= j <= pics.len(),
        cover_pick(pics.take(j)) is Some,
        cover_pick(pics.take(j))->Some_0.front_cover,
    ensures
        cover_pick(pics) == cover_pick(pics.take(j)),
    decreases pics.len() - j,
{
    if j < pics.len() {
        assert(pics.take(j + 1).drop_last() =~= pics.take(j));
        lemma_front_cover_kept(pics, j + 1);
    } else {
        assert(pics.take(j) =~= pics);
    }
}

/// A front cover wins wherever it stands: where `f` is the first picture
/// marked as front cover, it is the one chosen.
pub proof fn lemma_front_cover_wins(pics: Seq<PictureView>, f: int)
    requires
        0 <= f < pics.len(),
        pics[f].front_cover,
        forall|j: int| 0 <= j < f ==> !pics[j].front_cover,
    ensures
        cover_pick(pics) == Some(pics[f]),
{
    lemma_pick_before_front(pics.take(f));
    assert(pics.take(f + 1).drop_last() =~= pics.take(f));
    lemma_front_cover_kept(pics, f + 1);
}

/// With no front cover among `pics`, the last picture is chosen.
proof fn lemma_pick_before_front(pics: Seq<PictureView>)
    requires
        forall|j: int| 0 <= j < pics.len() ==> !pics[j].front_cover,
    ensures
        pics.len() == 0 ==> cover_pick(pics) is None,
        pics.len() > 0 ==> cover_pick(pics) == Some(pics.last()),
    decreases pics.len(),
{
    if pics.len() > 0 {
        lemma_pick_before_front(pics.drop_last());
    }
}

/// A file whose tag could not be read is titled by its file stem alone, and
/// has no artist, album or cover; without a stem it gives no track.
pub proof fn lemma_untagged_title(path: Seq<char>)
    ensures
        match stem_of(path) {
            Some(stem) => extracted(path, None) == Some(
                TrackView { path, artist: None, album: None, title: stem, cover: None },
            ),
            None => extracted(path, None) is None,
        },
{
}

/// The stem (the file name without its extension) of a path, if it has one.
pub uninterp spec fn stem_of(path: Seq<char>) -> Option<Seq<char>>;

/// The title that a path alone gives: its file stem.
///
/// Relies on `std::path::Path::file_stem`, whose result depends on the path
/// alone.
#[verifier::external_body]
fn title_from(path: &str) -> (r: Option<String>)
    ensures
        opt_view(r) == stem_of(path@),
{
    std::path::Path::new(path).file_stem().map(|t| t.to_string_lossy().into_owned())
}

/// The track made from only its path: titled by the file stem, with nothing
/// else known.
pub open spec fn bare_track(path: Seq<char>) -> Option<TrackView> {
    match stem_of(path) {
        Some(stem) => Some(TrackView { path, artist: None, album: None, title: stem, cover: None }),
        None => None,
    }
}

/// The track read from `path` whose file gave `tag` (none where no tag could
/// be read). The tag's fields are used when a title comes from the tag or
/// the file stem; otherwise the bare track stands.
pub open spec fn extracted(path: Seq<char>, tag: Option<TagView>) -> Option<TrackView> {
    match tag {
        Some(t) => if t.title is Some || stem_of(path) is Some {
            Some(
                TrackView {
                    path,
                    artist: t.artist,
                    album: t.album,
                    title: if t.title is Some {
                        t.title->Some_0
                    } else {
                        stem_of(path)->Some_0
                    },
                    cover: cover_of(t.pictures),
                },
            )
        } else {
            bare_track(path)
        },
        None => bare_track(path),
    }
}

/// The optional view of an optional tag.
pub open spec fn opt_tag_view(tag: Option<TagData>) -> Option<TagView> {
    match tag {
        Some(t) => Some(t@),
        None => None,
    }
}

impl Track {
    /// The cover of a tag: the first picture marked as front cover, else the
    /// last picture, else none.
    pub fn find_cover(pictures: &Vec<Picture>) -> (r: Option<Image>)
        ensures
            opt_image_view(r) == cover_of(pictures@.map_values(|p: Picture| p@)),
    {
        let ghost pics = pictures@.map_values(|p: Picture| p@);
        let mut best: Option<usize> = None;
        let mut i: usize = 0;
        assert(pics.take(pics.len() as int) =~= pics);
        while i < pictures.len()
            invariant_except_break
                match best {
                    Some(b) => b < i && cover_pick(pics.take(i as int)) == Some(pics[b as int]),
                    None => cover_pick(pics.take(i as int)) is None,
                },
                forall|b: usize| best == Some(b) ==> !pics[b as int].front_cover,
            invariant
                0 <= i <= pictures@.len(),
                pics == pictures@.map_values(|p: Picture| p@),
                pics.take(pics.len() as int) == pics,
            ensures
                match best {
                    Some(b) => b < pictures@.len() && cover_pick(pics) == Some(pics[b as int]),
                    None => cover_pick(pics) is None,
                },
            decreases pictures@.len() - i,
        {
            assert(pics.take(i + 1).drop_last() =~= pics.take(i as int));
            best = Some(i);
            if pictures[i].front_cover {
                proof {
                    lemma_front_cover_kept(pics, i + 1);
                }
                break;
            }
            i = i + 1;
        }
        match best {
            Some(b) => {
                let pic = &pictures[b];
                let data = pic.data.clone();
                assert(data@ =~= pic.data@);
                Some(Image { mime_type: pic.mime_type.clone(), data })
            },
            None => None,
        }
    }


    /// Builds the track for the file at `file` from what its tag holds, as
    /// decoded by the caller, or from the path alone when `tag` is none (the
    /// file had no readable tag).
    pub fn from_file(file: &str, tag: Option<TagData>) -> (r: Result<Track, Error>)
        ensures
            match extracted(file@, opt_tag_view(tag)) {
                Some(t) => r is Ok && r->Ok_0@ == t,
                None => r == Err::<Track, Error>(Error::NoMetadata),
            },
    {
        if let Some(t) = tag {
            let title = match t.title {
                Some(x) => Some(x),
                None => title_from(file),
            };
            if let Some(title) = title {
                let cover = Track::find_cover(&t.pictures);
                return Ok(
                    Track { path: file.to_string(), artist: t.artist, album: t.album, title, cover },
                );
            }
        }
        match title_from(file) {
            Some(title) => Ok(
                Track { path: file.to_string(), artist: None, album: None, title, cover: None },
            ),
            None => Err(Error::NoMetadata),
        }
    }
}

} // verus!
