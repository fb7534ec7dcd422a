use earworm::media::Error;
use earworm::{Picture, TagData, Track};

use id3::frame::{Picture as Id3Picture, PictureType};
use id3::{Tag, Version};

fn tag_bytes(tag: &Tag) -> Vec<u8> {
    let mut bytes: Vec<u8> = Vec::new();
    tag.write_to(&mut bytes, Version::Id3v24).unwrap();
    bytes
}

/// Decodes a tag from bytes as a caller of the library does.
fn decode(bytes: &[u8]) -> Option<TagData> {
    let tag = Tag::read_from(bytes).ok()?;
    let pictures = tag
        .pictures()
        .map(|p| Picture {
            mime_type: p.mime_type.clone(),
            data: p.data.clone(),
            front_cover: p.picture_type == PictureType::CoverFront,
        })
        .collect();
    Some(TagData {
        title: tag.title().map(String::from),
        artist: tag.artist().map(String::from),
        album: tag.album().map(String::from),
        pictures,
    })
}

fn id3_picture(mime: &str, picture_type: PictureType, data: Vec<u8>) -> Id3Picture {
    Id3Picture {
        mime_type: mime.to_string(),
        picture_type,
        description: String::new(),
        data,
    }
}

fn picture(mime: &str, front_cover: bool, data: Vec<u8>) -> Picture {
    Picture {
        mime_type: mime.to_string(),
        data,
        front_cover,
    }
}

#[test]
fn from_file_full_id3() {
    let mut tag = Tag::new();
    tag.set_artist("Santa Clause");
    tag.set_album("The Red Album");
    tag.set_title("Red Square");
    tag.add_picture(id3_picture("image/png", PictureType::CoverFront, vec![137, 80, 78, 71]));
    let bytes = tag_bytes(&tag);

    let path = "tests/full-id3.mp3".to_string();
    let track = Track::from_file(&path, decode(&bytes)).unwrap();

    assert_eq!(track.path(), path);
    assert_eq!(track.artist(), Some("Santa Clause"));
    assert_eq!(track.album(), Some("The Red Album"));
    assert_eq!(track.title(), "Red Square");

    let image = track.cover().expect("should have a cover image");
    assert_eq!(image.mime_type(), "image/png");
    assert_eq!(image.data(), &[137u8, 80, 78, 71][..]);
}

#[test]
fn unreadable_file_is_titled_by_its_stem() {
    let track = Track::from_file("music/Blue Circle.mp3", None).unwrap();
    assert_eq!(track.path(), "music/Blue Circle.mp3");
    assert_eq!(track.title(), "Blue Circle");
    assert_eq!(track.artist(), None);
    assert_eq!(track.album(), None);
    assert!(track.cover().is_none());
}

#[test]
fn bytes_without_a_tag_fall_back_to_the_stem() {
    let bytes: Vec<u8> = vec![0, 1, 2, 3, 4, 5, 6, 7];
    let track = Track::from_file("a/b/Green Triangle.mp3", decode(&bytes)).unwrap();
    assert_eq!(track.title(), "Green Triangle");
    assert_eq!(track.artist(), None);
    assert!(track.cover().is_none());
}

#[test]
fn tag_without_title_takes_the_stem_and_keeps_the_rest() {
    let mut tag = Tag::new();
    tag.set_artist("Someone");
    let bytes = tag_bytes(&tag);
    let track = Track::from_file("x/Untitled One.mp3", decode(&bytes)).unwrap();
    assert_eq!(track.title(), "Untitled One");
    assert_eq!(track.artist(), Some("Someone"));
    assert_eq!(track.album(), None);
}

#[test]
fn no_stem_gives_no_track() {
    assert_eq!(Track::from_file("", None).err(), Some(Error::NoMetadata));
    assert_eq!(Track::from_file("/", None).err(), Some(Error::NoMetadata));
}

#[test]
fn no_stem_with_tag_title_still_gives_a_track() {
    let data = TagData {
        title: Some("Only Tag".to_string()),
        artist: None,
        album: Some("Album".to_string()),
        pictures: vec![],
    };
    let track = Track::from_file("", Some(data)).unwrap();
    assert_eq!(track.title(), "Only Tag");
    assert_eq!(track.album(), Some("Album"));
}

#[test]
fn front_cover_before_other_image_wins() {
    let data = TagData {
        title: Some("T".to_string()),
        artist: None,
        album: None,
        pictures: vec![
            picture("image/png", true, vec![1]),
            picture("image/jpeg", false, vec![2]),
        ],
    };
    let track = Track::from_file("t.mp3", Some(data)).unwrap();
    let cover = track.cover().unwrap();
    assert_eq!(cover.mime_type(), "image/png");
    assert_eq!(cover.data(), &[1u8][..]);
}

#[test]
fn front_cover_read_from_a_tag_wins() {
    let mut tag = Tag::new();
    tag.set_title("Two Images");
    tag.add_picture(id3_picture("image/png", PictureType::CoverFront, vec![1, 2]));
    tag.add_picture(id3_picture("image/jpeg", PictureType::CoverBack, vec![3, 4]));
    let bytes = tag_bytes(&tag);
    let track = Track::from_file("two.mp3", decode(&bytes)).unwrap();
    assert_eq!(track.cover().unwrap().mime_type(), "image/png");
}

#[test]
fn later_front_cover_wins_over_earlier_images() {
    let data = TagData {
        title: None,
        artist: None,
        album: None,
        pictures: vec![
            picture("image/gif", false, vec![1]),
            picture("image/png", true, vec![2]),
            picture("image/jpeg", false, vec![3]),
        ],
    };
    let track = Track::from_file("dir/Late Cover.mp3", Some(data)).unwrap();
    assert_eq!(track.title(), "Late Cover");
    assert_eq!(track.cover().unwrap().mime_type(), "image/png");
}

#[test]
fn without_front_cover_the_last_image_is_taken() {
    let data = TagData {
        title: Some("T".to_string()),
        artist: None,
        album: None,
        pictures: vec![
            picture("image/gif", false, vec![1]),
            picture("image/jpeg", false, vec![3]),
        ],
    };
    let track = Track::from_file("t.mp3", Some(data)).unwrap();
    assert_eq!(track.cover().unwrap().mime_type(), "image/jpeg");
}

#[test]
fn tracks_compare_by_all_fields() {
    let a = Track::from_file("m/Red Square.mp3", None).unwrap();
    let b = Track::from_file("m/Red Square.mp3", None).unwrap();
    let c = Track::from_file("n/Red Square.mp3", None).unwrap();
    assert!(a == b);
    assert!(a != c);
    assert!(a.clone() == a);
}

#[test]
fn find_cover_takes_the_first_front_cover() {
    let pictures = vec![
        picture("image/gif", false, vec![1]),
        picture("image/png", true, vec![2]),
        picture("image/bmp", true, vec![3]),
    ];
    let cover = Track::find_cover(&pictures).unwrap();
    assert_eq!(cover.mime_type(), "image/png");
    assert_eq!(cover.data(), &[2u8][..]);
    assert!(Track::find_cover(&vec![]).is_none());
}
