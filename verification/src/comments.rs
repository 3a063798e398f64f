//! The comments of a FLAC file: its tags, by key.

use vstd::prelude::*;

use crate::number::decimal;

verus! {

#[verifier::external_type_specification]
#[verifier::external_body]
pub struct ExVorbisComment(metaflac::block::VorbisComment);

/// The comments in a block: the values of each key.
pub uninterp spec fn comments_of(block: metaflac::block::VorbisComment) -> Map<
    Seq<char>,
    Seq<Seq<char>>,
>;

/// The characters of a list of strings.
pub open spec fn texts(values: Seq<String>) -> Seq<Seq<char>> {
    values.map_values(|s: String| s@)
}

/// `metaflac::block::VorbisComment::set` with one value: the key has that value and no other;
/// the other keys keep theirs.
#[verifier::external_body]
pub(crate) fn set_comment(block: &mut metaflac::block::VorbisComment, key: &str, value: &str)
    ensures
        comments_of(*final(block)) == comments_of(*old(block)).insert(key@, seq![value@]),
{
    block.set(key, vec![value]);
}

/// `metaflac::block::VorbisComment::set_title` with one value: sets TITLE and removes
/// TITLESORT.
#[verifier::external_body]
pub(crate) fn set_title(block: &mut metaflac::block::VorbisComment, title: &str)
    ensures
        comments_of(*final(block)) == comments_of(*old(block)).remove("TITLESORT"@).insert(
            "TITLE"@,
            seq![title@],
        ),
{
    block.set_title(vec![title]);
}

/// `metaflac::block::VorbisComment::set_artist` with one value: sets ARTIST and removes
/// ARTISTSORT.
#[verifier::external_body]
pub(crate) fn set_artist(block: &mut metaflac::block::VorbisComment, artist: &str)
    ensures
        comments_of(*final(block)) == comments_of(*old(block)).remove("ARTISTSORT"@).insert(
            "ARTIST"@,
            seq![artist@],
        ),
{
    block.set_artist(vec![artist]);
}

/// `metaflac::block::VorbisComment::set_album` with one value: sets ALBUM and removes
/// ALBUMSORT.
#[verifier::external_body]
pub(crate) fn set_album(block: &mut metaflac::block::VorbisComment, album: &str)
    ensures
        comments_of(*final(block)) == comments_of(*old(block)).remove("ALBUMSORT"@).insert(
            "ALBUM"@,
            seq![album@],
        ),
{
    block.set_album(vec![album]);
}

/// `metaflac::block::VorbisComment::set_track`: sets TRACKNUMBER to the number in decimal.
#[verifier::external_body]
pub(crate) fn set_track(block: &mut metaflac::block::VorbisComment, track: u32)
    ensures
        comments_of(*final(block)) == comments_of(*old(block)).insert(
            "TRACKNUMBER"@,
            seq![decimal(track as nat)],
        ),
{
    block.set_track(track);
}

/// `metaflac::block::VorbisComment::set_total_tracks`: sets TOTALTRACKS to the number in
/// decimal.
#[verifier::external_body]
pub(crate) fn set_total_tracks(block: &mut metaflac::block::VorbisComment, total_tracks: u32)
    ensures
        comments_of(*final(block)) == comments_of(*old(block)).insert(
            "TOTALTRACKS"@,
            seq![decimal(total_tracks as nat)],
        ),
{
    block.set_total_tracks(total_tracks);
}

/// The field `comments` of `metaflac::block::VorbisComment`, item by item: each key comes
/// once, with its values. The order of the keys is that of a hash map, and left open.
#[verifier::external_body]
pub(crate) fn entries(block: &metaflac::block::VorbisComment) -> (r: Vec<(String, Vec<String>)>)
    ensures
        forall|i: int|
            0 <= i < r@.len() ==> comments_of(*block).contains_pair(
                (#[trigger] r@[i]).0@,
                texts(r@[i].1@),
            ),
        forall|key: Seq<char>| #[trigger]
            comments_of(*block).dom().contains(key) ==> exists|i: int|
                0 <= i < r@.len() && (#[trigger] r@[i]).0@ == key,
        forall|i: int, j: int|
            0 <= i < j < r@.len() ==> (#[trigger] r@[i]).0@ != (#[trigger] r@[j]).0@,
{
    block.comments.iter().map(|(k, v)| (k.clone(), v.clone())).collect()
}

} // verus!
