//! `/song`: the Spotify link of the first track found for a query.
use crate::reply::{fails, says, says_and_fails, Reply};
use crate::text::{chars_of, string_of};
use vstd::prelude::*;

verus! {

/// What a Spotify search returned, as the command reads it: for a track
/// search, the external links (service, address) of each track found.
pub enum SongSearch {
    /// A page of tracks.
    Tracks(Vec<Vec<(String, String)>>),
    /// Any other kind of result.
    Other,
}

/// The address filed under `service` in a track's external links.
pub open spec fn link_for(links: Seq<(String, String)>, service: Seq<char>) -> Option<Seq<char>>
    decreases links.len(),
{
    if links.len() == 0 {
        None
    } else if links[0].0@ == service {
        Some(links[0].1@)
    } else {
        link_for(links.drop_first(), service)
    }
}

/// The Spotify address of a track, looked up.
fn spotify_link(links: &Vec<(String, String)>) -> (r: Option<String>)
    ensures
        match r {
            Some(u) => link_for(links@, "spotify"@) == Some(u@),
            None => link_for(links@, "spotify"@) is None,
        },
{
    let key = "spotify".to_string();
    let mut i: usize = 0;
    assert(links@.skip(0) == links@);
    while i < links.len()
        invariant
            i <= links.len(),
            key@ == "spotify"@,
            link_for(links@, "spotify"@) == link_for(links@.skip(i as int), "spotify"@),
        decreases links.len() - i,
    {
        assert(links@.skip(i as int).drop_first() == links@.skip(i + 1));
        assert(links@.skip(i as int)[0] == links@[i as int]);
        if links[i].0 == key {
            return Some(links[i].1.clone());
        }
        i = i + 1;
    }
    None
}

/// What `/song` does with Spotify's answer: post the first track's Spotify
/// link; fail when that track has none; post and fail when the answer holds
/// no tracks. (An empty page of tracks is a panic of the command, which
/// `requires` leaves to the caller.)
pub fn run(result: &SongSearch) -> (r: Reply)
    requires
        result matches SongSearch::Tracks(items) ==> items@.len() > 0,
    ensures
        match result {
            SongSearch::Tracks(items) => match link_for(items@[0]@, "spotify"@) {
                Some(u) => says(r, u),
                None => fails(r, "Unable to find track, try including the artist's name"@),
            },
            SongSearch::Other => says_and_fails(r, "Unable to find track for unknown reasons"@),
        },
{
    match result {
        SongSearch::Tracks(items) => match spotify_link(&items[0]) {
            Some(u) => Reply::Say(u),
            None => {
                let m = chars_of("Unable to find track, try including the artist's name");
                Reply::Fail(string_of(&m))
            },
        },
        SongSearch::Other => {
            let m = chars_of("Unable to find track for unknown reasons");
            Reply::SayAndFail(string_of(&m))
        },
    }
}

} // verus!
