//! The records of the music library and the bodies of its requests and
//! responses.
//!
//! Identifiers are 128-bit numbers. Instants are whole microseconds since the
//! start of 1970 (UTC). Each record with text in it has a view that holds the
//! same fields with the text as a sequence of characters.

use crate::text::{copy_optional, optional_text};
use vstd::prelude::*;
use vstd::std_specs::convert::FromSpecImpl;

verus! {

/// A registered user.
#[derive(Debug)]
pub struct User {
    pub id: u128,
    pub username: String,
    pub email: String,
    /// The salted hash of the password. It never leaves in a response.
    pub password_hash: String,
    pub created_at: i64,
    pub updated_at: i64,
}

pub struct UserView {
    pub id: u128,
    pub username: Seq<char>,
    pub email: Seq<char>,
    pub password_hash: Seq<char>,
    pub created_at: i64,
    pub updated_at: i64,
}

impl View for User {
    type V = UserView;

    open spec fn view(&self) -> UserView {
        UserView {
            id: self.id,
            username: self.username@,
            email: self.email@,
            password_hash: self.password_hash@,
            created_at: self.created_at,
            updated_at: self.updated_at,
        }
    }
}

impl Clone for User {
    fn clone(&self) -> (r: User)
        ensures
            r@ == self@,
    {
        User {
            id: self.id,
            username: self.username.clone(),
            email: self.email.clone(),
            password_hash: self.password_hash.clone(),
            created_at: self.created_at,
            updated_at: self.updated_at,
        }
    }
}

/// A song of the catalog.
#[derive(Debug)]
pub struct Song {
    pub id: u128,
    pub title: String,
    pub artist: String,
    pub album: String,
    /// Length in seconds.
    pub duration: i32,
    /// Where the audio lies, relative to the upload root.
    pub file_path: String,
    pub cover_art: Option<String>,
    pub created_at: i64,
}

pub struct SongView {
    pub id: u128,
    pub title: Seq<char>,
    pub artist: Seq<char>,
    pub album: Seq<char>,
    pub duration: i32,
    pub file_path: Seq<char>,
    pub cover_art: Option<Seq<char>>,
    pub created_at: i64,
}

impl View for Song {
    type V = SongView;

    open spec fn view(&self) -> SongView {
        SongView {
            id: self.id,
            title: self.title@,
            artist: self.artist@,
            album: self.album@,
            duration: self.duration,
            file_path: self.file_path@,
            cover_art: optional_text(self.cover_art),
            created_at: self.created_at,
        }
    }
}

impl Clone for Song {
    fn clone(&self) -> (r: Song)
        ensures
            r@ == self@,
    {
        Song {
            id: self.id,
            title: self.title.clone(),
            artist: self.artist.clone(),
            album: self.album.clone(),
            duration: self.duration,
            file_path: self.file_path.clone(),
            cover_art: copy_optional(&self.cover_art),
            created_at: self.created_at,
        }
    }
}

/// A playlist. `user_id` names its owner.
#[derive(Debug)]
pub struct Playlist {
    pub id: u128,
    pub name: String,
    pub user_id: u128,
    pub description: Option<String>,
    pub cover_image: Option<String>,
    pub created_at: i64,
    pub updated_at: i64,
}

pub struct PlaylistView {
    pub id: u128,
    pub name: Seq<char>,
    pub user_id: u128,
    pub description: Option<Seq<char>>,
    pub cover_image: Option<Seq<char>>,
    pub created_at: i64,
    pub updated_at: i64,
}

impl View for Playlist {
    type V = PlaylistView;

    open spec fn view(&self) -> PlaylistView {
        PlaylistView {
            id: self.id,
            name: self.name@,
            user_id: self.user_id,
            description: optional_text(self.description),
            cover_image: optional_text(self.cover_image),
            created_at: self.created_at,
            updated_at: self.updated_at,
        }
    }
}

impl Clone for Playlist {
    fn clone(&self) -> (r: Playlist)
        ensures
            r@ == self@,
    {
        Playlist {
            id: self.id,
            name: self.name.clone(),
            user_id: self.user_id,
            description: copy_optional(&self.description),
            cover_image: copy_optional(&self.cover_image),
            created_at: self.created_at,
            updated_at: self.updated_at,
        }
    }
}

/// One song's place in one playlist. `position` counts from 1.
#[derive(Clone, Copy, Debug, PartialEq, Eq, Structural)]
pub struct PlaylistSong {
    pub playlist_id: u128,
    pub song_id: u128,
    pub added_at: i64,
    pub position: i32,
}

/// The body of a login request.
#[derive(Debug)]
pub struct LoginRequest {
    pub email: String,
    pub password: String,
}

/// The body of a registration request.
#[derive(Debug)]
pub struct RegisterRequest {
    pub username: String,
    pub email: String,
    pub password: String,
}

/// What a successful login or registration answers.
#[derive(Debug)]
pub struct AuthResponse {
    pub token: String,
    pub user: UserResponse,
}

/// A user as responses show it: without the password hash.
#[derive(Debug)]
pub struct UserResponse {
    pub id: u128,
    pub username: String,
    pub email: String,
    pub created_at: i64,
}

pub struct UserResponseView {
    pub id: u128,
    pub username: Seq<char>,
    pub email: Seq<char>,
    pub created_at: i64,
}

impl View for UserResponse {
    type V = UserResponseView;

    open spec fn view(&self) -> UserResponseView {
        UserResponseView {
            id: self.id,
            username: self.username@,
            email: self.email@,
            created_at: self.created_at,
        }
    }
}

/// What a response shows of a user.
pub open spec fn public_part(user: UserView) -> UserResponseView {
    UserResponseView {
        id: user.id,
        username: user.username,
        email: user.email,
        created_at: user.created_at,
    }
}

impl From<User> for UserResponse {
    fn from(user: User) -> (r: UserResponse) {
        UserResponse {
            id: user.id,
            username: user.username,
            email: user.email,
            created_at: user.created_at,
        }
    }
}

impl FromSpecImpl<User> for UserResponse {
    open spec fn obeys_from_spec() -> bool {
        true
    }

    open spec fn from_spec(user: User) -> UserResponse {
        UserResponse {
            id: user.id,
            username: user.username,
            email: user.email,
            created_at: user.created_at,
        }
    }
}

/// The body of a request that creates a playlist.
#[derive(Debug)]
pub struct CreatePlaylistRequest {
    pub name: String,
    pub description: Option<String>,
}

/// The body of a request that adds a song to a playlist.
#[derive(Clone, Copy, Debug, PartialEq, Eq, Structural)]
pub struct AddSongToPlaylistRequest {
    pub song_id: u128,
}

/// A playlist together with its songs in playlist order.
#[derive(Debug)]
pub struct PlaylistWithSongs {
    pub id: u128,
    pub name: String,
    pub user_id: u128,
    pub description: Option<String>,
    pub cover_image: Option<String>,
    pub created_at: i64,
    pub updated_at: i64,
    pub songs: Vec<Song>,
}

pub struct PlaylistWithSongsView {
    pub playlist: PlaylistView,
    pub songs: Seq<SongView>,
}

impl View for PlaylistWithSongs {
    type V = PlaylistWithSongsView;

    open spec fn view(&self) -> PlaylistWithSongsView {
        PlaylistWithSongsView {
            playlist: PlaylistView {
                id: self.id,
                name: self.name@,
                user_id: self.user_id,
                description: optional_text(self.description),
                cover_image: optional_text(self.cover_image),
                created_at: self.created_at,
                updated_at: self.updated_at,
            },
            songs: song_views(self.songs@),
        }
    }
}

/// The views of a run of users.
pub open spec fn user_views(users: Seq<User>) -> Seq<UserView> {
    users.map_values(|u: User| u@)
}

/// The views of a run of songs.
pub open spec fn song_views(songs: Seq<Song>) -> Seq<SongView> {
    songs.map_values(|s: Song| s@)
}

/// The views of a run of playlists.
pub open spec fn playlist_views(playlists: Seq<Playlist>) -> Seq<PlaylistView> {
    playlists.map_values(|p: Playlist| p@)
}

} // verus!
