//! The three services: accounts, the song catalog and playlists.
//!
//! Each operation that needs a random identifier, the clock or the password
//! hasher comes in two forms. The first takes what those give as arguments
//! and says exactly what it returns and how it changes the store. The
//! second asks for them and hands them on.

use crate::error::ServiceError;
use crate::ids::random_id;
use crate::models::{
    song_views, playlist_views, Playlist, PlaylistView, PlaylistWithSongs, Song, User, UserView,
};
use crate::store::{
    has_email, has_playlist_id, has_user_id, lemma_user_by_email, next_position,
    playlist_with_songs, playlist_with_songs_option_view, playlists_of_owner, song_by_id,
    song_option_view, songs_matching, songs_newest_first, user_by_email, with_membership,
    with_playlist, with_user, Store, StoreView,
};
use crate::utils::{
    bcrypt_outcome, create_jwt_token, current_time, hash_password, issue_token_at, issued_to,
    token_at, verify_password,
};
use vstd::prelude::*;

verus! {

/// Registration and login.
pub struct AuthService;

/// The catalog of songs.
pub struct SongService;

/// Playlists and their songs.
pub struct PlaylistService;

/// The row of a user registered at `now`.
pub open spec fn new_user(
    id: u128,
    username: Seq<char>,
    email: Seq<char>,
    password_hash: Seq<char>,
    now: i64,
) -> UserView {
    UserView { id, username, email, password_hash, created_at: now, updated_at: now }
}

/// Why a user cannot be added, if it cannot: the email is taken, or else
/// the identifier is.
pub open spec fn registration_error(store: StoreView, id: u128, email: Seq<char>) -> Option<
    ServiceError,
> {
    if has_email(store.users, email) {
        Some(ServiceError::DuplicateEmail)
    } else if has_user_id(store.users, id) {
        Some(ServiceError::StorageError)
    } else {
        None
    }
}

/// Whether `after` is `before` with the account of a newly registered user:
/// `user` has the given name and email and a hash that the password
/// matches, both its instants are the same, and its email and identifier
/// were free.
pub open spec fn registered(
    before: StoreView,
    after: StoreView,
    user: UserView,
    username: Seq<char>,
    email: Seq<char>,
    password: Seq<char>,
) -> bool {
    &&& after == with_user(before, user)
    &&& user.username == username
    &&& user.email == email
    &&& bcrypt_outcome(password, user.password_hash) == Some(true)
    &&& user.created_at == user.updated_at
    &&& !has_email(before.users, email)
    &&& !has_user_id(before.users, user.id)
}

/// What the check of an email and a password gives: the user, or
/// `InvalidCredentials` both where no user has the email and where the
/// password does not match, or `VerificationError` where the stored hash
/// cannot be read.
pub open spec fn credentials_check(users: Seq<UserView>, email: Seq<char>, password: Seq<char>)
    -> Result<UserView, ServiceError> {
    match user_by_email(users, email) {
        None => Err(ServiceError::InvalidCredentials),
        Some(user) => match bcrypt_outcome(password, user.password_hash) {
            None => Err(ServiceError::VerificationError),
            Some(false) => Err(ServiceError::InvalidCredentials),
            Some(true) => Ok(user),
        },
    }
}

impl AuthService {
    /// Adds the account of a new user, given its identifier, the hash of its
    /// password and the present instant. `DuplicateEmail` where a user has
    /// the email already, whatever the other arguments; `StorageError` where
    /// the identifier is taken; in both cases the store stays as it was.
    pub fn add_user(
        store: &mut Store,
        id: u128,
        username: &str,
        email: &str,
        password_hash: String,
        now: i64,
    ) -> (r: Result<User, ServiceError>)
        ensures
            match r {
                Ok(user) => registration_error(old(store)@, id, email@) is None && user@
                    == new_user(id, username@, email@, password_hash@, now) && final(store)@
                    == with_user(old(store)@, user@),
                Err(e) => registration_error(old(store)@, id, email@) == Some(e) && final(store)@
                    == old(store)@,
            },
    {
        proof {
            lemma_user_by_email(store@.users, email@);
        }
        if store.find_user_by_email(email).is_some() {
            return Err(ServiceError::DuplicateEmail);
        }
        let user = User {
            id,
            username: username.to_owned(),
            email: email.to_owned(),
            password_hash,
            created_at: now,
            updated_at: now,
        };
        let copy = user.clone();
        match store.insert_user(user) {
            Ok(()) => Ok(copy),
            Err(e) => Err(e),
        }
    }

    /// Registers a user and issues a token for it. An email that a user has
    /// already gives `DuplicateEmail`, whatever the name and the password.
    /// Otherwise the password is hashed, the account is added with a new
    /// identifier and the present instant, and a token is signed with
    /// `secret`. Where signing fails the account stays.
    pub fn register(store: &mut Store, secret: &str, username: &str, email: &str, password: &str)
        -> (r: Result<(String, User), ServiceError>)
        ensures
            has_email(old(store)@.users, email@) <==> r == Err::<(String, User), ServiceError>(
                ServiceError::DuplicateEmail,
            ),
            match r {
                Ok((token, user)) => registered(
                    old(store)@,
                    final(store)@,
                    user@,
                    username@,
                    email@,
                    password@,
                ) && issued_to(token@, user.id, secret@),
                Err(ServiceError::SigningError) => exists|user: UserView|
                    registered(old(store)@, final(store)@, user, username@, email@, password@),
                Err(e) => final(store)@ == old(store)@ && (e == ServiceError::DuplicateEmail || e
                    == ServiceError::HashingError || e == ServiceError::StorageError),
            },
    {
        proof {
            lemma_user_by_email(store@.users, email@);
        }
        if store.find_user_by_email(email).is_some() {
            return Err(ServiceError::DuplicateEmail);
        }
        let password_hash = match hash_password(password) {
            Ok(h) => h,
            Err(e) => {
                return Err(e);
            },
        };
        let id = random_id();
        let now = current_time();
        let user = match AuthService::add_user(store, id, username, email, password_hash, now) {
            Ok(u) => u,
            Err(e) => {
                return Err(e);
            },
        };
        proof {
            assert(registered(old(store)@, store@, user@, username@, email@, password@));
        }
        match create_jwt_token(user.id, secret) {
            Ok(token) => Ok((token, user)),
            Err(e) => Err(e),
        }
    }

    /// Checks an email and a password against the accounts.
    pub fn check_credentials(store: &Store, email: &str, password: &str) -> (r: Result<
        User,
        ServiceError,
    >)
        ensures
            match r {
                Ok(user) => credentials_check(store@.users, email@, password@) == Ok::<
                    UserView,
                    ServiceError,
                >(user@),
                Err(e) => credentials_check(store@.users, email@, password@) == Err::<
                    UserView,
                    ServiceError,
                >(e),
            },
    {
        let user = match store.find_user_by_email(email) {
            Some(u) => u,
            None => {
                return Err(ServiceError::InvalidCredentials);
            },
        };
        match verify_password(password, user.password_hash.as_str()) {
            Ok(true) => Ok(user),
            Ok(false) => Err(ServiceError::InvalidCredentials),
            Err(e) => Err(e),
        }
    }

    /// Logs a user in at the instant `now`: the credentials are checked and
    /// a token is signed with `secret`.
    pub fn login_at(store: &Store, secret: &str, email: &str, password: &str, now: i64) -> (r:
        Result<(String, User), ServiceError>)
        ensures
            match r {
                Ok((token, user)) => credentials_check(store@.users, email@, password@) == Ok::<
                    UserView,
                    ServiceError,
                >(user@) && token_at(user.id, secret@, now) == Some(token@),
                Err(e) => match credentials_check(store@.users, email@, password@) {
                    Ok(user) => e == ServiceError::SigningError && token_at(
                        user.id,
                        secret@,
                        now,
                    ) is None,
                    Err(refusal) => e == refusal,
                },
            },
    {
        let user = match AuthService::check_credentials(store, email, password) {
            Ok(u) => u,
            Err(e) => {
                return Err(e);
            },
        };
        match issue_token_at(user.id, secret, now) {
            Ok(token) => Ok((token, user)),
            Err(e) => Err(e),
        }
    }

    /// Logs a user in. An unknown email and a wrong password both give
    /// `InvalidCredentials`; a stored hash that cannot be read gives
    /// `VerificationError`. With matching credentials the user comes back
    /// with a token, unless signing fails.
    pub fn login(store: &Store, secret: &str, email: &str, password: &str) -> (r: Result<
        (String, User),
        ServiceError,
    >)
        ensures
            match r {
                Ok((token, user)) => credentials_check(store@.users, email@, password@) == Ok::<
                    UserView,
                    ServiceError,
                >(user@) && issued_to(token@, user.id, secret@),
                Err(e) => match credentials_check(store@.users, email@, password@) {
                    Ok(user) => e == ServiceError::SigningError,
                    Err(refusal) => e == refusal,
                },
            },
    {
        let now = current_time();
        AuthService::login_at(store, secret, email, password, now)
    }
}

impl SongService {
    /// Every song, newest first.
    pub fn get_all_songs(store: &Store) -> (r: Result<Vec<Song>, ServiceError>)
        ensures
            r matches Ok(songs) && song_views(songs@) == songs_newest_first(store@.songs),
    {
        Ok(store.all_songs())
    }

    /// The song with the given identifier, if the catalog has it.
    pub fn get_song_by_id(store: &Store, song_id: u128) -> (r: Result<Option<Song>, ServiceError>)
        ensures
            r matches Ok(song) && song_option_view(song) == song_by_id(store@.songs, song_id),
    {
        Ok(store.find_song(song_id))
    }

    /// The songs whose title, artist or album holds `query`, the letters `A`
    /// to `Z` counting as `a` to `z`, in the order of the catalog. An empty
    /// query is refused with `InvalidQuery`.
    pub fn search_songs(store: &Store, query: &str) -> (r: Result<Vec<Song>, ServiceError>)
        ensures
            match r {
                Ok(songs) => query@.len() > 0 && song_views(songs@) == songs_matching(
                    store@.songs,
                    query@,
                ),
                Err(e) => query@.len() == 0 && e == ServiceError::InvalidQuery,
            },
    {
        if query.is_empty() {
            return Err(ServiceError::InvalidQuery);
        }
        Ok(store.matching_songs(query))
    }
}

/// The row of a playlist created at `now`.
pub open spec fn new_playlist(
    id: u128,
    owner: u128,
    name: Seq<char>,
    description: Option<Seq<char>>,
    now: i64,
) -> PlaylistView {
    PlaylistView {
        id,
        name,
        user_id: owner,
        description,
        cover_image: None,
        created_at: now,
        updated_at: now,
    }
}

/// The characters of an optional string slice.
pub open spec fn optional_slice_text(s: Option<&str>) -> Option<Seq<char>> {
    match s {
        Some(t) => Some(t@),
        None => None,
    }
}

impl PlaylistService {
    /// Adds a playlist, given its identifier and the present instant. The
    /// name need not be new. `StorageError` where the identifier is taken.
    pub fn add_playlist(
        store: &mut Store,
        id: u128,
        user_id: u128,
        name: &str,
        description: Option<&str>,
        now: i64,
    ) -> (r: Result<Playlist, ServiceError>)
        ensures
            match r {
                Ok(playlist) => !has_playlist_id(old(store)@.playlists, id) && playlist@
                    == new_playlist(id, user_id, name@, optional_slice_text(description), now)
                    && final(store)@ == with_playlist(old(store)@, playlist@),
                Err(e) => has_playlist_id(old(store)@.playlists, id) && e
                    == ServiceError::StorageError && final(store)@ == old(store)@,
            },
    {
        let description: Option<String> = match description {
            Some(d) => Some(d.to_owned()),
            None => None,
        };
        let playlist = Playlist {
            id,
            name: name.to_owned(),
            user_id,
            description,
            cover_image: None,
            created_at: now,
            updated_at: now,
        };
        let copy = playlist.clone();
        match store.insert_playlist(playlist) {
            Ok(()) => Ok(copy),
            Err(e) => Err(e),
        }
    }

    /// Creates a playlist for `user_id` with a new identifier and the
    /// present instant.
    pub fn create_playlist(
        store: &mut Store,
        user_id: u128,
        name: &str,
        description: Option<&str>,
    ) -> (r: Result<Playlist, ServiceError>)
        ensures
            match r {
                Ok(playlist) => !has_playlist_id(old(store)@.playlists, playlist.id) && playlist@
                    == new_playlist(
                    playlist.id,
                    user_id,
                    name@,
                    optional_slice_text(description),
                    playlist.created_at,
                ) && final(store)@ == with_playlist(old(store)@, playlist@),
                Err(e) => e == ServiceError::StorageError && final(store)@ == old(store)@,
            },
    {
        let id = random_id();
        let now = current_time();
        PlaylistService::add_playlist(store, id, user_id, name, description, now)
    }

    /// The playlists that `user_id` owns, newest first.
    pub fn get_user_playlists(store: &Store, user_id: u128) -> (r: Result<
        Vec<Playlist>,
        ServiceError,
    >)
        ensures
            r matches Ok(playlists) && playlist_views(playlists@) == playlists_of_owner(
                store@.playlists,
                user_id,
            ),
    {
        Ok(store.playlists_of(user_id))
    }

    /// The playlist with its songs in ascending position, if the playlist
    /// exists.
    pub fn get_playlist_with_songs(store: &Store, playlist_id: u128) -> (r: Result<
        Option<PlaylistWithSongs>,
        ServiceError,
    >)
        ensures
            r matches Ok(found) && playlist_with_songs_option_view(found) == playlist_with_songs(
                store@,
                playlist_id,
            ),
    {
        Ok(store.playlist_with_songs(playlist_id))
    }

    /// Puts a song at the end of a playlist, at the instant `now`: the new
    /// membership row gets one more than the highest position in the
    /// playlist, or 1 in a playlist without songs. `StorageError` where
    /// that position does not fit in an `i32`; the store is then left as it
    /// was.
    pub fn add_song_at(store: &mut Store, playlist_id: u128, song_id: u128, now: i64) -> (r:
        Result<(), ServiceError>)
        ensures
            r == if next_position(old(store)@.playlist_songs, playlist_id) <= i32::MAX {
                Ok::<(), ServiceError>(())
            } else {
                Err(ServiceError::StorageError)
            },
            final(store)@ == with_membership(old(store)@, playlist_id, song_id, now),
    {
        store.append_membership(playlist_id, song_id, now)
    }

    /// Puts a song at the end of a playlist, now.
    pub fn add_song_to_playlist(store: &mut Store, playlist_id: u128, song_id: u128) -> (r:
        Result<(), ServiceError>)
        ensures
            r == if next_position(old(store)@.playlist_songs, playlist_id) <= i32::MAX {
                Ok::<(), ServiceError>(())
            } else {
                Err(ServiceError::StorageError)
            },
            exists|now: i64|
                final(store)@ == #[trigger] with_membership(
                    old(store)@,
                    playlist_id,
                    song_id,
                    now,
                ),
    {
        let now = current_time();
        PlaylistService::add_song_at(store, playlist_id, song_id, now)
    }
}

} // verus!
