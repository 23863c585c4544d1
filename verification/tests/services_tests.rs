use music_library::api::{auth_response, created_reply, current_user, found_reply, ok_reply};
use music_library::error::ServiceError;
use music_library::middleware::validate_jwt;
use music_library::models::{Playlist, PlaylistSong, Song, User};
use music_library::services::{AuthService, PlaylistService, SongService};
use music_library::store::Store;

const SECRET: &str = "a secret for tests";
// A cost-4 hash of the password "correctbatteryhorsestapler".
const KNOWN_HASH: &str = "$2b$04$EGdrhbKUv8Oc9vGiXX0HQOxSg445d458Muh7DAHskb6QbtCvdxcie";
const KNOWN_PASSWORD: &str = "correctbatteryhorsestapler";

fn song(id: u128, title: &str, artist: &str, album: &str, created_at: i64) -> Song {
    Song {
        id,
        title: title.to_string(),
        artist: artist.to_string(),
        album: album.to_string(),
        duration: 200,
        file_path: format!("songs/{}.mp3", id),
        cover_art: None,
        created_at,
    }
}

fn store_with_alice() -> Store {
    let mut store = Store::new();
    AuthService::add_user(
        &mut store,
        1,
        "alice",
        "alice@example.com",
        KNOWN_HASH.to_string(),
        1_000,
    )
    .unwrap();
    store
}

fn titles(songs: &[Song]) -> Vec<String> {
    songs.iter().map(|s| s.title.clone()).collect()
}

#[test]
fn new_store_is_empty() {
    let store = Store::new();
    assert!(store.users.is_empty());
    assert!(store.songs.is_empty());
    assert!(store.playlists.is_empty());
    assert!(store.playlist_songs.is_empty());
}

#[test]
fn register_adds_the_user_and_issues_a_token() {
    let mut store = Store::new();
    let (token, user) =
        AuthService::register(&mut store, SECRET, "alice", "alice@example.com", "pw-one").unwrap();
    assert_eq!(user.username, "alice");
    assert_eq!(user.email, "alice@example.com");
    assert_ne!(user.password_hash, "pw-one");
    assert_eq!(user.created_at, user.updated_at);
    assert_eq!(store.users.len(), 1);
    assert_eq!(store.users[0].id, user.id);
    assert_eq!(store.users[0].password_hash, user.password_hash);
    assert_eq!(validate_jwt(&token, SECRET), Ok(user.id));
}

#[test]
fn register_with_an_existing_email_fails_whatever_else_is_given() {
    let mut store = store_with_alice();
    let again = AuthService::register(&mut store, SECRET, "alice", "alice@example.com", "x");
    assert_eq!(again.unwrap_err(), ServiceError::DuplicateEmail);
    let other = AuthService::register(&mut store, SECRET, "bob", "alice@example.com", "other-pw");
    assert_eq!(other.unwrap_err(), ServiceError::DuplicateEmail);
    let empty = AuthService::register(&mut store, SECRET, "", "alice@example.com", "");
    assert_eq!(empty.unwrap_err(), ServiceError::DuplicateEmail);
    assert_eq!(store.users.len(), 1);
    assert_eq!(store.users[0].username, "alice");
}

#[test]
fn emails_are_compared_exactly() {
    let mut store = store_with_alice();
    let r = AuthService::add_user(&mut store, 2, "al", "Alice@example.com", "h".to_string(), 5);
    assert!(r.is_ok());
    assert_eq!(store.users.len(), 2);
}

#[test]
fn add_user_refuses_a_taken_identifier() {
    let mut store = store_with_alice();
    let r = AuthService::add_user(&mut store, 1, "bob", "bob@example.com", "h".to_string(), 5);
    assert_eq!(r.unwrap_err(), ServiceError::StorageError);
    assert_eq!(store.users.len(), 1);
    let r = AuthService::add_user(&mut store, 1, "bob", "alice@example.com", "h".to_string(), 5);
    assert_eq!(r.unwrap_err(), ServiceError::DuplicateEmail);
}

#[test]
fn add_user_stores_what_it_is_given() {
    let mut store = Store::new();
    let user =
        AuthService::add_user(&mut store, 9, "carol", "c@example.com", "hash".to_string(), 77)
            .unwrap();
    assert_eq!(user.id, 9);
    assert_eq!(user.username, "carol");
    assert_eq!(user.email, "c@example.com");
    assert_eq!(user.password_hash, "hash");
    assert_eq!(user.created_at, 77);
    assert_eq!(user.updated_at, 77);
    assert_eq!(store.users.len(), 1);
    assert_eq!(store.users[0].email, "c@example.com");
}

#[test]
fn login_failures_are_the_same_for_unknown_email_and_wrong_password() {
    let store = store_with_alice();
    let wrong = AuthService::login(&store, SECRET, "alice@example.com", "wrong").unwrap_err();
    let unknown = AuthService::login(&store, SECRET, "nobody@example.com", "x").unwrap_err();
    assert_eq!(wrong, ServiceError::InvalidCredentials);
    assert_eq!(unknown, wrong);
    assert_eq!(unknown.message(), wrong.message());
    assert_eq!(wrong.message(), "Invalid credentials");
}

#[test]
fn login_with_wrong_then_correct_password() {
    let store = store_with_alice();
    let wrong = AuthService::login(&store, SECRET, "alice@example.com", "wrong");
    assert_eq!(wrong.unwrap_err(), ServiceError::InvalidCredentials);
    let (token, user) =
        AuthService::login(&store, SECRET, "alice@example.com", KNOWN_PASSWORD).unwrap();
    assert_eq!(user.id, 1);
    assert_eq!(validate_jwt(&token, SECRET), Ok(1));
    let response = auth_response(Ok((token.clone(), user))).unwrap();
    assert_eq!(response.token, token);
    assert_eq!(response.user.id, 1);
    assert_eq!(response.user.username, "alice");
    assert_eq!(response.user.email, "alice@example.com");
    assert_eq!(response.user.created_at, 1_000);
    let shown = format!("{:?}", response.user);
    assert!(!shown.contains("password_hash"));
    assert!(!shown.contains(KNOWN_HASH));
}

#[test]
fn login_after_register_succeeds_with_the_same_password() {
    let mut store = Store::new();
    let (_, registered) =
        AuthService::register(&mut store, SECRET, "dave", "dave@example.com", "s3cret").unwrap();
    let (_, user) = AuthService::login(&store, SECRET, "dave@example.com", "s3cret").unwrap();
    assert_eq!(user.id, registered.id);
}

#[test]
fn login_with_an_unreadable_stored_hash_is_a_verification_error() {
    let mut store = Store::new();
    AuthService::add_user(&mut store, 3, "eve", "eve@example.com", "not a hash".to_string(), 0)
        .unwrap();
    let r = AuthService::login(&store, SECRET, "eve@example.com", "anything");
    assert_eq!(r.unwrap_err(), ServiceError::VerificationError);
    let r = AuthService::check_credentials(&store, "eve@example.com", "anything");
    assert_eq!(r.unwrap_err(), ServiceError::VerificationError);
}

#[test]
fn login_at_an_instant_that_cannot_be_signed_is_a_signing_error() {
    let store = store_with_alice();
    let r = AuthService::login_at(&store, SECRET, "alice@example.com", KNOWN_PASSWORD, i64::MIN);
    assert_eq!(r.unwrap_err(), ServiceError::SigningError);
    let r = AuthService::login_at(&store, SECRET, "alice@example.com", "wrong", i64::MIN);
    assert_eq!(r.unwrap_err(), ServiceError::InvalidCredentials);
}

#[test]
fn check_credentials_returns_the_user() {
    let store = store_with_alice();
    let user = AuthService::check_credentials(&store, "alice@example.com", KNOWN_PASSWORD).unwrap();
    assert_eq!(user.id, 1);
    assert_eq!(user.password_hash, KNOWN_HASH);
}

#[test]
fn current_user_shows_the_public_part() {
    let store = store_with_alice();
    let shown = current_user(&store, 1).unwrap();
    assert_eq!(shown.id, 1);
    assert_eq!(shown.username, "alice");
    assert_eq!(shown.email, "alice@example.com");
    assert_eq!(shown.created_at, 1_000);
    assert!(current_user(&store, 2).is_none());
}

#[test]
fn songs_are_listed_newest_first() {
    let mut store = Store::new();
    store.insert_song(song(1, "Old", "a", "x", 10)).unwrap();
    store.insert_song(song(2, "New", "a", "x", 30)).unwrap();
    store.insert_song(song(3, "Mid", "a", "x", 20)).unwrap();
    store.insert_song(song(4, "Mid too", "a", "x", 20)).unwrap();
    let listed = SongService::get_all_songs(&store).unwrap();
    assert_eq!(titles(&listed), vec!["New", "Mid", "Mid too", "Old"]);
    assert_eq!(SongService::get_all_songs(&Store::new()).unwrap().len(), 0);
}

#[test]
fn songs_are_listed_newest_first_with_extreme_instants() {
    let mut store = Store::new();
    store.insert_song(song(1, "first", "a", "x", i64::MIN)).unwrap();
    store.insert_song(song(2, "last", "a", "x", i64::MAX)).unwrap();
    store.insert_song(song(3, "zero", "a", "x", 0)).unwrap();
    let listed = SongService::get_all_songs(&store).unwrap();
    assert_eq!(titles(&listed), vec!["last", "zero", "first"]);
}

#[test]
fn insert_song_refuses_a_taken_identifier() {
    let mut store = Store::new();
    store.insert_song(song(1, "One", "a", "x", 10)).unwrap();
    assert_eq!(store.insert_song(song(1, "Again", "a", "x", 11)), Err(ServiceError::StorageError));
    assert_eq!(store.songs.len(), 1);
    assert_eq!(store.songs[0].title, "One");
}

#[test]
fn get_song_by_id_finds_or_not() {
    let mut store = Store::new();
    store.insert_song(song(1, "One", "a", "x", 10)).unwrap();
    store.insert_song(song(2, "Two", "b", "y", 20)).unwrap();
    let found = SongService::get_song_by_id(&store, 2).unwrap().unwrap();
    assert_eq!(found.title, "Two");
    assert_eq!(found.artist, "b");
    assert_eq!(found.created_at, 20);
    assert!(SongService::get_song_by_id(&store, 3).unwrap().is_none());
}

#[test]
fn search_rejects_the_empty_query() {
    let mut store = Store::new();
    store.insert_song(song(1, "One", "a", "x", 10)).unwrap();
    assert_eq!(SongService::search_songs(&store, "").unwrap_err(), ServiceError::InvalidQuery);
}

#[test]
fn search_matches_title_artist_or_album_ignoring_case() {
    let mut store = Store::new();
    store.insert_song(song(1, "ABC of love", "nobody", "none", 10)).unwrap();
    store.insert_song(song(2, "Other", "The Abcs", "none", 20)).unwrap();
    store.insert_song(song(3, "Third", "nobody", "xxabcxx", 5)).unwrap();
    store.insert_song(song(4, "ab c", "a bc", "acb", 30)).unwrap();
    let found = SongService::search_songs(&store, "abc").unwrap();
    assert_eq!(titles(&found), vec!["ABC of love", "Other", "Third"]);
    let found = SongService::search_songs(&store, "ABC").unwrap();
    assert_eq!(found.len(), 3);
    let found = SongService::search_songs(&store, "zzz").unwrap();
    assert!(found.is_empty());
    let found = SongService::search_songs(&store, "o").unwrap();
    assert_eq!(titles(&found), vec!["ABC of love", "Other", "Third"]);
    let found = SongService::search_songs(&store, "%").unwrap();
    assert!(found.is_empty());
}

#[test]
fn create_playlist_sets_owner_and_instants() {
    let mut store = Store::new();
    let made = PlaylistService::create_playlist(&mut store, 1, "Road Trip", Some("songs to drive to"))
        .unwrap();
    assert_eq!(made.name, "Road Trip");
    assert_eq!(made.user_id, 1);
    assert_eq!(made.description.as_deref(), Some("songs to drive to"));
    assert_eq!(made.cover_image, None);
    assert_eq!(made.created_at, made.updated_at);
    assert_eq!(store.playlists.len(), 1);
    assert_eq!(store.playlists[0].id, made.id);
    let again = PlaylistService::create_playlist(&mut store, 1, "Road Trip", None).unwrap();
    assert_ne!(again.id, made.id);
    assert_eq!(again.description, None);
    assert_eq!(store.playlists.len(), 2);
}

#[test]
fn add_playlist_refuses_a_taken_identifier() {
    let mut store = Store::new();
    let made = PlaylistService::add_playlist(&mut store, 5, 1, "A", None, 10).unwrap();
    assert_eq!(made.id, 5);
    assert_eq!(made.created_at, 10);
    assert_eq!(made.updated_at, 10);
    let r = PlaylistService::add_playlist(&mut store, 5, 2, "B", None, 11);
    assert_eq!(r.unwrap_err(), ServiceError::StorageError);
    assert_eq!(store.playlists.len(), 1);
}

#[test]
fn playlists_of_a_user_are_listed_newest_first() {
    let mut store = Store::new();
    PlaylistService::add_playlist(&mut store, 1, 10, "old", None, 100).unwrap();
    PlaylistService::add_playlist(&mut store, 2, 20, "theirs", None, 150).unwrap();
    PlaylistService::add_playlist(&mut store, 3, 10, "new", None, 300).unwrap();
    PlaylistService::add_playlist(&mut store, 4, 10, "mid", None, 200).unwrap();
    let listed = PlaylistService::get_user_playlists(&store, 10).unwrap();
    let names: Vec<&str> = listed.iter().map(|p| p.name.as_str()).collect();
    assert_eq!(names, vec!["new", "mid", "old"]);
    assert_eq!(PlaylistService::get_user_playlists(&store, 20).unwrap().len(), 1);
    assert!(PlaylistService::get_user_playlists(&store, 30).unwrap().is_empty());
}

#[test]
fn road_trip_scenario() {
    let mut store = Store::new();
    let (_, alice) =
        AuthService::register(&mut store, SECRET, "alice", "alice@example.com", "pw").unwrap();
    store.insert_song(song(101, "S1", "a", "x", 1)).unwrap();
    store.insert_song(song(102, "S2", "a", "x", 2)).unwrap();
    let playlist = PlaylistService::create_playlist(&mut store, alice.id, "Road Trip", None).unwrap();
    PlaylistService::add_song_to_playlist(&mut store, playlist.id, 101).unwrap();
    PlaylistService::add_song_to_playlist(&mut store, playlist.id, 102).unwrap();
    let found = PlaylistService::get_playlist_with_songs(&store, playlist.id).unwrap().unwrap();
    assert_eq!(found.id, playlist.id);
    assert_eq!(found.name, "Road Trip");
    assert_eq!(found.user_id, alice.id);
    assert_eq!(titles(&found.songs), vec!["S1", "S2"]);
    let rows = store.rows_in_playlist_order(playlist.id);
    let positions: Vec<i32> = rows.iter().map(|r| r.position).collect();
    assert_eq!(positions, vec![1, 2]);
    let ids: Vec<u128> = rows.iter().map(|r| r.song_id).collect();
    assert_eq!(ids, vec![101, 102]);
}

#[test]
fn added_songs_get_positions_one_to_n_in_call_order() {
    let mut store = Store::new();
    let order = [5u128, 3, 9, 1, 7, 3, 5];
    for id in [1u128, 3, 5, 7, 9] {
        store.insert_song(song(id, &format!("song {}", id), "a", "x", id as i64)).unwrap();
    }
    PlaylistService::add_playlist(&mut store, 40, 1, "mine", None, 0).unwrap();
    PlaylistService::add_playlist(&mut store, 41, 1, "other", None, 0).unwrap();
    for (i, id) in order.iter().enumerate() {
        PlaylistService::add_song_at(&mut store, 40, *id, 1_000 - i as i64).unwrap();
        PlaylistService::add_song_at(&mut store, 41, 1, 0).unwrap();
    }
    let rows = store.rows_in_playlist_order(40);
    assert_eq!(rows.len(), order.len());
    for (i, row) in rows.iter().enumerate() {
        assert_eq!(row.position, i as i32 + 1);
        assert_eq!(row.song_id, order[i]);
        assert_eq!(row.playlist_id, 40);
        assert_eq!(row.added_at, 1_000 - i as i64);
    }
    let found = PlaylistService::get_playlist_with_songs(&store, 40).unwrap().unwrap();
    let ids: Vec<u128> = found.songs.iter().map(|s| s.id).collect();
    assert_eq!(ids, order.to_vec());
    assert_eq!(store.rows_in_playlist_order(41).len(), order.len());
}

#[test]
fn add_song_checks_neither_playlist_nor_song() {
    let mut store = Store::new();
    assert_eq!(PlaylistService::add_song_to_playlist(&mut store, 77, 88), Ok(()));
    assert_eq!(PlaylistService::add_song_to_playlist(&mut store, 77, 88), Ok(()));
    assert_eq!(store.playlist_songs.len(), 2);
    assert_eq!(store.playlist_songs[0].position, 1);
    assert_eq!(store.playlist_songs[1].position, 2);
    assert!(PlaylistService::get_playlist_with_songs(&store, 77).unwrap().is_none());
    PlaylistService::add_playlist(&mut store, 77, 1, "late", None, 0).unwrap();
    let found = PlaylistService::get_playlist_with_songs(&store, 77).unwrap().unwrap();
    assert!(found.songs.is_empty());
}

#[test]
fn next_position_follows_the_highest_position() {
    let mut store = Store::new();
    assert_eq!(store.next_position_in(1), Some(1));
    store.playlist_songs.push(PlaylistSong { playlist_id: 1, song_id: 5, added_at: 0, position: 10 });
    store.playlist_songs.push(PlaylistSong { playlist_id: 1, song_id: 6, added_at: 0, position: 4 });
    store.playlist_songs.push(PlaylistSong { playlist_id: 2, song_id: 6, added_at: 0, position: 40 });
    assert_eq!(store.next_position_in(1), Some(11));
    assert_eq!(store.next_position_in(2), Some(41));
    assert_eq!(store.next_position_in(3), Some(1));
    PlaylistService::add_song_at(&mut store, 1, 7, 0).unwrap();
    assert_eq!(store.playlist_songs[3].position, 11);
    let rows = store.rows_in_playlist_order(1);
    let positions: Vec<i32> = rows.iter().map(|r| r.position).collect();
    assert_eq!(positions, vec![4, 10, 11]);
}

#[test]
fn next_position_of_negative_positions() {
    let mut store = Store::new();
    store.playlist_songs.push(PlaylistSong { playlist_id: 1, song_id: 5, added_at: 0, position: -5 });
    assert_eq!(store.next_position_in(1), Some(-4));
}

#[test]
fn a_position_beyond_the_last_is_a_storage_error() {
    let mut store = Store::new();
    store.playlist_songs.push(PlaylistSong {
        playlist_id: 1,
        song_id: 5,
        added_at: 0,
        position: i32::MAX,
    });
    assert_eq!(store.next_position_in(1), None);
    let r = PlaylistService::add_song_at(&mut store, 1, 6, 0);
    assert_eq!(r, Err(ServiceError::StorageError));
    assert_eq!(store.playlist_songs.len(), 1);
    assert_eq!(PlaylistService::add_song_at(&mut store, 2, 6, 0), Ok(()));
}

#[test]
fn playlist_songs_follow_position_and_skip_missing_songs() {
    let mut store = Store::new();
    store.insert_song(song(1, "one", "a", "x", 0)).unwrap();
    store.insert_song(song(2, "two", "a", "x", 0)).unwrap();
    PlaylistService::add_playlist(&mut store, 9, 1, "p", None, 0).unwrap();
    store.playlist_songs.push(PlaylistSong { playlist_id: 9, song_id: 2, added_at: 0, position: 3 });
    store.playlist_songs.push(PlaylistSong { playlist_id: 9, song_id: 404, added_at: 0, position: 2 });
    store.playlist_songs.push(PlaylistSong { playlist_id: 9, song_id: 1, added_at: 0, position: 1 });
    store.playlist_songs.push(PlaylistSong { playlist_id: 9, song_id: 2, added_at: 0, position: 1 });
    let found = PlaylistService::get_playlist_with_songs(&store, 9).unwrap().unwrap();
    assert_eq!(titles(&found.songs), vec!["one", "two", "two"]);
}

#[test]
fn replies_carry_status_and_body() {
    let made: Result<u8, ServiceError> = Ok(5);
    let reply = created_reply(made);
    assert_eq!(reply.status, 201);
    assert_eq!(reply.body, Ok(5));
    let reply = ok_reply::<u8>(Ok(6));
    assert_eq!(reply.status, 200);
    assert_eq!(reply.body, Ok(6));
    let reply = found_reply::<u8>(Ok(Some(7)), "Song not found");
    assert_eq!(reply.status, 200);
    assert_eq!(reply.body, Ok(7));
    let reply = found_reply::<u8>(Ok(None), "Song not found");
    assert_eq!(reply.status, 404);
    assert_eq!(reply.body, Err("Song not found".to_string()));
    let reply = found_reply::<u8>(Err(ServiceError::StorageError), "Song not found");
    assert_eq!(reply.status, 500);
    assert_eq!(reply.body, Err("Database error".to_string()));
}

#[test]
fn unused_types_can_be_built() {
    let user = User {
        id: 1,
        username: "u".to_string(),
        email: "e".to_string(),
        password_hash: "h".to_string(),
        created_at: 0,
        updated_at: 0,
    };
    let copy = user.clone();
    assert_eq!(copy.email, "e");
    let playlist = Playlist {
        id: 1,
        name: "n".to_string(),
        user_id: 2,
        description: Some("d".to_string()),
        cover_image: None,
        created_at: 3,
        updated_at: 4,
    };
    let copy = playlist.clone();
    assert_eq!(copy.description.as_deref(), Some("d"));
    assert_eq!(copy.updated_at, 4);
    let s = song(1, "t", "a", "b", 9).clone();
    assert_eq!(s.file_path, "songs/1.mp3");
}
