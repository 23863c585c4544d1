//! What holds of the services whatever the store and the arguments.

use crate::error::ServiceError;
use crate::models::{PlaylistSong, PlaylistView, SongView, UserView};
use crate::order::{
    lemma_sort_by_of_sorted, lemma_sort_by_permutes, lemma_sort_by_sorted, sorted_by,
};
use crate::services::{credentials_check, registered, registration_error};
use crate::store::{
    by_position, email_is, emails_unique, has_email, has_playlist_id, has_song_id,
    highest_position, in_playlist, lemma_first_where_found, lemma_first_where_none,
    lemma_user_by_email, matches_query, next_position, playlist_id_is, playlist_recency,
    playlist_with_songs, playlists_of_owner, playlists_owned, rows_in_order, rows_of, song_by_id,
    song_id_is, song_matches, song_named, song_recency, songs_joined, songs_matching,
    songs_newest_first, songs_of_playlist, user_by_email, user_ids_unique, with_membership,
    with_playlist, with_song, with_user, StoreView,
};
use crate::utils::bcrypt_outcome;
use vstd::prelude::*;

verus! {

// ---------------------------------------------------------------------------
// Accounts
// ---------------------------------------------------------------------------

/// An email that a user has already cannot be registered again: whatever
/// identifier would be given to the new account, the refusal is
/// `DuplicateEmail`.
pub proof fn lemma_taken_email_is_refused(store: StoreView, id: u128, email: Seq<char>)
    requires
        has_email(store.users, email),
    ensures
        registration_error(store, id, email) == Some(ServiceError::DuplicateEmail),
{
}

/// A wrong password for a known email and any password for an unknown email
/// are refused alike: with the same kind of error and the same message.
pub proof fn lemma_login_refusals_alike(
    users: Seq<UserView>,
    known_email: Seq<char>,
    wrong_password: Seq<char>,
    unknown_email: Seq<char>,
    any_password: Seq<char>,
)
    requires
        user_by_email(users, known_email) matches Some(user) && bcrypt_outcome(
            wrong_password,
            user.password_hash,
        ) == Some(false),
        !has_email(users, unknown_email),
    ensures
        credentials_check(users, known_email, wrong_password) == Err::<UserView, ServiceError>(
            ServiceError::InvalidCredentials,
        ),
        credentials_check(users, unknown_email, any_password) == credentials_check(
            users,
            known_email,
            wrong_password,
        ),
        credentials_check(users, unknown_email, any_password)->Err_0.message_text()
            == credentials_check(users, known_email, wrong_password)->Err_0.message_text(),
{
    lemma_user_by_email(users, unknown_email);
}

/// A user that has just been registered is let in with the same email and
/// password.
pub proof fn lemma_registered_user_can_log_in(
    before: StoreView,
    after: StoreView,
    user: UserView,
    username: Seq<char>,
    email: Seq<char>,
    password: Seq<char>,
)
    requires
        registered(before, after, user, username, email, password),
    ensures
        credentials_check(after.users, email, password) == Ok::<UserView, ServiceError>(user),
{
    let last = before.users.len() as int;
    assert(after.users[last] == user);
    assert forall|j: int| 0 <= j < last implies !email_is(email)(#[trigger] after.users[j]) by {
        assert(after.users[j] == before.users[j]);
    }
    lemma_first_where_found(after.users, email_is(email), last);
}

/// Adding an account whose email and identifier are free keeps emails and
/// identifiers unique.
pub proof fn lemma_accounts_stay_unique(store: StoreView, user: UserView)
    requires
        emails_unique(store.users),
        user_ids_unique(store.users),
        registration_error(store, user.id, user.email) is None,
    ensures
        emails_unique(with_user(store, user).users),
        user_ids_unique(with_user(store, user).users),
{
    let after = store.users.push(user);
    assert forall|i: int, j: int| 0 <= i < j < after.len() implies (#[trigger] after[i]).email != (
    #[trigger] after[j]).email by {
        if j == store.users.len() {
            assert(after[i] == store.users[i]);
        } else {
            assert(after[i] == store.users[i] && after[j] == store.users[j]);
        }
    }
    assert forall|i: int, j: int| 0 <= i < j < after.len() implies (#[trigger] after[i]).id != (
    #[trigger] after[j]).id by {
        if j == store.users.len() {
            assert(after[i] == store.users[i]);
        } else {
            assert(after[i] == store.users[i] && after[j] == store.users[j]);
        }
    }
}

// ---------------------------------------------------------------------------
// Catalog
// ---------------------------------------------------------------------------

/// The listing of all songs holds every song exactly as often as the
/// catalog does, and no song comes before a newer one.
pub proof fn lemma_songs_newest_first(songs: Seq<SongView>)
    ensures
        songs_newest_first(songs).len() == songs.len(),
        songs_newest_first(songs).to_multiset() == songs.to_multiset(),
        forall|i: int, j: int|
            0 <= i <= j < songs.len() ==> (#[trigger] songs_newest_first(songs)[i]).created_at >= (
            #[trigger] songs_newest_first(songs)[j]).created_at,
{
    lemma_sort_by_permutes(songs, song_recency());
    lemma_sort_by_sorted(songs, song_recency());
    let listed = songs_newest_first(songs);
    assert forall|i: int, j: int| 0 <= i <= j < songs.len() implies (#[trigger] listed[i]).created_at
        >= (#[trigger] listed[j]).created_at by {
        assert(song_recency()(listed[i]) <= song_recency()(listed[j]));
    }
}

/// A search returns only songs that match the query, and every song of the
/// catalog that matches it.
pub proof fn lemma_search_exact(songs: Seq<SongView>, query: Seq<char>)
    ensures
        forall|i: int|
            0 <= i < songs_matching(songs, query).len() ==> song_matches(
                #[trigger] songs_matching(songs, query)[i],
                query,
            ) && songs.contains(songs_matching(songs, query)[i]),
        forall|i: int|
            0 <= i < songs.len() && song_matches(#[trigger] songs[i], query) ==> songs_matching(
                songs,
                query,
            ).contains(songs[i]),
{
    let found = songs_matching(songs, query);
    let test = matches_query(query);
    assert forall|i: int| 0 <= i < found.len() implies song_matches(#[trigger] found[i], query)
        && songs.contains(found[i]) by {
        songs.lemma_filter_pred(test, i);
        assert(found.contains(found[i]));
        songs.lemma_filter_contains_rev(test, found[i]);
    }
    assert forall|i: int| 0 <= i < songs.len() && song_matches(
        #[trigger] songs[i],
        query,
    ) implies found.contains(songs[i]) by {
        assert(test(songs[i]));
        songs.lemma_filter_contains(test, i);
    }
}

// ---------------------------------------------------------------------------
// Playlists
// ---------------------------------------------------------------------------

/// The listing of an owner's playlists holds exactly the playlists that the
/// owner owns, and none comes before a newer one.
pub proof fn lemma_playlists_of_owner(playlists: Seq<PlaylistView>, owner: u128)
    ensures
        playlists_of_owner(playlists, owner).to_multiset() == playlists_owned(
            playlists,
            owner,
        ).to_multiset(),
        forall|i: int, j: int|
            0 <= i <= j < playlists_of_owner(playlists, owner).len() ==> (
            #[trigger] playlists_of_owner(playlists, owner)[i]).created_at >= (
            #[trigger] playlists_of_owner(playlists, owner)[j]).created_at,
{
    let owned = playlists_owned(playlists, owner);
    lemma_sort_by_permutes(owned, playlist_recency());
    lemma_sort_by_sorted(owned, playlist_recency());
    let listed = playlists_of_owner(playlists, owner);
    assert forall|i: int, j: int| 0 <= i <= j < listed.len() implies (#[trigger] listed[i]).created_at
        >= (#[trigger] listed[j]).created_at by {
        assert(playlist_recency()(listed[i]) <= playlist_recency()(listed[j]));
    }
}

/// The store after the songs of `songs` were put at the end of one playlist,
/// one after the other, the `i`-th at the instant `instants[i]`.
pub open spec fn after_adding(
    store: StoreView,
    playlist_id: u128,
    songs: Seq<u128>,
    instants: Seq<i64>,
) -> StoreView
    decreases songs.len(),
{
    if songs.len() == 0 {
        store
    } else {
        with_membership(
            after_adding(store, playlist_id, songs.drop_last(), instants.drop_last()),
            playlist_id,
            songs.last(),
            instants.last(),
        )
    }
}

/// The membership rows that `songs` make in a playlist that was empty: the
/// `i`-th song at position `i + 1`.
pub open spec fn rows_from_one(playlist_id: u128, songs: Seq<u128>, instants: Seq<i64>) -> Seq<
    PlaylistSong,
> {
    Seq::new(
        songs.len(),
        |i: int|
            PlaylistSong {
                playlist_id,
                song_id: songs[i],
                added_at: instants[i],
                position: (i + 1) as i32,
            },
    )
}

/// The highest position among rows numbered from one is their count.
pub proof fn lemma_highest_of_rows_from_one(
    playlist_id: u128,
    songs: Seq<u128>,
    instants: Seq<i64>,
)
    requires
        songs.len() == instants.len(),
        songs.len() <= i32::MAX,
    ensures
        highest_position(rows_from_one(playlist_id, songs, instants)) == if songs.len() == 0 {
            None::<int>
        } else {
            Some(songs.len() as int)
        },
    decreases songs.len(),
{
    if songs.len() > 0 {
        lemma_highest_of_rows_from_one(playlist_id, songs.drop_last(), instants.drop_last());
        let rows = rows_from_one(playlist_id, songs, instants);
        assert(rows.drop_last() =~= rows_from_one(
            playlist_id,
            songs.drop_last(),
            instants.drop_last(),
        ));
    }
}

/// Adding songs to a playlist changes the membership table only, and the
/// rows of the playlist, which had none, are then the songs in the order of
/// the calls, at the positions 1, 2, 3 and so on.
pub proof fn lemma_rows_after_adding(
    store: StoreView,
    playlist_id: u128,
    songs: Seq<u128>,
    instants: Seq<i64>,
)
    requires
        rows_of(store.playlist_songs, playlist_id).len() == 0,
        songs.len() == instants.len(),
        songs.len() <= i32::MAX,
    ensures
        after_adding(store, playlist_id, songs, instants).users == store.users,
        after_adding(store, playlist_id, songs, instants).songs == store.songs,
        after_adding(store, playlist_id, songs, instants).playlists == store.playlists,
        rows_of(after_adding(store, playlist_id, songs, instants).playlist_songs, playlist_id)
            == rows_from_one(playlist_id, songs, instants),
    decreases songs.len(),
{
    if songs.len() == 0 {
        assert(rows_of(store.playlist_songs, playlist_id) =~= rows_from_one(
            playlist_id,
            songs,
            instants,
        ));
    } else {
        let front = songs.drop_last();
        let front_instants = instants.drop_last();
        lemma_rows_after_adding(store, playlist_id, front, front_instants);
        lemma_highest_of_rows_from_one(playlist_id, front, front_instants);
        let before = after_adding(store, playlist_id, front, front_instants);
        assert(next_position(before.playlist_songs, playlist_id) == songs.len());
        let row = PlaylistSong {
            playlist_id,
            song_id: songs.last(),
            added_at: instants.last(),
            position: songs.len() as i32,
        };
        before.playlist_songs.lemma_filter_push(row, in_playlist(playlist_id));
        assert(rows_from_one(playlist_id, front, front_instants).push(row) =~= rows_from_one(
            playlist_id,
            songs,
            instants,
        ));
    }
}

/// For any run of songs added to a playlist that had none, the rows of the
/// playlist in playlist order are as many as the calls, in the order of the
/// calls, with the positions 1 up to their count.
pub proof fn lemma_added_songs_keep_call_order(
    store: StoreView,
    playlist_id: u128,
    songs: Seq<u128>,
    instants: Seq<i64>,
)
    requires
        rows_of(store.playlist_songs, playlist_id).len() == 0,
        songs.len() == instants.len(),
        songs.len() <= i32::MAX,
    ensures
        rows_in_order(after_adding(store, playlist_id, songs, instants).playlist_songs, playlist_id)
            == rows_from_one(playlist_id, songs, instants),
        rows_in_order(
            after_adding(store, playlist_id, songs, instants).playlist_songs,
            playlist_id,
        ).len() == songs.len(),
        forall|i: int|
            0 <= i < songs.len() ==> (#[trigger] rows_in_order(
                after_adding(store, playlist_id, songs, instants).playlist_songs,
                playlist_id,
            )[i]).position == i + 1 && rows_in_order(
                after_adding(store, playlist_id, songs, instants).playlist_songs,
                playlist_id,
            )[i].song_id == songs[i],
{
    lemma_rows_after_adding(store, playlist_id, songs, instants);
    let rows = rows_from_one(playlist_id, songs, instants);
    assert(sorted_by(rows, by_position()));
    lemma_sort_by_of_sorted(rows, by_position());
}

/// The songs that rows numbered from one name, where the catalog has each
/// of them.
pub proof fn lemma_join_of_rows_from_one(
    catalog: Seq<SongView>,
    playlist_id: u128,
    songs: Seq<u128>,
    instants: Seq<i64>,
)
    requires
        songs.len() == instants.len(),
        forall|i: int| 0 <= i < songs.len() ==> has_song_id(catalog, #[trigger] songs[i]),
    ensures
        songs_joined(rows_from_one(playlist_id, songs, instants), catalog) == Seq::new(
            songs.len(),
            |i: int| song_by_id(catalog, songs[i])->0,
        ),
        forall|i: int|
            0 <= i < songs.len() ==> (#[trigger] song_by_id(catalog, songs[i])) is Some
                && song_by_id(catalog, songs[i])->0.id == songs[i],
    decreases songs.len(),
{
    assert forall|i: int| 0 <= i < songs.len() implies (#[trigger] song_by_id(
        catalog,
        songs[i],
    )) is Some && song_by_id(catalog, songs[i])->0.id == songs[i] by {
        lemma_first_where_none(catalog, song_id_is(songs[i]));
        assert(has_song_id(catalog, songs[i]));
        let k = choose|k: int| 0 <= k < catalog.len() && (#[trigger] catalog[k]).id == songs[i];
        assert(song_id_is(songs[i])(catalog[k]));
    }
    let rows = rows_from_one(playlist_id, songs, instants);
    let expected = Seq::new(songs.len(), |i: int| song_by_id(catalog, songs[i])->0);
    if songs.len() == 0 {
        assert(songs_joined(rows, catalog) =~= expected);
    } else {
        let front = songs.drop_last();
        let front_instants = instants.drop_last();
        assert forall|i: int| 0 <= i < front.len() implies has_song_id(
            catalog,
            #[trigger] front[i],
        ) by {
            assert(front[i] == songs[i]);
        }
        lemma_join_of_rows_from_one(catalog, playlist_id, front, front_instants);
        assert(rows.drop_last() =~= rows_from_one(playlist_id, front, front_instants));
        assert(song_named(catalog)(rows.last()) == song_by_id(catalog, songs.last()));
        assert(song_by_id(catalog, songs[songs.len() - 1]) is Some);
        assert(songs_joined(rows, catalog) =~= expected);
    }
}

/// For any run of songs of the catalog added to an existing playlist that
/// had none, the playlist is then returned with exactly those songs, in the
/// order of the calls.
pub proof fn lemma_playlist_lists_added_songs(
    store: StoreView,
    playlist_id: u128,
    songs: Seq<u128>,
    instants: Seq<i64>,
)
    requires
        rows_of(store.playlist_songs, playlist_id).len() == 0,
        songs.len() == instants.len(),
        songs.len() <= i32::MAX,
        has_playlist_id(store.playlists, playlist_id),
        forall|i: int| 0 <= i < songs.len() ==> has_song_id(store.songs, #[trigger] songs[i]),
    ensures
        playlist_with_songs(
            after_adding(store, playlist_id, songs, instants),
            playlist_id,
        ) matches Some(found) && found.playlist.id == playlist_id && found.songs.len()
            == songs.len() && forall|i: int|
            0 <= i < songs.len() ==> (#[trigger] found.songs[i]).id == songs[i] && song_by_id(
                store.songs,
                songs[i],
            ) == Some(found.songs[i]),
{
    let after = after_adding(store, playlist_id, songs, instants);
    lemma_rows_after_adding(store, playlist_id, songs, instants);
    lemma_added_songs_keep_call_order(store, playlist_id, songs, instants);
    lemma_join_of_rows_from_one(store.songs, playlist_id, songs, instants);
    lemma_first_where_none(store.playlists, playlist_id_is(playlist_id));
    let k = choose|k: int|
        0 <= k < store.playlists.len() && (#[trigger] store.playlists[k]).id == playlist_id;
    assert(playlist_id_is(playlist_id)(store.playlists[k]));
    assert(songs_of_playlist(after, playlist_id) == songs_joined(
        rows_from_one(playlist_id, songs, instants),
        store.songs,
    ));
    let found = playlist_with_songs(after, playlist_id)->0;
    assert forall|i: int| 0 <= i < songs.len() implies (#[trigger] found.songs[i]).id == songs[i]
        && song_by_id(store.songs, songs[i]) == Some(found.songs[i]) by {
        assert(song_by_id(store.songs, songs[i]) is Some);
    }
}

/// The rows of a playlist in playlist order are the rows of the playlist,
/// each once, and their positions never go down.
pub proof fn lemma_rows_in_order(rows: Seq<PlaylistSong>, playlist_id: u128)
    ensures
        rows_in_order(rows, playlist_id).to_multiset() == rows_of(rows, playlist_id).to_multiset(),
        forall|i: int, j: int|
            0 <= i <= j < rows_in_order(rows, playlist_id).len() ==> (#[trigger] rows_in_order(
                rows,
                playlist_id,
            )[i]).position <= (#[trigger] rows_in_order(rows, playlist_id)[j]).position,
{
    let own = rows_of(rows, playlist_id);
    lemma_sort_by_permutes(own, by_position());
    lemma_sort_by_sorted(own, by_position());
    let listed = rows_in_order(rows, playlist_id);
    assert forall|i: int, j: int| 0 <= i <= j < listed.len() implies (#[trigger] listed[i]).position
        <= (#[trigger] listed[j]).position by {
        assert(by_position()(listed[i]) <= by_position()(listed[j]));
    }
}

/// Creating a playlist leaves every playlist's songs as they were.
pub proof fn lemma_new_playlist_keeps_rows(store: StoreView, playlist: PlaylistView, other: u128)
    ensures
        rows_in_order(with_playlist(store, playlist).playlist_songs, other) == rows_in_order(
            store.playlist_songs,
            other,
        ),
{
}

// ---------------------------------------------------------------------------
// What the services keep true of the store
// ---------------------------------------------------------------------------

/// A store without rows is well formed.
pub proof fn lemma_empty_store_well_formed(store: StoreView)
    requires
        store.users.len() == 0,
        store.songs.len() == 0,
        store.playlists.len() == 0,
        store.playlist_songs.len() == 0,
    ensures
        store.well_formed(),
{
    assert forall|playlist_id: u128, k: int|
        0 <= k < rows_of(store.playlist_songs, playlist_id).len() implies (#[trigger] rows_of(
        store.playlist_songs,
        playlist_id,
    )[k]).position == k + 1 by {
        store.playlist_songs.lemma_filter_len(in_playlist(playlist_id));
    }
}

/// Adding an account whose email and identifier are free keeps the store
/// well formed.
pub proof fn lemma_new_user_keeps_well_formed(store: StoreView, user: UserView)
    requires
        store.well_formed(),
        registration_error(store, user.id, user.email) is None,
    ensures
        with_user(store, user).well_formed(),
{
    lemma_accounts_stay_unique(store, user);
}

/// Adding a song whose identifier is free keeps the store well formed.
pub proof fn lemma_new_song_keeps_well_formed(store: StoreView, song: SongView)
    requires
        store.well_formed(),
        !has_song_id(store.songs, song.id),
    ensures
        with_song(store, song).well_formed(),
{
    let after = store.songs.push(song);
    assert forall|i: int, j: int| 0 <= i < j < after.len() implies (#[trigger] after[i]).id != (
    #[trigger] after[j]).id by {
        if j == store.songs.len() {
            assert(after[i] == store.songs[i]);
        } else {
            assert(after[i] == store.songs[i] && after[j] == store.songs[j]);
        }
    }
}

/// Adding a playlist whose identifier is free keeps the store well formed.
pub proof fn lemma_new_playlist_keeps_well_formed(store: StoreView, playlist: PlaylistView)
    requires
        store.well_formed(),
        !has_playlist_id(store.playlists, playlist.id),
    ensures
        with_playlist(store, playlist).well_formed(),
{
    let after = store.playlists.push(playlist);
    assert forall|i: int, j: int| 0 <= i < j < after.len() implies (#[trigger] after[i]).id != (
    #[trigger] after[j]).id by {
        if j == store.playlists.len() {
            assert(after[i] == store.playlists[i]);
        } else {
            assert(after[i] == store.playlists[i] && after[j] == store.playlists[j]);
        }
    }
}

/// Among rows whose positions count up from 1 the highest position is the
/// number of rows.
pub proof fn lemma_highest_of_dense(rows: Seq<PlaylistSong>)
    requires
        forall|k: int| 0 <= k < rows.len() ==> (#[trigger] rows[k]).position == k + 1,
    ensures
        highest_position(rows) == if rows.len() == 0 {
            None::<int>
        } else {
            Some(rows.len() as int)
        },
    decreases rows.len(),
{
    if rows.len() > 0 {
        let front = rows.drop_last();
        assert forall|k: int| 0 <= k < front.len() implies (#[trigger] front[k]).position == k
            + 1 by {
            assert(front[k] == rows[k]);
        }
        lemma_highest_of_dense(front);
        assert(rows.last() == rows[rows.len() - 1]);
    }
}

/// Putting a song at the end of a playlist keeps the store well formed: the
/// new row takes the position after the last, and no other playlist is
/// touched.
pub proof fn lemma_added_song_keeps_well_formed(
    store: StoreView,
    playlist_id: u128,
    song_id: u128,
    now: i64,
)
    requires
        store.well_formed(),
    ensures
        with_membership(store, playlist_id, song_id, now).well_formed(),
        next_position(store.playlist_songs, playlist_id) == rows_of(
            store.playlist_songs,
            playlist_id,
        ).len() + 1,
        forall|other: u128|
            other != playlist_id ==> #[trigger] rows_of(
                with_membership(store, playlist_id, song_id, now).playlist_songs,
                other,
            ) == rows_of(store.playlist_songs, other),
{
    let own = rows_of(store.playlist_songs, playlist_id);
    assert forall|k: int| 0 <= k < own.len() implies (#[trigger] own[k]).position == k + 1 by {
        assert(rows_of(store.playlist_songs, playlist_id)[k].position == k + 1);
    }
    lemma_highest_of_dense(own);
    let position = next_position(store.playlist_songs, playlist_id);
    let after = with_membership(store, playlist_id, song_id, now);
    if position <= i32::MAX {
        let row = PlaylistSong { playlist_id, song_id, added_at: now, position: position as i32 };
        assert forall|other: u128, k: int|
            0 <= k < rows_of(after.playlist_songs, other).len() implies (#[trigger] rows_of(
            after.playlist_songs,
            other,
        )[k]).position == k + 1 by {
            store.playlist_songs.lemma_filter_push(row, in_playlist(other));
            if k < rows_of(store.playlist_songs, other).len() {
                assert(rows_of(store.playlist_songs, other)[k].position == k + 1);
            }
        }
        assert forall|other: u128| other != playlist_id implies #[trigger] rows_of(
            after.playlist_songs,
            other,
        ) == rows_of(store.playlist_songs, other) by {
            store.playlist_songs.lemma_filter_push(row, in_playlist(other));
        }
    }
}

} // verus!
