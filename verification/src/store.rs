//! The tables of the music library and the queries that the services run on
//! them.
//!
//! A store holds four tables, each in the order in which its rows were
//! inserted. The spec functions of this module say what each query returns;
//! the methods of `Store` compute it.

use crate::error::ServiceError;
use crate::models::{
    song_views, user_views, playlist_views, Playlist, PlaylistSong, PlaylistView,
    PlaylistWithSongs, PlaylistWithSongsView, Song, SongView, User, UserView,
};
use crate::order::{
    arranged, as_positions, lemma_arranged_sorts, positions, rank, rank_key, sort_by,
};
use crate::text::{chars_of, contains_ignoring_case, find_ignoring_case, same_text};
use vstd::prelude::*;
use vstd::seq_lib::*;

verus! {

/// The four tables.
pub struct Store {
    pub users: Vec<User>,
    pub songs: Vec<Song>,
    pub playlists: Vec<Playlist>,
    pub playlist_songs: Vec<PlaylistSong>,
}

pub struct StoreView {
    pub users: Seq<UserView>,
    pub songs: Seq<SongView>,
    pub playlists: Seq<PlaylistView>,
    pub playlist_songs: Seq<PlaylistSong>,
}

impl View for Store {
    type V = StoreView;

    open spec fn view(&self) -> StoreView {
        StoreView {
            users: user_views(self.users@),
            songs: song_views(self.songs@),
            playlists: playlist_views(self.playlists@),
            playlist_songs: self.playlist_songs@,
        }
    }
}

/// The first row of `s` that satisfies `pred`.
pub open spec fn first_where<T>(s: Seq<T>, pred: spec_fn(T) -> bool) -> Option<T>
    decreases s.len(),
{
    if s.len() == 0 {
        None
    } else if pred(s[0]) {
        Some(s[0])
    } else {
        first_where(s.drop_first(), pred)
    }
}

/// A row that satisfies `pred` behind rows that do not is the first that
/// does.
pub proof fn lemma_first_where_found<T>(s: Seq<T>, pred: spec_fn(T) -> bool, i: int)
    requires
        0 <= i < s.len(),
        pred(s[i]),
        forall|j: int| 0 <= j < i ==> !pred(#[trigger] s[j]),
    ensures
        first_where(s, pred) == Some(s[i]),
    decreases i,
{
    if i > 0 {
        let rest = s.drop_first();
        assert(!pred(s[0]));
        assert(rest[i - 1] == s[i]);
        assert forall|j: int| 0 <= j < i - 1 implies !pred(#[trigger] rest[j]) by {
            assert(rest[j] == s[j + 1]);
        }
        lemma_first_where_found(rest, pred, i - 1);
    }
}

/// Where no row satisfies `pred`, there is no first one; and the other way
/// round.
pub proof fn lemma_first_where_none<T>(s: Seq<T>, pred: spec_fn(T) -> bool)
    ensures
        first_where(s, pred) is None <==> forall|j: int| 0 <= j < s.len() ==> !pred(#[trigger] s[j]),
        first_where(s, pred) matches Some(row) ==> pred(row) && s.contains(row),
    decreases s.len(),
{
    if s.len() > 0 {
        let rest = s.drop_first();
        lemma_first_where_none(rest, pred);
        if pred(s[0]) {
            assert(s.contains(s[0]));
        } else {
            if first_where(rest, pred) is None {
                assert forall|j: int| 0 <= j < s.len() implies !pred(#[trigger] s[j]) by {
                    if j > 0 {
                        assert(rest[j - 1] == s[j]);
                    }
                }
            } else {
                let row = first_where(rest, pred)->0;
                let k = choose|k: int| 0 <= k < rest.len() && rest[k] == row;
                assert(s[k + 1] == row);
            }
        }
    }
}

// ---------------------------------------------------------------------------
// Users
// ---------------------------------------------------------------------------

/// The first user with the given email.
pub open spec fn user_by_email(users: Seq<UserView>, email: Seq<char>) -> Option<UserView> {
    first_where(users, email_is(email))
}

/// The test for a user with the given email.
pub open spec fn email_is(email: Seq<char>) -> spec_fn(UserView) -> bool {
    |u: UserView| u.email == email
}

/// The test for a user with the given identifier.
pub open spec fn user_id_is(id: u128) -> spec_fn(UserView) -> bool {
    |u: UserView| u.id == id
}

/// The first user with the given identifier.
pub open spec fn user_by_id(users: Seq<UserView>, id: u128) -> Option<UserView> {
    first_where(users, user_id_is(id))
}

/// Whether some user has the given email.
pub open spec fn has_email(users: Seq<UserView>, email: Seq<char>) -> bool {
    exists|i: int| 0 <= i < users.len() && (#[trigger] users[i]).email == email
}

/// Whether some user has the given identifier.
pub open spec fn has_user_id(users: Seq<UserView>, id: u128) -> bool {
    exists|i: int| 0 <= i < users.len() && (#[trigger] users[i]).id == id
}

/// Whether no two users share an email.
pub open spec fn emails_unique(users: Seq<UserView>) -> bool {
    forall|i: int, j: int|
        0 <= i < j < users.len() ==> (#[trigger] users[i]).email != (#[trigger] users[j]).email
}

/// Whether no two users share an identifier.
pub open spec fn user_ids_unique(users: Seq<UserView>) -> bool {
    forall|i: int, j: int|
        0 <= i < j < users.len() ==> (#[trigger] users[i]).id != (#[trigger] users[j]).id
}

/// `has_email` says when `user_by_email` finds a user.
pub proof fn lemma_user_by_email(users: Seq<UserView>, email: Seq<char>)
    ensures
        user_by_email(users, email) is Some <==> has_email(users, email),
        user_by_email(users, email) matches Some(u) ==> u.email == email && users.contains(u),
{
    lemma_first_where_none(users, email_is(email));
}

// ---------------------------------------------------------------------------
// Songs
// ---------------------------------------------------------------------------

/// The first song with the given identifier.
pub open spec fn song_by_id(songs: Seq<SongView>, id: u128) -> Option<SongView> {
    first_where(songs, song_id_is(id))
}

/// The test for a song with the given identifier.
pub open spec fn song_id_is(id: u128) -> spec_fn(SongView) -> bool {
    |s: SongView| s.id == id
}

/// The test for a song that matches `query`.
pub open spec fn matches_query(query: Seq<char>) -> spec_fn(SongView) -> bool {
    |s: SongView| song_matches(s, query)
}

/// Whether some song has the given identifier.
pub open spec fn has_song_id(songs: Seq<SongView>, id: u128) -> bool {
    exists|i: int| 0 <= i < songs.len() && (#[trigger] songs[i]).id == id
}

/// The key that lists songs newest first.
pub open spec fn song_recency() -> spec_fn(SongView) -> int {
    |s: SongView| -(s.created_at as int)
}

/// The songs, newest first; songs of the same instant in insertion order.
pub open spec fn songs_newest_first(songs: Seq<SongView>) -> Seq<SongView> {
    sort_by(songs, song_recency())
}

/// Whether `query` occurs in the title, the artist or the album of `song`,
/// the letters `A` to `Z` counting as `a` to `z`.
pub open spec fn song_matches(song: SongView, query: Seq<char>) -> bool {
    ||| contains_ignoring_case(song.title, query)
    ||| contains_ignoring_case(song.artist, query)
    ||| contains_ignoring_case(song.album, query)
}

/// The songs that match `query`, in insertion order.
pub open spec fn songs_matching(songs: Seq<SongView>, query: Seq<char>) -> Seq<SongView> {
    songs.filter(matches_query(query))
}

// ---------------------------------------------------------------------------
// Playlists
// ---------------------------------------------------------------------------

/// The first playlist with the given identifier.
pub open spec fn playlist_by_id(playlists: Seq<PlaylistView>, id: u128) -> Option<PlaylistView> {
    first_where(playlists, playlist_id_is(id))
}

/// The test for a playlist with the given identifier.
pub open spec fn playlist_id_is(id: u128) -> spec_fn(PlaylistView) -> bool {
    |p: PlaylistView| p.id == id
}

/// The test for a playlist that `owner` owns.
pub open spec fn owned_by(owner: u128) -> spec_fn(PlaylistView) -> bool {
    |p: PlaylistView| p.user_id == owner
}

/// Whether some playlist has the given identifier.
pub open spec fn has_playlist_id(playlists: Seq<PlaylistView>, id: u128) -> bool {
    exists|i: int| 0 <= i < playlists.len() && (#[trigger] playlists[i]).id == id
}

/// The playlists that `owner` owns, in insertion order.
pub open spec fn playlists_owned(playlists: Seq<PlaylistView>, owner: u128) -> Seq<PlaylistView> {
    playlists.filter(owned_by(owner))
}

/// The key that lists playlists newest first.
pub open spec fn playlist_recency() -> spec_fn(PlaylistView) -> int {
    |p: PlaylistView| -(p.created_at as int)
}

/// The playlists that `owner` owns, newest first.
pub open spec fn playlists_of_owner(playlists: Seq<PlaylistView>, owner: u128) -> Seq<
    PlaylistView,
> {
    sort_by(playlists_owned(playlists, owner), playlist_recency())
}

// ---------------------------------------------------------------------------
// Membership
// ---------------------------------------------------------------------------

/// The membership rows of one playlist, in insertion order.
pub open spec fn rows_of(rows: Seq<PlaylistSong>, playlist_id: u128) -> Seq<PlaylistSong> {
    rows.filter(in_playlist(playlist_id))
}

/// The test for a membership row of the given playlist.
pub open spec fn in_playlist(playlist_id: u128) -> spec_fn(PlaylistSong) -> bool {
    |m: PlaylistSong| m.playlist_id == playlist_id
}

/// The song that a membership row names, where the catalog has it.
pub open spec fn song_named(songs: Seq<SongView>) -> spec_fn(PlaylistSong) -> Option<SongView> {
    |m: PlaylistSong| song_by_id(songs, m.song_id)
}

/// The key that lists membership rows in playlist order.
pub open spec fn by_position() -> spec_fn(PlaylistSong) -> int {
    |m: PlaylistSong| m.position as int
}

/// The membership rows of one playlist in playlist order: ascending
/// position, rows of equal position in insertion order.
pub open spec fn rows_in_order(rows: Seq<PlaylistSong>, playlist_id: u128) -> Seq<PlaylistSong> {
    sort_by(rows_of(rows, playlist_id), by_position())
}

/// The highest position among `rows`, if there is any row.
pub open spec fn highest_position(rows: Seq<PlaylistSong>) -> Option<int>
    decreases rows.len(),
{
    if rows.len() == 0 {
        None
    } else {
        match highest_position(rows.drop_last()) {
            None => Some(rows.last().position as int),
            Some(m) => Some(
                if m >= rows.last().position {
                    m
                } else {
                    rows.last().position as int
                },
            ),
        }
    }
}

/// The position that the next song of a playlist gets: one more than the
/// highest position in the playlist, and 1 where the playlist has no song.
pub open spec fn next_position(rows: Seq<PlaylistSong>, playlist_id: u128) -> int {
    match highest_position(rows_of(rows, playlist_id)) {
        None => 1,
        Some(m) => m + 1,
    }
}

/// The songs that `members` name, in the order of `members`. A row whose
/// song is not in the catalog contributes nothing.
pub open spec fn songs_joined(members: Seq<PlaylistSong>, songs: Seq<SongView>) -> Seq<SongView> {
    members.filter_map(song_named(songs))
}

/// The songs of one playlist, in playlist order.
pub open spec fn songs_of_playlist(store: StoreView, playlist_id: u128) -> Seq<SongView> {
    songs_joined(rows_in_order(store.playlist_songs, playlist_id), store.songs)
}

/// A playlist's header together with its songs in playlist order, where the
/// playlist exists.
pub open spec fn playlist_with_songs(store: StoreView, playlist_id: u128) -> Option<
    PlaylistWithSongsView,
> {
    match playlist_by_id(store.playlists, playlist_id) {
        Some(p) => Some(
            PlaylistWithSongsView { playlist: p, songs: songs_of_playlist(store, playlist_id) },
        ),
        None => None,
    }
}

// ---------------------------------------------------------------------------
// Queries
// ---------------------------------------------------------------------------

/// The view of an optional user.
pub open spec fn user_option_view(u: Option<User>) -> Option<UserView> {
    match u {
        Some(x) => Some(x@),
        None => None,
    }
}

/// The view of an optional song.
pub open spec fn song_option_view(s: Option<Song>) -> Option<SongView> {
    match s {
        Some(x) => Some(x@),
        None => None,
    }
}

/// The view of an optional playlist.
pub open spec fn playlist_option_view(p: Option<Playlist>) -> Option<PlaylistView> {
    match p {
        Some(x) => Some(x@),
        None => None,
    }
}

/// The view of an optional playlist with its songs.
pub open spec fn playlist_with_songs_option_view(p: Option<PlaylistWithSongs>) -> Option<
    PlaylistWithSongsView,
> {
    match p {
        Some(x) => Some(x@),
        None => None,
    }
}

/// One more row of a table either joins the rows that pass a test or does
/// not.
pub proof fn lemma_filter_next<T>(s: Seq<T>, pred: spec_fn(T) -> bool, i: int)
    requires
        0 <= i < s.len(),
    ensures
        s.take(i + 1).filter(pred) == if pred(s[i]) {
            s.take(i).filter(pred).push(s[i])
        } else {
            s.take(i).filter(pred)
        },
{
    s.lemma_take_succ_push(i);
    s.take(i).lemma_filter_push(s[i], pred);
}

/// The songs of `songs`, newest first.
pub fn sort_songs_newest_first(songs: &Vec<Song>) -> (r: Vec<Song>)
    ensures
        song_views(r@) == songs_newest_first(song_views(songs@)),
{
    let mut keys: Vec<i64> = Vec::new();
    let mut i: usize = 0;
    while i < songs.len()
        invariant
            i <= songs@.len(),
            keys@.len() == i,
            forall|j: int| 0 <= j < i ==> #[trigger] keys@[j] == songs@[j].created_at,
        decreases songs@.len() - i,
    {
        keys.push(songs[i].created_at);
        i = i + 1;
    }
    let order = rank(&keys, true);
    let mut out: Vec<Song> = Vec::new();
    let mut k: usize = 0;
    while k < order.len()
        invariant
            k <= order@.len(),
            order@.len() == songs@.len(),
            forall|j: int| 0 <= j < order@.len() ==> #[trigger] order@[j] < songs@.len(),
            out@.len() == k,
            forall|j: int| 0 <= j < k ==> (#[trigger] out@[j])@ == songs@[order@[j] as int]@,
        decreases order@.len() - k,
    {
        out.push(songs[order[k]].clone());
        k = k + 1;
    }
    proof {
        let views = song_views(songs@);
        let by_rank = rank_key(keys@, true);
        assert forall|i: int| 0 <= i < views.len() implies #[trigger] by_rank(i) == song_recency()(
            views[i],
        ) by {}
        lemma_arranged_sorts(views, song_recency(), by_rank);
        assert(song_views(out@) =~= arranged(views, as_positions(order@)));
    }
    out
}

/// The playlists of `playlists`, newest first.
pub fn sort_playlists_newest_first(playlists: &Vec<Playlist>) -> (r: Vec<Playlist>)
    ensures
        playlist_views(r@) == sort_by(playlist_views(playlists@), playlist_recency()),
{
    let mut keys: Vec<i64> = Vec::new();
    let mut i: usize = 0;
    while i < playlists.len()
        invariant
            i <= playlists@.len(),
            keys@.len() == i,
            forall|j: int| 0 <= j < i ==> #[trigger] keys@[j] == playlists@[j].created_at,
        decreases playlists@.len() - i,
    {
        keys.push(playlists[i].created_at);
        i = i + 1;
    }
    let order = rank(&keys, true);
    let mut out: Vec<Playlist> = Vec::new();
    let mut k: usize = 0;
    while k < order.len()
        invariant
            k <= order@.len(),
            order@.len() == playlists@.len(),
            forall|j: int| 0 <= j < order@.len() ==> #[trigger] order@[j] < playlists@.len(),
            out@.len() == k,
            forall|j: int| 0 <= j < k ==> (#[trigger] out@[j])@ == playlists@[order@[j] as int]@,
        decreases order@.len() - k,
    {
        out.push(playlists[order[k]].clone());
        k = k + 1;
    }
    proof {
        let views = playlist_views(playlists@);
        let by_rank = rank_key(keys@, true);
        assert forall|i: int| 0 <= i < views.len() implies #[trigger] by_rank(i)
            == playlist_recency()(views[i]) by {}
        lemma_arranged_sorts(views, playlist_recency(), by_rank);
        assert(playlist_views(out@) =~= arranged(views, as_positions(order@)));
    }
    out
}

/// The rows of `rows` in ascending position.
pub fn sort_rows_by_position(rows: &Vec<PlaylistSong>) -> (r: Vec<PlaylistSong>)
    ensures
        r@ == sort_by(rows@, by_position()),
{
    let mut keys: Vec<i64> = Vec::new();
    let mut i: usize = 0;
    while i < rows.len()
        invariant
            i <= rows@.len(),
            keys@.len() == i,
            forall|j: int| 0 <= j < i ==> #[trigger] keys@[j] == rows@[j].position,
        decreases rows@.len() - i,
    {
        keys.push(rows[i].position as i64);
        i = i + 1;
    }
    let order = rank(&keys, false);
    let mut out: Vec<PlaylistSong> = Vec::new();
    let mut k: usize = 0;
    while k < order.len()
        invariant
            k <= order@.len(),
            order@.len() == rows@.len(),
            forall|j: int| 0 <= j < order@.len() ==> #[trigger] order@[j] < rows@.len(),
            out@.len() == k,
            forall|j: int| 0 <= j < k ==> #[trigger] out@[j] == rows@[order@[j] as int],
        decreases order@.len() - k,
    {
        out.push(rows[order[k]]);
        k = k + 1;
    }
    proof {
        let by_rank = rank_key(keys@, false);
        assert forall|i: int| 0 <= i < rows@.len() implies #[trigger] by_rank(i) == by_position()(
            rows@[i],
        ) by {}
        lemma_arranged_sorts(rows@, by_position(), by_rank);
        assert(out@ =~= arranged(rows@, as_positions(order@)));
    }
    out
}

impl Store {
    /// A store with no rows.
    pub fn new() -> (store: Store)
        ensures
            store@.users.len() == 0,
            store@.songs.len() == 0,
            store@.playlists.len() == 0,
            store@.playlist_songs.len() == 0,
    {
        Store {
            users: Vec::new(),
            songs: Vec::new(),
            playlists: Vec::new(),
            playlist_songs: Vec::new(),
        }
    }

    /// The first user with the given email.
    pub fn find_user_by_email(&self, email: &str) -> (r: Option<User>)
        ensures
            user_option_view(r) == user_by_email(self@.users, email@),
    {
        let mut i: usize = 0;
        while i < self.users.len()
            invariant
                i <= self.users@.len(),
                forall|j: int| 0 <= j < i ==> !email_is(email@)(#[trigger] self@.users[j]),
            decreases self.users@.len() - i,
        {
            if same_text(self.users[i].email.as_str(), email) {
                proof {
                    assert(email_is(email@)(self@.users[i as int]));
                    lemma_first_where_found(self@.users, email_is(email@), i as int);
                }
                return Some(self.users[i].clone());
            }
            assert(!email_is(email@)(self@.users[i as int]));
            i = i + 1;
        }
        proof {
            lemma_first_where_none(self@.users, email_is(email@));
        }
        None
    }

    /// The first user with the given identifier.
    pub fn find_user(&self, id: u128) -> (r: Option<User>)
        ensures
            user_option_view(r) == user_by_id(self@.users, id),
    {
        let mut i: usize = 0;
        while i < self.users.len()
            invariant
                i <= self.users@.len(),
                forall|j: int| 0 <= j < i ==> !user_id_is(id)(#[trigger] self@.users[j]),
            decreases self.users@.len() - i,
        {
            if self.users[i].id == id {
                proof {
                    assert(user_id_is(id)(self@.users[i as int]));
                    lemma_first_where_found(self@.users, user_id_is(id), i as int);
                }
                return Some(self.users[i].clone());
            }
            assert(!user_id_is(id)(self@.users[i as int]));
            i = i + 1;
        }
        proof {
            lemma_first_where_none(self@.users, user_id_is(id));
        }
        None
    }

    /// Adds a user row. A row whose identifier is taken is refused.
    pub fn insert_user(&mut self, user: User) -> (r: Result<(), ServiceError>)
        ensures
            r == if has_user_id(old(self)@.users, user.id) {
                Err::<(), ServiceError>(ServiceError::StorageError)
            } else {
                Ok(())
            },
            r is Err ==> final(self)@ == old(self)@,
            r is Ok ==> final(self)@ == with_user(old(self)@, user@),
    {
        let found = self.find_user(user.id);
        proof {
            lemma_first_where_none(self@.users, user_id_is(user.id));
        }
        if found.is_some() {
            let ghost row = user_by_id(self@.users, user.id)->0;
            proof {
                let k = choose|k: int| 0 <= k < self@.users.len() && self@.users[k] == row;
                assert(self@.users[k].id == user.id);
            }
            return Err(ServiceError::StorageError);
        }
        assert(!has_user_id(self@.users, user.id)) by {
            if has_user_id(self@.users, user.id) {
                let k = choose|k: int|
                    0 <= k < self@.users.len() && (#[trigger] self@.users[k]).id == user.id;
                assert(user_id_is(user.id)(self@.users[k]));
            }
        }
        let ghost before = self.users@;
        self.users.push(user);
        assert(user_views(self.users@) =~= user_views(before).push(user@));
        Ok(())
    }

    /// The first song with the given identifier.
    pub fn find_song(&self, id: u128) -> (r: Option<Song>)
        ensures
            song_option_view(r) == song_by_id(self@.songs, id),
    {
        let mut i: usize = 0;
        while i < self.songs.len()
            invariant
                i <= self.songs@.len(),
                forall|j: int| 0 <= j < i ==> !song_id_is(id)(#[trigger] self@.songs[j]),
            decreases self.songs@.len() - i,
        {
            if self.songs[i].id == id {
                proof {
                    assert(song_id_is(id)(self@.songs[i as int]));
                    lemma_first_where_found(self@.songs, song_id_is(id), i as int);
                }
                return Some(self.songs[i].clone());
            }
            assert(!song_id_is(id)(self@.songs[i as int]));
            i = i + 1;
        }
        proof {
            lemma_first_where_none(self@.songs, song_id_is(id));
        }
        None
    }

    /// Adds a song row. A row whose identifier is taken is refused.
    pub fn insert_song(&mut self, song: Song) -> (r: Result<(), ServiceError>)
        ensures
            r == if has_song_id(old(self)@.songs, song.id) {
                Err::<(), ServiceError>(ServiceError::StorageError)
            } else {
                Ok(())
            },
            r is Err ==> final(self)@ == old(self)@,
            r is Ok ==> final(self)@ == with_song(old(self)@, song@),
    {
        let found = self.find_song(song.id);
        proof {
            lemma_first_where_none(self@.songs, song_id_is(song.id));
        }
        if found.is_some() {
            let ghost row = song_by_id(self@.songs, song.id)->0;
            proof {
                let k = choose|k: int| 0 <= k < self@.songs.len() && self@.songs[k] == row;
                assert(self@.songs[k].id == song.id);
            }
            return Err(ServiceError::StorageError);
        }
        assert(!has_song_id(self@.songs, song.id)) by {
            if has_song_id(self@.songs, song.id) {
                let k = choose|k: int|
                    0 <= k < self@.songs.len() && (#[trigger] self@.songs[k]).id == song.id;
                assert(song_id_is(song.id)(self@.songs[k]));
            }
        }
        let ghost before = self.songs@;
        self.songs.push(song);
        assert(song_views(self.songs@) =~= song_views(before).push(song@));
        Ok(())
    }

    /// Every song, newest first.
    pub fn all_songs(&self) -> (r: Vec<Song>)
        ensures
            song_views(r@) == songs_newest_first(self@.songs),
    {
        sort_songs_newest_first(&self.songs)
    }

    /// The songs that match `query`, in insertion order.
    pub fn matching_songs(&self, query: &str) -> (r: Vec<Song>)
        ensures
            song_views(r@) == songs_matching(self@.songs, query@),
    {
        let q = chars_of(query);
        let mut out: Vec<Song> = Vec::new();
        let mut i: usize = 0;
        assert(self@.songs.take(0).filter(matches_query(query@)) =~= Seq::<SongView>::empty());
        while i < self.songs.len()
            invariant
                i <= self.songs@.len(),
                q@ == query@,
                song_views(out@) == self@.songs.take(i as int).filter(matches_query(query@)),
            decreases self.songs@.len() - i,
        {
            let song = &self.songs[i];
            let title = chars_of(song.title.as_str());
            let artist = chars_of(song.artist.as_str());
            let album = chars_of(song.album.as_str());
            let hit = find_ignoring_case(&title, &q) || find_ignoring_case(&artist, &q)
                || find_ignoring_case(&album, &q);
            proof {
                assert(hit == matches_query(query@)(self@.songs[i as int]));
                lemma_filter_next(self@.songs, matches_query(query@), i as int);
            }
            if hit {
                let ghost before = out@;
                out.push(song.clone());
                assert(song_views(out@) =~= song_views(before).push(song@));
            }
            i = i + 1;
        }
        assert(self@.songs.take(i as int) =~= self@.songs);
        out
    }

    /// The first playlist with the given identifier.
    pub fn find_playlist(&self, id: u128) -> (r: Option<Playlist>)
        ensures
            playlist_option_view(r) == playlist_by_id(self@.playlists, id),
    {
        let mut i: usize = 0;
        while i < self.playlists.len()
            invariant
                i <= self.playlists@.len(),
                forall|j: int| 0 <= j < i ==> !playlist_id_is(id)(#[trigger] self@.playlists[j]),
            decreases self.playlists@.len() - i,
        {
            if self.playlists[i].id == id {
                proof {
                    assert(playlist_id_is(id)(self@.playlists[i as int]));
                    lemma_first_where_found(self@.playlists, playlist_id_is(id), i as int);
                }
                return Some(self.playlists[i].clone());
            }
            assert(!playlist_id_is(id)(self@.playlists[i as int]));
            i = i + 1;
        }
        proof {
            lemma_first_where_none(self@.playlists, playlist_id_is(id));
        }
        None
    }

    /// Adds a playlist row. A row whose identifier is taken is refused.
    pub fn insert_playlist(&mut self, playlist: Playlist) -> (r: Result<(), ServiceError>)
        ensures
            r == if has_playlist_id(old(self)@.playlists, playlist.id) {
                Err::<(), ServiceError>(ServiceError::StorageError)
            } else {
                Ok(())
            },
            r is Err ==> final(self)@ == old(self)@,
            r is Ok ==> final(self)@ == with_playlist(old(self)@, playlist@),
    {
        let found = self.find_playlist(playlist.id);
        proof {
            lemma_first_where_none(self@.playlists, playlist_id_is(playlist.id));
        }
        if found.is_some() {
            let ghost row = playlist_by_id(self@.playlists, playlist.id)->0;
            proof {
                let k = choose|k: int| 0 <= k < self@.playlists.len() && self@.playlists[k] == row;
                assert(self@.playlists[k].id == playlist.id);
            }
            return Err(ServiceError::StorageError);
        }
        assert(!has_playlist_id(self@.playlists, playlist.id)) by {
            if has_playlist_id(self@.playlists, playlist.id) {
                let k = choose|k: int|
                    0 <= k < self@.playlists.len() && (#[trigger] self@.playlists[k]).id
                        == playlist.id;
                assert(playlist_id_is(playlist.id)(self@.playlists[k]));
            }
        }
        let ghost before = self.playlists@;
        self.playlists.push(playlist);
        assert(playlist_views(self.playlists@) =~= playlist_views(before).push(playlist@));
        Ok(())
    }

    /// The playlists that `owner` owns, newest first.
    pub fn playlists_of(&self, owner: u128) -> (r: Vec<Playlist>)
        ensures
            playlist_views(r@) == playlists_of_owner(self@.playlists, owner),
    {
        let mut owned: Vec<Playlist> = Vec::new();
        let mut i: usize = 0;
        assert(self@.playlists.take(0).filter(owned_by(owner)) =~= Seq::<PlaylistView>::empty());
        while i < self.playlists.len()
            invariant
                i <= self.playlists@.len(),
                playlist_views(owned@) == self@.playlists.take(i as int).filter(owned_by(owner)),
            decreases self.playlists@.len() - i,
        {
            proof {
                lemma_filter_next(self@.playlists, owned_by(owner), i as int);
            }
            if self.playlists[i].user_id == owner {
                let ghost before = owned@;
                owned.push(self.playlists[i].clone());
                assert(playlist_views(owned@) =~= playlist_views(before).push(
                    self@.playlists[i as int],
                ));
            }
            i = i + 1;
        }
        assert(self@.playlists.take(i as int) =~= self@.playlists);
        sort_playlists_newest_first(&owned)
    }

    /// The membership rows of one playlist, in insertion order.
    pub fn rows_of_playlist(&self, playlist_id: u128) -> (r: Vec<PlaylistSong>)
        ensures
            r@ == rows_of(self@.playlist_songs, playlist_id),
    {
        let mut out: Vec<PlaylistSong> = Vec::new();
        let mut i: usize = 0;
        assert(self@.playlist_songs.take(0).filter(in_playlist(playlist_id)) =~= Seq::<
            PlaylistSong,
        >::empty());
        while i < self.playlist_songs.len()
            invariant
                i <= self.playlist_songs@.len(),
                out@ == self@.playlist_songs.take(i as int).filter(in_playlist(playlist_id)),
            decreases self.playlist_songs@.len() - i,
        {
            proof {
                lemma_filter_next(self@.playlist_songs, in_playlist(playlist_id), i as int);
            }
            if self.playlist_songs[i].playlist_id == playlist_id {
                out.push(self.playlist_songs[i]);
            }
            i = i + 1;
        }
        assert(self@.playlist_songs.take(i as int) =~= self@.playlist_songs);
        out
    }

    /// The position that the next song of the playlist gets, where an `i32`
    /// can hold it.
    pub fn next_position_in(&self, playlist_id: u128) -> (r: Option<i32>)
        ensures
            r == if next_position(self@.playlist_songs, playlist_id) <= i32::MAX {
                Some(next_position(self@.playlist_songs, playlist_id) as i32)
            } else {
                None::<i32>
            },
    {
        let rows = self.rows_of_playlist(playlist_id);
        let mut best: Option<i32> = None;
        let mut i: usize = 0;
        while i < rows.len()
            invariant
                i <= rows@.len(),
                match best {
                    Some(m) => highest_position(rows@.take(i as int)) == Some(m as int),
                    None => highest_position(rows@.take(i as int)) is None,
                },
            decreases rows@.len() - i,
        {
            proof {
                assert(rows@.take(i + 1).drop_last() =~= rows@.take(i as int));
                assert(rows@.take(i + 1).last() == rows@[i as int]);
            }
            let position: i32 = rows[i].position;
            best = match best {
                None => Some(position),
                Some(m) => if m >= position {
                    Some(m)
                } else {
                    Some(position)
                },
            };
            i = i + 1;
        }
        assert(rows@.take(i as int) =~= rows@);
        match best {
            None => Some(1),
            Some(m) => if m < i32::MAX {
                Some(m + 1)
            } else {
                None
            },
        }
    }

    /// Puts a song at the end of a playlist: the new row gets the next
    /// position. Refused where that position does not fit in an `i32`.
    /// Neither the playlist nor the song is looked up, and a song may be
    /// added again.
    pub fn append_membership(&mut self, playlist_id: u128, song_id: u128, added_at: i64) -> (r:
        Result<(), ServiceError>)
        ensures
            r == if next_position(old(self)@.playlist_songs, playlist_id) <= i32::MAX {
                Ok::<(), ServiceError>(())
            } else {
                Err(ServiceError::StorageError)
            },
            final(self)@ == with_membership(old(self)@, playlist_id, song_id, added_at),
    {
        match self.next_position_in(playlist_id) {
            Some(position) => {
                self.playlist_songs.push(PlaylistSong { playlist_id, song_id, added_at, position });
                Ok(())
            },
            None => Err(ServiceError::StorageError),
        }
    }

    /// The membership rows of one playlist, in playlist order.
    pub fn rows_in_playlist_order(&self, playlist_id: u128) -> (r: Vec<PlaylistSong>)
        ensures
            r@ == rows_in_order(self@.playlist_songs, playlist_id),
    {
        let rows = self.rows_of_playlist(playlist_id);
        sort_rows_by_position(&rows)
    }

    /// The songs of one playlist, in playlist order.
    pub fn songs_in_playlist(&self, playlist_id: u128) -> (r: Vec<Song>)
        ensures
            song_views(r@) == songs_of_playlist(self@, playlist_id),
    {
        let rows = self.rows_in_playlist_order(playlist_id);
        let mut out: Vec<Song> = Vec::new();
        let mut k: usize = 0;
        assert(rows@.take(0).filter_map(song_named(self@.songs)) =~= Seq::<SongView>::empty());
        while k < rows.len()
            invariant
                k <= rows@.len(),
                song_views(out@) == rows@.take(k as int).filter_map(song_named(self@.songs)),
            decreases rows@.len() - k,
        {
            proof {
                rows@.lemma_filter_map_take_succ(song_named(self@.songs), k as int);
            }
            match self.find_song(rows[k].song_id) {
                Some(song) => {
                    let ghost before = out@;
                    out.push(song);
                    assert(song_views(out@) =~= song_views(before) + seq![song@]);
                },
                None => {},
            }
            k = k + 1;
        }
        assert(rows@.take(k as int) =~= rows@);
        out
    }

    /// A playlist with its songs in playlist order, where the playlist
    /// exists.
    pub fn playlist_with_songs(&self, playlist_id: u128) -> (r: Option<PlaylistWithSongs>)
        ensures
            playlist_with_songs_option_view(r) == playlist_with_songs(self@, playlist_id),
    {
        match self.find_playlist(playlist_id) {
            Some(playlist) => {
                let songs = self.songs_in_playlist(playlist_id);
                Some(
                    PlaylistWithSongs {
                        id: playlist.id,
                        name: playlist.name,
                        user_id: playlist.user_id,
                        description: playlist.description,
                        cover_image: playlist.cover_image,
                        created_at: playlist.created_at,
                        updated_at: playlist.updated_at,
                        songs,
                    },
                )
            },
            None => None,
        }
    }
}

/// The store after a song was put at the end of a playlist: one more
/// membership row with the next position, or the same store where that
/// position does not fit in an `i32`.
pub open spec fn with_membership(
    store: StoreView,
    playlist_id: u128,
    song_id: u128,
    added_at: i64,
) -> StoreView {
    let position = next_position(store.playlist_songs, playlist_id);
    if position <= i32::MAX {
        StoreView {
            users: store.users,
            songs: store.songs,
            playlists: store.playlists,
            playlist_songs: store.playlist_songs.push(
                PlaylistSong { playlist_id, song_id, added_at, position: position as i32 },
            ),
        }
    } else {
        store
    }
}

/// Whether no two songs share an identifier.
pub open spec fn song_ids_unique(songs: Seq<SongView>) -> bool {
    forall|i: int, j: int|
        0 <= i < j < songs.len() ==> (#[trigger] songs[i]).id != (#[trigger] songs[j]).id
}

/// Whether no two playlists share an identifier.
pub open spec fn playlist_ids_unique(playlists: Seq<PlaylistView>) -> bool {
    forall|i: int, j: int|
        0 <= i < j < playlists.len() ==> (#[trigger] playlists[i]).id != (
        #[trigger] playlists[j]).id
}

/// Whether the positions of each playlist count up from 1 in the order in
/// which its songs were added.
pub open spec fn positions_dense(rows: Seq<PlaylistSong>) -> bool {
    forall|playlist_id: u128, k: int|
        0 <= k < rows_of(rows, playlist_id).len() ==> (#[trigger] rows_of(
            rows,
            playlist_id,
        )[k]).position == k + 1
}

impl StoreView {
    /// What holds of a store that only the services have filled: emails and
    /// identifiers are unique, and positions are dense.
    pub open spec fn well_formed(self) -> bool {
        &&& emails_unique(self.users)
        &&& user_ids_unique(self.users)
        &&& song_ids_unique(self.songs)
        &&& playlist_ids_unique(self.playlists)
        &&& positions_dense(self.playlist_songs)
    }
}

/// The store with one more user.
pub open spec fn with_user(store: StoreView, user: UserView) -> StoreView {
    StoreView {
        users: store.users.push(user),
        songs: store.songs,
        playlists: store.playlists,
        playlist_songs: store.playlist_songs,
    }
}

/// The store with one more playlist.
pub open spec fn with_playlist(store: StoreView, playlist: PlaylistView) -> StoreView {
    StoreView {
        users: store.users,
        songs: store.songs,
        playlists: store.playlists.push(playlist),
        playlist_songs: store.playlist_songs,
    }
}

/// The store with one more song.
pub open spec fn with_song(store: StoreView, song: SongView) -> StoreView {
    StoreView {
        users: store.users,
        songs: store.songs.push(song),
        playlists: store.playlists,
        playlist_songs: store.playlist_songs,
    }
}

} // verus!
