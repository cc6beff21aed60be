//! What the screens are drawn from: plain values, resolved before a frame.

use vstd::prelude::*;
use vstd::string::*;

use crate::columns::ColKey;
use crate::geometry::Position;
use crate::play_state::RadioSteps;
use crate::scene::Picture;
use crate::text::{
    a_number_reads_back, dec, decimal, digits_alone, joined, number_in, pad_zero, two_digits,
    two_digits_read_back,
};

verus! {

/// What separates two credited names.
pub const CREDIT_SEP: &'static str = ", ";

/// A credited artist, and the page the name opens where there is one.
#[derive(Debug, Clone, PartialEq, Eq)]
pub struct Credit {
    pub name: String,
    pub id: Option<String>,
}

impl Credit {
    /// The same credit again.
    pub fn copy(&self) -> (r: Credit)
        ensures
            r == *self,
    {
        Credit { name: self.name.clone(), id: copy_text(&self.id) }
    }
}

/// The same text again.
pub fn copy_text(s: &Option<String>) -> (r: Option<String>)
    ensures
        r == *s,
{
    match s {
        Some(t) => Some(t.clone()),
        None => None,
    }
}

/// Whether two texts are the same text.
pub fn same_text(a: &String, b: &String) -> (r: bool)
    ensures
        r == (a@ == b@),
{
    *a == *b
}

/// Whether an optional text is there and is `b`.
pub open spec fn is_text(a: Option<String>, b: Seq<char>) -> bool {
    a matches Some(t) && t@ == b
}

pub fn some_text(a: &Option<String>, b: &String) -> (r: bool)
    ensures
        r == is_text(*a, b@),
{
    match a {
        Some(t) => same_text(t, b),
        None => false,
    }
}

/// The names of `credits`, in order, joined by the separator.
pub open spec fn credit_names(credits: Seq<Credit>) -> Seq<char>
    decreases credits.len(),
{
    if credits.len() == 0 {
        Seq::empty()
    } else if credits.len() == 1 {
        credits[0].name@
    } else {
        credit_names(credits.drop_last()) + CREDIT_SEP@ + credits.last().name@
    }
}

/// The credit line as it is printed.
pub fn artists_line(credits: &Vec<Credit>) -> (r: String)
    ensures
        r@ == credit_names(credits@),
{
    let mut r = String::new();
    let mut i: usize = 0;
    assert(credits@.take(0) =~= Seq::empty());
    while i < credits.len()
        invariant
            i <= credits@.len(),
            r@ == credit_names(credits@.take(i as int)),
        decreases credits@.len() - i,
    {
        let ghost before = credits@.take(i as int);
        let ghost after = credits@.take(i + 1);
        assert(after.drop_last() =~= before);
        assert(after.last() == credits@[i as int]);
        if i > 0 {
            r.append(CREDIT_SEP);
        }
        r.append(credits[i].name.as_str());
        proof {
            if i == 0 {
                assert(r@ =~= credits@[0].name@);
            }
        }
        i = i + 1;
    }
    assert(credits@.take(credits@.len() as int) =~= credits@);
    r
}

/// A record on a list.
#[derive(Debug, Clone)]
pub struct Track {
    pub uri: String,
    pub name: String,
    pub artists: String,
    pub album: String,
    pub release_year: String,
    pub duration_ms: u64,
    pub track_number: u32,
    pub album_id: Option<String>,
    pub credits: Vec<Credit>,
    pub cover_url: Option<String>,
}

/// The order a list is shown in.
#[derive(Debug, Clone, Copy, PartialEq, Eq, Structural)]
pub struct Sort {
    pub key: ColKey,
    pub ascending: bool,
}

/// A list and the order its rows are shown in: row `i` is
/// `items[display[i]]`.
#[derive(Debug, Clone)]
pub struct SortedList<T> {
    pub items: Vec<T>,
    pub display: Vec<usize>,
    pub sort: Sort,
}

impl<T> SortedList<T> {
    /// Every row shows an item there is.
    pub open spec fn wf(self) -> bool {
        forall|i: int|
            0 <= i < self.display@.len() ==> #[trigger] self.display@[i] < self.items@.len()
    }

    /// The item of row `i`.
    pub open spec fn row(self, i: int) -> T {
        self.items@[self.display@[i] as int]
    }

    /// Whether every row shows an item there is.
    pub fn is_whole(&self) -> (r: bool)
        ensures
            r == self.wf(),
    {
        let mut i: usize = 0;
        while i < self.display.len()
            invariant
                i <= self.display@.len(),
                forall|j: int| 0 <= j < i ==> #[trigger] self.display@[j] < self.items@.len(),
            decreases self.display@.len() - i,
        {
            if self.display[i] >= self.items.len() {
                return false;
            }
            i = i + 1;
        }
        true
    }

    /// How many rows are shown.
    pub fn len(&self) -> (n: usize)
        ensures
            n == self.display@.len(),
    {
        self.display.len()
    }

    /// The item of row `i`.
    pub fn at(&self, i: usize) -> (r: &T)
        requires
            self.wf(),
            i < self.display@.len(),
        ensures
            *r == self.row(i as int),
    {
        &self.items[self.display[i]]
    }
}

/// Why a page could not be fetched.
#[derive(Debug, Clone)]
pub struct LoadError {
    pub message: String,
}

#[derive(Debug, Clone, Copy, PartialEq, Eq, Structural)]
pub enum TrackListKind {
    Playlist,
    Album,
    LikedSongs,
}

/// What a track page says about itself above its rows.
#[derive(Debug, Clone)]
pub struct ListHeader {
    pub name: String,
    pub subtitle: String,
    pub description: String,
    pub cover_url: Option<String>,
    pub credits: Vec<Credit>,
}

/// A page of tracks.
#[derive(Debug, Clone)]
pub struct TrackList {
    pub kind: TrackListKind,
    pub header: ListHeader,
    pub rows: SortedList<Track>,
    pub loading: bool,
    /// How many tracks the page will have, once that is known.
    pub total: Option<usize>,
    pub error: Option<LoadError>,
}

#[derive(Debug, Clone)]
pub struct Playlist {
    pub id: String,
    pub name: String,
    pub track_count: u32,
    pub owner: String,
    pub owner_id: String,
}

#[derive(Debug, Clone)]
pub struct AlbumItem {
    pub id: String,
    pub name: String,
    pub credits: Vec<Credit>,
    pub release_year: String,
    pub album_type: String,
    pub track_count: u32,
    pub cover_url: Option<String>,
}

#[derive(Debug, Clone)]
pub struct ArtistItem {
    pub name: String,
}

/// A station of the radio directory.
#[derive(Debug, Clone)]
pub struct Station {
    pub uuid: String,
    pub name: String,
    pub url: String,
    pub tags: String,
    pub country: String,
    pub countrycode: String,
    /// How the stream sounds, as it is printed: "MP3 128k".
    pub quality: String,
    /// Listed, but not of a kind that can be played.
    pub hls: bool,
}

/// What is known of what a station is announcing.
#[derive(Debug, Clone)]
pub enum NowStatus {
    Probing,
    Title(String),
    Quiet,
    Unreachable,
}

impl NowStatus {
    /// The same status again.
    pub fn copy(&self) -> (r: NowStatus)
        ensures
            r == *self,
    {
        match self {
            NowStatus::Probing => NowStatus::Probing,
            NowStatus::Title(t) => NowStatus::Title(t.clone()),
            NowStatus::Quiet => NowStatus::Quiet,
            NowStatus::Unreachable => NowStatus::Unreachable,
        }
    }
}

/// A reading of one station's announcement.
#[derive(Debug, Clone)]
pub struct StationNow {
    pub uuid: String,
    pub status: NowStatus,
}

/// A row of the radio directory.
#[derive(Debug, Clone)]
pub enum RadioRow {
    Station(Station),
    Facet { key: String, label: String, count: u32 },
}

#[derive(Debug, Clone, Copy, PartialEq, Eq, Structural)]
pub enum RadioTab {
    Popular,
    Countries,
    Genres,
    Saved,
}

impl RadioTab {
    #[verifier::allow_in_spec]
    pub fn title(self) -> &'static str
        returns
            (match self {
                RadioTab::Popular => "Popular",
                RadioTab::Countries => "Countries",
                RadioTab::Genres => "Genres",
                RadioTab::Saved => "Saved",
            }),
    {
        match self {
            RadioTab::Popular => "Popular",
            RadioTab::Countries => "Countries",
            RadioTab::Genres => "Genres",
            RadioTab::Saved => "Saved",
        }
    }
}

#[derive(Debug, Clone, Copy, PartialEq, Eq, Structural)]
pub enum SearchTab {
    Tracks,
    Albums,
    Artists,
    Playlists,
    Stations,
}

impl SearchTab {
    #[verifier::allow_in_spec]
    pub fn title(self) -> &'static str
        returns
            (match self {
                SearchTab::Tracks => "Tracks",
                SearchTab::Albums => "Albums",
                SearchTab::Artists => "Artists",
                SearchTab::Playlists => "Playlists",
                SearchTab::Stations => "Stations",
            }),
    {
        match self {
            SearchTab::Tracks => "Tracks",
            SearchTab::Albums => "Albums",
            SearchTab::Artists => "Artists",
            SearchTab::Playlists => "Playlists",
            SearchTab::Stations => "Stations",
        }
    }
}

#[derive(Debug, Clone, Copy, PartialEq, Eq, Structural)]
pub enum ArtistTab {
    Albums,
    Singles,
    Compilations,
    AppearsOn,
}

impl ArtistTab {
    #[verifier::allow_in_spec]
    pub fn title(self) -> &'static str
        returns
            (match self {
                ArtistTab::Albums => "Albums",
                ArtistTab::Singles => "Singles",
                ArtistTab::Compilations => "Compilations",
                ArtistTab::AppearsOn => "Appears On",
            }),
    {
        match self {
            ArtistTab::Albums => "Albums",
            ArtistTab::Singles => "Singles",
            ArtistTab::Compilations => "Compilations",
            ArtistTab::AppearsOn => "Appears On",
        }
    }
}

/// A page of the radio directory.
#[derive(Debug, Clone)]
pub struct RadioView {
    pub tab: RadioTab,
    /// The page of stations you keep.
    pub favorites: bool,
    pub rows: SortedList<RadioRow>,
    pub loading: bool,
    pub error: Option<LoadError>,
}

/// The answers to one query.
#[derive(Debug, Clone)]
pub struct SearchResults {
    pub query: String,
    pub tracks: SortedList<Track>,
    pub albums: SortedList<AlbumItem>,
    pub artists: SortedList<ArtistItem>,
    pub playlists: SortedList<Playlist>,
    pub stations: SortedList<Station>,
    pub stations_loading: bool,
    pub error: Option<LoadError>,
    pub stations_error: Option<LoadError>,
}

/// An artist's page: the top tracks, and the records of the open tab.
#[derive(Debug, Clone)]
pub struct ArtistView {
    pub id: String,
    pub name: String,
    pub image_url: Option<String>,
    pub genres: Vec<String>,
    pub top: SortedList<Track>,
    pub albums: SortedList<AlbumItem>,
    /// The groups the artist has records in.
    pub tabs: Vec<ArtistTab>,
    pub tab: ArtistTab,
    pub loading: bool,
    pub error: Option<LoadError>,
}

#[derive(Debug, Clone)]
pub enum MainView {
    Home,
    Playlists,
    Tracks(TrackList),
    Search(SearchResults),
    Artist(ArtistView),
    Radio(RadioView),
}

/// Where a step of the path leads.
#[derive(Debug, Clone, PartialEq, Eq)]
pub enum CrumbTarget {
    /// The page that is open.
    Current,
    /// The page at this depth of the history.
    Depth(usize),
    /// An artist's page.
    Artist { id: String, name: String },
}

impl CrumbTarget {
    /// The same target again.
    pub fn copy(&self) -> (r: CrumbTarget)
        ensures
            r == *self,
    {
        match self {
            CrumbTarget::Current => CrumbTarget::Current,
            CrumbTarget::Depth(d) => CrumbTarget::Depth(*d),
            CrumbTarget::Artist { id, name } => CrumbTarget::Artist {
                id: id.clone(),
                name: name.clone(),
            },
        }
    }
}

/// A step of the path to the open page.
#[derive(Debug, Clone, PartialEq, Eq)]
pub struct Crumb {
    pub label: String,
    pub target: CrumbTarget,
}

impl Crumb {
    /// The same step again.
    pub fn copy(&self) -> (r: Crumb)
        ensures
            r == *self,
    {
        Crumb { label: self.label.clone(), target: self.target.copy() }
    }
}

/// An entry of the landing page.
#[derive(Debug, Clone)]
pub struct HomeEntry {
    pub title: String,
    pub count: String,
    pub blurb: String,
}

/// What the transport is doing with a record.
#[derive(Debug, Clone)]
pub struct Playback {
    pub is_playing: bool,
    /// The sound comes out of this machine.
    pub is_local_device: bool,
    pub shuffle: bool,
    pub volume_percent: u8,
    /// How far in, now.
    pub progress_ms: u64,
    pub track: Track,
}

/// What a station is doing.
#[derive(Debug, Clone)]
pub struct RadioPlayback {
    pub station: Station,
    pub is_playing: bool,
    /// What the station says it is playing.
    pub title: Option<String>,
    /// The announced record, where it was found.
    pub matched: Option<Track>,
    pub volume_percent: u8,
    /// Why the station would not come up.
    pub failure: Option<String>,
    /// The stream stands down for a record off the station's own list.
    pub off_air: bool,
    pub elapsed_ms: u64,
    /// How the stream's channels read: "stereo".
    pub channel_label: Option<String>,
}

/// The play order.
#[derive(Debug, Clone)]
pub struct Queue {
    pub name: String,
    pub rows: SortedList<Track>,
    pub loading: bool,
    /// The uri of the track the queue has come to.
    pub current: Option<String>,
    /// The key of the source the queue came out of.
    pub source_key: Option<String>,
}

/// How the deck is dressed. One that acts names what its controls do, waits
/// with a mark that turns, and keeps the browse page's header over the player.
/// One that reports names the state its controls are in, waits with a still
/// mark, has a rule over the bar, and puts the path opposite the mark.
#[derive(Debug, Clone, Copy, PartialEq, Eq, Structural)]
pub enum Wear {
    Acts,
    Reports,
}

/// What is on the deck and what is known of the sound.
#[derive(Debug, Clone)]
pub struct Deck {
    pub radio: Option<RadioPlayback>,
    pub playback: Option<Playback>,
    /// A play was asked for and has not been heard yet.
    pub pending_play: bool,
    /// Samples arrived from the local sink within the loading window.
    pub tap_fresh: bool,
}

/// Whether what each uri names is kept.
#[derive(Debug, Clone)]
pub struct Kept {
    pub entries: Vec<(String, bool)>,
}

impl Kept {
    /// What is known of `key` in the first `n` entries.
    pub open spec fn known(self, key: Seq<char>, n: int) -> Option<bool>
        decreases self.entries@.len() - n,
    {
        if n < 0 || n >= self.entries@.len() {
            None
        } else if self.entries@[n].0@ == key {
            Some(self.entries@[n].1)
        } else {
            self.known(key, n + 1)
        }
    }

    /// What is known of `key`: its first entry.
    pub open spec fn of(self, key: Seq<char>) -> Option<bool> {
        self.known(key, 0)
    }

    pub fn get(&self, key: &String) -> (r: Option<bool>)
        ensures
            r == self.of(key@),
    {
        let mut i: usize = 0;
        while i < self.entries.len()
            invariant
                i <= self.entries@.len(),
                self.of(key@) == self.known(key@, i as int),
            decreases self.entries@.len() - i,
        {
            if same_text(&self.entries[i].0, key) {
                return Some(self.entries[i].1);
            }
            i = i + 1;
        }
        None
    }
}

/// How a length of time reads: minutes, then seconds in two digits.
pub open spec fn duration_text(ms: nat) -> Seq<char> {
    decimal(ms / 60_000).push(':') + two_digits(ms / 1_000 % 60)
}

pub fn format_duration(ms: u64) -> (r: String)
    ensures
        r@ == duration_text(ms as nat),
{
    let mins = dec(ms / 60_000);
    let secs = pad_zero((ms / 1_000 % 60) as u8);
    let head = joined(mins.as_str(), ":");
    proof {
        reveal_strlit(":");
        assert(head@ =~= decimal((ms / 60_000) as nat).push(':'));
    }
    joined(head.as_str(), secs.as_str())
}

/// The key of a playlist, as a queue names its source.
pub open spec fn playlist_key_text(id: Seq<char>) -> Seq<char> {
    "playlist:"@ + id
}

pub fn playlist_key(id: &String) -> (r: String)
    ensures
        r@ == playlist_key_text(id@),
{
    joined("playlist:", id.as_str())
}

/// The key of an album, as a queue names its source.
pub open spec fn album_key_text(id: Seq<char>) -> Seq<char> {
    "album:"@ + id
}

pub fn album_key(id: &String) -> (r: String)
    ensures
        r@ == album_key_text(id@),
{
    joined("album:", id.as_str())
}

/// What every frame has in common: the accent in force, the pointer, and the
/// time since the spinners started turning.
#[derive(Debug, Clone, Copy, PartialEq, Eq, Structural)]
pub struct Pen {
    pub accent: u32,
    /// The accent at the level of the sound, for the dot that keeps time.
    pub pulse: u32,
    pub mouse: Option<Position>,
    pub elapsed_ms: u64,
}

#[derive(Debug, Clone, Copy, PartialEq, Eq, Structural)]
pub enum InputMode {
    Normal,
    /// The search box has the keys.
    Search,
}

/// What a page contributes to the header drawn above it.
#[derive(Debug, Clone)]
pub struct PageHeader {
    /// The page's own contents are still in flight.
    pub loading: bool,
    /// A total to pin opposite the path, where the page has one.
    pub count: Option<String>,
}

/// A [`PageHeader`] as a value.
pub struct PageNote {
    pub loading: bool,
    pub count: Option<Seq<char>>,
}

impl View for PageHeader {
    type V = PageNote;

    open spec fn view(&self) -> PageNote {
        PageNote {
            loading: self.loading,
            count: match self.count {
                Some(s) => Some(s@),
                None => None,
            },
        }
    }
}

/// A message, and how long it has been up.
#[derive(Debug, Clone)]
pub struct Toast {
    pub text: String,
    pub age_ms: u64,
}

/// The box a track is put on a playlist from.
#[derive(Debug, Clone)]
pub struct PlaylistPicker {
    pub query: String,
    /// The playlists that match the query.
    pub rows: Vec<PickerRow>,
    /// The most rows the box shows at once.
    pub most: u16,
    pub selected: usize,
    pub offset: usize,
    pub error: Option<String>,
}

/// What a row of the box says of whether its playlist holds the track.
#[derive(Debug, Clone, Copy, PartialEq, Eq, Structural)]
pub enum Holds {
    Yes,
    No,
    /// Not walked yet.
    Unknown,
    /// A change is in flight.
    Working,
}

#[derive(Debug, Clone)]
pub struct PickerRow {
    pub name: String,
    /// A change is in flight.
    pub pending: bool,
    /// Whether the playlist holds the track, once something has answered.
    pub has: Option<bool>,
}

#[derive(Debug, Clone, Copy, PartialEq, Eq, Structural)]
pub enum EditField {
    Name,
    Description,
}

/// The box a playlist is named in.
#[derive(Debug, Clone)]
pub struct PlaylistEdit {
    /// The playlist is being made rather than changed.
    pub making: bool,
    pub name: String,
    pub description: String,
    pub field: EditField,
    /// A change is in flight.
    pub pending: bool,
    pub error: Option<String>,
}

/// The article about an artist.
#[derive(Debug, Clone)]
pub struct BioPopup {
    pub artist_id: String,
    pub name: String,
    pub text: String,
    pub source_url: String,
    pub offset: usize,
}

/// The picture a click expanded.
#[derive(Debug, Clone)]
pub struct ArtZoom {
    pub picture: Picture,
    pub seed: String,
}

/// What the running build knows of a newer one.
#[derive(Debug, Clone)]
pub enum UpdateState {
    Current,
    Available(String),
    Installing,
    Installed,
    Failed,
}

/// Everything a frame is drawn from.
#[derive(Debug, Clone)]
pub struct AppState {
    pub deck: Deck,
    pub wear: Wear,
    pub show_player: bool,
    pub show_help: bool,
    /// The path to the open page.
    pub trail: Vec<Crumb>,
    pub input_mode: InputMode,
    pub input_buffer: String,
    pub main: MainView,
    pub main_index: usize,
    pub main_offset: usize,
    /// A fetch is in flight.
    pub loading: bool,
    /// How often the open page was asked for again.
    pub retries: u32,
    pub home: Vec<HomeEntry>,
    pub search_tab: SearchTab,
    pub search_tabs: Vec<SearchTab>,
    pub playlists: SortedList<Playlist>,
    pub playlists_error: Option<LoadError>,
    pub me_id: Option<String>,
    pub favorites: Vec<Station>,
    pub radio_now: Vec<StationNow>,
    /// What there is either side of the station on the deck.
    pub radio_steps: RadioSteps,
    pub liked: Kept,
    /// The address of the sleeve decoded for the open page.
    pub view_cover: Option<String>,
    /// The open page has a link of its own to give.
    pub page_link: bool,
    /// The playlist that is open, where one is.
    pub open_playlist: Option<String>,
    pub owns_playlist: bool,
    pub saved_playlists: Kept,
    /// An account is signed in.
    pub spotify_ready: bool,
    pub queue: Option<Queue>,
    pub queue_index: usize,
    pub queue_offset: usize,
    /// The list under the player's heading is folded away.
    pub list_folded: bool,
    pub toast: Option<Toast>,
    pub picker: Option<PlaylistPicker>,
    pub edit: Option<PlaylistEdit>,
    pub bio: Option<BioPopup>,
    pub art_zoom: Option<ArtZoom>,
    pub update: UpdateState,
    /// The build that runs, as it is printed.
    pub version: String,
}

/// The first row from `i` on that shows the track of `uri`.
pub open spec fn track_row_of(rows: SortedList<Track>, uri: Seq<char>, i: int) -> Option<usize>
    decreases rows.display@.len() - i,
{
    if i < 0 || i >= rows.display@.len() {
        None
    } else if rows.row(i).uri@ == uri {
        Some(i as usize)
    } else {
        track_row_of(rows, uri, i + 1)
    }
}

/// The row of the playing track.
pub open spec fn playing_row(rows: SortedList<Track>, uri: Option<String>) -> Option<usize> {
    match uri {
        Some(u) => track_row_of(rows, u@, 0),
        None => None,
    }
}

impl SortedList<Track> {
    /// The row that shows the track of `uri`, where one does.
    pub fn position_of(&self, uri: &Option<String>) -> (r: Option<usize>)
        requires
            self.wf(),
        ensures
            r == playing_row(*self, *uri),
    {
        let u = match uri {
            Some(u) => u,
            None => return None,
        };
        let mut i: usize = 0;
        while i < self.display.len()
            invariant
                self.wf(),
                *uri == Some(*u),
                i <= self.display@.len(),
                track_row_of(*self, u@, 0) == track_row_of(*self, u@, i as int),
            decreases self.display@.len() - i,
        {
            if same_text(&self.at(i).uri, u) {
                return Some(i);
            }
            i = i + 1;
        }
        None
    }
}

/// A scroll offset held to the content.
#[verifier::allow_in_spec]
pub fn clamp_offset(offset: usize, len: usize, height: usize) -> usize
    returns
        (if offset > len.saturating_sub(height) {
            len.saturating_sub(height)
        } else {
            offset
        }),
{
    let most: usize = len.saturating_sub(height);
    if offset > most {
        most
    } else {
        offset
    }
}

/// A clamped offset never scrolls past the content, leaves an offset that was
/// in bounds alone, and is settled after one go.
pub proof fn a_clamped_offset_shows_content(offset: usize, len: usize, height: usize)
    ensures
        clamp_offset(offset, len, height) <= offset,
        clamp_offset(offset, len, height) <= len,
        len >= height ==> clamp_offset(offset, len, height) + height <= len,
        offset + height <= len ==> clamp_offset(offset, len, height) == offset,
        clamp_offset(clamp_offset(offset, len, height), len, height) == clamp_offset(
            offset,
            len,
            height,
        ),
{
}

/// Whether `t` is a number of minutes, a colon at `colon`, and seconds in two
/// digits, and sixty times the one with the other are `seconds`.
pub open spec fn reads(t: Seq<char>, colon: int, seconds: nat) -> bool {
    let (mins, secs) = (t.take(colon), t.skip(colon + 1));
    &&& 0 < colon < t.len()
    &&& t[colon] == ':'
    &&& digits_alone(mins)
    &&& digits_alone(secs)
    &&& secs.len() == 2
    &&& number_in(secs) < 60
    &&& 60 * number_in(mins) + number_in(secs) == seconds
}

/// Whether `t` reads as a time of `seconds`.
pub open spec fn reads_as(t: Seq<char>, seconds: nat) -> bool {
    exists|colon: int| reads(t, colon, seconds)
}

/// A reading is minutes, a colon, and seconds in two digits: sixty times the one
/// and the other together are the whole seconds of the time it reads.
pub proof fn a_reading_is_the_time(ms: nat)
    ensures
        reads_as(duration_text(ms), ms / 1_000),
{
    let t = duration_text(ms);
    let m = decimal(ms / 60_000);
    let colon = m.len() as int;
    a_number_reads_back(ms / 60_000);
    two_digits_read_back(ms / 1_000 % 60);
    assert(t.take(colon) =~= m);
    assert(t.skip(colon + 1) =~= two_digits(ms / 1_000 % 60));
    assert(t[colon] == ':');
    assert(60 * (ms / 60_000) + ms / 1_000 % 60 == ms / 1_000);
    assert(reads(t, colon, ms / 1_000));
}

/// Names are joined in order: one more credit adds a comma, a space and its name
/// behind all the others.
pub proof fn names_are_joined_in_order(credits: Seq<Credit>, c: Credit)
    ensures
        credit_names(Seq::empty()) == Seq::<char>::empty(),
        credits.len() == 0 ==> credit_names(credits.push(c)) == c.name@,
        credits.len() > 0 ==> credit_names(credits.push(c)) == credit_names(credits) + seq![
            ',',
            ' ',
        ] + c.name@,
{
    reveal_strlit(", ");
    assert(credits.push(c).drop_last() =~= credits);
    assert(CREDIT_SEP@ =~= seq![',', ' ']);
}

/// What is known of a key is what its first entry says; nothing is known of one
/// that has none.
pub proof fn the_first_entry_speaks(kept: Kept, key: Seq<char>)
    ensures
        kept.of(key) is None ==> forall|i: int|
            0 <= i < kept.entries@.len() ==> (#[trigger] kept.entries@[i]).0@ != key,
        kept.of(key) matches Some(b) ==> exists|i: int|
            {
                &&& 0 <= i < kept.entries@.len()
                &&& (#[trigger] kept.entries@[i]).0@ == key
                &&& kept.entries@[i].1 == b
                &&& forall|j: int| 0 <= j < i ==> (#[trigger] kept.entries@[j]).0@ != key
            },
{
    lemma_known(kept, key, 0);
}

proof fn lemma_known(kept: Kept, key: Seq<char>, n: int)
    requires
        0 <= n <= kept.entries@.len(),
    ensures
        kept.known(key, n) is None ==> forall|i: int|
            n <= i < kept.entries@.len() ==> (#[trigger] kept.entries@[i]).0@ != key,
        kept.known(key, n) matches Some(b) ==> exists|i: int|
            {
                &&& n <= i < kept.entries@.len()
                &&& (#[trigger] kept.entries@[i]).0@ == key
                &&& kept.entries@[i].1 == b
                &&& forall|j: int| n <= j < i ==> (#[trigger] kept.entries@[j]).0@ != key
            },
    decreases kept.entries@.len() - n,
{
    if n < kept.entries@.len() && kept.entries@[n].0@ != key {
        lemma_known(kept, key, n + 1);
    }
}

/// The row that plays is the first that shows the playing track; there is none
/// where no row does, or nothing plays.
pub proof fn the_playing_row_shows_the_playing_track(rows: SortedList<Track>, uri: Option<String>)
    requires
        rows.display@.len() <= usize::MAX,
    ensures
        uri is None ==> playing_row(rows, uri) is None,
        playing_row(rows, uri) matches Some(r) ==> {
            &&& r < rows.display@.len()
            &&& uri matches Some(u) && rows.row(r as int).uri@ == u@
        },
        uri matches Some(u) ==> forall|i: int|
            0 <= i < rows.display@.len() && (#[trigger] rows.row(i)).uri@ == u@ ==> (playing_row(
                rows,
                uri,
            ) matches Some(r) && r <= i),
{
    if let Some(u) = uri {
        lemma_track_row(rows, u@, 0);
    }
}

proof fn lemma_track_row(rows: SortedList<Track>, uri: Seq<char>, n: int)
    requires
        0 <= n <= rows.display@.len() <= usize::MAX,
    ensures
        track_row_of(rows, uri, n) matches Some(r) ==> n <= r < rows.display@.len() && rows.row(
            r as int,
        ).uri@ == uri,
        forall|i: int|
            n <= i < rows.display@.len() && (#[trigger] rows.row(i)).uri@ == uri ==> (track_row_of(
                rows,
                uri,
                n,
            ) matches Some(r) && r <= i),
    decreases rows.display@.len() - n,
{
    if n < rows.display@.len() && rows.row(n).uri@ != uri {
        lemma_track_row(rows, uri, n + 1);
    }
}

/// The key of a playlist is never that of an album, and two of one kind are told
/// apart by their ids.
pub proof fn keys_of_two_kinds_differ(a: Seq<char>, b: Seq<char>)
    ensures
        playlist_key_text(a) != album_key_text(b),
        playlist_key_text(a) == playlist_key_text(b) ==> a == b,
        album_key_text(a) == album_key_text(b) ==> a == b,
{
    reveal_strlit("playlist:");
    reveal_strlit("album:");
    let (pa, pb) = (playlist_key_text(a), playlist_key_text(b));
    let (aa, ab) = (album_key_text(a), album_key_text(b));
    assert(pa[0] == 'p');
    assert(ab[0] == 'a');
    assert(pa.skip(9) =~= a);
    assert(pb.skip(9) =~= b);
    assert(aa.skip(6) =~= a);
    assert(ab.skip(6) =~= b);
}

} // verus!
