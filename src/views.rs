use vstd::prelude::*;

verus! {

/// The sub-tabs of a list of results, in the order they are shown.
#[derive(Debug, Clone, Copy, PartialEq, Eq, Structural, PartialOrd, Ord, Hash)]
pub enum SubTab {
    Albums,
    Artists,
    Playlists,
    Tracks,
}

/// How many sub-tabs there are.
pub const SUB_TAB_COUNT: u8 = 4;

pub open spec fn tab_index(t: SubTab) -> u8 {
    match t {
        SubTab::Albums => 0,
        SubTab::Artists => 1,
        SubTab::Playlists => 2,
        SubTab::Tracks => 3,
    }
}

pub open spec fn tab_at(v: u8) -> SubTab {
    if v % 4 == 0 {
        SubTab::Albums
    } else if v % 4 == 1 {
        SubTab::Artists
    } else if v % 4 == 2 {
        SubTab::Playlists
    } else {
        SubTab::Tracks
    }
}

pub open spec fn tab_label(t: SubTab) -> Seq<char> {
    match t {
        SubTab::Albums => "Albums"@,
        SubTab::Artists => "Artists"@,
        SubTab::Playlists => "Playlists"@,
        SubTab::Tracks => "Tracks"@,
    }
}

impl Default for SubTab {
    fn default() -> (r: Self)
        ensures
            r == SubTab::Albums,
    {
        SubTab::Albums
    }
}

impl SubTab {
    /// The index of the tab, from zero.
    pub fn selected(self) -> (r: u8)
        ensures
            r == tab_index(self),
    {
        match self {
            SubTab::Albums => 0,
            SubTab::Artists => 1,
            SubTab::Playlists => 2,
            SubTab::Tracks => 3,
        }
    }

    /// The tab at index `v`, counted round the tabs.
    pub fn from_u8(v: u8) -> (r: Self)
        ensures
            r == tab_at(v),
    {
        match v % SUB_TAB_COUNT {
            0 => SubTab::Albums,
            1 => SubTab::Artists,
            2 => SubTab::Playlists,
            _ => SubTab::Tracks,
        }
    }

    /// The tab after this one, the first after the last.
    pub fn next(self) -> (r: Self)
        ensures
            r == tab_at(((tab_index(self) + 1) % 256) as u8),
            tab_index(r) == (tab_index(self) + 1) % 4,
    {
        SubTab::from_u8(self.selected().wrapping_add(1))
    }

    /// The tab before this one, the last before the first.
    pub fn previous(self) -> (r: Self)
        ensures
            r == tab_at(((tab_index(self) + 3) % 256) as u8),
            tab_index(r) == (tab_index(self) + 3) % 4,
    {
        SubTab::from_u8(self.selected().wrapping_add(SUB_TAB_COUNT - 1))
    }

    /// The label shown for the tab.
    pub fn as_str(self) -> (r: &'static str)
        ensures
            r@ == tab_label(self),
    {
        match self {
            SubTab::Albums => "Albums",
            SubTab::Artists => "Artists",
            SubTab::Playlists => "Playlists",
            SubTab::Tracks => "Tracks",
        }
    }

    /// The labels of all tabs, in order.
    pub fn labels() -> (r: Vec<&'static str>)
        ensures
            r@.len() == 4,
            r@[0]@ == tab_label(SubTab::Albums),
            r@[1]@ == tab_label(SubTab::Artists),
            r@[2]@ == tab_label(SubTab::Playlists),
            r@[3]@ == tab_label(SubTab::Tracks),
    {
        let mut r: Vec<&'static str> = Vec::new();
        r.push(SubTab::Albums.as_str());
        r.push(SubTab::Artists.as_str());
        r.push(SubTab::Playlists.as_str());
        r.push(SubTab::Tracks.as_str());
        r
    }
}

/// What choosing an entry of a track list leads to.
#[derive(Debug, Clone, PartialEq)]
pub enum TrackListEvent {
    Track,
    Album(String),
    Playlist(u32, bool),
    Artist(u32),
}

/// The path of an embedded asset to serve.
#[derive(Debug, Clone, PartialEq)]
pub struct StaticFile<T>(pub T);

/// Runs `f`. Where the platform lets the audio layer's native logging be
/// silenced, the output stage wraps this call in a redirection of standard
/// error; here `f` alone runs.
pub fn silence_stderr<F: FnOnce() -> R, R>(f: F) -> (r: R)
    requires
        f.requires(()),
    ensures
        f.ensures((), r),
{
    f()
}

} // verus!
