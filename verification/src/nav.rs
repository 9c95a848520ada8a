//! Navigation state for the panel-based user interface around the
//! handshake: which panel is active, which is hovered, and where a
//! list cursor moves.  Rendering stays outside; these are the bare
//! decisions.

use vstd::prelude::*;

verus! {

/// The panels of the interface.
#[derive(Debug, Clone, Copy, PartialEq, Eq, Structural)]
pub enum ActiveBlock {
    /// The directory of panels.
    Directory,
    /// The user's playlists.
    UserPlaylists,
    /// The user's top tracks.
    UserTopTracks,
    /// The user's top artists.
    UserTopArtists,
    /// One opened playlist.
    Playlist,
    /// One opened artist.
    Artist,
    /// The track options popup.
    Popup,
    /// The log view.
    Logger,
}

/// The current and hovered panel.
#[derive(Debug, Clone, Copy, PartialEq, Eq, Structural)]
pub struct Route {
    /// The panel receiving input.
    pub active_block: ActiveBlock,
    /// The panel a tab switch would enter.
    pub hovered_block: ActiveBlock,
}

/// The two top-level tabs.
#[derive(Debug, Clone, Copy, PartialEq, Eq, Structural)]
pub enum SelectedTab {
    /// The main panel layout.
    Main,
    /// The log view.
    Logger,
}

/// The panel a tab switch enters: from the directory or the popup into
/// the hovered panel, from anywhere else back to the directory.
pub open spec fn next_block(r: Route) -> ActiveBlock {
    match r.active_block {
        ActiveBlock::Directory => r.hovered_block,
        ActiveBlock::Popup => r.hovered_block,
        _ => ActiveBlock::Directory,
    }
}

/// The panel a directory selection opens, by row.
pub open spec fn directory_target(sel: Option<usize>) -> Option<ActiveBlock> {
    match sel {
        Some(0usize) => Some(ActiveBlock::UserPlaylists),
        Some(1usize) => Some(ActiveBlock::UserTopTracks),
        Some(2usize) => Some(ActiveBlock::UserTopArtists),
        _ => None,
    }
}

impl Route {
    /// Switch panels: into the hovered panel from the directory or the
    /// popup, back to the directory from anywhere else.  The hovered
    /// panel stays.
    pub fn next(&mut self)
        ensures
            final(self).active_block == next_block(*old(self)),
            final(self).hovered_block == old(self).hovered_block,
    {
        self.active_block = match self.active_block {
            ActiveBlock::Directory => self.hovered_block,
            ActiveBlock::Popup => self.hovered_block,
            _ => ActiveBlock::Directory,
        };
    }

    /// Enter the panel a directory row opens, and hover it; with no
    /// row selected (or an unassigned row), nothing changes.
    pub fn select_directory(&mut self, sel: Option<usize>)
        ensures
            (match directory_target(sel) {
                Some(b) => final(self).active_block == b && final(self).hovered_block == b,
                None => *final(self) == *old(self),
            }),
    {
        match sel {
            Some(0) => {
                self.active_block = ActiveBlock::UserPlaylists;
                self.hovered_block = ActiveBlock::UserPlaylists;
            },
            Some(1) => {
                self.active_block = ActiveBlock::UserTopTracks;
                self.hovered_block = ActiveBlock::UserTopTracks;
            },
            Some(2) => {
                self.active_block = ActiveBlock::UserTopArtists;
                self.hovered_block = ActiveBlock::UserTopArtists;
            },
            _ => {},
        }
    }
}

/// One cursor step down a list of `len` items: from nothing to the
/// first item, otherwise to the next, never past the last.
pub fn cursor_down(sel: Option<usize>, len: usize) -> (r: Option<usize>)
    ensures
        len == 0 ==> r == sel,
        len > 0 ==> (match sel {
            None => r == Some(0usize),
            Some(i) => r == Some(
                if i + 1 < len {
                    (i + 1) as usize
                } else {
                    i
                },
            ),
        }),
{
    if len == 0 {
        return sel;
    }
    match sel {
        None => Some(0),
        Some(i) => {
            if i < len - 1 {
                Some(i + 1)
            } else {
                Some(i)
            }
        },
    }
}

/// One cursor step up: from nothing to the first item, otherwise to
/// the previous, never before the first.
pub fn cursor_up(sel: Option<usize>, len: usize) -> (r: Option<usize>)
    ensures
        len == 0 ==> r == sel,
        len > 0 ==> (match sel {
            None => r == Some(0usize),
            Some(i) => r == Some(
                if i > 0 {
                    (i - 1) as usize
                } else {
                    0usize
                },
            ),
        }),
{
    if len == 0 {
        return sel;
    }
    match sel {
        None => Some(0),
        Some(i) => {
            if i > 0 {
                Some(i - 1)
            } else {
                Some(0)
            }
        },
    }
}

} // verus!
