//! Window-layout synchronisation for an editor running under a tiling
//! compositor: process-tree search for the editor's socket, clustering of
//! editor windows into columns, and the width that those columns ask for.
//!
//! Around it: reading process records out of status files, telling the
//! focused window's program by its class, and the terminal's
//! remote-control framing and window listing.

pub mod discovery;
pub mod kitty;
pub mod launch;
pub mod niri_multi_socket;
pub mod pstree;
pub mod status;
pub mod vim;
pub mod width;
