//! Latest-change lookup over a commit history.
//!
//! For every path of a source tree, or for one chosen path, the library finds
//! the newest commit that changed it. Only commits with exactly one parent
//! count: a root commit has nothing to compare against and a merge commit has
//! no single baseline. Each counted commit is compared with its parent, and
//! every changed path keeps the commit with the greatest timestamp; among
//! commits with equal timestamps the one met first in walk order stays.
//!
//! A change is filed under the path on the commit's side. Where that side has
//! no path, as for a removed file, it is filed under the path on the parent's
//! side; a change with no path on either side is passed over.
//!
//! Paths are byte strings, compared byte for byte.

pub mod model;
pub mod record;
pub mod table;
pub mod scanner;
pub mod repo;
pub mod laws;
