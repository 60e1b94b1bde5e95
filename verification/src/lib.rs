//! Verified core of a deployment copier: it reads a tree specification of
//! owners and modes, compares it with a scanned source tree, and plans the
//! shell commands (chown, chmod, mkdir, rsync) that copy the tree into place.

pub mod text;
pub mod number;
pub mod filemap;
pub mod xmltree;
pub mod spectree;
pub mod params;
pub mod prelim;
pub mod args;
pub mod base;
pub mod commands;
pub mod source;
pub mod walk;
