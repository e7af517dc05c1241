// Blobs: closed rings of interacting particles, drawn as outlines.
//
// The library holds the discrete part of the model: which particles of a ring interact
// in a tick and in what order (`topology`), the laws those pairwise terms obey
// (`momentum`), the text of a ring's outline (`path`), the configuration of a scene of
// blobs (`scene`), and the decisions of the periodic task that drives a blob (`driver`).

use vstd::prelude::*;

pub mod driver;
pub mod momentum;
pub mod path;
pub mod scene;
pub mod topology;

verus! {

} // verus!
