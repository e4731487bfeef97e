use vstd::prelude::*;

verus! {

/// The command line of the renderer: the scene file to render.
pub struct Cli {
    pub input_scene_file: String,
}

} // verus!
