// Window glue of a desktop client: the glyphs of its icon font, and the
// state machine that debounces window moves and resizes, with the laws it obeys.

pub mod icon;
pub mod lemmas;
pub mod window;
