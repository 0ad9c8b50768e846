//! A hex-dump viewer library: a pure line formatter that renders a byte
//! buffer as fixed-width `address: hex bytes  ascii` lines, and a viewport
//! controller that decides, for each navigation intent, how the scroll
//! offset and cursor move and whether a full redraw is needed.

pub mod formatter;
pub mod screen;
pub mod viewport;
