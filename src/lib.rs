//! Two gravity-grid games, four-in-a-row and letter-drop, with win and draw
//! detection, heuristic scoring and a minimax search for the computer side.
pub mod connect4;
pub mod grid;
mod random;
pub mod toot_otto;
