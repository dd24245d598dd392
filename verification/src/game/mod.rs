pub mod chain;
pub mod consts;
pub mod coords;
pub mod direction;
pub mod food;
pub mod line;
pub mod maths;
pub mod rect;
pub mod snake;
pub mod state;
