//! Game logic of a handheld LED cube: a tilt-driven 8 by 8 display running a
//! menu of small games. The core is the spatial simulation the map games
//! share: a logical map, a viewport that scrolls over it, maze generation and
//! movement resolution; around it sit the snake, climbing, hourglass and
//! picture screens, and the buffers of the display controller.

pub mod bagua;
pub mod cube_man;
pub mod devices;
pub mod face;
pub mod geometry;
pub mod hourglass;
pub mod layout;
pub mod map;
pub mod maze;
pub mod maze_game;
pub mod menu;
pub mod movement;
pub mod rng;
pub mod screen;
pub mod snake;
pub mod sokoban;
pub mod ui;
pub mod ws2812;
