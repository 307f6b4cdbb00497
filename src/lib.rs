//! Launch core of a game launcher: turns an instance's configuration and
//! version metadata into the exact command line that starts the game.
pub mod classpath;
pub mod error;
pub mod launch;
pub mod layout;
pub mod model;
pub mod text;
