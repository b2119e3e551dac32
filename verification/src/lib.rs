//! Proposals for the message of a commit, made by a language model from the staged changes.
//!
//! The library holds what is decided and computed on the way: the staged patches are gathered
//! line by line (`git`) and fitted into the window of the model (`prompt::budget`), the
//! instruction document is assembled (`prompt::common`), the conversation with the backend
//! is kept turn by turn (`prompt::single_request`), its answers are read under one of two
//! conventions (`prompt::candidates`), and the proposals are offered in a menu that is driven
//! by keys (`tui`, `commands`). Reading the repository, the terminal and the network is left
//! to the caller, who hands over what was read and carries out what is handed back.

pub mod commands;
pub mod git;
pub mod lines;
pub mod open_ai;
pub mod prompt;
pub mod text;
pub mod tui;
