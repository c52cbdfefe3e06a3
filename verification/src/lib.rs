//! Decision logic of a chat bot that builds the packages touched by nixpkgs pull requests:
//! reading chat commands, bookkeeping of running builds, choosing the packages to build,
//! the Nix invocation, the replies to build results, and the preparation of build logs for a
//! paste service.

pub mod command;
pub mod full_build;
pub mod packages;
pub mod paste_log;
pub mod pr_build;
pub mod pr_flow;
pub mod replies;
pub mod state;
pub mod text;
pub mod trusted;
pub mod vec_ext;

pub use vec_ext::VecRemoveItem;
