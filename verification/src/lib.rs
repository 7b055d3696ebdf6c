//! The rules of a browser-based coding environment, stated and proved.
//!
//! The heart of the crate is the lifecycle of a session: an external,
//! time-bounded editor container that a controller service creates on behalf
//! of one user. The crate says which request goes to the controller, how its
//! reply is judged, what the registry of live sessions holds afterwards, and
//! which expiry is armed. Making the HTTP exchange and arming the host timer
//! is left to the embedding canister, which hands replies in and carries
//! actions out.
//!
//! Around it stand the stores of the editor: the projects that users edit,
//! with the simulated compiler, test runner and terminal, and the marketplace
//! of templates.
//!
//! Every operation reads the clock through its caller: the time is an
//! argument, never a call.

pub mod error;
pub mod frontend;
pub mod gateway;
pub mod json;
pub mod keyed;
pub mod lifecycle;
pub mod marketplace;
pub mod projects;
pub mod registry;
pub mod terminal;
pub mod text;
