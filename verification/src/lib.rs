//! A distributed rate limiter whose per-client state lives in a shared Redis server.
//!
//! Three strategies are offered: token bucket, fixed window and sliding window. A check of one
//! request has three steps. The limiter builds the key of the client and writes the commands of
//! the check into a `redis` pipeline; the host runs the pipeline in a transaction on the key;
//! the limiter decides on the replies. The first and the last step are here, with contracts
//! that say which commands are written and which decision follows from which replies. The
//! exchange with the server is the host's part.
//!
//! `counter_model` and `window_model` say what the commands do to a store that behaves as
//! documented, and prove what the limiters achieve on it: how the budget of a client descends,
//! when it is throttled and for how long, and that clients do not affect each other.

pub mod address;
pub mod builders;
pub mod counter_model;
pub mod entities;
pub mod errors;
pub mod factory;
pub mod intensity;
pub mod key;
pub mod middleware;
pub mod rate_limiters;
pub mod settings;
pub mod store;
pub mod text;
pub mod time;
pub mod window_model;
