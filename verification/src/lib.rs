//! A synchronous dispatch core for Telegram bots: typed dependency injection,
//! composable filters, middleware, routers and a dispatcher, each with a
//! machine-checked contract.
//!
//! An update goes to the [`dispatcher`], which saves the chats it shows in
//! the [`cache`], drops it where it is of the client's own making, and hands
//! it to its routers and plugins in turn. A [`router`] tries its handlers in
//! order, under its [`middleware`]; a [`handler`] asks its [`filter`] and,
//! where that passes, calls its endpoint with arguments drawn from the
//! injector of [`di`]. What a filter, a middleware, an endpoint or an error
//! handler may do is stated as a relation that the type of each declares;
//! what a router or the dispatcher comes to is stated over those relations.
//!
//! The library does no input or output and waits for nothing: whoever
//! receives the updates turns them into the plain values of [`update`] and
//! calls the dispatcher.

pub mod cache;
pub mod client;
pub mod context;
pub mod conversation;
pub mod di;
pub mod dispatcher;
pub mod error;
pub mod error_handler;
pub mod filter;
pub mod filters;
pub mod flow;
pub mod handler;
pub mod middleware;
pub mod plugin;
pub mod router;
pub mod text;
pub mod update;
pub mod utils;
