//! Composable request/response services driven by polling.
//!
//! A [`Service`] answers requests with computations that are polled to
//! completion; a [`NewService`] builds services from a configuration. The
//! combinators of this crate chain and adapt both, each as an explicit state
//! machine whose single step is specified by a relation between the state
//! before the poll, the state after it and the value the poll handed back.

pub mod poll;
pub mod future;
pub mod service;
pub mod cell;
pub mod func;
pub mod branch;
pub mod map;
pub mod map_err;
pub mod map_init_err;
pub mod from_err;
pub mod and_then;
pub mod and_then_apply;
pub mod and_then_transform;
pub mod apply_cfg;
pub mod blocking;

pub use crate::poll::Poll;
pub use crate::future::{TryFuture, IntoTryFuture, Ready, ok, err};
pub use crate::service::{Service, NewService, Transform, IntoService, IntoNewService};
pub use crate::cell::{Cell, Shelf};
pub use crate::map::{MapService, MapFuture, MapNewService, MapNewServiceFuture};
pub use crate::map_err::{MapErr, MapErrFuture, MapErrNewService, MapErrNewServiceFuture};
pub use crate::map_init_err::{MapInitErr, MapInitErrFuture};
pub use crate::from_err::{FromErr, FromErrFuture, FromErrNewService, FromErrNewServiceFuture};
pub use crate::and_then::{AndThen, AndThenFuture, AndThenNewService, AndThenNewServiceFuture};
pub use crate::and_then_apply::{
    AndThenApply, AndThenApplyFuture, AndThenApplyNewService, AndThenApplyNewServiceFuture,
};
pub use crate::and_then_transform::{AndThenTransform, AndThenTransformFuture};
pub use crate::apply_cfg::{apply_cfg, new_apply_cfg};
pub use crate::blocking::{BlockingError, CpuFuture};
