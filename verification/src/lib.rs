//! A JSON-RPC client core: the wire messages, their encoding and decoding,
//! and the binding of an interface description and a client structure to a
//! dispatcher that sends one request per call through a transport.

pub mod binding;
pub mod codec;
pub mod decimal;
pub mod dispatch;
pub mod error;
pub mod json;
pub mod laws;
pub mod message;
pub mod resolve;
pub mod response;
pub mod text;
pub mod transport;

pub use binding::{
    api, ApiError, Argument, Binding, Convention, Dispatcher, Interface, Item, Literal, Method,
    Setting,
};
pub use dispatch::{call, conclude, dispatch, prepare};
pub use error::Error;
pub use json::Json;
pub use message::{Id, Params, Request, RequestFault, Version};
pub use resolve::{
    implement, Accessor, Attribute, Endpoint, Field, Implementation, Layout, LayoutError, Role,
};
pub use response::{EnvelopeFault, JsonRpcError, Response, ResponsePayload};
pub use transport::SendRequest;
pub use url::Url;
