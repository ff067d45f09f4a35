//! Reactive properties: single-value broadcast channels with idempotent
//! sends, their composition into models, and the bridge that reconciles
//! host-owned rows with native channels.
//!
//! All shared state lives in a [`Hub`]; senders, receivers and models are
//! cheap handles into it, so every operation is an explicit, sequential step
//! on that state. What a publish owes the host is scheduled in the hub and
//! left for the caller to carry out.

pub mod common;
pub mod generator;
pub mod model;
pub mod parser;
pub mod property;
pub mod receiver_group;
pub mod slint;
pub mod slint_model;
pub mod stream;

pub use generator::{
    camel_to_snake, find_block_range, generate, generate_code_components, generate_file,
    generate_slint_doc, generate_slint_file, replace_or_append_block, rust_type_to_slint_type,
    to_kebab_case, update_index_slint,
};
pub use model::{Channels, Field, FieldReceiver, FieldSender, Instance, InstanceReceiver, InstanceSender, Model, ModelList, Receivers, Senders};
pub use parser::{Direction, FieldLen, ModelError, ModelField, SlintModel, SlintModelField};
pub use property::{Hub, HubView, Property, Publish, Receiver, ReceiverExt, Sender, SenderExt, SetterCall, Slot, Wait};
pub use receiver_group::{bind_group, ReceiverGroup};
pub use slint::notify_model::{BridgeView, HostValue, SlintNotifyModel};
pub use slint::singleton::{Key, Registry, SlintSingleton};
pub use slint_model::{Bound, Fetched, FieldKind};
pub use stream::{bind_each, bind_pair, PropertyStream, PropertyStreamExt};
