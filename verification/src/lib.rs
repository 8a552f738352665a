//! A small content-addressed note store.
//!
//! A `Descriptor` is a four-field text note keyed by a deterministic digest of
//! its canonicalized fields.  Flat, line-oriented indexes map field values to
//! that digest, and storage is partitioned into isolated namespaces
//! ("spaces").  The storage medium is abstracted behind the
//! [`descriptor_store::DescriptorStore`] port; an in-memory implementation
//! lives in [`descriptor_store_mem`].

pub mod app;
pub mod desc_director;
pub mod desc_service_fs;
pub mod descriptor;
pub mod descriptor_facade;
pub mod descriptor_store;
pub mod descriptor_store_mem;
pub mod descriptor_tools;
pub mod hashing;
pub mod laws;
pub mod space;
pub mod store_view;
pub mod text;

pub use desc_director::DescDirector;
pub use desc_service_fs::DescServiceFS;
pub use descriptor::Descriptor;
pub use descriptor_facade::DescriptorFacade;
pub use descriptor_store::DescriptorStore;
pub use descriptor_store_mem::DescriptorStoreMem;
pub use text::canonicalize;
pub use text::trim;
