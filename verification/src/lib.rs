//! Discovery and bookkeeping of Java installations on a host.
//!
//! The crate finds the Java installations of a machine, learns version,
//! architecture and supplier of each from what its executable prints, and
//! keeps them in a registry that can be asked by version, supplier and
//! architecture.
//!
//! Nothing in here touches the machine. Every operation that needs the
//! environment, the file system or another program is a function of the
//! replies it has been given so far, and returns either the next
//! [`Request`] or its result (see [`host`]). The caller performs each
//! request, appends the [`Reply`] and calls again:
//!
//! ```text
//! let mut replies = Vec::new();
//! let home = loop {
//!     match locate_java_home(Platform::Unix, &replies) {
//!         Step::Ask(request) => replies.push(perform(&request)),
//!         Step::Done(home, _) => break home,
//!     }
//! };
//! ```
//!
//! Every function is verified against a specification that says, for all
//! replies, what it asks and what it returns. The specifications are the
//! `spec` functions beside the functions; what is taken on trust of the
//! standard library and of `glob` is marked where it stands.

pub mod errors;
pub mod host;
pub mod info;
pub mod local;
pub mod locate;
pub mod manager;
pub mod model;
pub mod paths;
pub mod rank;
pub mod select;
pub mod text;
pub mod utils;

pub use errors::{ErrorKind, JavaLocatorError, Result};
pub use host::{CommandOutput, Platform, Reply, Request, Step};
pub use info::JavaInfo;
pub use local::{
    find_all_java_installations, get_java_by_version, get_java_document, get_java_dyn_lib,
    get_java_home as get_local_java_home, get_latest_java,
};
pub use locate::{
    get_jvm_dyn_lib_file_name, locate_file, locate_java_home, locate_jvm_dyn_library,
};
pub use manager::JavaManager;
pub use utils::{
    get_java_architecture, get_java_info, get_java_suppliers, get_java_version,
    validate_java_executable,
};
