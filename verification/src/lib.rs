//! A file-templating library: delimiter-wrapped tokens in a template body are
//! replaced with values drawn from a named replacement set, while every byte
//! outside a token is carried through verbatim.
//!
//! The engine is fail-fast per template: the first token whose key the set
//! does not bind stops that template's run with a structured error, and no
//! output is produced for it.

pub mod bytes;
pub mod config;
pub mod errors;
pub mod paths;
pub mod pattern;
pub mod subst;

pub use paths::backup_file_name;
pub use paths::resolve_template_path;
pub use config::Config;
pub use config::Entry;
pub use config::NamedSet;
pub use config::ReplacementSet;
pub use config::TemplatedFile;
pub use config::default_backup_value;
pub use config::default_whitelist_only;
pub use config::should_process;
pub use errors::UnresolvedKeyError;
pub use errors::display_io_error;
pub use pattern::Pattern;
pub use subst::render;
pub use subst::substitute;
