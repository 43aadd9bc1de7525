//! A project-local tool version manager: a manifest pins versions of external
//! executables, a cache installs them atomically, a template resolver turns
//! logical command names into runnable command lines, and a shim dispatch
//! protocol redirects intercepted invocations to the right pinned binary.

pub mod args;
pub mod cache;
mod chars;
pub mod config;
pub mod download;
pub mod help;
pub mod host;
pub mod install;
pub mod platform;
pub mod shim;
pub mod template;
pub mod util;

pub use args::{parse_args, Args, Invocation};
pub use cache::{Cache, CommandLine, CommandNotFoundError, ResolveError};
pub use chars::u64_to_dec_string;
pub use config::{Configuration, DownloadUrls, ToolConfiguration, CONFIG_FILENAME};
pub use help::print_help;
pub use host::{FixedHost, Host, SystemHost};
pub use platform::{Linux, Platform, PlatformFunctions, PlatformKind, Windows};
pub use template::template;
