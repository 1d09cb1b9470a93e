//! The start of the server.

use vstd::prelude::*;

use crate::container::ContainerManager;

verus! {

/// The arguments of `serve`; the store is a path of any type.
pub struct ServeArgs<P> {
    /// A model to load at once.
    pub model: Option<String>,
    /// The directory of the store, in place of the default.
    pub store: Option<P>,
    /// Engines run in containers of this manager.
    pub ociman: Option<ContainerManager>,
    /// The release of the engine, in place of the latest.
    pub llama_cpp_version: Option<String>,
    /// Only fetches the image of the engine.
    pub pull_oci: bool,
    /// Only fetches the program of the engine.
    pub pull_bin: bool,
    /// The size of the context that every engine is asked for.
    pub ctx_size: Option<u32>,
}

/// What a server does when it is started.
#[derive(Debug, Clone, Copy, PartialEq, Eq, Structural)]
pub enum ServePlan {
    /// It refuses: containers are for Linux.
    NotLinux,
    /// It refuses: an image is fetched for a manager of containers.
    NoManager,
    /// It fetches the image, and ends.
    PullImage(ContainerManager),
    /// It fetches the program, and ends.
    PullBinary,
    /// It serves, with the engine's program found first where engines do not run
    /// in containers.
    Serve { needs_binary: bool },
}

/// What a server does when it is started.
pub open spec fn plan_of<P>(args: ServeArgs<P>, is_linux: bool) -> ServePlan {
    if args.ociman is Some && !is_linux {
        ServePlan::NotLinux
    } else if args.pull_oci {
        match args.ociman {
            Some(m) => ServePlan::PullImage(m),
            None => ServePlan::NoManager,
        }
    } else if args.pull_bin {
        ServePlan::PullBinary
    } else {
        ServePlan::Serve { needs_binary: args.ociman is None }
    }
}

impl<P> ServeArgs<P> {
    /// What the server does when it is started.
    pub fn plan(&self, is_linux: bool) -> (r: ServePlan)
        ensures
            r == plan_of(*self, is_linux),
    {
        if self.ociman.is_some() && !is_linux {
            return ServePlan::NotLinux;
        }
        if self.pull_oci {
            return match self.ociman {
                Some(m) => ServePlan::PullImage(m),
                None => ServePlan::NoManager,
            };
        }
        if self.pull_bin {
            return ServePlan::PullBinary;
        }
        ServePlan::Serve { needs_binary: self.ociman.is_none() }
    }
}

impl ServePlan {
    /// The message of a refusal.
    pub fn refusal(self) -> (r: Option<&'static str>)
        ensures
            match r {
                Some(m) => {
                    ||| self is NotLinux && m@ == "--ociman is only supported on Linux"@
                    ||| self is NoManager && m@ == "--pull-oci requires --ociman"@
                },
                None => !(self is NotLinux) && !(self is NoManager),
            },
    {
        match self {
            ServePlan::NotLinux => Some("--ociman is only supported on Linux"),
            ServePlan::NoManager => Some("--pull-oci requires --ociman"),
            _ => None,
        }
    }
}

/// The address on which the server listens.
pub const LISTEN_ADDRESS: &'static str = "127.0.0.1:17434";

} // verus!
