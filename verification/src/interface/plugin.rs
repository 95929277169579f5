//! Plugin interface model: factory names and interface descriptions.

use vstd::prelude::*;

verus! {

/// Well-known factory names of the default support plugin.
pub const LOG_FACTORY: &'static str = "support.log";

pub const SYSTEM_FACTORY: &'static str = "support.system";

pub const CPU_FACTORY: &'static str = "support.cpu";

/// Description of one interface a factory can produce.
pub struct InterfaceInfo {
    pub type_: String,
}

impl InterfaceInfo {
    /// A description naming an interface type.
    pub fn new(type_: String) -> (r: InterfaceInfo)
        ensures
            r.type_@ == type_@,
    {
        InterfaceInfo { type_ }
    }
}

/// The built-in native support handle: the factory of the capabilities
/// the library itself can stand behind, without a foreign plugin.
pub struct PluginHandle {}

impl PluginHandle {
    /// The foreign contract's version word.
    pub fn version(&self) -> (r: u32)
        ensures
            r == 0,
    {
        0
    }

    /// Which interface names this handle can produce: the system and the
    /// thread-utils capabilities.
    pub fn provides(&self, type_: &str) -> (r: bool)
        ensures
            r <==> (type_@ == crate::interface::SYSTEM@ || type_@
                == crate::interface::THREAD_UTILS@),
    {
        crate::str_eq(type_, crate::interface::SYSTEM) || crate::str_eq(
            type_,
            crate::interface::THREAD_UTILS,
        )
    }
}

} // verus!
