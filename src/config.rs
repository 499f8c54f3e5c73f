use vstd::prelude::*;

verus! {

/// The port the server listens on when none is configured.
pub const DEFAULT_PORT: u16 = 44444;

/// The compaction period, in seconds, when none is configured.
pub const DEFAULT_COMPACTION_INTERVAL: u32 = 86400;

/// The port to listen on, given the configured value if there is one; `None`
/// where that value is not a port number.
pub fn get_port(configured: Option<u64>) -> (r: Option<u16>)
    ensures
        r == (match configured {
            None => Some(DEFAULT_PORT),
            Some(n) => if n <= u16::MAX {
                Some(n as u16)
            } else {
                None::<u16>
            },
        }),
{
    match configured {
        None => Some(DEFAULT_PORT),
        Some(n) => if n <= u16::MAX as u64 {
            Some(n as u16)
        } else {
            None
        },
    }
}

/// The compaction period in seconds, given the configured value if there is
/// one; `None` where that value does not fit.
pub fn get_compaction_interval(configured: Option<u64>) -> (r: Option<u32>)
    ensures
        r == (match configured {
            None => Some(DEFAULT_COMPACTION_INTERVAL),
            Some(n) => if n <= u32::MAX {
                Some(n as u32)
            } else {
                None::<u32>
            },
        }),
{
    match configured {
        None => Some(DEFAULT_COMPACTION_INTERVAL),
        Some(n) => if n <= u32::MAX as u64 {
            Some(n as u32)
        } else {
            None
        },
    }
}

} // verus!
