use vstd::prelude::*;

verus! {

/// The configuration file may be read and written by its owner only.
#[derive(Debug, PartialEq, Eq)]
pub enum PermissionError {
    /// Group or other users have some access; `mode` holds the permission bits.
    Insecure { mode: u32 },
}

/// The permission bits of a file mode.
pub open spec fn permission_bits(mode: u32) -> u32 {
    mode & 0o777u32
}

/// Whether group or other users have any access.
pub open spec fn shared_with_others(mode: u32) -> bool {
    permission_bits(mode) & 0o077u32 != 0
}

/// Accepts a configuration file mode that gives group and other users no
/// access; otherwise reports its permission bits.
pub fn check_permissions(mode: u32) -> (r: Result<(), PermissionError>)
    ensures
        r is Err <==> shared_with_others(mode),
        r matches Err(PermissionError::Insecure { mode: bits }) ==> bits == permission_bits(mode),
{
    let bits = mode & 0o777u32;
    if bits & 0o077u32 != 0 {
        Err(PermissionError::Insecure { mode: bits })
    } else {
        Ok(())
    }
}

/// The mode given to the configuration file when it is saved: read and
/// write for the owner only.
pub fn secure_mode() -> (mode: u32)
    ensures
        mode == 0o600u32,
{
    0o600u32
}

} // verus!
