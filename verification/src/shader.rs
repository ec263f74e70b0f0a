use vstd::prelude::*;

verus! {

/// The value OpenGL stores in a shader's compile-status query on success
/// (the GL boolean "true").
pub const COMPILE_STATUS_OK: u8 = 1;

/// Decides whether a shader compiled, from the raw status byte the graphics
/// API reports. The caller fetches the status; on `false` it is expected to
/// fetch the info log and abort.
pub fn compile_succeeded(status: u8) -> (r: bool)
    ensures
        r == (status == COMPILE_STATUS_OK),
{
    status == COMPILE_STATUS_OK
}

} // verus!
