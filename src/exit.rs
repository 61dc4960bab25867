use vstd::prelude::*;

verus! {

/// How the process ends.
#[derive(Clone, Copy, Debug, PartialEq, Eq)]
pub enum Outcome {
    /// The application asked to quit.
    Quit,
    /// The terminal could not be put into the captured mode.
    DeviceError,
    /// A channel's producer ended.
    ChannelDisconnected,
}

/// The process's exit status: zero on a clean quit, one on any failure.
pub fn exit_code(o: Outcome) -> (r: i32)
    ensures
        r == (if o is Quit {
            0i32
        } else {
            1i32
        }),
{
    match o {
        Outcome::Quit => 0,
        _ => 1,
    }
}

} // verus!
