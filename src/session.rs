use vstd::prelude::*;

verus! {

/// The terminal device's mode.
#[derive(Clone, Copy, Debug, PartialEq, Eq)]
pub enum TerminalMode {
    /// Line-buffered, main screen, no mouse reporting, cursor shown.
    Normal,
    /// Raw input, alternate screen, mouse capture on, cursor hidden.
    Captured,
}

/// The device does not support the requested mode.
#[derive(Clone, Copy, Debug, PartialEq, Eq)]
pub struct DeviceError;

/// What the session's history says of the device.
pub struct SessionView {
    pub mode: TerminalMode,
    /// How many times the captured mode was given back.
    pub releases: nat,
}

/// The view of a session right after its acquisition.
pub open spec fn acquired_view() -> SessionView {
    SessionView { mode: TerminalMode::Captured, releases: 0 }
}

/// The view after one call of `release`: only a captured device is given back.
pub open spec fn after_release(v: SessionView) -> SessionView {
    SessionView {
        mode: TerminalMode::Normal,
        releases: if v.mode == TerminalMode::Captured {
            v.releases + 1
        } else {
            v.releases
        },
    }
}

/// The view after `k` calls of `release`.
pub open spec fn after_releases(v: SessionView, k: nat) -> SessionView
    decreases k,
{
    if k == 0 {
        v
    } else {
        after_release(after_releases(v, (k - 1) as nat))
    }
}

/// Ownership of the terminal's captured mode. It exists only once the mode
/// was acquired, and gives it back at most once however many exit paths ask.
pub struct TerminalSession {
    mode: TerminalMode,
    releases: u64,
}

impl TerminalSession {
    pub closed spec fn view(&self) -> SessionView {
        SessionView { mode: self.mode, releases: self.releases as nat }
    }

    #[verifier::type_invariant]
    closed spec fn inv(&self) -> bool {
        ||| self.mode == TerminalMode::Captured && self.releases == 0
        ||| self.mode == TerminalMode::Normal && self.releases == 1
    }

    /// Takes the outcome of switching the device into the captured mode: a
    /// session on success, the device's error otherwise.
    pub fn acquire(outcome: Result<(), DeviceError>) -> (r: Result<TerminalSession, DeviceError>)
        ensures
            outcome is Ok <==> r is Ok,
            r matches Ok(s) ==> s@ == acquired_view(),
            outcome is Err ==> r == Err::<TerminalSession, DeviceError>(DeviceError),
    {
        match outcome {
            Ok(()) => Ok(TerminalSession { mode: TerminalMode::Captured, releases: 0 }),
            Err(e) => Err(e),
        }
    }

    /// The device's mode as the session knows it.
    pub fn mode(&self) -> (r: TerminalMode)
        ensures
            r == self@.mode,
    {
        self.mode
    }

    /// How many times the captured mode was given back: 0 or 1.
    pub fn releases(&self) -> (r: u64)
        ensures
            r == self@.releases,
            r <= 1,
    {
        proof {
            use_type_invariant(self);
        }
        self.releases
    }

    /// Asks to give the device back. Returns whether the caller is to undo
    /// the captured mode now: true on the first call only.
    pub fn release(&mut self) -> (perform: bool)
        ensures
            perform == (old(self)@.mode == TerminalMode::Captured),
            final(self)@ == after_release(old(self)@),
    {
        proof {
            use_type_invariant(&*self);
        }
        match self.mode {
            TerminalMode::Captured => {
                *self = TerminalSession { mode: TerminalMode::Normal, releases: 1 };
                true
            },
            TerminalMode::Normal => false,
        }
    }
}

/// Any number of release requests, from the loop's end, an error path and
/// the scope's exit together, leave the device in the normal mode, given
/// back exactly once.
pub proof fn lemma_released_exactly_once(k: nat)
    requires
        k >= 1,
    ensures
        after_releases(acquired_view(), k) == (SessionView {
            mode: TerminalMode::Normal,
            releases: 1,
        }),
    decreases k,
{
    let v = acquired_view();
    assert(after_releases(v, 0) == v);
    if k > 1 {
        lemma_released_exactly_once((k - 1) as nat);
    }
    assert(after_releases(v, k) == after_release(after_releases(v, (k - 1) as nat)));
}

} // verus!
