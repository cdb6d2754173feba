use crate::chance::random_below;
use std::marker::PhantomData;
use vstd::prelude::*;

verus! {

/// A 3D printer whose state is part of its type: only the steps that make
/// sense in a state exist there.
pub struct Printer3D<S> {
    _marker: PhantomData<S>,
}

/// The 3D printer encountered an error and needs resetting
pub enum ErrorState {
    Failed,
}

/// The 3D printer is waiting for a job
pub enum IdleState {
    Idle,
}

/// The 3D printer is currently printing
pub enum PrintingState {
    Printing,
}

/// The 3D printed product is ready
pub enum ProductReadyState {
    Ready,
}

/// How full the spool is taken to be, out of a hundred.
pub const FILAMENT_LEVELS: usize = 100;

/// The highest level at which the filament still lasts.
pub const LAST_GOOD_LEVEL: usize = 95;

/// Whether the filament is used up at `level`.
pub open spec fn runs_out(level: usize) -> bool {
    level > LAST_GOOD_LEVEL
}

/// Whether a print at `level` ends without filament.
pub fn filament_runs_out(level: usize) -> (out: bool)
    ensures
        out == runs_out(level),
{
    level > LAST_GOOD_LEVEL
}

/// Check if we're out of filament: draws a level and tests it.
fn out_of_filament() -> bool {
    let level = random_below(FILAMENT_LEVELS);
    filament_runs_out(level)
}

impl<S> Printer3D<S> {
    /// The same printer in another state.
    fn change_state<T>(self) -> Printer3D<T> {
        Printer3D { _marker: PhantomData }
    }
}

impl Default for Printer3D<IdleState> {
    /// A printer that waits for a job.
    fn default() -> Self {
        Self::new()
    }
}

impl Printer3D<IdleState> {
    /// A printer that waits for a job.
    pub fn new() -> Self {
        Self { _marker: PhantomData }
    }

    /// Takes a job.
    pub fn start(self) -> Printer3D<PrintingState> {
        self.change_state()
    }
}

impl Printer3D<PrintingState> {
    /// Prints, which uses filament: the product is ready unless the filament
    /// ran out on the way.
    pub fn print(self) -> Result<Printer3D<ProductReadyState>, Printer3D<ErrorState>> {
        let out = out_of_filament();
        self.finish(out)
    }

    /// The state after a print: an error if and only if the filament ran
    /// out.
    pub fn finish(self, out_of_filament: bool) -> (r: Result<
        Printer3D<ProductReadyState>,
        Printer3D<ErrorState>,
    >)
        ensures
            r.is_err() == out_of_filament,
    {
        if out_of_filament {
            Err(self.change_state())
        } else {
            Ok(self.change_state())
        }
    }
}

impl Printer3D<ProductReadyState> {
    /// Takes the product out; the printer waits for the next job.
    pub fn retrieve_product(self) -> Printer3D<IdleState> {
        self.change_state()
    }
}

impl Printer3D<ErrorState> {
    /// Clears the error; the printer waits for the next job.
    pub fn reset(self) -> Printer3D<IdleState> {
        self.change_state()
    }
}

} // verus!
