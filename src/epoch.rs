use vstd::prelude::*;

use crate::error::Error;

verus! {

/// Issuance accumulated in the current epoch, and the amounts every epoch is
/// expected to issue once the first full epoch has been seen.
#[derive(Debug, Clone, Copy, PartialEq, Eq, Structural, Default)]
pub struct EpochAccountant {
    pub epoch_primary: u64,
    pub epoch_secondary: u64,
    pub epoch_primary_expected: u64,
    pub epoch_secondary_expected: u64,
}

/// Adding `primary` and `secondary` to the epoch's accumulators; `None` when a
/// sum leaves 64 bits.
pub open spec fn accumulate_spec(a: EpochAccountant, primary: int, secondary: int) -> Option<
    EpochAccountant,
> {
    if a.epoch_primary + primary > u64::MAX || a.epoch_secondary + secondary > u64::MAX {
        None
    } else {
        Some(
            EpochAccountant {
                epoch_primary: (a.epoch_primary + primary) as u64,
                epoch_secondary: (a.epoch_secondary + secondary) as u64,
                ..a
            },
        )
    }
}

/// Closing epoch `epoch_number`. The first one sets the expected amounts (the
/// genesis burn folded into the primary one); every later one must match them.
/// Either way the accumulators start again from zero.
pub open spec fn boundary_spec(a: EpochAccountant, epoch_number: u64, primary_burned: u64) -> Result<
    EpochAccountant,
    Error,
> {
    if epoch_number == 0 {
        if a.epoch_primary + primary_burned > u64::MAX {
            Err(Error::ValueOutOfRange)
        } else {
            Ok(
                EpochAccountant {
                    epoch_primary: 0,
                    epoch_secondary: 0,
                    epoch_primary_expected: (a.epoch_primary + primary_burned) as u64,
                    epoch_secondary_expected: a.epoch_secondary,
                },
            )
        }
    } else if a.epoch_primary != a.epoch_primary_expected || a.epoch_secondary
        != a.epoch_secondary_expected {
        Err(Error::EpochAccountingMismatch { epoch: epoch_number })
    } else {
        Ok(EpochAccountant { epoch_primary: 0, epoch_secondary: 0, ..a })
    }
}

impl EpochAccountant {
    /// Empty accumulators and no expectation yet.
    pub fn new() -> (r: Self)
        ensures
            r == (EpochAccountant {
                epoch_primary: 0,
                epoch_secondary: 0,
                epoch_primary_expected: 0,
                epoch_secondary_expected: 0,
            }),
    {
        EpochAccountant {
            epoch_primary: 0,
            epoch_secondary: 0,
            epoch_primary_expected: 0,
            epoch_secondary_expected: 0,
        }
    }

    /// Adds issuance to the current epoch's accumulators.
    pub fn accumulate(&mut self, primary: u64, secondary: u64) -> (r: Result<(), Error>)
        ensures
            accumulate_spec(*old(self), primary as int, secondary as int) is Some ==> r == Ok::<
                (),
                Error,
            >(()) && Some(*final(self)) == accumulate_spec(
                *old(self),
                primary as int,
                secondary as int,
            ),
            accumulate_spec(*old(self), primary as int, secondary as int) is None ==> r == Err::<
                (),
                Error,
            >(Error::ValueOutOfRange) && *final(self) == *old(self),
    {
        if primary > u64::MAX - self.epoch_primary || secondary > u64::MAX - self.epoch_secondary {
            return Err(Error::ValueOutOfRange);
        }
        self.epoch_primary = self.epoch_primary + primary;
        self.epoch_secondary = self.epoch_secondary + secondary;
        Ok(())
    }

    /// Closes epoch `epoch_number`, checking it against the expected amounts
    /// unless it is the first one.
    pub fn on_epoch_boundary(&mut self, epoch_number: u64, primary_burned: u64) -> (r: Result<
        (),
        Error,
    >)
        ensures
            match r {
                Ok(_) => boundary_spec(*old(self), epoch_number, primary_burned) == Ok::<
                    EpochAccountant,
                    Error,
                >(*final(self)),
                Err(e) => boundary_spec(*old(self), epoch_number, primary_burned) == Err::<
                    EpochAccountant,
                    Error,
                >(e) && *final(self) == *old(self),
            },
    {
        if epoch_number == 0 {
            if primary_burned > u64::MAX - self.epoch_primary {
                return Err(Error::ValueOutOfRange);
            }
            self.epoch_primary_expected = self.epoch_primary + primary_burned;
            self.epoch_secondary_expected = self.epoch_secondary;
        } else if self.epoch_primary != self.epoch_primary_expected || self.epoch_secondary
            != self.epoch_secondary_expected {
            return Err(Error::EpochAccountingMismatch { epoch: epoch_number });
        }
        self.epoch_primary = 0;
        self.epoch_secondary = 0;
        Ok(())
    }
}

/// Once the first epoch has been closed, a later epoch that accumulates
/// `primary` and `secondary` fails its check with `EpochAccountingMismatch`
/// exactly when `primary` differs from the first epoch's primary issuance plus
/// the genesis burn, or `secondary` from its secondary issuance; otherwise it
/// closes without error.
pub proof fn lemma_epoch_mismatch(
    first: EpochAccountant,
    primary_burned: u64,
    primary: u64,
    secondary: u64,
    epoch_number: u64,
)
    requires
        epoch_number > 0,
        boundary_spec(first, 0, primary_burned) is Ok,
    ensures
        ({
            let base = boundary_spec(first, 0, primary_burned)->Ok_0;
            let second = accumulate_spec(base, primary as int, secondary as int)->Some_0;
            let differs = primary != first.epoch_primary + primary_burned || secondary
                != first.epoch_secondary;
            &&& accumulate_spec(base, primary as int, secondary as int) is Some
            &&& differs ==> boundary_spec(second, epoch_number, primary_burned) == Err::<
                EpochAccountant,
                Error,
            >(Error::EpochAccountingMismatch { epoch: epoch_number })
            &&& !differs ==> boundary_spec(second, epoch_number, primary_burned) is Ok
        }),
{
}

} // verus!
