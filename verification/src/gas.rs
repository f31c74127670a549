//! The block gas meter.

use vstd::prelude::*;

verus! {

/// The most gas that the transactions of one block may use together.
pub const BLOCK_GAS_LIMIT: u64 = 10_000_000_000;

/// Why a charge to the gas meter failed.
#[derive(Clone, Copy, Debug, PartialEq, Eq, Structural)]
pub enum GasError {
    /// The charge would take the block over `BLOCK_GAS_LIMIT`.
    BlockGasExceeded,
}

/// The gas that the transactions of the current block have used so far.
///
/// The meter never holds more than `BLOCK_GAS_LIMIT`, so what it holds always
/// fits the signed 64-bit field in which a response reports gas.
#[derive(Debug)]
pub struct BlockGasMeter {
    block_gas: u64,
}

impl View for BlockGasMeter {
    type V = int;

    closed spec fn view(&self) -> int {
        self.block_gas as int
    }
}

impl Clone for BlockGasMeter {
    fn clone(&self) -> (copy: Self)
        ensures
            copy@ == self@,
            self.wf() ==> copy.wf(),
    {
        BlockGasMeter { block_gas: self.block_gas }
    }
}

impl Default for BlockGasMeter {
    fn default() -> (meter: Self)
        ensures
            meter.wf(),
            meter@ == 0,
    {
        BlockGasMeter { block_gas: 0 }
    }
}

/// The gas that the meter holds after a charge of `gas` to a meter that held
/// `used`: the sum, or the limit where the sum lies beyond it.
pub open spec fn charged(used: int, gas: int) -> int {
    if used + gas <= BLOCK_GAS_LIMIT {
        used + gas
    } else {
        BLOCK_GAS_LIMIT as int
    }
}

impl BlockGasMeter {
    /// The invariant of the type: the gas used is within the block's limit.
    pub closed spec fn wf(&self) -> bool {
        self.block_gas <= BLOCK_GAS_LIMIT
    }

    /// A meter is within the limit.
    pub proof fn lemma_within_limit(&self)
        requires
            self.wf(),
        ensures
            0 <= self@ <= BLOCK_GAS_LIMIT,
    {
    }

    /// Sets the meter back to zero, for a new block.
    pub fn reset(&mut self)
        ensures
            final(self).wf(),
            final(self)@ == 0,
    {
        self.block_gas = 0;
    }

    /// Charges `gas` to the block.
    ///
    /// Where the charge would take the block over `BLOCK_GAS_LIMIT`, the meter
    /// stops at the limit and the charge fails.
    pub fn add(&mut self, gas: u64) -> (result: Result<(), GasError>)
        requires
            old(self).wf(),
        ensures
            final(self).wf(),
            final(self)@ == charged(old(self)@, gas as int),
            result is Ok <==> old(self)@ + gas <= BLOCK_GAS_LIMIT,
            result is Err ==> result == Err::<(), GasError>(GasError::BlockGasExceeded),
    {
        if gas <= BLOCK_GAS_LIMIT - self.block_gas {
            self.block_gas = self.block_gas + gas;
            Ok(())
        } else {
            self.block_gas = BLOCK_GAS_LIMIT;
            Err(GasError::BlockGasExceeded)
        }
    }

    /// The gas that the block has used so far.
    pub fn block_gas(&self) -> (gas: u64)
        ensures
            gas == self@,
    {
        self.block_gas
    }
}

/// A gas amount in the signed form in which responses carry it.
pub fn as_i64(gas: u64) -> (signed: i64)
    requires
        gas <= i64::MAX,
    ensures
        signed == gas,
{
    gas as i64
}

} // verus!
