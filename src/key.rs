//! A bootstrapping key held as one buffer per device, and its accessors.

use vstd::prelude::*;
use concrete_commons::parameters::{
    DecompositionBaseLog, DecompositionLevelCount, GlweDimension, LweDimension, PolynomialSize,
};
use core::marker::PhantomData;
use crate::params::BootstrapKeyParameters;
use crate::partition::shard_units;
use crate::width::{bytes_of, Coefficient, Width};

verus! {

/// Failures of distributing a key or of looking into one.
#[derive(Clone, Copy, Debug, PartialEq, Eq, Structural)]
pub enum KeyError {
    /// The host key's length differs from the one its parameters give.
    ParameterMismatch,
    /// A device could not provide the memory for its shard.
    AllocationFailure,
    /// Copying a shard to its device failed.
    TransferFailure,
    /// The key holds no buffer on the requested device.
    DeviceNotPresent,
}

/// One block of device memory holding a shard of a key.
#[derive(Debug)]
pub struct DeviceBuffer {
    /// Device the memory lives on.
    pub device_id: usize,
    /// Handle the device runtime returned for the block.
    pub handle: u64,
    /// Number of coefficients in the shard.
    pub element_count: usize,
    /// Size of the block in bytes.
    pub byte_length: usize,
}

impl DeviceBuffer {
    pub fn device_id(&self) -> (r: usize)
        ensures
            r == self.device_id,
    {
        self.device_id
    }

    pub fn handle(&self) -> (r: u64)
        ensures
            r == self.handle,
    {
        self.handle
    }

    pub fn element_count(&self) -> (r: usize)
        ensures
            r == self.element_count,
    {
        self.element_count
    }

    pub fn byte_length(&self) -> (r: usize)
        ensures
            r == self.byte_length,
    {
        self.byte_length
    }
}

/// Whether no two buffers share a device.
pub open spec fn distinct_devices(b: Seq<DeviceBuffer>) -> bool {
    forall|i: int, j: int|
        0 <= i < b.len() && 0 <= j < b.len() && i != j ==> b[i].device_id != b[j].device_id
}

/// A bootstrapping key spread over devices, one buffer each, with coefficients
/// of type `T`.
#[derive(Debug)]
pub struct DeviceBootstrapKey<T> {
    buffers: Vec<DeviceBuffer>,
    parameters: BootstrapKeyParameters,
    width: PhantomData<T>,
}

impl<T: Coefficient> DeviceBootstrapKey<T> {
    /// The buffers, in the order the devices were given.
    pub closed spec fn buffers_view(&self) -> Seq<DeviceBuffer> {
        self.buffers@
    }

    pub closed spec fn parameters_view(&self) -> BootstrapKeyParameters {
        self.parameters
    }

    /// At least one buffer, no device twice, and each buffer sized to the
    /// shard of the input-LWE axis that its position in the order gives.
    pub open spec fn well_formed(&self) -> bool {
        let b = self.buffers_view();
        let p = self.parameters_view()@;
        &&& p.valid()
        &&& b.len() > 0
        &&& distinct_devices(b)
        &&& forall|i: int|
            0 <= i < b.len() ==> {
                &&& b[i].element_count as nat == shard_units(
                    p.input_lwe_dimension,
                    b.len(),
                    i as nat,
                ) * p.unit_elements()
                &&& b[i].byte_length as nat == b[i].element_count as nat * bytes_of(
                    T::width_spec(),
                )
            }
    }

    pub(crate) fn assemble(buffers: Vec<DeviceBuffer>, parameters: BootstrapKeyParameters) -> (r:
        Self)
        ensures
            r.buffers_view() == buffers@,
            r.parameters_view() == parameters,
    {
        DeviceBootstrapKey { buffers, parameters, width: PhantomData }
    }

    pub fn parameters(&self) -> (r: &BootstrapKeyParameters)
        ensures
            *r == self.parameters_view(),
    {
        &self.parameters
    }

    pub fn width(&self) -> (r: Width)
        ensures
            r == T::width_spec(),
    {
        T::width()
    }

    pub fn polynomial_size(&self) -> (r: PolynomialSize)
        ensures
            r.0 as nat == self.parameters_view()@.polynomial_size,
    {
        self.parameters.polynomial_size()
    }

    pub fn input_lwe_dimension(&self) -> (r: LweDimension)
        ensures
            r.0 as nat == self.parameters_view()@.input_lwe_dimension,
    {
        self.parameters.input_lwe_dimension()
    }

    pub fn glwe_dimension(&self) -> (r: GlweDimension)
        ensures
            r.0 as nat == self.parameters_view()@.glwe_dimension,
    {
        self.parameters.glwe_dimension()
    }

    pub fn decomposition_level_count(&self) -> (r: DecompositionLevelCount)
        ensures
            r.0 as nat == self.parameters_view()@.decomposition_level_count,
    {
        self.parameters.decomposition_level_count()
    }

    pub fn decomposition_base_log(&self) -> (r: DecompositionBaseLog)
        ensures
            r.0 as nat == self.parameters_view()@.decomposition_base_log,
    {
        self.parameters.decomposition_base_log()
    }

    /// The buffers, one per device, in the order the devices were given.
    pub fn device_buffers(&self) -> (r: &[DeviceBuffer])
        ensures
            r@ == self.buffers_view(),
    {
        self.buffers.as_slice()
    }

    /// The buffer on `device_id` and the key's parameters, for kernel dispatch.
    pub fn buffer_for_device(&self, device_id: usize) -> (r: Result<
        (&DeviceBuffer, &BootstrapKeyParameters),
        KeyError,
    >)
        ensures
            r is Err <==> forall|i: int|
                0 <= i < self.buffers_view().len() ==> self.buffers_view()[i].device_id
                    != device_id,
            r matches Err(e) ==> e == KeyError::DeviceNotPresent,
            r matches Ok((b, p)) ==> {
                &&& *p == self.parameters_view()
                &&& b.device_id == device_id
                &&& exists|i: int|
                    0 <= i < self.buffers_view().len() && *b == self.buffers_view()[i]
            },
    {
        let mut i: usize = 0;
        while i < self.buffers.len()
            invariant
                i <= self.buffers@.len(),
                forall|k: int| 0 <= k < i ==> self.buffers@[k].device_id != device_id,
            decreases self.buffers@.len() - i,
        {
            if self.buffers[i].device_id == device_id {
                assert(self.buffers_view()[i as int] == self.buffers@[i as int]);
                return Ok((&self.buffers[i], &self.parameters));
            }
            i = i + 1;
        }
        Err(KeyError::DeviceNotPresent)
    }

    /// Gives up the key, handing back its buffers in device order so that
    /// each can be freed on its device.
    pub fn into_buffers(self) -> (r: Vec<DeviceBuffer>)
        ensures
            r@ == self.buffers_view(),
    {
        self.buffers
    }
}

} // verus!
