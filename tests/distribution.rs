use concrete_commons::parameters::{
    DecompositionBaseLog, DecompositionLevelCount, GlweDimension, LweDimension, PolynomialSize,
};
use cuda_bootstrap_key::distribution::{distinct_device_ids, Action, Distribution, Event};
use cuda_bootstrap_key::key::{DeviceBootstrapKey, KeyError};
use cuda_bootstrap_key::params::BootstrapKeyParameters;
use cuda_bootstrap_key::partition::shard_sizes;
use cuda_bootstrap_key::width::{Coefficient, Width};

fn params(l: usize, g: usize, p: usize, lvl: usize, b: usize) -> BootstrapKeyParameters {
    BootstrapKeyParameters::new(
        LweDimension(l),
        GlweDimension(g),
        PolynomialSize(p),
        DecompositionLevelCount(lvl),
        DecompositionBaseLog(b),
    )
    .unwrap()
}

fn example_params() -> BootstrapKeyParameters {
    params(4, 1, 8, 2, 3)
}

struct Block<T> {
    handle: u64,
    device_id: usize,
    byte_length: usize,
    data: Vec<T>,
}

/// An in-memory stand-in for the device runtime, with injectable failures.
struct FakeDevices<T> {
    live: Vec<Block<T>>,
    next_handle: u64,
    fail_allocation_on: Option<usize>,
    fail_transfer_on: Option<usize>,
    transfers: Vec<usize>,
}

impl<T: Clone> FakeDevices<T> {
    fn new() -> Self {
        FakeDevices {
            live: Vec::new(),
            next_handle: 100,
            fail_allocation_on: None,
            fail_transfer_on: None,
            transfers: Vec::new(),
        }
    }

    fn allocate(&mut self, device_id: usize, byte_length: usize) -> Event {
        if self.fail_allocation_on == Some(device_id) {
            return Event::AllocationFailed;
        }
        let handle = self.next_handle;
        self.next_handle += 1;
        self.live.push(Block { handle, device_id, byte_length, data: Vec::new() });
        Event::Allocated(handle)
    }

    fn transfer(&mut self, device_id: usize, handle: u64, data: Vec<T>) -> Event {
        self.transfers.push(device_id);
        if self.fail_transfer_on == Some(device_id) {
            return Event::TransferFailed;
        }
        let block = self.live.iter_mut().find(|b| b.handle == handle).unwrap();
        assert_eq!(block.device_id, device_id);
        block.data = data;
        Event::Transferred
    }

    fn free(&mut self, handle: u64) {
        let before = self.live.len();
        self.live.retain(|b| b.handle != handle);
        assert_eq!(self.live.len() + 1, before, "freed a handle that was not live");
    }

    fn read_back(&self, handle: u64) -> Vec<T> {
        self.live.iter().find(|b| b.handle == handle).unwrap().data.clone()
    }
}

fn distribute<T: Coefficient + Clone>(
    devices: &mut FakeDevices<T>,
    host: Vec<T>,
    parameters: BootstrapKeyParameters,
    ids: Vec<usize>,
) -> Result<DeviceBootstrapKey<T>, KeyError> {
    let (mut d, mut action) = Distribution::start(host, parameters, ids)?;
    loop {
        let event = match action {
            Action::Allocate { device_id, byte_length } => devices.allocate(device_id, byte_length),
            Action::Transfer { device_id, handle, data } => {
                devices.transfer(device_id, handle, data)
            }
            Action::Release { buffers, error } => {
                for b in buffers {
                    devices.free(b.handle);
                }
                return Err(error);
            }
            Action::Complete => return Ok(d.finish()),
        };
        assert!(d.accepts(&event));
        action = d.step(event);
    }
}

fn host_u64(n: usize) -> Vec<u64> {
    (0..n as u64).map(|x| x * 0x1_0000_0001 + 7).collect()
}

fn host_u32(n: usize) -> Vec<u32> {
    (0..n as u32).map(|x| x.wrapping_mul(2654435761)).collect()
}

#[test]
fn four_entries_over_two_devices_split_evenly() {
    assert_eq!(shard_sizes(4, 2), vec![2, 2]);
    let mut devices = FakeDevices::new();
    let key = distribute(&mut devices, host_u64(256), example_params(), vec![0, 1]).unwrap();
    let counts: Vec<usize> = key.device_buffers().iter().map(|b| b.element_count()).collect();
    assert_eq!(counts, vec![128, 128]);
}

#[test]
fn four_entries_over_three_devices_remainder_first() {
    assert_eq!(shard_sizes(4, 3), vec![2, 1, 1]);
    let mut devices = FakeDevices::new();
    let key = distribute(&mut devices, host_u64(256), example_params(), vec![0, 1, 2]).unwrap();
    let counts: Vec<usize> = key.device_buffers().iter().map(|b| b.element_count()).collect();
    assert_eq!(counts, vec![128, 64, 64]);
}

#[test]
fn partition_sums_and_balances() {
    for (total, count) in [(10usize, 3usize), (0, 4), (7, 7), (3, 5), (1000, 1), (17, 4)] {
        let s = shard_sizes(total, count);
        assert_eq!(s.len(), count);
        assert_eq!(s.iter().sum::<usize>(), total);
        let max = *s.iter().max().unwrap();
        let min = *s.iter().min().unwrap();
        assert!(max - min <= 1);
    }
    assert_eq!(shard_sizes(10, 3), vec![4, 3, 3]);
    assert_eq!(shard_sizes(3, 5), vec![1, 1, 1, 0, 0]);
}

#[test]
fn partition_largest_total() {
    let s = shard_sizes(usize::MAX, 2);
    assert_eq!(s, vec![usize::MAX / 2 + 1, usize::MAX / 2]);
    assert_eq!(shard_sizes(usize::MAX, 1), vec![usize::MAX]);
}

#[test]
fn round_trip_u64() {
    let host = host_u64(256);
    let mut devices = FakeDevices::new();
    let key = distribute(&mut devices, host.clone(), example_params(), vec![0, 1, 2]).unwrap();
    let mut back = Vec::new();
    for b in key.device_buffers() {
        back.extend(devices.read_back(b.handle()));
    }
    assert_eq!(back, host);
}

#[test]
fn round_trip_u32_uneven() {
    // 5 input entries over 3 devices: shards of 2, 2 and 1 entries.
    let p = params(5, 2, 4, 1, 7);
    let host = host_u32(5 * 3 * 4 * 3);
    let mut devices = FakeDevices::new();
    let key = distribute(&mut devices, host.clone(), p, vec![4, 9, 1]).unwrap();
    let mut back = Vec::new();
    for b in key.device_buffers() {
        back.extend(devices.read_back(b.handle()));
    }
    assert_eq!(back, host);
    let counts: Vec<usize> = key.device_buffers().iter().map(|b| b.element_count()).collect();
    assert_eq!(counts, vec![72, 72, 36]);
}

#[test]
fn parameter_fidelity_u64() {
    let mut devices = FakeDevices::new();
    let key = distribute(&mut devices, host_u64(256), example_params(), vec![0]).unwrap();
    assert_eq!(key.input_lwe_dimension(), LweDimension(4));
    assert_eq!(key.glwe_dimension(), GlweDimension(1));
    assert_eq!(key.polynomial_size(), PolynomialSize(8));
    assert_eq!(key.decomposition_level_count(), DecompositionLevelCount(2));
    assert_eq!(key.decomposition_base_log(), DecompositionBaseLog(3));
    assert_eq!(key.width(), Width::Width64);
}

#[test]
fn parameter_fidelity_u32() {
    let p = params(3, 2, 16, 5, 11);
    let mut devices = FakeDevices::new();
    let key = distribute(&mut devices, host_u32(3 * 3 * 5 * 16 * 3), p, vec![0, 1]).unwrap();
    assert_eq!(key.input_lwe_dimension(), LweDimension(3));
    assert_eq!(key.glwe_dimension(), GlweDimension(2));
    assert_eq!(key.polynomial_size(), PolynomialSize(16));
    assert_eq!(key.decomposition_level_count(), DecompositionLevelCount(5));
    assert_eq!(key.decomposition_base_log(), DecompositionBaseLog(11));
    assert_eq!(key.width(), Width::Width32);
}

#[test]
fn transfer_failure_on_last_device_leaves_nothing() {
    let mut devices = FakeDevices::new();
    devices.fail_transfer_on = Some(2);
    let r = distribute(&mut devices, host_u64(256), example_params(), vec![0, 1, 2]);
    assert_eq!(r.unwrap_err(), KeyError::TransferFailure);
    assert_eq!(devices.live.len(), 0);
    assert_eq!(devices.transfers, vec![0, 1, 2]);
}

#[test]
fn allocation_failure_rolls_back() {
    let mut devices = FakeDevices::new();
    devices.fail_allocation_on = Some(1);
    let r = distribute(&mut devices, host_u64(256), example_params(), vec![0, 1, 2]);
    assert_eq!(r.unwrap_err(), KeyError::AllocationFailure);
    assert_eq!(devices.live.len(), 0);
}

#[test]
fn allocation_failure_on_first_device_releases_nothing() {
    let mut devices: FakeDevices<u64> = FakeDevices::new();
    devices.fail_allocation_on = Some(3);
    let (mut d, action) = Distribution::start(host_u64(256), example_params(), vec![3]).unwrap();
    assert!(matches!(action, Action::Allocate { device_id: 3, byte_length: 2048 }));
    match d.step(Event::AllocationFailed) {
        Action::Release { buffers, error } => {
            assert!(buffers.is_empty());
            assert_eq!(error, KeyError::AllocationFailure);
        }
        _ => panic!("expected a release"),
    }
    assert!(!d.accepts(&Event::Transferred));
    assert!(!d.is_complete());
}

#[test]
fn order_of_devices_is_kept() {
    let mut devices = FakeDevices::new();
    let key = distribute(&mut devices, host_u64(256), example_params(), vec![2, 0, 1]).unwrap();
    let ids: Vec<usize> = key.device_buffers().iter().map(|b| b.device_id()).collect();
    assert_eq!(ids, vec![2, 0, 1]);
}

#[test]
fn host_key_of_wrong_length_is_refused() {
    let r = Distribution::start(host_u64(255), example_params(), vec![0, 1]);
    assert_eq!(r.err().unwrap(), KeyError::ParameterMismatch);
    let r = Distribution::start(host_u64(257), example_params(), vec![0]);
    assert_eq!(r.err().unwrap(), KeyError::ParameterMismatch);
}

#[test]
fn oversized_parameters_are_a_mismatch() {
    let p = params(usize::MAX, 1, 8, 2, 3);
    let r = Distribution::start(host_u64(4), p, vec![0]);
    assert_eq!(r.err().unwrap(), KeyError::ParameterMismatch);
}

#[test]
fn buffer_lookup_by_device() {
    let mut devices = FakeDevices::new();
    let key = distribute(&mut devices, host_u32(256), example_params(), vec![7, 3]).unwrap();
    let (b, p) = key.buffer_for_device(3).unwrap();
    assert_eq!(b.device_id(), 3);
    assert_eq!(b.element_count(), 128);
    assert_eq!(b.byte_length(), 512);
    assert_eq!(p.polynomial_size(), PolynomialSize(8));
    assert_eq!(key.buffer_for_device(5).err().unwrap(), KeyError::DeviceNotPresent);
}

#[test]
fn byte_lengths_follow_width() {
    let mut d32 = FakeDevices::new();
    let k32 = distribute(&mut d32, host_u32(256), example_params(), vec![0, 1, 2]).unwrap();
    let b32: Vec<usize> = k32.device_buffers().iter().map(|b| b.byte_length()).collect();
    assert_eq!(b32, vec![512, 256, 256]);
    let mut d64 = FakeDevices::new();
    let k64 = distribute(&mut d64, host_u64(256), example_params(), vec![0, 1, 2]).unwrap();
    let b64: Vec<usize> = k64.device_buffers().iter().map(|b| b.byte_length()).collect();
    assert_eq!(b64, vec![1024, 512, 512]);
    let lens: Vec<usize> = d64.live.iter().map(|b| b.byte_length).collect();
    assert_eq!(lens, vec![1024, 512, 512]);
}

#[test]
fn released_key_hands_back_every_buffer() {
    let mut devices = FakeDevices::new();
    let key = distribute(&mut devices, host_u64(256), example_params(), vec![1, 0]).unwrap();
    let buffers = key.into_buffers();
    assert_eq!(buffers.len(), 2);
    for b in buffers {
        devices.free(b.handle());
    }
    assert_eq!(devices.live.len(), 0);
}

#[test]
fn parameters_are_validated() {
    let ok = BootstrapKeyParameters::new(
        LweDimension(1),
        GlweDimension(1),
        PolynomialSize(1),
        DecompositionLevelCount(1),
        DecompositionBaseLog(1),
    );
    assert!(ok.is_some());
    let zero = BootstrapKeyParameters::new(
        LweDimension(0),
        GlweDimension(1),
        PolynomialSize(8),
        DecompositionLevelCount(1),
        DecompositionBaseLog(1),
    );
    assert!(zero.is_none());
    let not_pow2 = BootstrapKeyParameters::new(
        LweDimension(2),
        GlweDimension(1),
        PolynomialSize(12),
        DecompositionLevelCount(1),
        DecompositionBaseLog(1),
    );
    assert!(not_pow2.is_none());
    let zero_base = BootstrapKeyParameters::new(
        LweDimension(2),
        GlweDimension(1),
        PolynomialSize(1024),
        DecompositionLevelCount(3),
        DecompositionBaseLog(0),
    );
    assert!(zero_base.is_none());
}

#[test]
fn coefficient_widths() {
    assert_eq!(<u32 as Coefficient>::byte_width(), 4);
    assert_eq!(<u64 as Coefficient>::byte_width(), 8);
    assert_eq!(<u32 as Coefficient>::width(), Width::Width32);
    assert_eq!(<u64 as Coefficient>::width(), Width::Width64);
}

#[test]
fn device_id_sets_are_checked_for_repeats() {
    assert!(distinct_device_ids(&vec![2, 0, 1]));
    assert!(distinct_device_ids(&vec![5]));
    assert!(!distinct_device_ids(&vec![0, 1, 0]));
    assert!(!distinct_device_ids(&vec![3, 3]));
}
