//! Distributing a host key over devices, as a state machine: each step takes
//! what the device runtime reported and says what to do next. Whoever drives
//! it performs the allocations, copies and frees.

use vstd::prelude::*;
use crate::key::{distinct_devices, DeviceBootstrapKey, DeviceBuffer, KeyError};
use crate::params::{BootstrapKeyParameters, ParamsView};
use crate::partition::{lemma_shards_tile, shard_sizes, shard_start, shard_units};
use crate::width::{bytes_of, Coefficient};

verus! {

/// First coefficient of the shard of device `i` out of `n`.
pub open spec fn element_start(p: ParamsView, n: nat, i: nat) -> nat {
    shard_start(p.input_lwe_dimension, n, i) * p.unit_elements()
}

/// Number of coefficients in the shard of device `i` out of `n`.
pub open spec fn shard_elements(p: ParamsView, n: nat, i: nat) -> nat {
    shard_units(p.input_lwe_dimension, n, i) * p.unit_elements()
}

/// The coefficients of `host` that device `i` out of `n` receives.
pub open spec fn shard_of<T>(host: Seq<T>, p: ParamsView, n: nat, i: nat) -> Seq<T> {
    host.subrange(element_start(p, n, i) as int, element_start(p, n, i + 1) as int)
}

/// The shards of devices `0..k`, concatenated in device order.
pub open spec fn concat_shards<T>(host: Seq<T>, p: ParamsView, n: nat, k: nat) -> Seq<T>
    decreases k,
{
    if k == 0 {
        Seq::empty()
    } else {
        concat_shards(host, p, n, (k - 1) as nat) + shard_of(host, p, n, (k - 1) as nat)
    }
}

/// Whether `b` is the buffer of device `i` out of `ids` for a key of shape
/// `p` with `bytes`-byte coefficients.
pub open spec fn buffer_fits(
    b: DeviceBuffer,
    ids: Seq<usize>,
    p: ParamsView,
    bytes: nat,
    i: nat,
) -> bool {
    &&& b.device_id == ids[i as int]
    &&& b.element_count as nat == shard_elements(p, ids.len(), i)
    &&& b.byte_length as nat == shard_elements(p, ids.len(), i) * bytes
}

/// Whether no device id occurs twice.
pub open spec fn distinct_ids(s: Seq<usize>) -> bool {
    forall|i: int, j: int| 0 <= i < s.len() && 0 <= j < s.len() && i != j ==> s[i] != s[j]
}

/// The handles of a sequence of buffers.
pub open spec fn handles_of(b: Seq<DeviceBuffer>) -> Seq<u64> {
    b.map_values(|x: DeviceBuffer| x.handle)
}

proof fn lemma_shard_bounds(p: ParamsView, n: nat, i: nat)
    requires
        n > 0,
        i < n,
    ensures
        element_start(p, n, i + 1) == element_start(p, n, i) + shard_elements(p, n, i),
        element_start(p, n, i + 1) <= p.total_elements(),
        element_start(p, n, 0) == 0,
{
    let l = p.input_lwe_dimension;
    let ue = p.unit_elements();
    lemma_shards_tile(l, n);
    assert(shard_start(l, n, i + 1) == shard_start(l, n, i) + shard_units(l, n, i));
    let a = shard_start(l, n, i);
    let b = shard_units(l, n, i);
    assert((a + b) * ue == a * ue + b * ue) by (nonlinear_arith);
    let q = l / n;
    assert((i + 1) * q <= n * q) by (nonlinear_arith)
        requires
            i + 1 <= n,
    ;
    vstd::arithmetic::div_mod::lemma_fundamental_div_mod(l as int, n as int);
    assert(n * q == q * n) by (nonlinear_arith);
    assert(shard_start(l, n, i + 1) <= l);
    let c = shard_start(l, n, i + 1);
    assert(c * ue <= l * ue) by (nonlinear_arith)
        requires
            c <= l,
    ;
    assert(0 * ue == 0);
}

/// Reassembly: the shards of all `n` devices, concatenated in device order,
/// give back the whole host key.
pub proof fn lemma_shards_reassemble<T>(host: Seq<T>, p: ParamsView, n: nat)
    requires
        n > 0,
        host.len() == p.total_elements(),
    ensures
        concat_shards(host, p, n, n) == host,
{
    lemma_prefix_reassembles(host, p, n, n);
    let l = p.input_lwe_dimension;
    lemma_shards_tile(l, n);
    assert(host.subrange(0, host.len() as int) =~= host);
}

proof fn lemma_prefix_reassembles<T>(host: Seq<T>, p: ParamsView, n: nat, k: nat)
    requires
        n > 0,
        k <= n,
        host.len() == p.total_elements(),
    ensures
        element_start(p, n, k) <= host.len(),
        concat_shards(host, p, n, k) == host.subrange(0, element_start(p, n, k) as int),
    decreases k,
{
    if k == 0 {
        lemma_shard_bounds(p, n, 0);
        assert(host.subrange(0, 0) =~= Seq::<T>::empty());
    } else {
        lemma_prefix_reassembles(host, p, n, (k - 1) as nat);
        lemma_shard_bounds(p, n, (k - 1) as nat);
        assert(concat_shards(host, p, n, k) =~= host.subrange(0, element_start(p, n, k) as int));
    }
}

/// What the device runtime reports back after an action.
#[derive(Clone, Copy, Debug, PartialEq, Eq, Structural)]
pub enum Event {
    /// The allocation succeeded and returned this handle.
    Allocated(u64),
    /// The device could not provide the memory.
    AllocationFailed,
    /// The copy completed.
    Transferred,
    /// The copy failed.
    TransferFailed,
}

/// What the driver is asked to do next.
#[derive(Debug)]
pub enum Action<T> {
    /// Allocate `byte_length` bytes on `device_id`, then report `Allocated`
    /// or `AllocationFailed`.
    Allocate { device_id: usize, byte_length: usize },
    /// Copy `data` into the block `handle` on `device_id`, then report
    /// `Transferred` or `TransferFailed`.
    Transfer { device_id: usize, handle: u64, data: Vec<T> },
    /// Free every buffer listed, each on its device, then report `error`.
    Release { buffers: Vec<DeviceBuffer>, error: KeyError },
    /// Every shard is in place: take the key with `finish`.
    Complete,
}

/// A distribution in progress, from one host key to one key per device set.
pub struct Distribution<T> {
    host: Vec<T>,
    parameters: BootstrapKeyParameters,
    device_ids: Vec<usize>,
    units: Vec<usize>,
    unit_elements: usize,
    byte_width: usize,
    next: usize,
    offset: usize,
    pending: Option<u64>,
    placed: Vec<DeviceBuffer>,
    failed: bool,
    received: Ghost<Seq<u64>>,
}

impl<T: Coefficient> Distribution<T> {
    pub closed spec fn host_view(&self) -> Seq<T> {
        self.host@
    }

    pub closed spec fn params_view(&self) -> ParamsView {
        self.parameters@
    }

    pub closed spec fn parameters_value(&self) -> BootstrapKeyParameters {
        self.parameters
    }

    pub closed spec fn device_ids_view(&self) -> Seq<usize> {
        self.device_ids@
    }

    /// Index of the device being worked on.
    pub closed spec fn next_index(&self) -> nat {
        self.next as nat
    }

    /// Handle allocated on the current device and not yet filled.
    pub closed spec fn pending_view(&self) -> Option<u64> {
        self.pending
    }

    /// Buffers of the devices whose shards are in place, in device order.
    pub closed spec fn placed_view(&self) -> Seq<DeviceBuffer> {
        self.placed@
    }

    /// Every handle the runtime has handed over during this distribution.
    pub closed spec fn received(&self) -> Seq<u64> {
        self.received@
    }

    pub closed spec fn failed_view(&self) -> bool {
        self.failed
    }

    pub open spec fn device_count(&self) -> nat {
        self.device_ids_view().len()
    }

    pub open spec fn coefficient_bytes(&self) -> nat {
        bytes_of(T::width_spec())
    }

    pub open spec fn awaits_allocation(&self) -> bool {
        !self.failed_view() && self.next_index() < self.device_count()
            && self.pending_view() is None
    }

    pub open spec fn awaits_transfer(&self) -> bool {
        !self.failed_view() && self.next_index() < self.device_count()
            && self.pending_view() is Some
    }

    pub open spec fn complete(&self) -> bool {
        !self.failed_view() && self.next_index() == self.device_count()
    }

    /// Whether `e` answers the action this distribution last asked for.
    pub open spec fn accepts_spec(&self, e: Event) -> bool {
        ||| self.awaits_allocation() && (e is Allocated || e is AllocationFailed)
        ||| self.awaits_transfer() && (e is Transferred || e is TransferFailed)
    }

    /// The internal invariant of a distribution that has not failed.
    pub closed spec fn inv(&self) -> bool {
        let p = self.parameters@;
        let n = self.device_ids@.len();
        &&& p.valid()
        &&& n > 0
        &&& distinct_ids(self.device_ids@)
        &&& self.host@.len() == p.total_elements()
        &&& self.host@.len() * bytes_of(T::width_spec()) <= usize::MAX
        &&& self.units@.len() == n
        &&& forall|i: int|
            0 <= i < n ==> self.units@[i] as nat == shard_units(
                p.input_lwe_dimension,
                n,
                i as nat,
            )
        &&& self.unit_elements as nat == p.unit_elements()
        &&& self.byte_width as nat == bytes_of(T::width_spec())
        &&& self.next <= n
        &&& self.offset as nat == element_start(p, n, self.next as nat)
        &&& self.next == n ==> self.pending is None
        &&& self.placed@.len() == self.next
        &&& forall|i: int|
            0 <= i < self.next ==> buffer_fits(
                #[trigger] self.placed@[i],
                self.device_ids@,
                p,
                bytes_of(T::width_spec()),
                i as nat,
            )
        &&& self.received@ == handles_of(self.placed@) + match self.pending {
            Some(h) => seq![h],
            None => Seq::empty(),
        }
    }

    /// Whether `e` answers the action this distribution last asked for.
    pub fn accepts(&self, e: &Event) -> (r: bool)
        ensures
            r == self.accepts_spec(*e),
    {
        if self.failed || self.next >= self.device_ids.len() {
            false
        } else {
            match self.pending {
                None => matches!(e, Event::Allocated(_) | Event::AllocationFailed),
                Some(_) => matches!(e, Event::Transferred | Event::TransferFailed),
            }
        }
    }

    /// Whether every shard is in place.
    pub fn is_complete(&self) -> (r: bool)
        ensures
            r == self.complete(),
    {
        !self.failed && self.next == self.device_ids.len()
    }

    fn current_shard_bytes(&self) -> (r: usize)
        requires
            self.inv(),
            self.next < self.device_ids@.len(),
        ensures
            r as nat == shard_elements(self.params_view(), self.device_count(), self.next as nat)
                * self.coefficient_bytes(),
    {
        let p = Ghost(self.parameters@);
        let n = Ghost(self.device_ids@.len());
        proof {
            lemma_shard_bounds(p@, n@, self.next as nat);
            let e = shard_elements(p@, n@, self.next as nat);
            let bw = self.byte_width as nat;
            assert(e <= self.host@.len());
            assert(bw >= 1);
            assert(self.host@.len() <= self.host@.len() * bw) by (nonlinear_arith)
                requires
                    bw >= 1,
            ;
            assert(e * bw <= self.host@.len() * bw) by (nonlinear_arith)
                requires
                    e <= self.host@.len(),
            ;
        }
        let u = self.units[self.next];
        assert(u as nat * self.unit_elements as nat == shard_elements(
            p@,
            n@,
            self.next as nat,
        ));
        let e = u * self.unit_elements;
        e * self.byte_width
    }

    fn current_shard_elements(&self) -> (r: usize)
        requires
            self.inv(),
            self.next < self.device_ids@.len(),
        ensures
            r as nat == shard_elements(self.params_view(), self.device_count(), self.next as nat),
            self.offset + r == element_start(
                self.params_view(),
                self.device_count(),
                self.next as nat + 1,
            ),
            self.offset + r <= self.host@.len(),
            self.offset + r <= usize::MAX,
    {
        proof {
            lemma_shard_bounds(self.parameters@, self.device_ids@.len(), self.next as nat);
            let bw = self.byte_width as nat;
            assert(bw >= 1);
            assert(self.host@.len() <= self.host@.len() * bw) by (nonlinear_arith)
                requires
                    bw >= 1,
            ;
        }
        let u = self.units[self.next];
        assert(u as nat * self.unit_elements as nat == shard_elements(
            self.parameters@,
            self.device_ids@.len(),
            self.next as nat,
        ));
        u * self.unit_elements
    }

    fn copy_shard(&self) -> (r: Vec<T>)
        requires
            self.inv(),
            self.next < self.device_ids@.len(),
        ensures
            r@ == shard_of(
                self.host_view(),
                self.params_view(),
                self.device_count(),
                self.next as nat,
            ),
    {
        let p = Ghost(self.parameters@);
        let n = Ghost(self.device_ids@.len());
        proof {
            lemma_shard_bounds(p@, n@, self.next as nat);
        }
        let count = self.current_shard_elements();
        let end = self.offset + count;
        let mut data: Vec<T> = Vec::new();
        let mut k: usize = self.offset;
        while k < end
            invariant
                self.offset <= k <= end,
                end <= self.host@.len(),
                data@ == self.host@.subrange(self.offset as int, k as int),
            decreases end - k,
        {
            data.push(self.host[k]);
            k = k + 1;
            assert(data@ =~= self.host@.subrange(self.offset as int, k as int));
        }
        data
    }

    /// Checks the host key against its parameters and asks for the first
    /// allocation. Fails with `ParameterMismatch` exactly when the key's
    /// length is not the one the parameters give.
    pub fn start(
        host_key: Vec<T>,
        parameters: BootstrapKeyParameters,
        device_ids: Vec<usize>,
    ) -> (r: Result<(Self, Action<T>), KeyError>)
        requires
            parameters@.valid(),
            device_ids@.len() > 0,
            distinct_ids(device_ids@),
            host_key@.len() * bytes_of(T::width_spec()) <= usize::MAX,
        ensures
            r is Err <==> host_key@.len() != parameters@.total_elements(),
            r matches Err(e) ==> e == KeyError::ParameterMismatch,
            r matches Ok((d, a)) ==> {
                &&& d.inv()
                &&& d.host_view() == host_key@
                &&& d.parameters_value() == parameters
                &&& d.params_view() == parameters@
                &&& d.device_ids_view() == device_ids@
                &&& d.next_index() == 0
                &&& d.pending_view() is None
                &&& d.placed_view().len() == 0
                &&& d.received().len() == 0
                &&& d.awaits_allocation()
                &&& a matches Action::Allocate { device_id, byte_length } && device_id
                    == device_ids@[0] && byte_length as nat == shard_elements(
                    parameters@,
                    device_ids@.len(),
                    0,
                ) * bytes_of(T::width_spec())
            },
    {
        let sizes = element_counts(&parameters);
        let unit_elements = match sizes {
            None => {
                return Err(KeyError::ParameterMismatch);
            },
            Some((u, t)) => {
                if host_key.len() != t {
                    return Err(KeyError::ParameterMismatch);
                }
                u
            },
        };
        let units = shard_sizes(parameters.input_lwe_dimension().0, device_ids.len());
        let d = Distribution {
            host: host_key,
            parameters,
            device_ids,
            units,
            unit_elements,
            byte_width: T::byte_width(),
            next: 0,
            offset: 0,
            pending: None,
            placed: Vec::new(),
            failed: false,
            received: Ghost(Seq::empty()),
        };
        proof {
            lemma_shard_bounds(parameters@, d.device_ids@.len(), 0);
            assert(d.received@ =~= handles_of(d.placed@) + Seq::empty());
        }
        let byte_length = d.current_shard_bytes();
        let device_id = d.device_ids[0];
        Ok((d, Action::Allocate { device_id, byte_length }))
    }

    /// Takes the runtime's answer to the last action and gives the next one.
    /// A failure asks to free every block the runtime has handed over.
    pub fn step(&mut self, event: Event) -> (r: Action<T>)
        requires
            old(self).inv(),
            old(self).accepts_spec(event),
        ensures
            !final(self).failed_view() ==> final(self).inv(),
            final(self).host_view() == old(self).host_view(),
            final(self).parameters_value() == old(self).parameters_value(),
            final(self).params_view() == old(self).params_view(),
            final(self).device_ids_view() == old(self).device_ids_view(),
            event matches Event::Allocated(h) ==> final(self).received() == old(self).received().push(h),
            !(event is Allocated) ==> final(self).received() == old(self).received(),
            event matches Event::Allocated(h) ==> {
                &&& final(self).awaits_transfer()
                &&& final(self).next_index() == old(self).next_index()
                &&& final(self).pending_view() == Some(h)
                &&& final(self).placed_view() == old(self).placed_view()
                &&& r matches Action::Transfer { device_id, handle, data } && device_id == old(self).device_ids_view()[old(self).next_index() as int] && handle == h && data@
                    == shard_of(
                    old(self).host_view(),
                    old(self).params_view(),
                    old(self).device_count(),
                    old(self).next_index(),
                )
            },
            event is AllocationFailed ==> {
                &&& final(self).failed_view()
                &&& r matches Action::Release { buffers, error } && error
                    == KeyError::AllocationFailure && buffers@ == old(self).placed_view()
            },
            event is Transferred ==> {
                let i = old(self).next_index();
                &&& !final(self).failed_view()
                &&& final(self).next_index() == i + 1
                &&& final(self).pending_view() is None
                &&& final(self).placed_view().len() == i + 1
                &&& final(self).placed_view().take(i as int) == old(self).placed_view()
                &&& buffer_fits(
                    final(self).placed_view()[i as int],
                    old(self).device_ids_view(),
                    old(self).params_view(),
                    old(self).coefficient_bytes(),
                    i,
                )
                &&& old(self).pending_view() == Some(final(self).placed_view()[i as int].handle)
                &&& if i + 1 == old(self).device_count() {
                    r is Complete
                } else {
                    r matches Action::Allocate { device_id, byte_length } && device_id == old(self).device_ids_view()[i + 1int] && byte_length as nat == shard_elements(
                        old(self).params_view(),
                        old(self).device_count(),
                        i + 1,
                    ) * old(self).coefficient_bytes()
                }
            },
            event is TransferFailed ==> {
                let i = old(self).next_index();
                &&& final(self).failed_view()
                &&& r matches Action::Release { buffers, error } && error
                    == KeyError::TransferFailure && buffers@.len() == i + 1 && buffers@.take(
                    i as int,
                ) == old(self).placed_view() && buffer_fits(
                    buffers@[i as int],
                    old(self).device_ids_view(),
                    old(self).params_view(),
                    old(self).coefficient_bytes(),
                    i,
                ) && old(self).pending_view() == Some(buffers@[i as int].handle)
            },
            r matches Action::Release { buffers, error } ==> handles_of(buffers@) == final(self).received(),
    {
        let ghost p = self.parameters@;
        let ghost n = self.device_ids@.len();
        match event {
            Event::Allocated(h) => {
                self.pending = Some(h);
                self.received = Ghost(self.received@.push(h));
                proof {
                    assert(self.received@ =~= handles_of(self.placed@) + seq![h]);
                }
                let data = self.copy_shard();
                Action::Transfer { device_id: self.device_ids[self.next], handle: h, data }
            },
            Event::AllocationFailed => {
                self.failed = true;
                let mut buffers: Vec<DeviceBuffer> = Vec::new();
                core::mem::swap(&mut buffers, &mut self.placed);
                proof {
                    assert(self.received@ =~= handles_of(buffers@) + Seq::empty());
                }
                Action::Release { buffers, error: KeyError::AllocationFailure }
            },
            Event::Transferred => {
                let h = match self.pending {
                    Some(h) => h,
                    None => 0,
                };
                let byte_length = self.current_shard_bytes();
                let element_count = self.current_shard_elements();
                let device_count = self.device_ids.len();
                let ghost old_placed = self.placed@;
                self.placed.push(
                    DeviceBuffer {
                        device_id: self.device_ids[self.next],
                        handle: h,
                        element_count,
                        byte_length,
                    },
                );
                proof {
                    lemma_shard_bounds(p, n, self.next as nat);
                    assert(self.placed@.take(self.next as int) =~= old_placed);
                    assert(handles_of(self.placed@) =~= handles_of(old_placed).push(h));
                    assert(self.received@ =~= handles_of(self.placed@) + Seq::empty());
                }
                self.pending = None;
                self.offset = self.offset + element_count;
                self.next = self.next + 1;
                if self.next == device_count {
                    Action::Complete
                } else {
                    let byte_length = self.current_shard_bytes();
                    Action::Allocate { device_id: self.device_ids[self.next], byte_length }
                }
            },
            Event::TransferFailed => {
                let h = match self.pending {
                    Some(h) => h,
                    None => 0,
                };
                let byte_length = self.current_shard_bytes();
                let element_count = self.current_shard_elements();
                let ghost old_placed = self.placed@;
                let mut buffers: Vec<DeviceBuffer> = Vec::new();
                core::mem::swap(&mut buffers, &mut self.placed);
                buffers.push(
                    DeviceBuffer {
                        device_id: self.device_ids[self.next],
                        handle: h,
                        element_count,
                        byte_length,
                    },
                );
                self.pending = None;
                self.failed = true;
                proof {
                    assert(buffers@.take(self.next as int) =~= old_placed);
                    assert(handles_of(buffers@) =~= handles_of(old_placed).push(h));
                    assert(self.received@ =~= handles_of(buffers@));
                }
                Action::Release { buffers, error: KeyError::TransferFailure }
            },
        }
    }

    /// Takes the assembled key once every shard is in place.
    pub fn finish(self) -> (r: DeviceBootstrapKey<T>)
        requires
            self.inv(),
            self.complete(),
        ensures
            r.well_formed(),
            r.parameters_view() == self.parameters_value(),
            r.buffers_view() == self.placed_view(),
            handles_of(r.buffers_view()) == self.received(),
            r.buffers_view().len() == self.device_count(),
            forall|i: int|
                0 <= i < self.device_count() ==> buffer_fits(
                    #[trigger] r.buffers_view()[i],
                    self.device_ids_view(),
                    self.params_view(),
                    self.coefficient_bytes(),
                    i as nat,
                ),
    {
        proof {
            assert(self.received@ =~= handles_of(self.placed@) + Seq::empty());
        }
        let key = DeviceBootstrapKey::assemble(self.placed, self.parameters);
        proof {
            let b = key.buffers_view();
            assert(forall|i: int|
                0 <= i < b.len() ==> #[trigger] b[i].device_id == self.device_ids@[i]) by {
                assert forall|i: int| 0 <= i < b.len() implies #[trigger] b[i].device_id
                    == self.device_ids@[i] by {
                    assert(buffer_fits(self.placed@[i], self.device_ids@, self.parameters@,
                        bytes_of(T::width_spec()), i as nat));
                }
            }
            assert forall|i: int| 0 <= i < b.len() implies {
                &&& b[i].element_count as nat == shard_units(
                    self.parameters@.input_lwe_dimension,
                    b.len(),
                    i as nat,
                ) * self.parameters@.unit_elements()
                &&& b[i].byte_length as nat == b[i].element_count as nat * bytes_of(
                    T::width_spec(),
                )
            } by {
                assert(buffer_fits(self.placed@[i], self.device_ids@, self.parameters@,
                    bytes_of(T::width_spec()), i as nat));
            }
        }
        key
    }
}

/// Whether no device id occurs twice in `ids`.
pub fn distinct_device_ids(ids: &Vec<usize>) -> (r: bool)
    ensures
        r == distinct_ids(ids@),
{
    let mut i: usize = 0;
    while i < ids.len()
        invariant
            i <= ids@.len(),
            forall|a: int, b: int| 0 <= a < i && 0 <= b < ids@.len() && a != b ==> ids@[a] != ids@[b],
        decreases ids@.len() - i,
    {
        let mut j: usize = 0;
        while j < ids.len()
            invariant
                i < ids@.len(),
                j <= ids@.len(),
                forall|a: int, b: int| 0 <= a < i && 0 <= b < ids@.len() && a != b ==> ids@[a] != ids@[b],
                forall|b: int| 0 <= b < j && b != i ==> ids@[i as int] != ids@[b],
            decreases ids@.len() - j,
        {
            if j != i && ids[i] == ids[j] {
                return false;
            }
            j = j + 1;
        }
        i = i + 1;
    }
    true
}

proof fn lemma_factor_bound(a: nat, b: nat)
    requires
        b >= 1,
    ensures
        a <= a * b,
        a <= b * a,
{
    assert(a <= a * b) by (nonlinear_arith)
        requires
            b >= 1,
    ;
    assert(a * b == b * a) by (nonlinear_arith);
}

/// Coefficients per input-LWE entry and in the whole key, or `None` where
/// the whole key would not fit in `usize`.
fn element_counts(parameters: &BootstrapKeyParameters) -> (r: Option<(usize, usize)>)
    requires
        parameters@.valid(),
    ensures
        r is None <==> parameters@.total_elements() > usize::MAX,
        r matches Some((u, t)) ==> u as nat == parameters@.unit_elements() && t as nat
            == parameters@.total_elements(),
{
    let ghost p = parameters@;
    let ghost g1n = (p.glwe_dimension + 1) as nat;
    let ghost an = g1n * p.decomposition_level_count;
    let ghost bn = an * p.polynomial_size;
    let ghost un = bn * g1n;
    proof {
        lemma_factor_bound(g1n, p.decomposition_level_count);
        lemma_factor_bound(an, p.polynomial_size);
        lemma_factor_bound(bn, g1n);
        lemma_factor_bound(un, p.input_lwe_dimension);
        assert(p.unit_elements() == un);
    }
    let g = parameters.glwe_dimension().0;
    if g == usize::MAX {
        return None;
    }
    let g1 = g + 1;
    let a = match g1.checked_mul(parameters.decomposition_level_count().0) {
        Some(x) => x,
        None => {
            return None;
        },
    };
    let b = match a.checked_mul(parameters.polynomial_size().0) {
        Some(x) => x,
        None => {
            return None;
        },
    };
    let u = match b.checked_mul(g1) {
        Some(x) => x,
        None => {
            return None;
        },
    };
    let t = match parameters.input_lwe_dimension().0.checked_mul(u) {
        Some(x) => x,
        None => {
            return None;
        },
    };
    Some((u, t))
}

} // verus!
