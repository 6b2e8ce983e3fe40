//! The engine: the devices that it runs on, which worker uses which of them, and how a search
//! starts.

use crate::adapter::AdapterInfo;
use crate::search::{EngineStatus, Range, Search, SearchView};
use crate::selection::{law_selection_distinct_and_usable, select_adapter_indices, selection};
use crate::tuning::{get_vendor_specific_dispatch, Tuning};
use vstd::prelude::*;

verus! {

/// Why an engine could not be set up.
#[derive(Clone, Copy, Debug, PartialEq, Eq, Structural)]
pub enum InitError {
    /// There is no adapter at all.
    NoAdapters,
    /// Selection left no adapter over.
    NoUsableAdapters,
}

impl InitError {
    /// The error in words.
    pub fn message(&self) -> (text: &'static str)
        ensures
            text@ == match *self {
                InitError::NoAdapters => "No suitable GPU adapters found"@,
                InitError::NoUsableAdapters => "No usable GPU adapters found"@,
            },
    {
        match *self {
            InitError::NoAdapters => "No suitable GPU adapters found",
            InitError::NoUsableAdapters => "No usable GPU adapters found",
        }
    }
}

/// What an engine keeps for one worker thread: the device that the thread was given, and the
/// buffers that it has set up there.
#[derive(Debug)]
pub struct WorkerState<R> {
    pub assigned_device: Option<usize>,
    pub resources: Option<R>,
}

impl<R> WorkerState<R> {
    /// A worker that has no device and no buffers yet.
    pub fn new() -> (worker: WorkerState<R>)
        ensures
            worker.assigned_device is None,
            worker.resources is None,
    {
        WorkerState { assigned_device: None, resources: None }
    }

    /// Whether the worker's buffers have yet to be set up.
    pub fn needs_resources(&self) -> (needed: bool)
        ensures
            needed == (self.resources is None),
    {
        self.resources.is_none()
    }

    /// Keeps the worker's buffers, now that they are set up.
    pub fn keep_resources(&mut self, resources: R)
        ensures
            final(self).resources == Some(resources),
            final(self).assigned_device == old(self).assigned_device,
    {
        self.resources = Some(resources);
    }
}

/// A mining engine over one or more GPU devices.
#[derive(Debug)]
pub struct GpuEngine {
    contexts: Vec<Tuning>,
    device_counter: usize,
    batch_size: u64,
}

/// What an engine is: the tuning of each device, how many workers were given a device in turn, and
/// the nonces per batch.
pub ghost struct EngineView {
    pub devices: Seq<Tuning>,
    pub device_counter: usize,
    pub batch_size: u64,
}

impl EngineView {
    /// The device that the next worker without one is given.
    pub open spec fn next_device(self) -> int {
        self.device_counter as int % self.devices.len() as int
    }

    /// After a worker was given a device: the counter moves on, and starts over after the greatest
    /// number; with a single device it stays.
    pub open spec fn after_assignment(self) -> EngineView {
        EngineView {
            device_counter: if self.devices.len() == 1 {
                self.device_counter
            } else if self.device_counter == usize::MAX {
                0
            } else {
                (self.device_counter + 1) as usize
            },
            ..self
        }
    }

    /// After `n` workers were given a device.
    pub open spec fn after_assignments(self, n: nat) -> EngineView
        decreases n,
    {
        if n == 0 {
            self
        } else {
            self.after_assignments((n - 1) as nat).after_assignment()
        }
    }
}

/// How a search begins.
#[derive(Debug)]
pub enum SearchStart {
    Started(Search),
    Finished(EngineStatus),
}

impl View for GpuEngine {
    type V = EngineView;

    closed spec fn view(&self) -> EngineView {
        EngineView {
            devices: self.contexts@,
            device_counter: self.device_counter,
            batch_size: self.batch_size,
        }
    }
}

/// Each tuning is that of the selected adapter at its place, with the workgroup limit that was
/// found when the device was opened.
pub open spec fn tuned_for_selection(
    devices: Seq<Tuning>,
    infos: Seq<AdapterInfo>,
    max_devices: Option<usize>,
    workgroup_limits: Seq<u32>,
) -> bool {
    let picked = selection(infos, max_devices);
    &&& devices.len() == picked.len()
    &&& forall|k: int|
        #![trigger devices[k]]
        0 <= k < picked.len() ==> devices[k].suits_adapter(
            infos[picked[k] as int],
            workgroup_limits[k],
        )
}

impl GpuEngine {
    /// Sets up an engine with the given batch size on the selected adapters.
    ///
    /// `infos` describes all adapters of the machine; `workgroup_limits` gives, for each selected
    /// one in the order of selection, how many workgroups per dimension the opened device allows.
    ///
    /// `max_devices`:
    ///   - `None`: every discrete GPU, or the single best adapter where there is none;
    ///   - `Some(n)`: at most `n` adapters from the ranked list of physical GPUs.
    pub fn try_new(
        batch_size: u64,
        max_devices: Option<usize>,
        infos: &[AdapterInfo],
        workgroup_limits: &[u32],
    ) -> (engine: Result<GpuEngine, InitError>)
        requires
            workgroup_limits@.len() == selection(infos@, max_devices).len(),
        ensures
            match engine {
                Ok(e) => {
                    &&& selection(infos@, max_devices).len() > 0
                    &&& tuned_for_selection(e@.devices, infos@, max_devices, workgroup_limits@)
                    &&& e@.device_counter == 0
                    &&& e@.batch_size == batch_size
                },
                Err(InitError::NoAdapters) => infos@.len() == 0,
                Err(InitError::NoUsableAdapters) => infos@.len() > 0 && selection(
                    infos@,
                    max_devices,
                ).len() == 0,
            },
    {
        if infos.len() == 0 {
            return Err(InitError::NoAdapters);
        }
        let picked = select_adapter_indices(infos, max_devices);
        proof {
            law_selection_distinct_and_usable(infos@, max_devices);
        }
        if picked.len() == 0 {
            return Err(InitError::NoUsableAdapters);
        }
        let mut contexts: Vec<Tuning> = Vec::new();
        let mut k: usize = 0;
        while k < picked.len()
            invariant
                k <= picked@.len(),
                picked@ == selection(infos@, max_devices),
                picked@.len() == workgroup_limits@.len(),
                forall|j: int| 0 <= j < picked@.len() ==> #[trigger] picked@[j] < infos@.len(),
                contexts@.len() == k,
                forall|j: int|
                    #![trigger contexts@[j]]
                    0 <= j < k ==> contexts@[j].suits_adapter(
                        infos@[picked@[j] as int],
                        workgroup_limits@[j],
                    ),
            decreases picked@.len() - k,
        {
            contexts.push(get_vendor_specific_dispatch(&infos[picked[k]], workgroup_limits[k]));
            k += 1;
        }
        Ok(GpuEngine { contexts, device_counter: 0, batch_size })
    }

    /// The number of GPU devices available.
    pub fn device_count(&self) -> (count: usize)
        ensures
            count == self@.devices.len(),
    {
        self.contexts.len()
    }

    /// The tuning of a device.
    pub fn tuning(&self, device: usize) -> (tuning: Tuning)
        requires
            device < self@.devices.len(),
        ensures
            tuning == self@.devices[device as int],
    {
        self.contexts[device]
    }

    /// The nonces per batch.
    pub fn batch_size(&self) -> (size: u64)
        ensures
            size == self@.batch_size,
    {
        self.batch_size
    }

    /// The name of this kind of engine.
    pub fn name(&self) -> (text: &'static str)
        ensures
            text@ == "gpu-wgpu"@,
    {
        "gpu-wgpu"
    }

    /// Gives a worker its device. A worker keeps the device that it has; others get the devices in
    /// turn, and a single device serves all without counting.
    pub fn assign_device<R>(&mut self, worker: &mut WorkerState<R>) -> (device: usize)
        requires
            old(self)@.devices.len() > 0,
        ensures
            device == match old(worker).assigned_device {
                Some(kept) => kept as int,
                None => old(self)@.next_device(),
            },
            final(worker).assigned_device == Some(device),
            final(worker).resources == old(worker).resources,
            final(self)@ == if old(worker).assigned_device is None {
                old(self)@.after_assignment()
            } else {
                old(self)@
            },
    {
        match worker.assigned_device {
            Some(index) => index,
            None => {
                let index: usize = if self.contexts.len() == 1 {
                    0
                } else {
                    let ticket: usize = self.device_counter;
                    self.device_counter = ticket.wrapping_add(1);
                    ticket % self.contexts.len()
                };
                worker.assigned_device = Some(index);
                index
            },
        }
    }

    /// Explicitly clears a worker's GPU resources. The worker keeps its device.
    pub fn clear_worker_resources<R>(worker: &mut WorkerState<R>)
        ensures
            final(worker).resources is None,
            final(worker).assigned_device == old(worker).assigned_device,
    {
        worker.resources = None;
    }

    /// Begins the search of a range. Without a device, or in an empty or inverted range, there is
    /// nothing to search; a job that is already cancelled is not started.
    pub fn begin_search(&self, range: Range, cancelled: bool) -> (start: SearchStart)
        ensures
            match start {
                SearchStart::Finished(EngineStatus::Exhausted { hash_count }) => {
                    &&& hash_count == 0
                    &&& self@.devices.len() == 0 || range.start@ > range.end@
                },
                SearchStart::Finished(EngineStatus::Cancelled { hash_count }) => {
                    &&& hash_count == 0
                    &&& cancelled
                    &&& self@.devices.len() > 0 && range.start@ <= range.end@
                },
                SearchStart::Finished(EngineStatus::Found { .. }) => false,
                SearchStart::Started(search) => {
                    &&& !cancelled
                    &&& self@.devices.len() > 0 && range.start@ <= range.end@
                    &&& search@ == (SearchView {
                        next: range.start@,
                        end: range.end@,
                        batch_size: self@.batch_size as nat,
                        total_hashes: 0,
                        batches: 0,
                    })
                    &&& search@.wf()
                },
            },
    {
        if self.contexts.len() == 0 {
            SearchStart::Finished(EngineStatus::Exhausted { hash_count: 0 })
        } else if range.start.exceeds(range.end) {
            SearchStart::Finished(EngineStatus::Exhausted { hash_count: 0 })
        } else if cancelled {
            SearchStart::Finished(EngineStatus::Cancelled { hash_count: 0 })
        } else {
            SearchStart::Started(Search::new(range, self.batch_size))
        }
    }
}

/// A worker is only ever given a device that the engine has.
pub proof fn law_assigned_device_exists(engine: EngineView)
    requires
        engine.devices.len() > 0,
    ensures
        0 <= engine.next_device() < engine.devices.len(),
{
}

/// The devices are handed out in turn: of as many workers in a row as there are devices, no two
/// get the same one, so that every device serves one of them. (Where the counter starts over in
/// between, this takes a number of devices that divides the numbers of the counter evenly.)
pub proof fn law_devices_are_handed_out_in_turn(engine: EngineView, i: nat, j: nat)
    requires
        i < j < engine.devices.len(),
        engine.device_counter + j <= usize::MAX || (usize::MAX + 1) % (engine.devices.len() as int)
            == 0,
    ensures
        engine.after_assignments(i).next_device() != engine.after_assignments(j).next_device(),
{
    let n = engine.devices.len() as int;
    let a = engine.device_counter + i;
    let b = engine.device_counter + j;
    lemma_next_device_after(engine, i);
    lemma_next_device_after(engine, j);
    if a % n == b % n {
        vstd::arithmetic::div_mod::lemma_fundamental_div_mod(a, n);
        vstd::arithmetic::div_mod::lemma_fundamental_div_mod(b, n);
        let qa = a / n;
        let qb = b / n;
        assert(false) by (nonlinear_arith)
            requires
                n * qb - n * qa == b - a,
                0 < b - a < n,
        ;
    }
}

proof fn lemma_next_device_after(engine: EngineView, k: nat)
    requires
        k < engine.devices.len(),
        engine.devices.len() > 1,
        engine.device_counter + k <= usize::MAX || (usize::MAX + 1) % (engine.devices.len() as int)
            == 0,
    ensures
        engine.after_assignments(k).next_device() == (engine.device_counter + k) % (
        engine.devices.len() as int),
{
    let n = engine.devices.len() as int;
    let size = usize::MAX + 1;
    let x = engine.device_counter + k;
    lemma_counter_after(engine, k);
    if x <= usize::MAX {
        vstd::arithmetic::div_mod::lemma_small_mod(x as nat, size as nat);
    } else {
        vstd::arithmetic::div_mod::lemma_fundamental_div_mod(size, n);
        assert(size / n > 0) by (nonlinear_arith)
            requires
                size == n * (size / n),
                size > 0,
                n > 0,
        ;
        vstd::arithmetic::div_mod::lemma_mod_mod(x, n, size / n);
    }
}

proof fn lemma_counter_after(engine: EngineView, k: nat)
    requires
        engine.devices.len() > 1,
    ensures
        engine.after_assignments(k).device_counter == (engine.device_counter + k) % (usize::MAX + 1),
        engine.after_assignments(k).devices == engine.devices,
    decreases k,
{
    let size = usize::MAX + 1;
    if k > 0 {
        lemma_counter_after(engine, (k - 1) as nat);
        let before = engine.device_counter + (k - 1);
        vstd::arithmetic::div_mod::lemma_fundamental_div_mod(before, size);
        let c = before % size;
        let q = before / size;
        if c == usize::MAX {
            assert((before + 1) % size == 0) by (nonlinear_arith)
                requires
                    before + 1 == size * q + size,
                    size > 0,
            ;
        } else {
            assert((before + 1) % size == c + 1) by (nonlinear_arith)
                requires
                    before + 1 == size * q + (c + 1),
                    0 <= c + 1 < size,
            ;
        }
    } else {
        vstd::arithmetic::div_mod::lemma_small_mod(engine.device_counter as nat, size as nat);
    }
}

/// The worker that comes after `k` others, each of which was given a device, is given the device
/// with the remainder of the counter plus `k` by the number of devices. (The counter must not have
/// started over.)
pub proof fn law_device_of_the_next_worker(engine: EngineView, k: nat)
    requires
        engine.devices.len() > 0,
        engine.device_counter + k <= usize::MAX,
    ensures
        engine.after_assignments(k).next_device() == (engine.device_counter + k) % (
        engine.devices.len() as int),
{
    if engine.devices.len() > 1 {
        lemma_counter_after(engine, k);
        vstd::arithmetic::div_mod::lemma_small_mod(
            (engine.device_counter + k) as nat,
            (usize::MAX + 1) as nat,
        );
    } else {
        lemma_devices_stay(engine, k);
    }
}

proof fn lemma_devices_stay(engine: EngineView, k: nat)
    ensures
        engine.after_assignments(k).devices == engine.devices,
    decreases k,
{
    if k > 0 {
        lemma_devices_stay(engine, (k - 1) as nat);
    }
}

/// What `assign_device` does: a worker keeps its device and the engine stays as it is; a worker
/// without one is given the device at the remainder of the counter, and the counter moves on by
/// one, or back to zero from its greatest value, unless there is a single device.
pub proof fn law_assigned_device<R>(
    engine: &mut GpuEngine,
    worker: &mut WorkerState<R>,
    device: usize,
)
    requires
        old(engine)@.devices.len() > 0,
        call_ensures(GpuEngine::assign_device::<R>, (engine, worker), device),
    ensures
        final(worker).assigned_device == Some(device),
        final(worker).resources == old(worker).resources,
        final(engine)@.devices == old(engine)@.devices,
        final(engine)@.batch_size == old(engine)@.batch_size,
        old(worker).assigned_device matches Some(kept) ==> {
            &&& device == kept
            &&& final(engine)@.device_counter == old(engine)@.device_counter
        },
        old(worker).assigned_device is None ==> {
            &&& device == old(engine)@.device_counter as int % (old(engine)@.devices.len() as int)
            &&& old(engine)@.devices.len() == 1 ==> final(engine)@.device_counter == old(
                engine,
            )@.device_counter
            &&& old(engine)@.devices.len() > 1 && old(engine)@.device_counter < usize::MAX
                ==> final(engine)@.device_counter == old(engine)@.device_counter + 1
            &&& old(engine)@.devices.len() > 1 && old(engine)@.device_counter == usize::MAX
                ==> final(engine)@.device_counter == 0
        },
{
}

/// What `try_new` returns: without adapters the one error, without a selected adapter the other;
/// else an engine with one device for each selected adapter, in their order, each tuned for its
/// adapter and its limit, with the given batch size, from which no worker was given a device yet.
pub proof fn law_new_engine(
    batch_size: u64,
    max_devices: Option<usize>,
    infos: &[AdapterInfo],
    workgroup_limits: &[u32],
    engine: Result<GpuEngine, InitError>,
)
    requires
        workgroup_limits@.len() == selection(infos@, max_devices).len(),
        call_ensures(
            GpuEngine::try_new,
            (batch_size, max_devices, infos, workgroup_limits),
            engine,
        ),
    ensures
        infos@.len() == 0 ==> engine == Err::<GpuEngine, InitError>(InitError::NoAdapters),
        infos@.len() > 0 && selection(infos@, max_devices).len() == 0 ==> engine == Err::<
            GpuEngine,
            InitError,
        >(InitError::NoUsableAdapters),
        infos@.len() > 0 && selection(infos@, max_devices).len() > 0 ==> engine is Ok,
        engine matches Ok(e) ==> {
            &&& e@.devices.len() == selection(infos@, max_devices).len()
            &&& e@.device_counter == 0
            &&& e@.batch_size == batch_size
            &&& forall|k: int|
                0 <= k < e@.devices.len() ==> (#[trigger] e@.devices[k]).suits_adapter(
                    infos@[selection(infos@, max_devices)[k] as int],
                    workgroup_limits@[k],
                )
        },
{
    if infos@.len() == 0 && selection(infos@, max_devices).len() > 0 {
        law_selection_distinct_and_usable(infos@, max_devices);
        assert(selection(infos@, max_devices)[0] < infos@.len());
    }
}

/// What `begin_search` returns: exhausted with no hashes where there is no device or no nonce;
/// else, of a cancelled job, cancelled with no hashes; else a search of the whole range with the
/// engine's batch size.
pub proof fn law_begun_search(
    engine: GpuEngine,
    range: Range,
    cancelled: bool,
    start: SearchStart,
)
    requires
        call_ensures(GpuEngine::begin_search, (&engine, range, cancelled), start),
    ensures
        engine@.devices.len() == 0 || range.start@ > range.end@ ==> start == SearchStart::Finished(
            EngineStatus::Exhausted { hash_count: 0 },
        ),
        engine@.devices.len() > 0 && range.start@ <= range.end@ && cancelled ==> start
            == SearchStart::Finished(EngineStatus::Cancelled { hash_count: 0 }),
        engine@.devices.len() > 0 && range.start@ <= range.end@ && !cancelled ==> (
        start matches SearchStart::Started(search) && search@.next == range.start@ && search@.end
            == range.end@ && search@.batch_size == engine@.batch_size && search@.total_hashes == 0
            && search@.batches == 0),
{
}

/// The engine tells its number of devices, the tuning of each, its batch size and its name.
pub proof fn law_engine_tells_its_data(
    engine: GpuEngine,
    count: usize,
    device: usize,
    tuning: Tuning,
    size: u64,
    name: &'static str,
)
    requires
        device < engine@.devices.len(),
        call_ensures(GpuEngine::device_count, (&engine,), count),
        call_ensures(GpuEngine::tuning, (&engine, device), tuning),
        call_ensures(GpuEngine::batch_size, (&engine,), size),
        call_ensures(GpuEngine::name, (&engine,), name),
    ensures
        count == engine@.devices.len(),
        tuning == engine@.devices[device as int],
        size == engine@.batch_size,
        name@ == "gpu-wgpu"@,
{
}

/// A new worker has neither device nor buffers. Buffers are needed until some are kept, and again
/// once they were cleared; neither touches the device.
pub proof fn law_worker_resources<R>(
    fresh: WorkerState<R>,
    worker: &mut WorkerState<R>,
    cleared: &mut WorkerState<R>,
    resources: R,
    needed_before: bool,
    needed_after: bool,
)
    requires
        call_ensures(WorkerState::<R>::new, (), fresh),
        call_ensures(WorkerState::<R>::needs_resources, (&fresh,), needed_before),
        call_ensures(WorkerState::<R>::keep_resources, (worker, resources), ()),
        call_ensures(GpuEngine::clear_worker_resources::<R>, (cleared,), ()),
        call_ensures(WorkerState::<R>::needs_resources, (&*final(cleared),), needed_after),
    ensures
        fresh.assigned_device is None,
        needed_before,
        final(worker).resources == Some(resources),
        final(worker).assigned_device == old(worker).assigned_device,
        needed_after,
        final(cleared).assigned_device == old(cleared).assigned_device,
{
}

/// The errors in words.
pub proof fn law_error_messages(error: InitError, text: &'static str)
    requires
        call_ensures(InitError::message, (&error,), text),
    ensures
        error is NoAdapters ==> text@ == "No suitable GPU adapters found"@,
        error is NoUsableAdapters ==> text@ == "No usable GPU adapters found"@,
{
}

} // verus!
