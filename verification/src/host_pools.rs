//! The host's three handle pools: byte buffers shared with the page,
//! plugin-module instances, and hosted plugin modules.
use vstd::prelude::*;
use crate::handles::HandlePool;

verus! {

/// `old` resized to `len`: cut, or padded with zeros.
pub open spec fn resized(old: Seq<u8>, len: nat) -> Seq<u8> {
    if len <= old.len() {
        old.subrange(0, len as int)
    } else {
        old + Seq::new((len - old.len()) as nat, |i: int| 0u8)
    }
}

fn resize_zeroed(v: &mut Vec<u8>, len: usize)
    ensures
        final(v)@ == resized(old(v)@, len as nat),
{
    v.resize(len, 0u8);
    proof {
        if len > old(v)@.len() {
            assert(v@ =~= resized(old(v)@, len as nat)) by {
                assert(v@.subrange(0, old(v)@.len() as int) == old(v)@);
                assert forall|i: int| 0 <= i < len implies v@[i] == resized(old(v)@, len as nat)[i] by {
                    if i < old(v)@.len() {
                        assert(v@[i] == v@.subrange(0, old(v)@.len() as int)[i]);
                    }
                }
            }
        }
    }
}

/// Byte buffers under handles.
pub struct BytesPool {
    pool: HandlePool<Vec<u8>>,
}

impl BytesPool {
    /// Whether another handle can be handed out.
    pub fn has_room(&self) -> (r: bool)
        ensures
            r == (self.next_handle() < u32::MAX),
    {
        self.pool.has_room()
    }

    /// Whether `h` is a live handle.
    pub fn has(&self, h: u32) -> (r: bool)
        ensures
            r == self.buffers().contains_key(h),
    {
        self.pool.has(h)
    }

    pub closed spec fn buffers(&self) -> Map<u32, Seq<u8>> {
        self.pool.records().map_values(|v: Vec<u8>| v@)
    }

    pub closed spec fn next_handle(&self) -> u32 {
        self.pool.next_handle()
    }

    pub closed spec fn wf(&self) -> bool {
        self.pool.wf()
    }

    pub fn new() -> (r: BytesPool)
        ensures
            r.wf(),
            r.buffers() == Map::<u32, Seq<u8>>::empty(),
            r.next_handle() == 1,
    {
        let r = BytesPool { pool: HandlePool::new() };
        assert(r.buffers() =~= Map::<u32, Seq<u8>>::empty());
        r
    }

    /// A new empty buffer; returns its handle.
    pub fn create(&mut self) -> (h: u32)
        requires
            old(self).wf(),
            old(self).next_handle() < u32::MAX,
        ensures
            final(self).wf(),
            h == old(self).next_handle(),
            h >= 1,
            !old(self).buffers().contains_key(h),
            final(self).buffers() == old(self).buffers().insert(h, Seq::empty()),
            final(self).next_handle() == h + 1,
    {
        let h = self.pool.create(Vec::new());
        assert(self.buffers() =~= old(self).buffers().insert(h, Seq::empty()));
        h
    }

    /// Resizes the buffer under `h` to `len` bytes, keeping its first bytes
    /// and zero-filling the rest.
    pub fn resize(&mut self, h: u32, len: u32)
        requires
            old(self).wf(),
            old(self).buffers().contains_key(h),
        ensures
            final(self).wf(),
            final(self).next_handle() == old(self).next_handle(),
            final(self).buffers() == old(self).buffers().insert(h, resized(old(self).buffers()[h], len as nat)),
    {
        let mut v = match self.pool.take(h) {
            Some(v) => v,
            None => {
                assert(false);
                Vec::new()
            },
        };
        resize_zeroed(&mut v, len as usize);
        self.pool.put(h, v);
        assert(self.buffers() =~= old(self).buffers().insert(h, resized(old(self).buffers()[h], len as nat)));
    }

    /// The buffer under `h`.
    pub fn contents(&self, h: u32) -> (r: &Vec<u8>)
        requires
            self.buffers().contains_key(h),
        ensures
            r@ == self.buffers()[h],
    {
        self.pool.get(h).unwrap()
    }

    /// The length of the buffer under `h`.
    pub fn length(&self, h: u32) -> (r: u32)
        requires
            self.buffers().contains_key(h),
            self.buffers()[h].len() <= u32::MAX,
        ensures
            r == self.buffers()[h].len(),
    {
        self.contents(h).len() as u32
    }

    /// Replaces the buffer under `h`.
    pub fn set(&mut self, h: u32, bytes: &[u8])
        requires
            old(self).wf(),
            old(self).buffers().contains_key(h),
        ensures
            final(self).wf(),
            final(self).next_handle() == old(self).next_handle(),
            final(self).buffers() == old(self).buffers().insert(h, bytes@),
    {
        let _ = self.pool.take(h);
        let mut v: Vec<u8> = Vec::new();
        v.extend_from_slice(bytes);
        assert(v@ =~= bytes@);
        self.pool.put(h, v);
        assert(self.buffers() =~= old(self).buffers().insert(h, bytes@));
    }
}

/// A plugin-module instance: the module's path, written by the page.
pub struct Instance {
    pub path: Vec<u8>,
}

/// Plugin-module instances under handles.
pub struct InstancePool {
    pool: HandlePool<Instance>,
}

impl InstancePool {
    /// Whether another handle can be handed out.
    pub fn has_room(&self) -> (r: bool)
        ensures
            r == (self.next_handle() < u32::MAX),
    {
        self.pool.has_room()
    }

    /// Whether `h` is a live handle.
    pub fn has(&self, h: u32) -> (r: bool)
        ensures
            r == self.paths().contains_key(h),
    {
        self.pool.has(h)
    }

    pub closed spec fn paths(&self) -> Map<u32, Seq<u8>> {
        self.pool.records().map_values(|i: Instance| i.path@)
    }

    pub closed spec fn next_handle(&self) -> u32 {
        self.pool.next_handle()
    }

    pub closed spec fn wf(&self) -> bool {
        self.pool.wf()
    }

    pub fn new() -> (r: InstancePool)
        ensures
            r.wf(),
            r.paths() == Map::<u32, Seq<u8>>::empty(),
            r.next_handle() == 1,
    {
        let r = InstancePool { pool: HandlePool::new() };
        assert(r.paths() =~= Map::<u32, Seq<u8>>::empty());
        r
    }

    /// A new instance with an empty path; 0 for a 64-bit module, which is
    /// not hosted.
    pub fn create(&mut self, is64: u32) -> (h: u32)
        requires
            old(self).wf(),
            old(self).next_handle() < u32::MAX,
        ensures
            final(self).wf(),
            is64 != 0 ==> h == 0 && final(self).paths() == old(self).paths()
                && final(self).next_handle() == old(self).next_handle(),
            is64 == 0 ==> {
                &&& h == old(self).next_handle()
                &&& h >= 1
                &&& !old(self).paths().contains_key(h)
                &&& final(self).paths() == old(self).paths().insert(h, Seq::empty())
                &&& final(self).next_handle() == h + 1
            },
    {
        if is64 != 0 {
            return 0;
        }
        let h = self.pool.create(Instance { path: Vec::new() });
        assert(self.paths() =~= old(self).paths().insert(h, Seq::empty()));
        h
    }

    /// Resizes the path buffer of instance `h` to `len` bytes, zero-filling.
    pub fn set_path_len(&mut self, h: u32, len: u32)
        requires
            old(self).wf(),
            old(self).paths().contains_key(h),
        ensures
            final(self).wf(),
            final(self).next_handle() == old(self).next_handle(),
            final(self).paths() == old(self).paths().insert(h, resized(old(self).paths()[h], len as nat)),
    {
        let mut inst = match self.pool.take(h) {
            Some(v) => v,
            None => {
                assert(false);
                Instance { path: Vec::new() }
            },
        };
        resize_zeroed(&mut inst.path, len as usize);
        self.pool.put(h, inst);
        assert(self.paths() =~= old(self).paths().insert(h, resized(old(self).paths()[h], len as nat)));
    }

    /// The path of instance `h`.
    pub fn path(&self, h: u32) -> (r: &Vec<u8>)
        requires
            self.paths().contains_key(h),
        ensures
            r@ == self.paths()[h],
    {
        &self.pool.get(h).unwrap().path
    }
}

/// The table indices of the host callbacks registered with a plugin module.
#[derive(Clone, Copy, Debug, PartialEq, Eq, Structural)]
pub struct HostStubIndices {
    pub get_extension: u32,
    pub request_restart: u32,
    pub request_process: u32,
    pub request_callback: u32,
    pub events_in_size: u32,
    pub events_in_get: u32,
    pub events_out_try_push: u32,
    pub host_webview_send: u32,
    pub state_write: u32,
    pub state_read: u32,
}

/// What the host keeps per hosted plugin module.
pub struct Hosted {
    pub instance_handle: u32,
    pub plugins: Vec<u32>,
    pub stubs: Option<HostStubIndices>,
    pub entry_ptr: Option<u32>,
    pub factory_ptr: Option<u32>,
}

/// `v` without the occurrences of `p`, the rest in order.
fn without(v: &Vec<u32>, p: u32) -> (r: Vec<u32>)
    ensures
        r@ == v@.filter(|x: u32| x != p),
{
    let mut out: Vec<u32> = Vec::new();
    let mut i: usize = 0;
    while i < v.len()
        invariant
            i <= v@.len(),
            out@ == v@.take(i as int).filter(|x: u32| x != p),
        decreases v@.len() - i,
    {
        proof {
            assert(v@.take(i + 1).drop_last() =~= v@.take(i as int));
            reveal(Seq::filter);
        }
        if v[i] != p {
            out.push(v[i]);
        }
        i += 1;
    }
    assert(v@.take(i as int) =~= v@);
    out
}

/// Hosted plugin modules under handles.
pub struct HostedPool {
    pool: HandlePool<Hosted>,
}

impl HostedPool {
    /// Whether another handle can be handed out.
    pub fn has_room(&self) -> (r: bool)
        ensures
            r == (self.next_handle() < u32::MAX),
    {
        self.pool.has_room()
    }

    /// Whether `h` is a live handle.
    pub fn has(&self, h: u32) -> (r: bool)
        ensures
            r == self.instances().contains_key(h),
    {
        self.pool.has(h)
    }

    /// The instance handle of each hosted module.
    pub closed spec fn instances(&self) -> Map<u32, u32> {
        self.pool.records().map_values(|h: Hosted| h.instance_handle)
    }

    /// The plugins created in each hosted module.
    pub closed spec fn plugins(&self) -> Map<u32, Seq<u32>> {
        self.pool.records().map_values(|h: Hosted| h.plugins@)
    }

    /// The host callbacks registered for each hosted module, once they are.
    pub closed spec fn stubs(&self) -> Map<u32, Option<HostStubIndices>> {
        self.pool.records().map_values(|h: Hosted| h.stubs)
    }

    /// The cached entry and factory addresses of each hosted module.
    pub closed spec fn factories(&self) -> Map<u32, (Option<u32>, Option<u32>)> {
        self.pool.records().map_values(|h: Hosted| (h.entry_ptr, h.factory_ptr))
    }

    pub closed spec fn next_handle(&self) -> u32 {
        self.pool.next_handle()
    }

    pub closed spec fn wf(&self) -> bool {
        self.pool.wf()
    }

    pub fn new() -> (r: HostedPool)
        ensures
            r.wf(),
            r.instances() == Map::<u32, u32>::empty(),
            r.plugins() == Map::<u32, Seq<u32>>::empty(),
            r.stubs() == Map::<u32, Option<HostStubIndices>>::empty(),
            r.factories() == Map::<u32, (Option<u32>, Option<u32>)>::empty(),
            r.next_handle() == 1,
    {
        let r = HostedPool { pool: HandlePool::new() };
        assert(r.instances() =~= Map::<u32, u32>::empty());
        assert(r.plugins() =~= Map::<u32, Seq<u32>>::empty());
        assert(r.stubs() =~= Map::<u32, Option<HostStubIndices>>::empty());
        assert(r.factories() =~= Map::<u32, (Option<u32>, Option<u32>)>::empty());
        r
    }

    /// Starts hosting the module of `instance`: no plugins, no callbacks
    /// registered, nothing cached. Returns the new handle.
    pub fn make(&mut self, instance: u32) -> (h: u32)
        requires
            old(self).wf(),
            old(self).next_handle() < u32::MAX,
        ensures
            final(self).wf(),
            h == old(self).next_handle(),
            h >= 1,
            !old(self).instances().contains_key(h),
            final(self).instances() == old(self).instances().insert(h, instance),
            final(self).plugins() == old(self).plugins().insert(h, Seq::empty()),
            final(self).stubs() == old(self).stubs().insert(h, None),
            final(self).factories() == old(self).factories().insert(h, (None, None)),
            final(self).next_handle() == h + 1,
    {
        let h = self.pool.create(Hosted {
            instance_handle: instance,
            plugins: Vec::new(),
            stubs: None,
            entry_ptr: None,
            factory_ptr: None,
        });
        assert(self.instances() =~= old(self).instances().insert(h, instance));
        assert(self.plugins() =~= old(self).plugins().insert(h, Seq::empty()));
        assert(self.stubs() =~= old(self).stubs().insert(h, None));
        assert(self.factories() =~= old(self).factories().insert(h, (None, None)));
        h
    }

    /// Stops hosting module `h`.
    pub fn remove(&mut self, h: u32)
        requires
            old(self).wf(),
        ensures
            final(self).wf(),
            final(self).next_handle() == old(self).next_handle(),
            final(self).instances() == old(self).instances().remove(h),
            final(self).plugins() == old(self).plugins().remove(h),
    {
        let _ = self.pool.take(h);
        assert(self.instances() =~= old(self).instances().remove(h));
        assert(self.plugins() =~= old(self).plugins().remove(h));
    }

    /// Records the callbacks registered for module `h`.
    pub fn set_stubs(&mut self, h: u32, stubs: HostStubIndices)
        requires
            old(self).wf(),
            old(self).instances().contains_key(h),
        ensures
            final(self).wf(),
            final(self).next_handle() == old(self).next_handle(),
            final(self).instances() == old(self).instances(),
            final(self).plugins() == old(self).plugins(),
            final(self).factories() == old(self).factories(),
            final(self).stubs() == old(self).stubs().insert(h, Some(stubs)),
    {
        let mut rec = self.take_record(h);
        rec.stubs = Some(stubs);
        self.pool.put(h, rec);
        assert(self.instances() =~= old(self).instances());
        assert(self.plugins() =~= old(self).plugins());
        assert(self.factories() =~= old(self).factories());
        assert(self.stubs() =~= old(self).stubs().insert(h, Some(stubs)));
    }

    /// Caches the entry and factory addresses of module `h`.
    pub fn set_factory(&mut self, h: u32, entry: u32, factory: u32)
        requires
            old(self).wf(),
            old(self).instances().contains_key(h),
        ensures
            final(self).wf(),
            final(self).next_handle() == old(self).next_handle(),
            final(self).instances() == old(self).instances(),
            final(self).plugins() == old(self).plugins(),
            final(self).stubs() == old(self).stubs(),
            final(self).factories() == old(self).factories().insert(h, (Some(entry), Some(factory))),
    {
        let mut rec = self.take_record(h);
        rec.entry_ptr = Some(entry);
        rec.factory_ptr = Some(factory);
        self.pool.put(h, rec);
        assert(self.instances() =~= old(self).instances());
        assert(self.plugins() =~= old(self).plugins());
        assert(self.stubs() =~= old(self).stubs());
        assert(self.factories() =~= old(self).factories().insert(h, (Some(entry), Some(factory))));
    }

    /// Adds plugin `p` to the plugins of module `h`.
    pub fn add_plugin(&mut self, h: u32, p: u32)
        requires
            old(self).wf(),
            old(self).instances().contains_key(h),
        ensures
            final(self).wf(),
            final(self).next_handle() == old(self).next_handle(),
            final(self).instances() == old(self).instances(),
            final(self).stubs() == old(self).stubs(),
            final(self).factories() == old(self).factories(),
            final(self).plugins() == old(self).plugins().insert(h, old(self).plugins()[h].push(p)),
    {
        let mut rec = self.take_record(h);
        rec.plugins.push(p);
        self.pool.put(h, rec);
        assert(self.instances() =~= old(self).instances());
        assert(self.stubs() =~= old(self).stubs());
        assert(self.factories() =~= old(self).factories());
        assert(self.plugins() =~= old(self).plugins().insert(h, old(self).plugins()[h].push(p)));
    }

    /// Removes every occurrence of plugin `p` from the plugins of module
    /// `h`, keeping the others in order; nothing happens if `h` is not
    /// hosted.
    pub fn drop_plugin(&mut self, h: u32, p: u32)
        requires
            old(self).wf(),
        ensures
            final(self).wf(),
            final(self).next_handle() == old(self).next_handle(),
            final(self).instances() == old(self).instances(),
            final(self).stubs() == old(self).stubs(),
            final(self).factories() == old(self).factories(),
            final(self).plugins() == if old(self).instances().contains_key(h) {
                old(self).plugins().insert(h, old(self).plugins()[h].filter(|x: u32| x != p))
            } else {
                old(self).plugins()
            },
    {
        if !self.pool.has(h) {
            return;
        }
        let mut rec = self.take_record(h);
        let kept = without(&rec.plugins, p);
        rec.plugins = kept;
        self.pool.put(h, rec);
        assert(self.instances() =~= old(self).instances());
        assert(self.stubs() =~= old(self).stubs());
        assert(self.factories() =~= old(self).factories());
        assert(self.plugins() =~= old(self).plugins().insert(h, old(self).plugins()[h].filter(|x: u32| x != p)));
    }

    fn take_record(&mut self, h: u32) -> (r: Hosted)
        requires
            old(self).wf(),
            old(self).pool.records().contains_key(h),
        ensures
            final(self).pool.wf(),
            final(self).pool.next_handle() == old(self).pool.next_handle(),
            final(self).pool.records() == old(self).pool.records().remove(h),
            r == old(self).pool.records()[h],
            1 <= h < old(self).pool.next_handle(),
    {
        match self.pool.take(h) {
            Some(r) => r,
            None => {
                assert(false);
                Hosted { instance_handle: 0, plugins: Vec::new(), stubs: None, entry_ptr: None, factory_ptr: None }
            },
        }
    }

    /// The record of module `h`, if hosted.
    pub fn get(&self, h: u32) -> (r: Option<&Hosted>)
        ensures
            match r {
                Some(x) => self.instances().contains_key(h) && self.instances()[h] == x.instance_handle
                    && self.plugins()[h] == x.plugins@,
                None => !self.instances().contains_key(h),
            },
    {
        self.pool.get(h)
    }
}

/// Destroying a plugin takes it off its module's list of plugins
/// (`drop_plugin`), and every other plugin stays listed.
pub proof fn law_drop_forgets_only_that_plugin(listed: Seq<u32>, p: u32, q: u32)
    ensures
        !listed.filter(|x: u32| x != p).contains(p),
        q != p ==> (listed.filter(|x: u32| x != p).contains(q) <==> listed.contains(q)),
    decreases listed.len(),
{
    reveal(Seq::filter);
    let f = |x: u32| x != p;
    if listed.len() > 0 {
        let rest = listed.drop_last();
        law_drop_forgets_only_that_plugin(rest, p, q);
        let last = listed.last();
        assert(listed.filter(f) == if f(last) { rest.filter(f).push(last) } else { rest.filter(f) });
        assert(listed =~= rest.push(last));
        if f(last) {
            assert forall|y: u32| rest.filter(f).push(last).contains(y) <==> (rest.filter(f).contains(y) || y == last) by {
                if rest.filter(f).push(last).contains(y) {
                    let j = choose|j: int| 0 <= j < rest.filter(f).push(last).len() && rest.filter(f).push(last)[j] == y;
                    if j < rest.filter(f).len() {
                        assert(rest.filter(f)[j] == y);
                    }
                }
                if rest.filter(f).contains(y) {
                    let j = choose|j: int| 0 <= j < rest.filter(f).len() && rest.filter(f)[j] == y;
                    assert(rest.filter(f).push(last)[j] == y);
                }
                if y == last {
                    assert(rest.filter(f).push(last)[rest.filter(f).len() as int] == y);
                }
            }
        }
        assert forall|y: u32| listed.contains(y) <==> (rest.contains(y) || y == last) by {
            if listed.contains(y) {
                let j = choose|j: int| 0 <= j < listed.len() && listed[j] == y;
                if j < rest.len() {
                    assert(rest[j] == y);
                }
            }
            if rest.contains(y) {
                let j = choose|j: int| 0 <= j < rest.len() && rest[j] == y;
                assert(listed[j] == y);
            }
            if y == last {
                assert(listed[listed.len() - 1] == y);
            }
        }
    }
}

/// A call the host makes into a plugin to tear it down.
#[derive(Debug, Clone, Copy, PartialEq, Eq, Structural)]
pub enum TeardownCall {
    StopProcessing,
    Deactivate,
    Destroy,
}

/// The calls that tear a plugin down, in order: none for a plugin that
/// was never created (address 0); stop processing and deactivate for one
/// that was started (it has a process struct); destroy for every created
/// plugin.
pub open spec fn teardown_plan(plugin_ptr: u32, process_ptr: u32) -> Seq<TeardownCall> {
    if plugin_ptr == 0 {
        Seq::empty()
    } else if process_ptr != 0 {
        seq![TeardownCall::StopProcessing, TeardownCall::Deactivate, TeardownCall::Destroy]
    } else {
        seq![TeardownCall::Destroy]
    }
}

/// The calls that tear down the plugin at `plugin_ptr` whose process
/// struct is at `process_ptr` (0 if it was never started).
pub fn teardown_calls(plugin_ptr: u32, process_ptr: u32) -> (r: Vec<TeardownCall>)
    ensures
        r@ == teardown_plan(plugin_ptr, process_ptr),
{
    let mut r: Vec<TeardownCall> = Vec::new();
    if plugin_ptr != 0 {
        if process_ptr != 0 {
            r.push(TeardownCall::StopProcessing);
            r.push(TeardownCall::Deactivate);
        }
        r.push(TeardownCall::Destroy);
    }
    assert(r@ =~= teardown_plan(plugin_ptr, process_ptr));
    r
}

} // verus!
