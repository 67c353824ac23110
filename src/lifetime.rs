use vstd::prelude::*;

verus! {

/// The kinds of driver objects the pipeline creates, in creation order.
#[derive(Clone, Copy, Debug, PartialEq, Eq, Structural)]
pub enum ResourceKind {
    Connection,
    DebugSink,
    Surface,
    LogicalDevice,
    SwapChain,
    ImageView,
}

/// A created driver object: what it is and its raw handle.
#[derive(Clone, Copy, Debug, PartialEq, Eq, Structural)]
pub struct Resource {
    pub kind: ResourceKind,
    pub handle: u64,
}

/// Depth in the ownership chain: an object owns every object of greater depth
/// that was created after it.
pub open spec fn depth(kind: ResourceKind) -> int {
    match kind {
        ResourceKind::Connection => 0,
        ResourceKind::DebugSink => 1,
        ResourceKind::Surface => 2,
        ResourceKind::LogicalDevice => 3,
        ResourceKind::SwapChain => 4,
        ResourceKind::ImageView => 5,
    }
}

/// Whether `next` may be created right after `prev`. The debug sink is optional;
/// image views come one after another.
pub open spec fn may_follow(prev: ResourceKind, next: ResourceKind) -> bool {
    match (prev, next) {
        (ResourceKind::Connection, ResourceKind::DebugSink) => true,
        (ResourceKind::Connection, ResourceKind::Surface) => true,
        (ResourceKind::DebugSink, ResourceKind::Surface) => true,
        (ResourceKind::Surface, ResourceKind::LogicalDevice) => true,
        (ResourceKind::LogicalDevice, ResourceKind::SwapChain) => true,
        (ResourceKind::SwapChain, ResourceKind::ImageView) => true,
        (ResourceKind::ImageView, ResourceKind::ImageView) => true,
        _ => false,
    }
}

/// Whether an object of this kind may be created after those already created.
pub open spec fn may_append(created: Seq<Resource>, kind: ResourceKind) -> bool {
    if created.len() == 0 {
        kind == ResourceKind::Connection
    } else {
        may_follow(created.last().kind, kind)
    }
}

/// Whether the object at position `i` may follow the one before it.
pub open spec fn follows_at(created: Seq<Resource>, i: int) -> bool {
    may_follow(created[i - 1].kind, created[i].kind)
}

/// A creation history that follows the ownership chain.
pub open spec fn creation_order(created: Seq<Resource>) -> bool {
    &&& created.len() > 0 ==> created[0].kind == ResourceKind::Connection
    &&& forall|i: int| 0 < i < created.len() ==> #[trigger] follows_at(created, i)
}

/// Whether `a` must be destroyed after `b`: it is shallower in the chain, or
/// both are image views.
pub open spec fn outlives(a: ResourceKind, b: ResourceKind) -> bool {
    depth(a) < depth(b) || (a == ResourceKind::ImageView && b == ResourceKind::ImageView)
}

/// Records the driver objects in the order they were created, and gives them
/// back in the order they must be destroyed.
#[derive(Debug)]
pub struct ResourceLedger {
    created: Vec<Resource>,
}

impl View for ResourceLedger {
    type V = Seq<Resource>;

    closed spec fn view(&self) -> Seq<Resource> {
        self.created@
    }
}

impl ResourceLedger {
    /// The recorded history follows the ownership chain.
    pub open spec fn wf(&self) -> bool {
        creation_order(self@)
    }

    pub fn new() -> (r: Self)
        ensures
            r@ == Seq::<Resource>::empty(),
            r.wf(),
    {
        ResourceLedger { created: Vec::new() }
    }

    pub fn len(&self) -> (r: usize)
        ensures
            r == self@.len(),
    {
        self.created.len()
    }

    /// Whether an object of this kind may be created next.
    pub fn may_record(&self, kind: ResourceKind) -> (r: bool)
        ensures
            r == may_append(self@, kind),
    {
        let n = self.created.len();
        if n == 0 {
            return match kind {
                ResourceKind::Connection => true,
                _ => false,
            };
        }
        match (self.created[n - 1].kind, kind) {
            (ResourceKind::Connection, ResourceKind::DebugSink) => true,
            (ResourceKind::Connection, ResourceKind::Surface) => true,
            (ResourceKind::DebugSink, ResourceKind::Surface) => true,
            (ResourceKind::Surface, ResourceKind::LogicalDevice) => true,
            (ResourceKind::LogicalDevice, ResourceKind::SwapChain) => true,
            (ResourceKind::SwapChain, ResourceKind::ImageView) => true,
            (ResourceKind::ImageView, ResourceKind::ImageView) => true,
            _ => false,
        }
    }

    /// Records a newly created object. An object created out of order is
    /// refused and the ledger is left as it was.
    pub fn record(&mut self, resource: Resource) -> (r: bool)
        requires
            old(self).wf(),
        ensures
            final(self).wf(),
            r == may_append(old(self)@, resource.kind),
            r ==> final(self)@ == old(self)@.push(resource),
            !r ==> final(self)@ == old(self)@,
    {
        if !self.may_record(resource.kind) {
            return false;
        }
        let ghost before = self.created@;
        self.created.push(resource);
        proof {
            assert forall|i: int| 0 < i < self.created@.len() implies #[trigger] follows_at(
                self.created@,
                i,
            ) by {
                if i < before.len() {
                    assert(follows_at(before, i));
                    assert(self.created@[i] == before[i]);
                    assert(self.created@[i - 1] == before[i - 1]);
                }
            }
        }
        true
    }

    /// The recorded objects, last created first: the order to destroy them in.
    pub fn teardown_order(&self) -> (r: Vec<Resource>)
        ensures
            r@ == self@.reverse(),
    {
        let n = self.created.len();
        let mut out: Vec<Resource> = Vec::new();
        let mut k: usize = 0;
        while k < n
            invariant
                n == self.created@.len(),
                0 <= k <= n,
                out@.len() == k,
                forall|m: int| 0 <= m < k ==> out@[m] == self.created@[n - 1 - m],
            decreases n - k,
        {
            out.push(self.created[n - 1 - k]);
            k = k + 1;
        }
        proof {
            assert(out@ =~= self.created@.reverse());
        }
        out
    }
}

proof fn lemma_creation_depths(created: Seq<Resource>, j: int)
    requires
        creation_order(created),
        0 <= j < created.len(),
    ensures
        forall|i: int| 0 <= i < j ==> outlives(#[trigger] created[i].kind, created[j].kind),
    decreases j,
{
    if j > 0 {
        lemma_creation_depths(created, j - 1);
        assert(follows_at(created, j));
    }
}

/// Teardown runs in exact reverse of creation. For a history that follows the
/// ownership chain, every object is therefore destroyed before each object it
/// depends on: image views before the swap chain, the swap chain before the
/// logical device, then the surface, the debug sink and the connection last.
pub proof fn lemma_teardown_reverses_creation(created: Seq<Resource>)
    requires
        creation_order(created),
    ensures
        created.reverse().len() == created.len(),
        forall|i: int|
            0 <= i < created.len() ==> #[trigger] created.reverse()[i] == created[created.len() - 1
                - i],
        forall|i: int, j: int|
            0 <= i < j < created.len() ==> outlives(
                #[trigger] created.reverse()[j].kind,
                #[trigger] created.reverse()[i].kind,
            ),
{
    let n = created.len() as int;
    let rev = created.reverse();
    assert forall|i: int, j: int| 0 <= i < j < n implies outlives(
        #[trigger] created[i].kind,
        #[trigger] created[j].kind,
    ) by {
        lemma_creation_depths(created, j);
    }
    assert forall|i: int| 0 <= i < n implies #[trigger] rev[i] == created[n - 1 - i] by {}
    assert forall|i: int, j: int| 0 <= i < j < n implies outlives(
        #[trigger] rev[j].kind,
        #[trigger] rev[i].kind,
    ) by {
        assert(rev[j] == created[n - 1 - j]);
        assert(rev[i] == created[n - 1 - i]);
        assert(outlives(created[n - 1 - j].kind, created[n - 1 - i].kind));
    }
}

} // verus!
