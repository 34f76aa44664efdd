use vstd::prelude::*;

pub mod input;
pub mod logic;

verus! {

/// The ordered stack of layers. Layers pushed first tick and draw first;
/// layers pushed last see events first.
pub struct LayerManager<L> {
    layers: Vec<L>,
}

impl<L> LayerManager<L> {
    pub closed spec fn layers(&self) -> Seq<L> {
        self.layers@
    }

    pub fn new() -> (r: Self)
        ensures
            r.layers() == Seq::<L>::empty(),
    {
        LayerManager { layers: Vec::new() }
    }

    pub fn push(&mut self, layer: L)
        ensures
            final(self).layers() == old(self).layers().push(layer),
    {
        self.layers.push(layer);
    }

    pub fn len(&self) -> (r: usize)
        ensures
            r == self.layers().len(),
    {
        self.layers.len()
    }

    pub fn layer(&self, i: usize) -> (r: &L)
        requires
            i < self.layers().len(),
        ensures
            *r == self.layers()[i as int],
    {
        &self.layers[i]
    }

    pub fn layer_mut(&mut self, i: usize) -> (r: &mut L)
        requires
            i < old(self).layers().len(),
        ensures
            *r == old(self).layers()[i as int],
            final(self).layers() == old(self).layers().update(i as int, *final(r)),
    {
        &mut self.layers[i]
    }
}

/// The index, counted from the bottom, of the topmost of the `n` bottom
/// layers that consumes the event; 0 when none of them does.
pub open spec fn stop_layer(n: int, consumed: Seq<bool>) -> int
    decreases n,
{
    if n <= 0 {
        0
    } else if consumed[n - 1] {
        n - 1
    } else {
        stop_layer(n - 1, consumed)
    }
}

/// The layers an event is delivered to, in delivery order, when layer `i`
/// reports `consumed[i]`: from the top down, ending with the first layer that
/// consumes it (or with the bottom layer).
pub open spec fn event_route(n: int, consumed: Seq<bool>) -> Seq<usize> {
    Seq::new((n - stop_layer(n, consumed)) as nat, |k: int| (n - 1 - k) as usize)
}

/// Delivery of one event through a stack of layers: top first, stopping at
/// the first layer that consumes it. The caller asks for the next layer,
/// delivers the event and reports whether that layer consumed it.
pub struct EventDispatch {
    remaining: usize,
    consumed: bool,
    layer_count: Ghost<nat>,
}

impl EventDispatch {
    /// How many layers, from the top, have been visited.
    pub closed spec fn visited(&self) -> nat {
        (self.layer_count@ - self.remaining) as nat
    }

    pub closed spec fn count(&self) -> nat {
        self.layer_count@
    }

    /// Whether the last visited layer consumed the event.
    pub closed spec fn stopped(&self) -> bool {
        self.consumed
    }

    #[verifier::type_invariant]
    spec fn wf(&self) -> bool {
        self.remaining <= self.layer_count@
    }

    /// Starts the delivery of an event to `layer_count` layers.
    pub fn new(layer_count: usize) -> (r: Self)
        ensures
            r.count() == layer_count,
            r.visited() == 0,
            !r.stopped(),
    {
        EventDispatch { remaining: layer_count, consumed: false, layer_count: Ghost(layer_count as nat) }
    }

    /// The layer the event goes to next, or `None` once it was consumed or
    /// every layer has seen it.
    pub fn next_layer(&self) -> (r: Option<usize>)
        ensures
            (self.stopped() || self.visited() == self.count()) ==> r is None,
            !(self.stopped() || self.visited() == self.count()) ==> r == Some(
                (self.count() - 1 - self.visited()) as usize,
            ),
    {
        proof {
            use_type_invariant(self);
        }
        if self.consumed || self.remaining == 0 {
            None
        } else {
            Some(self.remaining - 1)
        }
    }

    /// Records the answer of the layer returned by [`Self::next_layer`].
    pub fn report(&mut self, consumed: bool)
        requires
            !old(self).stopped(),
            old(self).visited() < old(self).count(),
        ensures
            final(self).count() == old(self).count(),
            final(self).visited() == old(self).visited() + 1,
            final(self).stopped() == consumed,
    {
        proof {
            use_type_invariant(&*self);
        }
        self.remaining = self.remaining - 1;
        self.consumed = consumed;
    }
}

/// Event delivery follows the layer stack in reverse: the route starts at the
/// top layer, visits each layer at most once going down, and ends at the
/// topmost layer that consumes the event, so no layer below it sees the event.
pub proof fn lemma_event_route(n: int, consumed: Seq<bool>)
    requires
        0 < n <= consumed.len(),
        n <= usize::MAX,
    ensures
        event_route(n, consumed)[0] == n - 1,
        0 <= stop_layer(n, consumed) < n,
        forall|k: int|
            0 <= k < event_route(n, consumed).len() ==> #[trigger] event_route(n, consumed)[k] as int
                == n - 1 - k,
        forall|i: int|
            stop_layer(n, consumed) < i < n ==> !#[trigger] consumed[i],
        consumed[stop_layer(n, consumed)] || stop_layer(n, consumed) == 0,
        forall|k: int|
            0 <= k < event_route(n, consumed).len() ==> #[trigger] event_route(n, consumed)[k] as int
                >= stop_layer(n, consumed),
    decreases n,
{
    assert(stop_layer(0, consumed) == 0);
    if n > 1 && !consumed[n - 1] {
        lemma_event_route(n - 1, consumed);
    }
    assert(stop_layer(n, consumed) < n);
    assert(event_route(n, consumed).len() > 0);
}

/// A run of [`EventDispatch`] in which layer `i` answers `consumed[i]`
/// delivers the event along [`event_route`]: while `visited` layers have
/// answered (all but the last of them without consuming), the visited layers
/// are the start of the route, and the dispatch is over exactly when the
/// whole route has been visited.
pub proof fn lemma_dispatch_follows_route(n: int, consumed: Seq<bool>, visited: int, stopped: bool)
    requires
        0 <= visited <= n == consumed.len(),
        n <= usize::MAX,
        stopped == (visited > 0 && consumed[n - visited]),
        forall|j: int| n - visited < j < n ==> !#[trigger] consumed[j],
    ensures
        visited <= event_route(n, consumed).len(),
        Seq::new(visited as nat, |k: int| (n - 1 - k) as usize) == event_route(n, consumed).subrange(
            0,
            visited,
        ),
        (stopped || visited == n) <==> visited == event_route(n, consumed).len(),
{
    if n > 0 {
        lemma_event_route(n, consumed);
        let stop = stop_layer(n, consumed);
        if visited > n - stop {
            assert(!consumed[stop]);
        }
        if stopped && visited < n - stop {
            assert(!consumed[n - visited]);
        }
    }
    assert(Seq::new(visited as nat, |k: int| (n - 1 - k) as usize) =~= event_route(n, consumed).subrange(
        0,
        visited,
    ));
}

} // verus!
