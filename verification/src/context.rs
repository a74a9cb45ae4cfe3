//! Execution context of a target's sync worker: its settings, engine, command channel,
//! observer, source connectivity flag, network resolver and cancellation flag.

use vstd::prelude::*;
use std::sync::Arc;
use std::sync::atomic::AtomicBool;
use std::sync::mpsc::Receiver;
use crate::config::TargetSyncConfig;
use crate::error::{SyncError, ValidationKind};
use crate::reachability::NetworkResolver;
use crate::traits::{SyncEngine, SyncStatusObserver};
use crate::types::SyncCommand;

verus! {

/// `std::sync::mpsc::Receiver`, the receiving end of a worker's command channel: carried
/// through opaquely, nothing is claimed of what it holds.
#[verifier::external_type_specification]
#[verifier::external_body]
#[verifier::reject_recursive_types(T)]
pub struct ExReceiver<T>(Receiver<T>);

/// Default capacity of a worker's debounce queue.
pub const DEFAULT_MAX_PENDING_QUEUE: usize = 50000;

/// Reads a shared flag.
pub fn load_flag(flag: &AtomicBool) -> bool {
    flag.load(std::sync::atomic::Ordering::Relaxed)
}

/// Sets a shared flag.
pub fn store_flag(flag: &AtomicBool, value: bool) {
    flag.store(value, std::sync::atomic::Ordering::Relaxed)
}

/// Shared, thread-safe flag telling whether the source directory is online.
#[derive(Clone, Debug)]
pub struct SourceConnectivityTracker(pub Arc<AtomicBool>);

impl SourceConnectivityTracker {
    /// A tracker starting in state `initial`.
    pub fn new(initial: bool) -> (t: Self) {
        SourceConnectivityTracker(Arc::new(AtomicBool::new(initial)))
    }

    /// Whether the source is currently marked online (as set by any holder of the flag).
    pub fn is_online(&self) -> bool {
        load_flag(&*self.0)
    }

    /// Marks the source online or offline for every holder of the flag.
    pub fn set_online(&self, online: bool) {
        store_flag(&*self.0, online)
    }

    /// The shared flag itself.
    pub fn raw_arc(&self) -> (r: Arc<AtomicBool>)
        ensures
            r == self.0,
    {
        self.0.clone()
    }
}

/// Execution context of one target's sync worker.
pub struct SyncWorkerContext<E: SyncEngine, O: SyncStatusObserver + ?Sized, R: NetworkResolver + ?Sized> {
    pub target_index: usize,
    pub config: TargetSyncConfig,
    pub engine: E,
    pub rx: Receiver<SyncCommand>,
    pub observer: Option<Arc<O>>,
    pub source_connectivity: SourceConnectivityTracker,
    pub resolver: Arc<R>,
    pub cancellation: Arc<AtomicBool>,
    pub max_pending_queue: usize,
}

/// Builder of a [`SyncWorkerContext`] that checks its settings.
pub struct SyncWorkerContextBuilder<E: SyncEngine, O: SyncStatusObserver + ?Sized, R: NetworkResolver + ?Sized> {
    pub target_index: usize,
    pub config: TargetSyncConfig,
    pub engine: E,
    pub rx: Receiver<SyncCommand>,
    pub observer: Option<Arc<O>>,
    pub source_connectivity: SourceConnectivityTracker,
    pub resolver: Arc<R>,
    pub cancellation: Option<Arc<AtomicBool>>,
    pub max_pending_queue: usize,
}

impl<E: SyncEngine, O: SyncStatusObserver + ?Sized, R: NetworkResolver + ?Sized> SyncWorkerContextBuilder<E, O, R> {
    /// A builder with no observer, a fresh cancellation flag, the default queue capacity,
    /// and `default_resolver` as resolver.
    pub fn new(
        target_index: usize,
        config: TargetSyncConfig,
        engine: E,
        rx: Receiver<SyncCommand>,
        source_connectivity: SourceConnectivityTracker,
        default_resolver: Arc<R>,
    ) -> (b: Self)
        ensures
            b.target_index == target_index,
            b.config == config,
            b.engine == engine,
            b.observer is None,
            b.source_connectivity == source_connectivity,
            b.resolver == default_resolver,
            b.cancellation is None,
            b.max_pending_queue == DEFAULT_MAX_PENDING_QUEUE,
    {
        SyncWorkerContextBuilder {
            target_index,
            config,
            engine,
            rx,
            observer: None,
            source_connectivity,
            resolver: default_resolver,
            cancellation: None,
            max_pending_queue: DEFAULT_MAX_PENDING_QUEUE,
        }
    }

    /// Attaches a status observer.
    pub fn observer(self, observer: Arc<O>) -> (b: Self)
        ensures
            b == (SyncWorkerContextBuilder { observer: Some(observer), ..self }),
    {
        SyncWorkerContextBuilder { observer: Some(observer), ..self }
    }

    /// Attaches a status observer or none.
    pub fn maybe_observer(self, observer: Option<Arc<O>>) -> (b: Self)
        ensures
            b == (SyncWorkerContextBuilder { observer, ..self }),
    {
        SyncWorkerContextBuilder { observer, ..self }
    }

    /// Uses `resolver` as network resolver.
    pub fn resolver(self, resolver: Arc<R>) -> (b: Self)
        ensures
            b == (SyncWorkerContextBuilder { resolver, ..self }),
    {
        SyncWorkerContextBuilder { resolver, ..self }
    }

    /// Uses `cancellation` as cancellation flag.
    pub fn cancellation(self, cancellation: Arc<AtomicBool>) -> (b: Self)
        ensures
            b == (SyncWorkerContextBuilder { cancellation: Some(cancellation), ..self }),
    {
        SyncWorkerContextBuilder { cancellation: Some(cancellation), ..self }
    }

    /// Sets the capacity of the debounce queue.
    pub fn max_pending_queue(self, max: usize) -> (b: Self)
        ensures
            b == (SyncWorkerContextBuilder { max_pending_queue: max, ..self }),
    {
        SyncWorkerContextBuilder { max_pending_queue: max, ..self }
    }

    /// The context, or an invariant validation error when the queue capacity is zero.
    pub fn build(self) -> (r: Result<SyncWorkerContext<E, O, R>, SyncError>)
        ensures
            r is Ok <==> self.max_pending_queue > 0,
            r is Ok ==> {
                let c = r->Ok_0;
                &&& c.target_index == self.target_index
                &&& c.config == self.config
                &&& c.engine == self.engine
                &&& c.observer == self.observer
                &&& c.source_connectivity == self.source_connectivity
                &&& c.resolver == self.resolver
                &&& (self.cancellation matches Some(f) ==> c.cancellation == f)
                &&& c.max_pending_queue == self.max_pending_queue
            },
            r is Err ==> (r->Err_0 matches SyncError::Validation { kind, message } && kind
                == ValidationKind::Invariant && message@ == "max_pending_queue must be greater than zero"@),
    {
        if self.max_pending_queue == 0 {
            return Err(SyncError::validation_invariant("max_pending_queue must be greater than zero"));
        }
        let cancellation = match self.cancellation {
            Some(f) => f,
            None => Arc::new(AtomicBool::new(false)),
        };
        Ok(SyncWorkerContext {
            target_index: self.target_index,
            config: self.config,
            engine: self.engine,
            rx: self.rx,
            observer: self.observer,
            source_connectivity: self.source_connectivity,
            resolver: self.resolver,
            cancellation,
            max_pending_queue: self.max_pending_queue,
        })
    }
}

impl<E: SyncEngine, O: SyncStatusObserver + ?Sized, R: NetworkResolver + ?Sized> SyncWorkerContext<E, O, R> {
    /// A builder for a context (see [`SyncWorkerContextBuilder::new`]).
    pub fn builder(
        target_index: usize,
        config: TargetSyncConfig,
        engine: E,
        rx: Receiver<SyncCommand>,
        source_connectivity: SourceConnectivityTracker,
        default_resolver: Arc<R>,
    ) -> (b: SyncWorkerContextBuilder<E, O, R>)
        ensures
            b.target_index == target_index,
            b.config == config,
            b.engine == engine,
            b.observer is None,
            b.source_connectivity == source_connectivity,
            b.resolver == default_resolver,
            b.cancellation is None,
            b.max_pending_queue == DEFAULT_MAX_PENDING_QUEUE,
    {
        SyncWorkerContextBuilder::new(target_index, config, engine, rx, source_connectivity, default_resolver)
    }

    /// A context with a fresh cancellation flag and the default queue capacity.
    pub fn new(
        target_index: usize,
        config: TargetSyncConfig,
        engine: E,
        rx: Receiver<SyncCommand>,
        observer: Option<Arc<O>>,
        source_connectivity: SourceConnectivityTracker,
        resolver: Arc<R>,
    ) -> (c: Self)
        ensures
            c.target_index == target_index,
            c.config == config,
            c.engine == engine,
            c.observer == observer,
            c.source_connectivity == source_connectivity,
            c.resolver == resolver,
            c.max_pending_queue == DEFAULT_MAX_PENDING_QUEUE,
    {
        SyncWorkerContext {
            target_index,
            config,
            engine,
            rx,
            observer,
            source_connectivity,
            resolver,
            cancellation: Arc::new(AtomicBool::new(false)),
            max_pending_queue: DEFAULT_MAX_PENDING_QUEUE,
        }
    }

    pub fn target_index(&self) -> (r: usize)
        ensures
            r == self.target_index,
    {
        self.target_index
    }

    pub fn config(&self) -> (r: &TargetSyncConfig)
        ensures
            *r == self.config,
    {
        &self.config
    }

    pub fn engine(&self) -> (r: &E)
        ensures
            *r == self.engine,
    {
        &self.engine
    }

    pub fn engine_mut(&mut self) -> (r: &mut E)
        ensures
            *r == old(self).engine,
            *final(self) == (SyncWorkerContext { engine: *final(r), ..*old(self) }),
    {
        &mut self.engine
    }

    pub fn observer(&self) -> (r: Option<&Arc<O>>)
        ensures
            match r {
                Some(o) => self.observer == Some(*o),
                None => self.observer is None,
            },
    {
        match &self.observer {
            Some(o) => Some(o),
            None => None,
        }
    }

    pub fn source_connectivity(&self) -> (r: &SourceConnectivityTracker)
        ensures
            *r == self.source_connectivity,
    {
        &self.source_connectivity
    }

    pub fn resolver(&self) -> (r: &Arc<R>)
        ensures
            *r == self.resolver,
    {
        &self.resolver
    }

    pub fn cancellation(&self) -> (r: &Arc<AtomicBool>)
        ensures
            *r == self.cancellation,
    {
        &self.cancellation
    }

    pub fn max_pending_queue(&self) -> (r: usize)
        ensures
            r == self.max_pending_queue,
    {
        self.max_pending_queue
    }

    /// The same context with another queue capacity.
    pub fn with_max_pending_queue(self, max_pending_queue: usize) -> (c: Self)
        ensures
            c == (SyncWorkerContext { max_pending_queue, ..self }),
    {
        SyncWorkerContext { max_pending_queue, ..self }
    }

    /// The same context with another resolver.
    pub fn with_resolver(self, resolver: Arc<R>) -> (c: Self)
        ensures
            c == (SyncWorkerContext { resolver, ..self }),
    {
        SyncWorkerContext { resolver, ..self }
    }

    /// The same context with another cancellation flag.
    pub fn with_cancellation(self, cancellation: Arc<AtomicBool>) -> (c: Self)
        ensures
            c == (SyncWorkerContext { cancellation, ..self }),
    {
        SyncWorkerContext { cancellation, ..self }
    }

    /// The source connectivity flag.
    pub fn source_online_atomic(&self) -> (r: Arc<AtomicBool>)
        ensures
            r == self.source_connectivity.0,
    {
        self.source_connectivity.raw_arc()
    }
}

} // verus!
