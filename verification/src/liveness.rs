//! Liveness: hold/release leases and exit policy.
//!
//! Application lifetime is governed by leases, not a static quit mode. When the
//! last hold is released and no windows remain, an app with
//! [`ExitPolicy::WhenIdle`] may exit. The exit decision is the pure function
//! [`should_exit`].

use std::sync::atomic::{AtomicUsize, Ordering};
use std::sync::Arc;
use vstd::prelude::*;

verus! {

/// How the app presents itself at launch.
#[derive(Debug, Clone, Copy, PartialEq, Eq)]
#[non_exhaustive]
pub enum InitialActivation {
    /// Normal foreground activation (default).
    Regular,
    /// Force foreground activation.
    Forced,
    /// Do not steal focus or show in the foreground.
    Passive,
}

impl Default for InitialActivation {
    fn default() -> (activation: Self)
        ensures
            activation == InitialActivation::Regular,
    {
        InitialActivation::Regular
    }
}

/// When the shell is allowed to exit on its own.
#[derive(Debug, Clone, Copy, PartialEq, Eq)]
pub enum ExitPolicy {
    /// Exit once there are no windows and no holds.
    WhenIdle,
    /// Never exit automatically; quit only via an explicit request.
    Explicit,
}

impl Default for ExitPolicy {
    fn default() -> (policy: Self)
        ensures
            policy == ExitPolicy::WhenIdle,
    {
        ExitPolicy::WhenIdle
    }
}

/// Pure exit decision: `true` when the shell should exit given the policy,
/// the number of outstanding holds, and the number of open windows.
pub fn should_exit(policy: ExitPolicy, holds: usize, windows: usize) -> (exit: bool)
    ensures
        exit == (policy == ExitPolicy::WhenIdle && holds == 0 && windows == 0),
{
    match policy {
        ExitPolicy::WhenIdle => holds == 0 && windows == 0,
        ExitPolicy::Explicit => false,
    }
}

/// Main-thread liveness state.
#[derive(Debug)]
pub struct Liveness {
    holds: Arc<AtomicUsize>,
    exit_policy: ExitPolicy,
    initial_activation: InitialActivation,
    activated: bool,
}

/// The configured policies and activation flag of a [`Liveness`].
pub struct LivenessModel {
    /// The shared hold counter.
    pub holds: Arc<AtomicUsize>,
    /// The exit policy.
    pub exit_policy: ExitPolicy,
    /// The initial-activation policy.
    pub initial_activation: InitialActivation,
    /// Whether initial activation has been applied.
    pub activated: bool,
}

impl View for Liveness {
    type V = LivenessModel;

    closed spec fn view(&self) -> LivenessModel {
        LivenessModel {
            holds: self.holds,
            exit_policy: self.exit_policy,
            initial_activation: self.initial_activation,
            activated: self.activated,
        }
    }
}

impl Liveness {
    /// New liveness state with the given policies and zero holds.
    pub fn new(exit_policy: ExitPolicy, initial_activation: InitialActivation) -> (state: Self)
        ensures
            state@.exit_policy == exit_policy,
            state@.initial_activation == initial_activation,
            !state@.activated,
    {
        Liveness {
            holds: Arc::new(AtomicUsize::new(0)),
            exit_policy,
            initial_activation,
            activated: false,
        }
    }

    /// The configured exit policy.
    pub fn exit_policy(&self) -> (policy: ExitPolicy)
        ensures
            policy == self@.exit_policy,
    {
        self.exit_policy
    }

    /// The configured initial-activation policy.
    pub fn initial_activation(&self) -> (activation: InitialActivation)
        ensures
            activation == self@.initial_activation,
    {
        self.initial_activation
    }

    /// Whether initial activation has been applied.
    pub fn activated(&self) -> (activated: bool)
        ensures
            activated == self@.activated,
    {
        self.activated
    }

    /// Record that initial activation has been applied.
    pub fn mark_activated(&mut self)
        ensures
            final(self)@.activated,
            final(self)@.exit_policy == old(self)@.exit_policy,
            final(self)@.initial_activation == old(self)@.initial_activation,
            final(self)@.holds == old(self)@.holds,
    {
        self.activated = true;
    }

    /// Current number of outstanding holds. Holds are taken and released on
    /// other threads, so the count is a snapshot and no clause states it.
    pub fn hold_count(&self) -> usize {
        self.holds.load(Ordering::SeqCst)
    }

    /// The shared hold counter, cloned so leases can be taken without
    /// borrowing the main-thread state.
    pub fn holds_arc(&self) -> (holds: Arc<AtomicUsize>)
        ensures
            holds == self@.holds,
    {
        Arc::clone(&self.holds)
    }
}

} // verus!
