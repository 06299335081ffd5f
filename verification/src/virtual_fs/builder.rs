use vstd::prelude::*;

verus! {

/// A step of setting up a WebAssembly runtime.
#[derive(Debug, Clone, Copy, PartialEq, Eq, Structural)]
pub enum BuildStep {
    Engine,
    Linker,
    Store,
    Component,
    Instance,
}

/// The steps, in the order a runtime is set up.
pub open spec fn build_steps() -> Seq<BuildStep> {
    seq![BuildStep::Engine, BuildStep::Linker, BuildStep::Store, BuildStep::Component, BuildStep::Instance]
}

/// The first `n` steps, each marked as having succeeded, but the last,
/// marked with `last_ok`.
pub open spec fn construct_log(n: nat, last_ok: bool) -> Seq<(BuildStep, bool)> {
    Seq::new(n, |i: int| (build_steps()[i], i < n - 1 || last_ok))
}

/// The steps that set up a WebAssembly runtime, implemented by the
/// runtime's builder. A builder that keeps a history (`obeys_history`)
/// records each step in it with whether the step succeeded; by default a
/// builder keeps none and its steps promise nothing.
pub trait WasiUtilsBuild {
    type Error;

    /// Whether the builder records its steps in `history`.
    open spec fn obeys_history() -> bool {
        false
    }

    /// The steps run on this builder so far, each with whether it
    /// succeeded.
    open spec fn history(&self) -> Seq<(BuildStep, bool)> {
        Seq::empty()
    }

    fn set_engine(&mut self)
        ensures
            Self::obeys_history() ==> final(self).history() == old(self).history().push((BuildStep::Engine, true)),
    ;

    fn set_linker(&mut self) -> (r: Result<(), Self::Error>)
        ensures
            Self::obeys_history() ==> final(self).history() == old(self).history().push((BuildStep::Linker, r is Ok)),
    ;

    fn set_store(&mut self) -> (r: Result<(), Self::Error>)
        ensures
            Self::obeys_history() ==> final(self).history() == old(self).history().push((BuildStep::Store, r is Ok)),
    ;

    fn set_component(&mut self) -> (r: Result<(), Self::Error>)
        ensures
            Self::obeys_history() ==> final(self).history() == old(self).history().push((BuildStep::Component, r is Ok)),
    ;

    fn set_instance(&mut self) -> (r: Result<(), Self::Error>)
        ensures
            Self::obeys_history() ==> final(self).history() == old(self).history().push((BuildStep::Instance, r is Ok)),
    ;
}

/// Runs a builder's steps in order.
pub struct Director;

impl Director {
    /// Sets the engine, then the linker, the store, the component and the
    /// instance, stopping at the first step that fails and handing back its
    /// error. On a builder that keeps a history, the steps run are recorded
    /// in that order: all five succeeded when the result is `Ok`; otherwise
    /// the engine and at least the linker ran, every step but the last
    /// succeeded and the last failed.
    pub fn construct_wasi<B: WasiUtilsBuild>(builder: &mut B) -> (r: Result<(), B::Error>)
        ensures
            B::obeys_history() && r is Ok ==> final(builder).history() == old(builder).history() + construct_log(5, true),
            B::obeys_history() && r is Err ==> exists|n: nat| 2 <= n <= 5
                && final(builder).history() == old(builder).history() + #[trigger] construct_log(n, false),
    {
        let ghost h0 = builder.history();
        builder.set_engine();
        assert(B::obeys_history() ==> builder.history() == h0 + construct_log(1, true));
        match builder.set_linker() {
            Ok(()) => {},
            Err(e) => {
                assert(B::obeys_history() ==> builder.history() == h0 + construct_log(2, false));
                return Err(e);
            },
        }
        assert(B::obeys_history() ==> builder.history() == h0 + construct_log(2, true));
        match builder.set_store() {
            Ok(()) => {},
            Err(e) => {
                assert(B::obeys_history() ==> builder.history() == h0 + construct_log(3, false));
                return Err(e);
            },
        }
        assert(B::obeys_history() ==> builder.history() == h0 + construct_log(3, true));
        match builder.set_component() {
            Ok(()) => {},
            Err(e) => {
                assert(B::obeys_history() ==> builder.history() == h0 + construct_log(4, false));
                return Err(e);
            },
        }
        assert(B::obeys_history() ==> builder.history() == h0 + construct_log(4, true));
        match builder.set_instance() {
            Ok(()) => {},
            Err(e) => {
                assert(B::obeys_history() ==> builder.history() == h0 + construct_log(5, false));
                return Err(e);
            },
        }
        assert(B::obeys_history() ==> builder.history() == h0 + construct_log(5, true));
        Ok(())
    }
}

} // verus!
