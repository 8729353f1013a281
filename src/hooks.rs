//! The registry of installed detours. The interception primitive itself
//! (creating and enabling a redirect) runs outside; this registry decides
//! whether an installation may proceed, records it only once the primitive
//! reported full success, and answers which trampoline belongs to a detour.
use vstd::prelude::*;

verus! {

/// The status by which the interception primitive reports success.
pub const PRIMITIVE_OK: i32 = 0;

/// An installed detour: calls to `target` go to `detour`; `original` is the
/// trampoline that still runs the replaced function's body.
#[derive(Clone, Copy, Debug, PartialEq, Eq, Structural)]
pub struct Hook {
    pub target: usize,
    pub detour: usize,
    pub original: usize,
}

/// What the interception primitive reported for one installation.
#[derive(Clone, Copy, Debug, PartialEq, Eq, Structural)]
pub enum PrimitiveOutcome {
    /// Creating the redirect failed with this status.
    CreateFailed(i32),
    /// The redirect was created but enabling it failed with this status.
    EnableFailed(i32),
    /// The redirect is active; `original` reaches the replaced implementation.
    Enabled { original: usize },
}

#[derive(Clone, Copy, Debug, PartialEq, Eq, Structural)]
pub enum HookError {
    AlreadyInitialized,
    InitializeFailed { status: i32 },
    NotInitialized,
    DuplicateTarget { target: usize },
    DuplicateDetour { detour: usize },
    CreateFailed { target: usize, status: i32 },
    EnableFailed { target: usize, status: i32 },
}

pub open spec fn has_target(hooks: Seq<Hook>, target: usize) -> bool {
    exists|i: int| 0 <= i < hooks.len() && (#[trigger] hooks[i]).target == target
}

pub open spec fn has_detour(hooks: Seq<Hook>, detour: usize) -> bool {
    exists|i: int| 0 <= i < hooks.len() && (#[trigger] hooks[i]).detour == detour
}

/// No two hooks share a target or a detour.
pub open spec fn hooks_distinct(hooks: Seq<Hook>) -> bool {
    forall|i: int, j: int|
        0 <= i < hooks.len() && 0 <= j < hooks.len() && i != j ==> {
            &&& (#[trigger] hooks[i]).target != (#[trigger] hooks[j]).target
            &&& hooks[i].detour != hooks[j].detour
        }
}

/// The trampoline recorded for `detour` by the first hook that has it.
pub open spec fn original_of(hooks: Seq<Hook>, detour: usize) -> Option<usize>
    decreases hooks.len(),
{
    if hooks.len() == 0 {
        None
    } else if hooks[0].detour == detour {
        Some(hooks[0].original)
    } else {
        original_of(hooks.drop_first(), detour)
    }
}

/// Whether a registry in state `(initialized, hooks)` lets `target` be
/// redirected to `detour`.
pub open spec fn admission(v: (bool, Seq<Hook>), target: usize, detour: usize) -> Result<
    (),
    HookError,
> {
    if !v.0 {
        Err(HookError::NotInitialized)
    } else if has_target(v.1, target) {
        Err(HookError::DuplicateTarget { target })
    } else if has_detour(v.1, detour) {
        Err(HookError::DuplicateDetour { detour })
    } else {
        Ok(())
    }
}

/// The result of an installation attempt that the primitive answered with
/// `outcome`.
pub open spec fn install_result(
    v: (bool, Seq<Hook>),
    target: usize,
    detour: usize,
    outcome: PrimitiveOutcome,
) -> Result<(), HookError> {
    match admission(v, target, detour) {
        Err(e) => Err(e),
        Ok(()) => match outcome {
            PrimitiveOutcome::CreateFailed(status) => Err(HookError::CreateFailed { target, status }),
            PrimitiveOutcome::EnableFailed(status) => Err(HookError::EnableFailed { target, status }),
            PrimitiveOutcome::Enabled { original } => Ok(()),
        },
    }
}

/// The registry state after that attempt: one hook more on success, the same
/// otherwise.
pub open spec fn installed(
    v: (bool, Seq<Hook>),
    target: usize,
    detour: usize,
    outcome: PrimitiveOutcome,
) -> (bool, Seq<Hook>) {
    match (install_result(v, target, detour, outcome), outcome) {
        (Ok(()), PrimitiveOutcome::Enabled { original }) => (
            v.0,
            v.1.push(Hook { target, detour, original }),
        ),
        _ => v,
    }
}

/// The detours of the process, with whether the interception primitive has
/// been initialized. Entries are only ever appended.
pub struct HookRegistry {
    initialized: bool,
    hooks: Vec<Hook>,
}

impl View for HookRegistry {
    type V = (bool, Seq<Hook>);

    closed spec fn view(&self) -> (bool, Seq<Hook>) {
        (self.initialized, self.hooks@)
    }
}

impl HookRegistry {
    /// An empty registry, before the primitive is initialized.
    pub fn new() -> (r: HookRegistry)
        ensures
            r@ == (false, Seq::<Hook>::empty()),
    {
        HookRegistry { initialized: false, hooks: Vec::new() }
    }

    pub fn is_initialized(&self) -> (r: bool)
        ensures
            r == self@.0,
    {
        self.initialized
    }

    pub fn len(&self) -> (r: usize)
        ensures
            r == self@.1.len(),
    {
        self.hooks.len()
    }

    /// Records the status with which the primitive's global initializer
    /// returned. It may succeed once.
    pub fn initialize_minhook(&mut self, status: i32) -> (r: Result<(), HookError>)
        ensures
            old(self)@.0 ==> r == Err::<(), HookError>(HookError::AlreadyInitialized),
            !old(self)@.0 && status != PRIMITIVE_OK ==> r == Err::<(), HookError>(
                HookError::InitializeFailed { status },
            ),
            !old(self)@.0 && status == PRIMITIVE_OK ==> r is Ok,
            final(self)@ == (old(self)@.0 || r is Ok, old(self)@.1),
    {
        if self.initialized {
            return Err(HookError::AlreadyInitialized);
        }
        if status != PRIMITIVE_OK {
            return Err(HookError::InitializeFailed { status });
        }
        self.initialized = true;
        Ok(())
    }

    /// Whether `target` may be redirected to `detour` now: the primitive is
    /// initialized and no hook has this target or this detour yet.
    pub fn check_hook(&self, target: usize, detour: usize) -> (r: Result<(), HookError>)
        ensures
            r == admission(self@, target, detour),
    {
        if !self.initialized {
            return Err(HookError::NotInitialized);
        }
        let mut i: usize = 0;
        while i < self.hooks.len()
            invariant
                self.initialized,
                i <= self.hooks@.len(),
                forall|j: int| 0 <= j < i ==> (#[trigger] self.hooks@[j]).target != target,
            decreases self.hooks@.len() - i,
        {
            if self.hooks[i].target == target {
                assert(has_target(self.hooks@, target) && self@.1 == self.hooks@);
                return Err(HookError::DuplicateTarget { target });
            }
            i = i + 1;
        }
        let mut k: usize = 0;
        while k < self.hooks.len()
            invariant
                self.initialized,
                k <= self.hooks@.len(),
                !has_target(self.hooks@, target),
                forall|j: int| 0 <= j < k ==> (#[trigger] self.hooks@[j]).detour != detour,
            decreases self.hooks@.len() - k,
        {
            if self.hooks[k].detour == detour {
                assert(has_detour(self.hooks@, detour) && self@.1 == self.hooks@);
                return Err(HookError::DuplicateDetour { detour });
            }
            k = k + 1;
        }
        Ok(())
    }

    /// Completes an installation that the primitive answered with `outcome`.
    /// The hook is appended only if the registry admits it and the redirect
    /// was both created and enabled; otherwise the registry is unchanged.
    pub fn hook(&mut self, target: usize, detour: usize, outcome: PrimitiveOutcome) -> (r: Result<
        (),
        HookError,
    >)
        ensures
            r == install_result(old(self)@, target, detour, outcome),
            final(self)@ == installed(old(self)@, target, detour, outcome),
    {
        match self.check_hook(target, detour) {
            Err(e) => Err(e),
            Ok(()) => match outcome {
                PrimitiveOutcome::CreateFailed(status) => Err(
                    HookError::CreateFailed { target, status },
                ),
                PrimitiveOutcome::EnableFailed(status) => Err(
                    HookError::EnableFailed { target, status },
                ),
                PrimitiveOutcome::Enabled { original } => {
                    self.hooks.push(Hook { target, detour, original });
                    Ok(())
                },
            },
        }
    }

    /// The trampoline behind `detour`, found by a linear scan.
    pub fn get_proto_original(&self, detour: usize) -> (r: Option<usize>)
        ensures
            r == original_of(self@.1, detour),
    {
        let ghost hs = self.hooks@;
        let mut i: usize = 0;
        assert(hs.subrange(0, hs.len() as int) =~= hs);
        while i < self.hooks.len()
            invariant
                hs == self.hooks@,
                i <= hs.len(),
                original_of(hs, detour) == original_of(hs.subrange(i as int, hs.len() as int), detour),
            decreases hs.len() - i,
        {
            let ghost rest = hs.subrange(i as int, hs.len() as int);
            assert(rest[0] == hs[i as int]);
            assert(rest.drop_first() =~= hs.subrange(i + 1, hs.len() as int));
            if self.hooks[i].detour == detour {
                return Some(self.hooks[i].original);
            }
            i = i + 1;
        }
        None
    }
}

/// Appending a hook whose detour is new leaves what every other detour
/// resolves to as it was, and makes the new detour resolve to its trampoline.
proof fn lemma_original_of_push(hooks: Seq<Hook>, h: Hook, detour: usize)
    requires
        !has_detour(hooks, h.detour),
    ensures
        original_of(hooks.push(h), detour) == if detour == h.detour {
            Some(h.original)
        } else {
            original_of(hooks, detour)
        },
    decreases hooks.len(),
{
    let hs = hooks.push(h);
    if hooks.len() == 0 {
        assert(hs.drop_first() =~= Seq::<Hook>::empty());
        assert(hs[0] == h);
        assert(original_of(hs.drop_first(), detour) is None);
    } else {
        assert(hs.drop_first() =~= hooks.drop_first().push(h));
        assert(hs[0] == hooks[0]);
        assert(hooks[0].detour != h.detour);
        assert(!has_detour(hooks.drop_first(), h.detour)) by {
            if has_detour(hooks.drop_first(), h.detour) {
                let i = choose|i: int|
                    0 <= i < hooks.drop_first().len() && (#[trigger] hooks.drop_first()[i]).detour
                        == h.detour;
                assert(hooks[i + 1] == hooks.drop_first()[i]);
            }
        }
        lemma_original_of_push(hooks.drop_first(), h, detour);
    }
}

/// After a successful installation of `target` with `detour`, resolving
/// `detour` yields exactly the trampoline pointer that the primitive reported.
pub proof fn lemma_install_then_resolve(
    v: (bool, Seq<Hook>),
    target: usize,
    detour: usize,
    original: usize,
)
    requires
        install_result(v, target, detour, PrimitiveOutcome::Enabled { original }) is Ok,
    ensures
        original_of(installed(v, target, detour, PrimitiveOutcome::Enabled { original }).1, detour)
            == Some(original),
{
    lemma_original_of_push(v.1, Hook { target, detour, original }, detour);
}

/// Resolving a detour that no hook has yields nothing.
pub proof fn lemma_resolve_unknown(hooks: Seq<Hook>, detour: usize)
    requires
        !has_detour(hooks, detour),
    ensures
        original_of(hooks, detour) is None,
    decreases hooks.len(),
{
    if hooks.len() > 0 {
        assert(hooks[0].detour != detour);
        assert(!has_detour(hooks.drop_first(), detour)) by {
            if has_detour(hooks.drop_first(), detour) {
                let i = choose|i: int|
                    0 <= i < hooks.drop_first().len() && (#[trigger] hooks.drop_first()[i]).detour
                        == detour;
                assert(hooks[i + 1] == hooks.drop_first()[i]);
            }
        }
        lemma_resolve_unknown(hooks.drop_first(), detour);
    }
}

/// Every installation, successful or not, keeps targets and detours unique
/// across the registry.
pub proof fn lemma_install_keeps_distinct(
    v: (bool, Seq<Hook>),
    target: usize,
    detour: usize,
    outcome: PrimitiveOutcome,
)
    requires
        hooks_distinct(v.1),
    ensures
        hooks_distinct(installed(v, target, detour, outcome).1),
{
    let w = installed(v, target, detour, outcome);
    if w.1.len() != v.1.len() {
        let before = v.1;
        let after = w.1;
        assert forall|i: int, j: int|
            0 <= i < after.len() && 0 <= j < after.len() && i != j implies {
            &&& (#[trigger] after[i]).target != (#[trigger] after[j]).target
            &&& after[i].detour != after[j].detour
        } by {
            if i < before.len() && j < before.len() {
                assert(before[i] == after[i] && before[j] == after[j]);
            } else if i < before.len() {
                assert(before[i] == after[i]);
            } else {
                assert(before[j] == after[j]);
            }
        }
    }
}

/// A second installation on a target that already has a hook is rejected
/// and leaves the registry as it was, whatever detour and outcome it comes
/// with.
pub proof fn lemma_duplicate_target_rejected(
    v: (bool, Seq<Hook>),
    target: usize,
    detour1: usize,
    outcome1: PrimitiveOutcome,
    detour2: usize,
    outcome2: PrimitiveOutcome,
)
    requires
        install_result(v, target, detour1, outcome1) is Ok,
    ensures
        ({
            let w = installed(v, target, detour1, outcome1);
            &&& install_result(w, target, detour2, outcome2) == Err::<(), HookError>(
                HookError::DuplicateTarget { target },
            )
            &&& installed(w, target, detour2, outcome2) == w
        }),
{
    let w = installed(v, target, detour1, outcome1);
    assert(w.1[v.1.len() as int].target == target);
}

} // verus!
