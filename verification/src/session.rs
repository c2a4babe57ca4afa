//! The session manager: the set of validators managed by an origin, handed
//! to the session pallet at a new session only when it has changed. Also
//! the session environment that the tests drive it with.
use vstd::prelude::*;

verus! {

/// Errors of the session manager.
#[derive(PartialEq, Eq, Structural, Debug, Clone, Copy)]
pub enum SessionError {
    AlreadyAdded,
    AlreadyRemoved,
    NotRegistered,
}

/// The validators (no one twice) and whether they changed since the last session.
pub struct SessionManager {
    pub validators: Vec<u64>,
    pub is_changed: bool,
}

/// Whether `v` is among the validators.
fn position(v: &Vec<u64>, x: u64) -> (r: Option<usize>)
    ensures
        match r {
            Some(i) => i < v@.len() && v@[i as int] == x,
            None => !v@.contains(x),
        },
{
    let mut k: usize = 0;
    while k < v.len()
        invariant
            k <= v@.len(),
            forall|m: int| 0 <= m < k ==> v@[m] != x,
        decreases v@.len() - k,
    {
        if v[k] == x {
            return Some(k);
        }
        k = k + 1;
    }
    None
}

impl SessionManager {
    /// The validators of genesis (each once); they count as a change.
    pub fn genesis(validators: &Vec<u64>) -> (r: Self)
        ensures
            r.validators@.no_duplicates(),
            r.validators@.to_set() == validators@.to_set(),
            r.is_changed,
    {
        let mut out: Vec<u64> = Vec::new();
        let mut k: usize = 0;
        while k < validators.len()
            invariant
                k <= validators@.len(),
                out@.no_duplicates(),
                out@.to_set() == validators@.take(k as int).to_set(),
            decreases validators@.len() - k,
        {
            let x = validators[k];
            proof {
                assert(validators@.take(k + 1) =~= validators@.take(k as int).push(x));
                Seq::<u64>::lemma_to_set_insert_commutes(validators@.take(k as int), x);
                assert(validators@.take(k as int) + seq![x] =~= validators@.take(k as int).push(x));
                assert(validators@.take(k as int).push(x).to_set() =~= validators@.take(
                    k as int,
                ).to_set().insert(x));
            }
            match position(&out, x) {
                Some(_) => {
                    proof {
                        assert(out@.to_set().contains(x));
                        assert(out@.to_set().insert(x) =~= out@.to_set());
                    }
                },
                None => {
                    proof {
                        Seq::<u64>::lemma_to_set_insert_commutes(out@, x);
                        assert(out@ + seq![x] =~= out@.push(x));
                    }
                    out.push(x);
                },
            }
            k = k + 1;
        }
        proof {
            assert(validators@.take(k as int) =~= validators@);
        }
        SessionManager { validators: out, is_changed: true }
    }

    /// Whether `id` is a validator.
    pub fn is_validator(&self, id: u64) -> (r: bool)
        ensures
            r == self.validators@.contains(id),
    {
        position(&self.validators, id).is_some()
    }

    /// Adds a validator that the session pallet has registered.
    pub fn add_validator(&mut self, id: u64, is_registered: bool) -> (r: Result<(), SessionError>)
        requires
            old(self).validators@.no_duplicates(),
        ensures
            final(self).validators@.no_duplicates(),
            !is_registered ==> r == Err::<(), SessionError>(SessionError::NotRegistered)
                && final(self).validators@ == old(self).validators@ && final(self).is_changed == old(
                self).is_changed,
            is_registered && old(self).validators@.contains(id) ==> r == Err::<(), SessionError>(
                SessionError::AlreadyAdded,
            ) && final(self).validators@ == old(self).validators@ && final(self).is_changed == old(
                self).is_changed,
            is_registered && !old(self).validators@.contains(id) ==> r is Ok && final(
                self).validators@ == old(self).validators@.push(id) && final(self).is_changed,
    {
        if !is_registered {
            return Err(SessionError::NotRegistered);
        }
        if self.is_validator(id) {
            return Err(SessionError::AlreadyAdded);
        }
        self.validators.push(id);
        self.is_changed = true;
        Ok(())
    }

    /// Removes a validator.
    pub fn remove_validator(&mut self, id: u64) -> (r: Result<(), SessionError>)
        requires
            old(self).validators@.no_duplicates(),
        ensures
            final(self).validators@.no_duplicates(),
            !old(self).validators@.contains(id) ==> r == Err::<(), SessionError>(
                SessionError::AlreadyRemoved,
            ) && final(self).validators@ == old(self).validators@ && final(self).is_changed == old(
                self).is_changed,
            old(self).validators@.contains(id) ==> r is Ok && final(self).validators@.to_set()
                == old(self).validators@.to_set().remove(id) && final(self).is_changed,
    {
        match position(&self.validators, id) {
            None => Err(SessionError::AlreadyRemoved),
            Some(i) => {
                let ghost before = self.validators@;
                self.validators.remove(i);
                proof {
                    assert(self.validators@ =~= before.remove(i as int));
                    assert forall|a: int, b: int|
                        0 <= a < b < self.validators@.len() implies self.validators@[a]
                        != self.validators@[b] by {
                        let a0 = if a < i {
                            a
                        } else {
                            a + 1
                        };
                        let b0 = if b < i {
                            b
                        } else {
                            b + 1
                        };
                        assert(before[a0] != before[b0]);
                    }
                    assert forall|x: u64| self.validators@.contains(x) <==> before.to_set().remove(
                        id,
                    ).contains(x) by {
                        if self.validators@.contains(x) {
                            let m = choose|m: int| 0 <= m < self.validators@.len() && self.validators@[m] == x;
                            let m0 = if m < i {
                                m
                            } else {
                                m + 1
                            };
                            assert(before[m0] == x);
                            assert(m0 != i);
                        }
                        if before.contains(x) && x != id {
                            let m = choose|m: int| 0 <= m < before.len() && before[m] == x;
                            assert(m != i);
                            if m < i {
                                assert(self.validators@[m] == x);
                            } else {
                                assert(self.validators@[m - 1] == x);
                            }
                        }
                    }
                    assert(self.validators@.to_set() =~= before.to_set().remove(id));
                }
                self.is_changed = true;
                Ok(())
            },
        }
    }

    /// At a new session: the validators where they changed, else `None`;
    /// either way the change is committed.
    pub fn new_session(&mut self) -> (r: Option<Vec<u64>>)
        ensures
            old(self).is_changed ==> r is Some && r->Some_0@ == old(self).validators@,
            !old(self).is_changed ==> r is None,
            final(self).validators@ == old(self).validators@,
            !final(self).is_changed,
    {
        let r = if self.is_changed {
            Some(self.validators.clone())
        } else {
            None
        };
        self.is_changed = false;
        r
    }
}

/// Adding a validator and removing it again leaves the validator set as it
/// was.
pub proof fn law_add_then_remove_validator(validators: Seq<u64>, id: u64)
    requires
        !validators.contains(id),
    ensures
        validators.push(id).to_set().remove(id) == validators.to_set(),
{
    assert forall|x: u64| validators.push(id).to_set().remove(id).contains(x)
        <==> validators.to_set().contains(x) by {
        if validators.contains(x) {
            let i = choose|i: int| 0 <= i < validators.len() && validators[i] == x;
            assert(validators.push(id)[i] == x);
        }
        if validators.push(id).contains(x) && x != id {
            let i = choose|i: int| 0 <= i < validators.push(id).len() && validators.push(id)[i] == x;
            assert(i < validators.len());
            assert(validators[i] == x);
        }
    }
    assert(validators.push(id).to_set().remove(id) =~= validators.to_set());
}

// ---------------------------------------------------------------------------
// The session environment of the tests
// ---------------------------------------------------------------------------

/// What the session pallet of the tests records: the validators of the
/// current session, whether the next block is forced to end the session,
/// the session length in blocks, whether the last new session changed the
/// validators, and the calls seen by the handler.
pub struct SessionEnv {
    pub validators: Vec<u64>,
    pub force_session_end: bool,
    pub session_length: u64,
    pub session_changed: bool,
    pub disabled: bool,
    pub before_session_end_called: bool,
}

impl SessionEnv {
    /// The environment the tests start from: validators 1, 2 and 3,
    /// sessions of two blocks.
    pub fn new() -> (r: Self)
        ensures
            r.validators@ == seq![1u64, 2u64, 3u64],
            !r.force_session_end,
            r.session_length == 2,
            !r.session_changed,
            !r.disabled,
            !r.before_session_end_called,
    {
        SessionEnv {
            validators: vec![1, 2, 3],
            force_session_end: false,
            session_length: 2,
            session_changed: false,
            disabled: false,
            before_session_end_called: false,
        }
    }
}

/// The validators of the current session.
pub fn validators(env: &SessionEnv) -> (r: Vec<u64>)
    ensures
        r@ == env.validators@,
{
    env.validators.clone()
}

/// Forces the next block to end the session.
pub fn force_new_session(env: &mut SessionEnv)
    ensures
        final(env).force_session_end,
        final(env).validators@ == old(env).validators@,
        final(env).session_length == old(env).session_length,
        final(env).session_changed == old(env).session_changed,
{
    env.force_session_end = true;
}

/// Whether the last new session changed the validators.
pub fn session_changed(env: &SessionEnv) -> (r: bool)
    ensures
        r == env.session_changed,
{
    env.session_changed
}

/// The validators of the tests' genesis.
pub fn initial_validators() -> (r: Vec<u64>)
    ensures
        r@ == seq![111u64, 222u64],
{
    vec![111, 222]
}

/// The session handler of the tests: it records what the session pallet
/// tells it.
pub struct TestSessionHandler;

impl TestSessionHandler {
    /// A new session: records whether it changed and its validators.
    pub fn on_new_session(env: &mut SessionEnv, changed: bool, validators: &Vec<u64>)
        ensures
            final(env).session_changed == changed,
            final(env).validators@ == validators@,
            final(env).force_session_end == old(env).force_session_end,
            final(env).session_length == old(env).session_length,
    {
        env.session_changed = changed;
        env.validators = validators.clone();
    }

    /// A validator is disabled.
    pub fn on_disabled(env: &mut SessionEnv)
        ensures
            final(env).disabled,
            final(env).validators@ == old(env).validators@,
    {
        env.disabled = true;
    }

    /// The session is about to end.
    pub fn on_before_session_ending(env: &mut SessionEnv)
        ensures
            final(env).before_session_end_called,
            final(env).validators@ == old(env).validators@,
    {
        env.before_session_end_called = true;
    }
}

/// When the tests' sessions end.
pub struct TestShouldEndSession;

impl TestShouldEndSession {
    /// A session ends at each multiple of the session length, or once when
    /// forced (the force is then cleared).
    pub fn should_end_session(env: &mut SessionEnv, now: u64) -> (r: bool)
        requires
            old(env).session_length > 0,
        ensures
            r == (now % old(env).session_length == 0 || old(env).force_session_end),
            final(env).force_session_end == (now % old(env).session_length == 0 && old(
                env).force_session_end),
            final(env).validators@ == old(env).validators@,
            final(env).session_length == old(env).session_length,
    {
        if now % env.session_length == 0 {
            return true;
        }
        let forced = env.force_session_end;
        env.force_session_end = false;
        forced
    }
}

} // verus!
