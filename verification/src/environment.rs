//! The run-time scope chain: a stack of lexical frames, each mapping declared
//! names to their current values.
//!
//! It mirrors the compile-time chain exactly: `set` declares into the
//! innermost frame, `get` searches innermost to outermost and hands back a
//! copy, and `reset` overwrites the nearest enclosing frame that already
//! declares the name, silently doing nothing when no frame does.

use vstd::prelude::*;

use crate::text::str_eq;
use crate::types::Object;
use crate::types::Value;

verus! {

/// Whether no two entries share a key.
pub open spec fn value_entries_unique(entries: Seq<(String, Object)>) -> bool {
    forall|i: int, j: int|
        0 <= i < j < entries.len() ==> (#[trigger] entries[i]).0@ != (#[trigger] entries[j]).0@
}

/// The mapping a frame's entry list denotes.
pub open spec fn value_frame_view(entries: Seq<(String, Object)>) -> Map<Seq<char>, Value>
    decreases entries.len(),
{
    if entries.len() == 0 {
        Map::empty()
    } else {
        value_frame_view(entries.drop_last()).insert(entries.last().0@, entries.last().1@)
    }
}

/// The value the chain associates with `name`: the innermost frame that binds
/// it wins; `None` when no frame binds it.
pub open spec fn value_env_get(env: Seq<Map<Seq<char>, Value>>, name: Seq<char>) -> Option<Value>
    decreases env.len(),
{
    if env.len() == 0 {
        None
    } else if env.last().contains_key(name) {
        Some(env.last()[name])
    } else {
        value_env_get(env.drop_last(), name)
    }
}

/// The chain after declaring `name` in the innermost frame.
pub open spec fn value_env_set(env: Seq<Map<Seq<char>, Value>>, name: Seq<char>, v: Value) -> Seq<
    Map<Seq<char>, Value>,
> {
    env.update(env.len() - 1, env.last().insert(name, v))
}

/// The chain after assigning `name` in the nearest enclosing frame that binds
/// it; the chain unchanged when no frame binds it.
pub open spec fn value_env_reset(env: Seq<Map<Seq<char>, Value>>, name: Seq<char>, v: Value) -> Seq<
    Map<Seq<char>, Value>,
>
    decreases env.len(),
{
    if env.len() == 0 {
        env
    } else if env.last().contains_key(name) {
        env.update(env.len() - 1, env.last().insert(name, v))
    } else {
        value_env_reset(env.drop_last(), name, v).push(env.last())
    }
}

proof fn lemma_value_frame_view_no_key(entries: Seq<(String, Object)>, name: Seq<char>)
    requires
        forall|i: int| 0 <= i < entries.len() ==> (#[trigger] entries[i]).0@ != name,
    ensures
        !value_frame_view(entries).contains_key(name),
    decreases entries.len(),
{
    if entries.len() > 0 {
        assert(forall|i: int|
            0 <= i < entries.drop_last().len() ==> (#[trigger] entries.drop_last()[i]) == entries[
                i
            ]);
        lemma_value_frame_view_no_key(entries.drop_last(), name);
    }
}

proof fn lemma_value_frame_view_at(entries: Seq<(String, Object)>, i: int)
    requires
        value_entries_unique(entries),
        0 <= i < entries.len(),
    ensures
        value_frame_view(entries).contains_key(entries[i].0@),
        value_frame_view(entries)[entries[i].0@] == entries[i].1@,
    decreases entries.len(),
{
    if i == entries.len() - 1 {
    } else {
        assert(forall|k: int|
            0 <= k < entries.drop_last().len() ==> (#[trigger] entries.drop_last()[k]) == entries[
                k
            ]);
        lemma_value_frame_view_at(entries.drop_last(), i);
        assert(entries.last() == entries[entries.len() - 1]);
        assert(entries[entries.len() - 1].0@ != entries[i].0@);
    }
}

proof fn lemma_value_frame_update(
    of: Seq<(String, Object)>,
    nf: Seq<(String, Object)>,
    ei: int,
    name: Seq<char>,
    v: Value,
)
    requires
        value_entries_unique(of),
        0 <= ei < of.len(),
        of[ei].0@ == name,
        nf.len() == of.len(),
        nf[ei].0@ == name,
        nf[ei].1@ == v,
        forall|j: int| 0 <= j < of.len() && j != ei ==> (#[trigger] nf[j]) == of[j],
    ensures
        value_entries_unique(nf),
        value_frame_view(nf) =~= value_frame_view(of).insert(name, v),
    decreases of.len(),
{
    assert(forall|j: int| 0 <= j < nf.len() ==> (#[trigger] nf[j]).0@ == of[j].0@);
    assert(value_entries_unique(nf));
    if ei == of.len() - 1 {
        assert(nf.drop_last() =~= of.drop_last());
        assert(nf.last() == nf[ei]);
    } else {
        assert(forall|k: int|
            0 <= k < of.drop_last().len() ==> (#[trigger] of.drop_last()[k]) == of[k]);
        assert(forall|k: int|
            0 <= k < nf.drop_last().len() ==> (#[trigger] nf.drop_last()[k]) == nf[k]);
        assert(value_entries_unique(of.drop_last()));
        lemma_value_frame_update(of.drop_last(), nf.drop_last(), ei, name, v);
        assert(of.last() == of[of.len() - 1]);
        assert(of[of.len() - 1].0@ != name);
        assert(nf.last() == of.last());
    }
}

proof fn lemma_value_env_reset_at(
    env: Seq<Map<Seq<char>, Value>>,
    name: Seq<char>,
    v: Value,
    fi: int,
)
    requires
        0 <= fi < env.len(),
        env[fi].contains_key(name),
        forall|j: int| fi < j < env.len() ==> !(#[trigger] env[j]).contains_key(name),
    ensures
        value_env_reset(env, name, v) =~= env.update(fi, env[fi].insert(name, v)),
    decreases env.len(),
{
    if fi == env.len() - 1 {
    } else {
        assert(forall|k: int|
            0 <= k < env.drop_last().len() ==> (#[trigger] env.drop_last()[k]) == env[k]);
        lemma_value_env_reset_at(env.drop_last(), name, v, fi);
        assert(env.last() == env[env.len() - 1]);
        assert(value_env_reset(env, name, v) =~= env.drop_last().update(
            fi,
            env[fi].insert(name, v),
        ).push(env[env.len() - 1]));
        assert(env.drop_last().update(fi, env[fi].insert(name, v)).push(env[env.len() - 1])
            =~= env.update(fi, env[fi].insert(name, v)));
    }
}

proof fn lemma_value_env_reset_none(env: Seq<Map<Seq<char>, Value>>, name: Seq<char>, v: Value)
    requires
        forall|j: int| 0 <= j < env.len() ==> !(#[trigger] env[j]).contains_key(name),
    ensures
        value_env_reset(env, name, v) =~= env,
    decreases env.len(),
{
    if env.len() > 0 {
        assert(forall|k: int|
            0 <= k < env.drop_last().len() ==> (#[trigger] env.drop_last()[k]) == env[k]);
        lemma_value_env_reset_none(env.drop_last(), name, v);
        assert(env.last() == env[env.len() - 1]);
        assert(value_env_reset(env, name, v) =~= env.drop_last().push(env[env.len() - 1]));
        assert(env.drop_last().push(env[env.len() - 1]) =~= env);
    }
}

/// Lexical shadowing does not leak: declaring a name in a fresh innermost
/// frame shadows any outer declaration while the frame lives, and dropping
/// that frame restores the chain exactly as it was, whatever the name and
/// whatever it shadowed.
pub proof fn lemma_shadowing_does_not_leak(
    env: Seq<Map<Seq<char>, Value>>,
    name: Seq<char>,
    inner: Value,
)
    ensures
        value_env_get(value_env_set(env.push(Map::empty()), name, inner), name) == Some(inner),
        value_env_set(env.push(Map::empty()), name, inner).drop_last() =~= env,
{
    let extended = env.push(Map::<Seq<char>, Value>::empty());
    let declared = value_env_set(extended, name, inner);
    assert(declared.last() == extended.last().insert(name, inner));
    assert(declared.last().contains_key(name));
    assert(declared.drop_last() =~= env);
}

/// A stack of lexical frames mapping names to runtime values; the root frame
/// is never popped.
#[derive(Debug)]
pub struct Environment {
    frames: Vec<Vec<(String, Object)>>,
}

impl View for Environment {
    type V = Seq<Map<Seq<char>, Value>>;

    closed spec fn view(&self) -> Seq<Map<Seq<char>, Value>> {
        self.frames@.map_values(|f: Vec<(String, Object)>| value_frame_view(f@))
    }
}

impl Environment {
    /// Whether the chain is well formed: at least the root frame, and no frame
    /// declares a name twice.
    pub closed spec fn wf(&self) -> bool {
        self.frames@.len() >= 1 && forall|i: int|
            0 <= i < self.frames@.len() ==> value_entries_unique(#[trigger] self.frames@[i]@)
    }

    /// The chain always holds at least its root frame.
    pub proof fn lemma_wf_depth(&self)
        requires
            self.wf(),
        ensures
            self@.len() >= 1,
    {
    }

    /// A chain holding exactly one empty root frame.
    pub fn new() -> (r: Environment)
        ensures
            r.wf(),
            r@ =~= seq![Map::<Seq<char>, Value>::empty()],
    {
        let mut frames: Vec<Vec<(String, Object)>> = Vec::new();
        frames.push(Vec::new());
        let r = Environment { frames };
        proof {
            assert(r@ =~= seq![Map::<Seq<char>, Value>::empty()]);
        }
        r
    }

    /// Pushes a new, empty innermost frame.
    pub fn extend(&mut self)
        requires
            old(self).wf(),
        ensures
            final(self).wf(),
            final(self)@ =~= old(self)@.push(Map::<Seq<char>, Value>::empty()),
    {
        self.frames.push(Vec::new());
        proof {
            assert(self@ =~= old(self)@.push(Map::<Seq<char>, Value>::empty()));
        }
    }

    /// Pops the innermost frame, discarding every name it declares.
    pub fn retract(&mut self)
        requires
            old(self).wf(),
            old(self)@.len() >= 2,
        ensures
            final(self).wf(),
            final(self)@ =~= old(self)@.drop_last(),
    {
        let _ = self.frames.pop();
        proof {
            assert(self@ =~= old(self)@.drop_last());
        }
    }

    /// Looks `name` up, innermost frame first, handing back a copy of the
    /// bound value.
    pub fn get(&self, name: &str) -> (r: Option<Object>)
        requires
            self.wf(),
        ensures
            match r {
                Some(o) => value_env_get(self@, name@) == Some(o@),
                None => value_env_get(self@, name@) is None,
            },
    {
        let ghost env = self@;
        let mut fi: usize = self.frames.len();
        proof {
            assert(env.take(fi as int) =~= env);
        }
        while fi > 0
            invariant
                self.wf(),
                env == self@,
                fi <= self.frames@.len(),
                value_env_get(env, name@) == value_env_get(env.take(fi as int), name@),
            decreases fi,
        {
            fi = fi - 1;
            let frame = &self.frames[fi];
            let mut ei: usize = 0;
            while ei < frame.len()
                invariant
                    self.wf(),
                    env == self@,
                    fi < self.frames@.len(),
                    frame == self.frames@[fi as int],
                    value_env_get(env, name@) == value_env_get(env.take(fi as int + 1), name@),
                    ei <= frame@.len(),
                    forall|j: int| 0 <= j < ei ==> (#[trigger] frame@[j]).0@ != name@,
                decreases frame@.len() - ei,
            {
                if str_eq(frame[ei].0.as_str(), name) {
                    proof {
                        lemma_value_frame_view_at(frame@, ei as int);
                        assert(env[fi as int] == value_frame_view(frame@));
                        assert(env.take(fi as int + 1).len() == fi + 1);
                        assert(env.take(fi as int + 1).last() == env[fi as int]);
                        assert(env.take(fi as int + 1).last().contains_key(name@));
                        assert(value_env_get(env.take(fi as int + 1), name@) == Some(
                            value_frame_view(frame@)[name@],
                        ));
                        assert(value_frame_view(frame@)[name@] == frame@[ei as int].1@);
                        assert(value_env_get(env, name@) == Some(frame@[ei as int].1@));
                    }
                    return Some(frame[ei].1.duplicate());
                }
                ei = ei + 1;
            }
            proof {
                lemma_value_frame_view_no_key(frame@, name@);
                assert(env[fi as int] == value_frame_view(frame@));
                assert(env.take(fi as int + 1).last() == env[fi as int]);
                assert(env.take(fi as int + 1).drop_last() =~= env.take(fi as int));
            }
        }
        proof {
            assert(env.take(0) =~= Seq::<Map<Seq<char>, Value>>::empty());
        }
        None
    }

    /// Declares `name` in the innermost frame, overwriting any declaration of
    /// the same name in that frame.
    pub fn set(&mut self, name: String, object: Object)
        requires
            old(self).wf(),
        ensures
            final(self).wf(),
            final(self)@ =~= value_env_set(old(self)@, name@, object@),
    {
        let fi = self.frames.len() - 1;
        let mut ei: usize = 0;
        let len = self.frames[fi].len();
        let mut found = false;
        while ei < len && !found
            invariant
                self == old(self),
                self.wf(),
                fi == self.frames@.len() - 1,
                len == self.frames@[fi as int]@.len(),
                ei <= len,
                !found ==> forall|j: int|
                    0 <= j < ei ==> (#[trigger] self.frames@[fi as int]@[j]).0@ != name@,
                found ==> ei < len && self.frames@[fi as int]@[ei as int].0@ == name@,
            decreases len - ei + if found { 0int } else { 1int },
        {
            if str_eq(self.frames[fi][ei].0.as_str(), name.as_str()) {
                found = true;
            } else {
                ei = ei + 1;
            }
        }
        let ghost of = self.frames@[fi as int]@;
        let ghost v = object@;
        if found {
            let mut frame = match self.frames.pop() {
                Some(f) => f,
                None => Vec::new(),
            };
            frame.set(ei, (name, object));
            self.frames.push(frame);
            proof {
                let nf = self.frames@[fi as int]@;
                assert(nf =~= of.update(ei as int, (nf[ei as int].0, nf[ei as int].1)));
                lemma_value_frame_update(of, nf, ei as int, name@, v);
                assert(self@ =~= value_env_set(old(self)@, name@, v));
            }
        } else {
            let mut frame = match self.frames.pop() {
                Some(f) => f,
                None => Vec::new(),
            };
            frame.push((name, object));
            self.frames.push(frame);
            proof {
                let nf = self.frames@[fi as int]@;
                assert(nf.drop_last() =~= of);
                assert(nf.last().0@ == name@ && nf.last().1@ == v);
                assert(value_frame_view(nf) == value_frame_view(of).insert(name@, v));
                assert(forall|j: int| 0 <= j < of.len() ==> (#[trigger] nf[j]) == of[j]);
                assert(value_entries_unique(nf));
                assert(self@ =~= value_env_set(old(self)@, name@, v));
            }
        }
    }

    /// Assigns `name` in the nearest enclosing frame that declares it; does
    /// nothing when no frame declares it.
    pub fn reset(&mut self, name: String, object: Object)
        requires
            old(self).wf(),
        ensures
            final(self).wf(),
            final(self)@ =~= value_env_reset(old(self)@, name@, object@),
    {
        let ghost env = old(self)@;
        let ghost v = object@;
        let mut fi: usize = self.frames.len();
        while fi > 0
            invariant
                self == old(self),
                self.wf(),
                env == self@,
                v == object@,
                fi <= self.frames@.len(),
                forall|j: int| fi <= j < env.len() ==> !(#[trigger] env[j]).contains_key(name@),
            decreases fi,
        {
            fi = fi - 1;
            let mut ei: usize = 0;
            let len = self.frames[fi].len();
            let mut found = false;
            while ei < len && !found
                invariant
                    self == old(self),
                    self.wf(),
                    env == self@,
                    v == object@,
                    fi < self.frames@.len(),
                    len == self.frames@[fi as int]@.len(),
                    ei <= len,
                    !found ==> forall|j: int|
                        0 <= j < ei ==> (#[trigger] self.frames@[fi as int]@[j]).0@ != name@,
                    found ==> ei < len && self.frames@[fi as int]@[ei as int].0@ == name@,
                decreases len - ei + if found { 0int } else { 1int },
            {
                if str_eq(self.frames[fi][ei].0.as_str(), name.as_str()) {
                    found = true;
                } else {
                    ei = ei + 1;
                }
            }
            let ghost of = self.frames@[fi as int]@;
            if found {
                proof {
                    lemma_value_frame_view_at(of, ei as int);
                    assert(env[fi as int] == value_frame_view(of));
                }
                let mut frame = self.frames.remove(fi);
                frame.set(ei, (name, object));
                proof {
                    assert(frame@[ei as int].0@ == name@);
                    assert(frame@[ei as int].1@ == v);
                }
                self.frames.insert(fi, frame);
                proof {
                    let nf = self.frames@[fi as int]@;
                    assert(nf[ei as int].0@ == name@);
                    assert(nf[ei as int].1@ == v);
                    assert(self.frames@ =~= old(self).frames@.update(
                        fi as int,
                        self.frames@[fi as int],
                    ));
                    assert(nf =~= of.update(ei as int, (nf[ei as int].0, nf[ei as int].1)));
                    lemma_value_frame_update(of, nf, ei as int, name@, v);
                    assert(self@ =~= env.update(fi as int, env[fi as int].insert(name@, v)));
                    lemma_value_env_reset_at(env, name@, v, fi as int);
                }
                return ;
            }
            proof {
                lemma_value_frame_view_no_key(of, name@);
                assert(env[fi as int] == value_frame_view(of));
            }
        }
        proof {
            lemma_value_env_reset_none(env, name@, v);
            assert(self@ =~= value_env_reset(env, name@, v));
        }
    }
}

} // verus!
