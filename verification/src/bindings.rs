//! The compile-time scope chain: a stack of lexical frames, each mapping
//! declared names to their static types.
//!
//! `set` declares into the innermost frame (shadowing any outer declaration),
//! `get` searches innermost to outermost, and `reset` overwrites the nearest
//! enclosing frame that already declares the name, silently doing nothing when
//! no frame does.

use vstd::prelude::*;

use crate::text::str_eq;
use crate::types::Type;

verus! {

/// Whether no two entries share a key.
pub open spec fn type_entries_unique(entries: Seq<(String, Type)>) -> bool {
    forall|i: int, j: int|
        0 <= i < j < entries.len() ==> (#[trigger] entries[i]).0@ != (#[trigger] entries[j]).0@
}

/// The mapping a frame's entry list denotes.
pub open spec fn type_frame_view(entries: Seq<(String, Type)>) -> Map<Seq<char>, Type>
    decreases entries.len(),
{
    if entries.len() == 0 {
        Map::empty()
    } else {
        type_frame_view(entries.drop_last()).insert(entries.last().0@, entries.last().1)
    }
}

/// The type the chain associates with `name`: the innermost frame that binds
/// it wins; `None` when no frame binds it.
pub open spec fn type_env_get(env: Seq<Map<Seq<char>, Type>>, name: Seq<char>) -> Option<Type>
    decreases env.len(),
{
    if env.len() == 0 {
        None
    } else if env.last().contains_key(name) {
        Some(env.last()[name])
    } else {
        type_env_get(env.drop_last(), name)
    }
}

/// The chain after declaring `name` in the innermost frame.
pub open spec fn type_env_set(env: Seq<Map<Seq<char>, Type>>, name: Seq<char>, t: Type) -> Seq<
    Map<Seq<char>, Type>,
> {
    env.update(env.len() - 1, env.last().insert(name, t))
}

/// The chain after assigning `name` in the nearest enclosing frame that binds
/// it; the chain unchanged when no frame binds it.
pub open spec fn type_env_reset(env: Seq<Map<Seq<char>, Type>>, name: Seq<char>, t: Type) -> Seq<
    Map<Seq<char>, Type>,
>
    decreases env.len(),
{
    if env.len() == 0 {
        env
    } else if env.last().contains_key(name) {
        env.update(env.len() - 1, env.last().insert(name, t))
    } else {
        type_env_reset(env.drop_last(), name, t).push(env.last())
    }
}

proof fn lemma_type_frame_view_no_key(entries: Seq<(String, Type)>, name: Seq<char>)
    requires
        forall|i: int| 0 <= i < entries.len() ==> (#[trigger] entries[i]).0@ != name,
    ensures
        !type_frame_view(entries).contains_key(name),
    decreases entries.len(),
{
    if entries.len() > 0 {
        assert(forall|i: int|
            0 <= i < entries.drop_last().len() ==> (#[trigger] entries.drop_last()[i]) == entries[
                i
            ]);
        lemma_type_frame_view_no_key(entries.drop_last(), name);
    }
}

proof fn lemma_type_frame_view_at(entries: Seq<(String, Type)>, i: int)
    requires
        type_entries_unique(entries),
        0 <= i < entries.len(),
    ensures
        type_frame_view(entries).contains_key(entries[i].0@),
        type_frame_view(entries)[entries[i].0@] == entries[i].1,
    decreases entries.len(),
{
    if i == entries.len() - 1 {
    } else {
        assert(forall|k: int|
            0 <= k < entries.drop_last().len() ==> (#[trigger] entries.drop_last()[k]) == entries[
                k
            ]);
        lemma_type_frame_view_at(entries.drop_last(), i);
        assert(entries.last() == entries[entries.len() - 1]);
        assert(entries[entries.len() - 1].0@ != entries[i].0@);
    }
}

proof fn lemma_type_frame_update(
    of: Seq<(String, Type)>,
    nf: Seq<(String, Type)>,
    ei: int,
    name: Seq<char>,
    t: Type,
)
    requires
        type_entries_unique(of),
        0 <= ei < of.len(),
        of[ei].0@ == name,
        nf.len() == of.len(),
        nf[ei].0@ == name,
        nf[ei].1 == t,
        forall|j: int| 0 <= j < of.len() && j != ei ==> (#[trigger] nf[j]) == of[j],
    ensures
        type_entries_unique(nf),
        type_frame_view(nf) =~= type_frame_view(of).insert(name, t),
    decreases of.len(),
{
    assert(forall|j: int| 0 <= j < nf.len() ==> (#[trigger] nf[j]).0@ == of[j].0@);
    assert(type_entries_unique(nf));
    if ei == of.len() - 1 {
        assert(nf.drop_last() =~= of.drop_last());
        assert(nf.last() == nf[ei]);
    } else {
        assert(forall|k: int|
            0 <= k < of.drop_last().len() ==> (#[trigger] of.drop_last()[k]) == of[k]);
        assert(forall|k: int|
            0 <= k < nf.drop_last().len() ==> (#[trigger] nf.drop_last()[k]) == nf[k]);
        assert(type_entries_unique(of.drop_last()));
        lemma_type_frame_update(of.drop_last(), nf.drop_last(), ei, name, t);
        assert(of.last() == of[of.len() - 1]);
        assert(of[of.len() - 1].0@ != name);
        assert(nf.last() == of.last());
    }
}

proof fn lemma_type_env_reset_at(env: Seq<Map<Seq<char>, Type>>, name: Seq<char>, t: Type, fi: int)
    requires
        0 <= fi < env.len(),
        env[fi].contains_key(name),
        forall|j: int| fi < j < env.len() ==> !(#[trigger] env[j]).contains_key(name),
    ensures
        type_env_reset(env, name, t) =~= env.update(fi, env[fi].insert(name, t)),
    decreases env.len(),
{
    if fi == env.len() - 1 {
    } else {
        assert(forall|k: int|
            0 <= k < env.drop_last().len() ==> (#[trigger] env.drop_last()[k]) == env[k]);
        lemma_type_env_reset_at(env.drop_last(), name, t, fi);
        assert(env.last() == env[env.len() - 1]);
        assert(type_env_reset(env, name, t) =~= env.drop_last().update(
            fi,
            env[fi].insert(name, t),
        ).push(env[env.len() - 1]));
        assert(env.drop_last().update(fi, env[fi].insert(name, t)).push(env[env.len() - 1])
            =~= env.update(fi, env[fi].insert(name, t)));
    }
}

proof fn lemma_type_env_reset_none(env: Seq<Map<Seq<char>, Type>>, name: Seq<char>, t: Type)
    requires
        forall|j: int| 0 <= j < env.len() ==> !(#[trigger] env[j]).contains_key(name),
    ensures
        type_env_reset(env, name, t) =~= env,
    decreases env.len(),
{
    if env.len() > 0 {
        assert(forall|k: int|
            0 <= k < env.drop_last().len() ==> (#[trigger] env.drop_last()[k]) == env[k]);
        lemma_type_env_reset_none(env.drop_last(), name, t);
        assert(env.last() == env[env.len() - 1]);
        assert(type_env_reset(env, name, t) =~= env.drop_last().push(env[env.len() - 1]));
        assert(env.drop_last().push(env[env.len() - 1]) =~= env);
    }
}

/// A stack of lexical frames mapping names to static types; the root frame is
/// never popped.
#[derive(Debug)]
pub struct Bindings {
    frames: Vec<Vec<(String, Type)>>,
}

impl View for Bindings {
    type V = Seq<Map<Seq<char>, Type>>;

    closed spec fn view(&self) -> Seq<Map<Seq<char>, Type>> {
        self.frames@.map_values(|f: Vec<(String, Type)>| type_frame_view(f@))
    }
}

impl Bindings {
    /// Whether the chain is well formed: at least the root frame, and no frame
    /// declares a name twice.
    pub closed spec fn wf(&self) -> bool {
        self.frames@.len() >= 1 && forall|i: int|
            0 <= i < self.frames@.len() ==> type_entries_unique(#[trigger] self.frames@[i]@)
    }

    /// The chain always holds at least its root frame.
    pub proof fn lemma_wf_depth(&self)
        requires
            self.wf(),
        ensures
            self@.len() >= 1,
    {
    }

    /// A chain holding exactly one empty root frame.
    pub fn new() -> (r: Bindings)
        ensures
            r.wf(),
            r@ =~= seq![Map::<Seq<char>, Type>::empty()],
    {
        let mut frames: Vec<Vec<(String, Type)>> = Vec::new();
        frames.push(Vec::new());
        let r = Bindings { frames };
        proof {
            assert(r@ =~= seq![Map::<Seq<char>, Type>::empty()]);
        }
        r
    }

    /// Pushes a new, empty innermost frame.
    pub fn extend(&mut self)
        requires
            old(self).wf(),
        ensures
            final(self).wf(),
            final(self)@ =~= old(self)@.push(Map::<Seq<char>, Type>::empty()),
    {
        self.frames.push(Vec::new());
        proof {
            assert(self@ =~= old(self)@.push(Map::<Seq<char>, Type>::empty()));
        }
    }

    /// Pops the innermost frame, discarding every name it declares.
    pub fn retract(&mut self)
        requires
            old(self).wf(),
            old(self)@.len() >= 2,
        ensures
            final(self).wf(),
            final(self)@ =~= old(self)@.drop_last(),
    {
        let _ = self.frames.pop();
        proof {
            assert(self@ =~= old(self)@.drop_last());
        }
    }

    /// Looks `name` up, innermost frame first.
    pub fn get(&self, name: &str) -> (r: Option<Type>)
        requires
            self.wf(),
        ensures
            r == type_env_get(self@, name@),
    {
        let ghost env = self@;
        let mut fi: usize = self.frames.len();
        proof {
            assert(env.take(fi as int) =~= env);
        }
        while fi > 0
            invariant
                self.wf(),
                env == self@,
                fi <= self.frames@.len(),
                type_env_get(env, name@) == type_env_get(env.take(fi as int), name@),
            decreases fi,
        {
            fi = fi - 1;
            let frame = &self.frames[fi];
            let mut ei: usize = 0;
            while ei < frame.len()
                invariant
                    self.wf(),
                    env == self@,
                    fi < self.frames@.len(),
                    frame == self.frames@[fi as int],
                    type_env_get(env, name@) == type_env_get(env.take(fi as int + 1), name@),
                    ei <= frame@.len(),
                    forall|j: int| 0 <= j < ei ==> (#[trigger] frame@[j]).0@ != name@,
                decreases frame@.len() - ei,
            {
                if str_eq(frame[ei].0.as_str(), name) {
                    proof {
                        lemma_type_frame_view_at(frame@, ei as int);
                        assert(env[fi as int] == type_frame_view(frame@));
                        assert(env.take(fi as int + 1).len() == fi + 1);
                        assert(env.take(fi as int + 1).last() == env[fi as int]);
                        assert(env.take(fi as int + 1).last().contains_key(name@));
                        assert(type_env_get(env.take(fi as int + 1), name@) == Some(
                            type_frame_view(frame@)[name@],
                        ));
                        assert(type_frame_view(frame@)[name@] == frame@[ei as int].1);
                        assert(type_env_get(env, name@) == type_env_get(
                            env.take(fi as int + 1),
                            name@,
                        ));
                        assert(type_env_get(env, name@) == Some(frame@[ei as int].1));
                    }
                    return Some(frame[ei].1);
                }
                ei = ei + 1;
            }
            proof {
                lemma_type_frame_view_no_key(frame@, name@);
                assert(env[fi as int] == type_frame_view(frame@));
                assert(env.take(fi as int + 1).last() == env[fi as int]);
                assert(env.take(fi as int + 1).drop_last() =~= env.take(fi as int));
            }
        }
        proof {
            assert(env.take(0) =~= Seq::<Map<Seq<char>, Type>>::empty());
        }
        None
    }

    /// Declares `name` in the innermost frame, overwriting any declaration of
    /// the same name in that frame.
    pub fn set(&mut self, name: String, t: Type)
        requires
            old(self).wf(),
        ensures
            final(self).wf(),
            final(self)@ =~= type_env_set(old(self)@, name@, t),
    {
        let fi = self.frames.len() - 1;
        let mut ei: usize = 0;
        let len = self.frames[fi].len();
        let mut found = false;
        while ei < len && !found
            invariant
                self == old(self),
                self.wf(),
                fi == self.frames@.len() - 1,
                len == self.frames@[fi as int]@.len(),
                ei <= len,
                !found ==> forall|j: int|
                    0 <= j < ei ==> (#[trigger] self.frames@[fi as int]@[j]).0@ != name@,
                found ==> ei < len && self.frames@[fi as int]@[ei as int].0@ == name@,
            decreases len - ei + if found { 0int } else { 1int },
        {
            if str_eq(self.frames[fi][ei].0.as_str(), name.as_str()) {
                found = true;
            } else {
                ei = ei + 1;
            }
        }
        let ghost of = self.frames@[fi as int]@;
        if found {
            let mut frame = match self.frames.pop() {
                Some(f) => f,
                None => Vec::new(),
            };
            frame.set(ei, (name, t));
            self.frames.push(frame);
            proof {
                let nf = self.frames@[fi as int]@;
                assert(nf =~= of.update(ei as int, (nf[ei as int].0, t)));
                lemma_type_frame_update(of, nf, ei as int, name@, t);
                assert(self@ =~= type_env_set(old(self)@, name@, t));
            }
        } else {
            let mut frame = match self.frames.pop() {
                Some(f) => f,
                None => Vec::new(),
            };
            frame.push((name, t));
            self.frames.push(frame);
            proof {
                let nf = self.frames@[fi as int]@;
                assert(nf.drop_last() =~= of);
                assert(nf.last().0@ == name@ && nf.last().1 == t);
                assert(type_frame_view(nf) == type_frame_view(of).insert(name@, t));
                assert(forall|j: int| 0 <= j < of.len() ==> (#[trigger] nf[j]) == of[j]);
                assert(type_entries_unique(nf));
                assert(self@ =~= type_env_set(old(self)@, name@, t));
            }
        }
    }

    /// Assigns `name` in the nearest enclosing frame that declares it; does
    /// nothing when no frame declares it.
    pub fn reset(&mut self, name: String, t: Type)
        requires
            old(self).wf(),
        ensures
            final(self).wf(),
            final(self)@ =~= type_env_reset(old(self)@, name@, t),
    {
        let ghost env = old(self)@;
        let mut fi: usize = self.frames.len();
        while fi > 0
            invariant
                self == old(self),
                self.wf(),
                env == self@,
                fi <= self.frames@.len(),
                forall|j: int| fi <= j < env.len() ==> !(#[trigger] env[j]).contains_key(name@),
            decreases fi,
        {
            fi = fi - 1;
            let mut ei: usize = 0;
            let len = self.frames[fi].len();
            let mut found = false;
            while ei < len && !found
                invariant
                    self == old(self),
                    self.wf(),
                    env == self@,
                    fi < self.frames@.len(),
                    len == self.frames@[fi as int]@.len(),
                    ei <= len,
                    !found ==> forall|j: int|
                        0 <= j < ei ==> (#[trigger] self.frames@[fi as int]@[j]).0@ != name@,
                    found ==> ei < len && self.frames@[fi as int]@[ei as int].0@ == name@,
                decreases len - ei + if found { 0int } else { 1int },
            {
                if str_eq(self.frames[fi][ei].0.as_str(), name.as_str()) {
                    found = true;
                } else {
                    ei = ei + 1;
                }
            }
            let ghost of = self.frames@[fi as int]@;
            if found {
                proof {
                    lemma_type_frame_view_at(of, ei as int);
                    assert(env[fi as int] == type_frame_view(of));
                }
                let mut frame = self.frames.remove(fi);
                frame.set(ei, (name, t));
                self.frames.insert(fi, frame);
                proof {
                    let nf = self.frames@[fi as int]@;
                    assert(self.frames@ =~= old(self).frames@.update(
                        fi as int,
                        self.frames@[fi as int],
                    ));
                    assert(nf =~= of.update(ei as int, (nf[ei as int].0, t)));
                    lemma_type_frame_update(of, nf, ei as int, name@, t);
                    assert(self@ =~= env.update(fi as int, env[fi as int].insert(name@, t)));
                    lemma_type_env_reset_at(env, name@, t, fi as int);
                }
                return ;
            }
            proof {
                lemma_type_frame_view_no_key(of, name@);
                assert(env[fi as int] == type_frame_view(of));
            }
        }
        proof {
            lemma_type_env_reset_none(env, name@, t);
            assert(self@ =~= type_env_reset(env, name@, t));
        }
    }
}

} // verus!
