//! Frames and globals.
//!
//! A frame is a vector of slots with a link to the frame that encloses it.
//! Frames are shared by the closures that captured them, so they live in one
//! environment and are named by their place in it. No frame is ever taken
//! out.

use vstd::prelude::*;
use vstd::string::*;
use crate::ast::ident::IdentTarget;
use crate::runtime::error::{RuntimeError, SpecRuntimeError};
use crate::runtime::value::{values_view, FrameId, SpecValue, Value};

verus! {

/// One frame.
pub struct Frame {
    pub values: Vec<Value>,
    pub enclosing: Option<FrameId>,
}

/// The mathematical value of a [`Frame`].
pub struct SpecFrame {
    pub values: Seq<SpecValue>,
    pub enclosing: Option<FrameId>,
}

impl View for Frame {
    type V = SpecFrame;

    open spec fn view(&self) -> SpecFrame {
        SpecFrame { values: values_view(self.values@), enclosing: self.enclosing }
    }
}

/// The frame that is `scope_count` links out from `frame`, if the chain is
/// that long.
pub open spec fn ancestor(frames: Seq<SpecFrame>, frame: FrameId, scope_count: nat) -> Option<
    FrameId,
>
    decreases scope_count,
{
    if frame >= frames.len() {
        None
    } else if scope_count == 0 {
        Some(frame)
    } else {
        match frames[frame as int].enclosing {
            Some(outer) => ancestor(frames, outer, (scope_count - 1) as nat),
            None => None,
        }
    }
}

/// The frame and slot that `target` names from `frame`, if there is such a
/// slot.
pub open spec fn slot(frames: Seq<SpecFrame>, frame: FrameId, target: IdentTarget) -> Option<
    (FrameId, int),
> {
    match ancestor(frames, frame, target.scope_count as nat) {
        Some(f) => if target.index < frames[f as int].values.len() {
            Some((f, target.index as int))
        } else {
            None
        },
        None => None,
    }
}

/// The value that `target` names from `frame`.
pub open spec fn read(frames: Seq<SpecFrame>, frame: FrameId, target: IdentTarget) -> Option<
    SpecValue,
> {
    match slot(frames, frame, target) {
        Some((f, i)) => Some(frames[f as int].values[i]),
        None => None,
    }
}

/// The frames after `value` is written to the slot that `target` names from
/// `frame`; the same frames if there is no such slot.
pub open spec fn written(
    frames: Seq<SpecFrame>,
    frame: FrameId,
    target: IdentTarget,
    value: SpecValue,
) -> Seq<SpecFrame> {
    match slot(frames, frame, target) {
        Some((f, i)) => frames.update(
            f as int,
            SpecFrame { values: frames[f as int].values.update(i, value), ..frames[f as int] },
        ),
        None => frames,
    }
}

/// The value of each frame of `frames`, in order.
pub open spec fn frames_view(frames: Seq<Frame>) -> Seq<SpecFrame> {
    frames.map_values(|f: Frame| f@)
}

/// The frames of a run.
pub struct Environment {
    frames: Vec<Frame>,
}

impl View for Environment {
    type V = Seq<SpecFrame>;

    closed spec fn view(&self) -> Seq<SpecFrame> {
        frames_view(self.frames@)
    }
}

impl Environment {
    /// An environment with no frames.
    pub fn new() -> (r: Self)
        ensures
            r@ == Seq::<SpecFrame>::empty(),
    {
        let r = Environment { frames: Vec::new() };
        assert(r@ =~= Seq::<SpecFrame>::empty());
        r
    }

    /// The number of frames.
    pub fn len(&self) -> (r: usize)
        ensures
            r == self@.len(),
    {
        self.frames.len()
    }

    /// Makes a frame of `len` slots, each holding `nil`, enclosed by
    /// `enclosing`.
    pub fn push_frame(&mut self, len: u16, enclosing: Option<FrameId>) -> (r: FrameId)
        ensures
            r == old(self)@.len(),
            final(self)@ == old(self)@.push(
                SpecFrame { values: Seq::new(len as nat, |i: int| SpecValue::Nil), enclosing },
            ),
    {
        let ghost before = self@;
        let mut values: Vec<Value> = Vec::new();
        let mut i: u16 = 0;
        while i < len
            invariant
                i <= len,
                values@.len() == i,
                forall|j: int| 0 <= j < i ==> values@[j]@ == SpecValue::Nil,
            decreases len - i,
        {
            values.push(Value::Nil);
            i += 1;
        }
        let id = self.frames.len();
        let frame = Frame { values, enclosing };
        assert(frame@.values =~= Seq::new(len as nat, |i: int| SpecValue::Nil));
        self.frames.push(frame);
        assert(self@ =~= before.push(frame@));
        id
    }

    /// The frame that is `scope_count` links out from `frame`.
    fn walk(&self, frame: FrameId, scope_count: u16) -> (r: Option<FrameId>)
        ensures
            r == ancestor(self@, frame, scope_count as nat),
            r matches Some(f) ==> f < self@.len(),
    {
        let mut current = frame;
        let mut left = scope_count;
        loop
            invariant
                    ancestor(self@, frame, scope_count as nat) == ancestor(self@, current, left as nat),
            decreases left,
        {
            if current >= self.frames.len() {
                return None;
            }
            if left == 0 {
                return Some(current);
            }
            match self.frames[current].enclosing {
                Some(outer) => {
                    assert(self@[current as int] == self.frames@[current as int]@);
                    current = outer;
                    left = left - 1;
                },
                None => {
                    assert(self@[current as int] == self.frames@[current as int]@);
                    return None;
                },
            }
        }
    }

    /// The value in the slot that `target` names from `frame`; `None` if the
    /// chain of frames is too short or the frame has no such slot.
    pub fn get(&self, frame: FrameId, target: IdentTarget) -> (r: Option<Value>)
        ensures
            match r {
                Some(v) => read(self@, frame, target) == Some(v@),
                None => read(self@, frame, target) is None,
            },
    {
        match self.walk(frame, target.scope_count) {
            Some(f) => {
                assert(self@[f as int] == self.frames@[f as int]@);
                let index = target.index as usize;
                if index < self.frames[f].values.len() {
                    Some(self.frames[f].values[index].clone())
                } else {
                    None
                }
            },
            None => None,
        }
    }

    /// Writes `value` to the slot that `target` names from `frame`. Says
    /// whether there is such a slot; if not, nothing changes.
    pub fn assign(&mut self, frame: FrameId, target: IdentTarget, value: Value) -> (r: bool)
        ensures
            r == slot(old(self)@, frame, target) is Some,
            final(self)@ == written(old(self)@, frame, target, value@),
    {
        match self.walk(frame, target.scope_count) {
            Some(f) => {
                let ghost before = self@;
                assert(self@[f as int] == self.frames@[f as int]@);
                let index = target.index as usize;
                if index < self.frames[f].values.len() {
                    let mut taken = Frame { values: Vec::new(), enclosing: None };
                    core::mem::swap(&mut taken, &mut self.frames[f]);
                    taken.values.set(index, value);
                    core::mem::swap(&mut taken, &mut self.frames[f]);
                    assert(self@ =~= written(before, frame, target, value@)) by {
                        assert(self@[f as int].values =~= before[f as int].values.update(
                            index as int,
                            value@,
                        ));
                    }
                    true
                } else {
                    false
                }
            },
            None => false,
        }
    }
}

/// One global: its name and its value.
pub struct Global {
    pub name: String,
    pub value: Value,
}

/// The globals, as the names with their values in the order in which the
/// names were first defined. The globals are a map from names to values: no
/// name occurs twice.
pub struct GlobalEnvironment {
    values: Vec<Global>,
}

/// The place of `name` among the globals, looking from `i` on.
pub open spec fn global_from(globals: Seq<(Seq<char>, SpecValue)>, name: Seq<char>, i: int) -> Option<
    int,
>
    decreases globals.len() - i,
{
    if !(0 <= i < globals.len()) {
        None
    } else if globals[i].0 == name {
        Some(i)
    } else {
        global_from(globals, name, i + 1)
    }
}

/// The value of the global `name`, if it is defined.
pub open spec fn global_value(globals: Seq<(Seq<char>, SpecValue)>, name: Seq<char>) -> Option<
    SpecValue,
> {
    match global_from(globals, name, 0) {
        Some(i) => Some(globals[i].1),
        None => None,
    }
}

/// The globals after `name` is defined as `value`: a new global, or a new
/// value for the one of that name.
pub open spec fn global_defined(
    globals: Seq<(Seq<char>, SpecValue)>,
    name: Seq<char>,
    value: SpecValue,
) -> Seq<(Seq<char>, SpecValue)> {
    match global_from(globals, name, 0) {
        Some(i) => globals.update(i, (name, value)),
        None => globals.push((name, value)),
    }
}

/// No name occurs twice among the globals.
pub open spec fn globals_distinct(globals: Seq<(Seq<char>, SpecValue)>) -> bool {
    forall|i: int, j: int|
        0 <= i < j < globals.len() ==> (#[trigger] globals[i]).0 != (#[trigger] globals[j]).0
}

/// The place that a lookup gives holds the name, and no place before it
/// does; a lookup that gives no place finds the name nowhere.
pub proof fn lemma_global_from(globals: Seq<(Seq<char>, SpecValue)>, name: Seq<char>, i: int)
    requires
        0 <= i,
    ensures
        match global_from(globals, name, i) {
            Some(j) => i <= j < globals.len() && globals[j].0 == name && forall|k: int|
                i <= k < j ==> (#[trigger] globals[k]).0 != name,
            None => forall|k: int| i <= k < globals.len() ==> (#[trigger] globals[k]).0 != name,
        },
    decreases globals.len() - i,
{
    if i < globals.len() && globals[i].0 != name {
        lemma_global_from(globals, name, i + 1);
    }
}

/// Defining a global keeps the names distinct.
pub proof fn lemma_defined_distinct(
    globals: Seq<(Seq<char>, SpecValue)>,
    name: Seq<char>,
    value: SpecValue,
)
    requires
        globals_distinct(globals),
    ensures
        globals_distinct(global_defined(globals, name, value)),
        global_value(global_defined(globals, name, value), name) == Some(value),
{
    lemma_global_from(globals, name, 0);
    let out = global_defined(globals, name, value);
    lemma_global_from(out, name, 0);
    match global_from(globals, name, 0) {
        Some(i) => {
            assert(out[i].0 == name);
        },
        None => {
            assert(out[globals.len() as int].0 == name);
        },
    }
}

impl View for GlobalEnvironment {
    type V = Seq<(Seq<char>, SpecValue)>;

    closed spec fn view(&self) -> Seq<(Seq<char>, SpecValue)> {
        self.values@.map_values(|g: Global| (g.name@, g.value@))
    }
}

impl GlobalEnvironment {
    /// No name occurs twice.
    pub open spec fn wf(&self) -> bool {
        globals_distinct(self@)
    }

    /// No globals.
    pub fn new() -> (r: Self)
        ensures
            r@ == Seq::<(Seq<char>, SpecValue)>::empty(),
            r.wf(),
    {
        let r = GlobalEnvironment { values: Vec::new() };
        assert(r@ =~= Seq::<(Seq<char>, SpecValue)>::empty());
        r
    }

    /// The place of `name`.
    fn find(&self, name: &String) -> (r: Option<usize>)
        ensures
            match r {
                Some(i) => global_from(self@, name@, 0) == Some(i as int) && i < self.values@.len(),
                None => global_from(self@, name@, 0) is None,
            },
    {
        let mut i: usize = 0;
        while i < self.values.len()
            invariant
                i <= self.values@.len(),
                self@.len() == self.values@.len(),
                global_from(self@, name@, 0) == global_from(self@, name@, i as int),
            decreases self.values@.len() - i,
        {
            assert(self@[i as int].0 == self.values@[i as int].name@);
            if self.values[i].name == *name {
                return Some(i);
            }
            i += 1;
        }
        None
    }

    /// Defines `name` as `value`, whether or not it was defined before.
    pub fn define(&mut self, name: &String, value: Value)
        ensures
            final(self)@ == global_defined(old(self)@, name@, value@),
            old(self).wf() ==> final(self).wf(),
    {
        let ghost before = self@;
        proof {
            if self.wf() {
                lemma_defined_distinct(before, name@, value@);
            }
        }
        match self.find(name) {
            Some(i) => {
                self.values.set(i, Global { name: name.clone(), value });
                assert(self@ =~= before.update(i as int, (name@, value@)));
            },
            None => {
                self.values.push(Global { name: name.clone(), value });
                assert(self@ =~= before.push((name@, value@)));
            },
        }
    }

    /// Gives the global `name` the value `value`; fails if there is no such
    /// global, and then nothing changes.
    pub fn assign(&mut self, name: &String, value: Value) -> (r: Result<(), RuntimeError>)
        ensures
            match r {
                Ok(_) => global_value(old(self)@, name@) is Some && final(self)@ == global_defined(
                    old(self)@,
                    name@,
                    value@,
                ),
                Err(e) => global_value(old(self)@, name@) is None && final(self)@ == old(self)@
                    && e@ == (SpecRuntimeError::UndefinedVariable { name: name@ }),
            },
            old(self).wf() ==> final(self).wf(),
    {
        let ghost before = self@;
        proof {
            if self.wf() {
                lemma_defined_distinct(before, name@, value@);
            }
        }
        match self.find(name) {
            Some(i) => {
                self.values.set(i, Global { name: name.clone(), value });
                assert(self@ =~= before.update(i as int, (name@, value@)));
                Ok(())
            },
            None => Err(RuntimeError::UndefinedVariable { name: name.clone() }),
        }
    }

    /// The value of the global `name`; fails if there is no such global.
    pub fn get(&self, name: &String) -> (r: Result<Value, RuntimeError>)
        ensures
            match r {
                Ok(v) => global_value(self@, name@) == Some(v@),
                Err(e) => global_value(self@, name@) is None && e@
                    == (SpecRuntimeError::UndefinedVariable { name: name@ }),
            },
    {
        match self.find(name) {
            Some(i) => {
                assert(self@[i as int].1 == self.values@[i as int].value@);
                Ok(self.values[i].value.clone())
            },
            None => Err(RuntimeError::UndefinedVariable { name: name.clone() }),
        }
    }
}

} // verus!
