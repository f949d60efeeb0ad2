use crate::geometry::{Point, Rectangle, Size};
use vstd::prelude::*;

verus! {

/// A display in the shared logical layout.
#[derive(Debug, Clone, Copy, PartialEq, Eq)]
pub struct Output {
    /// Identity of the native output handle.
    pub id: u64,
    /// Position in the output layout.
    pub top_left: Point,
    pub size: Size,
}

impl Output {
    pub open spec fn extents_spec(&self) -> Rectangle {
        Rectangle { top_left: self.top_left, size: self.size }
    }

    pub open spec fn wf(&self) -> bool {
        self.extents_spec().wf()
    }

    pub fn id(&self) -> (r: u64)
        ensures
            r == self.id,
    {
        self.id
    }

    pub fn top_left(&self) -> (r: Point)
        ensures
            r == self.top_left,
    {
        self.top_left
    }

    pub fn size(&self) -> (r: Size)
        ensures
            r == self.size,
    {
        self.size
    }

    pub fn extents(&self) -> (r: Rectangle)
        ensures
            r == self.extents_spec(),
    {
        Rectangle { top_left: self.top_left, size: self.size }
    }
}

/// Whether the outputs have distinct ids and representable extents.
pub open spec fn outputs_wf(s: Seq<Output>) -> bool {
    &&& forall|i: int| 0 <= i < s.len() ==> (#[trigger] s[i]).wf()
    &&& forall|i: int, j: int| 0 <= i < j < s.len() ==> s[i].id != s[j].id
}

/// Whether some output of the list has the given id.
pub open spec fn has_output(s: Seq<Output>, id: u64) -> bool {
    exists|i: int| 0 <= i < s.len() && (#[trigger] s[i]).id == id
}

/// The connected outputs, in the order in which they were discovered.
#[derive(Debug)]
pub struct OutputManager {
    outputs: Vec<Output>,
}

impl OutputManager {
    pub closed spec fn outputs_spec(&self) -> Seq<Output> {
        self.outputs@
    }

    pub open spec fn wf(&self) -> bool {
        outputs_wf(self.outputs_spec())
    }

    pub fn new() -> (r: OutputManager)
        ensures
            r.wf(),
            r.outputs_spec().len() == 0,
    {
        OutputManager { outputs: Vec::new() }
    }

    pub fn outputs(&self) -> (r: &Vec<Output>)
        ensures
            r@ == self.outputs_spec(),
    {
        &self.outputs
    }

    /// The position of the output with the given id, if it is connected.
    pub fn position_of(&self, id: u64) -> (r: Option<usize>)
        ensures
            r.is_none() <==> !has_output(self.outputs_spec(), id),
            r.is_some() ==> r.unwrap() < self.outputs_spec().len()
                && self.outputs_spec()[r.unwrap() as int].id == id,
    {
        let mut i: usize = 0;
        while i < self.outputs.len()
            invariant
                0 <= i <= self.outputs@.len(),
                forall|k: int| 0 <= k < i ==> self.outputs@[k].id != id,
            decreases self.outputs@.len() - i,
        {
            if self.outputs[i].id == id {
                assert(self.outputs_spec()[i as int].id == id);
                return Some(i);
            }
            i = i + 1;
        }
        None
    }

    /// Registers a newly discovered output at the end of the list. An
    /// output whose id is already known, or whose extents cannot be
    /// represented, is refused.
    pub fn add_output(&mut self, output: Output) -> (added: bool)
        requires
            old(self).wf(),
        ensures
            final(self).wf(),
            added == (!has_output(old(self).outputs_spec(), output.id) && output.wf()),
            added ==> final(self).outputs_spec() == old(self).outputs_spec().push(output),
            !added ==> final(self).outputs_spec() == old(self).outputs_spec(),
    {
        let pos = self.position_of(output.id);
        let r = output.extents();
        if pos.is_some() || !r.is_representable() {
            return false;
        }
        self.outputs.push(output);
        true
    }

    /// Forgets the output with the given id and returns it.
    pub fn remove_output(&mut self, id: u64) -> (r: Option<Output>)
        requires
            old(self).wf(),
        ensures
            final(self).wf(),
            r.is_none() ==> !has_output(old(self).outputs_spec(), id) && final(self).outputs_spec()
                == old(self).outputs_spec(),
            r.is_some() ==> exists|k: int|
                0 <= k < old(self).outputs_spec().len() && old(self).outputs_spec()[k] == r.unwrap()
                    && r.unwrap().id == id && final(self).outputs_spec()
                    == old(self).outputs_spec().remove(k),
    {
        match self.position_of(id) {
            Some(k) => {
                let o = self.outputs.remove(k);
                proof {
                    let s = old(self).outputs_spec();
                    assert forall|i: int, j: int|
                        0 <= i < j < self.outputs@.len() implies self.outputs@[i].id
                        != self.outputs@[j].id by {
                        let ii = if i < k { i } else { i + 1 };
                        let jj = if j < k { j } else { j + 1 };
                        assert(self.outputs@[i] == s[ii]);
                        assert(self.outputs@[j] == s[jj]);
                    }
                    assert forall|i: int| 0 <= i < self.outputs@.len() implies (
                    #[trigger] self.outputs@[i]).wf() by {
                        let ii = if i < k { i } else { i + 1 };
                        assert(self.outputs@[i] == s[ii]);
                    }
                }
                Some(o)
            },
            None => None,
        }
    }
}

} // verus!
